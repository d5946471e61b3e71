//! A small table of values by id, in the order in which the ids came.

use vstd::prelude::*;

use crate::text::same;
use crate::types::text_views;

verus! {

/// Values by id. No id occurs twice.
pub struct Roster<T> {
    entries: Vec<(String, T)>,
}

/// Whether no two entries have the same id.
spec fn ids_differ<T>(entries: Seq<(String, T)>) -> bool {
    forall|i: int, j: int|
        0 <= i < j < entries.len() ==> #[trigger] entries[i].0@ != #[trigger] entries[j].0@
}

/// Whether the entry at a position is the one of an id.
spec fn is_at<T>(entries: Seq<(String, T)>, id: Seq<char>, i: int) -> bool {
    0 <= i < entries.len() && entries[i].0@ == id
}

/// The entries by id.
spec fn table<T>(entries: Seq<(String, T)>) -> Map<Seq<char>, T> {
    Map::new(
        |id: Seq<char>| exists|i: int| is_at(entries, id, i),
        |id: Seq<char>| entries[choose|i: int| is_at(entries, id, i)].1,
    )
}

/// Where an id is found, the table has its value.
proof fn lemma_table_has<T>(entries: Seq<(String, T)>, i: int)
    requires
        ids_differ(entries),
        0 <= i < entries.len(),
    ensures
        table(entries).contains_key(entries[i].0@),
        table(entries)[entries[i].0@] == entries[i].1,
{
    let id = entries[i].0@;
    assert(is_at(entries, id, i));
    let k = choose|k: int| is_at(entries, id, k);
    assert(is_at(entries, id, k));
    if k < i {
        assert(entries[k].0@ != entries[i].0@);
    } else if i < k {
        assert(entries[i].0@ != entries[k].0@);
    }
}

/// What the table has is found at some position.
proof fn lemma_table_only_has<T>(entries: Seq<(String, T)>, id: Seq<char>) -> (i: int)
    requires
        table(entries).contains_key(id),
    ensures
        is_at(entries, id, i),
        table(entries)[id] == entries[i].1,
{
    choose|i: int| is_at(entries, id, i)
}

/// Changing the value at a position changes it in the table, and nothing else.
proof fn lemma_table_update<T>(entries: Seq<(String, T)>, i: int)
    requires
        ids_differ(entries),
        0 <= i < entries.len(),
    ensures
        forall|value: T|
            #![trigger entries.update(i, (entries[i].0, value))]
            ids_differ(entries.update(i, (entries[i].0, value))) && table(
                entries.update(i, (entries[i].0, value)),
            ) == table(entries).insert(entries[i].0@, value),
{
    assert forall|value: T|
        #![trigger entries.update(i, (entries[i].0, value))]
        ids_differ(entries.update(i, (entries[i].0, value))) && table(
            entries.update(i, (entries[i].0, value)),
        ) == table(entries).insert(entries[i].0@, value) by {
        let after = entries.update(i, (entries[i].0, value));
        let id = entries[i].0@;
        assert(forall|j: int| 0 <= j < after.len() ==> #[trigger] after[j].0@ == entries[j].0@);
        assert(ids_differ(after));
        assert forall|other: Seq<char>|
            table(after).contains_key(other) == table(entries).contains_key(other) by {
            if table(after).contains_key(other) {
                let j = lemma_table_only_has(after, other);
                assert(is_at(entries, other, j));
            }
            if table(entries).contains_key(other) {
                let j = lemma_table_only_has(entries, other);
                assert(is_at(after, other, j));
            }
        }
        assert forall|other: Seq<char>| table(after).contains_key(other) implies #[trigger] table(
            after,
        )[other] == table(entries).insert(id, value)[other] by {
            let j = lemma_table_only_has(after, other);
            lemma_table_has(entries, j);
        }
        lemma_table_has(after, i);
        assert(table(after) =~= table(entries).insert(id, value));
    }
}

impl<T> View for Roster<T> {
    type V = Map<Seq<char>, T>;

    closed spec fn view(&self) -> Map<Seq<char>, T> {
        table(self.entries@)
    }
}

impl<T> Roster<T> {
    /// No id occurs twice.
    pub closed spec fn wf(&self) -> bool {
        ids_differ(self.entries@)
    }

    /// A roster with no entries.
    pub fn new() -> (roster: Self)
        ensures
            roster.wf(),
            roster@ == Map::<Seq<char>, T>::empty(),
    {
        let roster = Roster { entries: Vec::new() };
        assert(roster@ =~= Map::<Seq<char>, T>::empty());
        roster
    }

    /// Where an id stands.
    fn position(&self, id: &str) -> (at: Option<usize>)
        ensures
            match at {
                Some(i) => is_at(self.entries@, id@, i as int),
                None => !self@.contains_key(id@),
            },
    {
        let mut i: usize = 0;
        while i < self.entries.len()
            invariant
                i <= self.entries.len(),
                forall|j: int| 0 <= j < i ==> !is_at(self.entries@, id@, j),
            decreases self.entries.len() - i,
        {
            if same(self.entries[i].0.as_str(), id) {
                return Some(i);
            }
            i += 1;
        }
        None
    }

    /// Whether an id is on the roster.
    pub fn contains(&self, id: &str) -> (found: bool)
        ensures
            found == self@.contains_key(id@),
    {
        self.position(id).is_some()
    }

    /// The value of an id.
    pub fn get(&self, id: &str) -> (value: Option<&T>)
        requires
            self.wf(),
        ensures
            match value {
                Some(v) => self@.contains_key(id@) && *v == self@[id@],
                None => !self@.contains_key(id@),
            },
    {
        match self.position(id) {
            Some(i) => {
                proof {
                    lemma_table_has(self.entries@, i as int);
                }
                Some(&self.entries[i].1)
            },
            None => None,
        }
    }

    /// The value of an id, to be changed in place.
    pub fn get_mut(&mut self, id: &str) -> (value: Option<&mut T>)
        requires
            old(self).wf(),
        ensures
            match value {
                Some(v) => {
                    &&& old(self)@.contains_key(id@)
                    &&& *v == old(self)@[id@]
                    &&& final(self).wf()
                    &&& final(self)@ == old(self)@.insert(id@, *final(v))
                },
                None => {
                    &&& !old(self)@.contains_key(id@)
                    &&& final(self).wf()
                    &&& final(self)@ == old(self)@
                },
            },
    {
        let ghost before = self.entries@;
        match self.position(id) {
            Some(i) => {
                proof {
                    lemma_table_has(before, i as int);
                    lemma_table_update(before, i as int);
                }
                Some(&mut self.entries[i].1)
            },
            None => None,
        }
    }

    /// Puts a value under an id, in place of the one that was there.
    pub fn insert(&mut self, id: String, value: T)
        requires
            old(self).wf(),
        ensures
            final(self).wf(),
            final(self)@ == old(self)@.insert(id@, value),
    {
        let ghost before = self.entries@;
        let ghost key = id@;
        let ghost at: int;
        match self.position(id.as_str()) {
            Some(i) => {
                proof {
                    at = i as int;
                }
                self.entries.set(i, (id, value));
            },
            None => {
                proof {
                    at = before.len() as int;
                    assert forall|j: int| 0 <= j < before.len() implies #[trigger] before[j].0@
                        != key by {
                        if before[j].0@ == key {
                            assert(is_at(before, key, j));
                        }
                    }
                }
                self.entries.push((id, value));
            },
        }
        proof {
            let after = self.entries@;
            assert forall|other: Seq<char>|
                table(after).contains_key(other) == table(before).insert(key, value).contains_key(
                    other,
                ) by {
                if other == key {
                    lemma_table_has(after, at);
                } else if table(after).contains_key(other) {
                    let j = lemma_table_only_has(after, other);
                    assert(is_at(before, other, j));
                } else if table(before).contains_key(other) {
                    let j = lemma_table_only_has(before, other);
                    assert(is_at(after, other, j));
                }
            }
            assert forall|other: Seq<char>| table(after).contains_key(other) implies #[trigger] table(
                after,
            )[other] == table(before).insert(key, value)[other] by {
                if other == key {
                    lemma_table_has(after, at);
                } else {
                    let j = lemma_table_only_has(after, other);
                    assert(before[j] == after[j]);
                    lemma_table_has(before, j);
                }
            }
            assert(table(after) =~= table(before).insert(key, value));
        }
    }

    /// Takes an id off the roster.
    pub fn remove(&mut self, id: &str) -> (value: Option<T>)
        requires
            old(self).wf(),
        ensures
            final(self).wf(),
            final(self)@ == old(self)@.remove(id@),
            match value {
                Some(v) => old(self)@.contains_key(id@) && v == old(self)@[id@],
                None => !old(self)@.contains_key(id@),
            },
    {
        let ghost before = self.entries@;
        match self.position(id) {
            Some(i) => {
                let (_, value) = self.entries.remove(i);
                proof {
                    let after = self.entries@;
                    lemma_table_has(before, i as int);
                    assert forall|j: int, k: int| 0 <= j < k < after.len() implies
                        #[trigger] after[j].0@ != #[trigger] after[k].0@ by {
                        let j2 = if j < i {
                            j
                        } else {
                            j + 1
                        };
                        let k2 = if k < i {
                            k
                        } else {
                            k + 1
                        };
                        assert(before[j2].0@ != before[k2].0@);
                    }
                    assert forall|other: Seq<char>|
                        table(after).contains_key(other) == table(before).remove(
                            id@,
                        ).contains_key(other) by {
                        if table(after).contains_key(other) {
                            let j = lemma_table_only_has(after, other);
                            let j2 = if j < i {
                                j
                            } else {
                                j + 1
                            };
                            assert(is_at(before, other, j2));
                            if other == id@ {
                                assert(before[i as int].0@ == before[j2].0@);
                            }
                        }
                        if table(before).contains_key(other) && other != id@ {
                            let j = lemma_table_only_has(before, other);
                            let j2 = if j < i {
                                j
                            } else {
                                j - 1
                            };
                            assert(is_at(after, other, j2));
                        }
                    }
                    assert forall|other: Seq<char>| table(after).contains_key(other) implies #[trigger] table(
                        after,
                    )[other] == table(before)[other] by {
                        let j = lemma_table_only_has(after, other);
                        let j2 = if j < i {
                            j
                        } else {
                            j + 1
                        };
                        assert(before[j2] == after[j]);
                        lemma_table_has(before, j2);
                    }
                    assert(table(after) =~= table(before).remove(id@));
                }
                Some(value)
            },
            None => {
                assert(self@ =~= old(self)@.remove(id@));
                None
            },
        }
    }

    /// The ids on the roster, each once, in the order in which they came.
    pub fn ids(&self) -> (ids: Vec<String>)
        requires
            self.wf(),
        ensures
            text_views(ids@).no_duplicates(),
            text_views(ids@).to_set() == self@.dom(),
    {
        let mut ids: Vec<String> = Vec::new();
        let mut i: usize = 0;
        while i < self.entries.len()
            invariant
                i <= self.entries.len(),
                ids.len() == i,
                forall|j: int| 0 <= j < i ==> #[trigger] ids@[j]@ == self.entries@[j].0@,
            decreases self.entries.len() - i,
        {
            ids.push(self.entries[i].0.clone());
            i += 1;
        }
        proof {
            let views = text_views(ids@);
            assert forall|j: int, k: int|
                0 <= j < views.len() && 0 <= k < views.len() && j != k implies views[j]
                != views[k] by {
                assert(views[j] == ids@[j]@ && views[k] == ids@[k]@);
                if j < k {
                    assert(self.entries@[j].0@ != self.entries@[k].0@);
                } else {
                    assert(self.entries@[k].0@ != self.entries@[j].0@);
                }
            }
            assert forall|id: Seq<char>| views.to_set().contains(id) == self@.dom().contains(
                id,
            ) by {
                if views.contains(id) {
                    let j = choose|j: int| 0 <= j < views.len() && views[j] == id;
                    assert(is_at(self.entries@, id, j));
                }
                if self@.contains_key(id) {
                    let j = lemma_table_only_has(self.entries@, id);
                    assert(views[j] == id);
                }
            }
            assert(views.to_set() =~= self@.dom());
        }
        ids
    }
}

} // verus!
