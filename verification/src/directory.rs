//! A directory of values by name, indexed by a concurrent hash map.
//!
//! Entries are added and replaced, never removed.

use dashmap::DashMap;
use vstd::prelude::*;

use crate::types::text_views;

verus! {

/// The concurrent hash map of the `dashmap` crate.
#[verifier::external_type_specification]
#[verifier::external_body]
#[verifier::reject_recursive_types(K)]
#[verifier::reject_recursive_types(V)]
#[verifier::reject_recursive_types(S)]
pub struct ExDashMap<K, V, S>(dashmap::DashMap<K, V, S>);

/// What a map from names to slots holds.
pub uninterp spec fn held(map: DashMap<String, usize>) -> Map<Seq<char>, usize>;

/// `DashMap::new`: a map that holds nothing.
#[verifier::external_body]
fn index_new() -> (index: DashMap<String, usize>)
    ensures
        held(index).is_empty(),
{
    DashMap::new()
}

/// `DashMap::get`: the value stored under the key, if the key is there.
#[verifier::external_body]
fn index_get(map: &DashMap<String, usize>, key: &str) -> (slot: Option<usize>)
    ensures
        slot == (if held(*map).contains_key(key@) {
            Some(held(*map)[key@])
        } else {
            None
        }),
{
    map.get(key).map(|entry| *entry.value())
}

/// `DashMap::insert`: stores the value under the key, whether or not the key was
/// there. The map is taken exclusively, so nobody else reads or writes it meanwhile.
#[verifier::external_body]
fn index_insert(map: &mut DashMap<String, usize>, key: String, slot: usize)
    ensures
        held(*final(map)) == held(*old(map)).insert(key@, slot),
{
    map.insert(key, slot);
}

/// `DashMap::len`: how many entries the map holds.
#[verifier::external_body]
fn index_len(map: &DashMap<String, usize>) -> (count: usize)
    ensures
        count == held(*map).len(),
{
    map.len()
}

/// `DashMap::iter`: every key once, in an order that the hasher's seed decides.
#[verifier::external_body]
fn index_keys(map: &DashMap<String, usize>) -> (keys: Vec<String>)
    ensures
        text_views(keys@).no_duplicates(),
        text_views(keys@).to_set() == held(*map).dom(),
{
    map.iter().map(|entry| entry.key().clone()).collect()
}

/// Values by name.
///
/// The index says in which slot a name's value is; no two names share a slot.
pub struct Directory<T> {
    index: DashMap<String, usize>,
    slots: Vec<T>,
}

impl<T> View for Directory<T> {
    type V = Map<Seq<char>, T>;

    closed spec fn view(&self) -> Map<Seq<char>, T> {
        Map::new(
            |name: Seq<char>| held(self.index).contains_key(name),
            |name: Seq<char>| self.slots@[held(self.index)[name] as int],
        )
    }
}

impl<T> Directory<T> {
    /// Every name has a slot of its own.
    pub closed spec fn wf(&self) -> bool {
        &&& held(self.index).dom().finite()
        &&& forall|name: Seq<char>|
            #[trigger] held(self.index).contains_key(name) ==> held(self.index)[name]
                < self.slots@.len()
        &&& forall|a: Seq<char>, b: Seq<char>|
            #[trigger] held(self.index).contains_key(a) && #[trigger] held(
                self.index,
            ).contains_key(b) && held(self.index)[a] == held(self.index)[b] ==> a == b
    }

    /// A directory with no entries.
    pub fn new() -> (directory: Self)
        ensures
            directory.wf(),
            directory@ == Map::<Seq<char>, T>::empty(),
    {
        let directory = Directory { index: index_new(), slots: Vec::new() };
        assert(directory@ =~= Map::<Seq<char>, T>::empty());
        directory
    }

    /// How many names the directory holds.
    pub fn len(&self) -> (count: usize)
        requires
            self.wf(),
        ensures
            self@.dom().finite(),
            count == self@.dom().len(),
    {
        assert(self@.dom() =~= held(self.index).dom());
        index_len(&self.index)
    }

    /// Whether the directory has an entry under this name.
    pub fn contains_key(&self, name: &str) -> (found: bool)
        ensures
            found == self@.contains_key(name@),
    {
        index_get(&self.index, name).is_some()
    }

    /// The value under a name.
    pub fn get(&self, name: &str) -> (value: Option<&T>)
        requires
            self.wf(),
        ensures
            match value {
                Some(v) => self@.contains_key(name@) && *v == self@[name@],
                None => !self@.contains_key(name@),
            },
    {
        match index_get(&self.index, name) {
            Some(slot) => Some(&self.slots[slot]),
            None => None,
        }
    }

    /// The value under a name, to be changed in place.
    pub fn get_mut(&mut self, name: &str) -> (value: Option<&mut T>)
        requires
            old(self).wf(),
        ensures
            match value {
                Some(v) => {
                    &&& old(self)@.contains_key(name@)
                    &&& *v == old(self)@[name@]
                    &&& final(self).wf()
                    &&& final(self)@ == old(self)@.insert(name@, *final(v))
                },
                None => {
                    &&& !old(self)@.contains_key(name@)
                    &&& final(self).wf()
                    &&& final(self)@ == old(self)@
                },
            },
    {
        match index_get(&self.index, name) {
            Some(slot) => {
                let value = &mut self.slots[slot];
                Some(value)
            },
            None => None,
        }
    }

    /// Puts a value under a name, in place of the one that was there.
    pub fn insert(&mut self, name: String, value: T)
        requires
            old(self).wf(),
        ensures
            final(self).wf(),
            final(self)@ == old(self)@.insert(name@, value),
    {
        let ghost before = self@;
        let ghost key = name@;
        match index_get(&self.index, name.as_str()) {
            Some(slot) => {
                self.slots.set(slot, value);
            },
            None => {
                let slot: usize = self.slots.len();
                self.slots.push(value);
                index_insert(&mut self.index, name, slot);
            },
        }
        assert(self@ =~= before.insert(key, value));
    }

    /// Every name, once, in no particular order.
    pub fn keys(&self) -> (names: Vec<String>)
        ensures
            text_views(names@).no_duplicates(),
            text_views(names@).to_set() == self@.dom(),
    {
        assert(self@.dom() =~= held(self.index).dom());
        index_keys(&self.index)
    }
}

} // verus!
