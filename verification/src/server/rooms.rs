//! Room state: who is in, under which name, and what each participant was sent.

use tokio::sync::broadcast::{Receiver, Sender};
use vstd::prelude::*;

use crate::directory::Directory;
use crate::server::mailbox::{buffer_size, open_mailbox, passed_over, post, posted, subscribe};
use crate::text::same;
use crate::types::{
    peer_views, str_view, text_view, text_views, EventView, PeerInfo, PeerView, SseEvent,
};

verus! {

/// Per-participant event buffer: how far an open event stream may fall behind before the
/// oldest events are dropped. What is posted while no stream is open is not kept; the
/// snapshot that a stream starts with makes up for it.
pub const SSE_BUFFER_SIZE: usize = 128;

/// State for a single room
pub struct RoomState {
    /// Password set by the first participant (claim)
    password: Option<String>,
    /// Active participants: session id → the channel of their events. Each event
    /// stream subscribes to the channel, and only gets what is posted after that.
    participants: Directory<Sender<SseEvent>>,
    /// Optional human-readable display names per session
    display_names: Directory<String>,
}

/// The view of a [`RoomState`].
#[verifier::ext_equal]
pub struct RoomView {
    /// The password that opens the room; an open room has none.
    pub password: Option<Seq<char>>,
    /// Every participant, with the events posted to it since it last joined.
    pub inboxes: Map<Seq<char>, Seq<EventView>>,
    /// The display names that participants gave.
    pub names: Map<Seq<char>, Seq<char>>,
}

impl RoomView {
    /// Whether a session is an active participant.
    pub open spec fn is_participant(self, session_id: Seq<char>) -> bool {
        self.inboxes.contains_key(session_id)
    }

    /// The display name of a session, if it gave one.
    pub open spec fn name_of(self, session_id: Seq<char>) -> Option<Seq<char>> {
        if self.names.contains_key(session_id) {
            Some(self.names[session_id])
        } else {
            None
        }
    }

    /// The room after an event went to every participant but the excluded one.
    pub open spec fn after_broadcast(self, event: EventView, exclude: Option<Seq<char>>) -> Self {
        RoomView {
            inboxes: self.inboxes.map_entries(
                |id: Seq<char>, inbox: Seq<EventView>|
                    if exclude == Some(id) {
                        inbox
                    } else {
                        inbox.push(event)
                    },
            ),
            ..self
        }
    }

    /// The room after an event went to one participant, if it is there.
    pub open spec fn after_send_to(self, peer_id: Seq<char>, event: EventView) -> Self {
        if self.is_participant(peer_id) {
            RoomView {
                inboxes: self.inboxes.insert(peer_id, self.inboxes[peer_id].push(event)),
                ..self
            }
        } else {
            self
        }
    }

    /// The room after a session (re)joined, giving a display name or not.
    pub open spec fn after_admission(
        self,
        session_id: Seq<char>,
        display_name: Option<Seq<char>>,
    ) -> Self {
        RoomView {
            inboxes: self.inboxes.insert(session_id, Seq::empty()),
            names: match display_name {
                Some(name) => self.names.insert(session_id, name),
                None => self.names,
            },
            ..self
        }
    }
}

impl View for RoomState {
    type V = RoomView;

    closed spec fn view(&self) -> RoomView {
        RoomView {
            password: text_view(self.password),
            inboxes: self.participants@.map_values(|mailbox: Sender<SseEvent>| posted(mailbox)),
            names: self.display_names@.map_values(|name: String| name@),
        }
    }
}

impl RoomState {
    /// The room's indexes are sound, and every participant has a buffer of
    /// [`SSE_BUFFER_SIZE`] events.
    pub closed spec fn wf(&self) -> bool {
        &&& self.participants.wf()
        &&& self.display_names.wf()
        &&& forall|id: Seq<char>| #[trigger]
            self.participants@.contains_key(id) ==> buffer_size(self.participants@[id])
                == SSE_BUFFER_SIZE
    }

    /// A room nobody is in yet.
    pub fn new(password: Option<String>) -> (room: Self)
        ensures
            room.wf(),
            room@ == (RoomView {
                password: text_view(password),
                inboxes: Map::empty(),
                names: Map::empty(),
            }),
    {
        let room = RoomState {
            password,
            participants: Directory::new(),
            display_names: Directory::new(),
        };
        assert(room@ =~= RoomView {
            password: text_view(password),
            inboxes: Map::empty(),
            names: Map::empty(),
        });
        room
    }

    /// Whether `session_id` is an active participant.
    pub fn is_participant(&self, session_id: &str) -> (found: bool)
        ensures
            found == self@.is_participant(session_id@),
    {
        self.participants.contains_key(session_id)
    }

    /// Broadcast an event to all participants, optionally excluding one (the sender).
    ///
    /// No stale-participant cleanup happens here. Stale entries are bounded by the
    /// room's max participant count and are replaced when the same session re-joins.
    pub fn broadcast(&mut self, event: &SseEvent, exclude: Option<&str>)
        requires
            old(self).wf(),
        ensures
            final(self).wf(),
            final(self)@ == old(self)@.after_broadcast(event@, str_view(exclude)),
    {
        let ghost before = self@;
        let ghost boxes = self.participants@;
        let ghost goal = self@.after_broadcast(event@, str_view(exclude));
        let ids = self.participants.keys();
        let mut i: usize = 0;
        while i < ids.len()
            invariant
                i <= ids.len(),
                self.wf(),
                self.password == old(self).password,
                self.display_names == old(self).display_names,
                boxes == old(self).participants@,
                text_views(ids@).no_duplicates(),
                text_views(ids@).to_set() == boxes.dom(),
                self.participants@.dom() == boxes.dom(),
                forall|j: int|
                    #![trigger ids@[j]]
                    0 <= j < ids.len() ==> posted(self.participants@[ids@[j]@]) == (if j < i
                        && str_view(exclude) != Some(ids@[j]@) {
                        posted(boxes[ids@[j]@]).push(event@)
                    } else {
                        posted(boxes[ids@[j]@])
                    }),
            decreases ids.len() - i,
        {
            let id = ids[i].as_str();
            assert(text_views(ids@)[i as int] == id@);
            assert(text_views(ids@).to_set().contains(id@));
            let skip = match exclude {
                Some(other) => same(id, other),
                None => false,
            };
            if !skip {
                match self.participants.get_mut(id) {
                    Some(mailbox) => {
                        post(mailbox, event.clone());
                    },
                    None => {},
                }
            }
            proof {
                assert forall|j: int| #![trigger ids@[j]] 0 <= j < ids.len() && j != i implies ids@[j]@
                    != id@ by {
                    assert(text_views(ids@)[j] == ids@[j]@);
                }
            }
            i += 1;
        }
        proof {
            assert forall|id: Seq<char>| #[trigger] self@.inboxes.contains_key(id) implies self@.inboxes[id]
                == goal.inboxes[id] by {
                assert(text_views(ids@).to_set().contains(id));
                let j = choose|j: int| 0 <= j < ids.len() && text_views(ids@)[j] == id;
                assert(ids@[j]@ == id);
            }
            assert(self@ =~= goal);
        }
    }

    /// Delivers an event to exactly one participant, used for media signals.
    ///
    /// Delivering to a peer that has since left is a no-op: the sender has nothing
    /// better to do with the signal, and the pair is re-established from the next
    /// `resync` if the peer comes back.
    pub fn send_to(&mut self, peer_id: &str, event: &SseEvent)
        requires
            old(self).wf(),
        ensures
            final(self).wf(),
            final(self)@ == old(self)@.after_send_to(peer_id@, event@),
    {
        let ghost goal = self@.after_send_to(peer_id@, event@);
        match self.participants.get_mut(peer_id) {
            Some(mailbox) => {
                post(mailbox, event.clone());
            },
            None => {},
        }
        assert(self@ =~= goal);
    }

    /// Lets a session in, or back in. It starts with an empty inbox, and keeps the
    /// display name it had unless it gives a new one.
    pub fn let_in(&mut self, session_id: &str, display_name: Option<String>)
        requires
            old(self).wf(),
        ensures
            final(self).wf(),
            final(self)@ == old(self)@.after_admission(session_id@, text_view(display_name)),
    {
        let ghost goal = self@.after_admission(session_id@, text_view(display_name));
        match display_name {
            Some(name) => {
                self.display_names.insert(session_id.to_owned(), name);
            },
            None => {},
        }
        self.participants.insert(session_id.to_owned(), open_mailbox(SSE_BUFFER_SIZE));
        assert(self@ =~= goal);
    }

    /// A stream of what is posted to a participant from now on.
    pub fn subscribe(&self, session_id: &str) -> (stream: Option<Receiver<SseEvent>>)
        requires
            self.wf(),
        ensures
            match stream {
                Some(rx) => self@.is_participant(session_id@) && passed_over(rx)
                    == self@.inboxes[session_id@],
                None => !self@.is_participant(session_id@),
            },
    {
        match self.participants.get(session_id) {
            Some(mailbox) => Some(subscribe(mailbox)),
            None => None,
        }
    }

    /// The password that opens the room.
    pub fn password(&self) -> (password: &Option<String>)
        ensures
            text_view(*password) == self@.password,
    {
        &self.password
    }

    /// How many participants the room has.
    pub fn participant_count(&self) -> (count: usize)
        requires
            self.wf(),
        ensures
            self@.inboxes.dom().finite(),
            count == self@.inboxes.dom().len(),
    {
        assert(self@.inboxes.dom() =~= self.participants@.dom());
        self.participants.len()
    }

    /// The session ids of all participants, each once, in no particular order.
    pub fn participant_ids(&self) -> (ids: Vec<String>)
        ensures
            text_views(ids@).no_duplicates(),
            text_views(ids@).to_set() == self@.inboxes.dom(),
    {
        assert(self@.inboxes.dom() =~= self.participants@.dom());
        self.participants.keys()
    }

    /// The display name a session gave.
    pub fn display_name(&self, session_id: &str) -> (name: Option<String>)
        requires
            self.wf(),
        ensures
            text_view(name) == self@.name_of(session_id@),
    {
        match self.display_names.get(session_id) {
            Some(name) => Some(name.clone()),
            None => None,
        }
    }

    /// Everyone in the room but `session_id`, each once with its display name, in no
    /// particular order.
    pub fn others(&self, session_id: &str) -> (peers: Vec<PeerInfo>)
        requires
            self.wf(),
        ensures
            is_presence_list(self@, session_id@, peer_views(peers@)),
    {
        let ids = self.participant_ids();
        let mut peers: Vec<PeerInfo> = Vec::new();
        let mut i: usize = 0;
        while i < ids.len()
            invariant
                i <= ids.len(),
                self.wf(),
                text_views(ids@).no_duplicates(),
                text_views(ids@).to_set() == self@.inboxes.dom(),
                forall|k: int|
                    #![trigger peers@[k]]
                    0 <= k < peers.len() ==> {
                        &&& peers@[k]@.peer_id != session_id@
                        &&& peers@[k]@.peer_name == self@.name_of(peers@[k]@.peer_id)
                        &&& exists|j: int| 0 <= j < i && ids@[j]@ == peers@[k]@.peer_id
                    },
                forall|j: int|
                    #![trigger ids@[j]]
                    0 <= j < i && ids@[j]@ != session_id@ ==> exists|k: int|
                        0 <= k < peers.len() && peers@[k]@.peer_id == ids@[j]@,
                forall|k: int, l: int|
                    #![trigger peers@[k], peers@[l]]
                    0 <= k < l < peers.len() ==> peers@[k]@.peer_id != peers@[l]@.peer_id,
            decreases ids.len() - i,
        {
            let id = ids[i].as_str();
            if !same(id, session_id) {
                let ghost before = peers@;
                peers.push(
                    PeerInfo { peer_id: ids[i].clone(), peer_name: self.display_name(id) },
                );
                proof {
                    assert(peers@ == before.push(peers@.last()));
                    assert forall|k: int| #![trigger peers@[k]] 0 <= k < before.len() implies peers@[k]@.peer_id
                        != id@ by {
                        assert(peers@[k] == before[k]);
                        let j = choose|j: int| 0 <= j < i && ids@[j]@ == before[k]@.peer_id;
                        assert(text_views(ids@)[j] == ids@[j]@);
                        assert(text_views(ids@)[i as int] == ids@[i as int]@);
                    }
                    assert forall|j: int| #![trigger ids@[j]] 0 <= j < i + 1 && ids@[j]@
                        != session_id@ implies exists|k: int|
                        0 <= k < peers.len() && peers@[k]@.peer_id == ids@[j]@ by {
                        if j < i {
                            let k = choose|k: int|
                                0 <= k < before.len() && before[k]@.peer_id == ids@[j]@;
                            assert(peers@[k] == before[k]);
                        } else {
                            assert(peers@[before.len() as int]@.peer_id == ids@[j]@);
                        }
                    }
                }
            }
            i += 1;
        }
        proof {
            let views = peer_views(peers@);
            assert forall|id: Seq<char>|
                self@.is_participant(id) && id != session_id@ implies exists|k: int|
                0 <= k < views.len() && #[trigger] views[k].peer_id == id by {
                assert(text_views(ids@).to_set().contains(id));
                let j = choose|j: int| 0 <= j < ids.len() && text_views(ids@)[j] == id;
                assert(ids@[j]@ == id);
                let k = choose|k: int| 0 <= k < peers.len() && peers@[k]@.peer_id == ids@[j]@;
                assert(views[k].peer_id == id);
            }
            assert forall|k: int| 0 <= k < views.len() implies self@.is_participant(
                #[trigger] views[k].peer_id,
            ) && views[k].peer_id != session_id@ && views[k].peer_name == self@.name_of(
                views[k].peer_id,
            ) by {
                assert(views[k] == peers@[k]@);
                let j = choose|j: int| 0 <= j < ids.len() && ids@[j]@ == peers@[k]@.peer_id;
                assert(text_views(ids@)[j] == ids@[j]@);
                assert(text_views(ids@).to_set().contains(ids@[j]@));
            }
            assert forall|k: int, l: int| 0 <= k < l < views.len() implies
                #[trigger] views[k].peer_id != #[trigger] views[l].peer_id by {
                assert(views[k] == peers@[k]@ && views[l] == peers@[l]@);
            }
        }
        peers
    }
}

/// Whether a list shows everyone in a room but one session, each exactly once and
/// with the display name it gave.
pub open spec fn is_presence_list(
    room: RoomView,
    session_id: Seq<char>,
    peers: Seq<PeerView>,
) -> bool {
    &&& forall|k: int|
        0 <= k < peers.len() ==> {
            &&& room.is_participant(#[trigger] peers[k].peer_id)
            &&& peers[k].peer_id != session_id
            &&& peers[k].peer_name == room.name_of(peers[k].peer_id)
        }
    &&& forall|k: int, l: int|
        0 <= k < l < peers.len() ==> #[trigger] peers[k].peer_id != #[trigger] peers[l].peer_id
    &&& forall|id: Seq<char>| #[trigger]
        room.is_participant(id) && id != session_id ==> exists|k: int|
            0 <= k < peers.len() && #[trigger] peers[k].peer_id == id
}

} // verus!
