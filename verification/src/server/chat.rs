//! Chat storage.

use std::collections::VecDeque;

use vstd::prelude::*;

pub use crate::types::ChatMessage;

use crate::directory::Directory;
use crate::types::{chat_views, ChatView};

verus! {

/// The last `limit` messages of a log, oldest first.
pub open spec fn latest(log: Seq<ChatView>, limit: nat) -> Seq<ChatView> {
    if log.len() <= limit {
        log
    } else {
        log.skip(log.len() - limit)
    }
}

/// Storage abstraction: an implementation decides how much of a room's log it keeps.
pub trait ChatStore: Sized + Send + Sync {
    /// The store is in a state its operations can work with.
    spec fn wf(&self) -> bool;

    /// What is kept of a room's messages, oldest first.
    spec fn log(&self, room: Seq<char>) -> Seq<ChatView>;

    /// What is kept of a log once a message arrived.
    spec fn kept(log: Seq<ChatView>, msg: ChatView) -> Seq<ChatView>;

    /// Only old messages are ever let go, and the newest one is kept.
    proof fn lemma_kept(log: Seq<ChatView>, msg: ChatView)
        ensures
            Self::kept(log, msg).len() > 0,
            Self::kept(log, msg) == latest(log.push(msg), Self::kept(log, msg).len()),
    ;

    /// Adds a message to the log of its room.
    fn append(&mut self, msg: &ChatMessage)
        requires
            old(self).wf(),
        ensures
            final(self).wf(),
            final(self).log(msg@.room) == Self::kept(old(self).log(msg@.room), msg@),
            forall|room: Seq<char>|
                room != msg@.room ==> #[trigger] final(self).log(room) == old(self).log(room),
    ;

    /// Return the last `limit` messages for a room (oldest first).
    fn history(&self, room: &str, limit: usize) -> (messages: Vec<ChatMessage>)
        requires
            self.wf(),
        ensures
            chat_views(messages@) == latest(self.log(room@), limit as nat),
    ;
}

/// How many messages [`InMemoryChat`] keeps per room.
pub const MAX_MESSAGES_PER_ROOM: usize = 200;

/// In-memory implementation: ring buffer per room, capped at 200 messages.
pub struct InMemoryChat {
    rooms: Directory<VecDeque<ChatMessage>>,
}

impl InMemoryChat {
    /// A store with no messages in any room.
    pub fn new() -> (store: Self)
        ensures
            store.wf(),
            forall|room: Seq<char>| #[trigger] store.log(room) == Seq::<ChatView>::empty(),
    {
        InMemoryChat { rooms: Directory::new() }
    }

    /// In every state of a store, no room has more messages than the cap, and the log of a
    /// room holds messages of that room only.
    pub proof fn law_logs_are_bounded_and_stay_in_their_room(&self, room: Seq<char>)
        requires
            self.wf(),
        ensures
            self.log(room).len() <= MAX_MESSAGES_PER_ROOM,
            forall|i: int|
                0 <= i < self.log(room).len() ==> (#[trigger] self.log(room)[i]).room == room,
    {
        assert forall|i: int| 0 <= i < self.log(room).len() implies (
        #[trigger] self.log(room)[i]).room == room by {
            assert(self.log(room)[i] == self.rooms@[room]@[i]@);
        }
    }
}

impl ChatStore for InMemoryChat {
    /// No room has more messages than the cap, and each has its own.
    closed spec fn wf(&self) -> bool {
        &&& self.rooms.wf()
        &&& forall|room: Seq<char>| #[trigger]
            self.rooms@.contains_key(room) ==> self.rooms@[room]@.len() <= MAX_MESSAGES_PER_ROOM
        &&& forall|room: Seq<char>, i: int|
            #![trigger self.rooms@[room]@[i]]
            self.rooms@.contains_key(room) && 0 <= i < self.rooms@[room]@.len()
                ==> self.rooms@[room]@[i]@.room == room
    }

    closed spec fn log(&self, room: Seq<char>) -> Seq<ChatView> {
        if self.rooms@.contains_key(room) {
            chat_views(self.rooms@[room]@)
        } else {
            Seq::empty()
        }
    }

    /// A full log lets its oldest message go.
    open spec fn kept(log: Seq<ChatView>, msg: ChatView) -> Seq<ChatView> {
        if log.len() >= MAX_MESSAGES_PER_ROOM {
            log.drop_first().push(msg)
        } else {
            log.push(msg)
        }
    }

    proof fn lemma_kept(log: Seq<ChatView>, msg: ChatView) {
        assert(log.len() > 0 ==> log.drop_first().push(msg) =~= log.push(msg).skip(1));
    }

    fn append(&mut self, msg: &ChatMessage) {
        let ghost before = self.log(msg@.room);
        match self.rooms.get_mut(msg.room.as_str()) {
            Some(buf) => {
                if buf.len() >= MAX_MESSAGES_PER_ROOM {
                    let _ = buf.pop_front();
                }
                buf.push_back(msg.clone());
            },
            None => {
                let mut buf: VecDeque<ChatMessage> = VecDeque::new();
                buf.push_back(msg.clone());
                self.rooms.insert(msg.room.clone(), buf);
            },
        }
        assert(self.log(msg@.room) =~= Self::kept(before, msg@));
    }

    fn history(&self, room: &str, limit: usize) -> (messages: Vec<ChatMessage>) {
        let mut messages: Vec<ChatMessage> = Vec::new();
        match self.rooms.get(room) {
            Some(buf) => {
                let start: usize = buf.len().saturating_sub(limit);
                let mut i: usize = start;
                while i < buf.len()
                    invariant
                        start <= i <= buf.len(),
                        messages@ == buf@.subrange(start as int, i as int),
                    decreases buf.len() - i,
                {
                    messages.push(buf[i].clone());
                    i += 1;
                    assert(buf@.subrange(start as int, i as int) =~= buf@.subrange(
                        start as int,
                        i - 1,
                    ).push(buf@[i - 1]));
                }
                assert(chat_views(messages@) =~= latest(self.log(room@), limit as nat));
            },
            None => {
                assert(chat_views(messages@) =~= latest(self.log(room@), limit as nat));
            },
        }
        messages
    }
}

/// A log of [`InMemoryChat`] that is within the cap stays within it.
pub proof fn law_chat_log_is_bounded(log: Seq<ChatView>, msg: ChatView)
    requires
        log.len() <= MAX_MESSAGES_PER_ROOM,
    ensures
        InMemoryChat::kept(log, msg).len() <= MAX_MESSAGES_PER_ROOM,
{
}

/// Whatever the store, a message just appended is the newest one a reader of the
/// room's history gets, however few messages it asks for.
pub proof fn law_history_ends_with_the_newest<C: ChatStore>(
    log: Seq<ChatView>,
    msg: ChatView,
    limit: nat,
)
    requires
        limit > 0,
    ensures
        latest(C::kept(log, msg), limit).len() > 0,
        latest(C::kept(log, msg), limit).last() == msg,
{
    C::lemma_kept(log, msg);
}

} // verus!
