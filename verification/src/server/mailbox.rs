//! The channel on which one participant's event streams are fed.

use tokio::sync::broadcast::{Receiver, Sender};
use vstd::prelude::*;

use crate::types::{EventView, SseEvent};

verus! {

/// The sending half of a `tokio` broadcast channel.
#[verifier::external_type_specification]
#[verifier::external_body]
#[verifier::reject_recursive_types(T)]
pub struct ExSender<T>(tokio::sync::broadcast::Sender<T>);

/// The receiving half of a `tokio` broadcast channel.
#[verifier::external_type_specification]
#[verifier::external_body]
#[verifier::reject_recursive_types(T)]
pub struct ExReceiver<T>(tokio::sync::broadcast::Receiver<T>);

/// What has been handed to a channel, oldest first, since it was made.
pub uninterp spec fn posted(mailbox: Sender<SseEvent>) -> Seq<EventView>;

/// How many undelivered events the channel was asked to keep.
pub uninterp spec fn buffer_size(mailbox: Sender<SseEvent>) -> usize;

/// What had been handed to the channel by the time this receiver was made. The
/// receiver gets none of it, only what is handed in later.
pub uninterp spec fn passed_over(stream: Receiver<SseEvent>) -> Seq<EventView>;

/// `broadcast::channel`: a channel to which nothing has been handed yet. The
/// receiver that comes with it is dropped.
#[verifier::external_body]
pub(crate) fn open_mailbox(capacity: usize) -> (mailbox: Sender<SseEvent>)
    requires
        0 < capacity <= usize::MAX / 2,
    ensures
        posted(mailbox) == Seq::<EventView>::empty(),
        buffer_size(mailbox) == capacity,
{
    tokio::sync::broadcast::channel(capacity).0
}

/// `Sender::send`: hands one event to every receiver of the channel. With no
/// receiver left the event is dropped, which the call reports and this function does
/// not; that a receiver gets the event is not stated.
#[verifier::external_body]
pub(crate) fn post(mailbox: &mut Sender<SseEvent>, event: SseEvent)
    ensures
        posted(*final(mailbox)) == posted(*old(mailbox)).push(event@),
        buffer_size(*final(mailbox)) == buffer_size(*old(mailbox)),
{
    let _ = mailbox.send(event);
}

/// `Sender::subscribe`: a receiver that gets what is handed to the channel from now
/// on, and nothing of what was handed in before. It panics only past a quarter of the
/// address space of live receivers, more than there is memory for.
#[verifier::external_body]
pub(crate) fn subscribe(mailbox: &Sender<SseEvent>) -> (stream: Receiver<SseEvent>)
    ensures
        passed_over(stream) == posted(*mailbox),
{
    mailbox.subscribe()
}

} // verus!
