//! What holds of the room page, whatever the room sends.

use vstd::prelude::*;

use crate::pages::room::{
    is_for_mesh, is_listed, steps_for_all, unlisted, Happening, RoomUiView,
};
use crate::server::rooms::{is_presence_list, RoomView};
use crate::services::signaling::StatusView;
use crate::services::webrtc::{steps_for, StepView};
use crate::types::{ChatView, EventView, JoinResponse, PeerView};

verus! {

/// Whether no peer is listed twice.
pub open spec fn lists_once(peers: Seq<PeerView>) -> bool {
    forall|i: int, j: int|
        0 <= i < j < peers.len() ==> (#[trigger] peers[i]).peer_id != (
        #[trigger] peers[j]).peer_id
}

/// What a run of events makes of the page; `times` are the local times of day of each
/// event's messages.
pub open spec fn after_events(
    ui: RoomUiView,
    events: Seq<EventView>,
    times: Seq<Seq<(u32, u32)>>,
) -> RoomUiView
    decreases events.len(),
{
    if events.len() == 0 {
        ui
    } else {
        after_events(ui, events.drop_last(), times).after_event(
            events.last(),
            times[events.len() - 1],
        )
    }
}

/// A list without a peer is a list of the others, in the same order.
proof fn lemma_unlisted(peers: Seq<PeerView>, id: Seq<char>)
    ensures
        !is_listed(unlisted(peers, id), id),
        forall|other: Seq<char>|
            other != id ==> is_listed(unlisted(peers, id), other) == is_listed(peers, other),
        lists_once(peers) ==> lists_once(unlisted(peers, id)),
    decreases peers.len(),
{
    reveal(Seq::filter);
    if peers.len() > 0 {
        let earlier = peers.drop_last();
        let last = peers.last();
        let rest = unlisted(earlier, id);
        lemma_unlisted(earlier, id);
        if lists_once(peers) {
            assert forall|i: int, j: int| 0 <= i < j < earlier.len() implies (
            #[trigger] earlier[i]).peer_id != (#[trigger] earlier[j]).peer_id by {
                assert(peers[i].peer_id != peers[j].peer_id);
            }
        }
        assert forall|other: Seq<char>|
            is_listed(peers, other) == (is_listed(earlier, other) || last.peer_id == other) by {
            if is_listed(earlier, other) {
                let i = choose|i: int|
                    0 <= i < earlier.len() && (#[trigger] earlier[i]).peer_id == other;
                assert(peers[i].peer_id == other);
            }
            if last.peer_id == other {
                assert(peers[peers.len() - 1].peer_id == other);
            }
            if is_listed(peers, other) && last.peer_id != other {
                let i = choose|i: int|
                    0 <= i < peers.len() && (#[trigger] peers[i]).peer_id == other;
                assert(earlier[i].peer_id == other);
            }
        }
        if last.peer_id != id {
            let whole = rest.push(last);
            assert(unlisted(peers, id) == whole);
            assert forall|other: Seq<char>|
                is_listed(whole, other) == (is_listed(rest, other) || last.peer_id == other) by {
                if is_listed(rest, other) {
                    let i = choose|i: int|
                        0 <= i < rest.len() && (#[trigger] rest[i]).peer_id == other;
                    assert(whole[i].peer_id == other);
                }
                if last.peer_id == other {
                    assert(whole[rest.len() as int].peer_id == other);
                }
                if is_listed(whole, other) && last.peer_id != other {
                    let i = choose|i: int|
                        0 <= i < whole.len() && (#[trigger] whole[i]).peer_id == other;
                    assert(rest[i].peer_id == other);
                }
            }
            if lists_once(peers) {
                assert(!is_listed(earlier, last.peer_id)) by {
                    if is_listed(earlier, last.peer_id) {
                        let i = choose|i: int|
                            0 <= i < earlier.len() && (#[trigger] earlier[i]).peer_id
                                == last.peer_id;
                        assert(peers[i].peer_id != peers[peers.len() - 1].peer_id);
                    }
                }
                assert forall|i: int, j: int| 0 <= i < j < whole.len() implies (
                #[trigger] whole[i]).peer_id != (#[trigger] whole[j]).peer_id by {
                    if j == rest.len() {
                        assert(rest[i].peer_id == whole[i].peer_id);
                        assert(is_listed(rest, whole[i].peer_id));
                    } else {
                        assert(rest[i].peer_id != rest[j].peer_id);
                    }
                }
            }
        }
    }
}

/// No event lists a peer twice, given that no snapshot does.
pub proof fn law_peers_are_listed_once(
    ui: RoomUiView,
    event: EventView,
    times: Seq<(u32, u32)>,
)
    requires
        lists_once(ui.peers),
        event matches EventView::Resync { peers, .. } ==> lists_once(peers),
    ensures
        lists_once(ui.after_event(event, times).peers),
{
    match event {
        EventView::PeerJoined { peer_id, peer_name } => {
            if !is_listed(ui.peers, peer_id) {
                let after = ui.peers.push(PeerView { peer_id, peer_name });
                assert forall|i: int, j: int| 0 <= i < j < after.len() implies (
                #[trigger] after[i]).peer_id != (#[trigger] after[j]).peer_id by {
                    if j == ui.peers.len() {
                        assert(ui.peers[i].peer_id != peer_id);
                    } else {
                        assert(ui.peers[i].peer_id != ui.peers[j].peer_id);
                    }
                }
            }
        },
        EventView::PeerLeft { peer_id } => {
            lemma_unlisted(ui.peers, peer_id);
        },
        _ => {},
    }
}

/// The snapshot that the server sends a participant lists everyone else in the room, and
/// nobody twice.
pub proof fn law_a_snapshot_lists_everyone_else_once(
    room: RoomView,
    session_id: Seq<char>,
    peers: Seq<PeerView>,
    id: Seq<char>,
)
    requires
        is_presence_list(room, session_id, peers),
    ensures
        lists_once(peers),
        is_listed(peers, id) == (room.is_participant(id) && id != session_id),
{
    assert forall|i: int, j: int| 0 <= i < j < peers.len() implies (
    #[trigger] peers[i]).peer_id != (#[trigger] peers[j]).peer_id by {
        let a = peers[i].peer_id;
        let b = peers[j].peer_id;
        assert(a != b);
    }
    if is_listed(peers, id) {
        let k = choose|k: int| 0 <= k < peers.len() && (#[trigger] peers[k]).peer_id == id;
        assert(room.is_participant(peers[k].peer_id));
    }
    if room.is_participant(id) && id != session_id {
        let k = choose|k: int| 0 <= k < peers.len() && #[trigger] peers[k].peer_id == id;
        assert(peers[k].peer_id == id);
    }
}

/// Who joined is listed, and everyone else is listed as before.
pub proof fn law_who_joined_is_listed(
    ui: RoomUiView,
    peer_id: Seq<char>,
    peer_name: Option<Seq<char>>,
    times: Seq<(u32, u32)>,
    other: Seq<char>,
)
    ensures
        ({
            let after = ui.after_event(EventView::PeerJoined { peer_id, peer_name }, times).peers;
            is_listed(after, other) == (other == peer_id || is_listed(ui.peers, other))
        }),
{
    let before = ui.peers;
    let after = ui.after_event(EventView::PeerJoined { peer_id, peer_name }, times).peers;
    if !is_listed(before, peer_id) {
        assert(after == before.push(PeerView { peer_id, peer_name }));
        if is_listed(before, other) {
            let i = choose|i: int| 0 <= i < before.len() && (#[trigger] before[i]).peer_id == other;
            assert(after[i].peer_id == other);
        }
        if other == peer_id {
            assert(after[before.len() as int].peer_id == other);
        }
        if is_listed(after, other) && other != peer_id {
            let i = choose|i: int| 0 <= i < after.len() && (#[trigger] after[i]).peer_id == other;
            assert(before[i].peer_id == other);
        }
    }
}

/// A peer that is announced again, as happens when it reconnects, is no news to the page.
pub proof fn law_a_known_peer_is_no_news(
    ui: RoomUiView,
    peer_id: Seq<char>,
    peer_name: Option<Seq<char>>,
    times: Seq<(u32, u32)>,
)
    requires
        ui.meshed,
        is_listed(ui.peers, peer_id),
    ensures
        ui.after_event(EventView::PeerJoined { peer_id, peer_name }, times) == ui,
{
}

/// Who left is not listed any more, and everyone else is listed as before.
pub proof fn law_who_left_is_not_listed(
    ui: RoomUiView,
    peer_id: Seq<char>,
    times: Seq<(u32, u32)>,
    other: Seq<char>,
)
    ensures
        ({
            let after = ui.after_event(EventView::PeerLeft { peer_id }, times).peers;
            is_listed(after, other) == (other != peer_id && is_listed(ui.peers, other))
        }),
{
    lemma_unlisted(ui.peers, peer_id);
}

/// The large tile always shows someone who is here, and stands empty only in an empty
/// room.
pub proof fn law_the_stage_shows_someone_here(ui: RoomUiView)
    ensures
        ui.stage() matches Some(who) ==> is_listed(ui.peers, who),
        ui.stage() is None <==> ui.peers.len() == 0,
{
    if ui.peers.len() > 0 {
        assert(is_listed(ui.peers, ui.peers[0].peer_id));
    }
    if ui.speaker matches Some(who) && is_listed(ui.peers, who) {
        assert(ui.peers.len() > 0);
    }
}

/// A snapshot replaces whatever the page had: presence and chat come out the same
/// whatever was missed before it.
pub proof fn law_a_snapshot_repairs_the_page(
    ui: RoomUiView,
    missed: RoomUiView,
    peers: Seq<PeerView>,
    chat: Seq<ChatView>,
    times: Seq<(u32, u32)>,
)
    requires
        ui.self_id == missed.self_id,
    ensures
        ({
            let event = EventView::Resync { peers, chat };
            let after = ui.after_event(event, times);
            let repaired = missed.after_event(event, times);
            &&& after.peers == repaired.peers
            &&& after.chat == repaired.chat
            &&& after.peers == peers
            &&& after.chat.len() == chat.len()
        }),
{
}

/// One's own messages never go unread, nor does anything while the chat is open.
pub proof fn law_what_is_seen_is_not_unread(
    ui: RoomUiView,
    event: EventView,
    times: Seq<(u32, u32)>,
)
    requires
        ui.chat_open || (event matches EventView::ChatMessage { from, .. } && ui.self_id == Some(
            from,
        )),
    ensures
        ui.after_event(event, times).unread == ui.unread,
{
}

/// A room page without a mesh keeps just the events that the mesh has to see, in the
/// order in which they came.
pub proof fn law_early_events_are_kept_in_order(
    ui: RoomUiView,
    events: Seq<EventView>,
    times: Seq<Seq<(u32, u32)>>,
)
    requires
        !ui.meshed,
    ensures
        !after_events(ui, events, times).meshed,
        after_events(ui, events, times).early == ui.early + events.filter(
            |e: EventView| is_for_mesh(e),
        ),
    decreases events.len(),
{
    reveal(Seq::filter);
    if events.len() > 0 {
        law_early_events_are_kept_in_order(ui, events.drop_last(), times);
    }
    assert(after_events(ui, events, times).early =~= ui.early + events.filter(
        |e: EventView| is_for_mesh(e),
    ));
}

/// Nothing is lost to the mesh by coming early: the steps for the events that were kept
/// are the steps for all of them.
pub proof fn law_early_events_lose_no_steps(events: Seq<EventView>)
    ensures
        steps_for_all(events.filter(|e: EventView| is_for_mesh(e))) == steps_for_all(events),
    decreases events.len(),
{
    reveal(Seq::filter);
    let keep = |e: EventView| is_for_mesh(e);
    if events.len() > 0 {
        let earlier = events.drop_last();
        law_early_events_lose_no_steps(earlier);
        if is_for_mesh(events.last()) {
            let kept = earlier.filter(keep).push(events.last());
            assert(events.filter(keep) == kept);
            assert(kept.drop_last() =~= earlier.filter(keep));
        } else {
            assert(steps_for(events.last()) =~= Seq::empty());
            assert(steps_for_all(events) =~= steps_for_all(earlier));
        }
    }
}

/// Once there is a mesh, nothing is kept for it.
pub proof fn law_nothing_waits_for_a_mesh_that_is_there(
    ui: RoomUiView,
    events: Seq<EventView>,
    times: Seq<Seq<(u32, u32)>>,
)
    requires
        ui.meshed,
    ensures
        after_events(ui, events, times).meshed,
        after_events(ui, events, times).early == ui.early,
    decreases events.len(),
{
    if events.len() > 0 {
        law_nothing_waits_for_a_mesh_that_is_there(ui, events.drop_last(), times);
    }
}

/// Each event that the mesh has to see is kept for it, behind those that wait already,
/// while there is none, and handed to it, with nothing kept, once there is one. No other
/// event goes either way, and media events show nowhere on the page.
pub proof fn law_an_event_is_kept_or_handed_on(
    ui: RoomUiView,
    event: EventView,
    times: Seq<(u32, u32)>,
)
    ensures
        ui.after_event(event, times).meshed == ui.meshed,
        ui.after_event(event, times).early == (if is_for_mesh(event) && !ui.meshed {
            ui.early.push(event)
        } else {
            ui.early
        }),
        ui.handed(event) == (if is_for_mesh(event) && ui.meshed {
            steps_for(event)
        } else {
            Seq::empty()
        }),
        event is Offer || event is Answer || event is IceCandidate ==> ui.after_event(event, times)
            == (RoomUiView { early: ui.after_event(event, times).early, ..ui }),
{
    if !is_for_mesh(event) {
        assert(steps_for(event) =~= Seq::empty());
    }
}

/// What a whole visit makes of the page.
pub open spec fn after_visit(ui: RoomUiView, visit: Seq<Happening>) -> RoomUiView
    decreases visit.len(),
{
    if visit.len() == 0 {
        ui
    } else {
        after_visit(ui, visit.drop_last()).after(visit.last())
    }
}

/// The steps that a whole visit asks of the mesh, in order.
pub open spec fn visit_steps(ui: RoomUiView, visit: Seq<Happening>) -> Seq<StepView>
    decreases visit.len(),
{
    if visit.len() == 0 {
        Seq::empty()
    } else {
        visit_steps(ui, visit.drop_last()) + after_visit(ui, visit.drop_last()).steps_on(
            visit.last(),
        )
    }
}

/// The events of a visit, in order.
pub open spec fn visit_events(visit: Seq<Happening>) -> Seq<EventView>
    decreases visit.len(),
{
    if visit.len() == 0 {
        Seq::empty()
    } else {
        match visit.last() {
            Happening::Event { event, .. } => visit_events(visit.drop_last()).push(event),
            Happening::MeshReady => visit_events(visit.drop_last()),
        }
    }
}

/// Every event reaches the mesh once and in order, whenever the mesh is built: the steps
/// taken so far, and those for the events that still wait, are the steps for all events
/// that ever came.
pub proof fn law_every_event_reaches_the_mesh_once_in_order(
    ui: RoomUiView,
    visit: Seq<Happening>,
)
    requires
        ui.meshed ==> ui.early.len() == 0,
    ensures
        visit_steps(ui, visit) + steps_for_all(after_visit(ui, visit).early) == steps_for_all(
            ui.early,
        ) + steps_for_all(visit_events(visit)),
        after_visit(ui, visit).meshed ==> after_visit(ui, visit).early.len() == 0,
    decreases visit.len(),
{
    if visit.len() == 0 {
        assert(visit_steps(ui, visit) + steps_for_all(after_visit(ui, visit).early)
            =~= steps_for_all(ui.early) + steps_for_all(visit_events(visit)));
    } else {
        let earlier = visit.drop_last();
        let before = after_visit(ui, earlier);
        let after = after_visit(ui, visit);
        let taken = visit_steps(ui, earlier);
        let first = steps_for_all(ui.early);
        let known = steps_for_all(visit_events(earlier));
        law_every_event_reaches_the_mesh_once_in_order(ui, earlier);
        match visit.last() {
            Happening::Event { event, times } => {
                law_an_event_is_kept_or_handed_on(before, event, times);
                let events = visit_events(earlier).push(event);
                assert(events.drop_last() =~= visit_events(earlier));
                assert(steps_for_all(visit_events(visit)) == known + steps_for(event));
                if is_for_mesh(event) && !before.meshed {
                    assert(after.early.drop_last() =~= before.early);
                    assert(steps_for_all(after.early) == steps_for_all(before.early) + steps_for(
                        event,
                    ));
                } else if before.meshed {
                    assert(steps_for_all(before.early) =~= Seq::empty());
                } else {
                    assert(steps_for(event) =~= Seq::empty());
                }
                assert(visit_steps(ui, visit) + steps_for_all(after.early) =~= (taken
                    + steps_for_all(before.early)) + steps_for(event));
                assert(first + (known + steps_for(event)) =~= (first + known) + steps_for(event));
            },
            Happening::MeshReady => {
                assert(visit_steps(ui, visit) + steps_for_all(after.early) =~= taken
                    + steps_for_all(before.early));
            },
        }
    }
}

/// The password form calls a password wrong only where one was tried on a locked room.
pub proof fn law_only_a_tried_password_is_wrong(
    ui: RoomUiView,
    joined: Result<JoinResponse, String>,
    verifying: bool,
)
    requires
        !ui.bad_password,
    ensures
        ui.after_join(joined, verifying).bad_password ==> verifying && ui.after_join(
            joined,
            verifying,
        ).status == StatusView::PasswordRequired,
{
}

} // verus!
