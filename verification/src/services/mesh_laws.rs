//! What the mesh is for: pairs connect, streams are shown, candidates are added.

use vstd::prelude::*;

use crate::services::audio_level::{Level, MeterView};
use crate::services::laws::{after_all, closes, law_connections_stand_until_closed, never_closes};
use crate::services::webrtc::{
    greeting_steps, steps_for, AnswerVerdict, CandidateView, LinkState, Mesh, MeshOp, MeshStep, MeshView,
    OfferVerdict, SignalingState, StepView,
};
use crate::text::{lemma_sorts_before_is_strict_and_total, sorts_before};
use crate::types::{text_view, text_views, ChatView, EventView, PeerView};

verus! {

/// A connection on which nothing has happened yet.
pub open spec fn untouched() -> LinkState {
    LinkState { signaling: SignalingState::Stable, is_new: true }
}

/// A pair connects: of two participants that have just made a connection with each other,
/// the one whose id sorts first offers and the other does not; the offer is accepted, and
/// so is the answer to it. From then on both take each other's candidates.
pub proof fn law_a_pair_connects(
    a: MeshView,
    b: MeshView,
    offering: LinkState,
)
    requires
        sorts_before(a.self_id, b.self_id),
        a.wants_link(b.self_id),
        b.wants_link(a.self_id),
        offering.signaling == SignalingState::HaveLocalOffer,
    ensures
        ({
            let a1 = a.after(MeshOp::Insert { peer: b.self_id });
            let b1 = b.after(MeshOp::Insert { peer: a.self_id });
            let a2 = a1.after(MeshOp::Offer { peer: b.self_id, state: untouched() });
            let b2 = b1.after(MeshOp::ApplyOffer { from: a.self_id, state: untouched() });
            let a3 = a2.after(MeshOp::ApplyAnswer { from: b.self_id, state: offering });
            &&& a1.offers_now(b.self_id, untouched())
            &&& !b1.offers_now(a.self_id, untouched())
            &&& b1.judge_offer(a.self_id, untouched()) == OfferVerdict::Accept
            &&& a2.judge_answer(b.self_id, offering) == AnswerVerdict::Accept
            &&& b2.can_drain(a.self_id)
            &&& a3.can_drain(b.self_id)
            &&& !a2.can_drain(b.self_id)
            &&& !b1.can_drain(a.self_id)
        }),
{
    lemma_sorts_before_is_strict_and_total(a.self_id, b.self_id);
}

/// The offer that a side owns is owed for as long as it was not made and the connection
/// has nothing else going on, whatever else happened to the mesh.
pub proof fn law_an_offer_that_was_not_made_is_owed(mesh: MeshView, peer: Seq<char>)
    requires
        mesh.links.contains_key(peer),
        !mesh.links[peer].negotiated,
    ensures
        mesh.offers_now(peer, untouched()) == sorts_before(mesh.self_id, peer),
        mesh.offers_now(peer, untouched()) ==> mesh.after(
            MeshOp::Offer { peer, state: untouched() },
        ).links[peer].negotiated,
{
}

/// Nobody offers without a connection, or over one that is busy or was tried before.
pub proof fn law_only_an_idle_connection_is_offered_over(
    mesh: MeshView,
    peer: Seq<char>,
    state: LinkState,
)
    ensures
        mesh.offers_now(peer, state) ==> {
            &&& mesh.links.contains_key(peer)
            &&& peer != mesh.self_id
            &&& state == untouched()
        },
{
    lemma_sorts_before_is_strict_and_total(mesh.self_id, peer);
}

/// An offer is accepted by whoever has an idle connection and has not offered over it
/// itself, and answered with why not by everyone else.
pub proof fn law_an_idle_peer_accepts_an_offer(
    mesh: MeshView,
    from: Seq<char>,
    state: LinkState,
)
    requires
        mesh.links.contains_key(from),
        state.signaling == SignalingState::Stable,
        !mesh.links[from].remote_set,
    ensures
        !mesh.links[from].negotiated ==> mesh.judge_offer(from, state) == OfferVerdict::Accept,
        !sorts_before(mesh.self_id, from) ==> mesh.judge_offer(from, state)
            == OfferVerdict::Accept,
        mesh.links[from].negotiated && sorts_before(mesh.self_id, from) ==> mesh.judge_offer(
            from,
            state,
        ) == OfferVerdict::OursToInitiate,
{
}

/// Without a connection neither an offer nor an answer is applied; with one, an answer is
/// applied just when an offer of ours is outstanding.
pub proof fn law_signals_need_a_connection(mesh: MeshView, from: Seq<char>, state: LinkState)
    ensures
        !mesh.links.contains_key(from) <==> mesh.judge_offer(from, state) == OfferVerdict::NoPeer,
        !mesh.links.contains_key(from) <==> mesh.judge_answer(from, state)
            == AnswerVerdict::NoPeer,
        mesh.links.contains_key(from) ==> (mesh.judge_answer(from, state)
            == AnswerVerdict::Accept) == (state.signaling == SignalingState::HaveLocalOffer),
        mesh.judge_offer(from, state) == OfferVerdict::Accept ==> mesh.after(
            MeshOp::ApplyOffer { from, state },
        ).can_drain(from),
        mesh.judge_answer(from, state) == AnswerVerdict::Accept ==> mesh.after(
            MeshOp::ApplyAnswer { from, state },
        ).can_drain(from),
{
}

/// Once a remote description was accepted, candidates are added as they come for as long
/// as the connection stands, whatever happens.
pub proof fn law_candidates_flow_once_described(
    mesh: MeshView,
    peer: Seq<char>,
    ops: Seq<MeshOp>,
)
    requires
        mesh.can_drain(peer),
        never_closes(ops, peer),
    ensures
        after_all(mesh, ops).can_drain(peer),
{
    law_connections_stand_until_closed(mesh, ops, peer);
}

/// A candidate that comes in over a connection waits at the end of its queue, and can be
/// asked for under the connection's own serial and no other.
pub proof fn law_a_candidate_waits_for_its_connection(
    mesh: MeshView,
    from: Seq<char>,
    candidate: CandidateView,
    serial: u64,
)
    requires
        mesh.links.contains_key(from),
    ensures
        ({
            let after = mesh.after(MeshOp::Ice { from, candidate });
            &&& after.links[from].pending_ice.last() == candidate
            &&& after.links[from].pending_ice.len() == mesh.links[from].pending_ice.len() + 1
            &&& after.has_candidate(from, serial) == (serial == mesh.links[from].serial)
        }),
{
}

/// A stream that was seen waits for its tile until it is shown, whatever our own stream
/// does; one that was not seen, or is shown, does not.
pub proof fn law_a_seen_stream_waits_until_it_is_shown(
    mesh: MeshView,
    other: MeshView,
    peer: Seq<char>,
)
    requires
        other.links == mesh.links,
    ensures
        mesh.links.contains_key(peer) ==> mesh.after(MeshOp::Seen { peer }).waits(peer)
            == !mesh.links[peer].attached,
        !mesh.after(MeshOp::Shown { peer }).waits(peer),
        mesh.wants_link(peer) ==> !mesh.after(MeshOp::Insert { peer }).waits(peer),
        mesh.links.contains_key(peer) && mesh.links[peer].streaming && !mesh.links[peer].attached
            ==> mesh.waits(peer),
        mesh.waits(peer) ==> mesh.links.contains_key(peer) && mesh.links[peer].streaming,
        mesh.waits(peer) == other.waits(peer),
{
}

/// Nothing but showing it, or closing its connection, takes a stream off the list of those
/// that wait.
pub proof fn law_a_waiting_stream_keeps_waiting(mesh: MeshView, op: MeshOp, peer: Seq<char>)
    requires
        mesh.waits(peer),
        op != (MeshOp::Shown { peer }),
        !closes(op, peer),
    ensures
        mesh.after(op).waits(peer),
{
}

/// Our own stream waits for its tile until it is there, and is released with the camera.
pub proof fn law_our_stream_waits_until_it_is_shown(mesh: MeshView, op: MeshOp)
    ensures
        mesh.local_waits() ==> mesh.local,
        !mesh.after(MeshOp::LocalShown).local_waits(),
        !mesh.after(MeshOp::CloseAll).local_waits(),
        mesh.local && !mesh.local_attached ==> mesh.local_waits(),
        op != MeshOp::LocalShown && op != MeshOp::CloseAll ==> mesh.after(op).local_waits()
            == mesh.local_waits(),
{
}

/// A peer's stream is measured once: from when it arrives over a connection, if levels can
/// be measured, until the connection is closed.
pub proof fn law_a_stream_is_measured_once(mesh: MeshView, peer: Seq<char>, meter: MeterView)
    requires
        mesh.meter == Some(meter),
        mesh.links.contains_key(peer),
    ensures
        mesh.asks_to_listen(peer) == !meter.levels.contains_key(peer),
        !mesh.after(MeshOp::Meter { meter: meter.watching(peer) }).asks_to_listen(peer),
        !mesh.after(MeshOp::Close { peer }).asks_to_listen(peer),
        mesh.after(MeshOp::Close { peer }).meter matches Some(after)
            && !after.levels.contains_key(peer),
{
}

/// Where levels cannot be measured, nothing is.
pub proof fn law_without_a_meter_nothing_is_measured(mesh: MeshView, op: MeshOp, peer: Seq<char>)
    requires
        mesh.meter is None,
    ensures
        !mesh.asks_to_listen(peer),
        mesh.after(op).meter is None,
{
}

/// A connection just made starts from nothing, under a serial of its own.
pub proof fn law_a_new_connection_starts_from_nothing(mesh: MeshView, peer: Seq<char>)
    requires
        mesh.wants_link(peer),
    ensures
        ({
            let after = mesh.after(MeshOp::Insert { peer });
            let link = after.links[peer];
            &&& after.links.contains_key(peer)
            &&& link.serial == mesh.made
            &&& link.pending_ice.len() == 0
            &&& !link.remote_set && !link.negotiated && !link.streaming && !link.attached
            &&& mesh.made < u64::MAX ==> after.made == mesh.made + 1
        }),
{
}

/// A connection is wanted with everyone else who has none: not with oneself, not twice,
/// and again once the peer has left.
pub proof fn law_a_connection_is_wanted_with_everyone_else(mesh: MeshView, peer: Seq<char>)
    ensures
        !mesh.wants_link(mesh.self_id),
        peer != mesh.self_id && !mesh.links.contains_key(peer) ==> mesh.wants_link(peer),
        mesh.links.contains_key(peer) ==> !mesh.wants_link(peer),
        !mesh.after(MeshOp::Insert { peer }).wants_link(peer),
        peer != mesh.self_id ==> mesh.after(MeshOp::Close { peer }).wants_link(peer),
        peer != mesh.self_id ==> mesh.after(MeshOp::CloseAll).wants_link(peer),
{
}

/// Each operation changes one thing about a connection that it leaves standing: an offer
/// only that it was made, a description only that it is there, a candidate only the queue,
/// a stream only that it was seen or shown.
pub proof fn law_each_operation_changes_one_thing(mesh: MeshView, op: MeshOp, peer: Seq<char>)
    requires
        mesh.links.contains_key(peer),
        !closes(op, peer),
    ensures
        ({
            let before = mesh.links[peer];
            let after = mesh.after(op).links[peer];
            &&& mesh.after(op).links.contains_key(peer)
            &&& after.serial == before.serial
            &&& !(op is Ice || op is Next) ==> after.pending_ice == before.pending_ice
            &&& !(op is ApplyOffer || op is ApplyAnswer) ==> after.remote_set == before.remote_set
            &&& !(op is Offer) ==> after.negotiated == before.negotiated
            &&& !(op is Seen) ==> after.streaming == before.streaming
            &&& !(op is Shown) ==> after.attached == before.attached
        }),
{
}

/// What an operation does not concern stays as it was: who one is, our own stream, the
/// count of connections, and the meter.
pub proof fn law_operations_mind_their_business(mesh: MeshView, op: MeshOp)
    ensures
        mesh.after(op).self_id == mesh.self_id,
        !(op is CloseAll) ==> mesh.after(op).local == mesh.local,
        !(op is LocalShown) ==> mesh.after(op).local_attached == mesh.local_attached,
        !(op is Insert) ==> mesh.after(op).made == mesh.made,
        !(op is Meter || op is Close || op is CloseAll) ==> mesh.after(op).meter == mesh.meter,
        mesh.after(op).meter is Some == mesh.meter is Some,
{
}

/// Closing everything leaves no connection, no stream of our own, and nobody followed.
pub proof fn law_closing_everything_leaves_nothing(mesh: MeshView, peer: Seq<char>)
    ensures
        ({
            let after = mesh.after(MeshOp::CloseAll);
            &&& !after.links.contains_key(peer)
            &&& !after.local
            &&& after.meter matches Some(meter) ==> {
                &&& !meter.levels.contains_key(peer)
                &&& meter.holder is None
                &&& meter.resume_tries == mesh.meter->0.resume_tries
            }
        }),
{
}

/// A peer that leaves takes nobody else's level along, and nobody else off the stage.
pub proof fn law_leaving_concerns_nobody_else(
    mesh: MeshView,
    peer: Seq<char>,
    other: Seq<char>,
)
    requires
        mesh.meter is Some,
        other != peer,
    ensures
        ({
            let before = mesh.meter->0;
            let after = mesh.after(MeshOp::Close { peer }).meter->0;
            &&& after.levels.contains_key(other) == before.levels.contains_key(other)
            &&& before.levels.contains_key(other) ==> after.levels[other] == before.levels[other]
            &&& before.holder == Some(other) ==> after.holder == Some(other)
            &&& after.resume_tries == before.resume_tries
        }),
{
}

/// The steps for a longer list are those for its parts, one after the other.
proof fn lemma_greeting_is_additive(a: Seq<PeerView>, b: Seq<PeerView>)
    ensures
        greeting_steps(a + b) == greeting_steps(a) + greeting_steps(b),
    decreases b.len(),
{
    if b.len() == 0 {
        assert(a + b =~= a);
        assert(greeting_steps(a) + greeting_steps(b) =~= greeting_steps(a));
    } else {
        assert((a + b).drop_last() =~= a + b.drop_last());
        assert((a + b).last() == b.last());
        lemma_greeting_is_additive(a, b.drop_last());
        assert(greeting_steps(a + b) =~= greeting_steps(a) + greeting_steps(b));
    }
}

/// A snapshot asks for what announcing each peer it lists would ask for, one after the
/// other; whatever its chat.
pub proof fn law_a_snapshot_greets_like_announcements(
    first: Seq<PeerView>,
    peer: PeerView,
    chat: Seq<ChatView>,
    other_chat: Seq<ChatView>,
)
    ensures
        steps_for(EventView::Resync { peers: first.push(peer), chat }) == steps_for(
            EventView::Resync { peers: first, chat: other_chat },
        ) + steps_for(
            EventView::PeerJoined { peer_id: peer.peer_id, peer_name: peer.peer_name },
        ),
        steps_for(EventView::Resync { peers: Seq::empty(), chat }).len() == 0,
{
    reveal_with_fuel(greeting_steps, 2);
    assert(first.push(peer) =~= first + seq![peer]);
    lemma_greeting_is_additive(first, seq![peer]);
    assert(seq![peer].drop_last() =~= Seq::empty());
    assert(greeting_steps(seq![peer]) =~= steps_for(
        EventView::PeerJoined { peer_id: peer.peer_id, peer_name: peer.peer_name },
    ));
}

/// An announcement asks for a connection with the peer and after that for an offer, under
/// whatever name it goes, and for nothing else.
pub proof fn law_an_announcement_asks_for_a_connection_and_an_offer(
    peer_id: Seq<char>,
    peer_name: Option<Seq<char>>,
)
    ensures
        ({
            let steps = steps_for(EventView::PeerJoined { peer_id, peer_name });
            &&& steps.len() == 2
            &&& steps[0] == (StepView::Connect { peer: peer_id })
            &&& steps[1] == (StepView::Offer { peer: peer_id })
        }),
{
}

/// A candidate asks for what an announcement of its sender would, since it may be the
/// first thing heard of it, and is added after that. An offer asks for a connection before
/// it is applied; an answer asks for none.
pub proof fn law_signals_ask_to_be_applied(
    from: Seq<char>,
    sdp: Seq<char>,
    candidate: CandidateView,
)
    ensures
        steps_for(
            EventView::IceCandidate {
                from,
                candidate: candidate.candidate,
                sdp_mid: candidate.sdp_mid,
                sdp_mline_index: candidate.sdp_mline_index,
            },
        ) == steps_for(EventView::PeerJoined { peer_id: from, peer_name: None }).push(
            StepView::AddCandidate { from, candidate },
        ),
        steps_for(EventView::Offer { from, sdp }) == seq![StepView::Connect { peer: from }].push(
            StepView::AcceptOffer { from, sdp },
        ),
        steps_for(EventView::Answer { from, sdp }) == seq![StepView::AcceptAnswer { from, sdp }],
{
    assert(steps_for(
        EventView::IceCandidate {
            from,
            candidate: candidate.candidate,
            sdp_mid: candidate.sdp_mid,
            sdp_mline_index: candidate.sdp_mline_index,
        },
    ) =~= steps_for(EventView::PeerJoined { peer_id: from, peer_name: None }).push(
        StepView::AddCandidate { from, candidate },
    ));
    assert(steps_for(EventView::Offer { from, sdp }) =~= seq![
        StepView::Connect { peer: from },
    ].push(StepView::AcceptOffer { from, sdp }));
}

/// A peer that leaves is closed, and chat and status ask nothing of the mesh.
pub proof fn law_leaving_closes_and_talk_does_nothing(
    peer_id: Seq<char>,
    name: Option<Seq<char>>,
    text: Seq<char>,
    timestamp_ms: u64,
)
    ensures
        steps_for(EventView::PeerLeft { peer_id }) == seq![StepView::Close { peer: peer_id }],
        steps_for(
            EventView::ChatMessage { from: peer_id, sender_name: name, text, timestamp_ms },
        ).len() == 0,
        steps_for(EventView::RoomFull).len() == 0,
        steps_for(EventView::Error { message: text }).len() == 0,
{
}

/// A mesh starts with nobody in it, our stream not shown yet, and a meter just where levels
/// can be measured.
pub proof fn law_a_mesh_starts_empty(self_id: &str, local: bool, metered: bool, mesh: Mesh)
    requires
        call_ensures(Mesh::new, (self_id, local, metered), mesh),
    ensures
        mesh@.self_id == self_id@,
        mesh@.local == local,
        mesh@.local_waits() == local,
        mesh@.links.dom() == Set::<Seq<char>>::empty(),
        mesh@.made == 0,
        mesh@.meter is Some <==> metered,
        mesh@.meter matches Some(meter) ==> meter.levels.dom() == Set::<Seq<char>>::empty()
            && meter.holder is None && meter.resume_tries == 0,
{
    assert(mesh@.links.dom() =~= Set::<Seq<char>>::empty());
    if mesh@.meter is Some {
        assert(mesh@.meter->0.levels.dom() =~= Set::<Seq<char>>::empty());
    }
}

/// The streams to show are those of the connections over which one arrived and was not
/// shown yet, each once, whether or not there is a stream of our own.
pub proof fn law_the_streams_to_show_are_those_that_arrived(
    mesh: Mesh,
    waiting: Vec<String>,
    peer: Seq<char>,
)
    requires
        mesh.wf(),
        call_ensures(Mesh::attach_pending, (&mesh,), waiting),
    ensures
        text_views(waiting@).contains(peer) <==> mesh@.links.contains_key(peer)
            && mesh@.links[peer].streaming && !mesh@.links[peer].attached,
        text_views(waiting@).no_duplicates(),
{
    assert(text_views(waiting@).contains(peer) <==> mesh@.waits(peer));
}

/// What is asked of a mesh is answered of the mesh as it stands.
pub proof fn law_a_mesh_answers_for_itself(
    mesh: Mesh,
    peer: &str,
    wanted: bool,
    ours: bool,
    sends: bool,
    level: Level,
)
    requires
        mesh.wf(),
        call_ensures(Mesh::ensure_peer, (&mesh, peer), wanted),
        call_ensures(Mesh::we_initiate, (&mesh, peer), ours),
        call_ensures(Mesh::sends_media, (&mesh,), sends),
        call_ensures(Mesh::level, (&mesh, peer), level),
    ensures
        wanted <==> peer@ != mesh@.self_id && !mesh@.links.contains_key(peer@),
        ours <==> sorts_before(mesh@.self_id, peer@),
        peer@ == mesh@.self_id ==> !ours,
        sends == mesh@.local,
        mesh@.meter is None ==> level.level == 0 && level.reach == 0,
        mesh@.meter matches Some(meter) ==> level == if meter.levels.contains_key(peer@) {
            meter.levels[peer@]
        } else {
            Level { level: 0, reach: 0 }
        },
{
    lemma_sorts_before_is_strict_and_total(mesh@.self_id, peer@);
}

/// Candidates come out first in, first out, and just for the connection that they came
/// for.
pub proof fn law_the_first_candidate_is_next(
    mesh: MeshView,
    peer: Seq<char>,
    serial: u64,
    candidate: CandidateView,
)
    requires
        mesh.links.contains_key(peer),
    ensures
        mesh.links[peer].serial != serial ==> mesh.next_for(peer, serial) is None,
        mesh.links[peer].serial == serial && mesh.links[peer].pending_ice.len() > 0
            ==> mesh.next_for(peer, serial) == Some(mesh.links[peer].pending_ice.first()),
        mesh.links[peer].pending_ice.len() == 0 ==> mesh.next_for(peer, serial) is None,
        mesh.links[peer].serial == serial && mesh.links[peer].pending_ice.len() == 0
            ==> mesh.after(MeshOp::Ice { from: peer, candidate }).next_for(peer, serial) == Some(
            candidate,
        ),
        mesh.next_for(peer, serial) is Some ==> mesh.after(
            MeshOp::Ice { from: peer, candidate },
        ).next_for(peer, serial) == mesh.next_for(peer, serial),
        !mesh.after(MeshOp::Close { peer }).has_link(peer),
        mesh.after(MeshOp::Close { peer }).next_for(peer, serial) is None,
        mesh.has_link(peer),
{
}

/// When everything is closed, every connection is, each once, and our stream is stopped if
/// there is one.
pub proof fn law_everything_that_is_open_is_closed(
    mesh: MeshView,
    closed: Seq<Seq<char>>,
    stopped: bool,
    peer: Seq<char>,
)
    requires
        mesh.lets_go(closed, stopped),
    ensures
        closed.contains(peer) <==> mesh.links.contains_key(peer),
        closed.no_duplicates(),
        stopped == mesh.local,
        !mesh.after(MeshOp::CloseAll).links.contains_key(peer),
        !mesh.after(MeshOp::CloseAll).local,
{
    assert(closed.to_set().contains(peer) == closed.contains(peer));
}

/// A connection's peer is followed from silence, heard at the last level it had, and
/// nothing but the meter changes.
pub proof fn law_listening_and_hearing_are_the_meters_business(
    mesh: MeshView,
    meter: MeterView,
    peer: Seq<char>,
    level: Level,
)
    requires
        mesh.meter == Some(meter),
    ensures
        mesh.listening(peer).links == mesh.links && mesh.hearing(peer, level).links == mesh.links,
        mesh.listening(peer).local == mesh.local && mesh.hearing(peer, level).local == mesh.local,
        mesh.listening(peer).local_attached == mesh.local_attached,
        mesh.hearing(peer, level).local_attached == mesh.local_attached,
        mesh.listening(peer).self_id == mesh.self_id,
        mesh.hearing(peer, level).self_id == mesh.self_id,
        mesh.listening(peer).made == mesh.made && mesh.hearing(peer, level).made == mesh.made,
        mesh.listening(peer).meter is Some && mesh.hearing(peer, level).meter is Some,
        !mesh.links.contains_key(peer) ==> mesh.listening(peer) == mesh,
        mesh.links.contains_key(peer) && !meter.levels.contains_key(peer) ==> {
            let after = mesh.listening(peer).meter->0;
            after.levels == meter.levels.insert(peer, Level { level: 0, reach: 0 })
        },
        meter.levels.contains_key(peer) ==> mesh.listening(peer) == mesh,
        meter.levels.contains_key(peer) ==> mesh.hearing(peer, level).meter->0.levels
            == meter.levels.insert(peer, level),
        !meter.levels.contains_key(peer) ==> mesh.hearing(peer, level) == mesh,
{
}

/// A meter that is parked is resumed, up to five times, where there is one; nothing else
/// changes.
pub proof fn law_a_parked_meter_is_resumed(mesh: MeshView, parked: bool)
    ensures
        mesh.resumes(parked) <==> parked && mesh.meter is Some && mesh.meter->0.resume_tries < 5,
        mesh.resumes(parked) ==> mesh.resuming(parked).meter->0.resume_tries
            == mesh.meter->0.resume_tries + 1,
        !mesh.resumes(parked) ==> mesh.resuming(parked) == mesh,
        mesh.resuming(parked).links == mesh.links,
        mesh.resuming(parked).meter is Some <==> mesh.meter is Some,
        mesh.meter is Some ==> mesh.resuming(parked).meter->0.levels == mesh.meter->0.levels
            && mesh.resuming(parked).meter->0.holder == mesh.meter->0.holder,
{
}

/// Without a meter nobody is staged; with one, whoever is staged is somebody followed, is
/// out of everyone's reach, and holds the stage from then on.
pub proof fn law_the_stage_goes_to_somebody_out_of_reach(
    mesh: MeshView,
    who: Option<Seq<char>>,
    other: Seq<char>,
)
    requires
        mesh.may_stage(who),
    ensures
        mesh.meter is None ==> who is None && mesh.staging(who) == mesh,
        mesh.meter matches Some(meter) ==> {
            &&& meter.may_stage(who)
            &&& who matches Some(peer) ==> meter.levels.contains_key(peer) && (
            meter.levels.contains_key(other) && other != peer ==> meter.levels[other].level
                < meter.levels[peer].reach)
            &&& mesh.staging(who).meter matches Some(after) && after.holder == who && after.levels
                == meter.levels && after.resume_tries == meter.resume_tries
        },
        mesh.staging(who).links == mesh.links,
        mesh.staging(who).local == mesh.local,
{
    if mesh.meter is Some {
        crate::services::audio_level::law_the_stage_goes_to_someone_followed(mesh.meter->0, who);
    }
}

/// A step is seen as the kind of step that it is, with all that it holds.
pub proof fn law_steps_are_seen_whole(step: MeshStep)
    ensures
        step matches MeshStep::Connect { peer } ==> step@ == (StepView::Connect { peer: peer@ }),
        step matches MeshStep::Offer { peer } ==> step@ == (StepView::Offer { peer: peer@ }),
        step matches MeshStep::Close { peer } ==> step@ == (StepView::Close { peer: peer@ }),
        step matches MeshStep::AcceptOffer { from, sdp } ==> step@ == (StepView::AcceptOffer {
            from: from@,
            sdp: sdp@,
        }),
        step matches MeshStep::AcceptAnswer { from, sdp } ==> step@ == (StepView::AcceptAnswer {
            from: from@,
            sdp: sdp@,
        }),
        step matches MeshStep::AddCandidate { from, candidate } ==> step@
            == (StepView::AddCandidate {
            from: from@,
            candidate: CandidateView {
                candidate: candidate.candidate@,
                sdp_mid: text_view(candidate.sdp_mid),
                sdp_mline_index: candidate.sdp_mline_index,
            },
        }),
{
}

} // verus!
