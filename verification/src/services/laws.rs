//! What holds of a mesh over a whole room visit.
//!
//! A visit is a sequence of operations on a mesh, each of them a call of a function of
//! [`crate::services::webrtc::Mesh`].

use vstd::prelude::*;

use crate::server::relayed;
use crate::services::negotiation::{signal_for, SdpKind};
use crate::services::webrtc::{
    greeting_steps, steps_for, CandidateView, LinkState, MeshOp, MeshView, OfferVerdict,
    SignalingState, StepView,
};
use crate::text::lemma_sorts_before_is_strict_and_total;
use crate::types::{ChatView, EventView, PeerView, SignalView};

verus! {

/// What a sequence of operations makes of a mesh.
pub open spec fn after_all(mesh: MeshView, ops: Seq<MeshOp>) -> MeshView
    decreases ops.len(),
{
    if ops.len() == 0 {
        mesh
    } else {
        after_all(mesh, ops.drop_last()).after(ops.last())
    }
}

/// Whether an operation takes a peer's connection away.
pub open spec fn closes(op: MeshOp, peer: Seq<char>) -> bool {
    op == (MeshOp::Close { peer }) || op == MeshOp::CloseAll
}

/// Whether a sequence of operations leaves a peer's connection standing.
pub open spec fn never_closes(ops: Seq<MeshOp>, peer: Seq<char>) -> bool {
    forall|i: int| 0 <= i < ops.len() ==> !closes(#[trigger] ops[i], peer)
}

/// The candidates that came in from a peer, in order.
pub open spec fn candidates_from(ops: Seq<MeshOp>, peer: Seq<char>) -> Seq<CandidateView>
    decreases ops.len(),
{
    if ops.len() == 0 {
        Seq::empty()
    } else {
        let earlier = candidates_from(ops.drop_last(), peer);
        match ops.last() {
            MeshOp::Ice { from, candidate } => if from == peer {
                earlier.push(candidate)
            } else {
                earlier
            },
            _ => earlier,
        }
    }
}

/// The candidates handed out for a peer's connection, in order.
pub open spec fn candidates_for(
    mesh: MeshView,
    ops: Seq<MeshOp>,
    peer: Seq<char>,
) -> Seq<CandidateView>
    decreases ops.len(),
{
    if ops.len() == 0 {
        Seq::empty()
    } else {
        let earlier = candidates_for(mesh, ops.drop_last(), peer);
        let before = after_all(mesh, ops.drop_last());
        match ops.last() {
            MeshOp::Next { peer: to, serial } => if to == peer && before.has_candidate(
                peer,
                serial,
            ) {
                earlier.push(before.links[peer].pending_ice[0])
            } else {
                earlier
            },
            _ => earlier,
        }
    }
}

/// Nothing but closing it takes a connection away, or lets it be taken for another.
pub proof fn law_connections_stand_until_closed(mesh: MeshView, ops: Seq<MeshOp>, peer: Seq<char>)
    requires
        mesh.links.contains_key(peer),
        never_closes(ops, peer),
    ensures
        after_all(mesh, ops).links.contains_key(peer),
        after_all(mesh, ops).links[peer].serial == mesh.links[peer].serial,
        after_all(mesh, ops).self_id == mesh.self_id,
        mesh.links[peer].negotiated ==> after_all(mesh, ops).links[peer].negotiated,
        mesh.links[peer].remote_set ==> after_all(mesh, ops).links[peer].remote_set,
    decreases ops.len(),
{
    if ops.len() > 0 {
        let earlier = ops.drop_last();
        assert forall|i: int| 0 <= i < earlier.len() implies !closes(
            #[trigger] earlier[i],
            peer,
        ) by {
            assert(ops[i] == earlier[i]);
        }
        law_connections_stand_until_closed(mesh, earlier, peer);
        assert(ops.last() == ops[ops.len() - 1]);
    }
}

/// Every connection counts, and nothing takes the count back while it fits.
pub proof fn law_the_count_of_connections_grows(mesh: MeshView, ops: Seq<MeshOp>)
    requires
        mesh.made + ops.len() <= u64::MAX,
    ensures
        mesh.made <= after_all(mesh, ops).made <= mesh.made + ops.len(),
    decreases ops.len(),
{
    if ops.len() > 0 {
        law_the_count_of_connections_grows(mesh, ops.drop_last());
    }
}

/// A connection made later has another serial, whatever happens in between.
pub proof fn law_a_later_connection_has_another_serial(
    mesh: MeshView,
    peer: Seq<char>,
    ops: Seq<MeshOp>,
    other: Seq<char>,
)
    requires
        mesh.wants_link(peer),
        mesh.made + ops.len() < u64::MAX,
        after_all(mesh.linked(peer), ops).wants_link(other),
    ensures
        after_all(mesh.linked(peer), ops).linked(other).links[other].serial != mesh.linked(
            peer,
        ).links[peer].serial,
{
    law_the_count_of_connections_grows(mesh.linked(peer), ops);
}

/// Once a connection is gone its serial draws no candidates any more, even where there is
/// a newer connection with the same peer: a drain left over from the old one takes nothing
/// from the new one's queue.
pub proof fn law_a_stale_drain_takes_nothing(
    mesh: MeshView,
    peer: Seq<char>,
    serial: u64,
    ops: Seq<MeshOp>,
)
    requires
        serial < mesh.made,
        mesh.made + ops.len() <= u64::MAX,
        mesh.links.contains_key(peer) ==> mesh.links[peer].serial != serial,
    ensures
        !after_all(mesh, ops).has_candidate(peer, serial),
        after_all(mesh, ops).links.contains_key(peer) ==> after_all(mesh, ops).links[peer].serial
            != serial,
    decreases ops.len(),
{
    if ops.len() > 0 {
        law_a_stale_drain_takes_nothing(mesh, peer, serial, ops.drop_last());
        law_the_count_of_connections_grows(mesh, ops.drop_last());
    }
}

/// A pair gets one offer: once a side has offered, it does not offer again over the same
/// connection, whatever happens in between.
pub proof fn law_one_offer_per_connection(
    mesh: MeshView,
    peer: Seq<char>,
    state: LinkState,
    ops: Seq<MeshOp>,
    again: LinkState,
)
    requires
        mesh.offers_now(peer, state),
        never_closes(ops, peer),
    ensures
        !after_all(mesh.offered(peer), ops).offers_now(peer, again),
{
    law_connections_stand_until_closed(mesh.offered(peer), ops, peer);
}

/// A remote offer is applied to a connection at most once, whatever happens in between.
pub proof fn law_one_offer_is_answered_per_connection(
    mesh: MeshView,
    from: Seq<char>,
    state: LinkState,
    ops: Seq<MeshOp>,
    again: LinkState,
)
    requires
        mesh.judge_offer(from, state) == OfferVerdict::Accept,
        never_closes(ops, from),
    ensures
        after_all(mesh.described(from), ops).judge_offer(from, again) != OfferVerdict::Accept,
{
    law_connections_stand_until_closed(mesh.described(from), ops, from);
}

/// Each candidate of a connection is handed out at most once, in the order in which they
/// came; those not handed out yet wait.
pub proof fn law_candidates_are_handed_out_once_in_order(
    mesh: MeshView,
    peer: Seq<char>,
    ops: Seq<MeshOp>,
)
    requires
        mesh.wants_link(peer),
        never_closes(ops, peer),
    ensures
        candidates_from(ops, peer) == candidates_for(mesh.linked(peer), ops, peer) + after_all(
            mesh.linked(peer),
            ops,
        ).links[peer].pending_ice,
    decreases ops.len(),
{
    let start = mesh.linked(peer);
    if ops.len() == 0 {
        assert(candidates_from(ops, peer) =~= candidates_for(start, ops, peer) + after_all(
            start,
            ops,
        ).links[peer].pending_ice);
    } else {
        let earlier = ops.drop_last();
        assert forall|i: int| 0 <= i < earlier.len() implies !closes(
            #[trigger] earlier[i],
            peer,
        ) by {
            assert(ops[i] == earlier[i]);
        }
        law_candidates_are_handed_out_once_in_order(mesh, peer, earlier);
        law_connections_stand_until_closed(start, earlier, peer);
        assert(ops.last() == ops[ops.len() - 1]);
        assert(candidates_from(ops, peer) =~= candidates_for(start, ops, peer) + after_all(
            start,
            ops,
        ).links[peer].pending_ice);
    }
}

/// Of two participants exactly one owns the offer, and both agree on which.
pub proof fn law_exactly_one_side_offers(ours: MeshView, theirs: MeshView)
    requires
        ours.self_id != theirs.self_id,
    ensures
        ours.initiates(theirs.self_id) == !theirs.initiates(ours.self_id),
{
    lemma_sorts_before_is_strict_and_total(ours.self_id, theirs.self_id);
}

/// The designated answerer never offers, whatever state its connection is in.
pub proof fn law_the_answerer_never_offers(ours: MeshView, theirs: MeshView, state: LinkState)
    requires
        ours.self_id != theirs.self_id,
        ours.initiates(theirs.self_id),
    ensures
        !theirs.offers_now(ours.self_id, state),
{
    law_exactly_one_side_offers(ours, theirs);
}

/// An offer that reaches a peer mid-negotiation is dropped: it changes nothing.
pub proof fn law_an_offer_mid_negotiation_is_dropped(
    mesh: MeshView,
    from: Seq<char>,
    state: LinkState,
)
    requires
        state.signaling != SignalingState::Stable || (mesh.links.contains_key(from)
            && mesh.links[from].remote_set) || (mesh.initiates(from)
            && mesh.links.contains_key(from) && mesh.links[from].negotiated),
    ensures
        mesh.judge_offer(from, state) != OfferVerdict::Accept,
        mesh.after(MeshOp::ApplyOffer { from, state }) == mesh,
{
}

/// What one mesh sends reaches the mesh it is for: relayed by the server, a description
/// comes in as an offer or an answer with the same text, from the participant that sent
/// it, and a candidate as the same candidate.
pub proof fn law_signals_reach_the_mesh_they_are_for(
    from: Seq<char>,
    to: Seq<char>,
    sdp: Seq<char>,
    candidate: CandidateView,
)
    ensures
        relayed(signal_for(SdpKind::Offer, to, sdp), from) matches Some((at, event)) && at == to
            && steps_for(event).last() == (StepView::AcceptOffer { from, sdp }),
        relayed(signal_for(SdpKind::Answer, to, sdp), from) matches Some((at, event)) && at == to
            && steps_for(event).last() == (StepView::AcceptAnswer { from, sdp }),
        relayed(
            SignalView::IceCandidate {
                to,
                candidate: candidate.candidate,
                sdp_mid: candidate.sdp_mid,
                sdp_mline_index: candidate.sdp_mline_index,
            },
            from,
        ) matches Some((at, event)) && at == to && steps_for(event).last()
            == (StepView::AddCandidate { from, candidate }),
{
}

/// Making a connection twice is making it once.
pub proof fn law_connecting_is_idempotent(mesh: MeshView, peer: Seq<char>)
    ensures
        mesh.after(MeshOp::Insert { peer }).after(MeshOp::Insert { peer }) == mesh.after(
            MeshOp::Insert { peer },
        ),
{
}

/// Making a connection with everyone on a list, in order.
pub open spec fn connecting(peers: Seq<PeerView>) -> Seq<MeshOp> {
    peers.map_values(|p: PeerView| MeshOp::Insert { peer: p.peer_id })
}

/// A snapshot is a repair path: it asks for a connection with everyone it lists, and
/// making those leaves nobody on the list but oneself without one.
pub proof fn law_a_snapshot_connects_everyone(
    mesh: MeshView,
    peers: Seq<PeerView>,
    chat: Seq<ChatView>,
    i: int,
)
    requires
        0 <= i < peers.len(),
        peers[i].peer_id != mesh.self_id,
    ensures
        steps_for(EventView::Resync { peers, chat }).contains(
            StepView::Connect { peer: peers[i].peer_id },
        ),
        after_all(mesh, connecting(peers)).links.contains_key(peers[i].peer_id),
        after_all(mesh, connecting(peers)).self_id == mesh.self_id,
    decreases peers.len(),
{
    let peer = peers[i].peer_id;
    let step = StepView::Connect { peer };
    let earlier = peers.drop_last();
    assert(connecting(peers).drop_last() =~= connecting(earlier));
    assert(connecting(peers).last() == MeshOp::Insert { peer: peers.last().peer_id });
    lemma_connecting_keeps_the_id(mesh, earlier);
    let greeted = greeting_steps(earlier);
    let steps = greeting_steps(peers);
    if i < earlier.len() {
        assert(earlier[i] == peers[i]);
        law_a_snapshot_connects_everyone(mesh, earlier, chat, i);
        assert(greeted.contains(step));
        let k = choose|k: int| 0 <= k < greeted.len() && greeted[k] == step;
        assert(steps[k] == step);
    } else {
        assert(steps[greeted.len() as int] == step);
    }
}

/// Making connections does not change who one is.
proof fn lemma_connecting_keeps_the_id(mesh: MeshView, peers: Seq<PeerView>)
    ensures
        after_all(mesh, connecting(peers)).self_id == mesh.self_id,
    decreases peers.len(),
{
    if peers.len() > 0 {
        assert(connecting(peers).drop_last() =~= connecting(peers.drop_last()));
        lemma_connecting_keeps_the_id(mesh, peers.drop_last());
        assert(connecting(peers).last() == MeshOp::Insert { peer: peers.last().peer_id });
    }
}

/// A peer that left is gone from the mesh, with everything queued for it and any claim
/// it had on the stage.
pub proof fn law_leaving_clears_a_peer(mesh: MeshView, peer: Seq<char>)
    requires
        mesh.links.contains_key(peer),
    ensures
        !mesh.after(MeshOp::Close { peer }).links.contains_key(peer),
        mesh.after(MeshOp::Close { peer }).meter matches Some(meter) ==> {
            &&& !meter.levels.contains_key(peer)
            &&& meter.holder != Some(peer)
        },
        forall|serial: u64|
            !#[trigger] mesh.after(MeshOp::Close { peer }).has_candidate(peer, serial),
{
}

/// What is done about one peer leaves every other connection as it was.
pub proof fn law_peers_are_independent(mesh: MeshView, op: MeshOp, peer: Seq<char>)
    requires
        match op {
            MeshOp::Insert { peer: p } => p != peer,
            MeshOp::Offer { peer: p, .. } => p != peer,
            MeshOp::ApplyOffer { from, .. } => from != peer,
            MeshOp::ApplyAnswer { from, .. } => from != peer,
            MeshOp::Ice { from, .. } => from != peer,
            MeshOp::Next { peer: p, .. } => p != peer,
            MeshOp::Seen { peer: p } => p != peer,
            MeshOp::Shown { peer: p } => p != peer,
            MeshOp::Meter { .. } => true,
            MeshOp::LocalShown => true,
            MeshOp::Close { peer: p } => p != peer,
            MeshOp::CloseAll => false,
        },
    ensures
        mesh.after(op).links.contains_key(peer) == mesh.links.contains_key(peer),
        mesh.links.contains_key(peer) ==> mesh.after(op).links[peer] == mesh.links[peer],
{
}

} // verus!
