//! The WebRTC mesh: one peer connection per other participant.
//!
//! [`Mesh`] decides; whoever holds the browser's connections carries the decisions out.
//! Hand it every room event with [`Mesh::on_event`] and take the steps it names, in
//! order.
//!
//! # Who offers to whom
//!
//! The peer whose id sorts *first* creates the offer. Both ends compute the same answer
//! from the same two ids, so exactly one offer is made per pair and no glare arises in
//! any join order: the designated answerer never offers, and an offer that reaches a
//! peer mid-negotiation is dropped rather than applied.

use std::collections::VecDeque;

use vstd::prelude::*;
use vstd::seq_lib::lemma_seq_contains_after_push;

use crate::roster::Roster;
use crate::services::audio_level::{Level, LevelMeter, MeterView};
use crate::text::{precedes, same, sorts_before};
use crate::types::{
    clone_text, peer_views, text_view, text_views, EventView, PeerView, SseEvent,
};

verus! {

/// One remote candidate, as it is handed to a connection.
#[derive(Debug, PartialEq)]
pub struct IceCandidate {
    pub candidate: String,
    pub sdp_mid: Option<String>,
    pub sdp_mline_index: Option<u16>,
}

/// The view of an [`IceCandidate`].
pub struct CandidateView {
    pub candidate: Seq<char>,
    pub sdp_mid: Option<Seq<char>>,
    pub sdp_mline_index: Option<u16>,
}

impl View for IceCandidate {
    type V = CandidateView;

    open spec fn view(&self) -> CandidateView {
        CandidateView {
            candidate: self.candidate@,
            sdp_mid: text_view(self.sdp_mid),
            sdp_mline_index: self.sdp_mline_index,
        }
    }
}

/// The views of a queue of candidates.
pub open spec fn candidate_views(queue: Seq<IceCandidate>) -> Seq<CandidateView> {
    queue.map_values(|c: IceCandidate| c@)
}

/// Where a connection's offer/answer exchange stands.
#[derive(Debug, Clone, Copy, PartialEq, Eq, Structural)]
pub enum SignalingState {
    Stable,
    HaveLocalOffer,
    /// Anything else: the exchange is under way, or the connection is closed.
    Busy,
}

/// What a connection says of itself at the moment a decision is taken.
#[derive(Debug, Clone, Copy, PartialEq, Eq, Structural)]
pub struct LinkState {
    pub signaling: SignalingState,
    /// No attempt to connect has been made yet.
    pub is_new: bool,
}

/// What the mesh knows of one connection.
struct PeerLink {
    /// Tells this connection from an earlier one with the same peer.
    serial: u64,
    /// Candidates that arrived before there was a remote description to attach them to.
    pending_ice: VecDeque<IceCandidate>,
    /// A remote description has been applied, so candidates can be added at once.
    remote_set: bool,
    /// We have already offered here. One initial offer per pair.
    negotiated: bool,
    /// The peer's stream has been seen, and whether it has reached its tile yet.
    streaming: bool,
    attached: bool,
}

/// The view of what the mesh knows of one connection.
#[verifier::ext_equal]
pub struct LinkView {
    pub serial: u64,
    pub pending_ice: Seq<CandidateView>,
    pub remote_set: bool,
    pub negotiated: bool,
    pub streaming: bool,
    pub attached: bool,
}

impl LinkView {
    /// A connection just made.
    pub open spec fn fresh(serial: u64) -> Self {
        LinkView {
            serial,
            pending_ice: Seq::empty(),
            remote_set: false,
            negotiated: false,
            streaming: false,
            attached: false,
        }
    }
}

impl View for PeerLink {
    type V = LinkView;

    closed spec fn view(&self) -> LinkView {
        LinkView {
            serial: self.serial,
            pending_ice: candidate_views(self.pending_ice@),
            remote_set: self.remote_set,
            negotiated: self.negotiated,
            streaming: self.streaming,
            attached: self.attached,
        }
    }
}

/// The mesh for one room visit.
///
/// It holds what is known of the connections, not the connections: those, and the media
/// that travels over them, belong to the browser.
pub struct Mesh {
    self_id: String,
    /// There is a camera/mic stream of our own, and whether it has reached its tile.
    local: bool,
    local_attached: bool,
    /// How many connections were made, so that each gets a serial of its own.
    made: u64,
    peers: Roster<PeerLink>,
    /// `None` only where the browser cannot analyse audio, in which case the stage
    /// simply has no owner.
    meter: Option<LevelMeter>,
}

/// The view of a [`Mesh`].
#[verifier::ext_equal]
pub struct MeshView {
    pub self_id: Seq<char>,
    pub local: bool,
    pub local_attached: bool,
    pub made: u64,
    pub links: Map<Seq<char>, LinkView>,
    pub meter: Option<MeterView>,
}

/// One thing to do about a room event.
#[derive(Debug, PartialEq)]
pub enum MeshStep {
    /// Make a connection with the peer, if [`Mesh::ensure_peer`] asks for one.
    Connect { peer: String },
    /// Offer to the peer, if [`Mesh::maybe_offer`] says so.
    Offer { peer: String },
    /// Tear the peer's connection down, if [`Mesh::close_peer`] had one.
    Close { peer: String },
    /// Answer an offer, if [`Mesh::apply_offer`] accepts it.
    AcceptOffer { from: String, sdp: String },
    /// Apply an answer, if [`Mesh::apply_answer`] accepts it.
    AcceptAnswer { from: String, sdp: String },
    /// Queue a candidate with [`Mesh::on_ice`].
    AddCandidate { from: String, candidate: IceCandidate },
}

/// The view of a [`MeshStep`].
pub enum StepView {
    Connect { peer: Seq<char> },
    Offer { peer: Seq<char> },
    Close { peer: Seq<char> },
    AcceptOffer { from: Seq<char>, sdp: Seq<char> },
    AcceptAnswer { from: Seq<char>, sdp: Seq<char> },
    AddCandidate { from: Seq<char>, candidate: CandidateView },
}

impl View for MeshStep {
    type V = StepView;

    open spec fn view(&self) -> StepView {
        match *self {
            MeshStep::Connect { peer } => StepView::Connect { peer: peer@ },
            MeshStep::Offer { peer } => StepView::Offer { peer: peer@ },
            MeshStep::Close { peer } => StepView::Close { peer: peer@ },
            MeshStep::AcceptOffer { from, sdp } => StepView::AcceptOffer {
                from: from@,
                sdp: sdp@,
            },
            MeshStep::AcceptAnswer { from, sdp } => StepView::AcceptAnswer {
                from: from@,
                sdp: sdp@,
            },
            MeshStep::AddCandidate { from, candidate } => StepView::AddCandidate {
                from: from@,
                candidate: candidate@,
            },
        }
    }
}

/// The views of a list of steps.
pub open spec fn step_views(steps: Seq<MeshStep>) -> Seq<StepView> {
    steps.map_values(|s: MeshStep| s@)
}

/// What to do about each peer of a snapshot: connect, then offer.
pub open spec fn greeting_steps(peers: Seq<PeerView>) -> Seq<StepView>
    decreases peers.len(),
{
    if peers.len() == 0 {
        Seq::empty()
    } else {
        greeting_steps(peers.drop_last()).push(
            StepView::Connect { peer: peers.last().peer_id },
        ).push(StepView::Offer { peer: peers.last().peer_id })
    }
}

/// What to do about a room event. Whatever the mesh ignores is presence or chat.
pub open spec fn steps_for(event: EventView) -> Seq<StepView> {
    match event {
        // The snapshot doubles as the repair path: a peer we never managed to reach
        // while its own stream was opening is still listed here.
        EventView::Resync { peers, .. } => greeting_steps(peers),
        EventView::PeerJoined { peer_id, .. } => seq![
            StepView::Connect { peer: peer_id },
            StepView::Offer { peer: peer_id },
        ],
        EventView::PeerLeft { peer_id } => seq![StepView::Close { peer: peer_id }],
        EventView::Offer { from, sdp } => seq![
            StepView::Connect { peer: from },
            StepView::AcceptOffer { from, sdp },
        ],
        EventView::Answer { from, sdp } => seq![StepView::AcceptAnswer { from, sdp }],
        // A candidate can overtake the signal that would have created this peer's
        // connection, so the connection is made on demand.
        EventView::IceCandidate { from, candidate, sdp_mid, sdp_mline_index } => seq![
            StepView::Connect { peer: from },
            StepView::Offer { peer: from },
            StepView::AddCandidate {
                from,
                candidate: CandidateView { candidate, sdp_mid, sdp_mline_index },
            },
        ],
        _ => Seq::empty(),
    }
}

/// What becomes of an offer.
#[derive(Debug, Clone, Copy, PartialEq, Eq, Structural)]
pub enum OfferVerdict {
    /// There is no connection to apply it to.
    NoPeer,
    /// The pair is ours to offer to, and we have.
    OursToInitiate,
    /// We are already mid-negotiation with this peer.
    NotStable,
    Accept,
}

/// What becomes of an answer.
#[derive(Debug, Clone, Copy, PartialEq, Eq, Structural)]
pub enum AnswerVerdict {
    /// There is no connection to apply it to.
    NoPeer,
    /// It answers no offer of ours.
    NoOfferOutstanding,
    Accept,
}

/// One operation on a mesh, as the functions of [`Mesh`] perform them.
pub enum MeshOp {
    /// A connection was made with a peer.
    Insert { peer: Seq<char> },
    /// The mesh was asked whether to offer to a peer.
    Offer { peer: Seq<char>, state: LinkState },
    /// An offer came in.
    ApplyOffer { from: Seq<char>, state: LinkState },
    /// An answer came in.
    ApplyAnswer { from: Seq<char>, state: LinkState },
    /// A candidate came in.
    Ice { from: Seq<char>, candidate: CandidateView },
    /// A candidate was asked for, to be added to a connection.
    Next { peer: Seq<char>, serial: u64 },
    /// A peer's stream was seen.
    Seen { peer: Seq<char> },
    /// A peer's stream reached its tile.
    Shown { peer: Seq<char> },
    /// Our own stream reached its tile.
    LocalShown,
    /// The meter changed.
    Meter { meter: MeterView },
    /// A connection was torn down.
    Close { peer: Seq<char> },
    /// Every connection was torn down, and the camera released.
    CloseAll,
}

impl MeshView {
    /// What an operation makes of the mesh.
    pub open spec fn after(self, op: MeshOp) -> Self {
        match op {
            MeshOp::Insert { peer } => if self.wants_link(peer) {
                self.linked(peer)
            } else {
                self
            },
            MeshOp::Offer { peer, state } => if self.offers_now(peer, state) {
                self.offered(peer)
            } else {
                self
            },
            MeshOp::ApplyOffer { from, state } => if self.judge_offer(from, state)
                == OfferVerdict::Accept {
                self.described(from)
            } else {
                self
            },
            MeshOp::ApplyAnswer { from, state } => if self.judge_answer(from, state)
                == AnswerVerdict::Accept {
                self.described(from)
            } else {
                self
            },
            MeshOp::Ice { from, candidate } => self.queued(from, candidate),
            MeshOp::Next { peer, serial } => if self.has_candidate(peer, serial) {
                self.dequeued(peer)
            } else {
                self
            },
            MeshOp::Seen { peer } => self.seen(peer),
            MeshOp::Shown { peer } => self.shown(peer),
            MeshOp::LocalShown => MeshView { local_attached: true, ..self },
            MeshOp::Meter { meter } => self.metered(meter),
            MeshOp::Close { peer } => self.unlinked(peer),
            MeshOp::CloseAll => MeshView { links: Map::empty(), local: false, ..self }.metered(
                MeterView { levels: Map::empty(), holder: None, ..self.meter->0 },
            ),
        }
    }

    /// With a connection changed, where there is one.
    pub open spec fn relinked(self, peer: Seq<char>, link: LinkView) -> Self {
        if self.links.contains_key(peer) {
            MeshView { links: self.links.insert(peer, link), ..self }
        } else {
            self
        }
    }

    /// With a connection just made.
    pub open spec fn linked(self, peer: Seq<char>) -> Self {
        MeshView {
            links: self.links.insert(peer, LinkView::fresh(self.made)),
            made: if self.made == u64::MAX {
                0
            } else {
                (self.made + 1) as u64
            },
            ..self
        }
    }

    /// With the one offer of a pair made.
    pub open spec fn offered(self, peer: Seq<char>) -> Self {
        self.relinked(peer, LinkView { negotiated: true, ..self.links[peer] })
    }

    /// With a remote description on its way in.
    pub open spec fn described(self, peer: Seq<char>) -> Self {
        self.relinked(peer, LinkView { remote_set: true, ..self.links[peer] })
    }

    /// With a candidate behind those that wait already.
    pub open spec fn queued(self, peer: Seq<char>, candidate: CandidateView) -> Self {
        self.relinked(
            peer,
            LinkView {
                pending_ice: self.links[peer].pending_ice.push(candidate),
                ..self.links[peer]
            },
        )
    }

    /// Whether a connection has a candidate waiting.
    pub open spec fn has_candidate(self, peer: Seq<char>, serial: u64) -> bool {
        &&& self.links.contains_key(peer)
        &&& self.links[peer].serial == serial
        &&& self.links[peer].pending_ice.len() > 0
    }

    /// Without the oldest candidate of a connection.
    pub open spec fn dequeued(self, peer: Seq<char>) -> Self {
        self.relinked(
            peer,
            LinkView {
                pending_ice: self.links[peer].pending_ice.drop_first(),
                ..self.links[peer]
            },
        )
    }

    /// With a peer's stream seen.
    pub open spec fn seen(self, peer: Seq<char>) -> Self {
        self.relinked(peer, LinkView { streaming: true, ..self.links[peer] })
    }

    /// With a peer's stream in its tile.
    pub open spec fn shown(self, peer: Seq<char>) -> Self {
        self.relinked(peer, LinkView { attached: true, ..self.links[peer] })
    }

    /// Whether candidates from a peer can be added at once: there is a remote description
    /// to attach them to.
    pub open spec fn can_drain(self, peer: Seq<char>) -> bool {
        self.links.contains_key(peer) && self.links[peer].remote_set
    }

    /// Whether a stream that arrives from a peer is one to start measuring.
    pub open spec fn asks_to_listen(self, peer: Seq<char>) -> bool {
        self.links.contains_key(peer) && (self.meter matches Some(meter)
            && !meter.levels.contains_key(peer))
    }

    /// Whether our own stream still has to reach its tile.
    pub open spec fn local_waits(self) -> bool {
        self.local && !self.local_attached
    }

    /// Whether a peer's stream has been seen and is not in its tile yet.
    pub open spec fn waits(self, peer: Seq<char>) -> bool {
        self.links.contains_key(peer) && self.links[peer].streaming && !self.links[peer].attached
    }

    /// With the meter changed, where there is one.
    pub open spec fn metered(self, meter: MeterView) -> Self {
        MeshView {
            meter: if self.meter is Some {
                Some(meter)
            } else {
                None
            },
            ..self
        }
    }

    /// Whether there is a connection with a peer.
    pub open spec fn has_link(self, peer: Seq<char>) -> bool {
        self.links.contains_key(peer)
    }

    /// The candidate that is next for a connection, if any waits for it.
    pub open spec fn next_for(self, peer: Seq<char>, serial: u64) -> Option<CandidateView> {
        if self.has_candidate(peer, serial) {
            Some(self.links[peer].pending_ice[0])
        } else {
            None
        }
    }

    /// Whether these are the connections to close, and whether our stream is to stop, when
    /// everything is closed.
    pub open spec fn lets_go(self, closed: Seq<Seq<char>>, stopped: bool) -> bool {
        &&& closed.no_duplicates()
        &&& closed.to_set() == self.links.dom()
        &&& stopped == self.local
    }

    /// The mesh once it follows how loud a peer is.
    pub open spec fn listening(self, peer: Seq<char>) -> Self {
        if self.links.contains_key(peer) {
            self.after(MeshOp::Meter { meter: self.meter->0.watching(peer) })
        } else {
            self
        }
    }

    /// The mesh once it heard how loud a peer is.
    pub open spec fn hearing(self, peer: Seq<char>, level: Level) -> Self {
        self.after(MeshOp::Meter { meter: self.meter->0.hearing(peer, level) })
    }

    /// Whether a meter that may have been parked is to be resumed.
    pub open spec fn resumes(self, parked: bool) -> bool {
        self.meter matches Some(meter) && meter.resumes(parked)
    }

    /// The mesh once its meter was resumed, where it is to be.
    pub open spec fn resuming(self, parked: bool) -> Self {
        self.after(MeshOp::Meter { meter: self.meter->0.resuming(parked) })
    }

    /// Whether the stage may go to a peer, or to nobody.
    pub open spec fn may_stage(self, who: Option<Seq<char>>) -> bool {
        match self.meter {
            Some(meter) => {
                &&& meter.may_stage(who)
                &&& who matches Some(peer) ==> meter.is_out_of_reach(peer)
            },
            None => who is None,
        }
    }

    /// The mesh once the stage went to a peer, or to nobody.
    pub open spec fn staging(self, who: Option<Seq<char>>) -> Self {
        self.after(MeshOp::Meter { meter: self.meter->0.staging(who) })
    }

    /// Without a connection. A peer that had one is not listened to any more.
    pub open spec fn unlinked(self, peer: Seq<char>) -> Self {
        if self.links.contains_key(peer) {
            MeshView { links: self.links.remove(peer), ..self }.metered(
                self.meter->0.without(peer),
            )
        } else {
            self
        }
    }

    /// This side owns the offer for a pair when its own id sorts first.
    pub open spec fn initiates(self, peer: Seq<char>) -> bool {
        sorts_before(self.self_id, peer)
    }

    /// Whether a connection is to be made with a peer: one with everybody else, once.
    pub open spec fn wants_link(self, peer: Seq<char>) -> bool {
        peer != self.self_id && !self.links.contains_key(peer)
    }

    /// Whether the one offer this pair gets is to be made now.
    pub open spec fn offers_now(self, peer: Seq<char>, state: LinkState) -> bool {
        &&& self.initiates(peer)
        &&& self.links.contains_key(peer)
        &&& !self.links[peer].negotiated
        &&& state.signaling == SignalingState::Stable
        &&& state.is_new
    }

    /// What becomes of an offer from a peer.
    pub open spec fn judge_offer(self, from: Seq<char>, state: LinkState) -> OfferVerdict {
        if !self.links.contains_key(from) {
            OfferVerdict::NoPeer
        } else if self.initiates(from) && self.links[from].negotiated {
            OfferVerdict::OursToInitiate
        } else if self.links[from].remote_set || state.signaling != SignalingState::Stable {
            OfferVerdict::NotStable
        } else {
            OfferVerdict::Accept
        }
    }

    /// What becomes of an answer from a peer.
    pub open spec fn judge_answer(self, from: Seq<char>, state: LinkState) -> AnswerVerdict {
        if !self.links.contains_key(from) {
            AnswerVerdict::NoPeer
        } else if state.signaling != SignalingState::HaveLocalOffer {
            AnswerVerdict::NoOfferOutstanding
        } else {
            AnswerVerdict::Accept
        }
    }
}

/// The view of an optional meter.
pub open spec fn meter_view(meter: Option<LevelMeter>) -> Option<MeterView> {
    match meter {
        Some(m) => Some(m@),
        None => None,
    }
}

/// The views of the connections.
spec fn link_views(peers: Map<Seq<char>, PeerLink>) -> Map<Seq<char>, LinkView> {
    peers.map_values(|link: PeerLink| link@)
}

/// A connection just made adds one view.
proof fn lemma_link_views_insert(
    peers: Map<Seq<char>, PeerLink>,
    peer: Seq<char>,
    link: PeerLink,
)
    ensures
        link_views(peers.insert(peer, link)) == link_views(peers).insert(peer, link@),
{
    assert(link_views(peers.insert(peer, link)) =~= link_views(peers).insert(peer, link@));
}

/// A connection changed in place changes one view.
proof fn lemma_links_changed(
    before: Map<Seq<char>, PeerLink>,
    after: Map<Seq<char>, PeerLink>,
    peer: Seq<char>,
)
    requires
        before.contains_key(peer) ==> after == before.insert(peer, after[peer]),
        !before.contains_key(peer) ==> after == before,
    ensures
        after.dom() == before.dom(),
        before.contains_key(peer) ==> link_views(after) == link_views(before).insert(
            peer,
            after[peer]@,
        ),
        !before.contains_key(peer) ==> link_views(after) == link_views(before),
        before.contains_key(peer) && after[peer]@ == before[peer]@ ==> link_views(after)
            == link_views(before),
{
    if before.contains_key(peer) {
        assert(after.dom() =~= before.dom());
        assert(link_views(after) =~= link_views(before).insert(peer, after[peer]@));
        if after[peer]@ == before[peer]@ {
            assert(link_views(after) =~= link_views(before));
        }
    }
}

impl View for Mesh {
    type V = MeshView;

    closed spec fn view(&self) -> MeshView {
        MeshView {
            self_id: self.self_id@,
            local: self.local,
            local_attached: self.local_attached,
            made: self.made,
            links: link_views(self.peers@),
            meter: meter_view(self.meter),
        }
    }
}

impl Mesh {
    /// Nobody is connected with itself, and nobody is listened to without a connection.
    pub closed spec fn wf(&self) -> bool {
        &&& self.peers.wf()
        &&& !self.peers@.contains_key(self.self_id@)
        &&& (self.meter matches Some(meter) ==> {
            &&& meter.wf()
            &&& meter@.levels.dom().subset_of(self.peers@.dom())
        })
    }

    /// A mesh with no connections. `local` tells whether there is a camera/mic stream,
    /// which there is not when the user declined; `metered`, whether levels can be
    /// measured.
    pub fn new(self_id: &str, local: bool, metered: bool) -> (mesh: Self)
        ensures
            mesh.wf(),
            mesh@ == (MeshView {
                self_id: self_id@,
                local,
                local_attached: false,
                made: 0,
                links: Map::empty(),
                meter: if metered {
                    Some(MeterView::fresh())
                } else {
                    None
                },
            }),
    {
        let meter = if metered {
            Some(LevelMeter::new())
        } else {
            None
        };
        let mesh = Mesh {
            self_id: self_id.to_owned(),
            local,
            local_attached: false,
            made: 0,
            peers: Roster::new(),
            meter,
        };
        assert(mesh@.links =~= Map::empty());
        mesh
    }

    /// What to do about a room event, in order.
    pub fn on_event(ev: &SseEvent) -> (steps: Vec<MeshStep>)
        ensures
            step_views(steps@) == steps_for(ev@),
    {
        let mut steps: Vec<MeshStep> = Vec::new();
        match ev {
            SseEvent::Resync { peers, .. } => {
                let ghost views = peer_views(peers@);
                let mut i: usize = 0;
                assert(views.take(0) =~= Seq::empty());
                assert(step_views(steps@) =~= Seq::empty());
                while i < peers.len()
                    invariant
                        i <= peers.len(),
                        views == peer_views(peers@),
                        step_views(steps@) == greeting_steps(views.take(i as int)),
                    decreases peers.len() - i,
                {
                    let ghost before = steps@;
                    steps.push(MeshStep::Connect { peer: peers[i].peer_id.clone() });
                    steps.push(MeshStep::Offer { peer: peers[i].peer_id.clone() });
                    i += 1;
                    proof {
                        assert(views.take(i as int).drop_last() =~= views.take(i - 1));
                        assert(views.take(i as int).last() == peers@[i - 1]@);
                        assert(step_views(steps@) =~= step_views(before).push(
                            StepView::Connect { peer: peers@[i - 1]@.peer_id },
                        ).push(StepView::Offer { peer: peers@[i - 1]@.peer_id }));
                    }
                }
                assert(views.take(i as int) =~= views);
            },
            SseEvent::PeerJoined { peer_id, .. } => {
                steps.push(MeshStep::Connect { peer: peer_id.clone() });
                steps.push(MeshStep::Offer { peer: peer_id.clone() });
            },
            SseEvent::PeerLeft { peer_id } => {
                steps.push(MeshStep::Close { peer: peer_id.clone() });
            },
            SseEvent::Offer { from, sdp } => {
                steps.push(MeshStep::Connect { peer: from.clone() });
                steps.push(MeshStep::AcceptOffer { from: from.clone(), sdp: sdp.clone() });
            },
            SseEvent::Answer { from, sdp } => {
                steps.push(MeshStep::AcceptAnswer { from: from.clone(), sdp: sdp.clone() });
            },
            SseEvent::IceCandidate { from, candidate, sdp_mid, sdp_mline_index } => {
                steps.push(MeshStep::Connect { peer: from.clone() });
                steps.push(MeshStep::Offer { peer: from.clone() });
                steps.push(
                    MeshStep::AddCandidate {
                        from: from.clone(),
                        candidate: IceCandidate {
                            candidate: candidate.clone(),
                            sdp_mid: clone_text(sdp_mid),
                            sdp_mline_index: *sdp_mline_index,
                        },
                    },
                );
            },
            _ => {},
        }
        assert(step_views(steps@) =~= steps_for(ev@));
        steps
    }

    /// Whether a connection is to be made with a peer.
    pub fn ensure_peer(&self, peer: &str) -> (wanted: bool)
        ensures
            wanted == self@.wants_link(peer@),
    {
        !same(peer, self.self_id.as_str()) && !self.peers.contains(peer)
    }

    /// Takes note of a connection just made, and returns what tells it from earlier
    /// ones.
    pub fn insert_peer(&mut self, peer: &str) -> (serial: u64)
        requires
            old(self).wf(),
            old(self)@.wants_link(peer@),
        ensures
            final(self).wf(),
            serial == old(self)@.made,
            final(self)@ == old(self)@.after(MeshOp::Insert { peer: peer@ }),
    {
        let serial: u64 = self.made;
        self.made = serial.wrapping_add(1);
        let link = PeerLink {
            serial,
            pending_ice: VecDeque::new(),
            remote_set: false,
            negotiated: false,
            streaming: false,
            attached: false,
        };
        proof {
            assert(link@ =~= LinkView::fresh(serial));
            lemma_link_views_insert(self.peers@, peer@, link);
        }
        self.peers.insert(peer.to_owned(), link);
        serial
    }

    /// Whether a new connection sends our own tracks. Where it does not, it is to receive
    /// audio and video all the same: offering no media at all would negotiate nothing.
    pub fn sends_media(&self) -> (sends: bool)
        ensures
            sends == self@.local,
    {
        self.local
    }

    /// This side owns the offer for a pair when its own id sorts first.
    pub fn we_initiate(&self, peer: &str) -> (ours: bool)
        ensures
            ours == self@.initiates(peer@),
    {
        precedes(self.self_id.as_str(), peer)
    }

    /// Whether to make the one offer this pair gets, now. If so, it is taken as made:
    /// after an event-stream reconnect the snapshot lists peers we are already talking
    /// to, and offering again would renegotiate them.
    pub fn maybe_offer(&mut self, peer: &str, state: LinkState) -> (offer: bool)
        requires
            old(self).wf(),
        ensures
            final(self).wf(),
            offer == old(self)@.offers_now(peer@, state),
            final(self)@ == old(self)@.after(MeshOp::Offer { peer: peer@, state }),
    {
        let ghost before = self.peers@;
        if !self.we_initiate(peer) {
            return false;
        }
        let offer = match self.peers.get_mut(peer) {
            Some(link) => {
                if link.negotiated || state.signaling != SignalingState::Stable || !state.is_new {
                    false
                } else {
                    link.negotiated = true;
                    true
                }
            },
            None => false,
        };
        proof {
            lemma_links_changed(before, self.peers@, peer@);
        }
        offer
    }

    /// Whether to apply an offer. If so, candidates need wait no longer than it takes.
    pub fn apply_offer(&mut self, from: &str, state: LinkState) -> (verdict: OfferVerdict)
        requires
            old(self).wf(),
        ensures
            final(self).wf(),
            verdict == old(self)@.judge_offer(from@, state),
            final(self)@ == old(self)@.after(MeshOp::ApplyOffer { from: from@, state }),
    {
        let ghost before = self.peers@;
        let ours = self.we_initiate(from);
        let verdict = match self.peers.get_mut(from) {
            Some(link) => {
                if ours && link.negotiated {
                    OfferVerdict::OursToInitiate
                } else if link.remote_set || state.signaling != SignalingState::Stable {
                    OfferVerdict::NotStable
                } else {
                    link.remote_set = true;
                    OfferVerdict::Accept
                }
            },
            None => OfferVerdict::NoPeer,
        };
        proof {
            lemma_links_changed(before, self.peers@, from@);
        }
        verdict
    }

    /// Whether to apply an answer. Only meaningful against the offer we sent: anything
    /// else is a signal meant for another peer, or one that arrived after we gave up on
    /// this pair.
    pub fn apply_answer(&mut self, from: &str, state: LinkState) -> (verdict: AnswerVerdict)
        requires
            old(self).wf(),
        ensures
            final(self).wf(),
            verdict == old(self)@.judge_answer(from@, state),
            final(self)@ == old(self)@.after(MeshOp::ApplyAnswer { from: from@, state }),
    {
        let ghost before = self.peers@;
        let verdict = match self.peers.get_mut(from) {
            Some(link) => {
                if state.signaling != SignalingState::HaveLocalOffer {
                    AnswerVerdict::NoOfferOutstanding
                } else {
                    link.remote_set = true;
                    AnswerVerdict::Accept
                }
            },
            None => AnswerVerdict::NoPeer,
        };
        proof {
            lemma_links_changed(before, self.peers@, from@);
        }
        verdict
    }

    /// Queues a candidate behind those that wait already. Returns whether the queue can
    /// be drained at once: there is a remote description to attach candidates to.
    pub fn on_ice(&mut self, from: &str, candidate: IceCandidate) -> (drain: bool)
        requires
            old(self).wf(),
        ensures
            final(self).wf(),
            final(self)@ == old(self)@.after(
                MeshOp::Ice { from: from@, candidate: candidate@ },
            ),
            drain == old(self)@.can_drain(from@),
    {
        let ghost before = self.peers@;
        let drain = match self.peers.get_mut(from) {
            Some(link) => {
                let ghost queue = link.pending_ice@;
                link.pending_ice.push_back(candidate);
                assert(candidate_views(link.pending_ice@) =~= candidate_views(queue).push(
                    candidate@,
                ));
                link.remote_set
            },
            None => false,
        };
        proof {
            lemma_links_changed(before, self.peers@, from@);
        }
        drain
    }

    /// The next candidate to add to a connection, oldest first, or `None` when the queue
    /// has run dry or the connection is gone. Two drains can be in flight at once;
    /// popping as they go still hands out each candidate exactly once.
    pub fn next_candidate(&mut self, peer: &str, serial: u64) -> (next: Option<IceCandidate>)
        requires
            old(self).wf(),
        ensures
            final(self).wf(),
            final(self)@ == old(self)@.after(MeshOp::Next { peer: peer@, serial }),
            match next {
                Some(candidate) => old(self)@.next_for(peer@, serial) == Some(candidate@),
                None => old(self)@.next_for(peer@, serial) is None,
            },
    {
        let ghost before = self.peers@;
        let next = match self.peers.get_mut(peer) {
            Some(link) => {
                if link.serial == serial {
                    let ghost queue = link.pending_ice@;
                    let next = link.pending_ice.pop_front();
                    assert(queue.len() > 0 ==> candidate_views(link.pending_ice@)
                        =~= candidate_views(queue).drop_first());
                    next
                } else {
                    None
                }
            },
            None => None,
        };
        proof {
            lemma_links_changed(before, self.peers@, peer@);
        }
        next
    }

    /// Forgets a connection, with everything queued for it and whatever it was heard
    /// saying. Returns whether there was one to tear down.
    pub fn close_peer(&mut self, peer: &str) -> (closed: bool)
        requires
            old(self).wf(),
        ensures
            final(self).wf(),
            closed == old(self)@.has_link(peer@),
            final(self)@ == old(self)@.after(MeshOp::Close { peer: peer@ }),
    {
        let ghost before = *self;
        let closed = self.peers.remove(peer).is_some();
        if closed {
            match &mut self.meter {
                Some(meter) => {
                    meter.forget(peer);
                },
                None => {},
            }
        }
        proof {
            assert(link_views(self.peers@) =~= link_views(before.peers@).remove(peer@));
            if !closed {
                assert(self.peers@ =~= before.peers@);
            }
        }
        closed
    }

    /// Forgets every connection and our own stream. Returns the peers whose connections
    /// are to be torn down, and whether our own tracks are to be stopped.
    pub fn close_all(&mut self) -> (closed: (Vec<String>, bool))
        requires
            old(self).wf(),
        ensures
            final(self).wf(),
            final(self)@ == old(self)@.after(MeshOp::CloseAll),
            old(self)@.lets_go(text_views(closed.0@), closed.1),
    {
        let ghost before = *self;
        let ids = self.peers.ids();
        let ghost views = text_views(ids@);
        let mut i: usize = 0;
        proof {
            assert(views.to_set() =~= self@.links.dom());
            assert(views.skip(0) =~= views);
            assert forall|id: Seq<char>| #[trigger] self@.links.contains_key(id) implies
                views.skip(0).contains(id) by {
                assert(views.to_set().contains(id));
            }
        }
        while i < ids.len()
            invariant
                i <= ids.len(),
                self.wf(),
                views == text_views(ids@),
                views.to_set() == before@.links.dom(),
                self@ == (MeshView { links: self@.links, meter: self@.meter, ..before@ }),
                self@.meter is Some == before@.meter is Some,
                self@.meter is Some ==> self@.meter->0.resume_tries
                    == before@.meter->0.resume_tries,
                forall|id: Seq<char>| #[trigger]
                    self@.links.contains_key(id) ==> views.skip(i as int).contains(id),
            decreases ids.len() - i,
        {
            let ghost rest = views.skip(i as int);
            let _ = self.close_peer(ids[i].as_str());
            i += 1;
            proof {
                assert forall|id: Seq<char>| #[trigger] self@.links.contains_key(id) implies
                    views.skip(i as int).contains(id) by {
                    let j = choose|j: int| 0 <= j < rest.len() && rest[j] == id;
                    assert(rest[0] == views[i - 1]);
                    assert(views.skip(i as int)[j - 1] == id);
                }
            }
        }
        let had_local = self.local;
        self.local = false;
        proof {
            assert forall|id: Seq<char>| !#[trigger] self@.links.contains_key(id) by {
                if self@.links.contains_key(id) {
                    assert(views.skip(i as int).contains(id));
                }
            }
            assert(self@.links =~= Map::empty());
            if self.meter is Some {
                assert(self.peers@.dom() =~= self@.links.dom());
                assert(self@.meter->0.levels =~= Map::empty());
                self.meter->0.law_the_holder_is_followed();
            }
        }
        (ids, had_local)
    }

    /// Takes note that a peer's stream has arrived. Returns whether its level is to be
    /// measured from now on, which is asked for once per connection that can be heard.
    pub fn stream_arrived(&mut self, peer: &str) -> (listen: bool)
        requires
            old(self).wf(),
        ensures
            final(self).wf(),
            final(self)@ == old(self)@.after(MeshOp::Seen { peer: peer@ }),
            listen == old(self)@.asks_to_listen(peer@),
    {
        let ghost before = self.peers@;
        let known = match self.peers.get_mut(peer) {
            Some(link) => {
                link.streaming = true;
                true
            },
            None => false,
        };
        proof {
            lemma_links_changed(before, self.peers@, peer@);
        }
        known && match &self.meter {
            Some(meter) => !meter.is_watched(peer),
            None => false,
        }
    }

    /// Starts following a peer's level, once there is something to measure it with.
    pub fn listen(&mut self, peer: &str)
        requires
            old(self).wf(),
        ensures
            final(self).wf(),
            final(self)@ == old(self)@.listening(peer@),
    {
        if self.peers.contains(peer) {
            match &mut self.meter {
                Some(meter) => {
                    meter.watch(peer);
                },
                None => {},
            }
        }
    }

    /// The peers whose levels are followed, each once.
    pub fn heard(&self) -> (peers: Vec<String>)
        requires
            self.wf(),
        ensures
            text_views(peers@).no_duplicates(),
            text_views(peers@).to_set() == (match self@.meter {
                Some(meter) => meter.levels.dom(),
                None => Set::empty(),
            }),
    {
        match &self.meter {
            Some(meter) => meter.watched(),
            None => {
                let peers: Vec<String> = Vec::new();
                assert(text_views(peers@).to_set() =~= Set::empty());
                peers
            },
        }
    }

    /// The last level of a peer, silence where it has none.
    pub fn level(&self, peer: &str) -> (level: Level)
        requires
            self.wf(),
        ensures
            level == (if (self@.meter matches Some(meter) && meter.levels.contains_key(peer@)) {
                self@.meter->0.levels[peer@]
            } else {
                Level { level: 0, reach: 0 }
            }),
    {
        match &self.meter {
            Some(meter) => meter.level(peer),
            None => Level { level: 0, reach: 0 },
        }
    }

    /// Takes a new level for a peer whose level is followed.
    pub fn hear(&mut self, peer: &str, level: Level)
        requires
            old(self).wf(),
            level.is_graded(),
        ensures
            final(self).wf(),
            final(self)@ == old(self)@.hearing(peer@, level),
    {
        match &mut self.meter {
            Some(meter) => {
                meter.hear(peer, level);
            },
            None => {},
        }
    }

    /// Whether to ask the audio context to start.
    pub fn ensure_running(&mut self, parked: bool) -> (resume: bool)
        requires
            old(self).wf(),
        ensures
            final(self).wf(),
            resume == old(self)@.resumes(parked),
            final(self)@ == old(self)@.resuming(parked),
    {
        match &mut self.meter {
            Some(meter) => meter.ensure_running(parked),
            None => false,
        }
    }

    /// The peer to show large right now, or `None` when nobody is speaking.
    ///
    /// Polled rather than pushed: levels are only interesting as they cross each other.
    pub fn dominant_speaker(&mut self) -> (who: Option<String>)
        requires
            old(self).wf(),
        ensures
            final(self).wf(),
            old(self)@.may_stage(text_view(who)),
            final(self)@ == old(self)@.staging(text_view(who)),
    {
        match &mut self.meter {
            Some(meter) => meter.sample(),
            None => None,
        }
    }

    /// Whether our own stream still has to reach its tile.
    pub fn local_waits(&self) -> (waits: bool)
        ensures
            waits == self@.local_waits(),
    {
        self.local && !self.local_attached
    }

    /// Takes note that our own stream reached its tile.
    pub fn local_shown(&mut self)
        requires
            old(self).wf(),
        ensures
            final(self).wf(),
            final(self)@ == old(self)@.after(MeshOp::LocalShown),
    {
        self.local_attached = true;
    }

    /// The peers whose streams still have to reach their tiles, each once. Tiles are
    /// created by the presence list, which can lag the media by a render pass, so every
    /// event is a chance to retry what did not attach.
    pub fn attach_pending(&self) -> (waiting: Vec<String>)
        requires
            self.wf(),
        ensures
            text_views(waiting@).no_duplicates(),
            forall|peer: Seq<char>| #[trigger]
                text_views(waiting@).contains(peer) <==> self@.waits(peer),
    {
        let ids = self.peers.ids();
        let ghost views = text_views(ids@);
        let mut waiting: Vec<String> = Vec::new();
        let mut i: usize = 0;
        while i < ids.len()
            invariant
                i <= ids.len(),
                self.wf(),
                views == text_views(ids@),
                views.no_duplicates(),
                views.to_set() == self.peers@.dom(),
                text_views(waiting@).no_duplicates(),
                forall|peer: Seq<char>| #[trigger]
                    text_views(waiting@).contains(peer) <==> views.take(i as int).contains(peer)
                        && self@.waits(peer),
            decreases ids.len() - i,
        {
            let ghost before = text_views(waiting@);
            let ghost seen = views.take(i as int);
            let ghost id = views[i as int];
            proof {
                assert(views.to_set().contains(id));
                assert(!seen.contains(id));
                assert(views.take(i + 1) =~= seen.push(id));
                assert forall|peer: Seq<char>| #[trigger]
                    seen.push(id).contains(peer) <==> seen.contains(peer) || peer == id by {
                    lemma_seq_contains_after_push(seen, id, peer);
                }
                assert forall|peer: Seq<char>| #[trigger]
                    before.push(id).contains(peer) <==> before.contains(peer) || peer == id by {
                    lemma_seq_contains_after_push(before, id, peer);
                }
            }
            let waits = match self.peers.get(ids[i].as_str()) {
                Some(link) => link.streaming && !link.attached,
                None => false,
            };
            assert(waits == self@.waits(id));
            if waits {
                waiting.push(ids[i].clone());
                proof {
                    assert(text_views(waiting@) =~= before.push(id));
                    assert(!before.contains(id));
                    assert forall|j: int, k: int|
                        0 <= j < before.push(id).len() && 0 <= k < before.push(id).len() && j
                            != k implies before.push(id)[j] != before.push(id)[k] by {
                        if j == before.len() {
                            assert(before.contains(before[k]));
                        } else if k == before.len() {
                            assert(before.contains(before[j]));
                        }
                    }
                }
            }
            i += 1;
        }
        proof {
            assert(views.take(i as int) =~= views);
            assert forall|peer: Seq<char>| self@.waits(peer) implies #[trigger] views.contains(
                peer,
            ) by {
                assert(views.to_set().contains(peer));
            }
        }
        waiting
    }

    /// Takes note that a peer's stream reached its tile.
    pub fn shown(&mut self, peer: &str)
        requires
            old(self).wf(),
        ensures
            final(self).wf(),
            final(self)@ == old(self)@.after(MeshOp::Shown { peer: peer@ }),
    {
        let ghost before = self.peers@;
        match self.peers.get_mut(peer) {
            Some(link) => {
                link.attached = true;
            },
            None => {},
        }
        proof {
            lemma_links_changed(before, self.peers@, peer@);
        }
    }

    /// There is never a connection with oneself.
    pub proof fn law_nobody_connects_with_itself(&self)
        requires
            self.wf(),
        ensures
            !self@.links.contains_key(self@.self_id),
    {
    }

    /// It always takes more than a peer's own level to displace it.
    pub proof fn law_levels_are_graded(&self)
        requires
            self.wf(),
        ensures
            self@.meter matches Some(meter) ==> meter.is_graded(),
    {
        if self.meter is Some {
            self.meter->0.law_levels_are_graded();
        }
    }

    /// Nobody is listened to without a connection.
    pub proof fn law_only_the_connected_are_heard(&self)
        requires
            self.wf(),
        ensures
            self@.meter matches Some(meter) ==> meter.levels.dom().subset_of(self@.links.dom()),
    {
        assert(self@.links.dom() =~= self.peers@.dom());
    }
}

} // verus!
