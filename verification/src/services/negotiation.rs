//! The offer/answer exchange over one connection, one piece of work at a time.
//!
//! A [`Negotiation`] names the next thing to ask of the connection. Whoever holds the
//! connection does it, and hands the outcome back.

use vstd::prelude::*;

use crate::types::{SignalMessage, SignalView};

verus! {

/// What kind of description a text is.
#[derive(Debug, Clone, Copy, PartialEq, Eq, Structural)]
pub enum SdpKind {
    Offer,
    Answer,
}

/// One thing to ask of a connection.
#[derive(Debug)]
pub enum Work {
    CreateOffer,
    CreateAnswer,
    SetLocal { kind: SdpKind, sdp: String },
    SetRemote { kind: SdpKind, sdp: String },
    /// Relay a signal through the room.
    Send { signal: SignalMessage },
    /// Add the candidates that wait for this connection.
    Drain,
    /// Nothing more to do.
    Finished,
}

/// The view of a piece of [`Work`].
pub enum WorkView {
    CreateOffer,
    CreateAnswer,
    SetLocal { kind: SdpKind, sdp: Seq<char> },
    SetRemote { kind: SdpKind, sdp: Seq<char> },
    Send { signal: SignalView },
    Drain,
    Finished,
}

impl View for Work {
    type V = WorkView;

    open spec fn view(&self) -> WorkView {
        match *self {
            Work::CreateOffer => WorkView::CreateOffer,
            Work::CreateAnswer => WorkView::CreateAnswer,
            Work::SetLocal { kind, sdp } => WorkView::SetLocal { kind, sdp: sdp@ },
            Work::SetRemote { kind, sdp } => WorkView::SetRemote { kind, sdp: sdp@ },
            Work::Send { signal } => WorkView::Send { signal: signal@ },
            Work::Drain => WorkView::Drain,
            Work::Finished => WorkView::Finished,
        }
    }
}

/// What came of a piece of work.
#[derive(Debug)]
pub enum Outcome {
    Done,
    Failed,
    /// A description was created; `None` where it carries no text.
    Created { sdp: Option<String> },
}

/// The view of an [`Outcome`].
pub enum OutcomeView {
    Done,
    Failed,
    Created { sdp: Option<Seq<char>> },
}

impl View for Outcome {
    type V = OutcomeView;

    open spec fn view(&self) -> OutcomeView {
        match *self {
            Outcome::Done => OutcomeView::Done,
            Outcome::Failed => OutcomeView::Failed,
            Outcome::Created { sdp: Some(sdp) } => OutcomeView::Created { sdp: Some(sdp@) },
            Outcome::Created { sdp: None } => OutcomeView::Created { sdp: None },
        }
    }
}

/// Which piece of work is under way.
enum Stage {
    CreatingOffer,
    ApplyingOffer,
    DrainingFirst,
    CreatingAnswer,
    SettingLocal { kind: SdpKind, sdp: String },
    Sending { kind: SdpKind },
    ApplyingAnswer,
    DrainingLast,
    Over,
}

/// The view of which piece of work is under way.
pub enum StageView {
    CreatingOffer,
    ApplyingOffer,
    DrainingFirst,
    CreatingAnswer,
    SettingLocal { kind: SdpKind, sdp: Seq<char> },
    Sending { kind: SdpKind },
    ApplyingAnswer,
    DrainingLast,
    Over,
}

impl View for Stage {
    type V = StageView;

    closed spec fn view(&self) -> StageView {
        match *self {
            Stage::CreatingOffer => StageView::CreatingOffer,
            Stage::ApplyingOffer => StageView::ApplyingOffer,
            Stage::DrainingFirst => StageView::DrainingFirst,
            Stage::CreatingAnswer => StageView::CreatingAnswer,
            Stage::SettingLocal { kind, sdp } => StageView::SettingLocal { kind, sdp: sdp@ },
            Stage::Sending { kind } => StageView::Sending { kind },
            Stage::ApplyingAnswer => StageView::ApplyingAnswer,
            Stage::DrainingLast => StageView::DrainingLast,
            Stage::Over => StageView::Over,
        }
    }
}

/// One exchange with one peer.
pub struct Negotiation {
    peer: String,
    stage: Stage,
}

/// The view of a [`Negotiation`].
pub struct NegotiationView {
    pub peer: Seq<char>,
    pub stage: StageView,
}

/// The signal that carries a description to a peer.
pub open spec fn signal_for(kind: SdpKind, to: Seq<char>, sdp: Seq<char>) -> SignalView {
    match kind {
        SdpKind::Offer => SignalView::Offer { to, sdp },
        SdpKind::Answer => SignalView::Answer { to, sdp },
    }
}

impl NegotiationView {
    /// Where an exchange stands, and what to do, once a piece of work came out in some
    /// way.
    ///
    /// A step that fails ends the exchange, with two exceptions: a signal that was not
    /// relayed is not sent again, and an answer that did not apply still leaves the
    /// candidates to be added.
    pub open spec fn step(self, outcome: OutcomeView) -> (StageView, WorkView) {
        match self.stage {
            StageView::CreatingOffer => match outcome {
                OutcomeView::Created { sdp: Some(sdp) } => (
                    StageView::SettingLocal { kind: SdpKind::Offer, sdp },
                    WorkView::SetLocal { kind: SdpKind::Offer, sdp },
                ),
                _ => (StageView::Over, WorkView::Finished),
            },
            StageView::ApplyingOffer => match outcome {
                OutcomeView::Done => (StageView::DrainingFirst, WorkView::Drain),
                _ => (StageView::Over, WorkView::Finished),
            },
            StageView::DrainingFirst => (StageView::CreatingAnswer, WorkView::CreateAnswer),
            StageView::CreatingAnswer => match outcome {
                OutcomeView::Created { sdp: Some(sdp) } => (
                    StageView::SettingLocal { kind: SdpKind::Answer, sdp },
                    WorkView::SetLocal { kind: SdpKind::Answer, sdp },
                ),
                _ => (StageView::Over, WorkView::Finished),
            },
            StageView::SettingLocal { kind, sdp } => match outcome {
                OutcomeView::Done => (
                    StageView::Sending { kind },
                    WorkView::Send { signal: signal_for(kind, self.peer, sdp) },
                ),
                _ => (StageView::Over, WorkView::Finished),
            },
            StageView::Sending { kind: SdpKind::Offer } => (StageView::Over, WorkView::Finished),
            StageView::Sending { kind: SdpKind::Answer } => (
                StageView::DrainingLast,
                WorkView::Drain,
            ),
            StageView::ApplyingAnswer => (StageView::DrainingLast, WorkView::Drain),
            StageView::DrainingLast => (StageView::Over, WorkView::Finished),
            StageView::Over => (StageView::Over, WorkView::Finished),
        }
    }

    /// How many pieces of work an exchange can still take.
    pub open spec fn left(self) -> nat {
        match self.stage {
            StageView::ApplyingOffer => 6,
            StageView::DrainingFirst => 5,
            StageView::CreatingAnswer => 4,
            StageView::CreatingOffer => 4,
            StageView::SettingLocal { .. } => 3,
            StageView::Sending { .. } => 2,
            StageView::ApplyingAnswer => 2,
            StageView::DrainingLast => 1,
            StageView::Over => 0,
        }
    }
}

impl View for Negotiation {
    type V = NegotiationView;

    closed spec fn view(&self) -> NegotiationView {
        NegotiationView { peer: self.peer@, stage: self.stage@ }
    }
}

impl Negotiation {
    /// Starts the exchange that this side owns.
    pub fn offer(peer: &str) -> (begun: (Self, Work))
        ensures
            begun.0@ == (NegotiationView { peer: peer@, stage: StageView::CreatingOffer }),
            begun.1@ == WorkView::CreateOffer,
    {
        (Negotiation { peer: peer.to_owned(), stage: Stage::CreatingOffer }, Work::CreateOffer)
    }

    /// Starts answering an offer.
    pub fn answer(peer: &str, sdp: &str) -> (begun: (Self, Work))
        ensures
            begun.0@ == (NegotiationView { peer: peer@, stage: StageView::ApplyingOffer }),
            begun.1@ == (WorkView::SetRemote { kind: SdpKind::Offer, sdp: sdp@ }),
    {
        (
            Negotiation { peer: peer.to_owned(), stage: Stage::ApplyingOffer },
            Work::SetRemote { kind: SdpKind::Offer, sdp: sdp.to_owned() },
        )
    }

    /// Starts applying the answer to an offer of ours.
    pub fn conclude(peer: &str, sdp: &str) -> (begun: (Self, Work))
        ensures
            begun.0@ == (NegotiationView { peer: peer@, stage: StageView::ApplyingAnswer }),
            begun.1@ == (WorkView::SetRemote { kind: SdpKind::Answer, sdp: sdp@ }),
    {
        (
            Negotiation { peer: peer.to_owned(), stage: Stage::ApplyingAnswer },
            Work::SetRemote { kind: SdpKind::Answer, sdp: sdp.to_owned() },
        )
    }

    /// What to do next, once the last piece of work came out in some way.
    pub fn next(&mut self, outcome: Outcome) -> (work: Work)
        ensures
            final(self)@.peer == old(self)@.peer,
            (final(self)@.stage, work@) == old(self)@.step(outcome@),
    {
        let (stage, work) = match &self.stage {
            Stage::CreatingOffer => match outcome {
                Outcome::Created { sdp: Some(sdp) } => (
                    Stage::SettingLocal { kind: SdpKind::Offer, sdp: sdp.clone() },
                    Work::SetLocal { kind: SdpKind::Offer, sdp },
                ),
                _ => (Stage::Over, Work::Finished),
            },
            Stage::ApplyingOffer => match outcome {
                Outcome::Done => (Stage::DrainingFirst, Work::Drain),
                _ => (Stage::Over, Work::Finished),
            },
            Stage::DrainingFirst => (Stage::CreatingAnswer, Work::CreateAnswer),
            Stage::CreatingAnswer => match outcome {
                Outcome::Created { sdp: Some(sdp) } => (
                    Stage::SettingLocal { kind: SdpKind::Answer, sdp: sdp.clone() },
                    Work::SetLocal { kind: SdpKind::Answer, sdp },
                ),
                _ => (Stage::Over, Work::Finished),
            },
            Stage::SettingLocal { kind, sdp } => match outcome {
                Outcome::Done => {
                    let to = self.peer.clone();
                    let signal = match kind {
                        SdpKind::Offer => SignalMessage::Offer { to, sdp: sdp.clone() },
                        SdpKind::Answer => SignalMessage::Answer { to, sdp: sdp.clone() },
                    };
                    (Stage::Sending { kind: *kind }, Work::Send { signal })
                },
                _ => (Stage::Over, Work::Finished),
            },
            Stage::Sending { kind: SdpKind::Offer } => (Stage::Over, Work::Finished),
            Stage::Sending { kind: SdpKind::Answer } => (Stage::DrainingLast, Work::Drain),
            Stage::ApplyingAnswer => (Stage::DrainingLast, Work::Drain),
            Stage::DrainingLast => (Stage::Over, Work::Finished),
            Stage::Over => (Stage::Over, Work::Finished),
        };
        self.stage = stage;
        work
    }
}

/// What an exchange does over a run of outcomes, piece by piece.
pub open spec fn works(start: NegotiationView, outcomes: Seq<OutcomeView>) -> Seq<WorkView>
    decreases outcomes.len(),
{
    if outcomes.len() == 0 {
        Seq::empty()
    } else {
        let (stage, work) = start.step(outcomes[0]);
        seq![work] + works(NegotiationView { stage, ..start }, outcomes.drop_first())
    }
}

/// Every exchange ends: each outcome leaves less to do, until there is nothing.
pub proof fn law_negotiations_end(exchange: NegotiationView, outcome: OutcomeView)
    ensures
        exchange.left() > 0 ==> (NegotiationView {
            stage: exchange.step(outcome).0,
            ..exchange
        }).left() < exchange.left(),
        exchange.left() == 0 ==> exchange.step(outcome) == (StageView::Over, WorkView::Finished),
{
}

/// A side sends just the description that it set as its own, to the peer it negotiates
/// with, and only once it is set.
pub proof fn law_what_is_sent_is_what_was_set(
    exchange: NegotiationView,
    outcome: OutcomeView,
    signal: SignalView,
)
    requires
        exchange.step(outcome).1 == (WorkView::Send { signal }),
    ensures
        outcome == OutcomeView::Done,
        exchange.stage matches StageView::SettingLocal { kind, sdp } && signal == signal_for(
            kind,
            exchange.peer,
            sdp,
        ),
{
}

/// An offer that goes smoothly: it is created, set, and sent.
pub proof fn law_an_offer_is_created_set_and_sent(
    peer: Seq<char>,
    sdp: Seq<char>,
    sent: OutcomeView,
)
    ensures
        works(
            NegotiationView { peer, stage: StageView::CreatingOffer },
            seq![OutcomeView::Created { sdp: Some(sdp) }, OutcomeView::Done, sent],
        ) == seq![
            WorkView::SetLocal { kind: SdpKind::Offer, sdp },
            WorkView::Send { signal: SignalView::Offer { to: peer, sdp } },
            WorkView::Finished,
        ],
{
    reveal_with_fuel(works, 4);
    let outcomes = seq![OutcomeView::Created { sdp: Some(sdp) }, OutcomeView::Done, sent];
    assert(outcomes.drop_first() =~= seq![OutcomeView::Done, sent]);
    assert(outcomes.drop_first().drop_first() =~= seq![sent]);
    assert(works(NegotiationView { peer, stage: StageView::CreatingOffer }, outcomes) =~= seq![
        WorkView::SetLocal { kind: SdpKind::Offer, sdp },
        WorkView::Send { signal: SignalView::Offer { to: peer, sdp } },
        WorkView::Finished,
    ]);
}

/// An answer that goes smoothly: the candidates that wait are added once the offer is
/// applied, and again once the answer is on its way.
pub proof fn law_an_answer_drains_candidates_before_and_after(
    peer: Seq<char>,
    sdp: Seq<char>,
    drained: OutcomeView,
    sent: OutcomeView,
)
    ensures
        works(
            NegotiationView { peer, stage: StageView::ApplyingOffer },
            seq![
                OutcomeView::Done,
                drained,
                OutcomeView::Created { sdp: Some(sdp) },
                OutcomeView::Done,
                sent,
            ],
        ) == seq![
            WorkView::Drain,
            WorkView::CreateAnswer,
            WorkView::SetLocal { kind: SdpKind::Answer, sdp },
            WorkView::Send { signal: SignalView::Answer { to: peer, sdp } },
            WorkView::Drain,
        ],
{
    reveal_with_fuel(works, 6);
    let created = OutcomeView::Created { sdp: Some(sdp) };
    let outcomes = seq![OutcomeView::Done, drained, created, OutcomeView::Done, sent];
    let second = seq![drained, created, OutcomeView::Done, sent];
    let third = seq![created, OutcomeView::Done, sent];
    let fourth = seq![OutcomeView::Done, sent];
    assert(outcomes.drop_first() =~= second);
    assert(second.drop_first() =~= third);
    assert(third.drop_first() =~= fourth);
    assert(fourth.drop_first() =~= seq![sent]);
    assert(works(NegotiationView { peer, stage: StageView::ApplyingOffer }, outcomes) =~= seq![
        WorkView::Drain,
        WorkView::CreateAnswer,
        WorkView::SetLocal { kind: SdpKind::Answer, sdp },
        WorkView::Send { signal: SignalView::Answer { to: peer, sdp } },
        WorkView::Drain,
    ]);
}

/// Whoever applies a remote description drains the candidates that waited for it: an
/// answer whatever came of applying it, an offer where it applied.
pub proof fn law_candidates_are_drained_once_a_description_is_applied(
    peer: Seq<char>,
    applied: OutcomeView,
)
    ensures
        works(NegotiationView { peer, stage: StageView::ApplyingAnswer }, seq![applied]) == seq![
            WorkView::Drain,
        ],
        works(NegotiationView { peer, stage: StageView::ApplyingOffer }, seq![applied])
            == if applied == OutcomeView::Done {
            seq![WorkView::Drain]
        } else {
            seq![WorkView::Finished]
        },
{
    reveal_with_fuel(works, 2);
    let answer = NegotiationView { peer, stage: StageView::ApplyingAnswer };
    let offer = NegotiationView { peer, stage: StageView::ApplyingOffer };
    assert(works(answer, seq![applied]) =~= seq![WorkView::Drain]);
    assert(works(offer, seq![applied]) =~= if applied == OutcomeView::Done {
        seq![WorkView::Drain]
    } else {
        seq![WorkView::Finished]
    });
}

/// Applying an answer is over once the candidates are drained, whatever came of either.
pub proof fn law_an_answer_is_applied_and_drained(
    peer: Seq<char>,
    applied: OutcomeView,
    drained: OutcomeView,
)
    ensures
        works(
            NegotiationView { peer, stage: StageView::ApplyingAnswer },
            seq![applied, drained],
        ) == seq![WorkView::Drain, WorkView::Finished],
{
    reveal_with_fuel(works, 3);
    let start = NegotiationView { peer, stage: StageView::ApplyingAnswer };
    assert(seq![applied, drained].drop_first() =~= seq![drained]);
    assert(works(start, seq![applied, drained]) =~= seq![WorkView::Drain, WorkView::Finished]);
}

/// Answering is over once the candidates are drained for the second time, whatever came of
/// sending the answer and of draining.
pub proof fn law_answering_ends_with_the_second_drain(
    peer: Seq<char>,
    sdp: Seq<char>,
    first: OutcomeView,
    sent: OutcomeView,
    second: OutcomeView,
)
    ensures
        works(
            NegotiationView { peer, stage: StageView::ApplyingOffer },
            seq![
                OutcomeView::Done,
                first,
                OutcomeView::Created { sdp: Some(sdp) },
                OutcomeView::Done,
                sent,
                second,
            ],
        ).last() == WorkView::Finished,
        works(
            NegotiationView { peer, stage: StageView::ApplyingOffer },
            seq![
                OutcomeView::Done,
                first,
                OutcomeView::Created { sdp: Some(sdp) },
                OutcomeView::Done,
                sent,
                second,
            ],
        ).len() == 6,
{
    reveal_with_fuel(works, 7);
    let created = OutcomeView::Created { sdp: Some(sdp) };
    let all = seq![OutcomeView::Done, first, created, OutcomeView::Done, sent, second];
    let rest2 = seq![first, created, OutcomeView::Done, sent, second];
    let rest3 = seq![created, OutcomeView::Done, sent, second];
    let rest4 = seq![OutcomeView::Done, sent, second];
    let rest5 = seq![sent, second];
    assert(all.drop_first() =~= rest2);
    assert(rest2.drop_first() =~= rest3);
    assert(rest3.drop_first() =~= rest4);
    assert(rest4.drop_first() =~= rest5);
    assert(rest5.drop_first() =~= seq![second]);
    assert(works(NegotiationView { peer, stage: StageView::ApplyingOffer }, all) =~= seq![
        WorkView::Drain,
        WorkView::CreateAnswer,
        WorkView::SetLocal { kind: SdpKind::Answer, sdp },
        WorkView::Send { signal: SignalView::Answer { to: peer, sdp } },
        WorkView::Drain,
        WorkView::Finished,
    ]);
}

/// A description that was not created, or carries no text, or was not set, ends the
/// exchange: nothing is sent.
pub proof fn law_without_a_description_nothing_is_sent(
    peer: Seq<char>,
    kind: SdpKind,
    sdp: Seq<char>,
    outcome: OutcomeView,
)
    ensures
        !(outcome matches OutcomeView::Created { sdp: Some(_) }) ==> {
            &&& works(NegotiationView { peer, stage: StageView::CreatingOffer }, seq![outcome])
                == seq![WorkView::Finished]
            &&& works(NegotiationView { peer, stage: StageView::CreatingAnswer }, seq![outcome])
                == seq![WorkView::Finished]
        },
        outcome != OutcomeView::Done ==> works(
            NegotiationView { peer, stage: StageView::SettingLocal { kind, sdp } },
            seq![outcome],
        ) == seq![WorkView::Finished],
{
    reveal_with_fuel(works, 2);
    let stages = (
        NegotiationView { peer, stage: StageView::CreatingOffer },
        NegotiationView { peer, stage: StageView::CreatingAnswer },
        NegotiationView { peer, stage: StageView::SettingLocal { kind, sdp } },
    );
    let over = seq![WorkView::Finished];
    if !(outcome matches OutcomeView::Created { sdp: Some(_) }) {
        assert(works(stages.0, seq![outcome]) =~= over);
        assert(works(stages.1, seq![outcome]) =~= over);
    }
    if outcome != OutcomeView::Done {
        assert(works(stages.2, seq![outcome]) =~= over);
    }
}

/// Once an exchange has nothing more to do, it stays that way whatever comes.
pub proof fn law_what_is_finished_stays_finished(
    exchange: NegotiationView,
    outcome: OutcomeView,
    later: Seq<OutcomeView>,
    i: int,
)
    requires
        exchange.step(outcome).1 == WorkView::Finished,
        0 <= i < later.len(),
    ensures
        works(NegotiationView { stage: exchange.step(outcome).0, ..exchange }, later).len()
            == later.len(),
        works(NegotiationView { stage: exchange.step(outcome).0, ..exchange }, later)[i]
            == WorkView::Finished,
    decreases later.len(),
{
    let over = NegotiationView { stage: exchange.step(outcome).0, ..exchange };
    assert(over.stage == StageView::Over);
    if later.len() == 1 {
        reveal_with_fuel(works, 2);
        assert(later.drop_first() =~= Seq::empty());
    } else if i == 0 {
        law_what_is_finished_stays_finished(over, later[0], later.drop_first(), 0);
    } else {
        law_what_is_finished_stays_finished(over, later[0], later.drop_first(), i - 1);
    }
}

/// A local description is set only as it was just created, and a signal is sent only of
/// the description that was just set, to the peer of the exchange, over any run of
/// outcomes and from any stage before.
pub proof fn law_set_what_was_created_and_send_what_was_set(
    start: NegotiationView,
    outcomes: Seq<OutcomeView>,
    i: int,
)
    requires
        !(start.stage is SettingLocal),
        0 <= i < outcomes.len(),
    ensures
        works(start, outcomes).len() == outcomes.len(),
        works(start, outcomes)[i] matches WorkView::SetLocal { sdp, .. } ==> outcomes[i]
            == (OutcomeView::Created { sdp: Some(sdp) }),
        works(start, outcomes)[i] matches WorkView::Send { signal } ==> {
            &&& i > 0
            &&& outcomes[i] == OutcomeView::Done
            &&& works(start, outcomes)[i - 1] matches WorkView::SetLocal { kind, sdp }
            &&& signal == match kind {
                SdpKind::Offer => SignalView::Offer { to: start.peer, sdp },
                SdpKind::Answer => SignalView::Answer { to: start.peer, sdp },
            }
        },
    decreases outcomes.len(),
{
    lemma_works(start, outcomes, i);
    if i > 0 {
        lemma_works(start, outcomes, i - 1);
    }
    lemma_works_len(start, outcomes);
}

/// Where an exchange stands after a run of outcomes.
pub open spec fn stage_after(start: NegotiationView, outcomes: Seq<OutcomeView>) -> StageView
    decreases outcomes.len(),
{
    if outcomes.len() == 0 {
        start.stage
    } else {
        let (stage, work) = start.step(outcomes[0]);
        stage_after(NegotiationView { stage, ..start }, outcomes.drop_first())
    }
}

/// Each outcome brings one piece of work.
proof fn lemma_works_len(start: NegotiationView, outcomes: Seq<OutcomeView>)
    ensures
        works(start, outcomes).len() == outcomes.len(),
    decreases outcomes.len(),
{
    if outcomes.len() > 0 {
        lemma_works_len(
            NegotiationView { stage: start.step(outcomes[0]).0, ..start },
            outcomes.drop_first(),
        );
    }
}

/// Each piece of work is the step from where the exchange stood, and leads to where it
/// stands next.
proof fn lemma_works(start: NegotiationView, outcomes: Seq<OutcomeView>, i: int)
    requires
        0 <= i < outcomes.len(),
    ensures
        ({
            let before = NegotiationView { stage: stage_after(start, outcomes.take(i)), ..start };
            &&& works(start, outcomes).len() == outcomes.len()
            &&& works(start, outcomes)[i] == before.step(outcomes[i]).1
            &&& stage_after(start, outcomes.take(i + 1)) == before.step(outcomes[i]).0
        }),
    decreases outcomes.len(),
{
    reveal_with_fuel(stage_after, 2);
    let next = NegotiationView { stage: start.step(outcomes[0]).0, ..start };
    let rest = outcomes.drop_first();
    lemma_works_len(start, outcomes);
    if i == 0 {
        assert(outcomes.take(0) =~= Seq::empty());
        assert(outcomes.take(1).drop_first() =~= Seq::empty());
    } else {
        lemma_works(next, rest, i - 1);
        assert(outcomes.take(i).drop_first() =~= rest.take(i - 1));
        assert(outcomes.take(i + 1).drop_first() =~= rest.take(i));
        assert(works(start, outcomes)[i] == works(next, rest)[i - 1]);
    }
}

/// An exchange begins with the work it is named after: to create an offer, or to apply
/// what the peer sent; and it is with the peer it was begun with.
pub proof fn law_an_exchange_begins_with_its_work(
    peer: &str,
    sdp: &str,
    offering: (Negotiation, Work),
    answering: (Negotiation, Work),
    concluding: (Negotiation, Work),
    created: Seq<char>,
    sent: OutcomeView,
)
    requires
        call_ensures(Negotiation::offer, (peer,), offering),
        call_ensures(Negotiation::answer, (peer, sdp), answering),
        call_ensures(Negotiation::conclude, (peer, sdp), concluding),
    ensures
        offering.1@ == WorkView::CreateOffer,
        answering.1@ == (WorkView::SetRemote { kind: SdpKind::Offer, sdp: sdp@ }),
        concluding.1@ == (WorkView::SetRemote { kind: SdpKind::Answer, sdp: sdp@ }),
        offering.0@.peer == peer@ && answering.0@.peer == peer@ && concluding.0@.peer == peer@,
        works(
            offering.0@,
            seq![OutcomeView::Created { sdp: Some(created) }, OutcomeView::Done, sent],
        ) == seq![
            WorkView::SetLocal { kind: SdpKind::Offer, sdp: created },
            WorkView::Send { signal: SignalView::Offer { to: peer@, sdp: created } },
            WorkView::Finished,
        ],
        works(
            answering.0@,
            seq![
                OutcomeView::Done,
                sent,
                OutcomeView::Created { sdp: Some(created) },
                OutcomeView::Done,
                sent,
            ],
        ) == seq![
            WorkView::Drain,
            WorkView::CreateAnswer,
            WorkView::SetLocal { kind: SdpKind::Answer, sdp: created },
            WorkView::Send { signal: SignalView::Answer { to: peer@, sdp: created } },
            WorkView::Drain,
        ],
        works(concluding.0@, seq![OutcomeView::Done]) == seq![WorkView::Drain],
{
    law_an_offer_is_created_set_and_sent(peer@, created, sent);
    law_an_answer_drains_candidates_before_and_after(peer@, created, sent, sent);
    law_candidates_are_drained_once_a_description_is_applied(peer@, OutcomeView::Done);
}

} // verus!
