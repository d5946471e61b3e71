//! Loudness per peer, so the UI knows who is talking.
//!
//! The room has no server-side knowledge of speech, media never touches it, so the
//! level is measured in the browser. Measuring and smoothing a level is arithmetic on
//! fractions; the meter is handed the outcome and decides who gets the stage.
//!
//! A level arrives as the bits of a non-negative single-precision fraction
//! (`f32::to_bits`). Those bits, read as an integer, are ordered as the fractions are,
//! so levels compare as integers.

use vstd::prelude::*;

use crate::roster::Roster;
use crate::text::same;
use crate::types::{text_view, text_views};

verus! {

/// Level at which a peer counts as making noise at all: the bits of `0.02`. Below this
/// the stage has no owner, and the UI falls back to a stable choice of its own.
pub const SPEECH_FLOOR: u32 = 0x3CA3_D70A;

/// Gives up on an audio context that will not start: a rejected resume is not retried
/// forever, but one attempt is not enough either (the gesture that unlocks autoplay can
/// land a moment after the first sample).
pub const MAX_RESUME_TRIES: u8 = 5;

/// How loud a peer is.
#[derive(Debug, Clone, Copy, PartialEq, Eq, Structural)]
pub struct Level {
    /// The smoothed level.
    pub level: u32,
    /// The level a challenger has to reach to take the stage from this peer: the
    /// smoothed level, raised by the switch ratio. Without this hysteresis two people of
    /// similar volume would hand the stage back and forth on every sample.
    pub reach: u32,
}

impl Level {
    /// Whether more than the level itself is needed to displace whoever has it: only
    /// silence is reached by silence.
    pub open spec fn is_graded(self) -> bool {
        &&& self.level <= self.reach
        &&& self.level > 0 ==> self.level < self.reach
    }

    /// Whether more than the level itself is needed to displace whoever has it.
    pub fn fits(&self) -> (graded: bool)
        ensures
            graded == self.is_graded(),
    {
        self.level < self.reach || (self.level == 0 && self.reach == 0)
    }
}

/// Silence: the level of a peer not heard yet.
pub open spec fn silence() -> Level {
    Level { level: 0, reach: 0 }
}

/// Tracks who is speaking.
pub struct LevelMeter {
    levels: Roster<Level>,
    /// Who last held the stage.
    holder: Option<String>,
    resume_tries: u8,
}

/// The view of a [`LevelMeter`].
#[verifier::ext_equal]
pub struct MeterView {
    pub levels: Map<Seq<char>, Level>,
    pub holder: Option<Seq<char>>,
    pub resume_tries: u8,
}

impl MeterView {
    /// Nobody is followed yet.
    pub open spec fn fresh() -> Self {
        MeterView { levels: Map::empty(), holder: None, resume_tries: 0 }
    }

    /// Following a peer, from silence; a peer already followed keeps its level.
    pub open spec fn watching(self, peer: Seq<char>) -> Self {
        if self.levels.contains_key(peer) {
            self
        } else {
            MeterView { levels: self.levels.insert(peer, silence()), ..self }
        }
    }

    /// With a new level for a peer; one not followed has none.
    pub open spec fn hearing(self, peer: Seq<char>, level: Level) -> Self {
        if self.levels.contains_key(peer) {
            MeterView { levels: self.levels.insert(peer, level), ..self }
        } else {
            self
        }
    }

    /// No longer following a peer, who loses any claim on the stage.
    pub open spec fn without(self, peer: Seq<char>) -> Self {
        MeterView {
            levels: self.levels.remove(peer),
            holder: if self.holder == Some(peer) {
                None
            } else {
                self.holder
            },
            ..self
        }
    }

    /// Whether every level is one that a meter takes.
    pub open spec fn is_graded(self) -> bool {
        forall|peer: Seq<char>| #[trigger]
            self.levels.contains_key(peer) ==> self.levels[peer].is_graded()
    }

    /// Whether nobody else is as loud as it takes to displace a peer.
    pub open spec fn is_out_of_reach(self, peer: Seq<char>) -> bool {
        forall|other: Seq<char>| #[trigger]
            self.levels.contains_key(other) && other != peer ==> self.levels[other].level
                < self.levels[peer].reach
    }

    /// Whether a peer is heard at all.
    pub open spec fn is_heard(self, peer: Seq<char>) -> bool {
        self.levels.contains_key(peer) && self.levels[peer].level > SPEECH_FLOOR
    }

    /// Whether nobody is heard louder than a peer who is heard.
    pub open spec fn is_loudest(self, peer: Seq<char>) -> bool {
        &&& self.is_heard(peer)
        &&& forall|other: Seq<char>| #[trigger]
            self.is_heard(other) ==> self.levels[other].level <= self.levels[peer].level
    }

    /// Whether whoever holds the stage keeps it: nobody reaches the level it takes.
    pub open spec fn is_kept(self) -> bool {
        &&& self.holder matches Some(held)
        &&& self.levels.contains_key(held)
        &&& forall|other: Seq<char>| #[trigger]
            self.is_heard(other) ==> self.levels[other].level < self.levels[held].reach
    }

    /// Whether the stage may go to someone, or to nobody, now. Of several who are
    /// equally loud any may get it.
    pub open spec fn may_stage(self, who: Option<Seq<char>>) -> bool {
        if forall|peer: Seq<char>| !#[trigger] self.is_heard(peer) {
            who is None
        } else if self.is_kept() {
            who == self.holder
        } else {
            who matches Some(peer) && self.is_loudest(peer)
        }
    }

    /// The meter once the stage went to a peer, or to nobody.
    pub open spec fn staging(self, who: Option<Seq<char>>) -> Self {
        MeterView { holder: who, ..self }
    }

    /// Whether a meter that may have been parked is to be resumed.
    pub open spec fn resumes(self, parked: bool) -> bool {
        parked && self.resume_tries < MAX_RESUME_TRIES
    }

    /// The meter once it was resumed, where it is to be.
    pub open spec fn resuming(self, parked: bool) -> Self {
        MeterView {
            resume_tries: if self.resumes(parked) {
                (self.resume_tries + 1) as u8
            } else {
                self.resume_tries
            },
            ..self
        }
    }
}

impl View for LevelMeter {
    type V = MeterView;

    closed spec fn view(&self) -> MeterView {
        MeterView {
            levels: self.levels@,
            holder: text_view(self.holder),
            resume_tries: self.resume_tries,
        }
    }
}

impl LevelMeter {
    /// Whoever holds the stage is followed, it takes more than a peer's own level to
    /// displace it, and the audio context is asked to start a bounded number of times.
    pub closed spec fn wf(&self) -> bool {
        &&& self.levels.wf()
        &&& self@.is_graded()
        &&& (self.holder matches Some(held) ==> self.levels@.contains_key(held@))
        &&& self.resume_tries <= MAX_RESUME_TRIES
    }

    /// A meter that follows nobody yet.
    pub fn new() -> (meter: Self)
        ensures
            meter.wf(),
            meter@ == MeterView::fresh(),
    {
        LevelMeter { levels: Roster::new(), holder: None, resume_tries: 0 }
    }

    /// Whether a peer is followed already.
    pub fn is_watched(&self, peer: &str) -> (watched: bool)
        ensures
            watched == self@.levels.contains_key(peer@),
    {
        self.levels.contains(peer)
    }

    /// Starts following a peer. Idempotent, so it can be called every time a stream is
    /// (re)attached.
    pub fn watch(&mut self, peer: &str)
        requires
            old(self).wf(),
        ensures
            final(self).wf(),
            final(self)@ == old(self)@.watching(peer@),
    {
        if !self.levels.contains(peer) {
            self.levels.insert(peer.to_owned(), Level { level: 0, reach: 0 });
        }
    }

    /// Who is followed.
    pub fn watched(&self) -> (peers: Vec<String>)
        requires
            self.wf(),
        ensures
            text_views(peers@).no_duplicates(),
            text_views(peers@).to_set() == self@.levels.dom(),
    {
        self.levels.ids()
    }

    /// The last level of a peer, silence where it has none.
    pub fn level(&self, peer: &str) -> (level: Level)
        requires
            self.wf(),
        ensures
            level == (if self@.levels.contains_key(peer@) {
                self@.levels[peer@]
            } else {
                silence()
            }),
    {
        match self.levels.get(peer) {
            Some(level) => *level,
            None => Level { level: 0, reach: 0 },
        }
    }

    /// Takes a new level for a peer who is followed.
    pub fn hear(&mut self, peer: &str, level: Level)
        requires
            old(self).wf(),
            level.is_graded(),
        ensures
            final(self).wf(),
            final(self)@ == old(self)@.hearing(peer@, level),
    {
        if self.levels.contains(peer) {
            self.levels.insert(peer.to_owned(), level);
        }
    }

    /// Stops following a peer, and drops its claim on the stage.
    pub fn forget(&mut self, peer: &str)
        requires
            old(self).wf(),
        ensures
            final(self).wf(),
            final(self)@ == old(self)@.without(peer@),
    {
        let _ = self.levels.remove(peer);
        let held = match &self.holder {
            Some(held) => same(held.as_str(), peer),
            None => false,
        };
        if held {
            self.holder = None;
        }
    }

    /// Who should be shown large, or `None` when nobody is speaking. The incumbent keeps
    /// the stage unless the challenger is clearly louder.
    pub fn sample(&mut self) -> (who: Option<String>)
        requires
            old(self).wf(),
        ensures
            final(self).wf(),
            old(self)@.may_stage(text_view(who)),
            who matches Some(peer) ==> old(self)@.is_out_of_reach(peer@),
            final(self)@ == old(self)@.staging(text_view(who)),
    {
        let ghost before = self@;
        let (best, best_level) = match self.loudest() {
            Some(found) => found,
            None => {
                self.holder = None;
                return None;
            },
        };
        let ghost loudest = best@;
        assert(before.is_heard(loudest));
        let held = match &self.holder {
            Some(held) => match self.levels.get(held.as_str()) {
                Some(held_level) => if !same(held.as_str(), best.as_str()) && best_level
                    < held_level.reach {
                    Some(held.clone())
                } else {
                    None
                },
                None => None,
            },
            None => None,
        };
        match held {
            Some(held) => {
                proof {
                    assert forall|other: Seq<char>| #[trigger] before.is_heard(other) implies
                        before.levels[other].level < before.levels[held@].reach by {}
                    law_nobody_else_reaches_whoever_is_staged(before, held@);
                }
                Some(held)
            },
            None => {
                proof {
                    if before.is_kept() {
                        assert(before.is_heard(loudest));
                    }
                    law_nobody_else_reaches_whoever_is_staged(before, loudest);
                }
                self.holder = Some(best.clone());
                Some(best)
            },
        }
    }

    /// The peer above [`SPEECH_FLOOR`] with the highest level.
    fn loudest(&self) -> (found: Option<(String, u32)>)
        requires
            self.wf(),
        ensures
            match found {
                Some((peer, level)) => self@.is_loudest(peer@) && level
                    == self@.levels[peer@].level,
                None => forall|peer: Seq<char>| !#[trigger] self@.is_heard(peer),
            },
    {
        let ids = self.levels.ids();
        let ghost views = text_views(ids@);
        let mut found: Option<(String, u32)> = None;
        let mut i: usize = 0;
        while i < ids.len()
            invariant
                i <= ids.len(),
                self.wf(),
                views == text_views(ids@),
                views.to_set() == self@.levels.dom(),
                match found {
                    Some((peer, level)) => {
                        &&& self@.is_heard(peer@)
                        &&& level == self@.levels[peer@].level
                        &&& forall|j: int|
                            0 <= j < i && #[trigger] self@.is_heard(views[j])
                                ==> self@.levels[views[j]].level <= level
                    },
                    None => forall|j: int| 0 <= j < i ==> !#[trigger] self@.is_heard(views[j]),
                },
            decreases ids.len() - i,
        {
            let ghost id = views[i as int];
            assert(views.to_set().contains(id));
            match self.levels.get(ids[i].as_str()) {
                Some(level) => {
                    let best = match &found {
                        Some((_, so_far)) => *so_far < level.level,
                        None => true,
                    };
                    if level.level > SPEECH_FLOOR && best {
                        found = Some((ids[i].clone(), level.level));
                    }
                },
                None => {},
            }
            i += 1;
        }
        proof {
            assert forall|peer: Seq<char>| #[trigger] self@.is_heard(peer) implies exists|j: int|
                0 <= j < views.len() && views[j] == peer && self@.is_heard(views[j]) by {
                assert(views.to_set().contains(peer));
                let j = choose|j: int| 0 <= j < views.len() && views[j] == peer;
                assert(self@.is_heard(views[j]));
            }
        }
        found
    }

    /// Whether to ask the audio context to start. Browsers park it until the page has
    /// had a user gesture, and a parked context reads as silence, which is
    /// indistinguishable from a quiet room, so ask, a bounded number of times.
    pub fn ensure_running(&mut self, parked: bool) -> (resume: bool)
        requires
            old(self).wf(),
        ensures
            final(self).wf(),
            resume == old(self)@.resumes(parked),
            final(self)@ == old(self)@.resuming(parked),
    {
        if !parked || self.resume_tries >= MAX_RESUME_TRIES {
            return false;
        }
        self.resume_tries += 1;
        true
    }

    /// It always takes more than a peer's own level to displace it.
    pub proof fn law_levels_are_graded(&self)
        requires
            self.wf(),
        ensures
            self@.is_graded(),
    {
    }

    /// Whoever holds the stage is someone who is followed.
    pub proof fn law_the_holder_is_followed(&self)
        requires
            self.wf(),
        ensures
            self@.holder matches Some(held) ==> self@.levels.contains_key(held),
    {
    }

    /// The audio context is never asked to start more often than the bound allows.
    pub proof fn law_resume_tries_are_bounded(&self)
        requires
            self.wf(),
        ensures
            self@.resume_tries <= MAX_RESUME_TRIES,
    {
    }
}

/// Nobody is put on the stage who is not followed, and it stands empty just when nobody
/// is heard.
pub proof fn law_the_stage_goes_to_someone_followed(meter: MeterView, who: Option<Seq<char>>)
    requires
        meter.may_stage(who),
    ensures
        who matches Some(peer) ==> meter.levels.contains_key(peer),
        who is None <==> forall|peer: Seq<char>| !#[trigger] meter.is_heard(peer),
{
}

/// Whoever is put on the stage, nobody else who is followed is as loud as it takes to
/// displace them.
pub proof fn law_nobody_else_reaches_whoever_is_staged(meter: MeterView, who: Seq<char>)
    requires
        meter.is_graded(),
        meter.may_stage(Some(who)),
    ensures
        meter.is_out_of_reach(who),
{
    let heard = choose|peer: Seq<char>| #[trigger] meter.is_heard(peer);
    assert(meter.is_heard(heard));
    assert forall|other: Seq<char>| #[trigger]
        meter.levels.contains_key(other) && other != who implies meter.levels[other].level
        < meter.levels[who].reach by {
        if meter.is_kept() {
            assert(meter.levels[heard].level < meter.levels[who].reach);
            assert(meter.is_heard(other) || meter.levels[other].level <= SPEECH_FLOOR);
        } else {
            assert(meter.levels.contains_key(who));
            assert(meter.is_heard(other) || meter.levels[other].level <= SPEECH_FLOOR);
        }
    }
}

/// A challenger takes the stage only by reaching the level it takes to displace whoever
/// holds it.
pub proof fn law_the_stage_changes_hands_only_to_the_clearly_louder(
    meter: MeterView,
    held: Seq<char>,
    who: Seq<char>,
)
    requires
        meter.holder == Some(held),
        meter.levels.contains_key(held),
        meter.may_stage(Some(who)),
        who != held,
    ensures
        meter.levels[who].level >= meter.levels[held].reach,
        meter.is_loudest(who),
{
    assert(!meter.is_kept());
    let other = choose|other: Seq<char>| #[trigger]
        meter.is_heard(other) && meter.levels[other].level >= meter.levels[held].reach;
    assert(meter.is_heard(other));
}

/// A peer no longer followed is not put on the stage.
pub proof fn law_the_forgotten_leave_the_stage(
    meter: MeterView,
    peer: Seq<char>,
    who: Option<Seq<char>>,
)
    requires
        meter.without(peer).may_stage(who),
    ensures
        who != Some(peer),
{
}

/// An empty stage goes to one of the loudest above the floor: to somebody, as soon as
/// anybody speaks, and to nobody who is outdone.
pub proof fn law_an_empty_stage_goes_to_the_loudest(
    meter: MeterView,
    who: Seq<char>,
    other: Seq<char>,
)
    requires
        meter.holder is None,
        meter.may_stage(Some(who)),
        meter.levels.contains_key(other),
    ensures
        meter.levels.contains_key(who),
        meter.levels[who].level > 0x3CA3_D70A,
        meter.levels[other].level <= meter.levels[who].level,
{
    assert(meter.is_heard(other) || meter.levels[other].level <= SPEECH_FLOOR);
}

/// Whoever holds the stage keeps it while somebody speaks and nobody else reaches the
/// level it takes, however many others are there and even if louder.
pub proof fn law_the_incumbent_keeps_the_stage(
    meter: MeterView,
    held: Seq<char>,
    speaking: Seq<char>,
    who: Option<Seq<char>>,
)
    requires
        meter.is_graded(),
        meter.holder == Some(held),
        meter.levels.contains_key(held),
        meter.is_out_of_reach(held),
        meter.levels.contains_key(speaking),
        meter.levels[speaking].level > 0x3CA3_D70A,
        meter.may_stage(who),
    ensures
        who == Some(held),
{
    assert(meter.is_heard(speaking));
    assert forall|other: Seq<char>| #[trigger] meter.is_heard(other) implies
        meter.levels[other].level < meter.levels[held].reach by {
        if other != held {
            assert(meter.levels.contains_key(other));
        } else {
            assert(meter.levels[held].is_graded());
        }
    }
}

/// The stage is empty just when nobody who is followed is above the floor.
pub proof fn law_the_stage_is_empty_in_a_quiet_room(meter: MeterView, who: Option<Seq<char>>)
    requires
        meter.may_stage(who),
    ensures
        (exists|peer: Seq<char>| #[trigger]
            meter.levels.contains_key(peer) && meter.levels[peer].level > 0x3CA3_D70A)
            <==> who is Some,
{
    if exists|peer: Seq<char>| #[trigger]
        meter.levels.contains_key(peer) && meter.levels[peer].level > 0x3CA3_D70A {
        let peer = choose|peer: Seq<char>| #[trigger]
            meter.levels.contains_key(peer) && meter.levels[peer].level > 0x3CA3_D70A;
        assert(meter.is_heard(peer));
    }
    if who is Some {
        let peer = choose|peer: Seq<char>| #[trigger] meter.is_heard(peer);
        assert(meter.levels.contains_key(peer));
    }
}

/// Following a peer starts from silence and leaves everyone else alone; following again
/// changes nothing.
pub proof fn law_following_starts_from_silence(
    meter: MeterView,
    peer: Seq<char>,
    other: Seq<char>,
)
    ensures
        ({
            let after = meter.watching(peer);
            &&& after.levels.contains_key(peer)
            &&& !meter.levels.contains_key(peer) ==> after.levels[peer].level == 0
                && after.levels[peer].reach == 0
            &&& meter.levels.contains_key(peer) ==> after == meter
            &&& after.watching(peer) == after
            &&& other != peer ==> after.levels.contains_key(other) == meter.levels.contains_key(
                other,
            )
            &&& meter.levels.contains_key(other) ==> after.levels[other] == meter.levels[other]
            &&& after.holder == meter.holder && after.resume_tries == meter.resume_tries
        }),
{
}

/// A new level is the last one heard of a peer, and of nobody else; one who is not followed
/// stays so.
pub proof fn law_the_last_level_counts(
    meter: MeterView,
    peer: Seq<char>,
    first: Level,
    last: Level,
    other: Seq<char>,
)
    ensures
        meter.hearing(peer, first).hearing(peer, last) == meter.hearing(peer, last),
        meter.levels.contains_key(peer) ==> meter.hearing(peer, last).levels[peer] == last,
        meter.hearing(peer, last).levels.dom() == meter.levels.dom(),
        other != peer && meter.levels.contains_key(other) ==> meter.hearing(
            peer,
            last,
        ).levels[other] == meter.levels[other],
        meter.hearing(peer, last).holder == meter.holder,
        meter.hearing(peer, last).resume_tries == meter.resume_tries,
{
    assert(meter.hearing(peer, first).hearing(peer, last) =~= meter.hearing(peer, last));
    assert(meter.hearing(peer, last).levels.dom() =~= meter.levels.dom());
}

/// Letting go of a peer undoes following it, and concerns nobody else.
pub proof fn law_letting_go_undoes_following(
    meter: MeterView,
    peer: Seq<char>,
    other: Seq<char>,
)
    ensures
        !meter.levels.contains_key(peer) && meter.holder != Some(peer) ==> meter.watching(
            peer,
        ).without(peer) == meter,
        !meter.without(peer).levels.contains_key(peer),
        other != peer ==> meter.without(peer).levels.contains_key(other)
            == meter.levels.contains_key(other),
        other != peer && meter.levels.contains_key(other) ==> meter.without(peer).levels[other]
            == meter.levels[other],
        meter.holder == Some(other) && other != peer ==> meter.without(peer).holder == Some(other),
        meter.without(peer).resume_tries == meter.resume_tries,
{
    if !meter.levels.contains_key(peer) && meter.holder != Some(peer) {
        assert(meter.watching(peer).without(peer) =~= meter);
    }
}

/// A meter that is parked is resumed five times and no more, each try is counted, and
/// one that runs is left alone.
pub proof fn law_a_parked_meter_is_resumed_five_times(meter: MeterView, parked: bool)
    ensures
        !parked ==> !meter.resumes(parked) && meter.resuming(parked) == meter,
        parked && meter.resume_tries < 5 ==> meter.resumes(parked) && meter.resuming(
            parked,
        ).resume_tries == meter.resume_tries + 1,
        meter.resume_tries >= 5 ==> !meter.resumes(parked) && meter.resuming(parked) == meter,
        MeterView::fresh().resumes(true),
        meter.resuming(parked).levels == meter.levels,
        meter.resuming(parked).holder == meter.holder,
{
}

/// Whoever is staged holds the stage when it is next decided, and the levels stay.
pub proof fn law_whoever_is_staged_holds_the_stage(meter: MeterView, who: Option<Seq<char>>)
    ensures
        meter.staging(who).holder == who,
        meter.staging(who).levels == meter.levels,
        meter.staging(who).resume_tries == meter.resume_tries,
{
}

/// The stage does not change hands by asking again: with the levels as they are, whoever
/// was staged is staged again.
pub proof fn law_the_stage_is_steady(
    meter: MeterView,
    who: Option<Seq<char>>,
    again: Option<Seq<char>>,
)
    requires
        meter.is_graded(),
        meter.may_stage(who),
        meter.staging(who).may_stage(again),
    ensures
        again == who,
{
    let next = meter.staging(who);
    if who is Some {
        let peer = who->0;
        law_nobody_else_reaches_whoever_is_staged(meter, peer);
        assert forall|other: Seq<char>| #[trigger] next.is_heard(other) implies meter.is_heard(
            other,
        ) by {}
        assert(meter.levels.contains_key(peer));
        if meter.is_kept() {
            assert(next == meter);
        } else {
            assert(meter.is_loudest(peer));
            assert forall|other: Seq<char>| #[trigger] next.is_heard(other) implies
                next.levels[other].level < next.levels[peer].reach by {
                assert(meter.is_heard(other));
                assert(meter.levels[peer].is_graded());
            }
            assert(next.is_kept());
            assert(next.is_heard(peer));
        }
    } else {
        assert forall|other: Seq<char>| !#[trigger] next.is_heard(other) by {
            if next.is_heard(other) {
                assert(meter.is_heard(other));
            }
        }
    }
}

/// A follow-up of a peer that nobody follows changes nothing, and silence is nothing to
/// hear.
pub proof fn law_silence_is_not_heard(meter: MeterView, peer: Seq<char>, level: Level)
    ensures
        !meter.levels.contains_key(peer) ==> !meter.watching(peer).is_heard(peer),
        !meter.levels.contains_key(peer) ==> meter.hearing(peer, level) == meter,
        silence().level == 0 && silence().reach == 0 && silence().is_graded(),
        MeterView::fresh().levels.dom() == Set::<Seq<char>>::empty(),
        MeterView::fresh().holder is None,
        MeterView::fresh().resume_tries == 0,
{
    assert(MeterView::fresh().levels.dom() =~= Set::<Seq<char>>::empty());
}

} // verus!
