//! Endurance runs over synthetic sounds: the random source, the tally of what
//! was recognised, and when a run passes.

use vstd::prelude::*;

use crate::classifier::Classification;
use crate::ids::ZoneId;
use crate::onset::OnsetEvent;
use crate::text::{number, parse_number};

verus! {

/// Multiplier of the generator.
pub const LCG_MULTIPLIER: u64 = 6364136223846793005;

/// Increment of the generator.
pub const LCG_INCREMENT: u64 = 1442695040888963407;

/// What a seed is mixed with.
pub const LCG_SEED_MASK: u64 = 0x9e37_79b9_7f4a_7c15;

/// Zone counts that a desk can have.
pub open spec fn supported_zone_count(n: u64) -> bool {
    n == 2 || n == 4 || n == 6 || n == 8
}

/// A reproducible random source.
#[derive(Clone, Copy, Debug, PartialEq, Eq, Structural)]
pub struct Lcg {
    pub state: u64,
}

impl Lcg {
    /// The state that follows.
    pub open spec fn next_state(self) -> int {
        (self.state * LCG_MULTIPLIER + LCG_INCREMENT) % 0x1_0000_0000_0000_0000
    }

    pub fn new(seed: u64) -> (g: Lcg)
        ensures
            g.state == seed ^ LCG_SEED_MASK,
    {
        Lcg { state: seed ^ LCG_SEED_MASK }
    }

    /// The next number, evenly spread over the fractions of 2 to the 24th: the
    /// top 24 bits of the next state.
    pub fn next_unit(&mut self) -> (n: u32)
        ensures
            final(self).state == old(self).next_state(),
            n == old(self).next_state() / 0x100_0000_0000,
            n < 0x100_0000,
    {
        let product: u64 = self.state.wrapping_mul(LCG_MULTIPLIER);
        let next: u64 = product.wrapping_add(LCG_INCREMENT);
        proof {
            wrapping_steps_agree(self.state as int, product as int, next as int);
        }
        self.state = next;
        (next / 0x100_0000_0000) as u32
    }
}

proof fn wrapping_steps_agree(s: int, product: int, next: int)
    requires
        product == (s * LCG_MULTIPLIER) % 0x1_0000_0000_0000_0000,
        next == (product + LCG_INCREMENT) % 0x1_0000_0000_0000_0000,
    ensures
        next == (s * LCG_MULTIPLIER + LCG_INCREMENT) % 0x1_0000_0000_0000_0000,
{
    vstd::arithmetic::div_mod::lemma_add_mod_noop(
        s * LCG_MULTIPLIER,
        LCG_INCREMENT as int,
        0x1_0000_0000_0000_0000,
    );
    vstd::arithmetic::div_mod::lemma_add_mod_noop(
        product,
        LCG_INCREMENT as int,
        0x1_0000_0000_0000_0000,
    );
    vstd::arithmetic::div_mod::lemma_mod_twice(s * LCG_MULTIPLIER, 0x1_0000_0000_0000_0000);
}

/// Size of a run.
#[derive(Clone, Copy, Debug, PartialEq, Eq, Structural)]
pub struct SoakConfig {
    pub zone_count: usize,
    pub calib_taps_per_zone: usize,
    pub sustained_per_batch: usize,
}

impl Default for SoakConfig {
    fn default() -> (c: SoakConfig)
        ensures
            c == (SoakConfig { zone_count: 4, calib_taps_per_zone: 10, sustained_per_batch: 4 }),
    {
        SoakConfig { zone_count: 4, calib_taps_per_zone: 10, sustained_per_batch: 4 }
    }
}

/// Outcomes of one or more batches.
#[derive(Clone, Copy, Debug, PartialEq, Eq, Structural)]
pub struct BatchTally {
    /// Taps played, one per zone and batch.
    pub taps: u32,
    /// Taps that were given their own zone.
    pub correct: u32,
    /// Taps that were not heard, or not accepted.
    pub rejected_taps: u32,
    /// Taps that were given another zone.
    pub misclassified: u32,
    /// Sustained sounds played.
    pub sustained: u32,
    /// Windows of sustained sounds that were accepted.
    pub sustained_false_accepts: u32,
    /// Windows of foreign transients that reached the classifier.
    pub foreign_transients: u32,
    /// Those of them that were accepted.
    pub foreign_false_accepts: u32,
}

/// What becomes of one tap.
pub enum TapResult {
    Correct,
    Rejected,
    Misclassified,
}

/// What becomes of a tap for `zone`, given its outcome; a tap without one was
/// not heard as a tap.
pub open spec fn tap_result(zone: ZoneId, outcome: Option<Classification>) -> TapResult {
    match outcome {
        None => TapResult::Rejected,
        Some(c) => if !c.accepted {
            TapResult::Rejected
        } else if c.zone_id == Some(zone) {
            TapResult::Correct
        } else {
            TapResult::Misclassified
        },
    }
}

/// How many taps become `kind`.
pub open spec fn tap_count(
    zones: Seq<ZoneId>,
    outcomes: Seq<Option<Classification>>,
    kind: TapResult,
) -> nat
    decreases zones.len(),
{
    if zones.len() == 0 {
        0
    } else {
        tap_count(zones.drop_last(), outcomes.drop_last(), kind) + if tap_result(
            zones.last(),
            outcomes.last(),
        ) == kind {
            1nat
        } else {
            0nat
        }
    }
}

/// How many outcomes were accepted.
pub open spec fn accepted_count(outcomes: Seq<Classification>) -> nat
    decreases outcomes.len(),
{
    if outcomes.len() == 0 {
        0
    } else {
        accepted_count(outcomes.drop_last()) + if outcomes.last().accepted {
            1nat
        } else {
            0nat
        }
    }
}

fn count_accepted(outcomes: &[Classification]) -> (n: usize)
    ensures
        n == accepted_count(outcomes@),
        n <= outcomes@.len(),
{
    let mut n: usize = 0;
    let mut i: usize = 0;
    while i < outcomes.len()
        invariant
            i <= outcomes@.len(),
            n == accepted_count(outcomes@.take(i as int)),
            n <= i,
        decreases outcomes@.len() - i,
    {
        proof {
            assert(outcomes@.take(i + 1).drop_last() =~= outcomes@.take(i as int));
        }
        if outcomes[i].accepted {
            n += 1;
        }
        i += 1;
    }
    proof {
        assert(outcomes@.take(i as int) =~= outcomes@);
    }
    n
}

impl BatchTally {
    /// Every tap became something, and exactly one thing; no more foreign sounds
    /// were accepted than reached the classifier.
    pub open spec fn balanced(self) -> bool {
        &&& self.taps == self.correct + self.rejected_taps + self.misclassified
        &&& self.foreign_false_accepts <= self.foreign_transients
    }

    /// Both tallies together can still be counted.
    pub open spec fn fits(self, o: BatchTally) -> bool {
        &&& self.taps + o.taps <= u32::MAX
        &&& self.correct + o.correct <= u32::MAX
        &&& self.rejected_taps + o.rejected_taps <= u32::MAX
        &&& self.misclassified + o.misclassified <= u32::MAX
        &&& self.sustained + o.sustained <= u32::MAX
        &&& self.sustained_false_accepts + o.sustained_false_accepts <= u32::MAX
        &&& self.foreign_transients + o.foreign_transients <= u32::MAX
        &&& self.foreign_false_accepts + o.foreign_false_accepts <= u32::MAX
    }

    /// The two tallies together.
    pub open spec fn plus(self, o: BatchTally) -> BatchTally {
        BatchTally {
            taps: (self.taps + o.taps) as u32,
            correct: (self.correct + o.correct) as u32,
            rejected_taps: (self.rejected_taps + o.rejected_taps) as u32,
            misclassified: (self.misclassified + o.misclassified) as u32,
            sustained: (self.sustained + o.sustained) as u32,
            sustained_false_accepts: (self.sustained_false_accepts
                + o.sustained_false_accepts) as u32,
            foreign_transients: (self.foreign_transients + o.foreign_transients) as u32,
            foreign_false_accepts: (self.foreign_false_accepts + o.foreign_false_accepts) as u32,
        }
    }

    /// Count another tally in.
    pub fn add(&mut self, o: &BatchTally)
        requires
            old(self).fits(*o),
        ensures
            *final(self) == old(self).plus(*o),
    {
        self.taps = self.taps + o.taps;
        self.correct = self.correct + o.correct;
        self.rejected_taps = self.rejected_taps + o.rejected_taps;
        self.misclassified = self.misclassified + o.misclassified;
        self.sustained = self.sustained + o.sustained;
        self.sustained_false_accepts = self.sustained_false_accepts + o.sustained_false_accepts;
        self.foreign_transients = self.foreign_transients + o.foreign_transients;
        self.foreign_false_accepts = self.foreign_false_accepts + o.foreign_false_accepts;
    }

    /// Below 99 correct taps in a hundred; no taps at all are below, too.
    pub fn accuracy_is_poor(&self) -> (r: bool)
        ensures
            r == (self.taps == 0 || 100 * self.correct < 99 * self.taps),
    {
        self.taps == 0 || 100 * (self.correct as u64) < 99 * (self.taps as u64)
    }

    /// The tally of one batch: what was made of one tap per zone, and of the
    /// windows of every sustained sound and foreign transient.
    pub fn of_batch(
        zones: &[ZoneId],
        taps: &[Option<Classification>],
        sustained: &[Vec<Classification>],
        foreign: &[Vec<Classification>],
    ) -> (t: BatchTally)
        requires
            taps@.len() == zones@.len(),
            zones@.len() <= u32::MAX,
            sustained@.len() <= u32::MAX,
            flat(sustained@).len() <= u32::MAX,
            flat(foreign@).len() <= u32::MAX,
        ensures
            t.taps == zones@.len(),
            t.correct == tap_count(zones@, taps@, TapResult::Correct),
            t.rejected_taps == tap_count(zones@, taps@, TapResult::Rejected),
            t.misclassified == tap_count(zones@, taps@, TapResult::Misclassified),
            t.sustained == sustained@.len(),
            t.sustained_false_accepts == accepted_count(flat(sustained@)),
            t.foreign_transients == flat(foreign@).len(),
            t.foreign_false_accepts == accepted_count(flat(foreign@)),
            t.balanced(),
    {
        let mut correct: u32 = 0;
        let mut rejected: u32 = 0;
        let mut wrong: u32 = 0;
        let mut i: usize = 0;
        while i < zones.len()
            invariant
                i <= zones@.len(),
                taps@.len() == zones@.len(),
                zones@.len() <= u32::MAX,
                correct == tap_count(
                    zones@.take(i as int),
                    taps@.take(i as int),
                    TapResult::Correct,
                ),
                rejected == tap_count(
                    zones@.take(i as int),
                    taps@.take(i as int),
                    TapResult::Rejected,
                ),
                wrong == tap_count(
                    zones@.take(i as int),
                    taps@.take(i as int),
                    TapResult::Misclassified,
                ),
                correct + rejected + wrong == i,
            decreases zones@.len() - i,
        {
            proof {
                assert(zones@.take(i + 1).drop_last() =~= zones@.take(i as int));
                assert(taps@.take(i + 1).drop_last() =~= taps@.take(i as int));
            }
            match taps[i] {
                None => {
                    rejected += 1;
                },
                Some(c) => if !c.accepted {
                    rejected += 1;
                } else {
                    let own: bool = match c.zone_id {
                        Some(z) => z == zones[i],
                        None => false,
                    };
                    if own {
                        correct += 1;
                    } else {
                        wrong += 1;
                    }
                },
            }
            i += 1;
        }
        proof {
            assert(zones@.take(i as int) =~= zones@);
            assert(taps@.take(i as int) =~= taps@);
            accepted_are_some(flat(foreign@));
            accepted_are_some(flat(sustained@));
        }
        let (windows, false_accepts) = count_flat(sustained);
        let (foreign_windows, foreign_accepts) = count_flat(foreign);
        BatchTally {
            taps: zones.len() as u32,
            correct,
            rejected_taps: rejected,
            misclassified: wrong,
            sustained: sustained.len() as u32,
            sustained_false_accepts: false_accepts as u32,
            foreign_transients: foreign_windows as u32,
            foreign_false_accepts: foreign_accepts as u32,
        }
    }
}

impl Default for BatchTally {
    fn default() -> (t: BatchTally)
        ensures
            t == (BatchTally {
                taps: 0,
                correct: 0,
                rejected_taps: 0,
                misclassified: 0,
                sustained: 0,
                sustained_false_accepts: 0,
                foreign_transients: 0,
                foreign_false_accepts: 0,
            }),
    {
        BatchTally {
            taps: 0,
            correct: 0,
            rejected_taps: 0,
            misclassified: 0,
            sustained: 0,
            sustained_false_accepts: 0,
            foreign_transients: 0,
            foreign_false_accepts: 0,
        }
    }
}

/// The outcomes of all sounds, one sound after the other.
pub open spec fn flat(groups: Seq<Vec<Classification>>) -> Seq<Classification>
    decreases groups.len(),
{
    if groups.len() == 0 {
        Seq::empty()
    } else {
        flat(groups.drop_last()) + groups.last()@
    }
}

proof fn accepted_are_some(s: Seq<Classification>)
    ensures
        accepted_count(s) <= s.len(),
    decreases s.len(),
{
    if s.len() > 0 {
        accepted_are_some(s.drop_last());
    }
}

proof fn accepted_of_concat(a: Seq<Classification>, b: Seq<Classification>)
    ensures
        accepted_count(a + b) == accepted_count(a) + accepted_count(b),
    decreases b.len(),
{
    if b.len() == 0 {
        assert(a + b =~= a);
    } else {
        assert((a + b).drop_last() =~= a + b.drop_last());
        accepted_of_concat(a, b.drop_last());
    }
}

proof fn flat_prefix(groups: Seq<Vec<Classification>>, n: int)
    requires
        0 <= n <= groups.len(),
    ensures
        flat(groups.take(n)).len() <= flat(groups).len(),
    decreases groups.len() - n,
{
    if n == groups.len() {
        assert(groups.take(n) =~= groups);
    } else {
        flat_prefix(groups, n + 1);
        assert(groups.take(n + 1).drop_last() =~= groups.take(n));
    }
}

fn count_flat(groups: &[Vec<Classification>]) -> (r: (usize, usize))
    requires
        flat(groups@).len() <= u32::MAX,
    ensures
        r.0 == flat(groups@).len(),
        r.1 == accepted_count(flat(groups@)),
{
    let mut windows: usize = 0;
    let mut accepted: usize = 0;
    let mut i: usize = 0;
    while i < groups.len()
        invariant
            i <= groups@.len(),
            flat(groups@).len() <= u32::MAX,
            windows == flat(groups@.take(i as int)).len(),
            accepted == accepted_count(flat(groups@.take(i as int))),
            accepted <= windows,
        decreases groups@.len() - i,
    {
        proof {
            assert(groups@.take(i + 1).drop_last() =~= groups@.take(i as int));
            flat_prefix(groups@, i + 1);
            accepted_of_concat(flat(groups@.take(i as int)), groups@[i as int]@);
        }
        windows += groups[i].len();
        accepted += count_accepted(&groups[i]);
        i += 1;
    }
    proof {
        assert(groups@.take(i as int) =~= groups@);
    }
    (windows, accepted)
}

/// Adding balanced tallies gives a balanced one, in whatever order.
pub proof fn adding_keeps_balance(a: BatchTally, b: BatchTally)
    requires
        a.balanced(),
        b.balanced(),
        a.fits(b),
    ensures
        a.plus(b).balanced(),
        a.plus(b) == b.plus(a),
{
}

/// The window of the first onset, where that onset is a tap: what a clip is
/// recognised by.
pub fn pipeline_first(events: &[OnsetEvent]) -> (r: Option<usize>)
    ensures
        r == if events@.len() > 0 && events@[0].is_transient {
            Some(0usize)
        } else {
            None
        },
{
    if events.len() > 0 && events[0].is_transient {
        Some(0)
    } else {
        None
    }
}

/// Why a run does not pass.
#[derive(Clone, Copy, Debug, PartialEq, Eq, Structural)]
pub enum SoakFailure {
    /// Fewer than 99 in a hundred taps were correct.
    Accuracy,
    /// Sustained sounds were accepted.
    SustainedAccepted(u32),
    /// The heap grew or shrank by five percent or more.
    HeapGrowth,
    /// Foreign transients were accepted.
    ForeignAccepted(u32),
    /// No foreign transient reached the classifier, so nothing was shown.
    ForeignNotExercised,
}

/// The heap changed by five percent or more of what it was.
pub open spec fn heap_drifts(start: usize, end: usize) -> bool {
    start > 0 && 100 * if end >= start {
        end - start
    } else {
        start - end
    } >= 5 * start
}

/// The failures of a run, in the order in which they are reported.
pub open spec fn failures_of(t: BatchTally, heap_start: usize, heap_end: usize) -> Seq<
    SoakFailure,
> {
    let a = if t.taps == 0 || 100 * t.correct < 99 * t.taps {
        seq![SoakFailure::Accuracy]
    } else {
        Seq::empty()
    };
    let b = if t.sustained_false_accepts != 0 {
        a.push(SoakFailure::SustainedAccepted(t.sustained_false_accepts))
    } else {
        a
    };
    let c = if heap_drifts(heap_start, heap_end) {
        b.push(SoakFailure::HeapGrowth)
    } else {
        b
    };
    let d = if t.foreign_false_accepts != 0 {
        c.push(SoakFailure::ForeignAccepted(t.foreign_false_accepts))
    } else {
        c
    };
    if t.foreign_transients == 0 {
        d.push(SoakFailure::ForeignNotExercised)
    } else {
        d
    }
}

/// Hold a run against what it must reach.
pub fn failures(t: &BatchTally, heap_start: usize, heap_end: usize) -> (f: Vec<SoakFailure>)
    ensures
        f@ == failures_of(*t, heap_start, heap_end),
{
    let mut f: Vec<SoakFailure> = Vec::new();
    if t.accuracy_is_poor() {
        f.push(SoakFailure::Accuracy);
        proof {
            assert(f@ =~= seq![SoakFailure::Accuracy]);
        }
    }
    if t.sustained_false_accepts != 0 {
        f.push(SoakFailure::SustainedAccepted(t.sustained_false_accepts));
    }
    let change: usize = if heap_end >= heap_start {
        heap_end - heap_start
    } else {
        heap_start - heap_end
    };
    if heap_start > 0 && 100 * (change as u128) >= 5 * (heap_start as u128) {
        f.push(SoakFailure::HeapGrowth);
    }
    if t.foreign_false_accepts != 0 {
        f.push(SoakFailure::ForeignAccepted(t.foreign_false_accepts));
    }
    if t.foreign_transients == 0 {
        f.push(SoakFailure::ForeignNotExercised);
    }
    f
}

/// `i` is where the flag first stands among the arguments.
pub open spec fn first_flag(args: Seq<String>, flag: Seq<char>, i: int) -> bool {
    &&& 0 <= i < args.len()
    &&& args[i]@ == flag
    &&& forall|j: int| 0 <= j < i ==> (#[trigger] args[j])@ != flag
}

/// The number given with a flag: `Ok(None)` without the flag, and an error where
/// no number follows it.
pub open spec fn flag_number(args: Seq<String>, flag: Seq<char>, r: Result<Option<u64>, ()>) -> bool {
    if exists|i: int| first_flag(args, flag, i) {
        exists|i: int| #[trigger]
            first_flag(args, flag, i) && r == if i + 1 < args.len() && number(args[i + 1]@) is Some {
                Ok::<Option<u64>, ()>(number(args[i + 1]@))
            } else {
                Err(())
            }
    } else {
        r == Ok::<Option<u64>, ()>(None)
    }
}

fn read_flag(args: &[String], flag: &str) -> (r: Result<Option<u64>, ()>)
    ensures
        flag_number(args@, flag@, r),
{
    let mut i: usize = 0;
    let wanted: String = flag.to_owned();
    while i < args.len()
        invariant
            i <= args@.len(),
            wanted@ == flag@,
            forall|j: int| 0 <= j < i ==> (#[trigger] args@[j])@ != flag@,
        decreases args@.len() - i,
    {
        if args[i] == wanted {
            proof {
                assert(first_flag(args@, flag@, i as int));
            }
            if args.len() - i > 1 {
                return match parse_number(&args[i + 1]) {
                    Some(n) => Ok(Some(n)),
                    None => Err(()),
                };
            }
            return Err(());
        }
        i += 1;
    }
    proof {
        assert forall|i: int| !first_flag(args@, flag@, i) by {}
    }
    Ok(None)
}

/// Seconds to run for: the number after `--duration`, 30 without it, and an
/// error where no number follows.
pub fn parse_duration_secs(args: &[String]) -> (r: Result<u64, ()>)
    ensures
        exists|n: Result<Option<u64>, ()>| #[trigger]
            flag_number(args@, "--duration"@, n) && r == match n {
                Ok(Some(secs)) => Ok(secs),
                Ok(None) => Ok(30u64),
                Err(()) => Err(()),
            },
{
    match read_flag(args, "--duration") {
        Ok(Some(secs)) => Ok(secs),
        Ok(None) => Ok(30),
        Err(()) => Err(()),
    }
}

/// Zones to play: the number after `--zones`, 4 without it, and an error where
/// what follows is not a number of zones that a desk can have.
pub fn parse_zone_count(args: &[String]) -> (r: Result<u64, ()>)
    ensures
        exists|n: Result<Option<u64>, ()>| #[trigger]
            flag_number(args@, "--zones"@, n) && r == match n {
                Ok(Some(zones)) => if supported_zone_count(zones) {
                    Ok(zones)
                } else {
                    Err(())
                },
                Ok(None) => Ok(4u64),
                Err(()) => Err(()),
            },
{
    match read_flag(args, "--zones") {
        Ok(Some(n)) => if n == 2 || n == 4 || n == 6 || n == 8 {
            Ok(n)
        } else {
            Err(())
        },
        Ok(None) => Ok(4),
        Err(()) => Err(()),
    }
}

/// An even number of zones can be played, from two to eight.
pub proof fn even_numbers_of_zones_can_be_played(n: u64)
    ensures
        supported_zone_count(n) <==> 2 <= n <= 8 && n % 2 == 0,
{
}

/// One step of the generator multiplies and adds, and keeps the lowest 64 bits.
pub proof fn steps_keep_the_lowest_bits(g: Lcg)
    ensures
        0 <= g.next_state() < 0x1_0000_0000_0000_0000,
        (g.state * 6364136223846793005 + 1442695040888963407 - g.next_state())
            % 0x1_0000_0000_0000_0000 == 0,
{
    let x = g.state * 6364136223846793005 + 1442695040888963407;
    assert(g.next_state() == x % 0x1_0000_0000_0000_0000);
}

/// Every tap becomes one thing: correct where it was accepted for its own zone,
/// misclassified where it was accepted for another or for none, and rejected where
/// it was not accepted or not heard.
pub proof fn every_tap_becomes_one_thing(
    zones: Seq<ZoneId>,
    outcomes: Seq<Option<Classification>>,
    zone: ZoneId,
    outcome: Option<Classification>,
    kind: TapResult,
)
    requires
        zones.len() == outcomes.len(),
    ensures
        tap_count(Seq::empty(), Seq::empty(), kind) == 0,
        tap_count(zones.push(zone), outcomes.push(outcome), kind) == tap_count(
            zones,
            outcomes,
            kind,
        ) + match kind {
            TapResult::Correct => if outcome matches Some(c) && c.accepted && c.zone_id == Some(
                zone,
            ) {
                1int
            } else {
                0
            },
            TapResult::Misclassified => if outcome matches Some(c) && c.accepted && c.zone_id
                != Some(zone) {
                1int
            } else {
                0
            },
            TapResult::Rejected => if outcome matches Some(c) && c.accepted {
                0int
            } else {
                1
            },
        },
{
    assert(zones.push(zone).drop_last() =~= zones);
    assert(outcomes.push(outcome).drop_last() =~= outcomes);
}

/// The outcomes of a batch are those of all its sounds, and the accepted ones among
/// them are counted, each once.
pub proof fn accepted_sounds_are_counted_once(
    groups: Seq<Vec<Classification>>,
    group: Vec<Classification>,
    s: Seq<Classification>,
)
    ensures
        flat(Seq::empty()).len() == 0,
        flat(groups.push(group)) == flat(groups) + group@,
        accepted_count(s) == s.filter(|c: Classification| c.accepted).len(),
    decreases s.len(),
{
    assert(groups.push(group).drop_last() =~= groups);
    reveal(Seq::filter);
    if s.len() > 0 {
        accepted_sounds_are_counted_once(groups, group, s.drop_last());
    }
}

/// Tallies add up count by count.
pub proof fn tallies_add_up(a: BatchTally, b: BatchTally)
    requires
        a.fits(b),
    ensures
        a.plus(b).taps == a.taps + b.taps,
        a.plus(b).correct == a.correct + b.correct,
        a.plus(b).rejected_taps == a.rejected_taps + b.rejected_taps,
        a.plus(b).misclassified == a.misclassified + b.misclassified,
        a.plus(b).sustained == a.sustained + b.sustained,
        a.plus(b).sustained_false_accepts == a.sustained_false_accepts + b.sustained_false_accepts,
        a.plus(b).foreign_transients == a.foreign_transients + b.foreign_transients,
        a.plus(b).foreign_false_accepts == a.foreign_false_accepts + b.foreign_false_accepts,
{
}

/// A run passes exactly where 99 in a hundred taps were correct, no sustained and
/// no foreign sound was accepted, foreign sounds were played, and the heap stayed
/// within five percent. Each failure is reported where it holds.
pub proof fn runs_pass_without_failures(
    t: &BatchTally,
    heap_start: usize,
    heap_end: usize,
    f: Vec<SoakFailure>,
)
    requires
        call_ensures(failures, (t, heap_start, heap_end), f),
    ensures
        f@.contains(SoakFailure::Accuracy) <==> t.taps == 0 || 100 * t.correct < 99 * t.taps,
        f@.contains(SoakFailure::SustainedAccepted(t.sustained_false_accepts))
            <==> t.sustained_false_accepts > 0,
        f@.contains(SoakFailure::ForeignAccepted(t.foreign_false_accepts))
            <==> t.foreign_false_accepts > 0,
        f@.contains(SoakFailure::ForeignNotExercised) <==> t.foreign_transients == 0,
        f@.contains(SoakFailure::HeapGrowth) <==> heap_start > 0 && !(95 * heap_start < 100
            * heap_end < 105 * heap_start),
        f@.len() == 0 <==> t.taps > 0 && 100 * t.correct >= 99 * t.taps
            && t.sustained_false_accepts == 0 && t.foreign_false_accepts == 0
            && t.foreign_transients > 0 && (heap_start == 0 || 95 * heap_start < 100 * heap_end
            < 105 * heap_start),
{
    let e = Seq::<SoakFailure>::empty();
    let a = if t.taps == 0 || 100 * t.correct < 99 * t.taps {
        seq![SoakFailure::Accuracy]
    } else {
        e
    };
    let b = if t.sustained_false_accepts != 0 {
        a.push(SoakFailure::SustainedAccepted(t.sustained_false_accepts))
    } else {
        a
    };
    let c = if heap_drifts(heap_start, heap_end) {
        b.push(SoakFailure::HeapGrowth)
    } else {
        b
    };
    let d = if t.foreign_false_accepts != 0 {
        c.push(SoakFailure::ForeignAccepted(t.foreign_false_accepts))
    } else {
        c
    };
    if a.len() > 0 {
        assert(f@[0] == SoakFailure::Accuracy);
    }
    if b.len() > a.len() {
        assert(f@[a.len() as int] == SoakFailure::SustainedAccepted(t.sustained_false_accepts));
    }
    if c.len() > b.len() {
        assert(f@[b.len() as int] == SoakFailure::HeapGrowth);
    }
    if d.len() > c.len() {
        assert(f@[c.len() as int] == SoakFailure::ForeignAccepted(t.foreign_false_accepts));
    }
    if t.foreign_transients == 0 {
        assert(f@[d.len() as int] == SoakFailure::ForeignNotExercised);
    }
    assert(heap_drifts(heap_start, heap_end) <==> heap_start > 0 && !(95 * heap_start < 100
        * heap_end < 105 * heap_start));
}

proof fn flags_are_read_once(args: Seq<String>, flag: Seq<char>, n: Result<Option<u64>, ()>, k: int)
    requires
        flag_number(args, flag, n),
        0 <= k < args.len(),
        args[k]@ == flag,
        forall|j: int| 0 <= j < k ==> (#[trigger] args[j])@ != flag,
    ensures
        k + 1 < args.len() && number(args[k + 1]@) is Some ==> n == Ok::<Option<u64>, ()>(
            number(args[k + 1]@),
        ),
        !(k + 1 < args.len() && number(args[k + 1]@) is Some) ==> n is Err,
{
    assert(first_flag(args, flag, k));
    let i = choose|i: int| #[trigger]
        first_flag(args, flag, i) && n == if i + 1 < args.len() && number(args[i + 1]@) is Some {
            Ok::<Option<u64>, ()>(number(args[i + 1]@))
        } else {
            Err(())
        };
    if i < k {
        assert(args[i]@ != flag);
    } else if k < i {
        assert(args[k]@ != flag);
    }
}

/// The number behind the first `--duration` is how many seconds a run takes, and the
/// one behind the first `--zones` how many zones it plays; without the flag it is 30
/// seconds and four zones. A flag without a number behind it is an error, and so is
/// a number of zones that a desk cannot have.
pub proof fn flags_take_the_number_behind_them(
    args: &[String],
    secs: Result<u64, ()>,
    zones: Result<u64, ()>,
    k: int,
)
    requires
        call_ensures(parse_duration_secs, (args,), secs),
        call_ensures(parse_zone_count, (args,), zones),
    ensures
        (forall|j: int| 0 <= j < args@.len() ==> (#[trigger] args@[j])@ != "--duration"@) ==> secs
            == Ok::<u64, ()>(30),
        (forall|j: int| 0 <= j < args@.len() ==> (#[trigger] args@[j])@ != "--zones"@) ==> zones
            == Ok::<u64, ()>(4),
        0 <= k < args@.len() && args@[k]@ == "--duration"@ && (forall|j: int|
            0 <= j < k ==> (#[trigger] args@[j])@ != "--duration"@) ==> if k + 1 < args@.len()
            && number(args@[k + 1]@) is Some {
            secs matches Ok(n) && number(args@[k + 1]@) == Some(n)
        } else {
            secs is Err
        },
        0 <= k < args@.len() && args@[k]@ == "--zones"@ && (forall|j: int|
            0 <= j < k ==> (#[trigger] args@[j])@ != "--zones"@) ==> if k + 1 < args@.len() && (
        number(args@[k + 1]@) matches Some(n) && 2 <= n <= 8 && n % 2 == 0) {
            zones matches Ok(n) && number(args@[k + 1]@) == Some(n)
        } else {
            zones is Err
        },
{
    let d = choose|n: Result<Option<u64>, ()>| #[trigger]
        flag_number(args@, "--duration"@, n) && secs == match n {
            Ok(Some(secs)) => Ok(secs),
            Ok(None) => Ok(30u64),
            Err(()) => Err(()),
        };
    let z = choose|n: Result<Option<u64>, ()>| #[trigger]
        flag_number(args@, "--zones"@, n) && zones == match n {
            Ok(Some(zones)) => if supported_zone_count(zones) {
                Ok(zones)
            } else {
                Err(())
            },
            Ok(None) => Ok(4u64),
            Err(()) => Err(()),
        };
    if 0 <= k < args@.len() && args@[k]@ == "--duration"@ && (forall|j: int|
        0 <= j < k ==> (#[trigger] args@[j])@ != "--duration"@) {
        flags_are_read_once(args@, "--duration"@, d, k);
    }
    if 0 <= k < args@.len() && args@[k]@ == "--zones"@ && (forall|j: int|
        0 <= j < k ==> (#[trigger] args@[j])@ != "--zones"@) {
        flags_are_read_once(args@, "--zones"@, z, k);
    }
}

/// In a balanced tally the taps are all accounted for: those that were correct,
/// rejected and misclassified are together as many as were played, and no more
/// foreign sounds were accepted than were played.
pub proof fn balanced_tallies_account_for_every_tap(t: BatchTally)
    ensures
        t.balanced() <==> t.correct + t.rejected_taps + t.misclassified == t.taps
            && t.foreign_transients >= t.foreign_false_accepts,
{
}

} // verus!
