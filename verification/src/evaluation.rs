//! Held-out evaluation: tallying what the classifier makes of known taps, and
//! the report of a run.

use std::collections::HashMap;

use vstd::prelude::*;

use crate::classifier::Classification;
use crate::ids::{ProfileId, ZoneId};
use crate::profile::{
    json_version, parse_versioned, version_is, versioned, PersistenceError, Timestamp,
};
use crate::single::{
    finite_numbers_stay, finite_only, keep_finite, ranked, ranked_keeps_the_numbers, sort_total,
    Single, ONE, ZERO,
};
use crate::text::{decimal, decimal_text, join, join3};

verus! {

broadcast use vstd::std_specs::hash::group_hash_axioms;

/// Version of a stored report.
pub const EVALUATION_SCHEMA_VERSION: u32 = 1;

/// Taps per zone that a run asks for, unless another number is chosen.
pub const DEFAULT_EVAL_TAPS_PER_ZONE: u32 = 15;

/// Buckets of the confidence distribution.
pub const CONFIDENCE_BINS: usize = 10;

/// The sum of the numbers.
pub open spec fn sum(s: Seq<u32>) -> nat
    decreases s.len(),
{
    if s.len() == 0 {
        0
    } else {
        sum(s.drop_last()) + s.last() as nat
    }
}

/// The sum of all cells.
pub open spec fn sum_rows(m: Seq<Seq<u32>>) -> nat
    decreases m.len(),
{
    if m.len() == 0 {
        0
    } else {
        sum_rows(m.drop_last()) + sum(m.last())
    }
}

/// The sum of the cells on the diagonal of the first `n` rows.
pub open spec fn diagonal(m: Seq<Seq<u32>>, n: int) -> nat
    decreases n,
{
    if n <= 0 {
        0
    } else {
        diagonal(m, n - 1) + m[n - 1][n - 1] as nat
    }
}

/// Raising one number raises the sum by as much.
pub proof fn sum_of_update(s: Seq<u32>, i: int, x: u32)
    requires
        0 <= i < s.len(),
    ensures
        sum(s.update(i, x)) == sum(s) - s[i] + x,
        s[i] <= sum(s),
    decreases s.len(),
{
    let t = s.update(i, x);
    if i == s.len() - 1 {
        assert(t.drop_last() =~= s.drop_last());
    } else {
        assert(t.drop_last() =~= s.drop_last().update(i, x));
        sum_of_update(s.drop_last(), i, x);
    }
}

/// Changing one row changes the sum of all by the change of its sum.
pub proof fn sum_rows_of_update(m: Seq<Seq<u32>>, i: int, row: Seq<u32>)
    requires
        0 <= i < m.len(),
    ensures
        sum_rows(m.update(i, row)) == sum_rows(m) - sum(m[i]) + sum(row),
        sum(m[i]) <= sum_rows(m),
    decreases m.len(),
{
    let t = m.update(i, row);
    if i == m.len() - 1 {
        assert(t.drop_last() =~= m.drop_last());
    } else {
        assert(t.drop_last() =~= m.drop_last().update(i, row));
        sum_rows_of_update(m.drop_last(), i, row);
    }
}

proof fn sum_of_zeros(s: Seq<u32>)
    requires
        forall|i: int| 0 <= i < s.len() ==> #[trigger] s[i] == 0,
    ensures
        sum(s) == 0,
    decreases s.len(),
{
    if s.len() > 0 {
        sum_of_zeros(s.drop_last());
    }
}

proof fn sum_rows_of_zeros(m: Seq<Seq<u32>>)
    requires
        forall|i: int| 0 <= i < m.len() ==> sum(#[trigger] m[i]) == 0,
    ensures
        sum_rows(m) == 0,
    decreases m.len(),
{
    if m.len() > 0 {
        sum_rows_of_zeros(m.drop_last());
    }
}

fn sum_of(v: &[u32]) -> (n: u32)
    requires
        sum(v@) <= u32::MAX,
    ensures
        n == sum(v@),
{
    let mut n: u32 = 0;
    let mut i: usize = 0;
    while i < v.len()
        invariant
            i <= v@.len(),
            n == sum(v@.take(i as int)),
            sum(v@) <= u32::MAX,
        decreases v@.len() - i,
    {
        proof {
            assert(v@.take(i + 1).drop_last() =~= v@.take(i as int));
            sum_of_prefix(v@, i + 1);
        }
        n += v[i];
        i += 1;
    }
    proof {
        assert(v@.take(i as int) =~= v@);
    }
    n
}

proof fn sum_of_prefix(s: Seq<u32>, n: int)
    requires
        0 <= n <= s.len(),
    ensures
        sum(s.take(n)) <= sum(s),
    decreases s.len() - n,
{
    if n == s.len() {
        assert(s.take(n) =~= s);
    } else {
        sum_of_prefix(s, n + 1);
        assert(s.take(n + 1).drop_last() =~= s.take(n));
    }
}

/// Counts of values in buckets of equal width between `min` and `max`.
#[derive(Clone, Debug)]
pub struct Histogram {
    pub min: Single,
    pub max: Single,
    /// The lowest bucket first.
    pub bins: Vec<u32>,
}

/// The bucket of `n` that a finite value counts in: the first for one at or below
/// the lower end, the last for one at or above the upper end, and otherwise
/// `slot`, or the last where that is past it.
pub open spec fn bucket_of(v: Single, slot: usize, n: int, min: Single, max: Single) -> int {
    if v.at_most(min) {
        0
    } else if max.at_most(v) || slot >= n {
        n - 1
    } else {
        slot as int
    }
}

/// How many of the finite values count in bucket `b` of `n`.
pub open spec fn bucket_count(
    values: Seq<Single>,
    slots: Seq<usize>,
    n: int,
    min: Single,
    max: Single,
    b: int,
) -> nat
    decreases values.len(),
{
    if values.len() == 0 {
        0
    } else {
        bucket_count(values.drop_last(), slots.drop_last(), n, min, max, b)
            + if values.last().finite() && bucket_of(values.last(), slots.last(), n, min, max)
            == b {
            1nat
        } else {
            0nat
        }
    }
}

impl Histogram {
    /// Count values in `bin_count` buckets (at least one). `slots` holds for
    /// each value inside the range the number of the bucket that it falls into;
    /// values outside it count in the end buckets, and values that are not
    /// finite are no observations.
    pub fn from_values(
        values: &[Single],
        slots: &[usize],
        bin_count: usize,
        min: Single,
        max: Single,
    ) -> (h: Histogram)
        requires
            slots@.len() == values@.len(),
            values@.len() <= u32::MAX,
        ensures
            h.min == min,
            h.max == max,
            h.bins@.len() == if bin_count >= 1 {
                bin_count as int
            } else {
                1
            },
            forall|b: int|
                0 <= b < h.bins@.len() ==> (#[trigger] h.bins@[b]) as nat == bucket_count(
                    values@,
                    slots@,
                    h.bins@.len() as int,
                    min,
                    max,
                    b,
                ),
            sum(h.bins@) == finite_only(values@).len(),
    {
        let n: usize = if bin_count >= 1 {
            bin_count
        } else {
            1
        };
        let mut bins: Vec<u32> = Vec::new();
        let mut k: usize = 0;
        while k < n
            invariant
                k <= n,
                bins@.len() == k,
                forall|b: int| 0 <= b < k ==> #[trigger] bins@[b] == 0,
            decreases n - k,
        {
            bins.push(0);
            k += 1;
        }
        proof {
            sum_of_zeros(bins@);
        }
        let mut i: usize = 0;
        while i < values.len()
            invariant
                i <= values@.len(),
                slots@.len() == values@.len(),
                values@.len() <= u32::MAX,
                n >= 1,
                bins@.len() == n,
                forall|b: int|
                    0 <= b < n ==> (#[trigger] bins@[b]) as nat == bucket_count(
                        values@.take(i as int),
                        slots@.take(i as int),
                        n as int,
                        min,
                        max,
                        b,
                    ),
                sum(bins@) == finite_only(values@.take(i as int)).len(),
                sum(bins@) <= i,
            decreases values@.len() - i,
        {
            proof {
                assert(values@.take(i + 1).drop_last() =~= values@.take(i as int));
                assert(slots@.take(i + 1).drop_last() =~= slots@.take(i as int));
            }
            if values[i].is_finite() {
                let slot: usize = if values[i].le(min) {
                    0
                } else if max.le(values[i]) || slots[i] >= n {
                    n - 1
                } else {
                    slots[i]
                };
                proof {
                    sum_of_update(bins@, slot as int, 0);
                    sum_of_update(bins@, slot as int, (bins@[slot as int] + 1) as u32);
                }
                let c: u32 = bins[slot];
                bins[slot] = c + 1;
            }
            i += 1;
        }
        proof {
            assert(values@.take(i as int) =~= values@);
            assert(slots@.take(i as int) =~= slots@);
        }
        Histogram { min, max, bins }
    }

    /// How many observations were counted.
    pub fn total(&self) -> (n: u32)
        requires
            sum(self.bins@) <= u32::MAX,
        ensures
            n == sum(self.bins@),
    {
        sum_of(&self.bins)
    }
}

/// Latencies of a run in milliseconds.
#[derive(Clone, Copy, Debug, PartialEq, Eq, Structural)]
pub struct LatencyStats {
    pub p50: Single,
    pub p95: Single,
    pub p99: Single,
    pub max: Single,
}

/// Position, in `n` sorted values, of the nearest rank for `percent`: the
/// smallest rank that covers that share of the values.
pub open spec fn nearest_rank(percent: int, n: int) -> int {
    (percent * n + 99) / 100 - 1
}

/// The statistics of latencies: percentiles by nearest rank over the finite
/// ones, all zero where there is none.
pub open spec fn latency_stats(samples: Seq<Single>) -> LatencyStats {
    let xs = ranked(finite_only(samples));
    let n = xs.len() as int;
    if n == 0 {
        let zero = Single { bits: ZERO };
        LatencyStats { p50: zero, p95: zero, p99: zero, max: zero }
    } else {
        LatencyStats {
            p50: xs[nearest_rank(50, n)],
            p95: xs[nearest_rank(95, n)],
            p99: xs[nearest_rank(99, n)],
            max: xs[n - 1],
        }
    }
}

fn pick(xs: &Vec<Single>, percent: usize) -> (x: Single)
    requires
        xs@.len() > 0,
        1 <= percent <= 100,
    ensures
        x == xs@[nearest_rank(percent as int, xs@.len() as int)],
{
    let n: u128 = xs.len() as u128;
    proof {
        assert(percent as int * n as int <= 100 * usize::MAX) by (nonlinear_arith)
            requires
                1 <= percent <= 100,
                1 <= n <= usize::MAX,
        ;
    }
    let scaled: u128 = percent as u128 * n;
    let rank: u128 = (scaled + 99) / 100;
    proof {
        assert(scaled == percent as int * n as int);
        assert(1 <= rank <= n) by (nonlinear_arith)
            requires
                scaled == percent as int * n as int,
                rank == (scaled + 99) / 100,
                1 <= percent <= 100,
                n >= 1,
        ;
    }
    xs[(rank - 1) as usize]
}

impl LatencyStats {
    /// Percentiles of latencies, in any order.
    pub fn from_millis(samples: &[Single]) -> (s: LatencyStats)
        ensures
            s == latency_stats(samples@),
    {
        let finite = keep_finite(samples);
        let xs = sort_total(&finite);
        if xs.len() == 0 {
            let zero = Single { bits: ZERO };
            return LatencyStats { p50: zero, p95: zero, p99: zero, max: zero };
        }
        LatencyStats {
            p50: pick(&xs, 50),
            p95: pick(&xs, 95),
            p99: pick(&xs, 99),
            max: xs[xs.len() - 1],
        }
    }
}

/// The percentiles rise: half, then 95, then 99 in a hundred, then all.
pub proof fn percentiles_are_ordered(samples: Seq<Single>)
    ensures
        latency_stats(samples).p50.total_rank() <= latency_stats(samples).p95.total_rank(),
        latency_stats(samples).p95.total_rank() <= latency_stats(samples).p99.total_rank(),
        latency_stats(samples).p99.total_rank() <= latency_stats(samples).max.total_rank(),
{
    let xs = ranked(finite_only(samples));
    let n = xs.len() as int;
    ranked_keeps_the_numbers(finite_only(samples));
    if n > 0 {
        assert(0 <= nearest_rank(50, n) <= nearest_rank(95, n) <= nearest_rank(99, n) < n);
    }
}

/// The report of one run. Rows of the confusion matrix are the zones that were
/// asked for, columns the zones that were recognised, both in the profile's
/// order; rejected taps stand in no column.
#[derive(Clone, Debug)]
pub struct EvaluationReport {
    pub schema_version: u32,
    pub profile_id: ProfileId,
    pub run_at: Timestamp,
    pub taps_per_zone: u32,
    /// By the value of the zone's identity.
    pub per_zone_accuracy: HashMap<u128, Single>,
    pub confusion_matrix: Vec<Vec<u32>>,
    pub rejected_tap_count: u32,
    pub confidence_distribution: Histogram,
    pub latency_ms: LatencyStats,
    pub overall_accuracy: Single,
}

/// The rows of a matrix.
pub open spec fn cells(m: Seq<Vec<u32>>) -> Seq<Seq<u32>> {
    Seq::new(m.len(), |i: int| m[i]@)
}

/// Every row is as long as there are rows.
pub open spec fn square(m: Seq<Seq<u32>>) -> bool {
    forall|i: int| 0 <= i < m.len() ==> (#[trigger] m[i]).len() == m.len()
}

/// Row `i` is the first of the wrong length.
pub open spec fn first_ragged_row(m: Seq<Seq<u32>>, i: int) -> bool {
    &&& 0 <= i < m.len()
    &&& m[i].len() != m.len()
    &&& forall|j: int| 0 <= j < i ==> (#[trigger] m[j]).len() == m.len()
}

pub open spec fn ragged_text(row: nat, have: nat, n: nat) -> Seq<char> {
    "confusion_matrix row "@ + decimal(row) + " has "@ + decimal(have) + " cells, expected "@
        + decimal(n) + " (the matrix must be square)"@
}

pub open spec fn zone_count_text(have: nat, n: nat) -> Seq<char> {
    "per_zone_accuracy has "@ + decimal(have) + " entries but the confusion matrix is "@ + decimal(
        n,
    ) + "x"@ + decimal(n)
}

impl EvaluationReport {
    /// The matrix is square and there is one accuracy per row.
    pub open spec fn valid(&self) -> bool {
        square(cells(self.confusion_matrix@)) && self.per_zone_accuracy@.len()
            == self.confusion_matrix@.len()
    }

    /// `reason` is why the report is not valid.
    pub open spec fn invalid_because(&self, reason: Seq<char>) -> bool {
        let m = cells(self.confusion_matrix@);
        if !square(m) {
            exists|i: int| #[trigger]
                first_ragged_row(m, i) && reason == ragged_text(i as nat, m[i].len(), m.len())
        } else {
            self.per_zone_accuracy@.len() != m.len() && reason == zone_count_text(
                self.per_zone_accuracy@.len(),
                m.len(),
            )
        }
    }

    /// Check that the parts of the report agree. The error says what is wrong.
    pub fn validate(&self) -> (r: Result<(), String>)
        ensures
            r is Ok <==> self.valid(),
            r matches Err(reason) ==> self.invalid_because(reason@),
    {
        let n: usize = self.confusion_matrix.len();
        let ghost m = cells(self.confusion_matrix@);
        let mut i: usize = 0;
        while i < n
            invariant
                n == self.confusion_matrix@.len(),
                m == cells(self.confusion_matrix@),
                i <= n,
                forall|j: int| 0 <= j < i ==> (#[trigger] m[j]).len() == n,
            decreases n - i,
        {
            let have: usize = self.confusion_matrix[i].len();
            proof {
                assert(m[i as int].len() == have);
            }
            if have != n {
                let row_text = decimal_text(i as u64);
                let have_text = decimal_text(have as u64);
                let n_text = decimal_text(n as u64);
                let start = join3("confusion_matrix row ", &row_text, " has ");
                let middle = join3(&start, &have_text, " cells, expected ");
                let whole = join3(&middle, &n_text, " (the matrix must be square)");
                proof {
                    assert(first_ragged_row(m, i as int));
                    assert(whole@ =~= ragged_text(i as nat, have as nat, n as nat));
                }
                return Err(whole);
            }
            i += 1;
        }
        let have: usize = self.per_zone_accuracy.len();
        if have != n {
            let have_text = decimal_text(have as u64);
            let n_text = decimal_text(n as u64);
            let start = join3(
                "per_zone_accuracy has ",
                &have_text,
                " entries but the confusion matrix is ",
            );
            let whole = join3(&join(&start, &n_text), "x", &n_text);
            proof {
                assert(whole@ =~= zone_count_text(have as nat, n as nat));
            }
            return Err(whole);
        }
        Ok(())
    }

    /// Take a report out of JSON text. `decoded` is what the text decodes to
    /// once its version is known to be right; one whose parts do not agree is
    /// refused.
    pub fn from_json(s: &str, file: &str, decoded: Result<EvaluationReport, String>) -> (r: Result<
        EvaluationReport,
        PersistenceError,
    >)
        ensures
            r matches Ok(p) ==> decoded == Ok::<EvaluationReport, String>(p) && p.valid()
                && version_is(json_version(s@), EVALUATION_SCHEMA_VERSION),
            r matches Err(e) ==> match decoded {
                Ok(p) if version_is(json_version(s@), EVALUATION_SCHEMA_VERSION) => !p.valid()
                    && e.invalid_data(file@, |reason: Seq<char>| p.invalid_because(reason)),
                _ => versioned(json_version(s@), EVALUATION_SCHEMA_VERSION, file@, decoded, r),
            },
    {
        match parse_versioned(s, EVALUATION_SCHEMA_VERSION, file, decoded) {
            Ok(report) => match report.validate() {
                Ok(()) => Ok(report),
                Err(reason) => Err(PersistenceError::InvalidData { file: file.to_owned(), reason }),
            },
            Err(e) => Err(e),
        }
    }
}

/// What a run has tallied.
#[verifier::ext_equal]
pub struct Tally {
    pub zone_ids: Seq<ZoneId>,
    pub taps_per_zone: u32,
    /// Recognised taps, by the zone asked for and the zone recognised.
    pub matrix: Seq<Seq<u32>>,
    /// Rejected taps, by the zone asked for.
    pub rejected: Seq<u32>,
    /// Confidences of the recognised taps.
    pub confidences: Seq<Single>,
    /// Latencies of all taps.
    pub latencies: Seq<Single>,
}

/// `i` is where the run looks for this zone: its last position.
pub open spec fn last_position(zone_ids: Seq<ZoneId>, value: u128, i: int) -> bool {
    &&& 0 <= i < zone_ids.len()
    &&& zone_ids[i].value == value
    &&& forall|j: int| i < j < zone_ids.len() ==> (#[trigger] zone_ids[j]).value != value
}

/// The zone is one of the run's.
pub open spec fn in_run(zone_ids: Seq<ZoneId>, value: u128) -> bool {
    exists|i: int| 0 <= i < zone_ids.len() && (#[trigger] zone_ids[i]).value == value
}

/// The last position of a zone of the run.
pub open spec fn position(zone_ids: Seq<ZoneId>, value: u128) -> int {
    choose|i: int| #[trigger] last_position(zone_ids, value, i)
}

/// A zone of the run has exactly one last position.
pub proof fn positions_exist(zone_ids: Seq<ZoneId>, value: u128)
    requires
        in_run(zone_ids, value),
    ensures
        last_position(zone_ids, value, position(zone_ids, value)),
        forall|i: int| #[trigger]
            last_position(zone_ids, value, i) ==> i == position(zone_ids, value),
    decreases zone_ids.len(),
{
    let n = (zone_ids.len() - 1) as int;
    if zone_ids[n].value == value {
        assert(last_position(zone_ids, value, n));
    } else {
        let rest = zone_ids.drop_last();
        let i = choose|i: int| 0 <= i < zone_ids.len() && (#[trigger] zone_ids[i]).value == value;
        assert(rest[i].value == value);
        positions_exist(rest, value);
        let k = position(rest, value);
        assert(rest[k].value == value);
        assert(last_position(zone_ids, value, k)) by {
            assert forall|j: int| k < j < zone_ids.len() implies (
            #[trigger] zone_ids[j]).value != value by {
                if j < n {
                    assert(rest[j].value != value);
                }
            }
        }
    }
    let p = position(zone_ids, value);
    assert forall|i: int| #[trigger] last_position(zone_ids, value, i) implies i == p by {
        if i < p {
            assert(zone_ids[p].value != value);
        } else if p < i {
            assert(zone_ids[i].value != value);
        }
    }
}

impl Tally {
    /// The tally of a run that has not begun.
    pub open spec fn fresh(zone_ids: Seq<ZoneId>, taps_per_zone: u32) -> Tally {
        Tally {
            zone_ids,
            taps_per_zone,
            matrix: Seq::new(zone_ids.len(), |i: int| Seq::new(zone_ids.len(), |j: int| 0u32)),
            rejected: Seq::new(zone_ids.len(), |i: int| 0u32),
            confidences: Seq::empty(),
            latencies: Seq::empty(),
        }
    }

    /// The tables have one row per zone, every tap stands in exactly one place,
    /// and there are not too many taps to count.
    pub open spec fn wf(self) -> bool {
        &&& self.matrix.len() == self.zone_ids.len()
        &&& square(self.matrix)
        &&& self.rejected.len() == self.zone_ids.len()
        &&& sum_rows(self.matrix) + sum(self.rejected) == self.latencies.len()
        &&& self.confidences.len() == sum_rows(self.matrix)
        &&& self.latencies.len() <= u32::MAX
    }

    /// Taps that zone `i` was asked for.
    pub open spec fn presented(self, i: int) -> nat {
        sum(self.matrix[i]) + self.rejected[i] as nat
    }

    /// The tally with one more tap: in the matrix where a zone of the run was
    /// recognised, and among the rejected otherwise.
    pub open spec fn with_tap(
        self,
        actual: ZoneId,
        predicted: Option<ZoneId>,
        confidence: Single,
        latency_ms: Single,
    ) -> Tally {
        let a = position(self.zone_ids, actual.value);
        let counted = Tally { latencies: self.latencies.push(latency_ms), ..self };
        match predicted {
            Some(z) if in_run(self.zone_ids, z.value) => {
                let p = position(self.zone_ids, z.value);
                Tally {
                    matrix: self.matrix.update(
                        a,
                        self.matrix[a].update(p, (self.matrix[a][p] + 1) as u32),
                    ),
                    confidences: self.confidences.push(confidence),
                    ..counted
                }
            },
            _ => Tally {
                rejected: self.rejected.update(a, (self.rejected[a] + 1) as u32),
                ..counted
            },
        }
    }
}

/// Recording a tap keeps the tally in order: every tap stands in exactly one
/// place.
pub proof fn every_tap_is_counted_once(
    t: Tally,
    actual: ZoneId,
    predicted: Option<ZoneId>,
    confidence: Single,
    latency_ms: Single,
)
    requires
        t.wf(),
        in_run(t.zone_ids, actual.value),
        t.latencies.len() < u32::MAX,
    ensures
        t.with_tap(actual, predicted, confidence, latency_ms).wf(),
        t.with_tap(actual, predicted, confidence, latency_ms).presented(
            position(t.zone_ids, actual.value),
        ) == t.presented(position(t.zone_ids, actual.value)) + 1,
        forall|i: int|
            0 <= i < t.zone_ids.len() && i != position(t.zone_ids, actual.value)
                ==> #[trigger] t.with_tap(actual, predicted, confidence, latency_ms).presented(i)
                == t.presented(i),
{
    let a = position(t.zone_ids, actual.value);
    positions_exist(t.zone_ids, actual.value);
    let next = t.with_tap(actual, predicted, confidence, latency_ms);
    assert(t.matrix[a].len() == t.matrix.len());
    if predicted is Some && in_run(t.zone_ids, predicted->0.value) {
        let p = position(t.zone_ids, predicted->0.value);
        positions_exist(t.zone_ids, predicted->0.value);
        sum_of_update(t.matrix[a], p, 0);
        let row = t.matrix[a].update(p, (t.matrix[a][p] + 1) as u32);
        sum_rows_of_update(t.matrix, a, row);
        sum_of_update(t.matrix[a], p, (t.matrix[a][p] + 1) as u32);
    } else {
        sum_of_update(t.rejected, a, 0);
        sum_of_update(t.rejected, a, (t.rejected[a] + 1) as u32);
    }
    assert forall|i: int| 0 <= i < next.matrix.len() implies (#[trigger] next.matrix[i]).len()
        == next.matrix.len() by {
        assert(t.matrix[i].len() == t.matrix.len());
    }
}

/// The tally of a run that has not begun is in order and counts nothing.
pub proof fn fresh_tallies_are_in_order(zone_ids: Seq<ZoneId>, taps_per_zone: u32, zone: int)
    requires
        0 <= zone < zone_ids.len(),
    ensures
        Tally::fresh(zone_ids, taps_per_zone).wf(),
        Tally::fresh(zone_ids, taps_per_zone).presented(zone) == 0,
{
    let t = Tally::fresh(zone_ids, taps_per_zone);
    let zeros = Seq::new(zone_ids.len(), |j: int| 0u32);
    sum_of_zeros(zeros);
    assert forall|i: int| 0 <= i < t.matrix.len() implies sum(#[trigger] t.matrix[i]) == 0 by {
        assert(t.matrix[i] =~= zeros);
    }
    sum_rows_of_zeros(t.matrix);
    sum_of_zeros(t.rejected);
}

/// Tallies a run tap by tap.
#[derive(Clone, Debug)]
pub struct EvaluationAccumulator {
    zone_ids: Vec<ZoneId>,
    index: HashMap<u128, usize>,
    taps_per_zone: u32,
    matrix: Vec<Vec<u32>>,
    rejected_per_zone: Vec<u32>,
    confidences: Vec<Single>,
    latencies_ms: Vec<Single>,
}

impl View for EvaluationAccumulator {
    type V = Tally;

    closed spec fn view(&self) -> Tally {
        Tally {
            zone_ids: self.zone_ids@,
            taps_per_zone: self.taps_per_zone,
            matrix: cells(self.matrix@),
            rejected: self.rejected_per_zone@,
            confidences: self.confidences@,
            latencies: self.latencies_ms@,
        }
    }
}

/// The index holds the last position of every zone of the run.
spec fn indexed(index: Map<u128, usize>, zone_ids: Seq<ZoneId>) -> bool {
    forall|v: u128|
        if #[trigger] index.contains_key(v) {
            last_position(zone_ids, v, index[v] as int)
        } else {
            !in_run(zone_ids, v)
        }
}

impl EvaluationAccumulator {
    /// The tally is in order and zones are found where they stand.
    pub closed spec fn wf(&self) -> bool {
        self@.wf() && indexed(self.index@, self.zone_ids@)
    }

    /// What callers may rely on.
    pub proof fn tally_is_in_order(&self)
        requires
            self.wf(),
        ensures
            self@.wf(),
    {
    }

    /// Start a run over these zones.
    pub fn new(zone_ids: Vec<ZoneId>, taps_per_zone: u32) -> (a: EvaluationAccumulator)
        ensures
            a.wf(),
            a@ == Tally::fresh(zone_ids@, taps_per_zone),
    {
        let n: usize = zone_ids.len();
        let mut index: HashMap<u128, usize> = HashMap::new();
        let mut matrix: Vec<Vec<u32>> = Vec::new();
        let mut rejected: Vec<u32> = Vec::new();
        let mut i: usize = 0;
        while i < n
            invariant
                n == zone_ids@.len(),
                i <= n,
                indexed(index@, zone_ids@.take(i as int)),
                matrix@.len() == i,
                forall|r: int|
                    0 <= r < i ==> (#[trigger] matrix@[r])@ == Seq::new(n as nat, |j: int| 0u32),
                rejected@ == Seq::new(i as nat, |j: int| 0u32),
            decreases n - i,
        {
            let mut row: Vec<u32> = Vec::new();
            let mut c: usize = 0;
            while c < n
                invariant
                    c <= n,
                    row@ == Seq::new(c as nat, |j: int| 0u32),
                decreases n - c,
            {
                row.push(0);
                c += 1;
                proof {
                    assert(row@ =~= Seq::new(c as nat, |j: int| 0u32));
                }
            }
            matrix.push(row);
            rejected.push(0);
            let zone: ZoneId = zone_ids[i];
            let ghost before = index@;
            index.insert(zone.value, i);
            proof {
                let old_ids = zone_ids@.take(i as int);
                let new_ids = zone_ids@.take(i + 1);
                assert(new_ids =~= old_ids.push(zone));
                assert(rejected@ =~= Seq::new((i + 1) as nat, |j: int| 0u32));
                assert forall|v: u128|
                    if #[trigger] index@.contains_key(v) {
                        last_position(new_ids, v, index@[v] as int)
                    } else {
                        !in_run(new_ids, v)
                    } by {
                    if v == zone.value {
                        assert(new_ids[i as int].value == v);
                        assert(last_position(new_ids, v, i as int));
                    } else if before.contains_key(v) {
                        let k = before[v] as int;
                        assert(last_position(old_ids, v, k));
                        assert(new_ids[k] == old_ids[k]);
                        assert forall|j: int| k < j < new_ids.len() implies (
                        #[trigger] new_ids[j]).value != v by {
                            if j < i {
                                assert(old_ids[j].value != v);
                            }
                        }
                    } else {
                        assert(!in_run(old_ids, v));
                        assert forall|j: int| 0 <= j < new_ids.len() implies (
                        #[trigger] new_ids[j]).value != v by {
                            if j < i {
                                assert(old_ids[j].value != v);
                            }
                        }
                    }
                }
            }
            i += 1;
        }
        let a = EvaluationAccumulator {
            zone_ids,
            index,
            taps_per_zone,
            matrix,
            rejected_per_zone: rejected,
            confidences: Vec::new(),
            latencies_ms: Vec::new(),
        };
        proof {
            let zeros = Seq::new(n as nat, |j: int| 0u32);
            assert(zone_ids@.take(n as int) =~= zone_ids@);
            assert(a@.matrix =~= Seq::new(n as nat, |i: int| zeros));
            assert(a@.matrix =~= Seq::new(n as nat, |i: int| Seq::new(n as nat, |j: int| 0u32)));
            sum_of_zeros(zeros);
            sum_rows_of_zeros(a@.matrix);
        }
        a
    }

    /// The latencies of the taps so far.
    pub fn latencies_ms(&self) -> (r: &Vec<Single>)
        ensures
            r@ == self@.latencies,
    {
        &self.latencies_ms
    }

    /// The confidences of the recognised taps so far.
    pub fn confidences(&self) -> (r: &Vec<Single>)
        ensures
            r@ == self@.confidences,
    {
        &self.confidences
    }

    /// Tally one tap: the zone that was asked for, the zone that was recognised
    /// (`None` where the tap was rejected), and the tap's latency. A recognised
    /// zone that is not of this run counts as a rejection.
    pub fn record(
        &mut self,
        actual: ZoneId,
        predicted: Option<ZoneId>,
        confidence: Single,
        latency_ms: Single,
    )
        requires
            old(self).wf(),
            in_run(old(self)@.zone_ids, actual.value),
            old(self)@.latencies.len() < u32::MAX,
        ensures
            final(self).wf(),
            final(self)@ == old(self)@.with_tap(actual, predicted, confidence, latency_ms),
    {
        let ghost before = self@;
        proof {
            positions_exist(before.zone_ids, actual.value);
            every_tap_is_counted_once(before, actual, predicted, confidence, latency_ms);
        }
        let a: usize = match self.index.get(&actual.value) {
            Some(i) => *i,
            None => {
                proof {
                    assert(!self.index@.contains_key(actual.value));
                }
                return ;
            },
        };
        proof {
            assert(last_position(before.zone_ids, actual.value, a as int));
            assert(before.matrix[a as int].len() == before.matrix.len());
            sum_rows_of_update(before.matrix, a as int, Seq::empty());
        }
        self.latencies_ms.push(latency_ms);
        let hit: Option<usize> = match predicted {
            Some(z) => match self.index.get(&z.value) {
                Some(i) => Some(*i),
                None => None,
            },
            None => None,
        };
        match hit {
            Some(p) => {
                proof {
                    positions_exist(before.zone_ids, predicted->0.value);
                    sum_of_update(before.matrix[a as int], p as int, 0);
                }
                let cell: u32 = self.matrix[a][p];
                self.matrix[a][p] = cell + 1;
                self.confidences.push(confidence);
            },
            None => {
                proof {
                    sum_of_update(before.rejected, a as int, 0);
                    if predicted is Some {
                        assert(!self.index@.contains_key(predicted->0.value));
                    }
                }
                let count: u32 = self.rejected_per_zone[a];
                self.rejected_per_zone[a] = count + 1;
            },
        }
        proof {
            let next = before.with_tap(actual, predicted, confidence, latency_ms);
            assert forall|i: int| 0 <= i < next.matrix.len() implies #[trigger] self@.matrix[i]
                == next.matrix[i] by {
                assert(self@.matrix[i] =~= next.matrix[i]);
            }
            assert(self@.matrix =~= next.matrix);
            assert(self@ =~= next);
        }
    }

    /// Tally one tap from the classifier's outcome. A tap that did not pass the
    /// threshold is a rejection, whatever zone it names.
    pub fn record_classification(
        &mut self,
        actual: ZoneId,
        outcome: Classification,
        latency_ms: Single,
    )
        requires
            old(self).wf(),
            in_run(old(self)@.zone_ids, actual.value),
            old(self)@.latencies.len() < u32::MAX,
        ensures
            final(self).wf(),
            final(self)@ == old(self)@.with_tap(
                actual,
                if outcome.accepted {
                    outcome.zone_id
                } else {
                    None
                },
                outcome.confidence,
                latency_ms,
            ),
    {
        let predicted: Option<ZoneId> = if outcome.accepted {
            outcome.zone_id
        } else {
            None
        };
        self.record(actual, predicted, outcome.confidence, latency_ms);
    }

    fn presented(&self, i: usize) -> (n: u32)
        requires
            self.wf(),
            i < self@.zone_ids.len(),
        ensures
            n == self@.presented(i as int),
    {
        proof {
            presented_is_bounded(self@, i as int);
            assert(self@.matrix[i as int] == self.matrix@[i as int]@);
        }
        sum_of(&self.matrix[i]) + self.rejected_per_zone[i]
    }

    /// The report of the run. `slots` holds for each recognised tap the bucket
    /// that its confidence falls into, and `divide` gives the quotient of two
    /// counts.
    pub fn finish<Q: Fn(u32, u32) -> Single>(
        &self,
        profile_id: ProfileId,
        run_at: Timestamp,
        slots: &[usize],
        divide: Q,
    ) -> (r: EvaluationReport)
        requires
            self.wf(),
            slots@.len() == self@.confidences.len(),
            forall|a: u32, b: u32| b > 0 ==> #[trigger] call_requires(divide, (a, b)),
        ensures
            reported(self@, profile_id, run_at, slots@, divide, r),
    {
        let n: usize = self.zone_ids.len();
        let ghost t = self@;
        let mut accuracy: HashMap<u128, Single> = HashMap::new();
        let mut matrix: Vec<Vec<u32>> = Vec::new();
        let mut correct_total: u32 = 0;
        let mut presented_total: u32 = 0;
        let mut i: usize = 0;
        while i < n
            invariant
                self.wf(),
                t == self@,
                n == t.zone_ids.len(),
                i <= n,
                forall|a: u32, b: u32| b > 0 ==> #[trigger] call_requires(divide, (a, b)),
                cells(matrix@) == t.matrix.take(i as int),
                correct_total == diagonal(t.matrix, i as int),
                presented_total == sum_rows(t.matrix.take(i as int)) + sum(
                    t.rejected.take(i as int),
                ),
                accuracies_of(t, accuracy@, divide, i as int),
            decreases n - i,
        {
            proof {
                assert(t.matrix[i as int] == self.matrix@[i as int]@);
                assert(t.matrix[i as int].len() == t.matrix.len());
                assert(t.matrix.take(i + 1).drop_last() =~= t.matrix.take(i as int));
                assert(t.rejected.take(i + 1).drop_last() =~= t.rejected.take(i as int));
                sum_rows_of_prefix(t.matrix, i + 1);
                sum_of_prefix(t.rejected, i + 1);
                diagonal_is_bounded(t.matrix, i + 1);
            }
            let correct: u32 = self.matrix[i][i];
            let presented: u32 = self.presented(i);
            correct_total += correct;
            presented_total += presented;
            let acc: Single = if presented > 0 {
                divide(correct, presented)
            } else {
                Single { bits: ZERO }
            };
            let ghost before = accuracy@;
            let zone: ZoneId = self.zone_ids[i];
            accuracy.insert(zone.value, acc);
            proof {
                accuracies_extend(t, before, accuracy@, divide, i as int, acc);
            }
            let row = copy_row(&self.matrix[i]);
            matrix.push(row);
            i += 1;
            proof {
                assert(cells(matrix@) =~= t.matrix.take(i as int));
            }
        }
        proof {
            assert(t.matrix.take(n as int) =~= t.matrix);
            assert(t.rejected.take(n as int) =~= t.rejected);
            sum_rows_of_prefix(t.matrix, n as int);
        }
        let overall: Single = if presented_total > 0 {
            divide(correct_total, presented_total)
        } else {
            Single { bits: ZERO }
        };
        EvaluationReport {
            schema_version: EVALUATION_SCHEMA_VERSION,
            profile_id,
            run_at,
            taps_per_zone: self.taps_per_zone,
            per_zone_accuracy: accuracy,
            confusion_matrix: matrix,
            rejected_tap_count: sum_of(&self.rejected_per_zone),
            confidence_distribution: Histogram::from_values(
                &self.confidences,
                slots,
                CONFIDENCE_BINS,
                Single { bits: ZERO },
                Single { bits: ONE },
            ),
            latency_ms: LatencyStats::from_millis(&self.latencies_ms),
            overall_accuracy: overall,
        }
    }
}

/// `acc` is the quotient, or zero where nothing was presented.
pub open spec fn share<Q: Fn(u32, u32) -> Single>(
    divide: Q,
    correct: nat,
    presented: nat,
    acc: Single,
) -> bool {
    if presented > 0 {
        call_ensures(divide, (correct as u32, presented as u32), acc)
    } else {
        acc == (Single { bits: ZERO })
    }
}

/// The map holds, for every zone among the first `n`, the share of its taps that
/// were recognised as its own; of a zone that stands twice, the later one's.
pub open spec fn accuracies_of<Q: Fn(u32, u32) -> Single>(
    t: Tally,
    map: Map<u128, Single>,
    divide: Q,
    n: int,
) -> bool {
    &&& forall|v: u128| #[trigger] map.contains_key(v) <==> in_run(t.zone_ids.take(n), v)
    &&& forall|i: int|
        0 <= i < n && last_position(t.zone_ids.take(n), t.zone_ids[i].value, i) ==> share(
            divide,
            t.matrix[i][i] as nat,
            t.presented(i),
            map[(#[trigger] t.zone_ids[i]).value],
        )
}

/// `r` is the report of a run with this tally.
pub open spec fn reported<Q: Fn(u32, u32) -> Single>(
    t: Tally,
    profile_id: ProfileId,
    run_at: Timestamp,
    slots: Seq<usize>,
    divide: Q,
    r: EvaluationReport,
) -> bool {
    &&& r.schema_version == EVALUATION_SCHEMA_VERSION
    &&& r.profile_id == profile_id
    &&& r.run_at == run_at
    &&& r.taps_per_zone == t.taps_per_zone
    &&& cells(r.confusion_matrix@) == t.matrix
    &&& r.rejected_tap_count == sum(t.rejected)
    &&& accuracies_of(t, r.per_zone_accuracy@, divide, t.zone_ids.len() as int)
    &&& share(
        divide,
        diagonal(t.matrix, t.zone_ids.len() as int),
        t.latencies.len(),
        r.overall_accuracy,
    )
    &&& r.latency_ms == latency_stats(t.latencies)
    &&& r.confidence_distribution.min == (Single { bits: ZERO })
    &&& r.confidence_distribution.max == (Single { bits: ONE })
    &&& r.confidence_distribution.bins@.len() == CONFIDENCE_BINS
    &&& forall|b: int|
        0 <= b < CONFIDENCE_BINS ==> (#[trigger] r.confidence_distribution.bins@[b]) as nat
            == bucket_count(
            t.confidences,
            slots,
            CONFIDENCE_BINS as int,
            Single { bits: ZERO },
            Single { bits: ONE },
            b,
        )
}

fn copy_row(v: &Vec<u32>) -> (out: Vec<u32>)
    ensures
        out@ == v@,
{
    let mut out: Vec<u32> = Vec::new();
    let mut i: usize = 0;
    while i < v.len()
        invariant
            i <= v@.len(),
            out@ == v@.take(i as int),
        decreases v@.len() - i,
    {
        out.push(v[i]);
        i += 1;
        proof {
            assert(out@ =~= v@.take(i as int));
        }
    }
    proof {
        assert(v@.take(i as int) =~= v@);
    }
    out
}

proof fn sum_rows_of_prefix(m: Seq<Seq<u32>>, n: int)
    requires
        0 <= n <= m.len(),
    ensures
        sum_rows(m.take(n)) <= sum_rows(m),
    decreases m.len() - n,
{
    if n == m.len() {
        assert(m.take(n) =~= m);
    } else {
        sum_rows_of_prefix(m, n + 1);
        assert(m.take(n + 1).drop_last() =~= m.take(n));
    }
}

proof fn diagonal_is_bounded(m: Seq<Seq<u32>>, n: int)
    requires
        0 <= n <= m.len(),
        square(m),
    ensures
        diagonal(m, n) <= sum_rows(m.take(n)),
        diagonal(m, n) <= sum_rows(m),
    decreases n,
{
    sum_rows_of_prefix(m, n);
    if n > 0 {
        diagonal_is_bounded(m, n - 1);
        assert(m.take(n).drop_last() =~= m.take(n - 1));
        assert(m[n - 1].len() == m.len());
        sum_of_update(m[n - 1], n - 1, 0);
    }
}

proof fn presented_is_bounded(t: Tally, i: int)
    requires
        t.wf(),
        0 <= i < t.zone_ids.len(),
    ensures
        t.presented(i) <= t.latencies.len(),
        t.matrix[i][i] <= t.presented(i),
{
    sum_rows_of_update(t.matrix, i, Seq::empty());
    sum_of_update(t.rejected, i, 0);
    assert(t.matrix[i].len() == t.matrix.len());
    sum_of_update(t.matrix[i], i, 0);
}

proof fn accuracies_extend<Q: Fn(u32, u32) -> Single>(
    t: Tally,
    before: Map<u128, Single>,
    after: Map<u128, Single>,
    divide: Q,
    n: int,
    acc: Single,
)
    requires
        0 <= n < t.zone_ids.len(),
        accuracies_of(t, before, divide, n),
        after == before.insert(t.zone_ids[n].value, acc),
        share(divide, t.matrix[n][n] as nat, t.presented(n), acc),
    ensures
        accuracies_of(t, after, divide, n + 1),
{
    let old_ids = t.zone_ids.take(n);
    let new_ids = t.zone_ids.take(n + 1);
    let zone = t.zone_ids[n];
    assert(new_ids =~= old_ids.push(zone));
    assert forall|v: u128| #[trigger] after.contains_key(v) <==> in_run(new_ids, v) by {
        if in_run(old_ids, v) {
            let k = choose|k: int| 0 <= k < old_ids.len() && (#[trigger] old_ids[k]).value == v;
            assert(new_ids[k].value == v);
        }
        if v == zone.value {
            assert(new_ids[n].value == v);
        }
        if in_run(new_ids, v) && v != zone.value {
            let k = choose|k: int| 0 <= k < new_ids.len() && (#[trigger] new_ids[k]).value == v;
            assert(old_ids[k].value == v);
        }
        assert(before.contains_key(v) <==> in_run(old_ids, v));
    }
    assert forall|i: int|
        0 <= i < n + 1 && last_position(new_ids, t.zone_ids[i].value, i) implies share(
        divide,
        t.matrix[i][i] as nat,
        t.presented(i),
        after[(#[trigger] t.zone_ids[i]).value],
    ) by {
        if i < n {
            let v = t.zone_ids[i].value;
            assert(new_ids[n].value != v);
            assert(last_position(old_ids, v, i)) by {
                assert forall|j: int| i < j < old_ids.len() implies (
                #[trigger] old_ids[j]).value != v by {
                    assert(new_ids[j].value != v);
                }
            }
        }
    }
}

/// A finished run is one that can be stored: with distinct zones its report is
/// valid, and its confusion matrix and rejections account for every tap.
pub proof fn finished_reports_are_valid<Q: Fn(u32, u32) -> Single>(
    t: Tally,
    profile_id: ProfileId,
    run_at: Timestamp,
    slots: Seq<usize>,
    divide: Q,
    r: EvaluationReport,
)
    requires
        t.wf(),
        reported(t, profile_id, run_at, slots, divide, r),
        t.zone_ids.no_duplicates(),
    ensures
        r.valid(),
        sum_rows(cells(r.confusion_matrix@)) + r.rejected_tap_count == t.latencies.len(),
{
    let n = t.zone_ids.len();
    let values = Seq::new(n, |i: int| t.zone_ids[i].value);
    assert(t.zone_ids.take(n as int) =~= t.zone_ids);
    assert(values.no_duplicates()) by {
        assert forall|i: int, j: int| 0 <= i < n && 0 <= j < n && i != j implies values[i]
            != values[j] by {
            if values[i] == values[j] {
                assert(t.zone_ids[i] == t.zone_ids[j]);
            }
        }
    }
    values.unique_seq_to_set();
    assert forall|v: u128| #[trigger] r.per_zone_accuracy@.dom().contains(v)
        == values.to_set().contains(v) by {
        assert(r.per_zone_accuracy@.contains_key(v) <==> in_run(t.zone_ids, v));
        if in_run(t.zone_ids, v) {
            let k = choose|k: int| 0 <= k < n && (#[trigger] t.zone_ids[k]).value == v;
            assert(values[k] == v);
        }
        if values.contains(v) {
            let k = values.index_of(v);
            assert(t.zone_ids[k].value == v);
        }
    }
    assert(r.per_zone_accuracy@.dom() =~= values.to_set());
    assert(r.confusion_matrix@.len() == cells(r.confusion_matrix@).len());
}

/// What recording a tap changes in the report: a recognised tap raises one cell
/// of the confusion matrix and nothing else in it, and leaves the rejections;
/// any other tap leaves the matrix and is one more rejection. Either way the
/// latency comes last.
pub proof fn recording_changes_one_place<Q: Fn(u32, u32) -> Single>(
    t: Tally,
    actual: ZoneId,
    predicted: Option<ZoneId>,
    confidence: Single,
    latency_ms: Single,
    profile_id: ProfileId,
    run_at: Timestamp,
    slots_before: Seq<usize>,
    slots_after: Seq<usize>,
    divide: Q,
    before: EvaluationReport,
    after: EvaluationReport,
)
    requires
        t.wf(),
        in_run(t.zone_ids, actual.value),
        t.latencies.len() < u32::MAX,
        reported(t, profile_id, run_at, slots_before, divide, before),
        reported(
            t.with_tap(actual, predicted, confidence, latency_ms),
            profile_id,
            run_at,
            slots_after,
            divide,
            after,
        ),
    ensures
        match predicted {
            Some(z) if in_run(t.zone_ids, z.value) => {
                let a = position(t.zone_ids, actual.value);
                let p = position(t.zone_ids, z.value);
                let m = cells(before.confusion_matrix@);
                &&& cells(after.confusion_matrix@) == m.update(
                    a,
                    m[a].update(p, (m[a][p] + 1) as u32),
                )
                &&& m[a][p] < u32::MAX
                &&& after.rejected_tap_count == before.rejected_tap_count
                &&& t.with_tap(actual, predicted, confidence, latency_ms).confidences
                    == t.confidences.push(confidence)
            },
            _ => {
                &&& cells(after.confusion_matrix@) == cells(before.confusion_matrix@)
                &&& after.rejected_tap_count == before.rejected_tap_count + 1
                &&& t.with_tap(actual, predicted, confidence, latency_ms).confidences
                    == t.confidences
            },
        },
        t.with_tap(actual, predicted, confidence, latency_ms).latencies == t.latencies.push(
            latency_ms,
        ),
{
    positions_exist(t.zone_ids, actual.value);
    let a = position(t.zone_ids, actual.value);
    match predicted {
        Some(z) if in_run(t.zone_ids, z.value) => {
            positions_exist(t.zone_ids, z.value);
            let p = position(t.zone_ids, z.value);
            sum_rows_of_update(t.matrix, a, t.matrix[a]);
            sum_of_update(t.matrix[a], p, 0);
        },
        _ => {
            sum_of_update(t.rejected, a, (t.rejected[a] + 1) as u32);
        },
    }
}

/// Counting one more value raises one bucket by one and leaves all others: the
/// first for a value at or below the lower end, the last for one at or above the
/// upper end, and otherwise the bucket that it falls into. A value that is not
/// finite is not counted. Of no values every bucket is empty.
pub proof fn every_value_falls_into_one_bucket(
    values: &[Single],
    slots: &[usize],
    more: &[Single],
    more_slots: &[usize],
    v: Single,
    slot: usize,
    bin_count: usize,
    min: Single,
    max: Single,
    h: Histogram,
    after: Histogram,
    b: int,
)
    requires
        slots@.len() == values@.len(),
        values@.len() < u32::MAX,
        more@ == values@.push(v),
        more_slots@ == slots@.push(slot),
        bin_count >= 1,
        call_ensures(Histogram::from_values, (values, slots, bin_count, min, max), h),
        call_ensures(Histogram::from_values, (more, more_slots, bin_count, min, max), after),
        0 <= b < bin_count,
    ensures
        h.min == min && h.max == max && h.bins@.len() == bin_count,
        after.bins@.len() == bin_count,
        values@.len() == 0 ==> h.bins@[b] == 0,
        !v.finite() ==> after.bins@[b] == h.bins@[b],
        v.finite() && v.at_most(min) ==> after.bins@[b] == h.bins@[b] + if b == 0 {
            1int
        } else {
            0
        },
        v.finite() && !v.at_most(min) && max.at_most(v) ==> after.bins@[b] == h.bins@[b] + if b
            == bin_count - 1 {
            1int
        } else {
            0
        },
        v.finite() && min.below(v) && v.below(max) && slot < bin_count ==> after.bins@[b]
            == h.bins@[b] + if b == slot {
            1int
        } else {
            0
        },
        v.finite() && min.below(v) && v.below(max) && slot >= bin_count ==> after.bins@[b]
            == h.bins@[b] + if b == bin_count - 1 {
            1int
        } else {
            0
        },
{
    assert(more@.drop_last() =~= values@);
    assert(more_slots@.drop_last() =~= slots@);
    assert(h.bins@[b] as nat == bucket_count(values@, slots@, bin_count as int, min, max, b));
    assert(after.bins@[b] as nat == bucket_count(
        more@,
        more_slots@,
        bin_count as int,
        min,
        max,
        b,
    ));
}

/// Percentiles are samples: with the finite samples lined up from the shortest to
/// the longest, half of them, 95 and 99 in a hundred lie up to the named sample,
/// and fewer up to the one before it; the maximum comes last. Where there is no
/// finite sample, all are zero.
pub proof fn percentiles_cover_their_share(samples: &[Single], s: LatencyStats) -> (line: (
    Seq<Single>,
    int,
    int,
    int,
))
    requires
        call_ensures(LatencyStats::from_millis, (samples,), s),
    ensures
        line.0.to_multiset() == samples@.filter(|x: Single| x.finite()).to_multiset(),
        forall|i: int, j: int|
            0 <= i <= j < line.0.len() ==> (#[trigger] line.0[i]).total_rank() <= (
            #[trigger] line.0[j]).total_rank(),
        line.0.len() == 0 ==> s.p50.bits == 0 && s.p95.bits == 0 && s.p99.bits == 0 && s.max.bits
            == 0,
        line.0.len() > 0 ==> {
            let n = line.0.len();
            &&& 0 <= line.1 < n && s.p50 == line.0[line.1] && 100 * line.1 < 50 * n <= 100 * (
            line.1 + 1)
            &&& 0 <= line.2 < n && s.p95 == line.0[line.2] && 100 * line.2 < 95 * n <= 100 * (
            line.2 + 1)
            &&& 0 <= line.3 < n && s.p99 == line.0[line.3] && 100 * line.3 < 99 * n <= 100 * (
            line.3 + 1)
            &&& s.max == line.0.last()
        },
{
    let finite = finite_only(samples@);
    finite_numbers_stay(samples@);
    ranked_keeps_the_numbers(finite);
    let xs = ranked(finite);
    let n = xs.len() as int;
    (xs, nearest_rank(50, n), nearest_rank(95, n), nearest_rank(99, n))
}

proof fn diagonal_of_update(m: Seq<Seq<u32>>, n: int, i: int, j: int, x: u32)
    requires
        square(m),
        0 <= n <= m.len(),
        0 <= i < m.len(),
        0 <= j < m.len(),
    ensures
        diagonal(m.update(i, m[i].update(j, x)), n) == diagonal(m, n) + if i == j && i < n {
            x - m[i][i]
        } else {
            0
        },
        i < n ==> m[i][i] <= diagonal(m, n),
    decreases n,
{
    if n > 0 {
        assert(m[i].len() == m.len());
        assert(m[n - 1].len() == m.len());
        diagonal_of_update(m, n - 1, i, j, x);
    }
}

proof fn diagonal_of_zeros(m: Seq<Seq<u32>>, n: int)
    requires
        forall|i: int, j: int| 0 <= i < n && 0 <= j < n ==> #[trigger] m[i][j] == 0,
    ensures
        diagonal(m, n) == 0,
    decreases n,
{
    if n > 0 {
        diagonal_of_zeros(m, n - 1);
        assert(m[n - 1][n - 1] == 0);
    }
}

/// What counts as right: a tap that is recognised as the zone that was asked for,
/// and no other. A run that has not begun has none.
pub proof fn right_taps_are_those_of_their_own_zone(
    t: Tally,
    actual: ZoneId,
    predicted: Option<ZoneId>,
    confidence: Single,
    latency_ms: Single,
)
    requires
        t.wf(),
        in_run(t.zone_ids, actual.value),
        t.latencies.len() < u32::MAX,
    ensures
        diagonal(
            t.with_tap(actual, predicted, confidence, latency_ms).matrix,
            t.zone_ids.len() as int,
        ) == diagonal(t.matrix, t.zone_ids.len() as int) + if predicted matches Some(z) && z.value
            == actual.value {
            1int
        } else {
            0
        },
        diagonal(
            Tally::fresh(t.zone_ids, t.taps_per_zone).matrix,
            t.zone_ids.len() as int,
        ) == 0,
{
    let n = t.zone_ids.len() as int;
    let a = position(t.zone_ids, actual.value);
    positions_exist(t.zone_ids, actual.value);
    diagonal_of_zeros(Tally::fresh(t.zone_ids, t.taps_per_zone).matrix, n);
    match predicted {
        Some(z) if in_run(t.zone_ids, z.value) => {
            let p = position(t.zone_ids, z.value);
            positions_exist(t.zone_ids, z.value);
            assert(t.matrix[a].len() == t.matrix.len());
            sum_rows_of_update(t.matrix, a, t.matrix[a]);
            sum_of_update(t.matrix[a], p, 0);
            diagonal_of_update(t.matrix, n, a, p, (t.matrix[a][p] + 1) as u32);
        },
        _ => {},
    }
}

/// A report holds the run: the accuracy of a zone is the quotient of the taps
/// that were recognised as its own and all that it was asked for, the rejected
/// ones among them, and zero where it was asked for none. The overall accuracy is
/// the quotient of all right taps and all taps. Confidences are counted in ten
/// buckets from zero to one.
pub proof fn reports_hold_the_run<Q: Fn(u32, u32) -> Single>(
    t: Tally,
    profile_id: ProfileId,
    run_at: Timestamp,
    slots: Seq<usize>,
    divide: Q,
    r: EvaluationReport,
    i: int,
)
    requires
        t.wf(),
        reported(t, profile_id, run_at, slots, divide, r),
        t.zone_ids.no_duplicates(),
        0 <= i < t.zone_ids.len(),
    ensures
        r.schema_version == 1 && r.profile_id == profile_id && r.run_at == run_at,
        r.taps_per_zone == t.taps_per_zone,
        r.confusion_matrix@.len() == t.zone_ids.len(),
        r.confusion_matrix@[i]@ == t.matrix[i],
        r.rejected_tap_count == sum(t.rejected),
        r.per_zone_accuracy@.contains_key(t.zone_ids[i].value),
        sum(r.confusion_matrix@[i]@) + t.rejected[i] == 0 ==> r.per_zone_accuracy@[
            t.zone_ids[i].value].bits == 0,
        sum(r.confusion_matrix@[i]@) + t.rejected[i] > 0 ==> call_ensures(
            divide,
            (
                r.confusion_matrix@[i]@[i],
                (sum(r.confusion_matrix@[i]@) + t.rejected[i]) as u32,
            ),
            r.per_zone_accuracy@[t.zone_ids[i].value],
        ),
        t.latencies.len() == 0 ==> r.overall_accuracy.bits == 0,
        t.latencies.len() > 0 ==> call_ensures(
            divide,
            (
                diagonal(cells(r.confusion_matrix@), r.confusion_matrix@.len() as int) as u32,
                t.latencies.len() as u32,
            ),
            r.overall_accuracy,
        ),
        r.confidence_distribution.bins@.len() == 10,
        r.confidence_distribution.min.bits == 0,
        r.confidence_distribution.max.bits == 0x3f80_0000,
{
    assert(cells(r.confusion_matrix@)[i] == r.confusion_matrix@[i]@);
    assert(cells(r.confusion_matrix@).len() == r.confusion_matrix@.len());
    let n = t.zone_ids.len() as int;
    let v = t.zone_ids[i].value;
    assert(t.zone_ids.take(n) =~= t.zone_ids);
    assert(last_position(t.zone_ids, v, i)) by {
        assert forall|j: int| i < j < n implies (#[trigger] t.zone_ids[j]).value != v by {
            if t.zone_ids[j].value == v {
                assert(t.zone_ids[j] == t.zone_ids[i]);
            }
        }
    }
    assert(in_run(t.zone_ids, v));
    let map = r.per_zone_accuracy@;
    assert(map.contains_key(v) <==> in_run(t.zone_ids.take(n), v));
    assert(share(divide, t.matrix[i][i] as nat, t.presented(i), map[t.zone_ids[i].value]));
}

/// A stored report is taken exactly where it has the current version, decodes,
/// has a square confusion matrix and one accuracy for each of its rows. What is
/// taken is what it decodes to.
pub proof fn stored_reports_are_checked(
    s: &str,
    file: &str,
    decoded: Result<EvaluationReport, String>,
    r: Result<EvaluationReport, PersistenceError>,
)
    requires
        call_ensures(EvaluationReport::from_json, (s, file, decoded), r),
    ensures
        r is Ok <==> json_version(s@) == Ok::<Option<u64>, Seq<char>>(Some(1)) && (
        decoded matches Ok(p) && p.per_zone_accuracy@.len() == p.confusion_matrix@.len()
            && forall|i: int|
            0 <= i < p.confusion_matrix@.len() ==> (#[trigger] p.confusion_matrix@[i])@.len()
                == p.confusion_matrix@.len()),
        r matches Ok(p) ==> decoded == Ok::<EvaluationReport, String>(p),
{
    match decoded {
        Ok(p) => {
            let m = cells(p.confusion_matrix@);
            assert(m.len() == p.confusion_matrix@.len());
            assert forall|i: int| 0 <= i < m.len() implies (#[trigger] m[i])
                == p.confusion_matrix@[i]@ by {}
            if square(m) {
                assert forall|i: int| 0 <= i < p.confusion_matrix@.len() implies (
                #[trigger] p.confusion_matrix@[i])@.len() == p.confusion_matrix@.len() by {
                    assert(m[i].len() == m.len());
                }
            } else {
                let i = choose|i: int| 0 <= i < m.len() && (#[trigger] m[i]).len() != m.len();
                assert(p.confusion_matrix@[i]@.len() != p.confusion_matrix@.len());
            }
        },
        Err(_) => {},
    }
}

} // verus!
