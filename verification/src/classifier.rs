//! The zone classifier: nearest centroid in a standardized feature space, with
//! a nearest-example gate that turns away sounds unlike every calibrated zone.
//!
//! Distances and statistics come in as numbers that were measured elsewhere;
//! what is decided from them is decided here.

use vstd::prelude::*;

use crate::features::{FeatureVector, FEATURE_DIM};
use crate::ids::ZoneId;
use crate::single::{
    all_finite, finite_seq, first_least, first_least_of, min_of, smallest, smallest_bounds,
    total_largest, total_largest_bounds, total_max_of, Single, INFINITY, ZERO,
};

verus! {

/// Version of the stored classifier.
pub const CLASSIFIER_SCHEMA_VERSION: u32 = 1;

/// Encoding of the smallest standard deviation and of the smallest gate,
/// `1e-6`.
pub const STD_FLOOR: u32 = 0x3586_37bd;

/// Why a classifier could not be fitted or taken from storage.
#[derive(Clone, Debug)]
pub enum ClassifierError {
    /// There was no labelled sample.
    EmptyTrainingSet,
    /// A parameter is a NaN or infinite.
    NonFiniteParameters,
    /// The parameters contradict each other; the text says how.
    MalformedParameters(String),
}

impl ClassifierError {
    /// The error is `MalformedParameters` with this text.
    pub open spec fn malformed(self, text: Seq<char>) -> bool {
        self matches ClassifierError::MalformedParameters(d) && d@ == text
    }
}

/// A standardized sample that the threshold compares sounds with.
#[derive(Clone, Debug)]
pub struct StdExample {
    /// Position of its zone in the classifier's zones.
    pub zone: usize,
    pub v: Vec<Single>,
}

impl View for StdExample {
    type V = (int, Seq<Single>);

    open spec fn view(&self) -> (int, Seq<Single>) {
        (self.zone as int, self.v@)
    }
}

/// Fitted parameters, stored inside a profile.
#[derive(Clone, Debug)]
pub struct ClassifierParams {
    pub schema_version: u32,
    pub feature_mean: Vec<Single>,
    pub feature_std: Vec<Single>,
    pub zone_ids: Vec<ZoneId>,
    pub centroids: Vec<Vec<Single>>,
    pub examples: Vec<StdExample>,
    pub novelty_threshold: Single,
    pub negative_examples_trained: bool,
}

/// What fitted parameters say, as mathematical values.
pub struct Parameters {
    pub schema_version: u32,
    pub feature_mean: Seq<Single>,
    pub feature_std: Seq<Single>,
    pub zone_ids: Seq<ZoneId>,
    pub centroids: Seq<Seq<Single>>,
    pub examples: Seq<(int, Seq<Single>)>,
    pub novelty_threshold: Single,
    pub negative_examples_trained: bool,
}

/// What can be wrong with parameters, in the order in which it is looked for.
pub enum Fault {
    StandardizationLength,
    CentroidCount,
    CentroidLength,
    ExampleShape,
    NonFinite,
    NonPositiveStd,
}

/// The contents of a vector of vectors.
pub open spec fn rows(v: Seq<Vec<Single>>) -> Seq<Seq<Single>> {
    Seq::new(v.len(), |i: int| v[i]@)
}

/// The contents of a vector of examples.
pub open spec fn example_views(v: Seq<StdExample>) -> Seq<(int, Seq<Single>)> {
    Seq::new(v.len(), |i: int| v[i]@)
}

impl Parameters {
    pub open spec fn centroids_fit(self) -> bool {
        forall|i: int| 0 <= i < self.centroids.len() ==> (#[trigger] self.centroids[i]).len()
            == FEATURE_DIM
    }

    pub open spec fn examples_fit(self) -> bool {
        forall|i: int|
            0 <= i < self.examples.len() ==> (#[trigger] self.examples[i]).1.len() == FEATURE_DIM
                && 0 <= self.examples[i].0 < self.zone_ids.len()
    }

    pub open spec fn numbers_finite(self) -> bool {
        &&& finite_seq(self.feature_mean)
        &&& finite_seq(self.feature_std)
        &&& forall|i: int| 0 <= i < self.centroids.len() ==> finite_seq(#[trigger] self.centroids[i])
        &&& forall|i: int|
            0 <= i < self.examples.len() ==> finite_seq((#[trigger] self.examples[i]).1)
        &&& self.novelty_threshold.finite()
    }

    pub open spec fn std_positive(self) -> bool {
        forall|i: int|
            0 <= i < self.feature_std.len() ==> !(#[trigger] self.feature_std[i]).at_most(
                Single { bits: ZERO },
            )
    }

    /// The first fault of the parameters.
    pub open spec fn fault(self) -> Option<Fault> {
        if self.feature_mean.len() != FEATURE_DIM || self.feature_std.len() != FEATURE_DIM {
            Some(Fault::StandardizationLength)
        } else if self.centroids.len() != self.zone_ids.len() {
            Some(Fault::CentroidCount)
        } else if !self.centroids_fit() {
            Some(Fault::CentroidLength)
        } else if !self.examples_fit() {
            Some(Fault::ExampleShape)
        } else if !self.numbers_finite() {
            Some(Fault::NonFinite)
        } else if !self.std_positive() {
            Some(Fault::NonPositiveStd)
        } else {
            None
        }
    }

    /// Consistent and finite: fit to classify with.
    pub open spec fn well_formed(self) -> bool {
        self.fault() is None
    }
}

/// The error that reports a fault.
pub open spec fn reports(e: ClassifierError, f: Fault) -> bool {
    match f {
        Fault::StandardizationLength => e.malformed(
            "standardization vectors must be length 34"@,
        ),
        Fault::CentroidCount => e.malformed("centroid count does not match zone count"@),
        Fault::CentroidLength => e.malformed("each centroid must be length 34"@),
        Fault::ExampleShape => e.malformed("an example has a bad dimension or zone index"@),
        Fault::NonFinite => e is NonFiniteParameters,
        Fault::NonPositiveStd => e.malformed("feature_std must be strictly positive"@),
    }
}

/// The zones of labelled samples, each once, in the order of first appearance.
pub open spec fn first_seen(labels: Seq<ZoneId>) -> Seq<ZoneId>
    decreases labels.len(),
{
    if labels.len() == 0 {
        Seq::empty()
    } else {
        let before = first_seen(labels.drop_last());
        if before.contains(labels.last()) {
            before
        } else {
            before.push(labels.last())
        }
    }
}

/// The zone of each sample.
pub open spec fn labels_of(samples: Seq<(ZoneId, FeatureVector)>) -> Seq<ZoneId> {
    Seq::new(samples.len(), |i: int| samples[i].0)
}

/// How labelled samples fall into zones.
#[derive(Clone, Debug)]
pub struct ZonePlan {
    /// The zones in the order of first appearance.
    pub zone_ids: Vec<ZoneId>,
    /// For each sample, the position of its zone.
    pub zone_of: Vec<usize>,
    /// For each zone, how many samples it has.
    pub counts: Vec<usize>,
}

/// How often `x` occurs in `s`.
pub open spec fn occurrences(s: Seq<ZoneId>, x: ZoneId) -> nat
    decreases s.len(),
{
    if s.len() == 0 {
        0
    } else {
        occurrences(s.drop_last(), x) + if s.last() == x {
            1nat
        } else {
            0nat
        }
    }
}

impl ZonePlan {
    /// The plan is the one for these labels.
    pub open spec fn plans(self, labels: Seq<ZoneId>) -> bool {
        &&& self.zone_ids@ == first_seen(labels)
        &&& self.zone_of@.len() == labels.len()
        &&& forall|i: int|
            0 <= i < labels.len() ==> (#[trigger] self.zone_of@[i]) < self.zone_ids@.len()
                && self.zone_ids@[self.zone_of@[i] as int] == labels[i]
        &&& self.counts@.len() == self.zone_ids@.len()
        &&& forall|z: int|
            0 <= z < self.counts@.len() ==> (#[trigger] self.counts@[z]) as nat == occurrences(
                labels,
                self.zone_ids@[z],
            )
    }
}

/// Measurements that a classifier is assembled from: statistics of the samples
/// and distances in the standardized space.
#[derive(Clone, Debug)]
pub struct Fit {
    pub feature_mean: Vec<Single>,
    pub feature_std: Vec<Single>,
    /// Each sample, standardized.
    pub standardized: Vec<Vec<Single>>,
    /// Mean of each zone's standardized samples.
    pub centroids: Vec<Vec<Single>>,
    /// Distance of each sample to its own zone's centroid.
    pub spreads: Vec<Single>,
    /// Mean of the spreads plus four of their standard deviations.
    pub spread_bound: Single,
    /// For each negative example, its distance to the nearest sample.
    pub negative_distances: Vec<Single>,
    /// Halfway between the largest spread and the nearest negative example.
    pub midpoint: Single,
}

impl Fit {
    /// There is one measurement for every sample and negative example.
    pub open spec fn covers(self, samples: nat, negatives: nat) -> bool {
        &&& self.standardized@.len() == samples
        &&& self.spreads@.len() == samples
        &&& self.negative_distances@.len() == negatives
    }
}

/// The threshold before negative examples are looked at: the bound on the spreads,
/// never less than the largest spread, and positive.
pub open spec fn open_gate(spread_bound: Single, spread_max: Single) -> Single {
    let t = spread_bound.larger(spread_max);
    if t.at_most(Single { bits: ZERO }) {
        Single { bits: STD_FLOOR }
    } else {
        t
    }
}

/// The threshold: pulled in to the midpoint where a negative example is nearer, but
/// not below the largest spread.
pub open spec fn gate(
    spread_bound: Single,
    spread_max: Single,
    nearest_negative: Single,
    midpoint: Single,
) -> Single {
    let t = open_gate(spread_bound, spread_max);
    if nearest_negative.finite() {
        t.smaller(midpoint).larger(spread_max)
    } else {
        t
    }
}

/// The parameters that training assembles.
pub open spec fn trained(
    labels: Seq<ZoneId>,
    zone_of: Seq<int>,
    fit: Fit,
) -> Parameters {
    Parameters {
        schema_version: CLASSIFIER_SCHEMA_VERSION,
        feature_mean: fit.feature_mean@,
        feature_std: fit.feature_std@,
        zone_ids: first_seen(labels),
        centroids: rows(fit.centroids@),
        examples: Seq::new(labels.len(), |i: int| (zone_of[i], fit.standardized@[i]@)),
        novelty_threshold: gate(
            fit.spread_bound,
            total_largest(fit.spreads@),
            smallest(fit.negative_distances@),
            fit.midpoint,
        ),
        negative_examples_trained: fit.negative_distances@.len() > 0,
    }
}

/// For each label, its position among the zones.
pub open spec fn zone_positions(labels: Seq<ZoneId>) -> Seq<int> {
    Seq::new(labels.len(), |i: int| first_seen(labels).index_of(labels[i]))
}

/// Each zone is listed once, and exactly the labels are listed.
pub proof fn first_seen_lists_each_label_once(labels: Seq<ZoneId>)
    ensures
        first_seen(labels).no_duplicates(),
        forall|z: ZoneId| #[trigger] first_seen(labels).contains(z) <==> labels.contains(z),
        first_seen(labels).len() <= labels.len(),
    decreases labels.len(),
{
    if labels.len() > 0 {
        let prefix = labels.drop_last();
        let last = labels.last();
        first_seen_lists_each_label_once(prefix);
        let before = first_seen(prefix);
        let now = first_seen(labels);
        assert forall|z: ZoneId| #[trigger] now.contains(z) <==> labels.contains(z) by {
            if now.contains(z) {
                let k = now.index_of(z);
                if k < before.len() {
                    assert(before[k] == z);
                    assert(before.contains(z));
                    let m = prefix.index_of(z);
                    assert(labels[m] == z);
                } else {
                    assert(labels[labels.len() - 1] == z);
                }
            }
            if labels.contains(z) {
                let m = labels.index_of(z);
                if m < prefix.len() {
                    assert(prefix[m] == z);
                    assert(before.contains(z));
                    let k = before.index_of(z);
                    assert(now[k] == z);
                } else {
                    assert(z == last);
                    if before.contains(last) {
                        assert(now.contains(z));
                    } else {
                        assert(now[before.len() as int] == z);
                    }
                }
            }
        }
    }
}

fn position_of(zones: &Vec<ZoneId>, zone: ZoneId) -> (r: Option<usize>)
    ensures
        r is Some <==> zones@.contains(zone),
        r matches Some(i) ==> i < zones@.len() && zones@[i as int] == zone,
{
    let mut i: usize = 0;
    while i < zones.len()
        invariant
            i <= zones@.len(),
            forall|j: int| 0 <= j < i ==> zones@[j] != zone,
        decreases zones@.len() - i,
    {
        if zones[i] == zone {
            return Some(i);
        }
        i += 1;
    }
    None
}

impl View for ClassifierParams {
    type V = Parameters;

    open spec fn view(&self) -> Parameters {
        Parameters {
            schema_version: self.schema_version,
            feature_mean: self.feature_mean@,
            feature_std: self.feature_std@,
            zone_ids: self.zone_ids@,
            centroids: rows(self.centroids@),
            examples: example_views(self.examples@),
            novelty_threshold: self.novelty_threshold,
            negative_examples_trained: self.negative_examples_trained,
        }
    }
}

/// Sort labelled samples into zones. Nothing can be planned for no sample.
pub fn plan_zones(samples: &[(ZoneId, FeatureVector)]) -> (r: Result<ZonePlan, ClassifierError>)
    ensures
        samples@.len() == 0 <==> r is Err,
        r matches Err(e) ==> e is EmptyTrainingSet,
        r matches Ok(p) ==> p.plans(labels_of(samples@)),
{
    if samples.len() == 0 {
        return Err(ClassifierError::EmptyTrainingSet);
    }
    let ghost labels = labels_of(samples@);
    let mut zone_ids: Vec<ZoneId> = Vec::new();
    let mut zone_of: Vec<usize> = Vec::new();
    let mut counts: Vec<usize> = Vec::new();
    let mut i: usize = 0;
    while i < samples.len()
        invariant
            i <= samples@.len(),
            labels == labels_of(samples@),
            zone_ids@ == first_seen(labels.take(i as int)),
            zone_of@.len() == i,
            forall|j: int|
                0 <= j < i ==> (#[trigger] zone_of@[j]) < zone_ids@.len()
                    && zone_ids@[zone_of@[j] as int] == labels[j],
            counts@.len() == zone_ids@.len(),
            forall|z: int|
                0 <= z < counts@.len() ==> (#[trigger] counts@[z]) as nat == occurrences(
                    labels.take(i as int),
                    zone_ids@[z],
                ) && counts@[z] <= i,
        decreases samples@.len() - i,
    {
        let zone: ZoneId = samples[i].0;
        proof {
            assert(labels.take(i + 1).drop_last() =~= labels.take(i as int));
            assert(labels.take(i + 1).last() == zone);
            first_seen_lists_each_label_once(labels.take(i as int));
        }
        let ghost ids = zone_ids@;
        match position_of(&zone_ids, zone) {
            Some(p) => {
                zone_of.push(p);
                let seen: usize = counts[p];
                counts[p] = seen + 1;
            },
            None => {
                proof {
                    assert forall|z: int| 0 <= z < ids.len() implies #[trigger] ids[z] != zone by {
                        assert(ids.contains(ids[z]));
                    }
                    absent_occurs_never(labels.take(i as int), zone);
                }
                zone_of.push(zone_ids.len());
                zone_ids.push(zone);
                counts.push(1);
            },
        }
        i += 1;
    }
    proof {
        assert(labels.take(i as int) =~= labels);
    }
    Ok(ZonePlan { zone_ids, zone_of, counts })
}

proof fn absent_occurs_never(s: Seq<ZoneId>, x: ZoneId)
    requires
        !s.contains(x),
    ensures
        occurrences(s, x) == 0,
    decreases s.len(),
{
    if s.len() > 0 {
        assert(s[s.len() - 1] != x);
        assert forall|i: int| 0 <= i < s.drop_last().len() implies s.drop_last()[i] != x by {
            assert(s[i] != x);
        }
        absent_occurs_never(s.drop_last(), x);
    }
}

/// The threshold that the measurements give: see [`gate`].
pub fn novelty_threshold(
    spread_bound: Single,
    spreads: &[Single],
    negative_distances: &[Single],
    midpoint: Single,
) -> (t: Single)
    ensures
        t == gate(
            spread_bound,
            total_largest(spreads@),
            smallest(negative_distances@),
            midpoint,
        ),
{
    let spread_max: Single = total_max_of(spreads);
    let mut t: Single = spread_bound.max(spread_max);
    if t.le(Single { bits: ZERO }) {
        t = Single { bits: STD_FLOOR };
    }
    let nearest: Single = min_of(negative_distances);
    if nearest.is_finite() {
        t = t.min(midpoint).max(spread_max);
    }
    t
}

/// Negative examples only ever tighten the threshold: with any of them it is at most
/// what it is without, as long as the spreads and the midpoint are numbers.
pub proof fn negatives_only_tighten(
    spread_bound: Single,
    spread_max: Single,
    nearest_negative: Single,
    midpoint: Single,
)
    requires
        !spread_max.nan(),
        !midpoint.nan(),
    ensures
        gate(spread_bound, spread_max, nearest_negative, midpoint).at_most(
            gate(spread_bound, spread_max, Single { bits: INFINITY }, midpoint),
        ),
{
}

/// The threshold never drops below the largest spread, so every sample that the
/// classifier was fitted on passes it when measured against its own centroid.
pub proof fn gate_admits_the_samples(
    spread_bound: Single,
    spreads: Seq<Single>,
    negative_distances: Seq<Single>,
    midpoint: Single,
    i: int,
)
    requires
        0 <= i < spreads.len(),
        finite_seq(spreads),
    ensures
        spreads[i].at_most(
            gate(spread_bound, total_largest(spreads), smallest(negative_distances), midpoint),
        ),
{
    total_largest_bounds(spreads);
    smallest_bounds(negative_distances);
    let m = total_largest(spreads);
    assert(m.finite()) by {
        let k = spreads.index_of(m);
        assert(spreads[k].finite());
    }
    assert(spreads[i].finite());
}

/// Real taps still pass: a sample that the classifier was trained on, whose
/// distance to itself is zero, is accepted, whatever the negative examples.
pub proof fn training_samples_are_accepted(
    labels: Seq<ZoneId>,
    fit: Fit,
    i: int,
    features: Seq<Single>,
    measured: Distances,
    c: Classification,
)
    requires
        trained(labels, zone_positions(labels), fit).well_formed(),
        fit.covers(labels.len(), fit.negative_distances@.len()),
        forall|k: int|
            0 <= k < labels.len() ==> (Single { bits: ZERO }).at_most(#[trigger] fit.spreads@[k]),
        finite_seq(features),
        measured.covers(trained(labels, zone_positions(labels), fit)),
        0 <= i < labels.len(),
        measured.examples@[i] == (Single { bits: ZERO }),
        classified(trained(labels, zone_positions(labels), fit), features, measured, c),
    ensures
        c.accepted,
        c.zone_id matches Some(z) && labels.contains(z),
{
    let p = trained(labels, zone_positions(labels), fit);
    total_largest_bounds(fit.spreads@);
    smallest_bounds(fit.negative_distances@);
    smallest_bounds(measured.examples@);
    assert(smallest(measured.examples@).at_most(measured.examples@[i]));
    let m = total_largest(fit.spreads@);
    assert((Single { bits: ZERO }).at_most(m)) by {
        let k = fit.spreads@.index_of(m);
        assert((Single { bits: ZERO }).at_most(fit.spreads@[k]));
    }
    assert(m.at_most(p.novelty_threshold));
    accepted_means_a_zone(p, features, measured, c);
    first_seen_lists_each_label_once(labels);
}

/// Negative examples let nothing new in and move no zone: two classifiers that
/// were trained on the same samples, one of them with negative examples, differ
/// in the threshold alone, and what the one with them accepts, the other
/// classifies in the same way.
pub proof fn negatives_let_nothing_new_in(
    labels: Seq<ZoneId>,
    without: Fit,
    with: Fit,
    features: Seq<Single>,
    measured: Distances,
    c: Classification,
    d: Classification,
)
    requires
        without.negative_distances@.len() == 0,
        with.feature_mean@ == without.feature_mean@,
        with.feature_std@ == without.feature_std@,
        with.standardized@ == without.standardized@,
        with.centroids@ == without.centroids@,
        with.spreads@ == without.spreads@,
        with.spread_bound == without.spread_bound,
        trained(labels, zone_positions(labels), without).well_formed(),
        trained(labels, zone_positions(labels), with).well_formed(),
        classified(trained(labels, zone_positions(labels), without), features, measured, c),
        classified(trained(labels, zone_positions(labels), with), features, measured, d),
    ensures
        trained(labels, zone_positions(labels), with) == (Parameters {
            novelty_threshold: trained(labels, zone_positions(labels), with).novelty_threshold,
            negative_examples_trained: with.negative_distances@.len() > 0,
            ..trained(labels, zone_positions(labels), without)
        }),
        trained(labels, zone_positions(labels), with).novelty_threshold.at_most(
            trained(labels, zone_positions(labels), without).novelty_threshold,
        ),
        d.accepted ==> c == d,
{
    let p = trained(labels, zone_positions(labels), without);
    let q = trained(labels, zone_positions(labels), with);
    assert(q.examples =~= p.examples);
    assert(smallest(without.negative_distances@) == (Single { bits: INFINITY }));
    if d.accepted && p.zone_ids.len() > 0 {
        let i = choose|i: int|
            #![trigger first_least(measured.centroids@, i)]
            first_least(measured.centroids@, i) && c.zone_id == Some(p.zone_ids[i])
                && c.confidence == measured.confidences@[i];
        let j = choose|i: int|
            #![trigger first_least(measured.centroids@, i)]
            first_least(measured.centroids@, i) && d.zone_id == Some(q.zone_ids[i])
                && d.confidence == measured.confidences@[i];
        crate::single::first_least_is_unique(measured.centroids@, i, j);
    }
}

/// Negative examples fall outside the threshold: where all of them lie beyond
/// every spread, and the midpoint lies before the nearest of them, a sound as far
/// from the samples as any of them is not accepted.
pub proof fn negatives_fall_outside(
    p: Parameters,
    spread_bound: Single,
    spreads: Seq<Single>,
    negative_distances: Seq<Single>,
    midpoint: Single,
    k: int,
    features: Seq<Single>,
    measured: Distances,
    c: Classification,
)
    requires
        0 <= k < negative_distances.len(),
        finite_seq(negative_distances),
        finite_seq(spreads),
        total_largest(spreads).below(smallest(negative_distances)),
        midpoint.below(smallest(negative_distances)),
        p.novelty_threshold == gate(
            spread_bound,
            total_largest(spreads),
            smallest(negative_distances),
            midpoint,
        ),
        smallest(measured.examples@) == negative_distances[k],
        classified(p, features, measured, c),
    ensures
        !c.accepted,
        c.zone_id is None,
{
    smallest_bounds(negative_distances);
    assert(negative_distances[k].finite());
}

impl ClassifierParams {
    /// Whether negative examples shaped the threshold.
    pub fn negative_examples_trained(&self) -> (r: bool)
        ensures
            r == self@.negative_examples_trained,
    {
        self.negative_examples_trained
    }

    /// Number of zones that can be assigned.
    pub fn zone_count(&self) -> (n: usize)
        ensures
            n == self@.zone_ids.len(),
    {
        self.zone_ids.len()
    }

    /// Assemble a classifier from labelled samples and what was measured of
    /// them. Fails on no samples, and where what was measured is not fit to
    /// classify with.
    pub fn train(
        samples: &[(ZoneId, FeatureVector)],
        negatives: &[FeatureVector],
        fit: Fit,
    ) -> (r: Result<ClassifierParams, ClassifierError>)
        requires
            fit.covers(samples@.len(), negatives@.len()),
        ensures
            samples@.len() == 0 ==> (r matches Err(e) && e is EmptyTrainingSet),
            samples@.len() > 0 ==> match trained(
                labels_of(samples@),
                zone_positions(labels_of(samples@)),
                fit,
            ).fault() {
                None => r matches Ok(p) && p@ == trained(
                    labels_of(samples@),
                    zone_positions(labels_of(samples@)),
                    fit,
                ),
                Some(f) => r matches Err(e) && reports(e, f),
            },
    {
        let plan = match plan_zones(samples) {
            Ok(plan) => plan,
            Err(e) => return Err(e),
        };
        let ghost labels = labels_of(samples@);
        proof {
            first_seen_lists_each_label_once(labels);
        }
        let ghost whole = fit;
        let threshold: Single = novelty_threshold(
            fit.spread_bound,
            &fit.spreads,
            &fit.negative_distances,
            fit.midpoint,
        );
        let negative_examples_trained: bool = fit.negative_distances.len() > 0;
        let mut standardized: Vec<Vec<Single>> = fit.standardized;
        let mut examples: Vec<StdExample> = Vec::new();
        let mut i: usize = standardized.len();
        proof {
            assert(standardized@ =~= whole.standardized@.take(i as int));
        }
        // Taken from the back, then put in order.
        let mut backwards: Vec<StdExample> = Vec::new();
        while i > 0
            invariant
                i <= samples@.len(),
                plan.plans(labels),
                labels == labels_of(samples@),
                whole.standardized@.len() == samples@.len(),
                standardized@ == whole.standardized@.take(i as int),
                backwards@.len() == samples@.len() - i,
                forall|j: int|
                    0 <= j < backwards@.len() ==> (#[trigger] backwards@[j])@ == (
                        plan.zone_of@[samples@.len() - 1 - j] as int,
                        whole.standardized@[samples@.len() - 1 - j]@,
                    ),
            decreases i,
        {
            proof {
                assert(standardized@.len() == i);
            }
            i -= 1;
            match standardized.pop() {
                Some(v) => {
                    proof {
                        assert(v == whole.standardized@[i as int]);
                        assert(standardized@ =~= whole.standardized@.take(i as int));
                    }
                    backwards.push(StdExample { zone: plan.zone_of[i], v });
                },
                None => {},
            }
        }
        while i < samples.len()
            invariant
                i <= samples@.len(),
                plan.plans(labels),
                labels == labels_of(samples@),
                whole.standardized@.len() == samples@.len(),
                backwards@.len() == samples@.len() - i,
                forall|j: int|
                    0 <= j < backwards@.len() ==> (#[trigger] backwards@[j])@ == (
                        plan.zone_of@[samples@.len() - 1 - j] as int,
                        whole.standardized@[samples@.len() - 1 - j]@,
                    ),
                examples@.len() == i,
                forall|j: int|
                    0 <= j < i ==> (#[trigger] examples@[j])@ == (
                        plan.zone_of@[j] as int,
                        whole.standardized@[j]@,
                    ),
            decreases samples@.len() - i,
        {
            match backwards.pop() {
                Some(ex) => examples.push(ex),
                None => {},
            }
            i += 1;
        }
        let params = ClassifierParams {
            schema_version: CLASSIFIER_SCHEMA_VERSION,
            feature_mean: fit.feature_mean,
            feature_std: fit.feature_std,
            zone_ids: plan.zone_ids,
            centroids: fit.centroids,
            examples,
            novelty_threshold: threshold,
            negative_examples_trained,
        };
        proof {
            let model = trained(labels, zone_positions(labels), whole);
            assert forall|j: int| 0 <= j < labels.len() implies (#[trigger] plan.zone_of@[j]) as int
                == zone_positions(labels)[j] by {
                let at = first_seen(labels).index_of(labels[j]);
                assert(first_seen(labels).contains(labels[j]));
                assert(first_seen(labels)[at] == labels[j]);
            }
            assert(params@.examples =~= model.examples);
            assert(params@.centroids =~= model.centroids);
            assert(params@ == model);
        }
        match params.validate() {
            Ok(()) => Ok(params),
            Err(e) => Err(e),
        }
    }

    /// Check that the parameters agree with each other and are finite.
    pub fn validate(&self) -> (r: Result<(), ClassifierError>)
        ensures
            match self@.fault() {
                None => r is Ok,
                Some(f) => r matches Err(e) && reports(e, f),
            },
    {
        if self.feature_mean.len() != FEATURE_DIM || self.feature_std.len() != FEATURE_DIM {
            return Err(
                ClassifierError::MalformedParameters(
                    "standardization vectors must be length 34".to_owned(),
                ),
            );
        }
        if self.centroids.len() != self.zone_ids.len() {
            return Err(
                ClassifierError::MalformedParameters(
                    "centroid count does not match zone count".to_owned(),
                ),
            );
        }
        let mut finite: bool = all_finite(&self.feature_mean) && all_finite(&self.feature_std);
        let mut i: usize = 0;
        while i < self.centroids.len()
            invariant
                i <= self.centroids@.len(),
                forall|j: int|
                    0 <= j < i ==> (#[trigger] self@.centroids[j]).len() == FEATURE_DIM,
                finite == (finite_seq(self@.feature_mean) && finite_seq(self@.feature_std)
                    && forall|j: int| 0 <= j < i ==> finite_seq(#[trigger] self@.centroids[j])),
                self@.fault() == Some(Fault::CentroidLength) || self@.centroids_fit(),
                self.feature_mean@.len() == FEATURE_DIM,
                self.feature_std@.len() == FEATURE_DIM,
                self.centroids@.len() == self.zone_ids@.len(),
            decreases self.centroids@.len() - i,
        {
            proof {
                assert(self@.centroids[i as int] == self.centroids@[i as int]@);
            }
            if self.centroids[i].len() != FEATURE_DIM {
                return Err(
                    ClassifierError::MalformedParameters(
                        "each centroid must be length 34".to_owned(),
                    ),
                );
            }
            let row_finite: bool = all_finite(&self.centroids[i]);
            finite = finite && row_finite;
            i += 1;
        }
        let mut i: usize = 0;
        while i < self.examples.len()
            invariant
                i <= self.examples@.len(),
                forall|j: int|
                    0 <= j < i ==> (#[trigger] self@.examples[j]).1.len() == FEATURE_DIM && 0
                        <= self@.examples[j].0 < self.zone_ids@.len(),
                finite == (finite_seq(self@.feature_mean) && finite_seq(self@.feature_std)
                    && (forall|j: int|
                    0 <= j < self@.centroids.len() ==> finite_seq(#[trigger] self@.centroids[j]))
                    && forall|j: int| 0 <= j < i ==> finite_seq((#[trigger] self@.examples[j]).1)),
                self@.centroids_fit(),
                self.feature_mean@.len() == FEATURE_DIM,
                self.feature_std@.len() == FEATURE_DIM,
                self.centroids@.len() == self.zone_ids@.len(),
            decreases self.examples@.len() - i,
        {
            let ex = &self.examples[i];
            proof {
                assert(self@.examples[i as int] == self.examples@[i as int]@);
            }
            if ex.v.len() != FEATURE_DIM || ex.zone >= self.zone_ids.len() {
                return Err(
                    ClassifierError::MalformedParameters(
                        "an example has a bad dimension or zone index".to_owned(),
                    ),
                );
            }
            let row_finite: bool = all_finite(&ex.v);
            finite = finite && row_finite;
            i += 1;
        }
        if !finite || !self.novelty_threshold.is_finite() {
            return Err(ClassifierError::NonFiniteParameters);
        }
        let mut i: usize = 0;
        while i < self.feature_std.len()
            invariant
                i <= self.feature_std@.len(),
                forall|j: int|
                    0 <= j < i ==> !(#[trigger] self@.feature_std[j]).at_most(
                        Single { bits: ZERO },
                    ),
                self@.centroids_fit(),
                self@.examples_fit(),
                self@.numbers_finite(),
                self.feature_mean@.len() == FEATURE_DIM,
                self.feature_std@.len() == FEATURE_DIM,
                self.centroids@.len() == self.zone_ids@.len(),
            decreases self.feature_std@.len() - i,
        {
            if self.feature_std[i].le(Single { bits: ZERO }) {
                return Err(
                    ClassifierError::MalformedParameters(
                        "feature_std must be strictly positive".to_owned(),
                    ),
                );
            }
            i += 1;
        }
        Ok(())
    }

    /// Show where a feature vector lies among the zones.
    pub fn feature_space(&self, fv: &FeatureVector, measured: &Distances) -> (v: FeatureSpaceView)
        requires
            measured.covers(self@),
        ensures
            located(self@, fv@, *measured, v),
    {
        let finite: bool = fv.is_finite();
        let far = Single { bits: INFINITY };
        let mut zones: Vec<ZoneDistance> = Vec::new();
        let mut i: usize = 0;
        while i < self.zone_ids.len()
            invariant
                i <= self.zone_ids@.len(),
                measured.covers(self@),
                far == (Single { bits: INFINITY }),
                finite == finite_seq(fv@),
                zones@.len() == i,
                forall|k: int|
                    0 <= k < i ==> #[trigger] zones@[k] == (ZoneDistance {
                        zone_id: self@.zone_ids[k],
                        centroid_distance: if finite {
                            measured.centroids@[k]
                        } else {
                            far
                        },
                    }),
            decreases self.zone_ids@.len() - i,
        {
            let centroid_distance: Single = if finite {
                measured.centroids[i]
            } else {
                far
            };
            zones.push(ZoneDistance { zone_id: self.zone_ids[i], centroid_distance });
            i += 1;
        }
        let nearest: Single = min_of(&measured.examples);
        FeatureSpaceView {
            zones,
            nearest_example_distance: if finite {
                nearest
            } else {
                far
            },
            novelty_threshold: self.novelty_threshold,
            accepted: finite && nearest.le(self.novelty_threshold),
        }
    }

    /// Classify one feature vector from its measured distances: the zone of the
    /// nearest centroid where the nearest example is within the threshold, and no
    /// zone otherwise. A vector with a NaN or an infinity is turned away.
    pub fn classify(&self, fv: &FeatureVector, measured: &Distances) -> (c: Classification)
        requires
            measured.covers(self@),
        ensures
            classified(self@, fv@, *measured, c),
    {
        if !fv.is_finite() {
            return Classification {
                zone_id: None,
                confidence: Single { bits: ZERO },
                accepted: false,
            };
        }
        let accepted: bool = min_of(&measured.examples).le(self.novelty_threshold);
        match first_least_of(&measured.centroids) {
            Some(i) if accepted => Classification {
                zone_id: Some(self.zone_ids[i]),
                confidence: measured.confidences[i],
                accepted,
            },
            _ => Classification { zone_id: None, confidence: Single { bits: ZERO }, accepted },
        }
    }
}

/// How far a sound is from one zone.
#[derive(Clone, Copy, Debug, PartialEq, Eq, Structural)]
pub struct ZoneDistance {
    pub zone_id: ZoneId,
    pub centroid_distance: Single,
}

/// Where a sound lies among the zones, whether it is accepted or not.
#[derive(Clone, Debug)]
pub struct FeatureSpaceView {
    /// In the order of the classifier's zones.
    pub zones: Vec<ZoneDistance>,
    pub nearest_example_distance: Single,
    pub novelty_threshold: Single,
    pub accepted: bool,
}

/// `v` shows where a vector with these features and distances lies. One with a
/// NaN or an infinity is infinitely far from everything.
pub open spec fn located(
    p: Parameters,
    features: Seq<Single>,
    measured: Distances,
    v: FeatureSpaceView,
) -> bool {
    let far = Single { bits: INFINITY };
    &&& v.zones@.len() == p.zone_ids.len()
    &&& forall|i: int|
        0 <= i < p.zone_ids.len() ==> #[trigger] v.zones@[i] == (ZoneDistance {
            zone_id: p.zone_ids[i],
            centroid_distance: if finite_seq(features) {
                measured.centroids@[i]
            } else {
                far
            },
        })
    &&& v.nearest_example_distance == if finite_seq(features) {
        smallest(measured.examples@)
    } else {
        far
    }
    &&& v.novelty_threshold == p.novelty_threshold
    &&& v.accepted == (finite_seq(features) && smallest(measured.examples@).at_most(
        p.novelty_threshold,
    ))
}

/// Showing where a sound lies and classifying it agree on whether it is
/// accepted.
pub proof fn location_and_class_agree(
    p: Parameters,
    features: Seq<Single>,
    measured: Distances,
    v: FeatureSpaceView,
    c: Classification,
)
    requires
        located(p, features, measured, v),
        classified(p, features, measured, c),
    ensures
        v.accepted == c.accepted,
{
}

/// Distances of one standardized feature vector, and the share of each centroid
/// in the confidence.
#[derive(Clone, Debug)]
pub struct Distances {
    /// To each example.
    pub examples: Vec<Single>,
    /// To each centroid.
    pub centroids: Vec<Single>,
    /// Confidence in each centroid's zone, were it the nearest.
    pub confidences: Vec<Single>,
}

impl Distances {
    /// One distance for every example, and two numbers for every zone.
    pub open spec fn covers(self, p: Parameters) -> bool {
        &&& self.examples@.len() == p.examples.len()
        &&& self.centroids@.len() == p.zone_ids.len()
        &&& self.confidences@.len() == p.zone_ids.len()
    }
}

/// Outcome of classifying one feature vector.
#[derive(Clone, Copy, Debug, PartialEq, Eq, Structural)]
pub struct Classification {
    /// The winning zone; `None` where the input was turned away.
    pub zone_id: Option<ZoneId>,
    /// Confidence in the winning zone.
    pub confidence: Single,
    /// Whether the input passed the threshold.
    pub accepted: bool,
}

/// `c` is the outcome for a vector with these features and distances.
pub open spec fn classified(
    p: Parameters,
    features: Seq<Single>,
    measured: Distances,
    c: Classification,
) -> bool {
    let passes = finite_seq(features) && smallest(measured.examples@).at_most(p.novelty_threshold);
    &&& c.accepted == passes
    &&& if passes && p.zone_ids.len() > 0 {
        exists|i: int|
            #![trigger first_least(measured.centroids@, i)]
            first_least(measured.centroids@, i) && c.zone_id == Some(p.zone_ids[i])
                && c.confidence == measured.confidences@[i]
    } else {
        c.zone_id is None && c.confidence == (Single { bits: ZERO })
    }
}

/// With parameters that are fit to classify with, a sound is accepted exactly
/// where it is given a zone, and the zone is one of the classifier's.
pub proof fn accepted_means_a_zone(
    p: Parameters,
    features: Seq<Single>,
    measured: Distances,
    c: Classification,
)
    requires
        p.well_formed(),
        measured.covers(p),
        classified(p, features, measured, c),
    ensures
        c.accepted <==> c.zone_id is Some,
        c.zone_id matches Some(z) ==> p.zone_ids.contains(z),
{
    if c.accepted && p.zone_ids.len() == 0 {
        if p.examples.len() > 0 {
            assert(p.examples[0].0 < p.zone_ids.len());
        }
        assert(smallest(measured.examples@) == (Single { bits: INFINITY }));
        assert(p.novelty_threshold.finite());
    }
}

/// Garbage is never a tap: a vector with a NaN or an infinity is not accepted,
/// whatever was measured of it.
pub proof fn garbage_is_rejected(
    p: Parameters,
    features: Seq<Single>,
    measured: Distances,
    c: Classification,
)
    requires
        !finite_seq(features),
        classified(p, features, measured, c),
    ensures
        !c.accepted,
        c.zone_id is None,
{
}

/// Two outcomes for the same input are the same.
pub proof fn classification_is_determined(
    p: Parameters,
    features: Seq<Single>,
    measured: Distances,
    c: Classification,
    d: Classification,
)
    requires
        classified(p, features, measured, c),
        classified(p, features, measured, d),
    ensures
        c == d,
{
    let passes = finite_seq(features) && smallest(measured.examples@).at_most(p.novelty_threshold);
    if passes && p.zone_ids.len() > 0 {
        let i = choose|i: int|
            #![trigger first_least(measured.centroids@, i)]
            first_least(measured.centroids@, i) && c.zone_id == Some(p.zone_ids[i])
                && c.confidence == measured.confidences@[i];
        let j = choose|i: int|
            #![trigger first_least(measured.centroids@, i)]
            first_least(measured.centroids@, i) && d.zone_id == Some(p.zone_ids[i])
                && d.confidence == measured.confidences@[i];
        crate::single::first_least_is_unique(measured.centroids@, i, j);
    }
}

/// Without a negative example at a finite distance the threshold is the bound on
/// the spreads, or the largest spread where that is farther out. It is never
/// zero or less.
pub proof fn spreads_set_the_open_threshold(
    spread_bound: Single,
    spreads: &[Single],
    negative_distances: &[Single],
    midpoint: Single,
    t: Single,
    k: int,
)
    requires
        call_ensures(novelty_threshold, (spread_bound, spreads, negative_distances, midpoint), t),
        finite_seq(spreads@),
        0 <= k < spreads@.len(),
        forall|i: int| 0 <= i < spreads@.len() ==> (#[trigger] spreads@[i]).at_most(spreads@[k]),
        forall|i: int|
            0 <= i < negative_distances@.len() ==> (#[trigger] negative_distances@[i]).nan()
                || negative_distances@[i] == (Single { bits: INFINITY }),
    ensures
        (Single { bits: 0 }).below(t),
        spreads@[k].at_most(t),
        (Single { bits: 0 }).below(spread_bound) && spreads@[k].at_most(spread_bound) ==> t
            == spread_bound,
        (Single { bits: 0 }).below(spreads@[k]) && !spreads@[k].at_most(spread_bound) ==> t.rank()
            == spreads@[k].rank(),
        !(Single { bits: 0 }).below(spread_bound) && !(Single { bits: 0 }).below(spreads@[k])
            ==> t == (Single { bits: 0x3586_37bd }),
{
    total_largest_bounds(spreads@);
    smallest_bounds(negative_distances@);
    let m = total_largest(spreads@);
    let i = spreads@.index_of(m);
    assert(spreads@[i] == m);
    assert(spreads@[k].finite());
    assert(spreads@[k].total_rank() <= m.total_rank());
    assert(m.rank() == spreads@[k].rank());
    let n = smallest(negative_distances@);
    if n.finite() {
        let j = negative_distances@.index_of(n);
        assert(negative_distances@[j] == n);
    }
}

/// A negative example pulls the threshold in to the midpoint and no farther.
/// Where the midpoint lies at the threshold that holds without negative examples
/// or beyond it, nothing changes; where it lies between the largest spread and
/// that threshold, the threshold is the midpoint; where it lies before the
/// largest spread, the threshold is the largest spread.
pub proof fn negatives_pull_the_threshold_to_the_midpoint(
    spread_bound: Single,
    spreads: &[Single],
    none: &[Single],
    negative_distances: &[Single],
    unused: Single,
    midpoint: Single,
    open: Single,
    t: Single,
    k: int,
    nearest: int,
)
    requires
        call_ensures(novelty_threshold, (spread_bound, spreads, none, unused), open),
        none@.len() == 0,
        call_ensures(novelty_threshold, (spread_bound, spreads, negative_distances, midpoint), t),
        finite_seq(spreads@),
        0 <= k < spreads@.len(),
        forall|i: int| 0 <= i < spreads@.len() ==> (#[trigger] spreads@[i]).at_most(spreads@[k]),
        0 <= nearest < negative_distances@.len(),
        negative_distances@[nearest].finite(),
        forall|i: int|
            0 <= i < negative_distances@.len() ==> !(
            #[trigger] negative_distances@[i]).below(negative_distances@[nearest]),
        !midpoint.nan(),
    ensures
        open.at_most(midpoint) ==> t == open,
        midpoint.below(open) && spreads@[k].at_most(midpoint) ==> t == midpoint,
        midpoint.below(spreads@[k]) ==> t.rank() == spreads@[k].rank(),
        t.at_most(open),
{
    total_largest_bounds(spreads@);
    smallest_bounds(negative_distances@);
    assert(smallest(none@) == (Single { bits: INFINITY }));
    let m = total_largest(spreads@);
    let i = spreads@.index_of(m);
    assert(spreads@[i] == m);
    assert(spreads@[k].finite());
    assert(spreads@[k].total_rank() <= m.total_rank());
    assert(m.rank() == spreads@[k].rank());
    let n = smallest(negative_distances@);
    assert(n.at_most(negative_distances@[nearest]));
    assert(n.finite()) by {
        let j = negative_distances@.index_of(n);
        assert(negative_distances@[j] == n);
    }
}

/// The same of the threshold's two formulas: far negatives leave it alone, and
/// nearer ones pull it in to the midpoint as far as the largest spread allows.
pub proof fn midpoints_bound_the_threshold(
    spread_bound: Single,
    spread_max: Single,
    nearest_negative: Single,
    midpoint: Single,
)
    requires
        nearest_negative.finite(),
        !spread_max.nan(),
        !midpoint.nan(),
    ensures
        open_gate(spread_bound, spread_max).at_most(midpoint) ==> gate(
            spread_bound,
            spread_max,
            nearest_negative,
            midpoint,
        ) == open_gate(spread_bound, spread_max),
        spread_max.at_most(midpoint) && midpoint.below(open_gate(spread_bound, spread_max))
            ==> gate(spread_bound, spread_max, nearest_negative, midpoint) == midpoint,
        midpoint.below(spread_max) ==> gate(spread_bound, spread_max, nearest_negative, midpoint)
            == spread_max,
{
}

/// A sound is accepted exactly where its features are finite and some example
/// lies within the threshold.
pub proof fn one_near_example_is_enough(
    p: Parameters,
    features: Seq<Single>,
    measured: Distances,
    c: Classification,
)
    requires
        p.well_formed(),
        classified(p, features, measured, c),
    ensures
        c.accepted <==> finite_seq(features) && exists|k: int|
            0 <= k < measured.examples@.len() && (#[trigger] measured.examples@[k]).at_most(
                p.novelty_threshold,
            ),
{
    let ex = measured.examples@;
    smallest_bounds(ex);
    if c.accepted {
        assert(p.novelty_threshold.finite());
        assert(ex.contains(smallest(ex)));
        let k = ex.index_of(smallest(ex));
        assert(ex[k].at_most(p.novelty_threshold));
    }
}

/// An accepted sound goes to the zone whose centroid is nearest, the earliest of
/// several, with that zone's confidence. One that is turned away has no zone and
/// no confidence.
pub proof fn the_nearest_zone_wins(
    p: Parameters,
    features: Seq<Single>,
    measured: Distances,
    c: Classification,
) -> (i: int)
    requires
        p.well_formed(),
        measured.covers(p),
        finite_seq(measured.centroids@),
        classified(p, features, measured, c),
    ensures
        c.accepted ==> 0 <= i < p.zone_ids.len() && c.zone_id == Some(p.zone_ids[i])
            && c.confidence == measured.confidences@[i],
        c.accepted ==> forall|j: int|
            0 <= j < p.zone_ids.len() ==> measured.centroids@[i].at_most(
                #[trigger] measured.centroids@[j],
            ),
        !c.accepted ==> c.zone_id is None && c.confidence == (Single { bits: 0 }),
{
    accepted_means_a_zone(p, features, measured, c);
    if c.accepted {
        let i = choose|i: int|
            #![trigger first_least(measured.centroids@, i)]
            first_least(measured.centroids@, i) && c.zone_id == Some(p.zone_ids[i])
                && c.confidence == measured.confidences@[i];
        assert(measured.centroids@[i].finite());
        assert forall|j: int| 0 <= j < p.zone_ids.len() implies measured.centroids@[i].at_most(
            #[trigger] measured.centroids@[j],
        ) by {
            assert(measured.centroids@[j].finite());
        }
        i
    } else {
        0
    }
}

/// What is shown of a sound is what it is judged by: every zone in order with its
/// distance, the distance of the nearest example, the threshold, and whether the
/// one lies within the other. What is accepted is given a zone that is shown as
/// near as any.
pub proof fn locations_show_what_is_judged(
    p: Parameters,
    features: Seq<Single>,
    measured: Distances,
    v: FeatureSpaceView,
    c: Classification,
    j: int,
)
    requires
        p.well_formed(),
        measured.covers(p),
        finite_seq(measured.centroids@),
        located(p, features, measured, v),
        classified(p, features, measured, c),
        0 <= j < p.zone_ids.len(),
    ensures
        v.zones@.len() == p.zone_ids.len(),
        v.zones@[j].zone_id == p.zone_ids[j],
        finite_seq(features) ==> v.zones@[j].centroid_distance == measured.centroids@[j],
        !finite_seq(features) ==> v.zones@[j].centroid_distance == (Single { bits: 0x7f80_0000 })
            && v.nearest_example_distance == (Single { bits: 0x7f80_0000 }),
        forall|k: int|
            0 <= k < measured.examples@.len() && !(#[trigger] measured.examples@[k]).nan()
                && finite_seq(features) ==> v.nearest_example_distance.at_most(
                measured.examples@[k],
            ),
        v.novelty_threshold == p.novelty_threshold,
        v.accepted <==> v.nearest_example_distance.at_most(v.novelty_threshold),
        v.accepted <==> c.accepted,
        v.accepted ==> exists|i: int|
            0 <= i < v.zones@.len() && Some((#[trigger] v.zones@[i]).zone_id) == c.zone_id
                && v.zones@[i].centroid_distance.at_most(v.zones@[j].centroid_distance),
{
    smallest_bounds(measured.examples@);
    assert(p.novelty_threshold.finite());
    assert(v.zones@[j].zone_id == p.zone_ids[j]);
    let i = the_nearest_zone_wins(p, features, measured, c);
    if c.accepted {
        assert(v.zones@[i].zone_id == p.zone_ids[i]);
        assert(measured.centroids@[i].at_most(measured.centroids@[j]));
    }
}

/// Zones are listed by their first sample: the sample that a zone is first seen
/// with comes before every sample of the zones listed after it.
pub proof fn zones_are_listed_by_their_first_sample(labels: Seq<ZoneId>, i: int, j: int) -> (m: int)
    requires
        0 <= i < j < first_seen(labels).len(),
    ensures
        0 <= m < labels.len(),
        labels[m] == first_seen(labels)[i],
        forall|q: int| 0 <= q <= m ==> #[trigger] labels[q] != first_seen(labels)[j],
    decreases labels.len(),
{
    let t = labels.drop_last();
    let before = first_seen(t);
    first_seen_lists_each_label_once(t);
    if j < before.len() {
        let m = zones_are_listed_by_their_first_sample(t, i, j);
        assert forall|q: int| 0 <= q <= m implies #[trigger] labels[q] != first_seen(labels)[j] by {
            assert(t[q] == labels[q]);
        }
        m
    } else {
        assert(before.contains(before[i]));
        let m = t.index_of(before[i]);
        assert(t.contains(before[i]));
        assert forall|q: int| 0 <= q <= m implies #[trigger] labels[q] != first_seen(labels)[j] by {
            assert(t[q] == labels[q]);
            assert(t.contains(t[q]));
            assert(before.contains(t[q]));
        }
        m
    }
}

proof fn occurrences_count(s: Seq<ZoneId>, x: ZoneId)
    ensures
        occurrences(s, x) == s.to_multiset().count(x),
    decreases s.len(),
{
    s.to_multiset_ensures();
    if s.len() > 0 {
        let t = s.drop_last();
        occurrences_count(t, x);
        t.to_multiset_ensures();
        assert(s =~= t.push(s.last()));
    }
}

/// A plan has every zone of the samples once, sends every sample to its own zone,
/// and counts the samples of each.
pub proof fn plans_sort_samples_by_zone(
    samples: &[(ZoneId, FeatureVector)],
    plan: ZonePlan,
    i: int,
    z: int,
)
    requires
        call_ensures(plan_zones, (samples,), Ok(plan)),
        0 <= i < samples@.len(),
        0 <= z < plan.zone_ids@.len(),
    ensures
        plan.zone_ids@.no_duplicates(),
        plan.zone_of@.len() == samples@.len(),
        plan.zone_of@[i] < plan.zone_ids@.len(),
        plan.zone_ids@[plan.zone_of@[i] as int] == samples@[i].0,
        plan.counts@.len() == plan.zone_ids@.len(),
        plan.counts@[z] == Seq::new(
            samples@.len(),
            |k: int| samples@[k].0,
        ).to_multiset().count(plan.zone_ids@[z]),
        exists|k: int| 0 <= k < samples@.len() && (#[trigger] samples@[k]).0 == plan.zone_ids@[z],
{
    let labels = labels_of(samples@);
    first_seen_lists_each_label_once(labels);
    occurrences_count(labels, plan.zone_ids@[z]);
    assert(labels =~= Seq::new(samples@.len(), |k: int| samples@[k].0));
    assert(first_seen(labels).contains(plan.zone_ids@[z]));
    let k = labels.index_of(plan.zone_ids@[z]);
    assert(samples@[k].0 == plan.zone_ids@[z]);
}

/// A trained classifier keeps every sample as an example of its own zone, in
/// order, knows each zone once, and has its statistics, its centroids and its
/// threshold from what was measured.
pub proof fn training_keeps_every_sample(
    samples: &[(ZoneId, FeatureVector)],
    negatives: &[FeatureVector],
    fit: Fit,
    p: ClassifierParams,
    spreads: &[Single],
    negative_distances: &[Single],
    t: Single,
    i: int,
)
    requires
        fit.covers(samples@.len(), negatives@.len()),
        call_ensures(ClassifierParams::train, (samples, negatives, fit), Ok(p)),
        spreads@ == fit.spreads@,
        negative_distances@ == fit.negative_distances@,
        call_ensures(
            novelty_threshold,
            (fit.spread_bound, spreads, negative_distances, fit.midpoint),
            t,
        ),
        0 <= i < samples@.len(),
    ensures
        p.schema_version == 1,
        p.examples@.len() == samples@.len(),
        p.examples@[i].zone < p.zone_ids@.len(),
        p.zone_ids@[p.examples@[i].zone as int] == samples@[i].0,
        p.examples@[i].v@ == fit.standardized@[i]@,
        p.zone_ids@.no_duplicates(),
        p.feature_mean@ == fit.feature_mean@,
        p.feature_std@ == fit.feature_std@,
        p.centroids@.len() == fit.centroids@.len() && p.centroids@.len() == p.zone_ids@.len(),
        forall|z: int|
            0 <= z < p.centroids@.len() ==> (#[trigger] p.centroids@[z])@ == fit.centroids@[z]@,
        p.novelty_threshold == t,
        p.negative_examples_trained <==> negatives@.len() > 0,
{
    let labels = labels_of(samples@);
    first_seen_lists_each_label_once(labels);
    let model = trained(labels, zone_positions(labels), fit);
    assert(p@ == model);
    assert(p@.examples.len() == p.examples@.len());
    assert(p@.examples[i] == p.examples@[i]@);
    assert(p@.examples[i] == model.examples[i]);
    assert(labels.contains(labels[i]));
    assert(first_seen(labels).contains(labels[i]));
    assert(p@.centroids.len() == p.centroids@.len());
    assert forall|z: int| 0 <= z < p.centroids@.len() implies (#[trigger] p.centroids@[z])@
        == fit.centroids@[z]@ by {
        assert(p@.centroids[z] == rows(fit.centroids@)[z]);
    }
}

/// Parameters are taken exactly where means, deviations, centroids and examples
/// have one number per feature, every zone has its centroid, every example
/// belongs to a zone, no number is a NaN or infinite, and every deviation is
/// above zero.
pub proof fn valid_parameters_fit_together(p: &ClassifierParams, r: Result<(), ClassifierError>)
    requires
        call_ensures(ClassifierParams::validate, (p,), r),
    ensures
        r is Ok <==> {
            &&& p.feature_mean@.len() == 34 && p.feature_std@.len() == 34
            &&& p.centroids@.len() == p.zone_ids@.len()
            &&& finite_seq(p.feature_mean@)
            &&& forall|i: int|
                0 <= i < p.centroids@.len() ==> (#[trigger] p.centroids@[i])@.len() == 34
                    && finite_seq(p.centroids@[i]@)
            &&& forall|i: int|
                0 <= i < p.examples@.len() ==> (#[trigger] p.examples@[i]).v@.len() == 34
                    && finite_seq(p.examples@[i].v@) && p.examples@[i].zone < p.zone_ids@.len()
            &&& forall|i: int|
                0 <= i < p.feature_std@.len() ==> (#[trigger] p.feature_std@[i]).finite() && (
                Single { bits: 0 }).below(p.feature_std@[i])
            &&& p.novelty_threshold.finite()
        },
{
    let m = p@;
    assert(m.centroids.len() == p.centroids@.len());
    assert(m.examples.len() == p.examples@.len());
    if r is Ok {
        assert forall|i: int| 0 <= i < p.centroids@.len() implies (
        #[trigger] p.centroids@[i])@.len() == 34 && finite_seq(p.centroids@[i]@) by {
            assert(m.centroids[i].len() == FEATURE_DIM);
        }
        assert forall|i: int| 0 <= i < p.examples@.len() implies (#[trigger] p.examples@[i]).v@.len()
            == 34 && finite_seq(p.examples@[i].v@) && p.examples@[i].zone < p.zone_ids@.len() by {
            assert(m.examples[i].1.len() == FEATURE_DIM);
        }
        assert forall|i: int| 0 <= i < p.feature_std@.len() implies (
        #[trigger] p.feature_std@[i]).finite() && (Single { bits: 0 }).below(p.feature_std@[i]) by {
            assert(m.feature_std[i].finite());
            assert(!m.feature_std[i].at_most(Single { bits: ZERO }));
        }
    } else {
        if m.feature_mean.len() == 34 && m.feature_std.len() == 34 && m.centroids.len()
            == m.zone_ids.len() {
            if !m.centroids_fit() {
                let i = choose|i: int|
                    0 <= i < m.centroids.len() && (#[trigger] m.centroids[i]).len() != FEATURE_DIM;
                assert(p.centroids@[i]@.len() != 34);
            } else if !m.examples_fit() {
                let i = choose|i: int|
                    0 <= i < m.examples.len() && !((#[trigger] m.examples[i]).1.len()
                        == FEATURE_DIM && 0 <= m.examples[i].0 < m.zone_ids.len());
                let ex = p.examples@[i];
                assert(m.examples[i] == ex@);
            } else if !m.numbers_finite() {
                if !finite_seq(m.feature_std) {
                    let i = choose|i: int|
                        0 <= i < m.feature_std.len() && !(#[trigger] m.feature_std[i]).finite();
                    assert(!p.feature_std@[i].finite());
                } else if exists|i: int|
                    0 <= i < m.centroids.len() && !finite_seq(#[trigger] m.centroids[i]) {
                    let i = choose|i: int|
                        0 <= i < m.centroids.len() && !finite_seq(#[trigger] m.centroids[i]);
                    assert(!finite_seq(p.centroids@[i]@));
                } else if exists|i: int|
                    0 <= i < m.examples.len() && !finite_seq((#[trigger] m.examples[i]).1) {
                    let i = choose|i: int|
                        0 <= i < m.examples.len() && !finite_seq((#[trigger] m.examples[i]).1);
                    assert(!finite_seq(p.examples@[i].v@));
                }
            } else {
                let i = choose|i: int|
                    0 <= i < m.feature_std.len() && (#[trigger] m.feature_std[i]).at_most(
                        Single { bits: ZERO },
                    );
                assert(!(Single { bits: 0 }).below(p.feature_std@[i]));
            }
        }
    }
}

/// Parameters that are refused for a number that is not finite have the right shape
/// in every part, and one that is not finite; shapes are looked at first.
pub proof fn shapes_are_looked_at_first(p: &ClassifierParams, e: ClassifierError)
    requires
        call_ensures(ClassifierParams::validate, (p,), Err(e)),
    ensures
        !(e is EmptyTrainingSet),
        e is NonFiniteParameters ==> {
            &&& p.feature_mean@.len() == 34 && p.feature_std@.len() == 34
            &&& p.centroids@.len() == p.zone_ids@.len()
            &&& forall|i: int|
                0 <= i < p.centroids@.len() ==> (#[trigger] p.centroids@[i])@.len() == 34
            &&& forall|i: int|
                0 <= i < p.examples@.len() ==> (#[trigger] p.examples@[i]).v@.len() == 34
                    && p.examples@[i].zone < p.zone_ids@.len()
        },
        p.feature_mean@.len() == 34 && p.feature_std@.len() == 34 && p.centroids@.len()
            == p.zone_ids@.len() && (forall|i: int|
            0 <= i < p.centroids@.len() ==> (#[trigger] p.centroids@[i])@.len() == 34) && (forall|
            i: int,
        |
            0 <= i < p.examples@.len() ==> (#[trigger] p.examples@[i]).v@.len() == 34
                && p.examples@[i].zone < p.zone_ids@.len()) && !p.novelty_threshold.finite()
            ==> e is NonFiniteParameters,
{
    let m = p@;
    assert(m.centroids.len() == p.centroids@.len());
    assert(m.examples.len() == p.examples@.len());
    if m.centroids_fit() {
        assert forall|i: int| 0 <= i < p.centroids@.len() implies (
        #[trigger] p.centroids@[i])@.len() == 34 by {
            assert(m.centroids[i].len() == FEATURE_DIM);
        }
    } else {
        let i = choose|i: int|
            0 <= i < m.centroids.len() && (#[trigger] m.centroids[i]).len() != FEATURE_DIM;
        assert(p.centroids@[i]@.len() != 34);
    }
    if m.examples_fit() {
        assert forall|i: int| 0 <= i < p.examples@.len() implies (#[trigger] p.examples@[i]).v@.len()
            == 34 && p.examples@[i].zone < p.zone_ids@.len() by {
            assert(m.examples[i].1.len() == FEATURE_DIM);
        }
    } else {
        let i = choose|i: int|
            0 <= i < m.examples.len() && !((#[trigger] m.examples[i]).1.len() == FEATURE_DIM && 0
                <= m.examples[i].0 < m.zone_ids.len());
        let ex = p.examples@[i];
        assert(m.examples[i] == ex@);
    }
}

} // verus!
