//! Calibration: judging the room and each tap, collecting samples zone by zone,
//! checking them against each other, and building a profile.

use vstd::prelude::*;

use crate::classifier::{
    accepted_means_a_zone, classified, first_seen, first_seen_lists_each_label_once,
    garbage_is_rejected, gate, labels_of, reports, rows, trained, zone_positions, Classification,
    ClassifierError, ClassifierParams, Distances, Fit, Parameters,
};
use crate::features::{FeatureVector, FEATURE_WINDOW_SAMPLES, SAMPLE_RATE_HZ};
use crate::ids::{ProfileId, ZoneId};
use crate::profile::{
    classifier_error_text, DeviceFingerprint, Profile, SensingMode, Timestamp, Zone, ZoneLayout,
    PROFILE_SCHEMA_VERSION,
};
use crate::single::{finite_seq, smallest, total_largest, Single, ZERO};
use crate::text::{decimal, decimal_text, join, join3};

verus! {

/// Accepted taps that a zone is calibrated with.
pub const DEFAULT_TAPS_PER_ZONE: usize = 10;

/// Fewest samples of a zone that can be checked or built from.
pub const MIN_SAMPLES_PER_ZONE: usize = 2;

/// Encoding of the peak from which on a tap is clipped, `0.98`.
pub const CLIP_PEAK: u32 = 0x3f7a_e148;

/// Encoding of the loudness below which a window is silence, `1e-6`.
pub const WEAK_RMS: u32 = 0x3586_37bd;

/// Encoding of the noise from which on a room is no longer quiet, `0.01`.
pub const ENV_QUIET_MAX: u32 = 0x3c23_d70a;

/// Encoding of the noise from which on a room is too noisy, `0.05`.
pub const ENV_MODERATE_MAX: u32 = 0x3d4c_cccd;

/// What is said of one tap right after it.
#[derive(Clone, Copy, Debug, PartialEq, Eq, Structural)]
pub enum TapFeedback {
    Accepted,
    TooWeak,
    Clipped,
    MaskedByNoise,
}

impl TapFeedback {
    pub fn is_accepted(self) -> (r: bool)
        ensures
            r == (self == TapFeedback::Accepted),
    {
        self == TapFeedback::Accepted
    }

    pub open spec fn reason_text(self) -> Seq<char> {
        match self {
            TapFeedback::Accepted => "accepted"@,
            TapFeedback::TooWeak => "too weak — tap a little harder"@,
            TapFeedback::Clipped => "clipped — tap more gently or lower input gain"@,
            TapFeedback::MaskedByNoise => "masked by background noise"@,
        }
    }

    /// The feedback in words.
    pub fn reason(self) -> (s: &'static str)
        ensures
            s@ == self.reason_text(),
    {
        match self {
            TapFeedback::Accepted => "accepted",
            TapFeedback::TooWeak => "too weak — tap a little harder",
            TapFeedback::Clipped => "clipped — tap more gently or lower input gain",
            TapFeedback::MaskedByNoise => "masked by background noise",
        }
    }
}

/// How noisy the room is.
#[derive(Clone, Copy, Debug, PartialEq, Eq, Structural)]
pub enum EnvironmentQuality {
    Quiet,
    Moderate,
    TooNoisy,
}

impl EnvironmentQuality {
    /// Whether calibration may go on in this room.
    pub fn passes(self) -> (r: bool)
        ensures
            r == (self != EnvironmentQuality::TooNoisy),
    {
        !(self == EnvironmentQuality::TooNoisy)
    }
}

/// The verdict on a noise level.
pub open spec fn environment(noise_rms: Single) -> EnvironmentQuality {
    if !noise_rms.finite() || (Single { bits: ENV_MODERATE_MAX }).at_most(noise_rms) {
        EnvironmentQuality::TooNoisy
    } else if (Single { bits: ENV_QUIET_MAX }).at_most(noise_rms) {
        EnvironmentQuality::Moderate
    } else {
        EnvironmentQuality::Quiet
    }
}

/// Judge the room by its noise level.
pub fn assess_environment(noise_rms: Single) -> (q: EnvironmentQuality)
    ensures
        q == environment(noise_rms),
{
    if !noise_rms.is_finite() || (Single { bits: ENV_MODERATE_MAX }).le(noise_rms) {
        EnvironmentQuality::TooNoisy
    } else if (Single { bits: ENV_QUIET_MAX }).le(noise_rms) {
        EnvironmentQuality::Moderate
    } else {
        EnvironmentQuality::Quiet
    }
}

/// A louder room is never judged better.
pub proof fn louder_rooms_rank_no_better(a: Single, b: Single)
    requires
        a.at_most(b),
        a.finite(),
    ensures
        environment(b) == EnvironmentQuality::Quiet ==> environment(a)
            == EnvironmentQuality::Quiet,
        environment(b) == EnvironmentQuality::Moderate ==> environment(a)
            != EnvironmentQuality::TooNoisy,
{
}

/// Some sample of the window reaches the clipping peak.
pub open spec fn clips(window: Seq<Single>) -> bool {
    exists|i: int|
        0 <= i < window.len() && (Single { bits: CLIP_PEAK }).at_most(
            (#[trigger] window[i]).unsigned(),
        )
}

/// The verdict on a window whose first samples have loudness `onset_rms`, in a
/// room with this noise; `mask_level` is the loudness that stands out of it.
pub open spec fn feedback(
    window: Seq<Single>,
    noise_floor: Single,
    mask_level: Single,
    onset_rms: Single,
) -> TapFeedback {
    if window.len() == 0 || !finite_seq(window) {
        TapFeedback::TooWeak
    } else if clips(window) {
        TapFeedback::Clipped
    } else if onset_rms.below(Single { bits: WEAK_RMS }) {
        TapFeedback::TooWeak
    } else if (Single { bits: ZERO }).below(noise_floor) && onset_rms.below(mask_level) {
        TapFeedback::MaskedByNoise
    } else {
        TapFeedback::Accepted
    }
}

/// Judge one captured window. `onset_rms` is the loudness of its first
/// [`onset_edge`] samples; a noise floor of `0.0` (unknown) masks nothing.
pub fn assess_tap(
    window: &[Single],
    noise_floor: Single,
    mask_level: Single,
    onset_rms: Single,
) -> (r: TapFeedback)
    ensures
        r == feedback(window@, noise_floor, mask_level, onset_rms),
{
    if window.len() == 0 {
        return TapFeedback::TooWeak;
    }
    let mut clipped: bool = false;
    let mut i: usize = 0;
    while i < window.len()
        invariant
            i <= window@.len(),
            forall|j: int| 0 <= j < i ==> (#[trigger] window@[j]).finite(),
            clipped <==> exists|j: int|
                0 <= j < i && (Single { bits: CLIP_PEAK }).at_most(
                    (#[trigger] window@[j]).unsigned(),
                ),
        decreases window@.len() - i,
    {
        let s: Single = window[i];
        if !s.is_finite() {
            return TapFeedback::TooWeak;
        }
        let ghost was = clipped;
        let hits: bool = (Single { bits: CLIP_PEAK }).le(s.abs());
        clipped = clipped || hits;
        i += 1;
        proof {
            if clipped {
                if was {
                    let j = choose|j: int|
                        0 <= j < i - 1 && (Single { bits: CLIP_PEAK }).at_most(
                            (#[trigger] window@[j]).unsigned(),
                        );
                    assert((Single { bits: CLIP_PEAK }).at_most(window@[j].unsigned()));
                } else {
                    assert((Single { bits: CLIP_PEAK }).at_most(window@[i - 1].unsigned()));
                }
            }
        }
    }
    if clipped {
        TapFeedback::Clipped
    } else if onset_rms.lt(Single { bits: WEAK_RMS }) {
        TapFeedback::TooWeak
    } else if (Single { bits: ZERO }).lt(noise_floor) && onset_rms.lt(mask_level) {
        TapFeedback::MaskedByNoise
    } else {
        TapFeedback::Accepted
    }
}

/// How many samples at the start of a window the loudness is measured over:
/// fifteen milliseconds, or the whole of a shorter window.
pub fn onset_edge(n: usize) -> (edge: usize)
    requires
        n >= 1,
    ensures
        edge == if SAMPLE_RATE_HZ * 15 / 1000 < n {
            SAMPLE_RATE_HZ * 15 / 1000
        } else {
            n as int
        },
        1 <= edge <= n,
{
    let span: usize = SAMPLE_RATE_HZ as usize * 15 / 1000;
    if span < n {
        span
    } else {
        n
    }
}

/// How many of a zone's samples were recognised when held out.
#[derive(Clone, Copy, Debug, PartialEq, Eq, Structural)]
pub struct ZoneAccuracy {
    pub correct: usize,
    pub total: usize,
}

impl ZoneAccuracy {
    /// Below four in five.
    pub open spec fn poor(self) -> bool {
        5 * self.correct < 4 * self.total
    }
}

/// Outcome of the leave-one-out check.
#[derive(Clone, Debug)]
pub struct ConsistencyReport {
    /// Per zone, in the order of the zones.
    pub per_zone_accuracy: Vec<ZoneAccuracy>,
    /// Positions of the zones with an accuracy below four in five.
    pub inconsistent_zones: Vec<usize>,
}

/// The positions at which the accuracy is poor, in order.
pub open spec fn poor_zones(acc: Seq<ZoneAccuracy>) -> Seq<usize>
    decreases acc.len(),
{
    if acc.len() == 0 {
        Seq::empty()
    } else {
        let before = poor_zones(acc.drop_last());
        if acc.last().poor() {
            before.push((acc.len() - 1) as usize)
        } else {
            before
        }
    }
}

impl ConsistencyReport {
    pub fn all_consistent(&self) -> (r: bool)
        ensures
            r == (self.inconsistent_zones@.len() == 0),
    {
        self.inconsistent_zones.len() == 0
    }
}

/// Exactly the poor zones are reported, in order.
pub proof fn poor_zones_are_those_below_four_in_five(acc: Seq<ZoneAccuracy>)
    requires
        acc.len() <= usize::MAX,
    ensures
        forall|z: usize| #[trigger]
            poor_zones(acc).contains(z) <==> z < acc.len() && acc[z as int].poor(),
        forall|i: int, j: int|
            0 <= i < j < poor_zones(acc).len() ==> (#[trigger] poor_zones(acc)[i])
                < #[trigger] poor_zones(acc)[j],
    decreases acc.len(),
{
    if acc.len() > 0 {
        let t = acc.drop_last();
        poor_zones_are_those_below_four_in_five(t);
        let before = poor_zones(t);
        let now = poor_zones(acc);
        let n = (acc.len() - 1) as usize;
        assert forall|z: usize| #[trigger] now.contains(z) <==> z < acc.len()
            && acc[z as int].poor() by {
            if now.contains(z) {
                let k = now.index_of(z);
                if k < before.len() {
                    assert(before[k] == z);
                    assert(before.contains(z));
                }
            }
            if z < acc.len() && acc[z as int].poor() {
                if z < t.len() {
                    assert(t[z as int] == acc[z as int]);
                    assert(before.contains(z));
                    let k = before.index_of(z);
                    assert(now[k] == z);
                } else {
                    assert(now[before.len() as int] == z);
                }
            }
        }
        assert forall|i: int, j: int| 0 <= i < j < now.len() implies (#[trigger] now[i])
            < #[trigger] now[j] by {
            assert(before.contains(before[i]));
            if j < before.len() {
                assert(before[i] < before[j]);
            }
        }
    }
}

/// Why calibration cannot go on.
#[derive(Clone, Debug)]
pub enum CalibrationError {
    /// Fewer than two zones.
    NotEnoughZones { have: usize },
    /// A zone has too few samples.
    NotEnoughSamples { zone: usize, have: usize, need: usize },
    /// Labels and layouts were not given for every zone.
    ZoneMetaMismatch { zones: usize, meta: usize },
    /// Samples were not given for every zone.
    SampleGroupCountMismatch { zones: usize, groups: usize },
    /// No classifier could be fitted.
    Training(ClassifierError),
}

impl CalibrationError {
    /// The error in words; zones count from one.
    pub open spec fn text(&self) -> Seq<char> {
        match self {
            CalibrationError::NotEnoughZones { have } =>
                "need at least 2 zones to calibrate, got "@ + decimal(*have as nat),
            CalibrationError::NotEnoughSamples { zone, have, need } => "zone "@ + decimal(
                (*zone + 1) as nat,
            ) + " has "@ + decimal(*have as nat) + " samples, needs at least "@ + decimal(
                *need as nat,
            ),
            CalibrationError::ZoneMetaMismatch { zones, meta } => decimal(*meta as nat)
                + " zone labels/layouts provided for "@ + decimal(*zones as nat) + " zones"@,
            CalibrationError::SampleGroupCountMismatch { zones, groups } => decimal(*groups as nat)
                + " sample groups provided for "@ + decimal(*zones as nat) + " zones"@,
            CalibrationError::Training(e) => "could not train classifier: "@
                + classifier_error_text(*e),
        }
    }

    pub fn describe(&self) -> (s: String)
        requires
            *self matches CalibrationError::NotEnoughSamples { zone, .. } ==> zone < usize::MAX,
        ensures
            s@ == self.text(),
    {
        match self {
            CalibrationError::NotEnoughZones { have } => {
                let have = decimal_text(*have as u64);
                join("need at least 2 zones to calibrate, got ", &have)
            },
            CalibrationError::NotEnoughSamples { zone, have, need } => {
                let zone = decimal_text((*zone + 1) as u64);
                let have = decimal_text(*have as u64);
                let need = decimal_text(*need as u64);
                let start = join3("zone ", &zone, " has ");
                join3(&join(&start, &have), " samples, needs at least ", &need)
            },
            CalibrationError::ZoneMetaMismatch { zones, meta } => {
                let zones = decimal_text(*zones as u64);
                let meta = decimal_text(*meta as u64);
                let start = join3(&meta, " zone labels/layouts provided for ", &zones);
                join(&start, " zones")
            },
            CalibrationError::SampleGroupCountMismatch { zones, groups } => {
                let zones = decimal_text(*zones as u64);
                let groups = decimal_text(*groups as u64);
                let start = join3(&groups, " sample groups provided for ", &zones);
                join(&start, " zones")
            },
            CalibrationError::Training(e) => join("could not train classifier: ", &e.describe()),
        }
    }
}

/// What is wrong with the numbers of zones and samples: too few zones, groups
/// that do not match them, or the first zone with too few samples.
pub open spec fn count_error(zones: nat, groups: Seq<nat>, e: CalibrationError) -> bool {
    if zones < 2 {
        e matches CalibrationError::NotEnoughZones { have } && have == zones
    } else if groups.len() != zones {
        e matches CalibrationError::SampleGroupCountMismatch { zones: z, groups: g } && z == zones
            && g == groups.len()
    } else {
        e matches CalibrationError::NotEnoughSamples { zone, have, need } && zone < groups.len()
            && have == groups[zone as int] && have < MIN_SAMPLES_PER_ZONE && need
            == MIN_SAMPLES_PER_ZONE && forall|j: int|
            0 <= j < zone ==> #[trigger] groups[j] >= MIN_SAMPLES_PER_ZONE
    }
}

/// There are two zones or more, and every one has enough samples.
pub open spec fn counts_fit(zones: nat, groups: Seq<nat>) -> bool {
    &&& zones >= 2
    &&& groups.len() == zones
    &&& forall|i: int| 0 <= i < groups.len() ==> #[trigger] groups[i] >= MIN_SAMPLES_PER_ZONE
}

/// The contents of the sample groups.
pub open spec fn groups_of(v: Seq<Vec<FeatureVector>>) -> Seq<Seq<FeatureVector>> {
    Seq::new(v.len(), |i: int| v[i]@)
}

/// How many samples each zone has.
pub open spec fn group_sizes(groups: Seq<Seq<FeatureVector>>) -> Seq<nat> {
    Seq::new(groups.len(), |i: int| groups[i].len())
}

fn validate_counts(zone_ids: &[ZoneId], per_zone_samples: &[Vec<FeatureVector>]) -> (r: Result<
    (),
    CalibrationError,
>)
    ensures
        r is Ok <==> counts_fit(zone_ids@.len(), group_sizes(groups_of(per_zone_samples@))),
        r matches Err(e) ==> count_error(zone_ids@.len(), group_sizes(groups_of(per_zone_samples@)), e),
{
    if zone_ids.len() < 2 {
        return Err(CalibrationError::NotEnoughZones { have: zone_ids.len() });
    }
    if per_zone_samples.len() != zone_ids.len() {
        return Err(
            CalibrationError::SampleGroupCountMismatch {
                zones: zone_ids.len(),
                groups: per_zone_samples.len(),
            },
        );
    }
    let ghost sizes = group_sizes(groups_of(per_zone_samples@));
    let mut i: usize = 0;
    while i < per_zone_samples.len()
        invariant
            i <= per_zone_samples@.len(),
            sizes == group_sizes(groups_of(per_zone_samples@)),
            zone_ids@.len() >= 2,
            per_zone_samples@.len() == zone_ids@.len(),
            forall|j: int| 0 <= j < i ==> #[trigger] sizes[j] >= MIN_SAMPLES_PER_ZONE,
        decreases per_zone_samples@.len() - i,
    {
        let have: usize = per_zone_samples[i].len();
        proof {
            assert(sizes[i as int] == have);
        }
        if have < MIN_SAMPLES_PER_ZONE {
            return Err(
                CalibrationError::NotEnoughSamples { zone: i, have, need: MIN_SAMPLES_PER_ZONE },
            );
        }
        i += 1;
    }
    Ok(())
}

/// The samples of one zone, labelled.
pub open spec fn labelled(zone: ZoneId, group: Seq<FeatureVector>) -> Seq<(ZoneId, FeatureVector)> {
    Seq::new(group.len(), |i: int| (zone, group[i]))
}

/// All samples of the first `n` zones, labelled, zone after zone.
pub open spec fn training_set(
    zone_ids: Seq<ZoneId>,
    groups: Seq<Seq<FeatureVector>>,
    n: int,
) -> Seq<(ZoneId, FeatureVector)>
    decreases n,
{
    if n <= 0 {
        Seq::empty()
    } else {
        training_set(zone_ids, groups, n - 1) + labelled(zone_ids[n - 1], groups[n - 1])
    }
}

/// As [`training_set`], without sample `held_out` of zone `zone`.
pub open spec fn training_without(
    zone_ids: Seq<ZoneId>,
    groups: Seq<Seq<FeatureVector>>,
    zone: int,
    held_out: int,
    n: int,
) -> Seq<(ZoneId, FeatureVector)>
    decreases n,
{
    if n <= 0 {
        Seq::empty()
    } else {
        training_without(zone_ids, groups, zone, held_out, n - 1) + labelled(
            zone_ids[n - 1],
            if n - 1 == zone {
                groups[n - 1].remove(held_out)
            } else {
                groups[n - 1]
            },
        )
    }
}

/// The labelled samples of all zones, but for `held_out` where there is one.
fn collect_training(
    zone_ids: &[ZoneId],
    groups: &[Vec<FeatureVector>],
    held_out: Option<(usize, usize)>,
) -> (t: Vec<(ZoneId, FeatureVector)>)
    requires
        groups@.len() == zone_ids@.len(),
        held_out matches Some((zone, k)) ==> zone < groups@.len() && k < groups@[zone as int]@.len(),
    ensures
        t@ == match held_out {
            Some((zone, k)) => training_without(
                zone_ids@,
                groups_of(groups@),
                zone as int,
                k as int,
                groups@.len() as int,
            ),
            None => training_set(zone_ids@, groups_of(groups@), groups@.len() as int),
        },
{
    let mut t: Vec<(ZoneId, FeatureVector)> = Vec::new();
    let mut z: usize = 0;
    while z < groups.len()
        invariant
            z <= groups@.len(),
            groups@.len() == zone_ids@.len(),
            held_out matches Some((zone, k)) ==> zone < groups@.len() && k
                < groups@[zone as int]@.len(),
            t@ == match held_out {
                Some((zone, k)) => training_without(
                    zone_ids@,
                    groups_of(groups@),
                    zone as int,
                    k as int,
                    z as int,
                ),
                None => training_set(zone_ids@, groups_of(groups@), z as int),
            },
        decreases groups@.len() - z,
    {
        let ghost before = t@;
        proof {
            assert(groups_of(groups@)[z as int] == groups@[z as int]@);
        }
        let zone_id: ZoneId = zone_ids[z];
        let group = &groups[z];
        let skip: Option<usize> = match held_out {
            Some((zone, k)) if zone == z => Some(k),
            _ => None,
        };
        let ghost kept = match skip {
            Some(k) => group@.remove(k as int),
            None => group@,
        };
        let mut i: usize = 0;
        let ghost mut taken: int = 0;
        proof {
            assert(t@ =~= before + labelled(zone_id, kept).take(0));
        }
        while i < group.len()
            invariant
                i <= group@.len(),
                kept == match skip {
                    Some(k) => group@.remove(k as int),
                    None => group@,
                },
                skip matches Some(k) ==> k < group@.len(),
                taken == match skip {
                    Some(k) => if i > k {
                        i - 1
                    } else {
                        i as int
                    },
                    None => i as int,
                },
                t@ == before + labelled(zone_id, kept).take(taken),
            decreases group@.len() - i,
        {
            let leave: bool = match skip {
                Some(k) => k == i,
                None => false,
            };
            if !leave {
                t.push((zone_id, group[i]));
                proof {
                    assert(kept[taken] == group@[i as int]);
                    taken = taken + 1;
                    assert(t@ =~= before + labelled(zone_id, kept).take(taken));
                }
            }
            i += 1;
        }
        proof {
            assert(labelled(zone_id, kept).take(taken) =~= labelled(zone_id, kept));
        }
        z += 1;
    }
    t
}

/// The fitting function can be asked about any samples, and its answer covers
/// them.
pub open spec fn fits_any<F: Fn(&[(ZoneId, FeatureVector)], &[FeatureVector]) -> Fit>(
    fit: F,
) -> bool {
    &&& forall|s: &[(ZoneId, FeatureVector)], n: &[FeatureVector]| #[trigger]
        call_requires(fit, (s, n))
    &&& forall|s: &[(ZoneId, FeatureVector)], n: &[FeatureVector], f: Fit| #[trigger]
        call_ensures(fit, (s, n), f) ==> f.covers(s@.len(), n@.len())
}

/// The measuring function can be asked about any classifier that is fit to use,
/// and its answer covers it.
pub open spec fn measures_any<D: Fn(&ClassifierParams, &FeatureVector) -> Distances>(
    measure: D,
) -> bool {
    &&& forall|p: &ClassifierParams, v: &FeatureVector|
        p@.well_formed() ==> #[trigger] call_requires(measure, (p, v))
    &&& forall|p: &ClassifierParams, v: &FeatureVector, d: Distances|
        p@.well_formed() && #[trigger] call_ensures(measure, (p, v), d) ==> d.covers(p@)
}

/// `f` is an answer of the fitting function for these samples.
pub open spec fn fitted<F: Fn(&[(ZoneId, FeatureVector)], &[FeatureVector]) -> Fit>(
    fit: F,
    samples: Seq<(ZoneId, FeatureVector)>,
    negatives: Seq<FeatureVector>,
    f: Fit,
) -> bool {
    exists|s: &[(ZoneId, FeatureVector)], n: &[FeatureVector]|
        s@ == samples && n@ == negatives && #[trigger] call_ensures(fit, (s, n), f)
}

/// The parameters that training on these samples gives.
pub open spec fn model_of(samples: Seq<(ZoneId, FeatureVector)>, f: Fit) -> Parameters {
    trained(labels_of(samples), zone_positions(labels_of(samples)), f)
}

/// Trained on `others`, a classifier takes the vector for one of zone `zone`
/// (`hit`), or not.
pub open spec fn recognised<
    F: Fn(&[(ZoneId, FeatureVector)], &[FeatureVector]) -> Fit,
    D: Fn(&ClassifierParams, &FeatureVector) -> Distances,
>(
    fit: F,
    measure: D,
    others: Seq<(ZoneId, FeatureVector)>,
    vector: FeatureVector,
    zone: ZoneId,
    hit: bool,
) -> bool {
    exists|f: Fit, p: &ClassifierParams, d: Distances, c: Classification|
        {
            &&& fitted(fit, others, Seq::empty(), f)
            &&& p@ == model_of(others, f)
            &&& p@.well_formed()
            &&& #[trigger] call_ensures(measure, (p, &vector), d)
            &&& #[trigger] classified(p@, vector@, d, c)
            &&& hit == (c.accepted && c.zone_id == Some(zone))
            &&& #[trigger] f.covers(others.len(), 0)
        }
}

/// Training on `others` fails with `e`.
pub open spec fn cannot_train<F: Fn(&[(ZoneId, FeatureVector)], &[FeatureVector]) -> Fit>(
    fit: F,
    others: Seq<(ZoneId, FeatureVector)>,
    negatives: Seq<FeatureVector>,
    e: ClassifierError,
) -> bool {
    if others.len() == 0 {
        e is EmptyTrainingSet
    } else {
        exists|f: Fit| #[trigger]
            fitted(fit, others, negatives, f) && (model_of(others, f).fault() matches Some(x)
                && reports(e, x))
    }
}

fn recognises<
    F: Fn(&[(ZoneId, FeatureVector)], &[FeatureVector]) -> Fit,
    D: Fn(&ClassifierParams, &FeatureVector) -> Distances,
>(
    fit: &F,
    measure: &D,
    others: &[(ZoneId, FeatureVector)],
    vector: &FeatureVector,
    zone: ZoneId,
) -> (r: Result<bool, ClassifierError>)
    requires
        fits_any(*fit),
        measures_any(*measure),
    ensures
        r matches Ok(hit) ==> recognised(*fit, *measure, others@, *vector, zone, hit),
        r matches Err(e) ==> cannot_train(*fit, others@, Seq::empty(), e),
{
    let none: Vec<FeatureVector> = Vec::new();
    let f: Fit = fit(others, &none);
    let ghost answer = f;
    proof {
        assert(none@ =~= Seq::<FeatureVector>::empty());
        assert(fitted(*fit, others@, Seq::empty(), answer));
    }
    match ClassifierParams::train(others, &none, f) {
        Ok(p) => {
            let d: Distances = measure(&p, vector);
            let c: Classification = p.classify(vector, &d);
            let hit: bool = c.accepted && match c.zone_id {
                Some(z) => z == zone,
                None => false,
            };
            proof {
                assert(call_ensures(*measure, (&p, vector), d));
                assert(classified(p@, vector@, d, c));
                assert(answer.covers(others@.len(), 0));
            }
            Ok(hit)
        },
        Err(e) => Err(e),
    }
}

/// How many are true.
pub open spec fn count_true(s: Seq<bool>) -> nat
    decreases s.len(),
{
    if s.len() == 0 {
        0
    } else {
        count_true(s.drop_last()) + if s.last() {
            1nat
        } else {
            0nat
        }
    }
}

/// `a` counts the recognised samples of zone `zone`, each judged by a classifier
/// trained on all samples but that one.
pub open spec fn held_out_accuracy<
    F: Fn(&[(ZoneId, FeatureVector)], &[FeatureVector]) -> Fit,
    D: Fn(&ClassifierParams, &FeatureVector) -> Distances,
>(
    fit: F,
    measure: D,
    zone_ids: Seq<ZoneId>,
    groups: Seq<Seq<FeatureVector>>,
    zone: int,
    a: ZoneAccuracy,
) -> bool {
    exists|hits: Seq<bool>|
        {
            &&& hits.len() == groups[zone].len()
            &&& a.total == hits.len()
            &&& a.correct == #[trigger] count_true(hits)
            &&& forall|k: int|
                0 <= k < hits.len() ==> recognised(
                    fit,
                    measure,
                    training_without(zone_ids, groups, zone, k, groups.len() as int),
                    groups[zone][k],
                    zone_ids[zone],
                    #[trigger] hits[k],
                )
        }
}

/// `r` is an outcome of the leave-one-out check. It fails where the numbers of
/// zones and samples do not fit, or a classifier cannot be trained.
pub open spec fn consistency_checked<
    F: Fn(&[(ZoneId, FeatureVector)], &[FeatureVector]) -> Fit,
    D: Fn(&ClassifierParams, &FeatureVector) -> Distances,
>(
    fit: F,
    measure: D,
    zone_ids: Seq<ZoneId>,
    groups: Seq<Seq<FeatureVector>>,
    r: Result<ConsistencyReport, CalibrationError>,
) -> bool {
    match r {
        Ok(report) => {
            &&& counts_fit(zone_ids.len(), group_sizes(groups))
            &&& report.per_zone_accuracy@.len() == zone_ids.len()
            &&& forall|z: int|
                0 <= z < zone_ids.len() ==> held_out_accuracy(
                    fit,
                    measure,
                    zone_ids,
                    groups,
                    z,
                    #[trigger] report.per_zone_accuracy@[z],
                )
            &&& report.inconsistent_zones@ == poor_zones(report.per_zone_accuracy@)
        },
        Err(e) => if !counts_fit(zone_ids.len(), group_sizes(groups)) {
            count_error(zone_ids.len(), group_sizes(groups), e)
        } else {
            e matches CalibrationError::Training(t) && exists|z: int, k: int|
                0 <= z < zone_ids.len() && 0 <= k < groups[z].len() && cannot_train(
                    fit,
                    #[trigger] training_without(zone_ids, groups, z, k, zone_ids.len() as int),
                    Seq::empty(),
                    t,
                )
        },
    }
}

/// Hold out every sample in turn, train on the others and see whether it is
/// recognised. Reports the accuracy of every zone and which zones fall below
/// four in five.
pub fn leave_one_out_consistency<
    F: Fn(&[(ZoneId, FeatureVector)], &[FeatureVector]) -> Fit,
    D: Fn(&ClassifierParams, &FeatureVector) -> Distances,
>(
    zone_ids: &[ZoneId],
    per_zone_samples: &[Vec<FeatureVector>],
    fit: F,
    measure: D,
) -> (r: Result<ConsistencyReport, CalibrationError>)
    requires
        fits_any(fit),
        measures_any(measure),
    ensures
        consistency_checked(fit, measure, zone_ids@, groups_of(per_zone_samples@), r),
{
    match validate_counts(zone_ids, per_zone_samples) {
        Ok(()) => {},
        Err(e) => return Err(e),
    }
    let mut accuracies: Vec<ZoneAccuracy> = Vec::new();
    let mut inconsistent: Vec<usize> = Vec::new();
    let mut z: usize = 0;
    while z < per_zone_samples.len()
        invariant
            z <= per_zone_samples@.len(),
            per_zone_samples@.len() == zone_ids@.len(),
            counts_fit(zone_ids@.len(), group_sizes(groups_of(per_zone_samples@))),
            fits_any(fit),
            measures_any(measure),
            accuracies@.len() == z,
            forall|j: int|
                0 <= j < z ==> held_out_accuracy(
                    fit,
                    measure,
                    zone_ids@,
                    groups_of(per_zone_samples@),
                    j,
                    #[trigger] accuracies@[j],
                ),
            inconsistent@ == poor_zones(accuracies@),
        decreases per_zone_samples@.len() - z,
    {
        let group = &per_zone_samples[z];
        proof {
            assert(groups_of(per_zone_samples@)[z as int] == group@);
        }
        let mut correct: usize = 0;
        let ghost mut hits: Seq<bool> = Seq::empty();
        let mut k: usize = 0;
        while k < group.len()
            invariant
                z < per_zone_samples@.len(),
                group == &per_zone_samples@[z as int],
                per_zone_samples@.len() == zone_ids@.len(),
                counts_fit(zone_ids@.len(), group_sizes(groups_of(per_zone_samples@))),
                fits_any(fit),
                measures_any(measure),
                k <= group@.len(),
                hits.len() == k,
                correct == count_true(hits),
                correct <= k,
                forall|j: int|
                    0 <= j < k ==> recognised(
                        fit,
                        measure,
                        training_without(
                            zone_ids@,
                            groups_of(per_zone_samples@),
                            z as int,
                            j,
                            per_zone_samples@.len() as int,
                        ),
                        group@[j],
                        zone_ids@[z as int],
                        #[trigger] hits[j],
                    ),
            decreases group@.len() - k,
        {
            let others = collect_training(zone_ids, per_zone_samples, Some((z, k)));
            match recognises(&fit, &measure, &others, &group[k], zone_ids[z]) {
                Ok(hit) => {
                    proof {
                        let more = hits.push(hit);
                        assert(more.drop_last() =~= hits);
                        assert forall|j: int| 0 <= j < more.len() implies recognised(
                            fit,
                            measure,
                            training_without(
                                zone_ids@,
                                groups_of(per_zone_samples@),
                                z as int,
                                j,
                                per_zone_samples@.len() as int,
                            ),
                            group@[j],
                            zone_ids@[z as int],
                            #[trigger] more[j],
                        ) by {
                            if j < hits.len() {
                                assert(more[j] == hits[j]);
                            }
                        }
                        hits = more;
                    }
                    if hit {
                        correct += 1;
                    }
                },
                Err(t) => {
                    return Err(CalibrationError::Training(t));
                },
            }
            k += 1;
        }
        let accuracy = ZoneAccuracy { correct, total: group.len() };
        proof {
            assert(held_out_accuracy(
                fit,
                measure,
                zone_ids@,
                groups_of(per_zone_samples@),
                z as int,
                accuracy,
            ));
            assert(accuracies@.push(accuracy).drop_last() =~= accuracies@);
        }
        if 5 * (accuracy.correct as u128) < 4 * (accuracy.total as u128) {
            inconsistent.push(z);
        }
        accuracies.push(accuracy);
        z += 1;
    }
    Ok(ConsistencyReport { per_zone_accuracy: accuracies, inconsistent_zones: inconsistent })
}

/// Label and place of a zone, given when a profile is built.
#[derive(Clone, Debug)]
pub struct ZoneMeta {
    pub label: String,
    pub layout: ZoneLayout,
}

/// The zone that calibration makes: placed and labelled, without actions. The
/// stored number of samples has 32 bits.
pub open spec fn calibrated_zone(id: ZoneId, meta: ZoneMeta, samples: nat, zone: Zone) -> bool {
    &&& zone.id == id
    &&& zone.label@ == meta.label@
    &&& zone.layout == meta.layout
    &&& zone.actions@.len() == 0
    &&& zone.calibration_sample_count == samples % 0x1_0000_0000
}

/// `r` is an outcome of building a profile from these parts. It fails where the
/// numbers of zones, samples and labels do not fit, or no classifier can be
/// trained.
pub open spec fn built<F: Fn(&[(ZoneId, FeatureVector)], &[FeatureVector]) -> Fit>(
    id: ProfileId,
    name: String,
    device_fingerprint: DeviceFingerprint,
    sensing_mode: SensingMode,
    zone_ids: Seq<ZoneId>,
    zone_meta: Seq<ZoneMeta>,
    groups: Seq<Seq<FeatureVector>>,
    negatives: Seq<FeatureVector>,
    created_at: Timestamp,
    fit: F,
    r: Result<Profile, CalibrationError>,
) -> bool {
    let samples = training_set(zone_ids, groups, zone_ids.len() as int);
    match r {
        Ok(p) => {
            &&& counts_fit(zone_ids.len(), group_sizes(groups))
            &&& zone_meta.len() == zone_ids.len()
            &&& p.schema_version == PROFILE_SCHEMA_VERSION
            &&& p.id == id
            &&& p.name == name
            &&& p.created_at == created_at
            &&& p.updated_at == created_at
            &&& p.device_fingerprint == device_fingerprint
            &&& p.sensing_mode == sensing_mode
            &&& p.negative_examples_trained == (negatives.len() > 0)
            &&& p.zones@.len() == zone_ids.len()
            &&& forall|z: int|
                0 <= z < zone_ids.len() ==> calibrated_zone(
                    zone_ids[z],
                    zone_meta[z],
                    groups[z].len(),
                    #[trigger] p.zones@[z],
                )
            &&& p.classifier@.well_formed()
            &&& exists|f: Fit| #[trigger]
                fitted(fit, samples, negatives, f) && p.classifier@ == model_of(samples, f)
        },
        Err(e) => if !counts_fit(zone_ids.len(), group_sizes(groups)) {
            count_error(zone_ids.len(), group_sizes(groups), e)
        } else if zone_meta.len() != zone_ids.len() {
            e matches CalibrationError::ZoneMetaMismatch { zones, meta } && zones == zone_ids.len()
                && meta == zone_meta.len()
        } else {
            e matches CalibrationError::Training(t) && cannot_train(fit, samples, negatives, t)
        },
    }
}

/// Build a profile from captured samples. Its zones have no actions yet.
pub fn build_profile<F: Fn(&[(ZoneId, FeatureVector)], &[FeatureVector]) -> Fit>(
    id: ProfileId,
    name: String,
    device_fingerprint: DeviceFingerprint,
    sensing_mode: SensingMode,
    zone_ids: &[ZoneId],
    zone_meta: &[ZoneMeta],
    per_zone_samples: &[Vec<FeatureVector>],
    negatives: &[FeatureVector],
    created_at: Timestamp,
    fit: F,
) -> (r: Result<Profile, CalibrationError>)
    requires
        fits_any(fit),
    ensures
        built(
            id,
            name,
            device_fingerprint,
            sensing_mode,
            zone_ids@,
            zone_meta@,
            groups_of(per_zone_samples@),
            negatives@,
            created_at,
            fit,
            r,
        ),
{
    match validate_counts(zone_ids, per_zone_samples) {
        Ok(()) => {},
        Err(e) => return Err(e),
    }
    if zone_meta.len() != zone_ids.len() {
        return Err(
            CalibrationError::ZoneMetaMismatch { zones: zone_ids.len(), meta: zone_meta.len() },
        );
    }
    let training = collect_training(zone_ids, per_zone_samples, None);
    let f: Fit = fit(&training, negatives);
    let ghost answer = f;
    proof {
        assert(fitted(fit, training@, negatives@, answer));
    }
    let classifier = match ClassifierParams::train(&training, negatives, f) {
        Ok(c) => c,
        Err(t) => return Err(CalibrationError::Training(t)),
    };
    let mut zones: Vec<Zone> = Vec::new();
    let mut z: usize = 0;
    while z < zone_ids.len()
        invariant
            z <= zone_ids@.len(),
            zone_meta@.len() == zone_ids@.len(),
            per_zone_samples@.len() == zone_ids@.len(),
            zones@.len() == z,
            forall|j: int|
                0 <= j < z ==> calibrated_zone(
                    zone_ids@[j],
                    zone_meta@[j],
                    per_zone_samples@[j]@.len(),
                    #[trigger] zones@[j],
                ),
        decreases zone_ids@.len() - z,
    {
        let samples: u64 = per_zone_samples[z].len() as u64 % 0x1_0000_0000;
        zones.push(
            Zone {
                id: zone_ids[z],
                label: zone_meta[z].label.clone(),
                layout: zone_meta[z].layout,
                actions: Vec::new(),
                calibration_sample_count: samples as u32,
            },
        );
        z += 1;
    }
    Ok(
        Profile {
            schema_version: PROFILE_SCHEMA_VERSION,
            id,
            name,
            created_at,
            updated_at: created_at,
            device_fingerprint,
            sensing_mode,
            zones,
            classifier,
            negative_examples_trained: negatives.len() > 0,
        },
    )
}

/// What a calibration session has collected.
#[verifier::ext_equal]
pub struct Session {
    pub zone_ids: Seq<ZoneId>,
    pub taps_per_zone: nat,
    pub noise_floor: Single,
    pub mask_level: Single,
    /// The accepted samples of each zone, in the order in which they came.
    pub samples: Seq<Seq<FeatureVector>>,
    pub negatives: Seq<FeatureVector>,
    pub current_zone: int,
}

impl Session {
    /// There is a zone, every zone has its samples, no zone has more than its
    /// target, and the current zone is one of them.
    pub open spec fn wf(self) -> bool {
        &&& self.samples.len() == self.zone_ids.len()
        &&& 0 <= self.current_zone < self.zone_ids.len()
        &&& forall|z: int|
            0 <= z < self.samples.len() ==> (#[trigger] self.samples[z]).len()
                <= self.taps_per_zone
    }

    /// The current zone has reached its target.
    pub open spec fn complete(self) -> bool {
        self.samples[self.current_zone].len() >= self.taps_per_zone
    }

    /// A tap judged like this is kept.
    pub open spec fn keeps(self, window: Seq<Single>, judged: TapFeedback) -> bool {
        judged == TapFeedback::Accepted && window.len() == FEATURE_WINDOW_SAMPLES
            && !self.complete()
    }

    /// The session with one more sample in the current zone.
    pub open spec fn with_sample(self, fv: FeatureVector) -> Session {
        Session {
            samples: self.samples.update(
                self.current_zone,
                self.samples[self.current_zone].push(fv),
            ),
            ..self
        }
    }

    /// The session without the current zone's last sample.
    pub open spec fn without_last(self) -> Session {
        Session {
            samples: self.samples.update(
                self.current_zone,
                self.samples[self.current_zone].drop_last(),
            ),
            ..self
        }
    }

    /// The session at `zone`, whose samples are gone.
    pub open spec fn restarted(self, zone: int) -> Session {
        Session {
            current_zone: zone,
            samples: self.samples.update(zone, Seq::empty()),
            ..self
        }
    }
}

/// `after` is the session once a window was offered and judged like this: a kept
/// window adds the features that `extract` gives for it.
pub open spec fn tap_recorded<E: Fn(&[Single]) -> FeatureVector>(
    extract: E,
    before: Session,
    window: Seq<Single>,
    judged: TapFeedback,
    after: Session,
) -> bool {
    if before.keeps(window, judged) {
        exists|w: &[Single], fv: FeatureVector|
            w@ == window && #[trigger] call_ensures(extract, (w,), fv) && after
                == before.with_sample(fv)
    } else {
        after == before
    }
}

/// `after` is the session once a window was offered as an example of what is no
/// tap, and `kept` says whether it was kept.
pub open spec fn negative_recorded<E: Fn(&[Single]) -> FeatureVector>(
    extract: E,
    before: Session,
    window: Seq<Single>,
    kept: bool,
    after: Session,
) -> bool {
    if window.len() == FEATURE_WINDOW_SAMPLES {
        exists|w: &[Single], fv: FeatureVector|
            w@ == window && #[trigger] call_ensures(extract, (w,), fv) && kept == finite_seq(fv@)
                && after == if kept {
                (Session { negatives: before.negatives.push(fv), ..before })
            } else {
                before
            }
    } else {
        !kept && after == before
    }
}

/// Collects samples zone by zone.
#[derive(Clone, Debug)]
pub struct CalibrationSession {
    zone_ids: Vec<ZoneId>,
    taps_per_zone: usize,
    noise_floor: Single,
    mask_level: Single,
    per_zone_samples: Vec<Vec<FeatureVector>>,
    negatives: Vec<FeatureVector>,
    current_zone: usize,
}

impl View for CalibrationSession {
    type V = Session;

    closed spec fn view(&self) -> Session {
        Session {
            zone_ids: self.zone_ids@,
            taps_per_zone: self.taps_per_zone as nat,
            noise_floor: self.noise_floor,
            mask_level: self.mask_level,
            samples: groups_of(self.per_zone_samples@),
            negatives: self.negatives@,
            current_zone: self.current_zone as int,
        }
    }
}

impl CalibrationSession {
    /// Start at the first zone with nothing collected. `mask_level` is the
    /// loudness that stands out of the noise floor.
    pub fn new(
        zone_ids: Vec<ZoneId>,
        taps_per_zone: usize,
        noise_floor: Single,
        mask_level: Single,
    ) -> (s: CalibrationSession)
        requires
            zone_ids@.len() > 0,
        ensures
            s@.wf(),
            s@ == (Session {
                zone_ids: zone_ids@,
                taps_per_zone: taps_per_zone as nat,
                noise_floor,
                mask_level,
                samples: Seq::new(zone_ids@.len(), |i: int| Seq::empty()),
                negatives: Seq::empty(),
                current_zone: 0,
            }),
    {
        let mut groups: Vec<Vec<FeatureVector>> = Vec::new();
        let n: usize = zone_ids.len();
        let mut i: usize = 0;
        while i < n
            invariant
                i <= n,
                groups@.len() == i,
                forall|j: int| 0 <= j < i ==> (#[trigger] groups@[j])@.len() == 0,
            decreases n - i,
        {
            groups.push(Vec::new());
            i += 1;
        }
        let s = CalibrationSession {
            zone_ids,
            taps_per_zone,
            noise_floor,
            mask_level,
            per_zone_samples: groups,
            negatives: Vec::new(),
            current_zone: 0,
        };
        proof {
            assert forall|j: int| 0 <= j < n implies (#[trigger] s@.samples[j]) =~= Seq::<
                FeatureVector,
            >::empty() by {
                assert(groups@[j]@.len() == 0);
            }
            assert(s@.samples =~= Seq::new(n as nat, |i: int| Seq::<FeatureVector>::empty()));
        }
        s
    }

    pub fn zone_ids(&self) -> (r: &Vec<ZoneId>)
        ensures
            r@ == self@.zone_ids,
    {
        &self.zone_ids
    }

    pub fn current_zone(&self) -> (r: usize)
        ensures
            r == self@.current_zone,
    {
        self.current_zone
    }

    pub fn taps_per_zone(&self) -> (r: usize)
        ensures
            r == self@.taps_per_zone,
    {
        self.taps_per_zone
    }

    pub fn negatives(&self) -> (r: &Vec<FeatureVector>)
        ensures
            r@ == self@.negatives,
    {
        &self.negatives
    }

    pub fn per_zone_samples(&self) -> (r: &Vec<Vec<FeatureVector>>)
        ensures
            groups_of(r@) == self@.samples,
    {
        &self.per_zone_samples
    }

    /// How many samples a zone has; none where there is no such zone.
    pub fn zone_sample_count(&self, zone: usize) -> (n: usize)
        ensures
            n == if zone < self@.samples.len() {
                self@.samples[zone as int].len()
            } else {
                0
            },
    {
        if zone < self.per_zone_samples.len() {
            self.per_zone_samples[zone].len()
        } else {
            0
        }
    }

    /// Whether the current zone has reached its target.
    pub fn current_zone_complete(&self) -> (r: bool)
        requires
            self@.wf(),
        ensures
            r == self@.complete(),
    {
        self.zone_sample_count(self.current_zone) >= self.taps_per_zone
    }

    /// Offer a captured window, of whose first samples `onset_rms` is the
    /// loudness, to the current zone. An accepted window becomes a sample,
    /// unless the zone has reached its target; nothing else changes.
    pub fn record_tap<E: Fn(&[Single]) -> FeatureVector>(
        &mut self,
        window: &[Single],
        onset_rms: Single,
        extract: E,
    ) -> (r: TapFeedback)
        requires
            old(self)@.wf(),
            window@.len() == FEATURE_WINDOW_SAMPLES ==> call_requires(extract, (window,)),
        ensures
            final(self)@.wf(),
            r == feedback(window@, old(self)@.noise_floor, old(self)@.mask_level, onset_rms),
            tap_recorded(extract, old(self)@, window@, r, final(self)@),
    {
        let judged: TapFeedback = assess_tap(window, self.noise_floor, self.mask_level, onset_rms);
        if judged.is_accepted() && window.len() == FEATURE_WINDOW_SAMPLES
            && !self.current_zone_complete() {
            let fv: FeatureVector = extract(window);
            let ghost before = self@;
            let zone: usize = self.current_zone;
            self.per_zone_samples[zone].push(fv);
            proof {
                assert(self@.samples =~= before.with_sample(fv).samples);
                assert(self@ =~= before.with_sample(fv));
                assert(self@.wf()) by {
                    assert forall|z: int| 0 <= z < self@.samples.len() implies (
                    #[trigger] self@.samples[z]).len() <= self@.taps_per_zone by {
                        assert(before.samples[z].len() <= before.taps_per_zone);
                    }
                }
            }
        }
        judged
    }

    /// Take back the last sample of the current zone. Says whether there was
    /// one.
    pub fn undo_last(&mut self) -> (r: bool)
        requires
            old(self)@.wf(),
        ensures
            final(self)@.wf(),
            r == (old(self)@.samples[old(self)@.current_zone].len() > 0),
            final(self)@ == if r {
                old(self)@.without_last()
            } else {
                old(self)@
            },
    {
        let ghost before = self@;
        let zone: usize = self.current_zone;
        let removed: bool = self.per_zone_samples[zone].pop().is_some();
        proof {
            assert(before.samples[zone as int].len() <= before.taps_per_zone);
            if removed {
                assert(self@.samples =~= before.without_last().samples);
                assert(self@ =~= before.without_last());
            } else {
                assert(self@.samples =~= before.samples);
                assert(self@ =~= before);
            }
            assert forall|z: int| 0 <= z < self@.samples.len() implies (
            #[trigger] self@.samples[z]).len() <= self@.taps_per_zone by {
                assert(before.samples[z].len() <= before.taps_per_zone);
            }
        }
        removed
    }

    /// Drop the current zone's samples.
    pub fn redo_current_zone(&mut self)
        requires
            old(self)@.wf(),
        ensures
            final(self)@.wf(),
            final(self)@ == old(self)@.restarted(old(self)@.current_zone),
    {
        let zone: usize = self.current_zone;
        self.restart_zone(zone);
    }

    /// Go back to a zone and drop its samples; a zone that does not exist is
    /// ignored.
    pub fn restart_zone(&mut self, zone: usize)
        requires
            old(self)@.wf(),
        ensures
            final(self)@.wf(),
            final(self)@ == if zone < old(self)@.zone_ids.len() {
                old(self)@.restarted(zone as int)
            } else {
                old(self)@
            },
    {
        if zone < self.zone_ids.len() {
            let ghost before = self@;
            self.current_zone = zone;
            self.per_zone_samples[zone].clear();
            proof {
                assert(self@.samples =~= before.restarted(zone as int).samples);
                assert(self@ =~= before.restarted(zone as int));
                assert forall|z: int| 0 <= z < self@.samples.len() implies (
                #[trigger] self@.samples[z]).len() <= self@.taps_per_zone by {
                    assert(before.samples[z].len() <= before.taps_per_zone);
                }
            }
        }
    }

    /// Go on to the next zone; `false` at the last one.
    pub fn advance_zone(&mut self) -> (r: bool)
        requires
            old(self)@.wf(),
        ensures
            final(self)@.wf(),
            r == (old(self)@.current_zone + 1 < old(self)@.zone_ids.len()),
            final(self)@ == if r {
                (Session { current_zone: old(self)@.current_zone + 1, ..old(self)@ })
            } else {
                old(self)@
            },
    {
        if self.zone_ids.len() - self.current_zone > 1 {
            self.current_zone = self.current_zone + 1;
            true
        } else {
            false
        }
    }

    /// Keep a window as an example of what is no tap. Refuses windows of the
    /// wrong length and features that are not finite.
    pub fn record_negative<E: Fn(&[Single]) -> FeatureVector>(
        &mut self,
        window: &[Single],
        extract: E,
    ) -> (r: bool)
        requires
            window@.len() == FEATURE_WINDOW_SAMPLES ==> call_requires(extract, (window,)),
        ensures
            negative_recorded(extract, old(self)@, window@, r, final(self)@),
    {
        if window.len() != FEATURE_WINDOW_SAMPLES {
            return false;
        }
        let fv: FeatureVector = extract(window);
        let ghost before = self@;
        if fv.is_finite() {
            self.negatives.push(fv);
            proof {
                assert(self@ =~= (Session { negatives: before.negatives.push(fv), ..before }));
            }
            true
        } else {
            false
        }
    }

    /// Check the collected samples against each other.
    pub fn consistency<
        F: Fn(&[(ZoneId, FeatureVector)], &[FeatureVector]) -> Fit,
        D: Fn(&ClassifierParams, &FeatureVector) -> Distances,
    >(&self, fit: F, measure: D) -> (r: Result<ConsistencyReport, CalibrationError>)
        requires
            fits_any(fit),
            measures_any(measure),
        ensures
            consistency_checked(fit, measure, self@.zone_ids, self@.samples, r),
    {
        leave_one_out_consistency(&self.zone_ids, &self.per_zone_samples, fit, measure)
    }

    /// Build a profile from what was collected.
    pub fn build_profile<F: Fn(&[(ZoneId, FeatureVector)], &[FeatureVector]) -> Fit>(
        &self,
        id: ProfileId,
        name: String,
        device_fingerprint: DeviceFingerprint,
        sensing_mode: SensingMode,
        zone_meta: &[ZoneMeta],
        created_at: Timestamp,
        fit: F,
    ) -> (r: Result<Profile, CalibrationError>)
        requires
            self@.wf(),
            fits_any(fit),
        ensures
            built(
                id,
                name,
                device_fingerprint,
                sensing_mode,
                self@.zone_ids,
                zone_meta@,
                self@.samples,
                self@.negatives,
                created_at,
                fit,
                r,
            ),
    {
        build_profile(
            id,
            name,
            device_fingerprint,
            sensing_mode,
            &self.zone_ids,
            zone_meta,
            &self.per_zone_samples,
            &self.negatives,
            created_at,
            fit,
        )
    }
}

proof fn labels_are_zones(zone_ids: Seq<ZoneId>, groups: Seq<Seq<FeatureVector>>, n: int)
    requires
        0 <= n <= zone_ids.len(),
        groups.len() == zone_ids.len(),
    ensures
        forall|k: int|
            0 <= k < training_set(zone_ids, groups, n).len() ==> zone_ids.contains(
                (#[trigger] training_set(zone_ids, groups, n)[k]).0,
            ),
        forall|z: int|
            0 <= z < n && groups[z].len() > 0 ==> labels_of(
                training_set(zone_ids, groups, n),
            ).contains(#[trigger] zone_ids[z]),
    decreases n,
{
    if n > 0 {
        labels_are_zones(zone_ids, groups, n - 1);
        let before = training_set(zone_ids, groups, n - 1);
        let added = labelled(zone_ids[n - 1], groups[n - 1]);
        let now = training_set(zone_ids, groups, n);
        assert forall|k: int| 0 <= k < now.len() implies zone_ids.contains(
            (#[trigger] now[k]).0,
        ) by {
            if k < before.len() {
                assert(now[k] == before[k]);
            } else {
                assert(now[k] == added[k - before.len()]);
                assert(zone_ids[n - 1] == now[k].0);
            }
        }
        assert forall|z: int| 0 <= z < n && groups[z].len() > 0 implies labels_of(now).contains(
            #[trigger] zone_ids[z],
        ) by {
            if z < n - 1 {
                let k = labels_of(before).index_of(zone_ids[z]);
                assert(labels_of(before).contains(zone_ids[z]));
                assert(labels_of(now)[k] == labels_of(before)[k]);
            } else {
                assert(labels_of(now)[before.len() as int] == zone_ids[z]) by {
                    assert(now[before.len() as int] == added[0]);
                }
            }
        }
    }
}

/// The classifier of a built profile knows exactly the profile's zones: a tap is
/// only ever given one of them, and each can be given.
pub proof fn classifiers_know_their_zones<
    F: Fn(&[(ZoneId, FeatureVector)], &[FeatureVector]) -> Fit,
>(
    id: ProfileId,
    name: String,
    device_fingerprint: DeviceFingerprint,
    sensing_mode: SensingMode,
    zone_ids: Seq<ZoneId>,
    zone_meta: Seq<ZoneMeta>,
    groups: Seq<Seq<FeatureVector>>,
    negatives: Seq<FeatureVector>,
    created_at: Timestamp,
    fit: F,
    p: Profile,
)
    requires
        built(
            id,
            name,
            device_fingerprint,
            sensing_mode,
            zone_ids,
            zone_meta,
            groups,
            negatives,
            created_at,
            fit,
            Ok(p),
        ),
    ensures
        forall|z: ZoneId| #[trigger] p.classifier@.zone_ids.contains(z) <==> zone_ids.contains(z),
{
    let n = zone_ids.len() as int;
    let samples = training_set(zone_ids, groups, n);
    let labels = labels_of(samples);
    assert(groups.len() == group_sizes(groups).len());
    labels_are_zones(zone_ids, groups, n);
    first_seen_lists_each_label_once(labels);
    let f = choose|f: Fit| #[trigger]
        fitted(fit, samples, negatives, f) && p.classifier@ == model_of(samples, f);
    assert(p.classifier@.zone_ids == first_seen(labels));
    assert forall|z: ZoneId| #[trigger] p.classifier@.zone_ids.contains(z) <==> zone_ids.contains(
        z,
    ) by {
        if labels.contains(z) {
            let k = labels.index_of(z);
            assert(zone_ids.contains(samples[k].0));
        }
        if zone_ids.contains(z) {
            let k = zone_ids.index_of(z);
            assert(group_sizes(groups)[k] >= MIN_SAMPLES_PER_ZONE);
            assert(labels.contains(zone_ids[k]));
        }
    }
}

/// A profile that was built can be stored: with layouts that are finite it is
/// valid.
pub proof fn built_profiles_are_valid<F: Fn(&[(ZoneId, FeatureVector)], &[FeatureVector]) -> Fit>(
    id: ProfileId,
    name: String,
    device_fingerprint: DeviceFingerprint,
    sensing_mode: SensingMode,
    zone_ids: Seq<ZoneId>,
    zone_meta: Seq<ZoneMeta>,
    groups: Seq<Seq<FeatureVector>>,
    negatives: Seq<FeatureVector>,
    created_at: Timestamp,
    fit: F,
    p: Profile,
)
    requires
        built(
            id,
            name,
            device_fingerprint,
            sensing_mode,
            zone_ids,
            zone_meta,
            groups,
            negatives,
            created_at,
            fit,
            Ok(p),
        ),
        forall|z: int| 0 <= z < zone_meta.len() ==> (#[trigger] zone_meta[z]).layout.finite(),
    ensures
        p.valid(),
{
    assert forall|z: int| 0 <= z < p.zones@.len() implies (
    #[trigger] p.zones@[z]).layout.finite() by {
        assert(zone_meta[z].layout.finite());
    }
}

/// Taking back the tap that was just kept restores the session.
pub proof fn undo_reverts_a_kept_tap(s: Session, fv: FeatureVector)
    requires
        s.wf(),
    ensures
        s.with_sample(fv).without_last() == s,
{
    let z = s.current_zone;
    assert(s.samples[z].push(fv).drop_last() =~= s.samples[z]);
    assert(s.with_sample(fv).without_last().samples =~= s.samples);
    assert(s.with_sample(fv).without_last() =~= s);
}

/// Starting a zone over leaves every other zone's samples, and the negative
/// examples, as they are.
pub proof fn restart_touches_one_zone(s: Session, zone: int, other: int)
    requires
        s.wf(),
        0 <= zone < s.zone_ids.len(),
        0 <= other < s.zone_ids.len(),
        other != zone,
    ensures
        s.restarted(zone).samples[other] == s.samples[other],
        s.restarted(zone).samples[zone].len() == 0,
        s.restarted(zone).negatives == s.negatives,
        s.restarted(zone).wf(),
{
    let t = s.restarted(zone);
    assert forall|z: int| 0 <= z < t.samples.len() implies (#[trigger] t.samples[z]).len()
        <= t.taps_per_zone by {
        if z != zone {
            assert(t.samples[z] == s.samples[z]);
        }
    }
}

/// Every sample is trained with once, under its own zone, zone after zone and in
/// the order in which it came.
pub proof fn every_sample_is_trained_with(
    zone_ids: Seq<ZoneId>,
    groups: Seq<Seq<FeatureVector>>,
    n: int,
    zone: int,
    k: int,
)
    requires
        0 <= zone < n,
        0 <= k < groups[zone].len(),
    ensures
        training_set(zone_ids, groups, 0).len() == 0,
        training_set(zone_ids, groups, n).len() == training_set(zone_ids, groups, n - 1).len()
            + groups[n - 1].len(),
        training_set(zone_ids, groups, n).contains((zone_ids[zone], groups[zone][k])),
        training_set(zone_ids, groups, zone).len() + k < training_set(zone_ids, groups, n).len(),
        training_set(zone_ids, groups, n)[training_set(zone_ids, groups, zone).len() + k] == (
            zone_ids[zone],
            groups[zone][k],
        ),
    decreases n,
{
    let now = training_set(zone_ids, groups, n);
    let at = training_set(zone_ids, groups, zone).len() + k;
    if zone < n - 1 {
        every_sample_is_trained_with(zone_ids, groups, n - 1, zone, k);
    }
    assert(now[at] == (zone_ids[zone], groups[zone][k]));
    assert(now.contains(now[at]));
}

proof fn labelled_without(zone: ZoneId, group: Seq<FeatureVector>, k: int)
    requires
        0 <= k < group.len(),
    ensures
        labelled(zone, group.remove(k)) == labelled(zone, group).remove(k),
{
    assert(labelled(zone, group.remove(k)) =~= labelled(zone, group).remove(k));
}

proof fn zones_before_are_whole(
    zone_ids: Seq<ZoneId>,
    groups: Seq<Seq<FeatureVector>>,
    zone: int,
    k: int,
    n: int,
)
    requires
        n <= zone,
    ensures
        training_without(zone_ids, groups, zone, k, n) == training_set(zone_ids, groups, n),
    decreases n,
{
    if n > 0 {
        zones_before_are_whole(zone_ids, groups, zone, k, n - 1);
    }
}

/// Holding a sample out takes that one sample away and no other: with it put
/// back in its place, the training set is that of all samples. So there is one
/// entry fewer, and as a collection the rest is all samples less the one that is
/// held out, under its zone.
pub proof fn holding_out_takes_one_sample(
    zone_ids: Seq<ZoneId>,
    groups: Seq<Seq<FeatureVector>>,
    zone: int,
    k: int,
    n: int,
)
    requires
        0 <= zone < n,
        0 <= k < groups[zone].len(),
    ensures
        training_without(zone_ids, groups, zone, k, n).len() + 1 == training_set(
            zone_ids,
            groups,
            n,
        ).len(),
        training_without(zone_ids, groups, zone, k, n) == training_set(zone_ids, groups, n).remove(
            training_set(zone_ids, groups, zone).len() + k,
        ),
        training_set(zone_ids, groups, n)[training_set(zone_ids, groups, zone).len() + k] == (
            zone_ids[zone],
            groups[zone][k],
        ),
        training_without(zone_ids, groups, zone, k, n).to_multiset() == training_set(
            zone_ids,
            groups,
            n,
        ).to_multiset().remove((zone_ids[zone], groups[zone][k])),
    decreases n,
{
    let all = training_set(zone_ids, groups, n);
    let rest = training_without(zone_ids, groups, zone, k, n);
    let at = training_set(zone_ids, groups, zone).len() + k;
    every_sample_is_trained_with(zone_ids, groups, n, zone, k);
    if zone == n - 1 {
        zones_before_are_whole(zone_ids, groups, zone, k, n - 1);
        labelled_without(zone_ids[zone], groups[zone], k);
        assert(rest =~= all.remove(at));
    } else {
        holding_out_takes_one_sample(zone_ids, groups, zone, k, n - 1);
        every_sample_is_trained_with(zone_ids, groups, n - 1, zone, k);
        assert(rest =~= all.remove(at));
    }
    all.to_multiset_ensures();
}

/// The sample that a leave-one-out check judges has no part in the training: of
/// samples that are all different, the one that is held out is not trained with,
/// and every other one is.
pub proof fn held_out_samples_are_unseen(
    zone_ids: Seq<ZoneId>,
    groups: Seq<Seq<FeatureVector>>,
    zone: int,
    k: int,
    n: int,
    other: (ZoneId, FeatureVector),
)
    requires
        0 <= zone < n,
        0 <= k < groups[zone].len(),
        training_set(zone_ids, groups, n).no_duplicates(),
    ensures
        training_without(zone_ids, groups, zone, k, n).contains(other) <==> training_set(
            zone_ids,
            groups,
            n,
        ).contains(other) && other != (zone_ids[zone], groups[zone][k]),
{
    holding_out_takes_one_sample(zone_ids, groups, zone, k, n);
    let all = training_set(zone_ids, groups, n);
    let rest = training_without(zone_ids, groups, zone, k, n);
    let at = training_set(zone_ids, groups, zone).len() + k;
    every_sample_is_trained_with(zone_ids, groups, n, zone, k);
    assert(rest == all.remove(at));
    if rest.contains(other) {
        let i = rest.index_of(other);
        if i < at {
            assert(all[i] == other);
        } else {
            assert(all[i + 1] == other);
        }
    }
    if all.contains(other) && other != all[at] {
        let i = all.index_of(other);
        if i < at {
            assert(rest[i] == other);
        } else {
            assert(rest[i - 1] == other);
        }
    }
}

proof fn true_counts_fit(s: Seq<bool>)
    ensures
        count_true(s) <= s.len(),
        (forall|k: int| 0 <= k < s.len() ==> s[k]) ==> count_true(s) == s.len(),
        (forall|k: int| 0 <= k < s.len() ==> !s[k]) ==> count_true(s) == 0,
        count_true(s) == s.len() ==> forall|k: int| 0 <= k < s.len() ==> s[k],
    decreases s.len(),
{
    if s.len() > 0 {
        let t = s.drop_last();
        true_counts_fit(t);
        assert forall|k: int| 0 <= k < t.len() implies t[k] == s[k] by {}
        if forall|k: int| 0 <= k < s.len() ==> s[k] {
            assert(s[s.len() - 1]);
        }
        if forall|k: int| 0 <= k < s.len() ==> !s[k] {
            assert(!s[s.len() - 1]);
            assert(forall|k: int| 0 <= k < t.len() ==> !t[k]) by {
                assert forall|k: int| 0 <= k < t.len() implies !t[k] by {
                    assert(!s[k]);
                }
            }
        }
        if count_true(s) == s.len() {
            assert forall|k: int| 0 <= k < s.len() implies s[k] by {
                if k < t.len() {
                    assert(t[k]);
                }
            }
        }
    }
}

/// A held-out vector counts as recognised only for a zone that the others were
/// trained with, and never where it holds a NaN or an infinity.
pub proof fn only_known_zones_are_recognised<
    F: Fn(&[(ZoneId, FeatureVector)], &[FeatureVector]) -> Fit,
    D: Fn(&ClassifierParams, &FeatureVector) -> Distances,
>(
    fit: F,
    measure: D,
    others: Seq<(ZoneId, FeatureVector)>,
    vector: FeatureVector,
    zone: ZoneId,
    hit: bool,
)
    requires
        measures_any(measure),
        recognised(fit, measure, others, vector, zone, hit),
    ensures
        !finite_seq(vector@) ==> !hit,
        (forall|i: int| 0 <= i < others.len() ==> (#[trigger] others[i]).0 != zone) ==> !hit,
{
    let (f, p, d, c) = choose|f: Fit, p: &ClassifierParams, d: Distances, c: Classification|
        {
            &&& fitted(fit, others, Seq::empty(), f)
            &&& p@ == model_of(others, f)
            &&& p@.well_formed()
            &&& #[trigger] call_ensures(measure, (p, &vector), d)
            &&& #[trigger] classified(p@, vector@, d, c)
            &&& hit == (c.accepted && c.zone_id == Some(zone))
            &&& #[trigger] f.covers(others.len(), 0)
        };
    if !finite_seq(vector@) {
        garbage_is_rejected(p@, vector@, d, c);
    }
    if hit {
        assert(d.covers(p@));
        accepted_means_a_zone(p@, vector@, d, c);
        let labels = labels_of(others);
        first_seen_lists_each_label_once(labels);
        assert(p@.zone_ids == first_seen(labels));
        assert(labels.contains(zone));
        let i = labels.index_of(zone);
        assert(others[i].0 == zone);
    }
}

/// A leave-one-out report has one entry for every zone, which counts that zone's
/// samples. No more can be recognised than there are, and the zones that are
/// called inconsistent are exactly those with fewer than four in five
/// recognised, from the first to the last. Every sample was judged by the other
/// samples, all of them and no more.
pub proof fn reports_count_every_sample<
    F: Fn(&[(ZoneId, FeatureVector)], &[FeatureVector]) -> Fit,
    D: Fn(&ClassifierParams, &FeatureVector) -> Distances,
>(
    fit: F,
    measure: D,
    zone_ids: Seq<ZoneId>,
    groups: Seq<Seq<FeatureVector>>,
    report: ConsistencyReport,
    z: int,
) -> (others: Seq<Seq<(ZoneId, FeatureVector)>>)
    requires
        consistency_checked(fit, measure, zone_ids, groups, Ok(report)),
        0 <= z < zone_ids.len(),
        zone_ids.len() <= usize::MAX,
    ensures
        report.per_zone_accuracy@.len() == zone_ids.len(),
        report.per_zone_accuracy@[z].total == groups[z].len(),
        report.per_zone_accuracy@[z].correct <= report.per_zone_accuracy@[z].total,
        report.inconsistent_zones@.contains(z as usize) <==> 5 * report.per_zone_accuracy@[z].correct
            < 4 * report.per_zone_accuracy@[z].total,
        forall|i: int, j: int|
            0 <= i < j < report.inconsistent_zones@.len() ==> (
            #[trigger] report.inconsistent_zones@[i]) < #[trigger] report.inconsistent_zones@[j],
        others.len() == groups[z].len(),
        forall|k: int|
            0 <= k < others.len() ==> (#[trigger] others[k]).to_multiset() == training_set(
                zone_ids,
                groups,
                groups.len() as int,
            ).to_multiset().remove((zone_ids[z], groups[z][k])),
        (forall|k: int|
            0 <= k < others.len() ==> !recognised(
                fit,
                measure,
                #[trigger] others[k],
                groups[z][k],
                zone_ids[z],
                false,
            )) ==> report.per_zone_accuracy@[z].correct == groups[z].len(),
        (forall|k: int|
            0 <= k < others.len() ==> !recognised(
                fit,
                measure,
                #[trigger] others[k],
                groups[z][k],
                zone_ids[z],
                true,
            )) ==> report.per_zone_accuracy@[z].correct == 0,
{
    let acc = report.per_zone_accuracy@;
    let n = groups.len() as int;
    assert(group_sizes(groups).len() == groups.len());
    assert(held_out_accuracy(fit, measure, zone_ids, groups, z, acc[z]));
    let hits = choose|hits: Seq<bool>|
        {
            &&& hits.len() == groups[z].len()
            &&& acc[z].total == hits.len()
            &&& acc[z].correct == #[trigger] count_true(hits)
            &&& forall|k: int|
                0 <= k < hits.len() ==> recognised(
                    fit,
                    measure,
                    training_without(zone_ids, groups, z, k, n),
                    groups[z][k],
                    zone_ids[z],
                    #[trigger] hits[k],
                )
        };
    true_counts_fit(hits);
    poor_zones_are_those_below_four_in_five(acc);
    assert(poor_zones(acc).contains(z as usize) <==> acc[z].poor());
    let others = Seq::new(hits.len(), |k: int| training_without(zone_ids, groups, z, k, n));
    assert forall|k: int| 0 <= k < others.len() implies (#[trigger] others[k]).to_multiset()
        == training_set(zone_ids, groups, n).to_multiset().remove((zone_ids[z], groups[z][k])) by {
        holding_out_takes_one_sample(zone_ids, groups, z, k, n);
    }
    assert forall|k: int| 0 <= k < hits.len() implies recognised(
        fit,
        measure,
        #[trigger] others[k],
        groups[z][k],
        zone_ids[z],
        hits[k],
    ) by {
        let h = hits[k];
    }
    if forall|k: int|
        0 <= k < others.len() ==> !recognised(
            fit,
            measure,
            #[trigger] others[k],
            groups[z][k],
            zone_ids[z],
            false,
        ) {
        assert forall|k: int| 0 <= k < hits.len() implies hits[k] by {
            let o = others[k];
        }
    }
    if forall|k: int|
        0 <= k < others.len() ==> !recognised(
            fit,
            measure,
            #[trigger] others[k],
            groups[z][k],
            zone_ids[z],
            true,
        ) {
        assert forall|k: int| 0 <= k < hits.len() implies !hits[k] by {
            let o = others[k];
        }
    }
    others
}

/// A check goes through only with two zones or more and two samples or more of
/// each. Where there are fewer, the error says what is missing: the number of
/// zones, a mismatch between zones and groups, or the first zone that is short
/// and what it has.
pub proof fn checks_need_enough_samples<
    F: Fn(&[(ZoneId, FeatureVector)], &[FeatureVector]) -> Fit,
    D: Fn(&ClassifierParams, &FeatureVector) -> Distances,
>(
    fit: F,
    measure: D,
    zone_ids: Seq<ZoneId>,
    groups: Seq<Seq<FeatureVector>>,
    r: Result<ConsistencyReport, CalibrationError>,
)
    requires
        consistency_checked(fit, measure, zone_ids, groups, r),
    ensures
        r is Ok ==> zone_ids.len() >= 2 && groups.len() == zone_ids.len() && forall|z: int|
            0 <= z < groups.len() ==> (#[trigger] groups[z]).len() >= 2,
        zone_ids.len() < 2 <==> r matches Err(CalibrationError::NotEnoughZones { .. }),
        r matches Err(CalibrationError::NotEnoughZones { have }) ==> have == zone_ids.len(),
        r matches Err(CalibrationError::SampleGroupCountMismatch { zones, groups: g }) ==> zones
            == zone_ids.len() && g == groups.len() && zones != g,
        r matches Err(CalibrationError::NotEnoughSamples { zone, have, need }) ==> zone
            < groups.len() && have == groups[zone as int].len() && have < 2 && need == 2
            && forall|j: int| 0 <= j < zone ==> (#[trigger] groups[j]).len() >= 2,
        r matches Err(CalibrationError::Training(_)) ==> zone_ids.len() >= 2 && groups.len()
            == zone_ids.len() && forall|z: int|
            0 <= z < groups.len() ==> (#[trigger] groups[z]).len() >= 2,
{
    let sizes = group_sizes(groups);
    assert(sizes.len() == groups.len());
    assert forall|z: int| 0 <= z < groups.len() implies #[trigger] groups[z].len() == sizes[z] by {}
    if counts_fit(zone_ids.len(), sizes) {
        assert forall|z: int| 0 <= z < groups.len() implies (#[trigger] groups[z]).len() >= 2 by {
            assert(sizes[z] >= MIN_SAMPLES_PER_ZONE);
        }
    }
    match r {
        Err(CalibrationError::NotEnoughSamples { zone, have, need }) => {
            assert forall|j: int| 0 <= j < zone implies (#[trigger] groups[j]).len() >= 2 by {
                assert(sizes[j] >= MIN_SAMPLES_PER_ZONE);
            }
        },
        _ => {},
    }
}

/// A built profile is new, current and made of what it was given: zone for zone
/// the identity, label and place, no action yet, and as many samples as were
/// captured. A profile says that it was trained with negative examples exactly
/// where there were some.
pub proof fn built_profiles_hold_what_was_given<
    F: Fn(&[(ZoneId, FeatureVector)], &[FeatureVector]) -> Fit,
>(
    id: ProfileId,
    name: String,
    device_fingerprint: DeviceFingerprint,
    sensing_mode: SensingMode,
    zone_ids: Seq<ZoneId>,
    zone_meta: Seq<ZoneMeta>,
    groups: Seq<Seq<FeatureVector>>,
    negatives: Seq<FeatureVector>,
    created_at: Timestamp,
    fit: F,
    p: Profile,
    z: int,
)
    requires
        built(
            id,
            name,
            device_fingerprint,
            sensing_mode,
            zone_ids,
            zone_meta,
            groups,
            negatives,
            created_at,
            fit,
            Ok(p),
        ),
        0 <= z < zone_ids.len(),
    ensures
        zone_ids.len() >= 2 && groups.len() == zone_ids.len() && zone_meta.len() == zone_ids.len(),
        groups[z].len() >= 2,
        p.id == id && p.name == name && p.device_fingerprint == device_fingerprint,
        p.sensing_mode == sensing_mode && p.created_at == created_at && p.updated_at == created_at,
        p.negative_examples_trained <==> negatives.len() >= 1,
        p.zones@.len() == zone_ids.len(),
        p.zones@[z].id == zone_ids[z],
        p.zones@[z].label@ == zone_meta[z].label@,
        p.zones@[z].layout == zone_meta[z].layout,
        p.zones@[z].actions@.len() == 0,
        groups[z].len() <= u32::MAX ==> p.zones@[z].calibration_sample_count == groups[z].len(),
        p.classifier@.examples.len() == training_set(zone_ids, groups, zone_ids.len() as int).len(),
{
    assert(group_sizes(groups)[z] == groups[z].len());
    assert(group_sizes(groups).len() == groups.len());
    let c = p.zones@[z];
    assert(calibrated_zone(zone_ids[z], zone_meta[z], groups[z].len(), c));
    let samples = training_set(zone_ids, groups, zone_ids.len() as int);
    let f = choose|f: Fit| #[trigger]
        fitted(fit, samples, negatives, f) && p.classifier@ == model_of(samples, f);
}

/// A room is quiet below one hundredth of full scale and too noisy from one
/// twentieth on, or where the noise is no number. Calibration goes on in every
/// room that is not too noisy.
pub proof fn rooms_are_judged_by_their_noise(noise_rms: Single, q: EnvironmentQuality, goes_on: bool)
    requires
        call_ensures(assess_environment, (noise_rms,), q),
        call_ensures(EnvironmentQuality::passes, (q,), goes_on),
    ensures
        q is Quiet <==> noise_rms.finite() && noise_rms.below(Single { bits: 0x3c23_d70a }),
        q is TooNoisy <==> !(noise_rms.finite() && noise_rms.below(Single { bits: 0x3d4c_cccd })),
        goes_on <==> noise_rms.finite() && noise_rms.below(Single { bits: 0x3d4c_cccd }),
{
}

/// A tap is accepted exactly where its window holds finite samples, none of which
/// comes near full scale, and its start is neither silence nor drowned by a noise
/// floor that is known. Clipping is told before weakness, and weakness before
/// noise.
pub proof fn taps_are_judged_by_their_window(
    window: &[Single],
    noise_floor: Single,
    mask_level: Single,
    onset_rms: Single,
    r: TapFeedback,
)
    requires
        call_ensures(assess_tap, (window, noise_floor, mask_level, onset_rms), r),
        !onset_rms.nan() && !mask_level.nan() && !noise_floor.nan(),
    ensures
        r is Accepted ==> window@.len() > 0 && (forall|i: int|
            0 <= i < window@.len() ==> (#[trigger] window@[i]).finite()
                && window@[i].unsigned().below(Single { bits: 0x3f7a_e148 })) && (Single {
            bits: 0x3586_37bd,
        }).at_most(onset_rms) && (noise_floor.at_most(Single { bits: 0 }) || mask_level.at_most(
            onset_rms,
        )),
        r is MaskedByNoise ==> onset_rms.below(mask_level) && (Single { bits: 0 }).below(
            noise_floor,
        ) && (Single { bits: 0x3586_37bd }).at_most(onset_rms),
        r is Clipped <==> finite_seq(window@) && exists|i: int|
            0 <= i < window@.len() && (Single { bits: 0x3f7a_e148 }).at_most(
                (#[trigger] window@[i]).unsigned(),
            ),
        r is TooWeak && window@.len() > 0 && finite_seq(window@) ==> onset_rms.below(
            Single { bits: 0x3586_37bd },
        ),
        window@.len() == 0 || !finite_seq(window@) ==> r is TooWeak,
{
    if r is Accepted {
        assert forall|i: int| 0 <= i < window@.len() implies (#[trigger] window@[i]).finite()
            && window@[i].unsigned().below(Single { bits: 0x3f7a_e148 }) by {
            assert(window@[i].finite());
            assert(!(Single { bits: CLIP_PEAK }).at_most(window@[i].unsigned()));
        }
    }
}

/// A tap is measured over its first fifteen milliseconds, 661 samples at the
/// sample rate, or over a shorter window as a whole.
pub proof fn edges_last_fifteen_milliseconds(n: usize, edge: usize)
    requires
        n >= 1,
        call_ensures(onset_edge, (n,), edge),
    ensures
        edge <= n,
        edge <= 661,
        edge == n || edge == 661,
{
}

/// A tap that is offered changes at most the current zone's samples, and those
/// by one more at the end. It is kept exactly where it was accepted, its window
/// has the full length, and the zone has not reached its target; then what is
/// kept is the features of that window.
pub proof fn taps_go_to_the_current_zone<E: Fn(&[Single]) -> FeatureVector>(
    extract: E,
    before: Session,
    window: Seq<Single>,
    judged: TapFeedback,
    after: Session,
    other: int,
)
    requires
        before.wf(),
        tap_recorded(extract, before, window, judged, after),
        0 <= other < before.zone_ids.len(),
        other != before.current_zone,
    ensures
        after.zone_ids == before.zone_ids && after.taps_per_zone == before.taps_per_zone,
        after.noise_floor == before.noise_floor && after.mask_level == before.mask_level,
        after.negatives == before.negatives && after.current_zone == before.current_zone,
        after.samples.len() == before.samples.len(),
        after.samples[other] == before.samples[other],
        judged is Accepted && window.len() == 4096 && before.samples[before.current_zone].len()
            < before.taps_per_zone ==> after.samples[before.current_zone].len()
            == before.samples[before.current_zone].len() + 1
            && after.samples[before.current_zone].drop_last()
            == before.samples[before.current_zone] && exists|w: &[Single]|
            w@ == window && #[trigger] call_ensures(
                extract,
                (w,),
                after.samples[before.current_zone].last(),
            ),
        !(judged is Accepted && window.len() == 4096 && before.samples[before.current_zone].len()
            < before.taps_per_zone) ==> after == before,
{
    let c = before.current_zone;
    if before.keeps(window, judged) {
        let (w, fv) = choose|w: &[Single], fv: FeatureVector|
            w@ == window && #[trigger] call_ensures(extract, (w,), fv) && after
                == before.with_sample(fv);
        assert(after.samples[c].drop_last() =~= before.samples[c]);
        assert(after.samples[c].last() == fv);
    }
}

/// A window that is no tap never touches the zones' samples. Its features are kept,
/// after those that are there, exactly where it has the full length and they are
/// finite.
pub proof fn negatives_are_kept_apart<E: Fn(&[Single]) -> FeatureVector>(
    extract: E,
    before: Session,
    window: Seq<Single>,
    kept: bool,
    after: Session,
)
    requires
        negative_recorded(extract, before, window, kept, after),
    ensures
        after.zone_ids == before.zone_ids && after.taps_per_zone == before.taps_per_zone,
        after.noise_floor == before.noise_floor && after.mask_level == before.mask_level,
        after.samples == before.samples && after.current_zone == before.current_zone,
        !kept ==> after.negatives == before.negatives,
        kept ==> window.len() == 4096 && after.negatives.len() == before.negatives.len() + 1
            && after.negatives.drop_last() == before.negatives && finite_seq(
            after.negatives.last()@,
        ) && exists|w: &[Single]|
            w@ == window && #[trigger] call_ensures(extract, (w,), after.negatives.last()),
        window.len() == 4096 && !kept ==> exists|w: &[Single], fv: FeatureVector|
            w@ == window && #[trigger] call_ensures(extract, (w,), fv) && !finite_seq(fv@),
{
    if kept {
        assert(after.negatives.drop_last() =~= before.negatives);
        let (w, fv) = choose|w: &[Single], fv: FeatureVector|
            w@ == window && #[trigger] call_ensures(extract, (w,), fv) && kept == finite_seq(fv@)
                && after == (Session { negatives: before.negatives.push(fv), ..before });
        assert(after.negatives.last() == fv);
    }
}

/// Taking back a sample leaves all but the current zone's last sample; starting a
/// zone over leaves all but that zone's samples, and goes to that zone.
pub proof fn taking_back_touches_one_zone(s: Session, zone: int, other: int)
    requires
        s.wf(),
        0 <= zone < s.zone_ids.len(),
        0 <= other < s.zone_ids.len(),
    ensures
        other != s.current_zone ==> s.without_last().samples[other] == s.samples[other],
        s.samples[s.current_zone].len() > 0 ==> s.without_last().samples[s.current_zone].push(
            s.samples[s.current_zone].last(),
        ) == s.samples[s.current_zone],
        s.without_last().samples.len() == s.samples.len(),
        s.without_last().current_zone == s.current_zone,
        s.without_last().negatives == s.negatives,
        s.without_last().zone_ids == s.zone_ids,
        s.without_last().taps_per_zone == s.taps_per_zone,
        s.without_last().noise_floor == s.noise_floor,
        s.without_last().mask_level == s.mask_level,
        s.restarted(zone).current_zone == zone,
        s.restarted(zone).samples.len() == s.samples.len(),
        s.restarted(zone).zone_ids == s.zone_ids,
        s.restarted(zone).taps_per_zone == s.taps_per_zone,
        s.restarted(zone).noise_floor == s.noise_floor,
        s.restarted(zone).mask_level == s.mask_level,
        s.restarted(zone).complete() <==> s.taps_per_zone == 0,
{
    let c = s.current_zone;
    if s.samples[c].len() > 0 {
        assert(s.samples[c].drop_last().push(s.samples[c].last()) =~= s.samples[c]);
    }
}

/// A profile's classifier is fitted to every sample of every zone and to all negative
/// examples, and to nothing else: its statistics, its centroids and its threshold are
/// those of the answer for them.
pub proof fn classifiers_are_fitted_to_all_samples<
    F: Fn(&[(ZoneId, FeatureVector)], &[FeatureVector]) -> Fit,
>(
    id: ProfileId,
    name: String,
    device_fingerprint: DeviceFingerprint,
    sensing_mode: SensingMode,
    zone_ids: Seq<ZoneId>,
    zone_meta: Seq<ZoneMeta>,
    groups: Seq<Seq<FeatureVector>>,
    negatives: Seq<FeatureVector>,
    created_at: Timestamp,
    fit: F,
    p: Profile,
)
    requires
        built(
            id,
            name,
            device_fingerprint,
            sensing_mode,
            zone_ids,
            zone_meta,
            groups,
            negatives,
            created_at,
            fit,
            Ok(p),
        ),
    ensures
        exists|s: &[(ZoneId, FeatureVector)], n: &[FeatureVector], f: Fit|
            s@ == training_set(zone_ids, groups, groups.len() as int) && n@ == negatives
                && #[trigger] call_ensures(fit, (s, n), f) && p.classifier.feature_mean@
                == f.feature_mean@ && p.classifier.feature_std@ == f.feature_std@
                && p.classifier@.centroids == rows(f.centroids@)
                && p.classifier.novelty_threshold == gate(
                f.spread_bound,
                total_largest(f.spreads@),
                smallest(f.negative_distances@),
                f.midpoint,
            ),
{
    let samples = training_set(zone_ids, groups, zone_ids.len() as int);
    assert(group_sizes(groups).len() == groups.len());
    let f = choose|f: Fit| #[trigger]
        fitted(fit, samples, negatives, f) && p.classifier@ == model_of(samples, f);
    let (s, n) = choose|s: &[(ZoneId, FeatureVector)], n: &[FeatureVector]|
        s@ == samples && n@ == negatives && #[trigger] call_ensures(fit, (s, n), f);
    assert(call_ensures(fit, (s, n), f));
}

/// Building a profile fails like the check where zones or samples are missing, and
/// otherwise where labels and places are not given for every zone, or no classifier
/// can be trained; a lack of samples is never the reason then.
pub proof fn profiles_need_enough_of_everything<
    F: Fn(&[(ZoneId, FeatureVector)], &[FeatureVector]) -> Fit,
>(
    id: ProfileId,
    name: String,
    device_fingerprint: DeviceFingerprint,
    sensing_mode: SensingMode,
    zone_ids: Seq<ZoneId>,
    zone_meta: Seq<ZoneMeta>,
    groups: Seq<Seq<FeatureVector>>,
    negatives: Seq<FeatureVector>,
    created_at: Timestamp,
    fit: F,
    e: CalibrationError,
)
    requires
        built(
            id,
            name,
            device_fingerprint,
            sensing_mode,
            zone_ids,
            zone_meta,
            groups,
            negatives,
            created_at,
            fit,
            Err(e),
        ),
    ensures
        e is NotEnoughZones <==> zone_ids.len() < 2,
        e is SampleGroupCountMismatch <==> zone_ids.len() >= 2 && groups.len() != zone_ids.len(),
        e is NotEnoughSamples <==> zone_ids.len() >= 2 && groups.len() == zone_ids.len() && exists|
            z: int,
        |
            0 <= z < groups.len() && (#[trigger] groups[z]).len() < 2,
        e matches CalibrationError::ZoneMetaMismatch { zones, meta } ==> zones == zone_ids.len()
            && meta == zone_meta.len() && zones != meta,
        e is Training ==> zone_meta.len() == zone_ids.len(),
        e matches CalibrationError::Training(t) ==> !(t is EmptyTrainingSet),
{
    let sizes = group_sizes(groups);
    assert(sizes.len() == groups.len());
    if counts_fit(zone_ids.len(), sizes) {
        assert forall|z: int| 0 <= z < groups.len() implies (#[trigger] groups[z]).len() >= 2 by {
            assert(sizes[z] >= MIN_SAMPLES_PER_ZONE);
        }
        every_sample_is_trained_with(zone_ids, groups, groups.len() as int, 0, 0);
        if e is Training {
            let samples = training_set(zone_ids, groups, zone_ids.len() as int);
            let t = e->Training_0;
            assert(cannot_train(fit, samples, negatives, t));
        }
    } else if zone_ids.len() >= 2 && groups.len() == zone_ids.len() {
        let z = choose|z: int| 0 <= z < sizes.len() && #[trigger] sizes[z] < MIN_SAMPLES_PER_ZONE;
        assert(groups[z].len() < 2);
    }
}

/// A held-out vector counts as recognised exactly where a classifier that was trained
/// on the others accepts it and gives it its own zone.
pub proof fn recognised_means_accepted_for_its_zone<
    F: Fn(&[(ZoneId, FeatureVector)], &[FeatureVector]) -> Fit,
    D: Fn(&ClassifierParams, &FeatureVector) -> Distances,
>(
    fit: F,
    measure: D,
    others: Seq<(ZoneId, FeatureVector)>,
    vector: FeatureVector,
    zone: ZoneId,
    hit: bool,
)
    requires
        recognised(fit, measure, others, vector, zone, hit),
    ensures
        exists|
            s: &[(ZoneId, FeatureVector)],
            n: &[FeatureVector],
            f: Fit,
            p: &ClassifierParams,
            d: Distances,
            c: Classification,
        |
            {
                &&& s@ == others && n@.len() == 0
                &&& #[trigger] call_ensures(fit, (s, n), f)
                &&& p@ == model_of(others, f)
                &&& #[trigger] call_ensures(measure, (p, &vector), d)
                &&& #[trigger] classified(p@, vector@, d, c)
                &&& hit <==> c.accepted && c.zone_id == Some(zone)
            },
{
    let (f, p, d, c) = choose|f: Fit, p: &ClassifierParams, d: Distances, c: Classification|
        {
            &&& fitted(fit, others, Seq::empty(), f)
            &&& p@ == model_of(others, f)
            &&& p@.well_formed()
            &&& #[trigger] call_ensures(measure, (p, &vector), d)
            &&& #[trigger] classified(p@, vector@, d, c)
            &&& hit == (c.accepted && c.zone_id == Some(zone))
            &&& #[trigger] f.covers(others.len(), 0)
        };
    let (s, n) = choose|s: &[(ZoneId, FeatureVector)], n: &[FeatureVector]|
        s@ == others && n@ == Seq::<FeatureVector>::empty() && #[trigger] call_ensures(
            fit,
            (s, n),
            f,
        );
    assert(call_ensures(fit, (s, n), f));
}

/// What is counted are the hits, each once.
pub proof fn hits_are_counted_once(s: Seq<bool>)
    ensures
        count_true(s) == s.filter(|hit: bool| hit).len(),
    decreases s.len(),
{
    reveal(Seq::filter);
    if s.len() > 0 {
        hits_are_counted_once(s.drop_last());
    }
}

} // verus!
