//! The evaluation screen: a guided run over all zones, its result, and the
//! history of results.

use vstd::prelude::*;

use crate::calibration::measures_any;
use crate::capture_worker::CaptureEvent;
use crate::classifier::{
    accepted_means_a_zone, classified, Classification, ClassifierParams, Distances,
};
use crate::evaluation::{
    every_tap_is_counted_once, in_run, reported, EvaluationAccumulator, EvaluationReport,
    LatencyStats, Tally, DEFAULT_EVAL_TAPS_PER_ZONE,
};
use crate::features::{FeatureVector, FEATURE_WINDOW_SAMPLES};
use crate::ids::{ProfileId, ZoneId};
use crate::profile::{Profile, Timestamp};
use crate::single::Single;
use crate::text::{decimal, decimal_text, join, join3};
use crate::value::{copy_all, views, Value};

verus! {

/// The numbers of taps per zone that are offered.
pub const TAP_COUNT_CHOICES: [u32; 4] = [10, 15, 20, 25];

/// Encoding of the accuracy to reach, `0.92`.
pub const TARGET_ACCURACY: u32 = 0x3f6b_851f;

/// Encoding of the accuracy that is still fair, `0.75`.
pub const FAIR_ACCURACY: u32 = 0x3f40_0000;

/// Encoding of the median latency to stay under, `120.0` milliseconds.
pub const MEDIAN_LIMIT_MS: u32 = 0x42f0_0000;

/// Encoding of the latency that 95 in a hundred stay under, `200.0`
/// milliseconds.
pub const P95_LIMIT_MS: u32 = 0x4348_0000;

/// One tap of a run.
#[derive(Clone, Copy, Debug, PartialEq, Eq, Structural)]
pub struct TapRecord {
    /// The zone that was asked for.
    pub zone_idx: usize,
    /// The zone that was recognised.
    pub predicted: Option<ZoneId>,
    pub confidence: Single,
    pub latency_ms: Single,
}

/// What the last tap was taken for.
#[derive(Clone, Debug)]
pub struct LastTap {
    pub predicted_label: Option<String>,
    pub correct: bool,
    pub accepted: bool,
}

impl LastTap {
    /// The outcome in words.
    pub open spec fn text(&self) -> Seq<char> {
        if !self.accepted {
            "rejected — not recognized as any zone"@
        } else if self.correct {
            "✓ correct"@
        } else {
            "✗ misclassified as “"@ + match self.predicted_label {
                Some(l) => l@,
                None => "another zone"@,
            } + "”"@
        }
    }

    pub fn describe(&self) -> (s: String)
        ensures
            s@ == self.text(),
    {
        if !self.accepted {
            return "rejected — not recognized as any zone".to_owned();
        }
        if self.correct {
            return "✓ correct".to_owned();
        }
        match &self.predicted_label {
            Some(l) => join3("✗ misclassified as “", l, "”"),
            None => join3("✗ misclassified as “", "another zone", "”"),
        }
    }
}

/// A run in progress.
#[derive(Clone, Debug)]
pub struct EvalRun {
    pub classifier: ClassifierParams,
    pub profile_id: ProfileId,
    pub zone_ids: Vec<ZoneId>,
    pub zone_labels: Vec<String>,
    pub taps_per_zone: u32,
    pub records: Vec<TapRecord>,
    pub current_zone: usize,
    pub armed: bool,
    pub last: Option<LastTap>,
    pub device_name: Option<String>,
    pub capture_error: Option<String>,
}

/// How many of the taps were asked of a zone.
pub open spec fn taps_for(records: Seq<TapRecord>, zone: int) -> nat
    decreases records.len(),
{
    if records.len() == 0 {
        0
    } else {
        taps_for(records.drop_last(), zone) + if records.last().zone_idx == zone {
            1nat
        } else {
            0nat
        }
    }
}

/// `i` is the last tap that was asked of a zone.
pub open spec fn last_tap_of(records: Seq<TapRecord>, zone: int, i: int) -> bool {
    &&& 0 <= i < records.len()
    &&& records[i].zone_idx == zone
    &&& forall|j: int| i < j < records.len() ==> (#[trigger] records[j]).zone_idx != zone
}

/// `i` is the first zone with this identity.
pub open spec fn first_zone(zone_ids: Seq<ZoneId>, zone: ZoneId, i: int) -> bool {
    &&& 0 <= i < zone_ids.len()
    &&& zone_ids[i] == zone
    &&& forall|j: int| 0 <= j < i ==> #[trigger] zone_ids[j] != zone
}

/// The label is that of the recognised zone; none where there is no such zone.
pub open spec fn labels_prediction(
    zone_ids: Seq<ZoneId>,
    labels: Seq<String>,
    predicted: Option<ZoneId>,
    label: Option<String>,
) -> bool {
    match predicted {
        Some(z) if zone_ids.contains(z) => label matches Some(l) && exists|i: int| #[trigger]
            first_zone(zone_ids, z, i) && l@ == labels[i]@,
        _ => label is None,
    }
}

proof fn taps_for_of_push(records: Seq<TapRecord>, r: TapRecord, zone: int)
    ensures
        taps_for(records.push(r), zone) == taps_for(records, zone) + if r.zone_idx == zone {
            1nat
        } else {
            0nat
        },
{
    assert(records.push(r).drop_last() =~= records);
}

proof fn taps_for_of_remove(records: Seq<TapRecord>, i: int, zone: int)
    requires
        0 <= i < records.len(),
    ensures
        taps_for(records.remove(i), zone) + (if records[i].zone_idx == zone {
            1nat
        } else {
            0nat
        }) == taps_for(records, zone),
    decreases records.len(),
{
    let t = records.remove(i);
    if i == records.len() - 1 {
        assert(t =~= records.drop_last());
    } else {
        assert(t.drop_last() =~= records.drop_last().remove(i));
        assert(t.last() == records.last());
        taps_for_of_remove(records.drop_last(), i, zone);
    }
}

impl EvalRun {
    /// The current zone is one of the zones, where there are any; every zone has
    /// a label, every tap belongs to a zone, no zone has more taps than asked
    /// for, and the classifier can be used.
    pub open spec fn wf(&self) -> bool {
        &&& self.zone_ids@.len() == self.zone_labels@.len()
        &&& self.current_zone < self.zone_ids@.len() || self.zone_ids@.len() == 0
            && self.current_zone == 0
        &&& self.classifier@.well_formed()
        &&& forall|i: int|
            0 <= i < self.records@.len() ==> (#[trigger] self.records@[i]).zone_idx
                < self.zone_ids@.len()
        &&& forall|z: int| #[trigger] taps_for(self.records@, z) <= self.taps_per_zone
    }

    /// The label of the current zone; empty where there is none.
    pub open spec fn current_label(&self) -> Seq<char> {
        if self.current_zone < self.zone_labels@.len() {
            self.zone_labels@[self.current_zone as int]@
        } else {
            Seq::empty()
        }
    }

    /// The current zone has its taps.
    pub open spec fn complete(&self) -> bool {
        taps_for(self.records@, self.current_zone as int) >= self.taps_per_zone
    }

    /// Begin a run over the zones of a profile.
    pub fn new(profile: &Profile, taps_per_zone: u32) -> (r: EvalRun)
        requires
            profile.classifier@.well_formed(),
        ensures
            r.wf(),
            r.classifier@ == profile.classifier@,
            r.profile_id == profile.id,
            r.zone_ids@.len() == profile.zones@.len(),
            forall|i: int|
                0 <= i < profile.zones@.len() ==> #[trigger] r.zone_ids@[i] == profile.zones@[i].id,
            forall|i: int|
                0 <= i < profile.zones@.len() ==> (#[trigger] r.zone_labels@[i])@
                    == profile.zones@[i].label@,
            r.taps_per_zone == taps_per_zone,
            r.records@.len() == 0,
            r.current_zone == 0,
            !r.armed,
            r.last is None,
            r.device_name is None,
            r.capture_error is None,
    {
        let mut zone_ids: Vec<ZoneId> = Vec::new();
        let mut zone_labels: Vec<String> = Vec::new();
        let mut i: usize = 0;
        while i < profile.zones.len()
            invariant
                i <= profile.zones@.len(),
                zone_ids@.len() == i,
                zone_labels@.len() == i,
                forall|k: int| 0 <= k < i ==> #[trigger] zone_ids@[k] == profile.zones@[k].id,
                forall|k: int|
                    0 <= k < i ==> (#[trigger] zone_labels@[k])@ == profile.zones@[k].label@,
            decreases profile.zones@.len() - i,
        {
            zone_ids.push(profile.zones[i].id);
            zone_labels.push(profile.zones[i].label.clone());
            i += 1;
        }
        EvalRun {
            classifier: profile.classifier.copy(),
            profile_id: profile.id,
            zone_ids,
            zone_labels,
            taps_per_zone,
            records: Vec::new(),
            current_zone: 0,
            armed: false,
            last: None,
            device_name: None,
            capture_error: None,
        }
    }

    /// How many taps were asked of a zone.
    pub fn count_for(&self, zone_idx: usize) -> (n: u32)
        requires
            self.wf(),
        ensures
            n == taps_for(self.records@, zone_idx as int),
    {
        let mut n: u32 = 0;
        let mut i: usize = 0;
        proof {
            assert(taps_for(self.records@, zone_idx as int) <= self.taps_per_zone);
        }
        while i < self.records.len()
            invariant
                i <= self.records@.len(),
                n == taps_for(self.records@.take(i as int), zone_idx as int),
                taps_for(self.records@, zone_idx as int) <= u32::MAX,
            decreases self.records@.len() - i,
        {
            proof {
                assert(self.records@.take(i + 1).drop_last() =~= self.records@.take(i as int));
                taps_for_of_prefix(self.records@, i + 1, zone_idx as int);
            }
            if self.records[i].zone_idx == zone_idx {
                n += 1;
            }
            i += 1;
        }
        proof {
            assert(self.records@.take(i as int) =~= self.records@);
        }
        n
    }

    pub fn current_count(&self) -> (n: u32)
        requires
            self.wf(),
        ensures
            n == taps_for(self.records@, self.current_zone as int),
    {
        self.count_for(self.current_zone)
    }

    pub fn current_zone_complete(&self) -> (r: bool)
        requires
            self.wf(),
        ensures
            r == self.complete(),
    {
        self.current_count() >= self.taps_per_zone
    }

    pub fn is_last_zone(&self) -> (r: bool)
        requires
            self.wf(),
        ensures
            r == (self.current_zone + 1 >= self.zone_ids@.len()),
    {
        self.zone_ids.len() - self.current_zone <= 1
    }

    /// Whether every zone has its taps: then the run can be finished.
    pub fn all_zones_complete(&self) -> (r: bool)
        requires
            self.wf(),
        ensures
            r == forall|z: int|
                0 <= z < self.zone_ids@.len() ==> #[trigger] taps_for(self.records@, z)
                    >= self.taps_per_zone,
    {
        let mut z: usize = 0;
        while z < self.zone_ids.len()
            invariant
                self.wf(),
                z <= self.zone_ids@.len(),
                forall|k: int|
                    0 <= k < z ==> #[trigger] taps_for(self.records@, k) >= self.taps_per_zone,
            decreases self.zone_ids@.len() - z,
        {
            if self.count_for(z) < self.taps_per_zone {
                proof {
                    assert(taps_for(self.records@, z as int) < self.taps_per_zone);
                }
                return false;
            }
            z += 1;
        }
        true
    }

    /// What the user is asked to tap.
    pub fn prompt(&self) -> (s: String)
        requires
            self.wf(),
        ensures
            s@ == "Zone "@ + decimal((self.current_zone + 1) as nat) + " of "@ + decimal(
                self.zone_ids@.len(),
            ) + ": “"@ + self.current_label() + "”. Tap this spot "@ + decimal(
                self.taps_per_zone as nat,
            ) + " times."@,
    {
        let zones: usize = self.zone_ids.len();
        let number = decimal_text(self.current_zone as u64 + 1);
        let total = decimal_text(zones as u64);
        let taps = decimal_text(self.taps_per_zone as u64);
        let start = join3("Zone ", &number, " of ");
        let label: String = if self.current_zone < self.zone_labels.len() {
            self.zone_labels[self.current_zone].clone()
        } else {
            String::new()
        };
        proof {
            assert(label@ =~= self.current_label());
        }
        let named = join3(&join(&start, &total), ": “", &label);
        join3(&join(&named, "”. Tap this spot "), &taps, " times.")
    }

    fn label_of(&self, predicted: Option<ZoneId>) -> (label: Option<String>)
        requires
            self.wf(),
        ensures
            labels_prediction(self.zone_ids@, self.zone_labels@, predicted, label),
    {
        let zone: ZoneId = match predicted {
            Some(z) => z,
            None => return None,
        };
        let mut i: usize = 0;
        while i < self.zone_ids.len()
            invariant
                self.wf(),
                predicted == Some(zone),
                i <= self.zone_ids@.len(),
                forall|j: int| 0 <= j < i ==> #[trigger] self.zone_ids@[j] != zone,
            decreases self.zone_ids@.len() - i,
        {
            if self.zone_ids[i] == zone {
                proof {
                    assert(first_zone(self.zone_ids@, zone, i as int));
                    assert(self.zone_ids@.contains(zone));
                }
                return Some(self.zone_labels[i].clone());
            }
            i += 1;
        }
        None
    }

    /// Take what the listener tells. A tap counts while there is a zone that is
    /// armed and not complete; it is classified, compared with the zone that was
    /// asked for, and recorded with its latency.
    pub fn drain<
        E: Fn(&[Single]) -> FeatureVector,
        D: Fn(&ClassifierParams, &FeatureVector) -> Distances,
        T: Fn(u64) -> Single,
    >(&mut self, event: CaptureEvent, extract: E, measure: D, latency: T)
        requires
            old(self).wf(),
            forall|w: &[Single]|
                w@.len() == FEATURE_WINDOW_SAMPLES ==> #[trigger] call_requires(extract, (w,)),
            measures_any(measure),
            forall|at: u64| #[trigger] call_requires(latency, (at,)),
        ensures
            final(self).wf(),
            told(*old(self), event, extract, measure, latency, *final(self)),
    {
        match event {
            CaptureEvent::Started { device_name, .. } => {
                self.device_name = Some(device_name);
            },
            CaptureEvent::Level { .. } => {},
            CaptureEvent::Onset { window, is_transient, detected_at } => {
                if self.zone_ids.len() == 0 || !self.armed || !is_transient
                    || self.current_zone_complete() || window.len() != FEATURE_WINDOW_SAMPLES {
                    return ;
                }
                let fv: FeatureVector = extract(&window);
                let d: Distances = measure(&self.classifier, &fv);
                let outcome: Classification = self.classifier.classify(&fv, &d);
                let latency_ms: Single = latency(detected_at);
                let predicted: Option<ZoneId> = if outcome.accepted {
                    outcome.zone_id
                } else {
                    None
                };
                let correct: bool = match predicted {
                    Some(z) => z == self.zone_ids[self.current_zone],
                    None => false,
                };
                let predicted_label: Option<String> = self.label_of(predicted);
                let last = LastTap { predicted_label, correct, accepted: outcome.accepted };
                let record = TapRecord {
                    zone_idx: self.current_zone,
                    predicted,
                    confidence: outcome.confidence,
                    latency_ms,
                };
                proof {
                    assert(heard(
                        *self,
                        window@,
                        detected_at,
                        extract,
                        measure,
                        latency,
                        record,
                        last,
                    )) by {
                        assert(call_ensures(measure, (&self.classifier, &fv), d));
                        assert(classified(self.classifier@, fv@, d, outcome));
                    }
                    assert forall|z: int| #[trigger] taps_for(
                        self.records@.push(record),
                        z,
                    ) <= self.taps_per_zone by {
                        taps_for_of_push(self.records@, record, z);
                        assert(taps_for(self.records@, z) <= self.taps_per_zone);
                    }
                }
                self.last = Some(last);
                self.records.push(record);
                if self.current_zone_complete() {
                    self.armed = false;
                }
            },
            CaptureEvent::Frame { .. } => {},
            CaptureEvent::Failed(msg) => {
                self.capture_error = Some(msg);
            },
        }
    }

    /// Arm or disarm the current zone; a complete one cannot be armed.
    pub fn toggle_armed(&mut self) -> (done: bool)
        requires
            old(self).wf(),
        ensures
            final(self).wf(),
            done == !old(self).complete(),
            *final(self) == (EvalRun { armed: old(self).armed != done, ..*old(self) }),
    {
        if self.current_zone_complete() {
            return false;
        }
        self.armed = !self.armed;
        true
    }

    /// Take back the last tap of the current zone.
    pub fn undo_last(&mut self)
        requires
            old(self).wf(),
        ensures
            final(self).wf(),
            if exists|i: int|
                last_tap_of(old(self).records@, old(self).current_zone as int, i) {
                exists|i: int| #[trigger]
                    last_tap_of(old(self).records@, old(self).current_zone as int, i) && final(self).records@ == old(self).records@.remove(i) && *final(self) == (EvalRun {
                        records: final(self).records,
                        last: None,
                        ..*old(self)
                    })
            } else {
                *final(self) == *old(self)
            },
    {
        let mut i: usize = self.records.len();
        while i > 0
            invariant
                i <= self.records@.len(),
                *self == *old(self),
                self.wf(),
                forall|j: int|
                    i <= j < self.records@.len() ==> (#[trigger] self.records@[j]).zone_idx
                        != self.current_zone,
            decreases i,
        {
            i -= 1;
            if self.records[i].zone_idx == self.current_zone {
                let ghost before = self.records@;
                proof {
                    assert(last_tap_of(before, self.current_zone as int, i as int));
                    assert forall|z: int| #[trigger] taps_for(before.remove(i as int), z)
                        <= self.taps_per_zone by {
                        taps_for_of_remove(before, i as int, z);
                        assert(taps_for(before, z) <= self.taps_per_zone);
                    }
                    assert forall|k: int| 0 <= k < before.remove(i as int).len() implies (
                    #[trigger] before.remove(i as int)[k]).zone_idx < self.zone_ids@.len() by {
                        if k < i {
                            assert(before.remove(i as int)[k] == before[k]);
                        } else {
                            assert(before.remove(i as int)[k] == before[k + 1]);
                        }
                    }
                }
                self.records.remove(i);
                self.last = None;
                return ;
            }
        }
        proof {
            assert forall|k: int| !last_tap_of(
                self.records@,
                self.current_zone as int,
                k,
            ) by {}
        }
    }

    /// Go on to the next zone, where there is one.
    pub fn advance_zone(&mut self)
        requires
            old(self).wf(),
        ensures
            final(self).wf(),
            *final(self) == if old(self).current_zone + 1 < old(self).zone_ids@.len() {
                (EvalRun {
                    current_zone: (old(self).current_zone + 1) as usize,
                    armed: false,
                    last: None,
                    ..*old(self)
                })
            } else {
                *old(self)
            },
    {
        let left: usize = self.zone_ids.len() - self.current_zone;
        if left > 1 {
            self.current_zone = self.current_zone + 1;
            self.armed = false;
            self.last = None;
        }
    }

    /// The tally of the taps so far.
    pub fn tally(&self) -> (a: EvaluationAccumulator)
        requires
            self.wf(),
            self.records@.len() <= u32::MAX,
        ensures
            a.wf(),
            a@ == tally_of(self.zone_ids@, self.taps_per_zone, self.records@),
    {
        let ids: Vec<ZoneId> = copy_all(&self.zone_ids);
        proof {
            assert(views(ids@) =~= ids@);
            assert(views(self.zone_ids@) =~= self.zone_ids@);
        }
        let mut acc = EvaluationAccumulator::new(ids, self.taps_per_zone);
        let mut i: usize = 0;
        while i < self.records.len()
            invariant
                self.wf(),
                self.records@.len() <= u32::MAX,
                i <= self.records@.len(),
                acc.wf(),
                acc@ == tally_of(
                    self.zone_ids@,
                    self.taps_per_zone,
                    self.records@.take(i as int),
                ),
                acc@.zone_ids == self.zone_ids@,
                acc@.latencies.len() == i,
            decreases self.records@.len() - i,
        {
            let r: TapRecord = self.records[i];
            proof {
                assert(self.records@.take(i + 1).drop_last() =~= self.records@.take(i as int));
                assert(self.records@[i as int].zone_idx < self.zone_ids@.len());
                assert(self.zone_ids@[r.zone_idx as int].value == self.zone_ids@[
                r.zone_idx as int].value);
                assert(in_run(acc@.zone_ids, self.zone_ids@[r.zone_idx as int].value));
            }
            acc.record(self.zone_ids[r.zone_idx], r.predicted, r.confidence, r.latency_ms);
            i += 1;
        }
        proof {
            assert(self.records@.take(i as int) =~= self.records@);
        }
        acc
    }

    /// End the run with its report. `slot` gives the bucket of a confidence and
    /// `divide` the quotient of two counts.
    pub fn finish<S: Fn(Single) -> usize, Q: Fn(u32, u32) -> Single>(
        &self,
        run_at: Timestamp,
        slot: S,
        divide: Q,
    ) -> (f: FinishedRun)
        requires
            self.wf(),
            self.records@.len() <= u32::MAX,
            forall|c: Single| #[trigger] call_requires(slot, (c,)),
            forall|a: u32, b: u32| b > 0 ==> #[trigger] call_requires(divide, (a, b)),
        ensures
            f.saved is None,
            f.zone_ids@ == self.zone_ids@,
            views(f.zone_labels@) == views(self.zone_labels@),
            f.latencies_ms@ == tally_of(
                self.zone_ids@,
                self.taps_per_zone,
                self.records@,
            ).latencies,
            exists|slots: Seq<usize>| #[trigger]
                slotted(
                    slot,
                    tally_of(self.zone_ids@, self.taps_per_zone, self.records@).confidences,
                    slots,
                ) && reported(
                    tally_of(self.zone_ids@, self.taps_per_zone, self.records@),
                    self.profile_id,
                    run_at,
                    slots,
                    divide,
                    f.report,
                ),
    {
        let acc = self.tally();
        let confidences = acc.confidences();
        let mut slots: Vec<usize> = Vec::new();
        let mut i: usize = 0;
        while i < confidences.len()
            invariant
                i <= confidences@.len(),
                slots@.len() == i,
                forall|c: Single| #[trigger] call_requires(slot, (c,)),
                forall|k: int|
                    0 <= k < i ==> call_ensures(slot, (confidences@[k],), #[trigger] slots@[k]),
            decreases confidences@.len() - i,
        {
            slots.push(slot(confidences[i]));
            i += 1;
        }
        proof {
            assert(slotted(slot, acc@.confidences, slots@));
        }
        let report = acc.finish(self.profile_id, run_at, &slots, divide);
        let latencies_ms: Vec<Single> = acc.latencies_ms().copy();
        let zone_ids: Vec<ZoneId> = copy_all(&self.zone_ids);
        proof {
            assert(views(zone_ids@) =~= zone_ids@);
            assert(views(self.zone_ids@) =~= self.zone_ids@);
        }
        FinishedRun {
            report,
            latencies_ms,
            zone_ids,
            zone_labels: copy_all(&self.zone_labels),
            saved: None,
        }
    }
}

proof fn taps_for_of_prefix(records: Seq<TapRecord>, n: int, zone: int)
    requires
        0 <= n <= records.len(),
    ensures
        taps_for(records.take(n), zone) <= taps_for(records, zone),
    decreases records.len() - n,
{
    if n == records.len() {
        assert(records.take(n) =~= records);
    } else {
        taps_for_of_prefix(records, n + 1, zone);
        assert(records.take(n + 1).drop_last() =~= records.take(n));
    }
}

/// The slots are those of the confidences.
pub open spec fn slotted<S: Fn(Single) -> usize>(
    slot: S,
    confidences: Seq<Single>,
    slots: Seq<usize>,
) -> bool {
    &&& slots.len() == confidences.len()
    &&& forall|k: int|
        0 <= k < slots.len() ==> call_ensures(slot, (confidences[k],), #[trigger] slots[k])
}

/// The tally of recorded taps.
pub open spec fn tally_of(
    zone_ids: Seq<ZoneId>,
    taps_per_zone: u32,
    records: Seq<TapRecord>,
) -> Tally
    decreases records.len(),
{
    if records.len() == 0 {
        Tally::fresh(zone_ids, taps_per_zone)
    } else {
        let r = records.last();
        tally_of(zone_ids, taps_per_zone, records.drop_last()).with_tap(
            zone_ids[r.zone_idx as int],
            r.predicted,
            r.confidence,
            r.latency_ms,
        )
    }
}

/// `record` and `last` are what becomes of a tap with this window.
pub open spec fn heard<
    E: Fn(&[Single]) -> FeatureVector,
    D: Fn(&ClassifierParams, &FeatureVector) -> Distances,
    T: Fn(u64) -> Single,
>(
    run: EvalRun,
    window: Seq<Single>,
    detected_at: u64,
    extract: E,
    measure: D,
    latency: T,
    record: TapRecord,
    last: LastTap,
) -> bool {
    exists|w: &[Single], fv: FeatureVector, d: Distances, c: Classification|
        {
            &&& w@ == window
            &&& #[trigger] call_ensures(extract, (w,), fv)
            &&& #[trigger] call_ensures(measure, (&run.classifier, &fv), d)
            &&& #[trigger] classified(run.classifier@, fv@, d, c)
            &&& call_ensures(latency, (detected_at,), record.latency_ms)
            &&& record.zone_idx == run.current_zone
            &&& record.predicted == (if c.accepted {
                c.zone_id
            } else {
                None
            })
            &&& record.confidence == c.confidence
            &&& last.accepted == c.accepted
            &&& last.correct == (record.predicted == Some(
                run.zone_ids@[run.current_zone as int],
            ))
            &&& labels_prediction(
                run.zone_ids@,
                run.zone_labels@,
                record.predicted,
                last.predicted_label,
            )
        }
}

/// What an event of the listener does to the run.
pub open spec fn told<
    E: Fn(&[Single]) -> FeatureVector,
    D: Fn(&ClassifierParams, &FeatureVector) -> Distances,
    T: Fn(u64) -> Single,
>(
    before: EvalRun,
    event: CaptureEvent,
    extract: E,
    measure: D,
    latency: T,
    after: EvalRun,
) -> bool {
    match event {
        CaptureEvent::Started { device_name, .. } => after == (EvalRun {
            device_name: Some(device_name),
            ..before
        }),
        CaptureEvent::Level { .. } => after == before,
        CaptureEvent::Onset { window, is_transient, detected_at } => if before.zone_ids@.len() == 0
            || !before.armed || !is_transient || before.complete() || window@.len()
            != FEATURE_WINDOW_SAMPLES {
            after == before
        } else {
            exists|record: TapRecord, last: LastTap| #[trigger]
                heard(
                    before,
                    window@,
                    detected_at,
                    extract,
                    measure,
                    latency,
                    record,
                    last,
                ) && after.records@ == before.records@.push(record) && after == (EvalRun {
                    records: after.records,
                    last: Some(last),
                    armed: !after.complete(),
                    ..before
                })
        },
        CaptureEvent::Frame { .. } => after == before,
        CaptureEvent::Failed(msg) => after == (EvalRun { capture_error: Some(msg), ..before }),
    }
}

/// A complete run presents every zone the same number of taps: the tally of a
/// run counts, for each zone, exactly the taps that were asked of it.
pub proof fn tallies_count_the_taps(
    zone_ids: Seq<ZoneId>,
    taps_per_zone: u32,
    records: Seq<TapRecord>,
    zone: int,
)
    requires
        zone_ids.no_duplicates(),
        0 <= zone < zone_ids.len(),
        records.len() <= u32::MAX,
        forall|i: int|
            0 <= i < records.len() ==> (#[trigger] records[i]).zone_idx < zone_ids.len(),
    ensures
        tally_of(zone_ids, taps_per_zone, records).wf(),
        tally_of(zone_ids, taps_per_zone, records).zone_ids == zone_ids,
        tally_of(zone_ids, taps_per_zone, records).latencies.len() == records.len(),
        tally_of(zone_ids, taps_per_zone, records).presented(zone) == taps_for(records, zone),
    decreases records.len(),
{
    if records.len() == 0 {
        crate::evaluation::fresh_tallies_are_in_order(zone_ids, taps_per_zone, zone);
    } else {
        let init = records.drop_last();
        let r = records.last();
        assert(records[records.len() - 1].zone_idx < zone_ids.len());
        assert forall|i: int| 0 <= i < init.len() implies (#[trigger] init[i]).zone_idx
            < zone_ids.len() by {
            assert(records[i].zone_idx < zone_ids.len());
        }
        tallies_count_the_taps(zone_ids, taps_per_zone, init, zone);
        let before = tally_of(zone_ids, taps_per_zone, init);
        let actual = zone_ids[r.zone_idx as int];
        assert(in_run(zone_ids, actual.value));
        every_tap_is_counted_once(before, actual, r.predicted, r.confidence, r.latency_ms);
        crate::evaluation::positions_exist(zone_ids, actual.value);
        let p = crate::evaluation::position(zone_ids, actual.value);
        assert(zone_ids[p] == actual);
        assert(p == r.zone_idx);
    }
}

/// Taking back the tap that was just recorded restores the records: it is the last
/// of its zone.
pub proof fn undo_reverts_a_recorded_tap(records: Seq<TapRecord>, record: TapRecord, i: int)
    requires
        last_tap_of(records.push(record), record.zone_idx as int, i),
    ensures
        i == records.len(),
        records.push(record).remove(i) == records,
{
    assert(records.push(record)[records.len() as int] == record);
    assert(records.push(record).remove(records.len() as int) =~= records);
}

/// The result of a run.
#[derive(Clone, Debug)]
pub struct FinishedRun {
    pub report: EvaluationReport,
    pub latencies_ms: Vec<Single>,
    pub zone_ids: Vec<ZoneId>,
    pub zone_labels: Vec<String>,
    /// Where the report was saved, or why it was not; `None` before the first
    /// attempt.
    pub saved: Option<Result<String, String>>,
}

impl FinishedRun {
    /// The accuracy of zone `i`; zero where the report has none.
    pub fn accuracy_of(&self, i: usize) -> (a: Single)
        ensures
            a == if i < self.zone_ids@.len()
                && self.report.per_zone_accuracy@.contains_key(self.zone_ids@[i as int].value) {
                self.report.per_zone_accuracy@[self.zone_ids@[i as int].value]
            } else {
                Single { bits: 0 }
            },
    {
        broadcast use vstd::std_specs::hash::group_hash_axioms;

        if i >= self.zone_ids.len() {
            return Single { bits: 0 };
        }
        match self.report.per_zone_accuracy.get(&self.zone_ids[i].value) {
            Some(a) => *a,
            None => Single { bits: 0 },
        }
    }
}

/// How good an accuracy is.
#[derive(Clone, Copy, Debug, PartialEq, Eq, Structural)]
pub enum Grade {
    Good,
    Fair,
    Poor,
}

/// Whether an accuracy reaches the target.
pub fn meets_target(accuracy: Single) -> (r: bool)
    ensures
        r == (Single { bits: TARGET_ACCURACY }).at_most(accuracy),
{
    (Single { bits: TARGET_ACCURACY }).le(accuracy)
}

/// The verdict on an overall accuracy, in words.
pub fn verdict(accuracy: Single) -> (s: &'static str)
    ensures
        s@ == if (Single { bits: TARGET_ACCURACY }).at_most(accuracy) {
            "meets the ≥92% target"@
        } else {
            "below the 92% target"@
        },
{
    if meets_target(accuracy) {
        "meets the ≥92% target"
    } else {
        "below the 92% target"
    }
}

/// How good a zone's accuracy is.
pub fn grade(accuracy: Single) -> (g: Grade)
    ensures
        g == if (Single { bits: TARGET_ACCURACY }).at_most(accuracy) {
            Grade::Good
        } else if (Single { bits: FAIR_ACCURACY }).at_most(accuracy) {
            Grade::Fair
        } else {
            Grade::Poor
        },
{
    if meets_target(accuracy) {
        Grade::Good
    } else if (Single { bits: FAIR_ACCURACY }).le(accuracy) {
        Grade::Fair
    } else {
        Grade::Poor
    }
}

/// Whether the latencies are short enough.
pub fn latency_ok(l: &LatencyStats) -> (r: bool)
    ensures
        r == (l.p50.below(Single { bits: MEDIAN_LIMIT_MS }) && l.p95.below(
            Single { bits: P95_LIMIT_MS },
        )),
{
    l.p50.lt(Single { bits: MEDIAN_LIMIT_MS }) && l.p95.lt(Single { bits: P95_LIMIT_MS })
}

/// What the screen shows.
#[derive(Clone, Copy, Debug, PartialEq, Eq, Structural)]
pub enum EvaluationView {
    /// There is no profile to evaluate.
    NoProfile,
    Idle,
    Running,
    Result,
}

/// The screen.
#[derive(Clone, Debug)]
pub struct EvaluationScreen {
    pub taps_per_zone: u32,
    pub run: Option<EvalRun>,
    pub result: Option<FinishedRun>,
    pub history: Vec<EvaluationReport>,
    pub history_for: Option<ProfileId>,
    pub pending_start: Option<u32>,
}

impl EvaluationScreen {
    /// A run in progress is in order.
    pub open spec fn wf(&self) -> bool {
        self.run matches Some(r) ==> r.wf()
    }

    pub fn new() -> (s: EvaluationScreen)
        ensures
            s.wf(),
            s.taps_per_zone == 0,
            s.run is None,
            s.result is None,
            s.history@.len() == 0,
            s.history_for is None,
            s.pending_start is None,
    {
        EvaluationScreen {
            taps_per_zone: 0,
            run: None,
            result: None,
            history: Vec::new(),
            history_for: None,
            pending_start: None,
        }
    }

    pub fn is_running(&self) -> (r: bool)
        ensures
            r == (self.run is Some),
    {
        self.run.is_some()
    }

    /// What to show, given the active profile. The history is to be loaded where
    /// it is another profile's (`true`).
    pub fn ui(&mut self, active: Option<ProfileId>) -> (r: (EvaluationView, bool))
        requires
            old(self).wf(),
        ensures
            final(self).wf(),
            match active {
                None => r == (EvaluationView::NoProfile, false) && *final(self) == *old(self),
                Some(id) => {
                    &&& r.1 == (old(self).history_for != Some(id))
                    &&& r.0 == if old(self).run is Some {
                        EvaluationView::Running
                    } else if old(self).result is Some {
                        EvaluationView::Result
                    } else {
                        EvaluationView::Idle
                    }
                    &&& *final(self) == (EvaluationScreen {
                        taps_per_zone: if old(self).taps_per_zone == 0 {
                            DEFAULT_EVAL_TAPS_PER_ZONE
                        } else {
                            old(self).taps_per_zone
                        },
                        ..*old(self)
                    })
                },
            },
    {
        let id: ProfileId = match active {
            Some(id) => id,
            None => return (EvaluationView::NoProfile, false),
        };
        let stale: bool = match self.history_for {
            Some(h) => h != id,
            None => true,
        };
        if self.taps_per_zone == 0 {
            self.taps_per_zone = DEFAULT_EVAL_TAPS_PER_ZONE;
        }
        let view = if self.run.is_some() {
            EvaluationView::Running
        } else if self.result.is_some() {
            EvaluationView::Result
        } else {
            EvaluationView::Idle
        };
        (view, stale)
    }

    /// Take the history that was loaded for a profile.
    pub fn set_history(&mut self, id: ProfileId, history: Vec<EvaluationReport>)
        ensures
            *final(self) == (EvaluationScreen { history, history_for: Some(id), ..*old(self) }),
    {
        self.history = history;
        self.history_for = Some(id);
    }

    /// Choose the number of taps per zone; one of those that are offered.
    pub fn choose_taps(&mut self, n: u32)
        ensures
            *final(self) == if n == 10 || n == 15 || n == 20 || n == 25 {
                (EvaluationScreen { taps_per_zone: n, ..*old(self) })
            } else {
                *old(self)
            },
    {
        if n == 10 || n == 15 || n == 20 || n == 25 {
            self.taps_per_zone = n;
        }
    }

    /// Ask for a run, of at least one tap per zone. It starts once the
    /// microphone is free.
    pub fn idle_ui(&mut self)
        ensures
            *final(self) == (EvaluationScreen {
                pending_start: Some(
                    if old(self).taps_per_zone == 0 {
                        1
                    } else {
                        old(self).taps_per_zone
                    },
                ),
                ..*old(self)
            }),
    {
        self.pending_start = Some(
            if self.taps_per_zone == 0 {
                1
            } else {
                self.taps_per_zone
            },
        );
    }

    /// Take the request for a run, if there is one.
    pub fn take_pending_start(&mut self) -> (r: Option<u32>)
        ensures
            r == old(self).pending_start,
            *final(self) == (EvaluationScreen { pending_start: None, ..*old(self) }),
    {
        let r: Option<u32> = self.pending_start;
        self.pending_start = None;
        r
    }

    /// Begin a run.
    pub fn begin_run(&mut self, profile: &Profile, taps_per_zone: u32)
        requires
            profile.classifier@.well_formed(),
        ensures
            final(self).wf(),
            final(self).run matches Some(r) && call_ensures(
                EvalRun::new,
                (profile, taps_per_zone),
                r,
            ) && *final(self) == (EvaluationScreen { result: None, run: Some(r), ..*old(self) }),
    {
        self.result = None;
        self.run = Some(EvalRun::new(profile, taps_per_zone));
    }

    /// Drop the run.
    pub fn stop_run(&mut self)
        ensures
            *final(self) == (EvaluationScreen { run: None, ..*old(self) }),
    {
        self.run = None;
    }

    /// End the run with its result, once every zone has its taps.
    pub fn running_ui<S: Fn(Single) -> usize, Q: Fn(u32, u32) -> Single>(
        &mut self,
        run_at: Timestamp,
        slot: S,
        divide: Q,
    ) -> (finished: bool)
        requires
            old(self).wf(),
            old(self).run matches Some(r) ==> r.records@.len() <= u32::MAX,
            forall|c: Single| #[trigger] call_requires(slot, (c,)),
            forall|a: u32, b: u32| b > 0 ==> #[trigger] call_requires(divide, (a, b)),
        ensures
            final(self).wf(),
            finished == (old(self).run matches Some(r) && forall|z: int|
                0 <= z < r.zone_ids@.len() ==> #[trigger] taps_for(r.records@, z)
                    >= r.taps_per_zone),
            !finished ==> *final(self) == *old(self),
            finished ==> (old(self).run matches Some(r) && final(self).result matches Some(f)
                && call_ensures(EvalRun::finish::<S, Q>, (&r, run_at, slot, divide), f)
                && *final(self) == (EvaluationScreen {
                run: None,
                result: Some(f),
                ..*old(self)
            })),
    {
        let done: bool = match &self.run {
            Some(r) => r.all_zones_complete(),
            None => false,
        };
        if !done {
            return false;
        }
        match self.run.take() {
            Some(run) => {
                self.result = Some(run.finish(run_at, slot, divide));
            },
            None => {},
        }
        true
    }

    /// Whether the result is still to be saved.
    pub fn save_due(&self) -> (r: bool)
        ensures
            r == (self.result matches Some(f) && f.saved is None),
    {
        match &self.result {
            Some(f) => f.saved.is_none(),
            None => false,
        }
    }

    /// Take what came of saving the result. The history is then out of date.
    pub fn result_ui(&mut self, saved: Result<String, String>)
        ensures
            match old(self).result {
                Some(f) => if f.saved is None {
                    final(self).result matches Some(g) && g == (FinishedRun {
                        saved: Some(saved),
                        ..f
                    }) && *final(self) == (EvaluationScreen {
                        result: Some(g),
                        history_for: None,
                        ..*old(self)
                    })
                } else {
                    *final(self) == *old(self)
                },
                None => *final(self) == *old(self),
            },
    {
        match self.result.take() {
            Some(mut f) => {
                if f.saved.is_none() {
                    f.saved = Some(saved);
                    self.history_for = None;
                }
                self.result = Some(f);
            },
            None => {},
        }
    }

    /// Try to save again, where saving failed. The result stays.
    pub fn retry_save(&mut self)
        ensures
            match old(self).result {
                Some(f) => match f.saved {
                    Some(Err(_)) => final(self).result == Some(
                        (FinishedRun { saved: None, ..f }),
                    ) && *final(self) == (EvaluationScreen {
                        result: final(self).result,
                        ..*old(self)
                    }),
                    _ => *final(self) == *old(self),
                },
                None => *final(self) == *old(self),
            },
    {
        match self.result.take() {
            Some(mut f) => {
                let failed: bool = match &f.saved {
                    Some(Err(_)) => true,
                    _ => false,
                };
                if failed {
                    f.saved = None;
                }
                self.result = Some(f);
            },
            None => {},
        }
    }

    /// Leave the result for another run.
    pub fn run_again(&mut self)
        ensures
            *final(self) == (EvaluationScreen { result: None, ..*old(self) }),
    {
        self.result = None;
    }
}

/// Taps are counted for the zone that they were asked of.
pub proof fn taps_are_counted_by_their_zone(records: Seq<TapRecord>, zone: int)
    ensures
        taps_for(records, zone) == records.filter(|r: TapRecord| r.zone_idx == zone).len(),
    decreases records.len(),
{
    reveal(Seq::filter);
    if records.len() > 0 {
        taps_are_counted_by_their_zone(records.drop_last(), zone);
    }
}

/// A cell of a run's confusion matrix counts the taps that were asked of its row
/// and recognised as its column; taps that were recognised as no zone of the run
/// count as rejected. Latencies come in the order of the taps.
pub proof fn tallies_sort_the_taps(
    zone_ids: Seq<ZoneId>,
    taps_per_zone: u32,
    records: Seq<TapRecord>,
    a: int,
    p: int,
)
    requires
        zone_ids.no_duplicates(),
        0 <= a < zone_ids.len(),
        0 <= p < zone_ids.len(),
        records.len() <= u32::MAX,
        forall|i: int|
            0 <= i < records.len() ==> (#[trigger] records[i]).zone_idx < zone_ids.len(),
    ensures
        tally_of(zone_ids, taps_per_zone, records).taps_per_zone == taps_per_zone,
        tally_of(zone_ids, taps_per_zone, records).matrix[a][p] == records.filter(
            |r: TapRecord| r.zone_idx == a && r.predicted == Some(zone_ids[p]),
        ).len(),
        tally_of(zone_ids, taps_per_zone, records).rejected[a] == records.filter(
            |r: TapRecord|
                r.zone_idx == a && !(r.predicted matches Some(z) && zone_ids.contains(z)),
        ).len(),
        tally_of(zone_ids, taps_per_zone, records).latencies == Seq::new(
            records.len(),
            |i: int| records[i].latency_ms,
        ),
    decreases records.len(),
{
    reveal(Seq::filter);
    let t = tally_of(zone_ids, taps_per_zone, records);
    if records.len() == 0 {
        assert(t.latencies =~= Seq::new(records.len(), |i: int| records[i].latency_ms));
    } else {
        let init = records.drop_last();
        let r = records.last();
        assert(records[records.len() - 1].zone_idx < zone_ids.len());
        assert forall|i: int| 0 <= i < init.len() implies (#[trigger] init[i]).zone_idx
            < zone_ids.len() by {
            assert(records[i].zone_idx < zone_ids.len());
        }
        tallies_sort_the_taps(zone_ids, taps_per_zone, init, a, p);
        tallies_count_the_taps(zone_ids, taps_per_zone, init, a);
        let before = tally_of(zone_ids, taps_per_zone, init);
        let actual = zone_ids[r.zone_idx as int];
        assert(in_run(zone_ids, actual.value));
        crate::evaluation::positions_exist(zone_ids, actual.value);
        let x = crate::evaluation::position(zone_ids, actual.value);
        assert(zone_ids[x] == actual);
        assert(x == r.zone_idx);
        assert(before.matrix[x].len() == before.matrix.len());
        assert(before.matrix[a].len() == before.matrix.len());
        crate::evaluation::sum_rows_of_update(before.matrix, x, before.matrix[x]);
        crate::evaluation::sum_of_update(before.rejected, x, 0);
        assert(init.len() < u32::MAX);
        match r.predicted {
            Some(z) if in_run(zone_ids, z.value) => {
                crate::evaluation::positions_exist(zone_ids, z.value);
                let y = crate::evaluation::position(zone_ids, z.value);
                crate::evaluation::sum_of_update(before.matrix[x], y, 0);
                assert(zone_ids[y] == z);
                assert(zone_ids.contains(z));
                assert((y == p) == (r.predicted == Some(zone_ids[p])));
            },
            Some(z) => {
                if zone_ids.contains(z) {
                    let k = zone_ids.index_of(z);
                    assert(zone_ids[k].value == z.value);
                }
                assert(zone_ids.contains(zone_ids[p]));
            },
            None => {},
        }
        assert(t.latencies =~= Seq::new(records.len(), |i: int| records[i].latency_ms));
    }
}

/// What the listener tells changes a run only as far as it concerns it. A tap is
/// recorded exactly where the current zone is armed and still lacks taps, and the
/// window is a full one of a sound that decays: then it is one more at the end,
/// asked of the current zone, and the zone is disarmed once it has its taps.
/// Everything else stays.
pub proof fn taps_are_recorded_for_the_current_zone<
    E: Fn(&[Single]) -> FeatureVector,
    D: Fn(&ClassifierParams, &FeatureVector) -> Distances,
    T: Fn(u64) -> Single,
>(
    before: EvalRun,
    event: CaptureEvent,
    extract: E,
    measure: D,
    latency: T,
    after: EvalRun,
)
    requires
        before.wf(),
        measures_any(measure),
        told(before, event, extract, measure, latency, after),
    ensures
        after.zone_ids == before.zone_ids && after.zone_labels == before.zone_labels,
        after.classifier == before.classifier && after.profile_id == before.profile_id,
        after.taps_per_zone == before.taps_per_zone && after.current_zone == before.current_zone,
        !(event is Started) ==> after.device_name == before.device_name,
        !(event is Failed) ==> after.capture_error == before.capture_error,
        event matches CaptureEvent::Started { device_name, .. } ==> after.device_name == Some(
            device_name,
        ),
        event matches CaptureEvent::Failed(msg) ==> after.capture_error == Some(msg),
        !(event is Onset) ==> after.records == before.records && after.last == before.last
            && after.armed == before.armed,
        event matches CaptureEvent::Onset { window, is_transient, detected_at } ==> {
            let wanted = before.zone_ids@.len() > 0 && before.armed && is_transient
                && before.records@.filter(
                |r: TapRecord| r.zone_idx == before.current_zone,
            ).len() < before.taps_per_zone && window@.len() == 4096;
            &&& !wanted ==> after == before
            &&& wanted ==> {
                let tap = after.records@.last();
                &&& after.records@.len() == before.records@.len() + 1
                &&& after.records@.drop_last() == before.records@
                &&& tap.zone_idx == before.current_zone
                &&& call_ensures(latency, (detected_at,), tap.latency_ms)
                &&& tap.predicted matches Some(z) ==> before.classifier@.zone_ids.contains(z)
                &&& exists|w: &[Single], fv: FeatureVector, d: Distances, c: Classification|
                    {
                        &&& w@ == window@
                        &&& #[trigger] call_ensures(extract, (w,), fv)
                        &&& #[trigger] call_ensures(measure, (&before.classifier, &fv), d)
                        &&& #[trigger] classified(before.classifier@, fv@, d, c)
                        &&& tap.confidence == c.confidence
                        &&& tap.predicted == c.zone_id
                    }
                &&& after.last matches Some(l) && l.correct == (tap.predicted == Some(
                    before.zone_ids@[before.current_zone as int],
                )) && l.accepted == (tap.predicted is Some) && (
                tap.predicted is None ==> l.predicted_label is None)
                &&& after.armed <==> after.records@.filter(
                    |r: TapRecord| r.zone_idx == before.current_zone,
                ).len() < before.taps_per_zone
            }
        },
{
    match event {
        CaptureEvent::Onset { window, is_transient, detected_at } => {
            taps_are_counted_by_their_zone(before.records@, before.current_zone as int);
            taps_are_counted_by_their_zone(after.records@, before.current_zone as int);
            let z = before.current_zone as int;
            assert(before.records@.filter(|r: TapRecord| r.zone_idx == z) =~= before.records@.filter(
                |r: TapRecord| r.zone_idx == before.current_zone,
            )) by {
                filters_agree(before.records@, before.current_zone);
            }
            filters_agree(after.records@, before.current_zone);
            if !(before.zone_ids@.len() == 0 || !before.armed || !is_transient
                || before.complete() || window@.len() != FEATURE_WINDOW_SAMPLES) {
                let (record, last) = choose|record: TapRecord, last: LastTap| #[trigger]
                    heard(before, window@, detected_at, extract, measure, latency, record, last)
                        && after.records@ == before.records@.push(record) && after == (EvalRun {
                        records: after.records,
                        last: Some(last),
                        armed: !after.complete(),
                        ..before
                    });
                assert(after.records@.drop_last() =~= before.records@);
                let (w, fv, d, c) = choose|
                    w: &[Single],
                    fv: FeatureVector,
                    d: Distances,
                    c: Classification,
                |
                    {
                        &&& w@ == window@
                        &&& #[trigger] call_ensures(extract, (w,), fv)
                        &&& #[trigger] call_ensures(measure, (&before.classifier, &fv), d)
                        &&& #[trigger] classified(before.classifier@, fv@, d, c)
                        &&& call_ensures(latency, (detected_at,), record.latency_ms)
                        &&& record.zone_idx == before.current_zone
                        &&& record.predicted == (if c.accepted {
                            c.zone_id
                        } else {
                            None
                        })
                        &&& record.confidence == c.confidence
                        &&& last.accepted == c.accepted
                        &&& last.correct == (record.predicted == Some(
                            before.zone_ids@[before.current_zone as int],
                        ))
                        &&& labels_prediction(
                            before.zone_ids@,
                            before.zone_labels@,
                            record.predicted,
                            last.predicted_label,
                        )
                    };
                assert(d.covers(before.classifier@));
                accepted_means_a_zone(before.classifier@, fv@, d, c);
                let tap = after.records@.last();
                assert(w@ == window@ && call_ensures(extract, (w,), fv) && call_ensures(
                    measure,
                    (&before.classifier, &fv),
                    d,
                ) && classified(before.classifier@, fv@, d, c) && tap.confidence == c.confidence
                    && tap.predicted == c.zone_id);
            }
        },
        _ => {},
    }
}

proof fn filters_agree(records: Seq<TapRecord>, zone: usize)
    ensures
        records.filter(|r: TapRecord| r.zone_idx == zone as int) == records.filter(
            |r: TapRecord| r.zone_idx == zone,
        ),
    decreases records.len(),
{
    reveal(Seq::filter);
    if records.len() > 0 {
        filters_agree(records.drop_last(), zone);
    }
}

/// A zone that was recognised is called by its own label, the first of those that
/// share its identity; what is no zone of the run has none.
pub proof fn predictions_have_their_zones_label(
    zone_ids: Seq<ZoneId>,
    labels: Seq<String>,
    z: ZoneId,
    label: Option<String>,
    i: int,
)
    requires
        labels_prediction(zone_ids, labels, Some(z), label),
        zone_ids.no_duplicates(),
        labels.len() == zone_ids.len(),
        0 <= i < zone_ids.len(),
    ensures
        zone_ids[i] == z ==> (label matches Some(l) && l@ == labels[i]@),
        !zone_ids.contains(z) ==> label is None,
{
    if zone_ids[i] == z {
        assert(zone_ids.contains(z));
    }
}

/// An accuracy is good from 92 in a hundred on and fair from three quarters on;
/// the better of two accuracies never has the worse grade. Latencies are short
/// enough with a median under 120 milliseconds and 95 in a hundred under 200.
pub proof fn grades_follow_the_targets(
    accuracy: Single,
    better: Single,
    g: Grade,
    h: Grade,
    met: bool,
    l: &LatencyStats,
    quick: bool,
)
    requires
        call_ensures(grade, (accuracy,), g),
        call_ensures(grade, (better,), h),
        call_ensures(meets_target, (accuracy,), met),
        call_ensures(latency_ok, (l,), quick),
        accuracy.at_most(better),
    ensures
        met <==> g is Good,
        g is Good <==> (Single { bits: 0x3f6b_851f }).at_most(accuracy),
        g is Poor <==> accuracy.below(Single { bits: 0x3f40_0000 }),
        g is Good ==> h is Good,
        h is Poor ==> g is Poor,
        quick <==> l.p50.below(Single { bits: 0x42f0_0000 }) && l.p95.below(
            Single { bits: 0x4348_0000 },
        ),
{
}

/// A new run has the profile's zones and classifier, starts at the first zone and
/// has heard nothing; nothing counts before a zone is armed.
pub proof fn new_runs_start_at_the_first_zone(
    profile: &Profile,
    taps_per_zone: u32,
    r: EvalRun,
    i: int,
)
    requires
        profile.classifier@.well_formed(),
        call_ensures(EvalRun::new, (profile, taps_per_zone), r),
        0 <= i < profile.zones@.len(),
    ensures
        r.zone_ids@.len() == profile.zones@.len(),
        r.zone_ids@[i] == profile.zones@[i].id,
        r.zone_labels@[i]@ == profile.zones@[i].label@,
        r.classifier@ == profile.classifier@ && r.profile_id == profile.id,
        r.taps_per_zone == taps_per_zone,
        r.records@.len() == 0 && r.current_zone == 0 && !r.armed && r.last is None,
{
    let z = r.zone_ids@[i];
    let l = r.zone_labels@[i];
}

/// A run is over exactly where every zone has the taps that were asked for, and
/// then the current one has them too. The last zone is the one that no other
/// follows.
pub proof fn runs_end_with_the_last_tap(run: &EvalRun, done: bool, last: bool, full: bool)
    requires
        run.wf(),
        run.zone_ids@.len() > 0,
        call_ensures(EvalRun::all_zones_complete, (run,), done),
        call_ensures(EvalRun::is_last_zone, (run,), last),
        call_ensures(EvalRun::current_zone_complete, (run,), full),
    ensures
        done <==> forall|z: int|
            0 <= z < run.zone_ids@.len() ==> #[trigger] taps_for(run.records@, z)
                == run.taps_per_zone,
        last <==> run.current_zone == run.zone_ids@.len() - 1,
        full <==> run.records@.filter(|r: TapRecord| r.zone_idx == run.current_zone as int).len()
            == run.taps_per_zone,
        done ==> full,
{
    let c = run.current_zone as int;
    taps_are_counted_by_their_zone(run.records@, c);
    assert(taps_for(run.records@, c) <= run.taps_per_zone);
    assert(run.records@.filter(|r: TapRecord| r.zone_idx == run.current_zone as int)
        == run.records@.filter(|r: TapRecord| r.zone_idx == c)) by {
        filters_agree(run.records@, run.current_zone);
    }
    if !done {
        let z = choose|z: int|
            0 <= z < run.zone_ids@.len() && #[trigger] taps_for(run.records@, z)
                < run.taps_per_zone;
        assert(taps_for(run.records@, z) != run.taps_per_zone);
    }
}

/// The result of a run is that of its taps: every latency in order, each cell of the
/// confusion matrix the number of taps that were asked of its row and recognised as
/// its column, and the zones with their labels.
pub proof fn results_are_those_of_the_taps<S: Fn(Single) -> usize, Q: Fn(u32, u32) -> Single>(
    run: &EvalRun,
    run_at: Timestamp,
    slot: S,
    divide: Q,
    f: FinishedRun,
    a: int,
    p: int,
    i: int,
)
    requires
        run.wf(),
        run.zone_ids@.no_duplicates(),
        run.records@.len() <= u32::MAX,
        call_ensures(EvalRun::finish::<S, Q>, (run, run_at, slot, divide), f),
        0 <= a < run.zone_ids@.len(),
        0 <= p < run.zone_ids@.len(),
        0 <= i < run.records@.len(),
    ensures
        f.saved is None,
        f.zone_ids@ == run.zone_ids@,
        f.zone_labels@.len() == run.zone_labels@.len(),
        f.zone_labels@[a]@ == run.zone_labels@[a]@,
        f.report.profile_id == run.profile_id && f.report.run_at == run_at,
        f.report.taps_per_zone == run.taps_per_zone,
        f.latencies_ms@.len() == run.records@.len(),
        f.latencies_ms@[i] == run.records@[i].latency_ms,
        f.report.confusion_matrix@[a]@[p] == run.records@.filter(
            |r: TapRecord| r.zone_idx == a && r.predicted == Some(run.zone_ids@[p]),
        ).len(),
{
    tallies_sort_the_taps(run.zone_ids@, run.taps_per_zone, run.records@, a, p);
    tallies_count_the_taps(run.zone_ids@, run.taps_per_zone, run.records@, a);
    let t = tally_of(run.zone_ids@, run.taps_per_zone, run.records@);
    let slots = choose|slots: Seq<usize>| #[trigger]
        slotted(slot, t.confidences, slots) && reported(
            t,
            run.profile_id,
            run_at,
            slots,
            divide,
            f.report,
        );
    crate::evaluation::reports_hold_the_run(
        t,
        run.profile_id,
        run_at,
        slots,
        divide,
        f.report,
        a,
    );
    assert(views(f.zone_labels@).len() == views(run.zone_labels@).len());
    assert(views(f.zone_labels@)[a] == views(run.zone_labels@)[a]);
}

/// Confidences are put into buckets one by one, in order.
pub proof fn every_confidence_has_its_slot<S: Fn(Single) -> usize>(
    slot: S,
    confidences: Seq<Single>,
    slots: Seq<usize>,
    k: int,
)
    requires
        slotted(slot, confidences, slots),
        0 <= k < confidences.len(),
    ensures
        slots.len() == confidences.len(),
        call_ensures(slot, (confidences[k],), slots[k]),
{
    let s = slots[k];
}

/// The zone that is asked for is called by its own label.
pub proof fn prompts_name_the_current_zone(run: &EvalRun)
    requires
        run.wf(),
    ensures
        run.zone_ids@.len() > 0 ==> run.current_label() == run.zone_labels@[
            run.current_zone as int]@,
        run.zone_ids@.len() == 0 ==> run.current_label().len() == 0,
{
}

/// Where a zone has a tap, one of its taps is the last, and it is the only one that
/// is: it comes after all others of that zone. Without a tap there is none.
pub proof fn zones_with_taps_have_a_last_one(records: Seq<TapRecord>, zone: int, k: int) -> (i: int)
    requires
        0 <= k < records.len(),
    ensures
        records[k].zone_idx == zone ==> last_tap_of(records, zone, i) && i >= k,
        last_tap_of(records, zone, k) ==> records[k].zone_idx == zone && k == i,
        last_tap_of(records, zone, k) <==> records[k].zone_idx == zone && forall|j: int|
            k < j < records.len() ==> (#[trigger] records[j]).zone_idx != zone,
    decreases records.len() - k,
{
    if exists|j: int| k < j < records.len() && (#[trigger] records[j]).zone_idx == zone {
        let j = choose|j: int| k < j < records.len() && (#[trigger] records[j]).zone_idx == zone;
        zones_with_taps_have_a_last_one(records, zone, j)
    } else {
        k
    }
}

} // verus!
