//! The diagnostics screen: the sound as it comes in, and where the last tap
//! lies among the zones.

use vstd::prelude::*;

use crate::calibration::measures_any;
use crate::capture_worker::CaptureEvent;
use crate::classifier::{
    located, ClassifierParams, Distances, FeatureSpaceView, ZoneDistance,
};
use crate::features::{FeatureVector, FEATURE_WINDOW_SAMPLES};
use crate::ids::ZoneId;
use crate::profile::{Profile, SensingMode, Zone};
use crate::single::{first_least, first_least_of, Single, ZERO};
use crate::text::join3;

verus! {

/// Columns of the spectrogram.
pub const SPECTROGRAM_COLUMNS: usize = 90;

/// Encoding of the smallest scale of the bars, `1e-6`.
pub const SCALE_FLOOR: u32 = 0x3586_37bd;

/// The last tap.
#[derive(Clone, Debug)]
pub struct TapView {
    pub space: FeatureSpaceView,
    pub is_transient: bool,
}

/// The screen.
#[derive(Clone, Debug)]
pub struct DiagnosticsScreen {
    /// Whether it has the microphone.
    pub capturing: bool,
    pub device_name: Option<String>,
    pub error: Option<String>,
    pub waveform: Vec<Single>,
    /// The oldest column first.
    pub spectrogram: Vec<[Single; 16]>,
    pub last_tap: Option<TapView>,
}

/// The last columns, at most as many as the spectrogram has.
pub open spec fn latest_columns(s: Seq<[Single; 16]>) -> Seq<[Single; 16]> {
    if s.len() > SPECTROGRAM_COLUMNS {
        s.skip(s.len() - SPECTROGRAM_COLUMNS)
    } else {
        s
    }
}

impl DiagnosticsScreen {
    /// The spectrogram is bounded.
    pub open spec fn wf(&self) -> bool {
        self.spectrogram@.len() <= SPECTROGRAM_COLUMNS
    }

    /// Nothing is shown and the microphone is free.
    pub open spec fn idle(&self) -> bool {
        &&& !self.capturing
        &&& self.device_name is None
        &&& self.error is None
        &&& self.waveform@.len() == 0
        &&& self.spectrogram@.len() == 0
        &&& self.last_tap is None
    }

    pub fn new() -> (s: DiagnosticsScreen)
        ensures
            s.idle(),
            s.wf(),
    {
        DiagnosticsScreen {
            capturing: false,
            device_name: None,
            error: None,
            waveform: Vec::new(),
            spectrogram: Vec::new(),
            last_tap: None,
        }
    }

    /// Whether the microphone is to be opened: not while it is, nor after it
    /// failed.
    pub fn needs_start(&self) -> (r: bool)
        ensures
            r == (!self.capturing && self.error is None),
    {
        !self.capturing && self.error.is_none()
    }

    /// The microphone was opened.
    pub fn start(&mut self)
        ensures
            *final(self) == (DiagnosticsScreen { capturing: true, error: None, ..*old(self) }),
    {
        self.error = None;
        self.capturing = true;
    }

    /// Give the microphone back and forget everything, an error too: the next
    /// visit tries again.
    pub fn stop(&mut self)
        ensures
            final(self).idle(),
            final(self).wf(),
    {
        self.capturing = false;
        self.waveform.clear();
        self.spectrogram.clear();
        self.last_tap = None;
        self.device_name = None;
        self.error = None;
    }

    /// Take what the listener tells, while there is one. A window is located
    /// among the zones of the profile, where there is one.
    pub fn drain<
        E: Fn(&[Single]) -> FeatureVector,
        D: Fn(&ClassifierParams, &FeatureVector) -> Distances,
    >(&mut self, event: CaptureEvent, profile: Option<&Profile>, extract: E, measure: D)
        requires
            old(self).wf(),
            profile matches Some(p) ==> p.classifier@.well_formed(),
            forall|w: &[Single]|
                w@.len() == FEATURE_WINDOW_SAMPLES ==> #[trigger] call_requires(extract, (w,)),
            measures_any(measure),
        ensures
            final(self).wf(),
            told(*old(self), event, profile, extract, measure, *final(self)),
    {
        if !self.capturing {
            return ;
        }
        match event {
            CaptureEvent::Started { device_name, .. } => {
                self.device_name = Some(device_name);
            },
            CaptureEvent::Level { .. } => {},
            CaptureEvent::Frame { waveform, bands } => {
                let ghost before = self.spectrogram@;
                self.waveform = waveform;
                self.spectrogram.push(bands);
                if self.spectrogram.len() > SPECTROGRAM_COLUMNS {
                    self.spectrogram.remove(0);
                }
                proof {
                    assert(self.spectrogram@ =~= latest_columns(before.push(bands)));
                }
            },
            CaptureEvent::Onset { window, is_transient, .. } => {
                match profile {
                    Some(p) => {
                        if window.len() == FEATURE_WINDOW_SAMPLES {
                            let fv: FeatureVector = extract(&window);
                            let d: Distances = measure(&p.classifier, &fv);
                            let space = p.classifier.feature_space(&fv, &d);
                            proof {
                                assert(call_ensures(measure, (&p.classifier, &fv), d));
                                assert(located(p.classifier@, fv@, d, space));
                            }
                            self.last_tap = Some(TapView { space, is_transient });
                        }
                    },
                    None => {},
                }
            },
            CaptureEvent::Failed(msg) => {
                self.error = Some(msg);
                self.capturing = false;
            },
        }
    }

    /// Whether the screen is drawn continuously: while it has the microphone.
    pub fn repaints(&self) -> (r: bool)
        ensures
            r == self.capturing,
    {
        self.capturing
    }
}

/// What an event of the listener does to the screen.
pub open spec fn told<
    E: Fn(&[Single]) -> FeatureVector,
    D: Fn(&ClassifierParams, &FeatureVector) -> Distances,
>(
    before: DiagnosticsScreen,
    event: CaptureEvent,
    profile: Option<&Profile>,
    extract: E,
    measure: D,
    after: DiagnosticsScreen,
) -> bool {
    if !before.capturing {
        after == before
    } else {
        match event {
            CaptureEvent::Started { device_name, .. } => after == (DiagnosticsScreen {
                device_name: Some(device_name),
                ..before
            }),
            CaptureEvent::Level { .. } => after == before,
            CaptureEvent::Frame { waveform, bands } => after.spectrogram@ == latest_columns(
                before.spectrogram@.push(bands),
            ) && after == (DiagnosticsScreen {
                waveform,
                spectrogram: after.spectrogram,
                ..before
            }),
            CaptureEvent::Onset { window, is_transient, .. } => if profile is Some && window@.len()
                == FEATURE_WINDOW_SAMPLES {
                let p = profile->0;
                exists|w: &[Single], fv: FeatureVector, d: Distances, space: FeatureSpaceView|
                    {
                        &&& w@ == window@
                        &&& #[trigger] call_ensures(extract, (w,), fv)
                        &&& #[trigger] call_ensures(measure, (&p.classifier, &fv), d)
                        &&& #[trigger] located(p.classifier@, fv@, d, space)
                        &&& after == (DiagnosticsScreen {
                            last_tap: Some(TapView { space, is_transient }),
                            ..before
                        })
                    }
            } else {
                after == before
            },
            CaptureEvent::Failed(msg) => after == (DiagnosticsScreen {
                error: Some(msg),
                capturing: false,
                ..before
            }),
        }
    }
}

/// The distances of the zones.
pub open spec fn centroid_distances(zones: Seq<ZoneDistance>) -> Seq<Single> {
    Seq::new(zones.len(), |i: int| zones[i].centroid_distance)
}

impl FeatureSpaceView {
    /// Every distance is a finite number: there is something to compare.
    pub open spec fn comparable(&self) -> bool {
        self.nearest_example_distance.finite() && forall|i: int|
            0 <= i < self.zones@.len() ==> (#[trigger] self.zones@[i]).centroid_distance.finite()
    }

    pub fn is_comparable(&self) -> (r: bool)
        ensures
            r == self.comparable(),
    {
        let mut i: usize = 0;
        while i < self.zones.len()
            invariant
                i <= self.zones@.len(),
                forall|j: int|
                    0 <= j < i ==> (#[trigger] self.zones@[j]).centroid_distance.finite(),
            decreases self.zones@.len() - i,
        {
            if !self.zones[i].centroid_distance.is_finite() {
                return false;
            }
            i += 1;
        }
        self.nearest_example_distance.is_finite()
    }

    /// `zone` is that of the nearest centroid; of several, the first.
    pub open spec fn nearest(&self, zone: Option<ZoneId>) -> bool {
        match zone {
            Some(z) => exists|i: int| #[trigger]
                first_least(centroid_distances(self.zones@), i) && z == self.zones@[i].zone_id,
            None => self.zones@.len() == 0,
        }
    }

    /// The zone of the nearest centroid, whether the sound is accepted or not.
    pub fn nearest_zone(&self) -> (r: Option<ZoneId>)
        ensures
            self.nearest(r),
    {
        let mut d: Vec<Single> = Vec::new();
        let mut i: usize = 0;
        while i < self.zones.len()
            invariant
                i <= self.zones@.len(),
                d@.len() == i,
                forall|j: int| 0 <= j < i ==> #[trigger] d@[j] == self.zones@[j].centroid_distance,
            decreases self.zones@.len() - i,
        {
            d.push(self.zones[i].centroid_distance);
            i += 1;
        }
        proof {
            assert(d@ =~= centroid_distances(self.zones@));
        }
        match first_least_of(&d) {
            Some(k) => Some(self.zones[k].zone_id),
            None => None,
        }
    }

    /// The scale of the bars: the largest distance or the threshold, and positive.
    pub open spec fn scale_of(&self, n: int) -> Single
        decreases n,
    {
        if n <= 0 {
            Single { bits: ZERO }
        } else {
            self.scale_of(n - 1).larger(self.zones@[n - 1].centroid_distance)
        }
    }

    pub fn scale(&self) -> (m: Single)
        ensures
            m == self.scale_of(self.zones@.len() as int).larger(self.novelty_threshold).larger(
                Single { bits: SCALE_FLOOR },
            ),
    {
        let mut m: Single = Single { bits: ZERO };
        let mut i: usize = 0;
        while i < self.zones.len()
            invariant
                i <= self.zones@.len(),
                m == self.scale_of(i as int),
            decreases self.zones@.len() - i,
        {
            m = m.max(self.zones[i].centroid_distance);
            i += 1;
        }
        m.max(self.novelty_threshold).max(Single { bits: SCALE_FLOOR })
    }
}

/// A bar of the feature space: a zone of the profile, how far the tap is from
/// it, and whether it won.
#[derive(Clone, Copy, Debug, PartialEq, Eq, Structural)]
pub struct ZoneBar {
    /// Position among the profile's zones.
    pub zone: usize,
    pub distance: Single,
    pub is_winner: bool,
}

/// `i` is the first entry for a zone.
pub open spec fn first_entry(entries: Seq<ZoneDistance>, zone: ZoneId, i: int) -> bool {
    &&& 0 <= i < entries.len()
    &&& entries[i].zone_id == zone
    &&& forall|j: int| 0 <= j < i ==> (#[trigger] entries[j]).zone_id != zone
}

/// `b` is the bar for zone `z` of the profile: its first entry's distance, and a
/// winner where it is the nearest zone and the tap was accepted.
pub open spec fn bar_for(
    zones: Seq<Zone>,
    space: FeatureSpaceView,
    winner: Option<ZoneId>,
    b: ZoneBar,
) -> bool {
    &&& b.zone < zones.len()
    &&& exists|i: int| #[trigger]
        first_entry(space.zones@, zones[b.zone as int].id, i) && b.distance
            == space.zones@[i].centroid_distance
    &&& b.is_winner == (winner == Some(zones[b.zone as int].id) && space.accepted)
}

/// The zone has an entry.
pub open spec fn has_entry(entries: Seq<ZoneDistance>, zone: ZoneId) -> bool {
    exists|i: int| first_entry(entries, zone, i)
}

/// How many of the zones have an entry.
pub open spec fn entry_count(zones: Seq<Zone>, entries: Seq<ZoneDistance>) -> nat
    decreases zones.len(),
{
    if zones.len() == 0 {
        0
    } else {
        entry_count(zones.drop_last(), entries) + if has_entry(entries, zones.last().id) {
            1nat
        } else {
            0nat
        }
    }
}

fn find_entry(entries: &Vec<ZoneDistance>, zone: ZoneId) -> (r: Option<usize>)
    ensures
        match r {
            Some(i) => first_entry(entries@, zone, i as int),
            None => !has_entry(entries@, zone),
        },
{
    let mut i: usize = 0;
    while i < entries.len()
        invariant
            i <= entries@.len(),
            forall|j: int| 0 <= j < i ==> (#[trigger] entries@[j]).zone_id != zone,
        decreases entries@.len() - i,
    {
        if entries[i].zone_id == zone {
            return Some(i);
        }
        i += 1;
    }
    proof {
        assert forall|k: int| !first_entry(entries@, zone, k) by {}
    }
    None
}

/// The bars of the feature space, in the order of the profile's zones: one for
/// every zone that the classifier knows.
pub fn draw_feature_space(zones: &Vec<Zone>, space: &FeatureSpaceView) -> (bars: Vec<ZoneBar>)
    ensures
        bars@.len() == entry_count(zones@, space.zones@),
        exists|winner: Option<ZoneId>| #[trigger]
            space.nearest(winner) && forall|k: int|
                0 <= k < bars@.len() ==> bar_for(zones@, *space, winner, #[trigger] bars@[k]),
        forall|j: int, k: int|
            0 <= j < k < bars@.len() ==> (#[trigger] bars@[j]).zone < (#[trigger] bars@[k]).zone,
{
    let winner: Option<ZoneId> = space.nearest_zone();
    let mut bars: Vec<ZoneBar> = Vec::new();
    let mut z: usize = 0;
    while z < zones.len()
        invariant
            z <= zones@.len(),
            space.nearest(winner),
            bars@.len() == entry_count(zones@.take(z as int), space.zones@),
            forall|k: int|
                0 <= k < bars@.len() ==> bar_for(zones@, *space, winner, #[trigger] bars@[k])
                    && bars@[k].zone < z,
            forall|j: int, k: int|
                0 <= j < k < bars@.len() ==> (#[trigger] bars@[j]).zone < (
                #[trigger] bars@[k]).zone,
        decreases zones@.len() - z,
    {
        proof {
            assert(zones@.take(z + 1).drop_last() =~= zones@.take(z as int));
        }
        let id: ZoneId = zones[z].id;
        match find_entry(&space.zones, id) {
            Some(i) => {
                let won: bool = match winner {
                    Some(w) => w == id && space.accepted,
                    None => false,
                };
                let bar = ZoneBar {
                    zone: z,
                    distance: space.zones[i].centroid_distance,
                    is_winner: won,
                };
                proof {
                    assert(id == zones@[bar.zone as int].id);
                    assert(first_entry(space.zones@, zones@[bar.zone as int].id, i as int));
                    assert(bar.is_winner == (winner == Some(id) && space.accepted));
                    assert(bar_for(zones@, *space, winner, bar));
                }
                bars.push(bar);
            },
            None => {},
        }
        z += 1;
    }
    proof {
        assert(zones@.take(z as int) =~= zones@);
    }
    bars
}

/// The name of a way of sensing.
pub open spec fn mode_text(mode: SensingMode) -> Seq<char> {
    match mode {
        SensingMode::Passive => "Passive"@,
        SensingMode::Active => "Active"@,
        SensingMode::Hybrid => "Hybrid"@,
    }
}

pub fn mode_name(mode: SensingMode) -> (s: &'static str)
    ensures
        s@ == mode_text(mode),
{
    match mode {
        SensingMode::Passive => "Passive",
        SensingMode::Active => "Active",
        SensingMode::Hybrid => "Hybrid",
    }
}

/// Whether a way of sensing can be used: only listening can.
pub fn mode_available(mode: SensingMode) -> (r: bool)
    ensures
        r == (mode == SensingMode::Passive),
{
    mode == SensingMode::Passive
}

/// What is said of how the profile was calibrated.
pub fn sensing_mode_text(mode: Option<SensingMode>) -> (s: String)
    ensures
        s@ == match mode {
            Some(m) => "This profile was calibrated with "@ + mode_text(m) + " sensing."@,
            None => "No profile is active."@,
        },
{
    match mode {
        Some(m) => join3("This profile was calibrated with ", mode_name(m), " sensing."),
        None => "No profile is active.".to_owned(),
    }
}

/// The spectrogram keeps the latest ninety columns, the newest one last and all in
/// the order in which they came.
pub proof fn spectrograms_keep_the_latest(s: Seq<[Single; 16]>, k: int)
    requires
        0 <= k < latest_columns(s).len(),
    ensures
        latest_columns(s).len() <= 90,
        s.len() <= 90 ==> latest_columns(s) == s,
        s.len() > 90 ==> latest_columns(s).len() == 90,
        latest_columns(s)[latest_columns(s).len() - 1 - k] == s[s.len() - 1 - k],
{
}

/// What the listener tells the screen while it has the microphone; before and
/// after, nothing changes. Each event changes what it speaks of: a frame the
/// waveform and the spectrogram, an onset the last tap, and only with a profile
/// and a full window, and a failure gives the microphone back and keeps the rest.
pub proof fn events_change_what_they_speak_of<
    E: Fn(&[Single]) -> FeatureVector,
    D: Fn(&ClassifierParams, &FeatureVector) -> Distances,
>(
    before: DiagnosticsScreen,
    event: CaptureEvent,
    profile: Option<&Profile>,
    extract: E,
    measure: D,
    after: DiagnosticsScreen,
)
    requires
        before.wf(),
        told(before, event, profile, extract, measure, after),
    ensures
        !before.capturing ==> after == before,
        before.capturing ==> (after.capturing <==> !(event is Failed)),
        before.capturing ==> (event matches CaptureEvent::Failed(msg) ==> after.error == Some(msg)),
        !(event is Failed) ==> after.error == before.error,
        before.capturing ==> (event matches CaptureEvent::Started { device_name, .. }
            ==> after.device_name == Some(device_name)),
        !(event is Started) ==> after.device_name == before.device_name,
        before.capturing ==> (event matches CaptureEvent::Frame { waveform, bands }
            ==> after.waveform == waveform && after.spectrogram@.last() == bands
            && after.spectrogram@.len() == if before.spectrogram@.len() < 90 {
            before.spectrogram@.len() + 1
        } else {
            90
        }),
        !(event is Frame) ==> after.waveform == before.waveform && after.spectrogram
            == before.spectrogram,
        !(event is Onset) || profile is None ==> after.last_tap == before.last_tap,
        before.capturing && profile is Some ==> (event matches CaptureEvent::Onset {
            window,
            is_transient,
            ..
        } ==> if window@.len() == 4096 {
            after.last_tap matches Some(t) && t.is_transient == is_transient && t.space.zones@.len()
                == profile->0.classifier@.zone_ids.len() && t.space.novelty_threshold
                == profile->0.classifier@.novelty_threshold && forall|j: int|
                0 <= j < t.space.zones@.len() ==> (#[trigger] t.space.zones@[j]).zone_id
                    == profile->0.classifier@.zone_ids[j]
        } else {
            after.last_tap == before.last_tap
        }),
{
}

/// The nearest zone is one that no other is nearer than.
pub proof fn the_nearest_zone_is_as_near_as_any(
    space: &FeatureSpaceView,
    r: Option<ZoneId>,
    j: int,
)
    requires
        call_ensures(FeatureSpaceView::nearest_zone, (space,), r),
        0 <= j < space.zones@.len(),
        forall|i: int|
            0 <= i < space.zones@.len() ==> (#[trigger] space.zones@[i]).centroid_distance.finite(),
    ensures
        exists|i: int|
            0 <= i < space.zones@.len() && r == Some((#[trigger] space.zones@[i]).zone_id)
                && space.zones@[i].centroid_distance.at_most(space.zones@[j].centroid_distance),
{
    let d = centroid_distances(space.zones@);
    let z = r->0;
    let i = choose|i: int| #[trigger] first_least(d, i) && z == space.zones@[i].zone_id;
    assert(d[i].total_rank() <= d[j].total_rank());
    assert(space.zones@[i].centroid_distance.finite());
    assert(space.zones@[j].centroid_distance.finite());
    assert(space.zones@[i].centroid_distance.at_most(space.zones@[j].centroid_distance));
}

proof fn scales_reach_every_distance(space: &FeatureSpaceView, n: int)
    requires
        0 <= n <= space.zones@.len(),
    ensures
        !space.scale_of(n).nan(),
        forall|i: int|
            0 <= i < n && !(#[trigger] space.zones@[i]).centroid_distance.nan()
                ==> space.zones@[i].centroid_distance.at_most(space.scale_of(n)),
        space.scale_of(n).bits == 0 || exists|i: int|
            0 <= i < n && (#[trigger] space.zones@[i]).centroid_distance == space.scale_of(n),
    decreases n,
{
    if n > 0 {
        scales_reach_every_distance(space, n - 1);
        let before = space.scale_of(n - 1);
        let last = space.zones@[n - 1].centroid_distance;
        assert forall|i: int|
            0 <= i < n && !(#[trigger] space.zones@[i]).centroid_distance.nan() implies
            space.zones@[i].centroid_distance.at_most(space.scale_of(n)) by {
            if i < n - 1 {
                assert(space.zones@[i].centroid_distance.at_most(before));
            }
        }
        if space.scale_of(n) == before && before.bits != 0 {
            let i = choose|i: int|
                0 <= i < n - 1 && (#[trigger] space.zones@[i]).centroid_distance == before;
            assert(space.zones@[i].centroid_distance == space.scale_of(n));
        } else if space.scale_of(n) != before {
            assert(space.zones@[n - 1].centroid_distance == space.scale_of(n));
        }
    }
}

/// The bars are scaled so that every distance and the threshold fit, and no wider
/// than the widest of them, or than the smallest scale.
pub proof fn scales_fit_the_widest_bar(space: &FeatureSpaceView, m: Single, j: int)
    requires
        call_ensures(FeatureSpaceView::scale, (space,), m),
        0 <= j < space.zones@.len(),
    ensures
        (Single { bits: 0x3586_37bd }).at_most(m),
        !space.novelty_threshold.nan() ==> space.novelty_threshold.at_most(m),
        !space.zones@[j].centroid_distance.nan() ==> space.zones@[j].centroid_distance.at_most(m),
        m.bits == 0x3586_37bd || m == space.novelty_threshold || exists|i: int|
            0 <= i < space.zones@.len() && (#[trigger] space.zones@[i]).centroid_distance == m,
{
    let n = space.zones@.len() as int;
    scales_reach_every_distance(space, n);
    let d = space.zones@[j].centroid_distance;
    assert(!d.nan() ==> d.at_most(space.scale_of(n)));
}

proof fn entries_are_found(entries: Seq<ZoneDistance>, zone: ZoneId, k: int)
    requires
        0 <= k < entries.len(),
        entries[k].zone_id == zone,
    ensures
        has_entry(entries, zone),
    decreases k,
{
    if exists|i: int| 0 <= i < k && (#[trigger] entries[i]).zone_id == zone {
        let i = choose|i: int| 0 <= i < k && (#[trigger] entries[i]).zone_id == zone;
        entries_are_found(entries, zone, i);
    } else {
        assert(first_entry(entries, zone, k));
    }
}

proof fn entries_count_up(zones: Seq<Zone>, entries: Seq<ZoneDistance>)
    ensures
        entry_count(zones, entries) <= zones.len(),
        (forall|z: int| 0 <= z < zones.len() ==> has_entry(entries, (#[trigger] zones[z]).id))
            ==> entry_count(zones, entries) == zones.len(),
        (forall|z: int| 0 <= z < zones.len() ==> !has_entry(entries, (#[trigger] zones[z]).id))
            ==> entry_count(zones, entries) == 0,
    decreases zones.len(),
{
    if zones.len() > 0 {
        let t = zones.drop_last();
        entries_count_up(t, entries);
        if forall|z: int| 0 <= z < zones.len() ==> has_entry(entries, (#[trigger] zones[z]).id) {
            assert(has_entry(entries, zones[zones.len() - 1].id));
            assert forall|z: int| 0 <= z < t.len() implies has_entry(
                entries,
                (#[trigger] t[z]).id,
            ) by {
                assert(has_entry(entries, zones[z].id));
            }
        }
        if forall|z: int| 0 <= z < zones.len() ==> !has_entry(entries, (#[trigger] zones[z]).id) {
            assert(!has_entry(entries, zones[zones.len() - 1].id));
            assert forall|z: int| 0 <= z < t.len() implies !has_entry(
                entries,
                (#[trigger] t[z]).id,
            ) by {
                assert(!has_entry(entries, zones[z].id));
            }
        }
    }
}

/// Each bar stands for a zone of the profile and is as long as the tap is far from
/// that zone. A bar is marked as the winner only where the tap was accepted and no
/// other distance is smaller. Where the classifier knows every zone, each has a
/// bar, in the profile's order.
pub proof fn bars_show_their_zones_distance(
    zones: &Vec<Zone>,
    space: &FeatureSpaceView,
    bars: Vec<ZoneBar>,
    k: int,
    j: int,
)
    requires
        call_ensures(draw_feature_space, (zones, space), bars),
        0 <= k < bars@.len(),
        0 <= j < space.zones@.len(),
        forall|a: int, b: int|
            0 <= a < b < space.zones@.len() ==> (#[trigger] space.zones@[a]).zone_id != (
            #[trigger] space.zones@[b]).zone_id,
        space.comparable(),
    ensures
        bars@[k].zone < zones@.len(),
        space.zones@[j].zone_id == zones@[bars@[k].zone as int].id ==> bars@[k].distance
            == space.zones@[j].centroid_distance,
        exists|i: int|
            0 <= i < space.zones@.len() && (#[trigger] space.zones@[i]).zone_id
                == zones@[bars@[k].zone as int].id && bars@[k].distance
                == space.zones@[i].centroid_distance,
        bars@[k].is_winner ==> space.accepted && bars@[k].distance.at_most(
            space.zones@[j].centroid_distance,
        ),
        (forall|z: int|
            0 <= z < zones@.len() ==> exists|i: int|
                0 <= i < space.zones@.len() && (#[trigger] space.zones@[i]).zone_id == (
                #[trigger] zones@[z]).id) ==> bars@.len() == zones@.len(),
{
    let b = bars@[k];
    let winner = choose|winner: Option<ZoneId>| #[trigger]
        space.nearest(winner) && forall|k: int|
            0 <= k < bars@.len() ==> bar_for(zones@, *space, winner, #[trigger] bars@[k]);
    assert(bar_for(zones@, *space, winner, b));
    let id = zones@[b.zone as int].id;
    let i = choose|i: int| #[trigger]
        first_entry(space.zones@, id, i) && b.distance == space.zones@[i].centroid_distance;
    if b.is_winner {
        let d = centroid_distances(space.zones@);
        let w = winner->0;
        let least = choose|i: int| #[trigger] first_least(d, i) && w == space.zones@[i].zone_id;
        assert(least == i) by {
            if least < i {
                assert(space.zones@[least].zone_id != space.zones@[i].zone_id);
            } else if i < least {
                assert(space.zones@[i].zone_id != space.zones@[least].zone_id);
            }
        }
        assert(d[i].total_rank() <= d[j].total_rank());
        assert(space.zones@[i].centroid_distance.finite());
        assert(space.zones@[j].centroid_distance.finite());
    }
    if forall|z: int|
        0 <= z < zones@.len() ==> exists|i: int|
            0 <= i < space.zones@.len() && (#[trigger] space.zones@[i]).zone_id == (
            #[trigger] zones@[z]).id {
        assert forall|z: int| 0 <= z < zones@.len() implies has_entry(
            space.zones@,
            (#[trigger] zones@[z]).id,
        ) by {
            let e = choose|e: int|
                0 <= e < space.zones@.len() && (#[trigger] space.zones@[e]).zone_id == zones@[z].id;
            entries_are_found(space.zones@, zones@[z].id, e);
        }
        entries_count_up(zones@, space.zones@);
    }
}

/// There is something to compare exactly where every distance is a finite number.
pub proof fn comparable_means_finite(space: &FeatureSpaceView, r: bool)
    requires
        call_ensures(FeatureSpaceView::is_comparable, (space,), r),
    ensures
        r <==> space.nearest_example_distance.finite() && forall|i: int|
            0 <= i < space.zones@.len() ==> (#[trigger] space.zones@[i]).centroid_distance.finite(),
{
}

} // verus!
