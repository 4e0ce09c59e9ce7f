//! The calibration wizard: from measuring the room to saving a profile.
//!
//! The wizard moves through its steps by what the user does and what the
//! listener tells. What is not offered in a step does nothing there.

use vstd::prelude::*;

use crate::calibration::{
    assess_environment, built, built_profiles_hold_what_was_given, consistency_checked, counts_fit,
    environment, feedback, fits_any, group_sizes, measures_any, negative_recorded,
    negatives_are_kept_apart, tap_recorded, taps_go_to_the_current_zone, CalibrationError,
    CalibrationSession, ConsistencyReport, EnvironmentQuality, Session, TapFeedback, ZoneMeta,
    DEFAULT_TAPS_PER_ZONE, MIN_SAMPLES_PER_ZONE,
};
use crate::capture_worker::CaptureEvent;
use crate::classifier::{ClassifierError, ClassifierParams, Distances, Fit};
use crate::features::{FeatureVector, FEATURE_WINDOW_SAMPLES};
use crate::ids::{ProfileId, ZoneId};
use crate::profile::{
    capability, classifier_error_text, DeviceFingerprint, Profile, SensingMode, Timestamp,
    ZoneLayout,
};
use crate::single::{Single, ZERO};
use crate::text::{
    blank, chars_of, decimal, decimal_is_injective, decimal_text, is_blank, join, join3, strip,
    strip_ends, text_of, Edge,
};
use crate::ui::motion::{AnimState, DELIBERATE, QUICK};

verus! {

/// The numbers of zones that are offered.
pub const ZONE_COUNTS: [usize; 4] = [2, 4, 6, 8];

/// A number of zones that is offered.
pub open spec fn offered(n: usize) -> bool {
    n == 2 || n == 4 || n == 6 || n == 8
}

/// A step of the wizard.
#[derive(Clone, Copy, Debug, PartialEq, Eq, Structural)]
pub enum Step {
    Environment,
    Layout,
    Capture,
    Consistency,
    Negatives,
    Save,
}

/// The steps in order.
pub const STEP_ORDER: [Step; 6] = [
    Step::Environment,
    Step::Layout,
    Step::Capture,
    Step::Consistency,
    Step::Negatives,
    Step::Save,
];

impl Step {
    /// Position among the steps.
    pub open spec fn place(self) -> int {
        match self {
            Step::Environment => 0,
            Step::Layout => 1,
            Step::Capture => 2,
            Step::Consistency => 3,
            Step::Negatives => 4,
            Step::Save => 5,
        }
    }

    pub fn index(self) -> (i: usize)
        ensures
            i == self.place(),
            i < STEP_ORDER@.len(),
            STEP_ORDER@[i as int] == self,
    {
        match self {
            Step::Environment => 0,
            Step::Layout => 1,
            Step::Capture => 2,
            Step::Consistency => 3,
            Step::Negatives => 4,
            Step::Save => 5,
        }
    }

    pub open spec fn short_text(self) -> Seq<char> {
        match self {
            Step::Environment => "Room"@,
            Step::Layout => "Layout"@,
            Step::Capture => "Capture"@,
            Step::Consistency => "Check"@,
            Step::Negatives => "Ignore"@,
            Step::Save => "Save"@,
        }
    }

    pub fn short_label(self) -> (s: &'static str)
        ensures
            s@ == self.short_text(),
    {
        match self {
            Step::Environment => "Room",
            Step::Layout => "Layout",
            Step::Capture => "Capture",
            Step::Consistency => "Check",
            Step::Negatives => "Ignore",
            Step::Save => "Save",
        }
    }

    pub open spec fn title_text(self) -> Seq<char> {
        match self {
            Step::Environment => "Check your environment"@,
            Step::Layout => "Lay out your zones"@,
            Step::Capture => "Capture each zone"@,
            Step::Consistency => "Consistency check"@,
            Step::Negatives => "Teach it what to ignore"@,
            Step::Save => "Save your profile"@,
        }
    }

    pub fn title(self) -> (s: &'static str)
        ensures
            s@ == self.title_text(),
    {
        match self {
            Step::Environment => "Check your environment",
            Step::Layout => "Lay out your zones",
            Step::Capture => "Capture each zone",
            Step::Consistency => "Consistency check",
            Step::Negatives => "Teach it what to ignore",
            Step::Save => "Save your profile",
        }
    }

    /// What a screen reader says of the step.
    pub fn announcement(self) -> (s: String)
        ensures
            s@ == "Step "@ + decimal((self.place() + 1) as nat) + " of "@ + decimal(6) + ": "@
                + self.title_text(),
    {
        let number = decimal_text(self.index() as u64 + 1);
        let total = decimal_text(6);
        let start = join3("Step ", &number, " of ");
        join3(&join(&start, &total), ": ", self.title())
    }
}

/// How a step looks in the row of steps.
#[derive(Clone, Copy, Debug, PartialEq, Eq, Structural)]
pub enum StepMark {
    Done,
    Current,
    Ahead,
}

/// How step `i` looks while `current` is shown.
pub fn step_mark(i: usize, current: Step) -> (m: StepMark)
    ensures
        m == if i < current.place() {
            StepMark::Done
        } else if i == current.place() {
            StepMark::Current
        } else {
            StepMark::Ahead
        },
{
    let at: usize = current.index();
    if i < at {
        StepMark::Done
    } else if i == at {
        StepMark::Current
    } else {
        StepMark::Ahead
    }
}

/// How one of the marks for taps looks.
#[derive(Clone, Copy, Debug, PartialEq, Eq, Structural)]
pub enum Pip {
    Filled,
    /// The tap that comes next.
    Next,
    Hollow,
}

/// How mark `i` looks after `count` taps.
pub fn pip(i: usize, count: usize) -> (p: Pip)
    ensures
        p == if i < count {
            Pip::Filled
        } else if i == count {
            Pip::Next
        } else {
            Pip::Hollow
        },
{
    if i < count {
        Pip::Filled
    } else if i == count {
        Pip::Next
    } else {
        Pip::Hollow
    }
}

/// The label of zone `i` unless it gets another.
pub open spec fn default_label(i: int) -> Seq<char> {
    "Zone "@ + decimal((i + 1) as nat)
}

fn label_for(i: usize) -> (s: String)
    requires
        i < usize::MAX,
    ensures
        s@ == default_label(i as int),
{
    let number = decimal_text((i + 1) as u64);
    join("Zone ", &number)
}

/// Labels for `n` zones.
pub fn default_labels(n: usize) -> (v: Vec<String>)
    ensures
        v@.len() == n,
        forall|i: int| 0 <= i < n ==> (#[trigger] v@[i])@ == default_label(i),
{
    let empty: Vec<String> = Vec::new();
    resize_labels(empty, n)
}

/// Labels for `n` zones, keeping those that there are.
pub fn resize_labels(labels: Vec<String>, n: usize) -> (v: Vec<String>)
    ensures
        v@.len() == n,
        forall|i: int|
            0 <= i < n ==> (#[trigger] v@[i])@ == if i < labels@.len() {
                labels@[i]@
            } else {
                default_label(i)
            },
{
    let mut v: Vec<String> = labels;
    let existing: usize = v.len();
    v.truncate(n);
    let mut i: usize = existing;
    while i < n
        invariant
            existing == labels@.len(),
            existing <= i,
            v@.len() == if existing < n {
                i
            } else {
                n
            },
            existing < n ==> i <= n,
            forall|k: int|
                0 <= k < v@.len() ==> (#[trigger] v@[k])@ == if k < labels@.len() {
                    labels@[k]@
                } else {
                    default_label(k)
                },
        decreases n - i,
    {
        v.push(label_for(i));
        i += 1;
    }
    v
}

/// A zone's place in the grid on the desk.
#[derive(Clone, Copy, Debug, PartialEq, Eq, Structural)]
pub struct Cell {
    pub column: usize,
    pub row: usize,
}

/// Rows of the grid for `n` zones, two to a row.
pub open spec fn grid_rows(n: int) -> int {
    (n + 1) / 2
}

/// The places of `n` zones and the number of rows: row by row, two to a row.
pub fn auto_cells(n: usize) -> (r: (Vec<Cell>, usize))
    ensures
        r.0@.len() == n,
        forall|i: int|
            0 <= i < n ==> #[trigger] r.0@[i] == (Cell {
                column: (i % 2) as usize,
                row: (i / 2) as usize,
            }),
        r.1 == grid_rows(n as int),
{
    let mut v: Vec<Cell> = Vec::new();
    let mut i: usize = 0;
    while i < n
        invariant
            i <= n,
            v@.len() == i,
            forall|k: int|
                0 <= k < i ==> #[trigger] v@[k] == (Cell {
                    column: (k % 2) as usize,
                    row: (k / 2) as usize,
                }),
        decreases n - i,
    {
        v.push(Cell { column: i % 2, row: i / 2 });
        i += 1;
    }
    (v, n / 2 + n % 2)
}

/// No two zones share a place, and every place lies in the grid.
pub proof fn cells_do_not_overlap(n: int, i: int, j: int)
    requires
        0 <= i < j < n,
    ensures
        i % 2 != j % 2 || i / 2 != j / 2,
        i / 2 < grid_rows(n),
        j / 2 < grid_rows(n),
{
}

/// What the user sees of the room.
pub open spec fn environment_text(q: EnvironmentQuality) -> Seq<char> {
    match q {
        EnvironmentQuality::Quiet => "Quiet — good to go"@,
        EnvironmentQuality::Moderate => "A bit noisy — calibration may be less reliable"@,
        EnvironmentQuality::TooNoisy => "Too loud — quiet the room before continuing"@,
    }
}

pub fn environment_label(q: EnvironmentQuality) -> (s: &'static str)
    ensures
        s@ == environment_text(q),
{
    match q {
        EnvironmentQuality::Quiet => "Quiet — good to go",
        EnvironmentQuality::Moderate => "A bit noisy — calibration may be less reliable",
        EnvironmentQuality::TooNoisy => "Too loud — quiet the room before continuing",
    }
}

/// How the wizard ended.
#[derive(Clone, Debug)]
pub enum WizardOutcome {
    Saved(Profile),
    Cancelled,
}

/// The wizard.
#[derive(Clone, Debug)]
pub struct Wizard {
    pub step: Step,
    pub cancelled: bool,
    pub device_name: Option<String>,
    pub sample_rate: Option<u32>,
    pub capture_error: Option<String>,
    pub level_peak: Single,
    /// The microphone that was picked; `None` for the one the system prefers.
    pub selected_device: Option<String>,
    /// How many levels the room was measured by.
    pub env_rms_count: u64,
    pub noise_floor: Single,
    /// The loudness that stands out of the noise floor.
    pub mask_level: Single,
    pub zone_count: usize,
    pub labels: Vec<String>,
    pub session: Option<CalibrationSession>,
    pub armed: bool,
    pub last_feedback: Option<TapFeedback>,
    pub neg_armed: bool,
    pub neg_count: usize,
    pub consistency: Option<Result<ConsistencyReport, String>>,
    pub profile_name: String,
    pub save_error: Option<String>,
    pub step_anim: AnimState,
    pub pip_count: usize,
    pub pip_fill: Option<(usize, AnimState)>,
    pub visible: bool,
}

/// The first `n` zones have all their taps.
pub open spec fn filled(s: Session, n: int) -> bool {
    forall|z: int| 0 <= z < n ==> (#[trigger] s.samples[z]).len() >= s.taps_per_zone
}

impl Wizard {
    /// Every zone has a label, and from the capture on there is a session for
    /// exactly these zones. During the capture the zones before the current one
    /// have their taps, and after it all zones have.
    pub open spec fn wf(&self) -> bool {
        &&& offered(self.zone_count)
        &&& self.labels@.len() == self.zone_count
        &&& self.step.place() >= Step::Capture.place() ==> self.session is Some
        &&& self.session matches Some(s) ==> s@.wf() && s@.zone_ids.len() == self.zone_count
            && s@.taps_per_zone == DEFAULT_TAPS_PER_ZONE && self.step.place()
            >= Step::Capture.place() && filled(
            s@,
            if self.step == Step::Capture {
                s@.current_zone
            } else {
                self.zone_count as int
            },
        )
    }

    /// The wizard at another step, whose arrival is animated.
    pub open spec fn at(self, step: Step, now: u64) -> Wizard {
        Wizard {
            step,
            step_anim: AnimState { started_at: now, duration: DELIBERATE },
            pip_count: 0,
            pip_fill: None,
            ..self
        }
    }

    /// Begin with the room.
    pub fn new(now: u64) -> (w: Wizard)
        ensures
            w.wf(),
            w.step == Step::Environment,
            !w.cancelled,
            w.device_name is None,
            w.sample_rate is None,
            w.capture_error is None,
            w.level_peak == (Single { bits: ZERO }),
            w.selected_device is None,
            w.env_rms_count == 0,
            w.noise_floor == (Single { bits: ZERO }),
            w.mask_level == (Single { bits: ZERO }),
            w.zone_count == 4,
            forall|i: int| 0 <= i < 4 ==> (#[trigger] w.labels@[i])@ == default_label(i),
            w.session is None,
            !w.armed,
            w.last_feedback is None,
            !w.neg_armed,
            w.neg_count == 0,
            w.consistency is None,
            w.profile_name@ == "My desk"@,
            w.save_error is None,
            w.step_anim == (AnimState { started_at: now, duration: DELIBERATE }),
            w.pip_count == 0,
            w.pip_fill is None,
            w.visible,
    {
        Wizard {
            step: Step::Environment,
            cancelled: false,
            device_name: None,
            sample_rate: None,
            capture_error: None,
            level_peak: Single { bits: ZERO },
            selected_device: None,
            env_rms_count: 0,
            noise_floor: Single { bits: ZERO },
            mask_level: Single { bits: ZERO },
            zone_count: 4,
            labels: default_labels(4),
            session: None,
            armed: false,
            last_feedback: None,
            neg_armed: false,
            neg_count: 0,
            consistency: None,
            profile_name: "My desk".to_owned(),
            save_error: None,
            step_anim: AnimState::start(DELIBERATE, now),
            pip_count: 0,
            pip_fill: None,
            visible: true,
        }
    }

    fn goto(&mut self, step: Step, now: u64)
        ensures
            *final(self) == old(self).at(step, now),
    {
        self.step = step;
        self.step_anim = AnimState::start(DELIBERATE, now);
        self.pip_count = 0;
        self.pip_fill = None;
    }

    pub fn set_visible(&mut self, visible: bool)
        ensures
            *final(self) == (Wizard { visible, ..*old(self) }),
    {
        self.visible = visible;
    }

    pub fn set_save_error(&mut self, msg: String)
        ensures
            *final(self) == (Wizard { save_error: Some(msg), ..*old(self) }),
    {
        self.save_error = Some(msg);
    }

    /// Leave the wizard.
    pub fn cancel(&mut self)
        ensures
            *final(self) == (Wizard { cancelled: true, ..*old(self) }),
    {
        self.cancelled = true;
    }

    /// Take what the listener tells. Says whether a level counts towards the
    /// measure of the room. Taps are recorded while their step is shown and
    /// armed; `loudness` and `extract` measure a window.
    pub fn drain_capture<
        L: Fn(&[Single]) -> Single,
        E: Fn(&[Single]) -> FeatureVector,
    >(&mut self, event: CaptureEvent, loudness: L, extract: E) -> (measured: bool)
        requires
            old(self).wf(),
            old(self).env_rms_count < u64::MAX,
            forall|w: &[Single]| #[trigger] call_requires(loudness, (w,)),
            forall|w: &[Single]|
                w@.len() == FEATURE_WINDOW_SAMPLES ==> #[trigger] call_requires(extract, (w,)),
        ensures
            final(self).wf(),
            measured == (event is Level && old(self).step == Step::Environment),
            told(*old(self), event, loudness, extract, *final(self)),
    {
        match event {
            CaptureEvent::Started { device_name, sample_rate } => {
                self.device_name = Some(device_name);
                self.sample_rate = Some(sample_rate);
                false
            },
            CaptureEvent::Level { peak, .. } => {
                self.level_peak = peak;
                if self.step == Step::Environment {
                    self.env_rms_count = self.env_rms_count + 1;
                    true
                } else {
                    false
                }
            },
            CaptureEvent::Onset { window, is_transient, .. } => {
                if self.step == Step::Capture && self.armed && is_transient {
                    match self.session.take() {
                        Some(mut s) => {
                            let ghost before = s@;
                            let onset_rms: Single = loudness(&window);
                            let judged: TapFeedback = s.record_tap(&window, onset_rms, extract);
                            self.last_feedback = Some(judged);
                            if s.current_zone_complete() {
                                self.armed = false;
                            }
                            proof {
                                assert(exists|w: &[Single], rms: Single|
                                    w@ == window@ && #[trigger] call_ensures(loudness, (w,), rms)
                                        && judged == feedback(
                                        window@,
                                        before.noise_floor,
                                        before.mask_level,
                                        rms,
                                    ));
                            }
                            self.session = Some(s);
                        },
                        None => {},
                    }
                } else if self.step == Step::Negatives && self.neg_armed {
                    match self.session.take() {
                        Some(mut s) => {
                            let kept: bool = s.record_negative(&window, extract);
                            if kept {
                                self.neg_count = s.negatives().len();
                            }
                            self.session = Some(s);
                        },
                        None => {},
                    }
                }
                false
            },
            CaptureEvent::Frame { .. } => false,
            CaptureEvent::Failed(msg) => {
                self.capture_error = Some(msg);
                false
            },
        }
    }

    /// Pick another microphone. Says whether the listener is to be started anew;
    /// then the room is measured from the start. Only offered with the room.
    pub fn choose_device(&mut self, choice: Option<String>) -> (restart: bool)
        requires
            old(self).wf(),
        ensures
            final(self).wf(),
            restart == (old(self).step == Step::Environment && !same_choice(
                choice,
                old(self).selected_device,
            )),
            *final(self) == if restart {
                (Wizard {
                    selected_device: choice,
                    device_name: None,
                    sample_rate: None,
                    level_peak: Single { bits: ZERO },
                    env_rms_count: 0,
                    noise_floor: Single { bits: ZERO },
                    ..*old(self)
                })
            } else {
                *old(self)
            },
    {
        if self.step != Step::Environment {
            return false;
        }
        let same: bool = match (&choice, &self.selected_device) {
            (Some(a), Some(b)) => *a == *b,
            (None, None) => true,
            _ => false,
        };
        if same {
            return false;
        }
        self.selected_device = choice;
        self.device_name = None;
        self.sample_rate = None;
        self.level_peak = Single { bits: ZERO };
        self.env_rms_count = 0;
        self.noise_floor = Single { bits: ZERO };
        true
    }

    /// The noise of the room so far: `mean` of the levels, or nothing before the
    /// first.
    pub fn current_noise_floor(&self, mean: Single) -> (floor: Single)
        ensures
            floor == if self.env_rms_count == 0 {
                Single { bits: ZERO }
            } else {
                mean
            },
    {
        if self.env_rms_count == 0 {
            Single { bits: ZERO }
        } else {
            mean
        }
    }

    /// Whether the room is good enough to go on: it was measured and is not too
    /// noisy.
    pub fn environment_ready(&self, floor: Single) -> (r: bool)
        ensures
            r == (environment(floor) != EnvironmentQuality::TooNoisy && self.env_rms_count > 0),
    {
        assess_environment(floor).passes() && self.env_rms_count > 0
    }

    /// Go on from the room, where it is good enough.
    pub fn environment_step(&mut self, floor: Single, mask_level: Single, now: u64) -> (went: bool)
        requires
            old(self).wf(),
        ensures
            final(self).wf(),
            went == (old(self).step == Step::Environment && environment(floor)
                != EnvironmentQuality::TooNoisy && old(self).env_rms_count > 0),
            *final(self) == if went {
                (Wizard { noise_floor: floor, mask_level, ..*old(self) }).at(Step::Layout, now)
            } else {
                *old(self)
            },
    {
        if self.step != Step::Environment || !self.environment_ready(floor) {
            return false;
        }
        self.noise_floor = floor;
        self.mask_level = mask_level;
        self.goto(Step::Layout, now);
        true
    }

    /// Choose the number of zones; labels that there are stay.
    pub fn set_zone_count(&mut self, n: usize) -> (done: bool)
        requires
            old(self).wf(),
        ensures
            final(self).wf(),
            done == (old(self).step == Step::Layout && offered(n)),
            !done ==> *final(self) == *old(self),
            done ==> *final(self) == (Wizard {
                zone_count: n,
                labels: final(self).labels,
                ..*old(self)
            }) && forall|i: int|
                0 <= i < n ==> (#[trigger] final(self).labels@[i])@ == if i < old(self).labels@.len() {
                    old(self).labels@[i]@
                } else {
                    default_label(i)
                },
    {
        if self.step != Step::Layout || !(n == 2 || n == 4 || n == 6 || n == 8) {
            return false;
        }
        let mut labels: Vec<String> = Vec::new();
        let mut i: usize = 0;
        while i < self.labels.len()
            invariant
                i <= self.labels@.len(),
                labels@.len() == i,
                forall|k: int| 0 <= k < i ==> (#[trigger] labels@[k])@ == self.labels@[k]@,
            decreases self.labels@.len() - i,
        {
            labels.push(self.labels[i].clone());
            i += 1;
        }
        self.zone_count = n;
        self.labels = resize_labels(labels, n);
        true
    }

    /// Name a zone.
    pub fn set_label(&mut self, i: usize, label: String) -> (done: bool)
        requires
            old(self).wf(),
        ensures
            final(self).wf(),
            done == (old(self).step == Step::Layout && i < old(self).labels@.len()),
            *final(self) == (Wizard { labels: final(self).labels, ..*old(self) }),
            final(self).labels@ == if done {
                old(self).labels@.update(i as int, label)
            } else {
                old(self).labels@
            },
    {
        if self.step != Step::Layout || i >= self.labels.len() {
            return false;
        }
        self.labels[i] = label;
        true
    }

    /// Go on from the layout: begin to capture, with these identities for the
    /// zones.
    pub fn layout_step(&mut self, zone_ids: Vec<ZoneId>, now: u64) -> (went: bool)
        requires
            old(self).wf(),
        ensures
            final(self).wf(),
            went == (old(self).step == Step::Layout && zone_ids@.len() == old(self).zone_count),
            !went ==> *final(self) == *old(self),
            went ==> *final(self) == (Wizard {
                session: final(self).session,
                armed: false,
                last_feedback: None,
                ..*old(self)
            }).at(Step::Capture, now) && (final(self).session matches Some(s) && s@ == (Session {
                zone_ids: zone_ids@,
                taps_per_zone: DEFAULT_TAPS_PER_ZONE as nat,
                noise_floor: old(self).noise_floor,
                mask_level: old(self).mask_level,
                samples: Seq::new(zone_ids@.len(), |i: int| Seq::empty()),
                negatives: Seq::empty(),
                current_zone: 0,
            })),
    {
        if self.step != Step::Layout || zone_ids.len() != self.zone_count {
            return false;
        }
        self.session = Some(
            CalibrationSession::new(
                zone_ids,
                DEFAULT_TAPS_PER_ZONE,
                self.noise_floor,
                self.mask_level,
            ),
        );
        self.armed = false;
        self.last_feedback = None;
        self.goto(Step::Capture, now);
        true
    }

    /// Keep the marks for taps in step with the taps: one that was just recorded
    /// fills, one that was taken back empties.
    pub fn sync_pips(&mut self, now: u64)
        requires
            old(self).wf(),
        ensures
            final(self).wf(),
            match old(self).session {
                Some(s) => {
                    let count = s@.samples[s@.current_zone].len();
                    *final(self) == (Wizard {
                        pip_count: count as usize,
                        pip_fill: if count > old(self).pip_count {
                            Some(
                                (
                                    (count - 1) as usize,
                                    AnimState { started_at: now, duration: QUICK },
                                ),
                            )
                        } else if count < old(self).pip_count {
                            None
                        } else {
                            old(self).pip_fill
                        },
                        ..*old(self)
                    })
                },
                None => *final(self) == *old(self),
            },
    {
        let count: usize = match &self.session {
            Some(s) => s.zone_sample_count(s.current_zone()),
            None => return ,
        };
        if count > self.pip_count {
            self.pip_fill = Some((count - 1, AnimState::start(QUICK, now)));
        } else if count < self.pip_count {
            self.pip_fill = None;
        }
        self.pip_count = count;
    }

    /// What the user is asked to tap.
    pub fn capture_prompt(&self) -> (r: Option<String>)
        requires
            self.wf(),
        ensures
            match self.session {
                Some(s) => r matches Some(t) && t@ == "Zone "@ + decimal(
                    (s@.current_zone + 1) as nat,
                ) + " of "@ + decimal(self.zone_count as nat) + ": “"@
                    + self.labels@[s@.current_zone]@ + "”. Tap this exact spot "@ + decimal(
                    DEFAULT_TAPS_PER_ZONE as nat,
                ) + " times."@,
                None => r is None,
            },
    {
        let (zone, target): (usize, usize) = match &self.session {
            Some(s) => (s.current_zone(), s.taps_per_zone()),
            None => return None,
        };
        let number = decimal_text(zone as u64 + 1);
        let total = decimal_text(self.zone_count as u64);
        let taps = decimal_text(target as u64);
        let start = join3("Zone ", &number, " of ");
        let named = join3(&join(&start, &total), ": “", &self.labels[zone]);
        Some(join3(&join(&named, "”. Tap this exact spot "), &taps, " times."))
    }

    /// Arm or disarm the current zone; a complete one cannot be armed.
    pub fn toggle_armed(&mut self) -> (done: bool)
        requires
            old(self).wf(),
        ensures
            final(self).wf(),
            done == (old(self).step == Step::Capture && (old(self).session matches Some(s)
                && !s@.complete())),
            *final(self) == (Wizard { armed: old(self).armed != done, ..*old(self) }),
    {
        let complete: bool = match &self.session {
            Some(s) => s.current_zone_complete(),
            None => true,
        };
        if self.step != Step::Capture || complete {
            return false;
        }
        self.armed = !self.armed;
        true
    }

    /// Take the last tap back.
    pub fn undo_last(&mut self) -> (done: bool)
        requires
            old(self).wf(),
        ensures
            final(self).wf(),
            done == (old(self).step == Step::Capture),
            !done ==> *final(self) == *old(self),
            done ==> *final(self) == (Wizard {
                session: final(self).session,
                last_feedback: None,
                ..*old(self)
            }) && (old(self).session matches Some(s) && final(self).session matches Some(t) && t@
                == if s@.samples[s@.current_zone].len() > 0 {
                s@.without_last()
            } else {
                s@
            }),
    {
        if self.step != Step::Capture {
            return false;
        }
        match self.session.take() {
            Some(mut s) => {
                s.undo_last();
                self.session = Some(s);
                self.last_feedback = None;
            },
            None => {},
        }
        true
    }

    /// Capture the current zone anew.
    pub fn redo_zone(&mut self) -> (done: bool)
        requires
            old(self).wf(),
        ensures
            final(self).wf(),
            done == (old(self).step == Step::Capture),
            !done ==> *final(self) == *old(self),
            done ==> *final(self) == (Wizard {
                session: final(self).session,
                armed: false,
                last_feedback: None,
                ..*old(self)
            }) && (old(self).session matches Some(s) && final(self).session matches Some(t) && t@
                == s@.restarted(s@.current_zone)),
    {
        if self.step != Step::Capture {
            return false;
        }
        match self.session.take() {
            Some(mut s) => {
                s.redo_current_zone();
                self.session = Some(s);
                self.armed = false;
                self.last_feedback = None;
            },
            None => {},
        }
        true
    }

    /// Go on to the next zone, once the current one is complete.
    pub fn next_zone(&mut self) -> (done: bool)
        requires
            old(self).wf(),
        ensures
            final(self).wf(),
            done == (old(self).step == Step::Capture && (old(self).session matches Some(s)
                && s@.complete() && s@.current_zone + 1 < s@.zone_ids.len())),
            !done ==> *final(self) == *old(self),
            done ==> *final(self) == (Wizard {
                session: final(self).session,
                armed: false,
                last_feedback: None,
                ..*old(self)
            }) && (old(self).session matches Some(s) && final(self).session matches Some(t) && t@
                == (Session { current_zone: s@.current_zone + 1, ..s@ })),
    {
        let ready: bool = match &self.session {
            Some(s) => s.current_zone_complete() && self.zone_count - s.current_zone() > 1,
            None => false,
        };
        if self.step != Step::Capture || !ready {
            return false;
        }
        match self.session.take() {
            Some(mut s) => {
                s.advance_zone();
                self.session = Some(s);
                self.armed = false;
                self.last_feedback = None;
            },
            None => {},
        }
        true
    }

    /// Check the zones against each other, once the last one is complete.
    pub fn capture_step<
        F: Fn(&[(ZoneId, FeatureVector)], &[FeatureVector]) -> Fit,
        D: Fn(&ClassifierParams, &FeatureVector) -> Distances,
    >(&mut self, fit: F, measure: D, now: u64) -> (went: bool)
        requires
            old(self).wf(),
            fits_any(fit),
            measures_any(measure),
        ensures
            final(self).wf(),
            went == (old(self).step == Step::Capture && (old(self).session matches Some(s)
                && s@.complete() && s@.current_zone + 1 == s@.zone_ids.len())),
            !went ==> *final(self) == *old(self),
            went ==> *final(self) == (Wizard {
                armed: false,
                consistency: final(self).consistency,
                ..*old(self)
            }).at(Step::Consistency, now) && (old(self).session matches Some(s) && final(self).consistency matches Some(outcome) && exists|r: Result<
                ConsistencyReport,
                CalibrationError,
            >| #[trigger]
                consistency_checked(fit, measure, s@.zone_ids, s@.samples, r) && match r {
                    Ok(report) => outcome == Ok::<ConsistencyReport, String>(report),
                    Err(e) => outcome matches Err(t) && t@ == e.text(),
                }),
    {
        let ready: bool = match &self.session {
            Some(s) => s.current_zone_complete() && self.zone_count - s.current_zone() == 1,
            None => false,
        };
        if self.step != Step::Capture || !ready {
            return false;
        }
        let outcome: Result<ConsistencyReport, String> = match &self.session {
            Some(s) => {
                let r = s.consistency(fit, measure);
                proof {
                    assert(consistency_checked(fit, measure, s@.zone_ids, s@.samples, r));
                }
                match r {
                    Ok(report) => Ok(report),
                    Err(e) => Err(e.describe()),
                }
            },
            None => return false,
        };
        self.armed = false;
        self.consistency = Some(outcome);
        self.goto(Step::Consistency, now);
        true
    }

    /// From the check: capture one zone anew.
    pub fn redo_flagged(&mut self, zone: usize, now: u64) -> (went: bool)
        requires
            old(self).wf(),
        ensures
            final(self).wf(),
            went == (old(self).step == Step::Consistency && (old(self).consistency matches Some(
                Ok(_),
            ))),
            !went ==> *final(self) == *old(self),
            went ==> *final(self) == (Wizard {
                session: final(self).session,
                armed: false,
                last_feedback: None,
                ..*old(self)
            }).at(Step::Capture, now) && (old(self).session matches Some(s) && final(self).session matches Some(t) && t@ == if zone < s@.zone_ids.len() {
                s@.restarted(zone as int)
            } else {
                s@
            }),
    {
        let checked: bool = match &self.consistency {
            Some(Ok(_)) => true,
            _ => false,
        };
        if self.step != Step::Consistency || !checked {
            return false;
        }
        match self.session.take() {
            Some(mut s) => {
                s.restart_zone(zone);
                self.session = Some(s);
            },
            None => {},
        }
        self.armed = false;
        self.last_feedback = None;
        self.goto(Step::Capture, now);
        true
    }

    /// From the check: go on, whatever it says, where it has a report; go back to
    /// the capture where it failed.
    pub fn consistency_step(&mut self, now: u64) -> (went: bool)
        requires
            old(self).wf(),
        ensures
            final(self).wf(),
            went == (old(self).step == Step::Consistency && old(self).consistency is Some),
            *final(self) == match old(self).consistency {
                Some(Ok(_)) if went => old(self).at(Step::Negatives, now),
                Some(Err(_)) if went => old(self).at(Step::Capture, now),
                _ => *old(self),
            },
    {
        if self.step != Step::Consistency {
            return false;
        }
        let next: Step = match &self.consistency {
            Some(Ok(_)) => Step::Negatives,
            Some(Err(_)) => Step::Capture,
            None => return false,
        };
        self.goto(next, now);
        true
    }

    /// Arm or disarm the capture of what is no tap.
    pub fn toggle_negatives(&mut self) -> (done: bool)
        requires
            old(self).wf(),
        ensures
            final(self).wf(),
            done == (old(self).step == Step::Negatives),
            *final(self) == (Wizard { neg_armed: old(self).neg_armed != done, ..*old(self) }),
    {
        if self.step != Step::Negatives {
            return false;
        }
        self.neg_armed = !self.neg_armed;
        true
    }

    /// Go on to saving.
    pub fn negatives_step(&mut self, now: u64) -> (went: bool)
        requires
            old(self).wf(),
        ensures
            final(self).wf(),
            went == (old(self).step == Step::Negatives),
            *final(self) == if went {
                (Wizard { neg_armed: false, ..*old(self) }).at(Step::Save, now)
            } else {
                *old(self)
            },
    {
        if self.step != Step::Negatives {
            return false;
        }
        self.neg_armed = false;
        self.goto(Step::Save, now);
        true
    }

    /// Whether the profile can be saved: it has a name, and there is a session.
    pub fn can_save(&self) -> (r: bool)
        ensures
            r == (!blank(self.profile_name@) && self.session is Some),
    {
        !is_blank(&self.profile_name) && self.session.is_some()
    }

    /// Build the profile and end, where it can be saved; a failure is shown.
    pub fn save_step<F: Fn(&[(ZoneId, FeatureVector)], &[FeatureVector]) -> Fit>(
        &mut self,
        layouts: &[ZoneLayout],
        id: ProfileId,
        created_at: Timestamp,
        fit: F,
    ) -> (r: Option<WizardOutcome>)
        requires
            old(self).wf(),
            fits_any(fit),
        ensures
            final(self).wf(),
            if old(self).step == Step::Save && !blank(old(self).profile_name@) {
                exists|b: Result<Profile, String>| #[trigger]
                    profile_built(*old(self), layouts@, id, created_at, fit, b) && match b {
                        Ok(p) => r == Some(WizardOutcome::Saved(p)) && *final(self) == *old(self),
                        Err(e) => r is None && *final(self) == (Wizard {
                            save_error: Some(e),
                            ..*old(self)
                        }),
                    }
            } else {
                r is None && *final(self) == *old(self)
            },
    {
        if self.step != Step::Save || !self.can_save() {
            return None;
        }
        let b = self.build(layouts, id, created_at, fit);
        proof {
            assert(profile_built(*self, layouts@, id, created_at, fit, b));
        }
        match b {
            Ok(p) => Some(WizardOutcome::Saved(p)),
            Err(e) => {
                self.save_error = Some(e);
                None
            },
        }
    }

    /// Build the profile from what was captured: the trimmed name, the labels
    /// with their places, and the microphone.
    pub fn build<F: Fn(&[(ZoneId, FeatureVector)], &[FeatureVector]) -> Fit>(
        &self,
        layouts: &[ZoneLayout],
        id: ProfileId,
        created_at: Timestamp,
        fit: F,
    ) -> (r: Result<Profile, String>)
        requires
            self.wf(),
            fits_any(fit),
        ensures
            profile_built(*self, layouts@, id, created_at, fit, r),
    {
        let session = match &self.session {
            Some(s) => s,
            None => return Err("no calibration session".to_owned()),
        };
        let mut meta: Vec<ZoneMeta> = Vec::new();
        let mut i: usize = 0;
        while i < self.labels.len() && i < layouts.len()
            invariant
                i <= self.labels@.len(),
                i <= layouts@.len(),
                meta@.len() == i,
                forall|k: int|
                    0 <= k < i ==> (#[trigger] meta@[k]).label@ == self.labels@[k]@
                        && meta@[k].layout == layouts@[k],
            decreases self.labels@.len() - i,
        {
            meta.push(ZoneMeta { label: self.labels[i].clone(), layout: layouts[i] });
            i += 1;
        }
        let device: String = match &self.device_name {
            Some(name) => name.clone(),
            None => "unknown".to_owned(),
        };
        let rate: u32 = match self.sample_rate {
            Some(r) => r,
            None => 0,
        };
        let fingerprint = DeviceFingerprint::from_device(device, rate);
        let name = text_of(&strip_ends(&chars_of(&self.profile_name), Edge::WhiteSpace));
        let r = session.build_profile(
            id,
            name,
            fingerprint,
            SensingMode::Passive,
            &meta,
            created_at,
            fit,
        );
        proof {
            assert(meta_of(*self, layouts@, meta@));
            assert(fingerprint_of(*self, fingerprint));
            assert(name@ == strip(self.profile_name@, Edge::WhiteSpace));
            assert(built(
                id,
                name,
                fingerprint,
                SensingMode::Passive,
                session@.zone_ids,
                meta@,
                session@.samples,
                session@.negatives,
                created_at,
                fit,
                r,
            ));
        }
        match r {
            Ok(p) => Ok(p),
            Err(e) => Err(e.describe()),
        }
    }

    /// After how many milliseconds the screen is to be drawn again, if at all:
    /// sooner for an animation that runs, and while the microphone is shown; not
    /// while hidden.
    pub fn repaint_after(&self, now: u64) -> (r: Option<u64>)
        ensures
            r == if !self.visible {
                None
            } else if self.step == Step::Environment || self.step == Step::Capture || self.step
                == Step::Negatives {
                Some(33u64)
            } else if !self.step_anim.over(now) || (self.pip_fill matches Some((_, a)) && !a.over(
                now,
            )) {
                Some(16u64)
            } else {
                None
            },
    {
        if !self.visible {
            return None;
        }
        if self.step == Step::Environment || self.step == Step::Capture || self.step
            == Step::Negatives {
            return Some(33);
        }
        let pip_live: bool = match &self.pip_fill {
            Some((_, a)) => !a.is_complete(now),
            None => false,
        };
        if !self.step_anim.is_complete(now) || pip_live {
            Some(16)
        } else {
            None
        }
    }
}

/// The same microphone is meant.
pub open spec fn same_choice(a: Option<String>, b: Option<String>) -> bool {
    match (a, b) {
        (Some(x), Some(y)) => x@ == y@,
        (None, None) => true,
        _ => false,
    }
}

/// The zones' labels, each with its place; as many as there are of both.
pub open spec fn meta_of(w: Wizard, layouts: Seq<ZoneLayout>, meta: Seq<ZoneMeta>) -> bool {
    &&& meta.len() == if w.labels@.len() < layouts.len() {
        w.labels@.len()
    } else {
        layouts.len()
    }
    &&& forall|k: int|
        0 <= k < meta.len() ==> (#[trigger] meta[k]).label@ == w.labels@[k]@ && meta[k].layout
            == layouts[k]
}

/// The microphone that was heard; an unknown one where none was.
pub open spec fn fingerprint_of(w: Wizard, f: DeviceFingerprint) -> bool {
    &&& f.device_name@ == match w.device_name {
        Some(n) => n@,
        None => "unknown"@,
    }
    &&& f.capability_hash@ == capability(
        match w.sample_rate {
            Some(r) => r,
            None => 0,
        },
    )
}

/// `r` is an outcome of building the wizard's profile.
pub open spec fn profile_built<F: Fn(&[(ZoneId, FeatureVector)], &[FeatureVector]) -> Fit>(
    w: Wizard,
    layouts: Seq<ZoneLayout>,
    id: ProfileId,
    created_at: Timestamp,
    fit: F,
    r: Result<Profile, String>,
) -> bool {
    match w.session {
        None => r matches Err(e) && e@ == "no calibration session"@,
        Some(s) => exists|
            meta: Seq<ZoneMeta>,
            name: String,
            fingerprint: DeviceFingerprint,
            b: Result<Profile, CalibrationError>,
        |
            {
                &&& #[trigger] meta_of(w, layouts, meta)
                &&& name@ == strip(w.profile_name@, Edge::WhiteSpace)
                &&& #[trigger] fingerprint_of(w, fingerprint)
                &&& #[trigger] built(
                    id,
                    name,
                    fingerprint,
                    SensingMode::Passive,
                    s@.zone_ids,
                    meta,
                    s@.samples,
                    s@.negatives,
                    created_at,
                    fit,
                    b,
                )
                &&& match b {
                    Ok(p) => r == Ok::<Profile, String>(p),
                    Err(e) => r matches Err(t) && t@ == e.text(),
                }
            },
    }
}

/// What an event of the listener does to the wizard.
pub open spec fn told<L: Fn(&[Single]) -> Single, E: Fn(&[Single]) -> FeatureVector>(
    before: Wizard,
    event: CaptureEvent,
    loudness: L,
    extract: E,
    after: Wizard,
) -> bool {
    match event {
        CaptureEvent::Started { device_name, sample_rate } => after == (Wizard {
            device_name: Some(device_name),
            sample_rate: Some(sample_rate),
            ..before
        }),
        CaptureEvent::Level { peak, .. } => after == (Wizard {
            level_peak: peak,
            env_rms_count: if before.step == Step::Environment {
                (before.env_rms_count + 1) as u64
            } else {
                before.env_rms_count
            },
            ..before
        }),
        CaptureEvent::Onset { window, is_transient, .. } => if before.step == Step::Capture
            && before.armed && is_transient {
            before.session matches Some(s) && after.session matches Some(t) && exists|
                w: &[Single],
                rms: Single,
            |
                w@ == window@ && #[trigger] call_ensures(loudness, (w,), rms) && {
                    let judged = feedback(window@, s@.noise_floor, s@.mask_level, rms);
                    &&& tap_recorded(extract, s@, window@, judged, t@)
                    &&& after == (Wizard {
                        session: after.session,
                        last_feedback: Some(judged),
                        armed: !t@.complete(),
                        ..before
                    })
                }
        } else if before.step == Step::Negatives && before.neg_armed {
            before.session matches Some(s) && after.session matches Some(t) && exists|kept: bool|
                #[trigger] negative_recorded(extract, s@, window@, kept, t@) && after == (Wizard {
                    session: after.session,
                    neg_count: if kept {
                        t@.negatives.len() as usize
                    } else {
                        before.neg_count
                    },
                    ..before
                })
        } else {
            after == before
        },
        CaptureEvent::Frame { .. } => after == before,
        CaptureEvent::Failed(msg) => after == (Wizard { capture_error: Some(msg), ..before }),
    }
}

/// Once the capture is done, there is enough of everything: the check can fail,
/// and so can building the profile, only where no classifier can be trained.
pub proof fn captured_zones_suffice<
    F: Fn(&[(ZoneId, FeatureVector)], &[FeatureVector]) -> Fit,
    D: Fn(&ClassifierParams, &FeatureVector) -> Distances,
>(
    w: Wizard,
    layouts: Seq<ZoneLayout>,
    id: ProfileId,
    created_at: Timestamp,
    fit: F,
    measure: D,
    checked: Result<ConsistencyReport, CalibrationError>,
    profile: Result<Profile, String>,
)
    requires
        w.wf(),
        w.step.place() > Step::Capture.place(),
        layouts.len() == w.zone_count,
        consistency_checked(fit, measure, w.session->0@.zone_ids, w.session->0@.samples, checked),
        profile_built(w, layouts, id, created_at, fit, profile),
    ensures
        checked matches Err(e) ==> e is Training,
        profile matches Err(t) ==> exists|e: ClassifierError|
            t@ == "could not train classifier: "@ + #[trigger] classifier_error_text(e),
{
    let s = w.session->0@;
    let sizes = group_sizes(s.samples);
    assert forall|z: int| 0 <= z < sizes.len() implies #[trigger] sizes[z]
        >= MIN_SAMPLES_PER_ZONE by {
        assert(s.samples[z].len() >= s.taps_per_zone);
    }
    assert(counts_fit(s.zone_ids.len(), sizes));
}

/// What the listener tells never moves the wizard to another step nor touches the
/// layout. A level counts towards the room's measure only while the room is
/// measured. Taps are recorded only during an armed capture, for the current zone
/// alone, and end it once the zone has its taps; what is no tap is recorded only
/// in its own step, and never among the zones' samples.
pub proof fn events_stay_in_their_step<
    L: Fn(&[Single]) -> Single,
    E: Fn(&[Single]) -> FeatureVector,
>(before: Wizard, event: CaptureEvent, loudness: L, extract: E, after: Wizard, other: int)
    requires
        before.wf(),
        before.env_rms_count < u64::MAX,
        told(before, event, loudness, extract, after),
        before.session matches Some(s) ==> 0 <= other < s@.zone_ids.len() && other
            != s@.current_zone,
    ensures
        after.step == before.step && after.cancelled == before.cancelled && after.labels
            == before.labels && after.zone_count == before.zone_count,
        after.profile_name == before.profile_name && after.noise_floor == before.noise_floor
            && after.mask_level == before.mask_level && after.selected_device
            == before.selected_device && after.consistency == before.consistency,
        after.env_rms_count == before.env_rms_count + if event is Level
            && before.step is Environment {
            1int
        } else {
            0
        },
        event matches CaptureEvent::Level { peak, .. } ==> after.level_peak == peak,
        !(event is Level) ==> after.level_peak == before.level_peak,
        event matches CaptureEvent::Failed(msg) ==> after.capture_error == Some(msg),
        !(event is Failed) ==> after.capture_error == before.capture_error,
        event matches CaptureEvent::Started { device_name, sample_rate } ==> after.device_name
            == Some(device_name) && after.sample_rate == Some(sample_rate),
        !(event is Started) ==> after.device_name == before.device_name && after.sample_rate
            == before.sample_rate,
        !(event is Onset) ==> after.session == before.session && after.armed == before.armed
            && after.last_feedback == before.last_feedback && after.neg_count == before.neg_count,
        event matches CaptureEvent::Onset { window, is_transient, .. } ==> {
            let tap = before.step is Capture && before.armed && is_transient;
            let noise = before.step is Negatives && before.neg_armed;
            &&& !tap && !noise ==> after == before
            &&& tap || noise ==> (before.session matches Some(s) && after.session matches Some(t) && {
                &&& t@.zone_ids == s@.zone_ids && t@.current_zone == s@.current_zone
                    && t@.taps_per_zone == s@.taps_per_zone
                &&& t@.samples[other] == s@.samples[other]
                &&& tap ==> t@.negatives == s@.negatives && (after.armed
                    <==> t@.samples[t@.current_zone].len() < 10) && after.last_feedback is Some
                    && after.neg_count == before.neg_count
                &&& tap && !(after.last_feedback == Some(TapFeedback::Accepted))
                    ==> t@ == s@
                &&& tap && after.last_feedback == Some(TapFeedback::Accepted) && window@.len()
                    == 4096 && s@.samples[s@.current_zone].len() < 10
                    ==> t@.samples[s@.current_zone].len() == s@.samples[s@.current_zone].len() + 1
                &&& noise ==> t@.samples == s@.samples && after.armed == before.armed
                    && after.last_feedback == before.last_feedback && t@.negatives.len()
                    <= s@.negatives.len() + 1
                &&& noise && t@.negatives != s@.negatives ==> after.neg_count
                    == t@.negatives.len() as usize
            })
        },
{
    match event {
        CaptureEvent::Onset { window, is_transient, .. } => {
            if before.step is Capture && before.armed && is_transient {
                let s = before.session->0;
                let t = after.session->0;
                let (w, rms) = choose|w: &[Single], rms: Single|
                    w@ == window@ && #[trigger] call_ensures(loudness, (w,), rms) && {
                        let judged = feedback(window@, s@.noise_floor, s@.mask_level, rms);
                        &&& tap_recorded(extract, s@, window@, judged, t@)
                        &&& after == (Wizard {
                            session: after.session,
                            last_feedback: Some(judged),
                            armed: !t@.complete(),
                            ..before
                        })
                    };
                let judged = feedback(window@, s@.noise_floor, s@.mask_level, rms);
                taps_go_to_the_current_zone(extract, s@, window@, judged, t@, other);
            } else if before.step is Negatives && before.neg_armed {
                let s = before.session->0;
                let t = after.session->0;
                let kept = choose|kept: bool|
                    #[trigger] negative_recorded(extract, s@, window@, kept, t@) && after == (
                    Wizard {
                        session: after.session,
                        neg_count: if kept {
                            t@.negatives.len() as usize
                        } else {
                            before.neg_count
                        },
                        ..before
                    });
                negatives_are_kept_apart(extract, s@, window@, kept, t@);
            }
        },
        _ => {},
    }
}

/// Going to a step starts its animation, clears the marks for taps, and changes
/// nothing else.
pub proof fn steps_keep_what_was_done(w: Wizard, step: Step, now: u64)
    ensures
        w.at(step, now).step == step,
        w.at(step, now).step_anim.started_at == now,
        w.at(step, now).step_anim.duration == 400_000_000,
        w.at(step, now).pip_count == 0 && w.at(step, now).pip_fill is None,
        w.at(step, now).session == w.session && w.at(step, now).labels == w.labels,
        w.at(step, now).zone_count == w.zone_count && w.at(step, now).noise_floor == w.noise_floor,
        w.at(step, now).mask_level == w.mask_level && w.at(step, now).consistency == w.consistency,
        w.at(step, now).profile_name == w.profile_name && w.at(step, now).armed == w.armed,
        w.at(step, now).device_name == w.device_name && w.at(step, now).sample_rate
            == w.sample_rate,
        w.at(step, now).env_rms_count == w.env_rms_count && w.at(step, now).neg_count
            == w.neg_count,
        w.at(step, now).neg_armed == w.neg_armed && w.at(step, now).save_error == w.save_error,
        w.at(step, now).cancelled == w.cancelled && w.at(step, now).last_feedback
            == w.last_feedback,
        w.at(step, now).capture_error == w.capture_error && w.at(step, now).visible == w.visible,
{
}

/// An even number of zones is offered, from two to eight, and no other.
pub proof fn even_numbers_of_zones_are_offered(n: usize)
    ensures
        offered(n) <==> 2 <= n <= 8 && n % 2 == 0,
{
}

/// Past the capture every zone has its ten samples.
pub proof fn captured_zones_are_full(w: Wizard, zone: int)
    requires
        w.wf(),
        w.step is Consistency || w.step is Negatives || w.step is Save,
        0 <= zone < w.zone_count,
    ensures
        w.session matches Some(s) && s@.samples[zone].len() == 10,
{
    let s = w.session->0@;
    assert(s.samples[zone].len() >= s.taps_per_zone);
}

/// The wizard's profile has the name that was typed, without white space around
/// it, the labels and places of the layout, the samples that were captured, and
/// the microphone that was heard.
pub proof fn profiles_hold_what_was_captured<
    F: Fn(&[(ZoneId, FeatureVector)], &[FeatureVector]) -> Fit,
>(
    w: Wizard,
    layouts: Seq<ZoneLayout>,
    id: ProfileId,
    created_at: Timestamp,
    fit: F,
    p: Profile,
    z: int,
)
    requires
        w.wf(),
        w.step is Save,
        profile_built(w, layouts, id, created_at, fit, Ok(p)),
        0 <= z < w.zone_count,
    ensures
        p.id == id && p.created_at == created_at && p.updated_at == created_at,
        p.sensing_mode is Passive,
        p.name@ == strip(w.profile_name@, Edge::WhiteSpace),
        layouts.len() >= w.zone_count,
        p.zones@.len() == w.zone_count,
        p.zones@[z].id == w.session->0@.zone_ids[z],
        p.zones@[z].label@ == w.labels@[z]@,
        p.zones@[z].layout == layouts[z],
        p.zones@[z].calibration_sample_count == 10,
        p.zones@[z].actions@.len() == 0,
        p.negative_examples_trained <==> w.session->0@.negatives.len() > 0,
        w.device_name matches Some(n) ==> p.device_fingerprint.device_name@ == n@,
        w.device_name is None ==> p.device_fingerprint.device_name@ == "unknown"@,
        w.sample_rate matches Some(rate) ==> p.device_fingerprint.capability_hash@ == "sr"@
            + decimal(rate as nat),
{
    let s = w.session->0;
    let (meta, name, fingerprint, b) = choose|
        meta: Seq<ZoneMeta>,
        name: String,
        fingerprint: DeviceFingerprint,
        b: Result<Profile, CalibrationError>,
    |
        {
            &&& #[trigger] meta_of(w, layouts, meta)
            &&& name@ == strip(w.profile_name@, Edge::WhiteSpace)
            &&& #[trigger] fingerprint_of(w, fingerprint)
            &&& #[trigger] built(
                id,
                name,
                fingerprint,
                SensingMode::Passive,
                s@.zone_ids,
                meta,
                s@.samples,
                s@.negatives,
                created_at,
                fit,
                b,
            )
            &&& match b {
                Ok(q) => Ok::<Profile, String>(p) == Ok::<Profile, String>(q),
                Err(e) => Ok::<Profile, String>(p) matches Err(t) && t@ == e.text(),
            }
        };
    captured_zones_are_full(w, z);
    built_profiles_hold_what_was_given(
        id,
        name,
        fingerprint,
        SensingMode::Passive,
        s@.zone_ids,
        meta,
        s@.samples,
        s@.negatives,
        created_at,
        fit,
        p,
        z,
    );
    assert(meta[z].label@ == w.labels@[z]@);
}

/// Two zones to a row: the rows hold all zones, and none of them is empty.
pub proof fn rows_hold_two_zones(n: int)
    requires
        n >= 0,
    ensures
        2 * grid_rows(n) >= n,
        n > 0 ==> 2 * (grid_rows(n) - 1) < n,
{
}

/// Zones that were not named can be told apart.
pub proof fn default_labels_differ(i: int, j: int)
    requires
        0 <= i,
        0 <= j,
        default_label(i) == default_label(j),
    ensures
        i == j,
{
    let p = "Zone "@;
    let a = decimal((i + 1) as nat);
    let b = decimal((j + 1) as nat);
    assert(a =~= (p + a).skip(p.len() as int));
    assert(b =~= (p + b).skip(p.len() as int));
    decimal_is_injective((i + 1) as nat, (j + 1) as nat);
}

/// Picking the microphone that is picked already is no change; one by another name,
/// or the system's own in place of a named one, is.
pub proof fn choices_are_compared_by_name(a: Option<String>, b: Option<String>)
    ensures
        same_choice(a, b) <==> same_choice(b, a),
        same_choice(a, a),
        a is Some && b is Some ==> (same_choice(a, b) <==> a->0@ == b->0@),
        a is None ==> (same_choice(a, b) <==> b is None),
{
}

} // verus!
