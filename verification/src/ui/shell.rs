//! The window around the screens: who has the microphone, what commands from
//! outside do, and what each frame begins and ends with.

use vstd::prelude::*;

use crate::app_state::{AppState, ImportEntry, ListeningState, ProfileSummary, Screen};
use crate::calibration::measures_any;
use crate::capture_worker::CaptureEvent;
use crate::classifier::{
    accepted_means_a_zone, classified, located, Classification, ClassifierParams, Distances,
    FeatureSpaceView,
};
use crate::features::{FeatureVector, FEATURE_WINDOW_SAMPLES};
use crate::ids::{ProfileId, ZoneId};
use crate::platform::{chain_ran, dispatch_chain, failure, ActionError, PlatformActions};
use crate::profile::{DeviceFingerprint, Profile, Theme, Zone};
use crate::single::{first_least, first_least_is_unique, Single, ZERO};
use crate::text::{decimal, decimal_text, join, join3};
use crate::tray::TrayCommand;
use crate::ui::action_editor::{chain_edited, ActionEditor, Op};
use crate::ui::diagnostics::{centroid_distances, DiagnosticsScreen};
use crate::ui::evaluation::EvaluationScreen;
use crate::ui::motion::{AnimState, INSTANT, QUICK, STANDARD};
use crate::ui::theme::{palette, tokens_for, Tokens};
use crate::ui::wizard::{Wizard, WizardOutcome};
use crate::value::views;

verus! {

/// The themes that are offered.
pub const THEME_CHOICES: [Theme; 5] = [
    Theme::System,
    Theme::Daylight,
    Theme::Midnight,
    Theme::Aurora,
    Theme::HighContrast,
];

/// The name of a theme.
pub open spec fn theme_text(theme: Theme) -> Seq<char> {
    match theme {
        Theme::System => "System"@,
        Theme::Daylight => "Daylight"@,
        Theme::Midnight => "Midnight"@,
        Theme::Aurora => "Aurora"@,
        Theme::HighContrast => "High contrast"@,
    }
}

pub fn theme_name(theme: Theme) -> (s: &'static str)
    ensures
        s@ == theme_text(theme),
{
    match theme {
        Theme::System => "System",
        Theme::Daylight => "Daylight",
        Theme::Midnight => "Midnight",
        Theme::Aurora => "Aurora",
        Theme::HighContrast => "High contrast",
    }
}

/// What is heard while listening.
#[derive(Clone, Debug)]
pub struct LiveStatus {
    pub device: Option<String>,
    pub sample_rate: Option<u32>,
    pub rms: Single,
    pub peak: Single,
    /// A peak that decays slowly.
    pub peak_hold: Single,
    pub taps: u32,
    pub rejects: u32,
    pub error: Option<String>,
}

impl LiveStatus {
    /// Nothing heard yet.
    pub open spec fn fresh() -> LiveStatus {
        LiveStatus {
            device: None,
            sample_rate: None,
            rms: Single { bits: ZERO },
            peak: Single { bits: ZERO },
            peak_hold: Single { bits: ZERO },
            taps: 0,
            rejects: 0,
            error: None,
        }
    }

    pub fn new() -> (l: LiveStatus)
        ensures
            l == LiveStatus::fresh(),
    {
        LiveStatus {
            device: None,
            sample_rate: None,
            rms: Single { bits: ZERO },
            peak: Single { bits: ZERO },
            peak_hold: Single { bits: ZERO },
            taps: 0,
            rejects: 0,
            error: None,
        }
    }
}

/// The pulse of a zone that was tapped.
#[derive(Clone, Copy, Debug, PartialEq, Eq, Structural)]
pub struct ZonePulse {
    pub zone: ZoneId,
    pub anim: AnimState,
    pub accepted: bool,
}

/// The pulses without those of a zone.
pub open spec fn other_pulses(s: Seq<ZonePulse>, zone: ZoneId) -> Seq<ZonePulse>
    decreases s.len(),
{
    if s.len() == 0 {
        Seq::empty()
    } else if s.last().zone == zone {
        other_pulses(s.drop_last(), zone)
    } else {
        other_pulses(s.drop_last(), zone).push(s.last())
    }
}

/// The pulses that are not over.
pub open spec fn running_pulses(s: Seq<ZonePulse>, now: u64) -> Seq<ZonePulse>
    decreases s.len(),
{
    if s.len() == 0 {
        Seq::empty()
    } else if s.last().anim.over(now) {
        running_pulses(s.drop_last(), now)
    } else {
        running_pulses(s.drop_last(), now).push(s.last())
    }
}

/// The pulses with that of a zone replaced.
pub open spec fn with_pulse(s: Seq<ZonePulse>, p: ZonePulse) -> Seq<ZonePulse> {
    other_pulses(s, p.zone).push(p)
}

fn keep_others(v: &Vec<ZonePulse>, zone: ZoneId) -> (out: Vec<ZonePulse>)
    ensures
        out@ == other_pulses(v@, zone),
{
    let mut out: Vec<ZonePulse> = Vec::new();
    let mut i: usize = 0;
    while i < v.len()
        invariant
            i <= v@.len(),
            out@ == other_pulses(v@.take(i as int), zone),
        decreases v@.len() - i,
    {
        proof {
            assert(v@.take(i + 1).drop_last() =~= v@.take(i as int));
        }
        if v[i].zone != zone {
            out.push(v[i]);
        }
        i += 1;
    }
    proof {
        assert(v@.take(i as int) =~= v@);
    }
    out
}

fn add_pulse(v: &mut Vec<ZonePulse>, p: ZonePulse)
    ensures
        final(v)@ == with_pulse(old(v)@, p),
{
    let mut pulses: Vec<ZonePulse> = keep_others(v, p.zone);
    pulses.push(p);
    *v = pulses;
}

fn keep_running(v: &Vec<ZonePulse>, now: u64) -> (out: Vec<ZonePulse>)
    ensures
        out@ == running_pulses(v@, now),
{
    let mut out: Vec<ZonePulse> = Vec::new();
    let mut i: usize = 0;
    while i < v.len()
        invariant
            i <= v@.len(),
            out@ == running_pulses(v@.take(i as int), now),
        decreases v@.len() - i,
    {
        proof {
            assert(v@.take(i + 1).drop_last() =~= v@.take(i as int));
        }
        if !v[i].anim.is_complete(now) {
            out.push(v[i]);
        }
        i += 1;
    }
    proof {
        assert(v@.take(i as int) =~= v@);
    }
    out
}

/// After a new pulse, a zone has exactly one.
pub proof fn one_pulse_per_zone(s: Seq<ZonePulse>, p: ZonePulse)
    ensures
        with_pulse(s, p).last() == p,
        forall|i: int|
            0 <= i < with_pulse(s, p).len() - 1 ==> (#[trigger] with_pulse(s, p)[i]).zone != p.zone,
{
    others_are_others(s, p.zone);
    let t = other_pulses(s, p.zone);
    assert forall|i: int| 0 <= i < with_pulse(s, p).len() - 1 implies (#[trigger] with_pulse(
        s,
        p,
    )[i]).zone != p.zone by {
        assert(with_pulse(s, p)[i] == t[i]);
    }
}

proof fn others_are_others(s: Seq<ZonePulse>, zone: ZoneId)
    ensures
        forall|i: int|
            0 <= i < other_pulses(s, zone).len() ==> (#[trigger] other_pulses(s, zone)[i]).zone
                != zone,
    decreases s.len(),
{
    if s.len() > 0 {
        others_are_others(s.drop_last(), zone);
        let t = other_pulses(s.drop_last(), zone);
        assert forall|i: int| 0 <= i < other_pulses(s, zone).len() implies (
        #[trigger] other_pulses(s, zone)[i]).zone != zone by {
            if i < t.len() {
                assert(other_pulses(s, zone)[i] == t[i]);
            }
        }
    }
}

/// What is to happen to the listener.
#[derive(Clone, Copy, Debug, PartialEq, Eq, Structural)]
pub enum CaptureStep {
    Keep,
    Start,
    Stop,
}

/// What is to happen to the window.
#[derive(Clone, Copy, Debug, PartialEq, Eq, Structural)]
pub enum WindowCommand {
    Show,
    Focus,
    Close,
    CancelClose,
    Hide,
}

/// What a frame begins with.
#[derive(Clone, Copy, Debug, PartialEq, Eq, Structural)]
pub struct FramePlan {
    /// The wizard takes the whole window.
    pub wizard: bool,
    /// The window can be seen.
    pub showing: bool,
    pub capture: CaptureStep,
    /// The diagnostics are to open the microphone.
    pub start_diagnostics: bool,
}

/// What a frame ends with.
#[derive(Clone, Copy, Debug, PartialEq, Eq, Structural)]
pub struct EndPlan {
    /// A pulse runs: draw again soon.
    pub repaint_soon: bool,
    pub wizard_opened: bool,
    pub run_started: bool,
}

/// How far one theme has faded into another.
#[derive(Clone, Copy, Debug, PartialEq, Eq, Structural)]
pub enum ThemeFade {
    Settled(Tokens),
    Fading { from: Tokens, to: Tokens, elapsed: u64 },
}

/// What came of something on the profiles screen.
#[derive(Debug)]
pub enum ProfileEvent {
    /// The file that was written, or why none was.
    Exported(Result<String, String>),
    Duplicated(Result<(), String>),
    Renamed(Result<(), String>),
    Imported(Result<(), String>),
    AskDelete,
    CancelDelete,
    Deleted(Result<(), String>),
    Switched(Result<(), String>),
    /// Changes to a zone's actions were saved, or why they were not.
    Saved(Result<(), String>),
}

/// The application around its screens.
#[derive(Clone, Debug)]
pub struct Shell {
    pub state: AppState,
    pub has_tray: bool,
    pub has_hotkeys: bool,
    /// Whether the home screen has the microphone.
    pub capturing: bool,
    pub live: LiveStatus,
    pub wizard: Option<Wizard>,
    pub launch_wizard: bool,
    pub action_editor: ActionEditor,
    pub selected_zone: Option<ZoneId>,
    pub evaluation: EvaluationScreen,
    pub diagnostics: DiagnosticsScreen,
    pub save_error: Option<String>,
    pub force_quit: bool,
    pub window_visible: bool,
    pub profiles: Vec<ProfileSummary>,
    pub importable: Vec<ImportEntry>,
    pub io_message: Option<String>,
    pub duplicate_name: String,
    pub confirm_delete: bool,
    pub last_screen: Screen,
    pub screen_fade_start: Option<u64>,
    pub zone_pulses: Vec<ZonePulse>,
}

/// Listening gives way; paused and error stay.
pub open spec fn yielded(l: ListeningState) -> ListeningState {
    if l == ListeningState::Listening {
        ListeningState::Paused
    } else {
        l
    }
}

impl Shell {
    /// The screens are in order, and an active profile can be classified with.
    pub open spec fn wf(&self) -> bool {
        &&& self.wizard matches Some(w) ==> w.wf()
        &&& self.evaluation.wf()
        &&& self.diagnostics.wf()
        &&& self.state.active_profile matches Some(p) ==> p.classifier@.well_formed()
    }

    /// The state with another listening state.
    pub open spec fn listens(self, listening: ListeningState) -> AppState {
        AppState { listening, ..self.state }
    }

    /// A fresh start. The very first launch opens the wizard.
    pub fn new(
        state: AppState,
        first_launch: bool,
        has_tray: bool,
        has_hotkeys: bool,
        profiles: Vec<ProfileSummary>,
        importable: Vec<ImportEntry>,
    ) -> (s: Shell)
        requires
            state.active_profile matches Some(p) ==> p.classifier@.well_formed(),
        ensures
            s.wf(),
            s.state == state,
            s.has_tray == has_tray,
            s.has_hotkeys == has_hotkeys,
            !s.capturing,
            s.live == LiveStatus::fresh(),
            s.wizard is None,
            s.launch_wizard == first_launch,
            s.action_editor.last_test is None,
            s.selected_zone is None,
            call_ensures(EvaluationScreen::new, (), s.evaluation),
            s.diagnostics.idle(),
            s.save_error is None,
            !s.force_quit,
            s.window_visible,
            s.profiles == profiles,
            s.importable == importable,
            s.io_message is None,
            s.duplicate_name@.len() == 0,
            !s.confirm_delete,
            s.last_screen == Screen::Home,
            s.screen_fade_start is None,
            s.zone_pulses@.len() == 0,
    {
        Shell {
            state,
            has_tray,
            has_hotkeys,
            capturing: false,
            live: LiveStatus::new(),
            wizard: None,
            launch_wizard: first_launch,
            action_editor: ActionEditor::new(),
            selected_zone: None,
            evaluation: EvaluationScreen::new(),
            diagnostics: DiagnosticsScreen::new(),
            save_error: None,
            force_quit: false,
            window_visible: true,
            profiles,
            importable,
            io_message: None,
            duplicate_name: String::new(),
            confirm_delete: false,
            last_screen: Screen::Home,
            screen_fade_start: None,
            zone_pulses: Vec::new(),
        }
    }

    /// Bring the listener in line with the state: it runs exactly while
    /// listening.
    pub open spec fn reconciled(self) -> (Shell, CaptureStep) {
        if self.state.listening == ListeningState::Listening && !self.capturing {
            (Shell { live: LiveStatus::fresh(), capturing: true, ..self }, CaptureStep::Start)
        } else if self.state.listening != ListeningState::Listening && self.capturing {
            (Shell { capturing: false, ..self }, CaptureStep::Stop)
        } else {
            (self, CaptureStep::Keep)
        }
    }

    pub fn reconcile_capture(&mut self) -> (step: CaptureStep)
        ensures
            (*final(self), step) == old(self).reconciled(),
            final(self).capturing == (final(self).state.listening == ListeningState::Listening),
    {
        let listening: bool = self.state.listening == ListeningState::Listening;
        if listening && !self.capturing {
            self.live = LiveStatus::new();
            self.capturing = true;
            return CaptureStep::Start;
        }
        if !listening && self.capturing {
            self.capturing = false;
            return CaptureStep::Stop;
        }
        CaptureStep::Keep
    }

    /// Take what the listener of the home screen tells. `held` is the held peak
    /// after its decay. On the home screen a tap makes the nearest zone pulse,
    /// longer where it was accepted. The answer is the zone whose actions are to
    /// run, by its position in the active profile.
    pub fn on_capture<
        E: Fn(&[Single]) -> FeatureVector,
        D: Fn(&ClassifierParams, &FeatureVector) -> Distances,
    >(
        &mut self,
        event: CaptureEvent,
        held: Single,
        extract: E,
        measure: D,
        now: u64,
    ) -> (fire: Option<usize>)
        requires
            old(self).wf(),
            old(self).live.taps < u32::MAX,
            old(self).live.rejects < u32::MAX,
            forall|w: &[Single]|
                w@.len() == FEATURE_WINDOW_SAMPLES ==> #[trigger] call_requires(extract, (w,)),
            measures_any(measure),
        ensures
            final(self).wf(),
            told(*old(self), event, held, extract, measure, now, fire, *final(self)),
    {
        match event {
            CaptureEvent::Started { device_name, sample_rate } => {
                self.live.device = Some(device_name);
                self.live.sample_rate = Some(sample_rate);
                None
            },
            CaptureEvent::Level { rms, peak } => {
                self.live.rms = rms;
                self.live.peak = peak;
                self.live.peak_hold = held.max(peak);
                None
            },
            CaptureEvent::Onset { window, is_transient, .. } => {
                if !is_transient {
                    self.live.rejects = self.live.rejects + 1;
                    return None;
                }
                self.on_tap(&window, extract, measure, now)
            },
            CaptureEvent::Frame { .. } => None,
            CaptureEvent::Failed(msg) => {
                self.live.error = Some(msg);
                self.state.listening = ListeningState::Error;
                self.capturing = false;
                None
            },
        }
    }

    fn on_tap<
        E: Fn(&[Single]) -> FeatureVector,
        D: Fn(&ClassifierParams, &FeatureVector) -> Distances,
    >(&mut self, window: &[Single], extract: E, measure: D, now: u64) -> (fire: Option<usize>)
        requires
            old(self).wf(),
            old(self).live.taps < u32::MAX,
            window@.len() == FEATURE_WINDOW_SAMPLES ==> call_requires(extract, (window,)),
            measures_any(measure),
        ensures
            final(self).wf(),
            tapped(*old(self), window@, extract, measure, now, fire, *final(self)),
    {
        let (pulse, fire): (Option<ZonePulse>, Option<usize>) = match &self.state.active_profile {
            Some(p) => if window.len() == FEATURE_WINDOW_SAMPLES {
                let (pulse, c) = judge_tap(p, window, extract, measure, now);
                let fire: Option<usize> = zone_to_run(p, &self.live, &c);
                proof {
                    assert(judged(*p, window@, extract, measure, now, pulse, c));
                    assert(runs(*p, self.live, c, fire));
                }
                (pulse, fire)
            } else {
                (None, None)
            },
            None => (None, None),
        };
        self.live.taps = self.live.taps + 1;
        if self.state.screen == Screen::Home {
            match pulse {
                Some(p) => add_pulse(&mut self.zone_pulses, p),
                None => {},
            }
        }
        fire
    }

    /// Run the actions of the zone that a tap fires, by its position in the
    /// active profile: its whole chain in order, up to the first that fails.
    /// Without a zone nothing is called.
    pub fn run_tap<P: PlatformActions>(&self, fire: Option<usize>, platform: &mut P) -> (r: Result<
        (),
        (usize, ActionError),
    >)
        ensures
            match (self.state.active_profile, fire) {
                (Some(p), Some(i)) if i < p.zones@.len() => chain_ran(
                    views(p.zones@[i as int].actions@),
                    old(platform).log(),
                    failure(r),
                    final(platform).log(),
                ),
                _ => r is Ok && *final(platform) == *old(platform),
            },
    {
        match (&self.state.active_profile, fire) {
            (Some(p), Some(i)) => {
                if i < p.zones.len() {
                    dispatch_chain(&p.zones[i].actions, platform)
                } else {
                    Ok(())
                }
            },
            _ => Ok(()),
        }
    }

    /// Whether the listener's levels can be seen: on the home screen of a window
    /// that shows.
    pub fn capture_visible(&self, showing: bool) -> (r: bool)
        ensures
            r == (showing && self.state.screen == Screen::Home),
    {
        showing && self.state.screen == Screen::Home
    }

    /// The shell after a command of the tray, and what becomes of the window.
    pub open spec fn commanded(self, cmd: TrayCommand) -> (Shell, Seq<WindowCommand>) {
        match cmd {
            TrayCommand::ToggleListening => (
                Shell { state: self.listens(self.state.listening.toggled()), ..self },
                Seq::empty(),
            ),
            TrayCommand::OpenWindow => (
                Shell { window_visible: true, ..self },
                seq![WindowCommand::Show, WindowCommand::Focus],
            ),
            TrayCommand::Quit => (
                Shell { force_quit: true, ..self },
                seq![WindowCommand::Close],
            ),
        }
    }

    /// The shell after several commands.
    pub open spec fn all_commanded(self, cmds: Seq<TrayCommand>) -> (Shell, Seq<WindowCommand>)
        decreases cmds.len(),
    {
        if cmds.len() == 0 {
            (self, Seq::empty())
        } else {
            let (before, told) = self.all_commanded(cmds.drop_last());
            let (after, more) = before.commanded(cmds.last());
            (after, told + more)
        }
    }

    /// The shell after everything from outside: the key, then the tray, then the
    /// wish to close. Closing hides the window where that is wished and there is
    /// a tray to bring it back from, unless the tray asked to quit.
    pub open spec fn outside(
        self,
        toggled: bool,
        cmds: Seq<TrayCommand>,
        close_requested: bool,
    ) -> (Shell, Seq<WindowCommand>) {
        let keyed = if self.has_hotkeys && toggled {
            Shell { state: self.listens(self.state.listening.toggled()), ..self }
        } else {
            self
        };
        let (polled, told) = keyed.all_commanded(
            if self.has_tray {
                cmds
            } else {
                Seq::empty()
            },
        );
        if close_requested && polled.state.config.minimize_to_tray_on_close && polled.has_tray
            && !polled.force_quit {
            (
                Shell { window_visible: false, ..polled },
                told + seq![WindowCommand::CancelClose, WindowCommand::Hide],
            )
        } else {
            (polled, told)
        }
    }

    /// Take everything from outside the window.
    pub fn handle_external_events(
        &mut self,
        toggled: bool,
        cmds: &[TrayCommand],
        close_requested: bool,
    ) -> (out: Vec<WindowCommand>)
        ensures
            (*final(self), out@) == old(self).outside(toggled, cmds@, close_requested),
    {
        let mut out: Vec<WindowCommand> = Vec::new();
        if self.has_hotkeys && toggled {
            self.state.toggle_listening();
        }
        let ghost keyed = *self;
        let ghost mut seen: Seq<TrayCommand> = Seq::empty();
        if self.has_tray {
            let mut i: usize = 0;
            proof {
                assert(out@ =~= Seq::<WindowCommand>::empty());
            }
            while i < cmds.len()
                invariant
                    i <= cmds@.len(),
                    seen == cmds@.take(i as int),
                    (*self, out@) == keyed.all_commanded(seen),
                decreases cmds@.len() - i,
            {
                let ghost before = out@;
                match cmds[i] {
                    TrayCommand::ToggleListening => {
                        self.state.toggle_listening();
                        proof {
                            assert(out@ =~= before + Seq::<WindowCommand>::empty());
                        }
                    },
                    TrayCommand::OpenWindow => {
                        out.push(WindowCommand::Show);
                        out.push(WindowCommand::Focus);
                        self.window_visible = true;
                        proof {
                            assert(out@ =~= before + seq![
                                WindowCommand::Show,
                                WindowCommand::Focus,
                            ]);
                        }
                    },
                    TrayCommand::Quit => {
                        self.force_quit = true;
                        out.push(WindowCommand::Close);
                        proof {
                            assert(out@ =~= before + seq![WindowCommand::Close]);
                        }
                    },
                }
                i += 1;
                proof {
                    seen = cmds@.take(i as int);
                    assert(seen.drop_last() =~= cmds@.take(i - 1));
                    assert(seen.last() == cmds@[i - 1]);
                }
            }
            proof {
                assert(seen =~= cmds@);
            }
        }
        if close_requested && self.state.config.minimize_to_tray_on_close && self.has_tray
            && !self.force_quit {
            let ghost before = out@;
            out.push(WindowCommand::CancelClose);
            out.push(WindowCommand::Hide);
            self.window_visible = false;
            proof {
                assert(out@ =~= before + seq![WindowCommand::CancelClose, WindowCommand::Hide]);
            }
        }
        out
    }

    /// The home screen gives the microphone to another.
    fn yield_microphone(&mut self)
        ensures
            *final(self) == taken(*old(self)),
    {
        if self.state.listening == ListeningState::Listening {
            self.state.listening = ListeningState::Paused;
        }
        self.capturing = false;
    }

    /// Begin a frame: settle who has the microphone. The wizard has it before
    /// all others; an evaluation run and the diagnostics have it before the home
    /// screen; and a screen that cannot be seen gives it back.
    pub fn update(&mut self, system_dark: bool, minimized: bool) -> (plan: FramePlan)
        requires
            old(self).wf(),
        ensures
            final(self).wf(),
            begun(*old(self), system_dark, minimized, plan, *final(self)),
    {
        self.state.system_dark = system_dark;
        let showing: bool = self.window_visible && !minimized;
        if self.wizard.is_some() {
            let capture: CaptureStep = self.stop_step();
            self.yield_microphone();
            show_wizard(&mut self.wizard, showing);
            return FramePlan { wizard: true, showing, capture, start_diagnostics: false };
        }
        self.settle_screens(showing)
    }

    fn stop_step(&self) -> (step: CaptureStep)
        ensures
            step == stop_for(*self),
    {
        if self.capturing {
            CaptureStep::Stop
        } else {
            CaptureStep::Keep
        }
    }

    fn settle_screens(&mut self, showing: bool) -> (plan: FramePlan)
        requires
            old(self).wf(),
        ensures
            final(self).wf(),
            settled(*old(self), showing, plan, *final(self)),
    {
        if !showing || self.state.screen != Screen::Evaluation {
            self.evaluation.stop_run();
        }
        if !showing || self.state.screen != Screen::Diagnostics {
            self.diagnostics.stop();
        }
        let diagnostics_open: bool = showing && self.state.screen == Screen::Diagnostics;
        if self.evaluation.is_running() || diagnostics_open {
            let capture: CaptureStep = self.stop_step();
            self.yield_microphone();
            let start: bool = diagnostics_open && self.diagnostics.needs_start();
            if start {
                self.diagnostics.start();
            }
            FramePlan { wizard: false, showing, capture, start_diagnostics: start }
        } else {
            let capture: CaptureStep = self.reconcile_capture();
            FramePlan { wizard: false, showing, capture, start_diagnostics: false }
        }
    }

    /// How far the change of screens has faded in, as nanoseconds of its
    /// duration; `None` once it is over.
    pub fn screen_fade(&mut self, now: u64) -> (r: Option<u64>)
        ensures
            screen_faded(*old(self), now, r, *final(self)),
    {
        if self.state.screen != self.last_screen {
            self.last_screen = self.state.screen;
            self.screen_fade_start = Some(now);
        }
        match self.screen_fade_start {
            Some(started_at) => {
                let elapsed: u64 = if now >= started_at {
                    now - started_at
                } else {
                    0
                };
                if elapsed >= STANDARD {
                    self.screen_fade_start = None;
                    None
                } else {
                    Some(elapsed)
                }
            },
            None => None,
        }
    }

    /// The colours of this frame: those of the theme, or how far one theme has
    /// faded into another. A fade that is over is forgotten.
    pub fn effective_tokens(&mut self, now: u64) -> (fade: ThemeFade)
        ensures
            theme_faded(*old(self), now, fade, *final(self)),
    {
        let dark: bool = self.state.system_dark;
        match self.state.theme_transition {
            None => ThemeFade::Settled(tokens_for(self.state.config.theme, dark)),
            Some(t) => {
                let elapsed: u64 = if now >= t.started_at {
                    now - t.started_at
                } else {
                    0
                };
                if elapsed >= STANDARD {
                    self.state.theme_transition = None;
                    return ThemeFade::Settled(tokens_for(t.to, dark));
                }
                ThemeFade::Fading {
                    from: tokens_for(t.from, dark),
                    to: tokens_for(t.to, dark),
                    elapsed,
                }
            },
        }
    }

    /// End a frame: forget pulses that are over, open the wizard where it was
    /// asked for, and begin an evaluation of the active profile where that was.
    /// Both take the microphone.
    pub fn end_frame(&mut self, now: u64) -> (plan: EndPlan)
        requires
            old(self).wf(),
        ensures
            final(self).wf(),
            ended(*old(self), now, plan, *final(self)),
    {
        self.zone_pulses = keep_running(&self.zone_pulses, now);
        let repaint_soon: bool = self.zone_pulses.len() > 0;
        let wizard_opened: bool = self.launch_wizard;
        if self.launch_wizard {
            self.launch_wizard = false;
            self.state.listening = ListeningState::Paused;
            self.capturing = false;
            self.wizard = Some(Wizard::new(now));
        }
        let mut run_started: bool = false;
        match self.evaluation.take_pending_start() {
            Some(taps) => {
                self.yield_microphone();
                match &self.state.active_profile {
                    Some(p) => {
                        self.evaluation.begin_run(p, taps);
                        run_started = true;
                    },
                    None => {},
                }
            },
            None => {},
        }
        EndPlan { repaint_soon, wizard_opened, run_started }
    }

    /// Take the end of the wizard, and what came of saving its profile. A
    /// failure to save leaves the wizard open and says so there.
    pub fn wizard_ended(&mut self, outcome: &WizardOutcome, saved: Result<(), String>) -> (refresh:
        bool)
        requires
            old(self).wf(),
        ensures
            final(self).wf(),
            refresh == (outcome is Saved && saved is Ok),
            match *outcome {
                WizardOutcome::Cancelled => *final(self) == (Shell { wizard: None, ..*old(self) }),
                WizardOutcome::Saved(p) => match saved {
                    Ok(_) => *final(self) == (Shell {
                        state: AppState { screen: Screen::Home, ..old(self).state },
                        wizard: None,
                        ..*old(self)
                    }),
                    Err(e) => *final(self) == (Shell {
                        wizard: final(self).wizard,
                        ..*old(self)
                    }) && save_error_noted(old(self).wizard, p.name@, e@, final(self).wizard),
                },
            },
    {
        match outcome {
            WizardOutcome::Cancelled => {
                self.wizard = None;
                false
            },
            WizardOutcome::Saved(p) => match saved {
                Ok(()) => {
                    self.state.screen = Screen::Home;
                    self.wizard = None;
                    true
                },
                Err(e) => {
                    note_save_error(&mut self.wizard, &p.name, &e);
                    false
                },
            },
        }
    }

    /// Take the lists of profiles. A question about deleting is off the table.
    pub fn refresh_profiles(&mut self, profiles: Vec<ProfileSummary>, importable: Vec<ImportEntry>)
        ensures
            *final(self) == (Shell {
                profiles,
                importable,
                confirm_delete: false,
                ..*old(self)
            }),
    {
        self.profiles = profiles;
        self.importable = importable;
        self.confirm_delete = false;
    }

    /// The profile to delete, once the user confirms: the active one, and only
    /// after the question was asked. The question is then off the table.
    pub fn confirm_delete(&mut self) -> (r: Option<ProfileId>)
        ensures
            r == match old(self).state.active_profile {
                Some(p) if old(self).confirm_delete => Some(p.id),
                _ => None,
            },
            *final(self) == (Shell { confirm_delete: false, ..*old(self) }),
    {
        let asked: bool = self.confirm_delete;
        self.confirm_delete = false;
        match &self.state.active_profile {
            Some(p) => if asked {
                Some(p.id)
            } else {
                None
            },
            None => None,
        }
    }

    /// Take what came of something on the profiles screen. Says whether the
    /// lists of profiles are to be read again.
    pub fn profile_io(&mut self, event: ProfileEvent) -> (refresh: bool)
        requires
            old(self).wf(),
        ensures
            final(self).wf(),
            profile_event_done(*old(self), event, refresh, *final(self)),
    {
        match event {
            ProfileEvent::Exported(Ok(path)) => {
                self.io_message = Some(join("Exported to ", &path));
                self.save_error = None;
                true
            },
            ProfileEvent::Exported(Err(e)) => {
                self.io_message = None;
                self.save_error = Some(join("Could not export profile: ", &e));
                false
            },
            ProfileEvent::Duplicated(Ok(())) => {
                self.duplicate_name = String::new();
                self.selected_zone = None;
                self.io_message = Some(
                    "Duplicated — rebind this copy's zones to the new context.".to_owned(),
                );
                self.save_error = None;
                true
            },
            ProfileEvent::Duplicated(Err(e)) => {
                self.io_message = None;
                self.save_error = Some(join("Could not duplicate profile: ", &e));
                false
            },
            ProfileEvent::Renamed(Ok(())) => {
                self.duplicate_name = String::new();
                self.io_message = Some("Profile renamed.".to_owned());
                self.save_error = None;
                true
            },
            ProfileEvent::Renamed(Err(e)) => {
                self.io_message = None;
                self.save_error = Some(join("Could not rename profile: ", &e));
                false
            },
            ProfileEvent::Imported(Ok(())) => {
                self.selected_zone = None;
                self.io_message = Some("Imported a copy as a new profile.".to_owned());
                self.save_error = None;
                true
            },
            ProfileEvent::Imported(Err(e)) => {
                self.io_message = None;
                self.save_error = Some(join("Could not import profile: ", &e));
                false
            },
            ProfileEvent::AskDelete => {
                self.confirm_delete = self.state.active_profile.is_some();
                false
            },
            ProfileEvent::CancelDelete => {
                self.confirm_delete = false;
                false
            },
            ProfileEvent::Deleted(Ok(())) => {
                self.selected_zone = None;
                self.io_message = Some("Profile deleted.".to_owned());
                self.save_error = None;
                true
            },
            ProfileEvent::Deleted(Err(e)) => {
                self.save_error = Some(join("Could not delete profile: ", &e));
                false
            },
            ProfileEvent::Switched(Ok(())) => {
                self.selected_zone = None;
                true
            },
            ProfileEvent::Switched(Err(e)) => {
                self.save_error = Some(join("Could not switch profile: ", &e));
                false
            },
            ProfileEvent::Saved(Ok(())) => {
                self.save_error = None;
                false
            },
            ProfileEvent::Saved(Err(e)) => {
                self.save_error = Some(join("Could not save your changes: ", &e));
                false
            },
        }
    }

    /// Keep the selected zone one of the profile's: the first, where it is not.
    pub fn zones(&mut self)
        ensures
            *final(self) == (Shell { selected_zone: final(self).selected_zone, ..*old(self) }),
            match old(self).state.active_profile {
                Some(p) => final(self).selected_zone == if selection_holds(
                    p.zones@,
                    old(self).selected_zone,
                ) {
                    old(self).selected_zone
                } else if p.zones@.len() > 0 {
                    Some(p.zones@[0].id)
                } else {
                    None
                },
                None => final(self).selected_zone == old(self).selected_zone,
            },
    {
        let next: Option<ZoneId> = match &self.state.active_profile {
            Some(p) => {
                let held: bool = match self.selected_zone {
                    Some(z) => zone_index(&p.zones, z).is_some(),
                    None => false,
                };
                if held {
                    self.selected_zone
                } else if p.zones.len() > 0 {
                    Some(p.zones[0].id)
                } else {
                    None
                }
            },
            None => self.selected_zone,
        };
        self.selected_zone = next;
    }

    /// Change the actions of the selected zone. Says whether the profile is to
    /// be saved.
    pub fn edit_zone(&mut self, op: Op) -> (changed: bool)
        requires
            old(self).wf(),
        ensures
            final(self).wf(),
            zone_edited(*old(self), op, changed, *final(self)),
    {
        let zone: ZoneId = match self.selected_zone {
            Some(z) => z,
            None => return false,
        };
        match self.state.active_profile.take() {
            Some(mut p) => {
                let changed: bool = edit_profile(&mut self.action_editor, &mut p, zone, op);
                self.state.active_profile = Some(p);
                changed
            },
            None => false,
        }
    }
}

/// The wizard says that its profile could not be saved; nothing else changes.
pub open spec fn save_error_noted(
    before: Option<Wizard>,
    name: Seq<char>,
    e: Seq<char>,
    after: Option<Wizard>,
) -> bool {
    match before {
        Some(w) => after matches Some(v) && says(
            v.save_error,
            "Could not save “"@ + name + "”: "@ + e,
        ) && v == (Wizard { save_error: v.save_error, ..w }),
        None => after is None,
    }
}

fn note_save_error(wizard: &mut Option<Wizard>, name: &String, e: &String)
    requires
        *old(wizard) matches Some(w) ==> w.wf(),
    ensures
        *final(wizard) matches Some(w) ==> w.wf(),
        save_error_noted(*old(wizard), name@, e@, *final(wizard)),
{
    match wizard.take() {
        Some(mut w) => {
            let start = join3("Could not save “", name, "”: ");
            w.set_save_error(join(&start, e));
            *wizard = Some(w);
        },
        None => {},
    }
}

fn show_wizard(wizard: &mut Option<Wizard>, visible: bool)
    requires
        *old(wizard) matches Some(w) ==> w.wf(),
    ensures
        *final(wizard) matches Some(w) ==> w.wf(),
        *final(wizard) == match *old(wizard) {
            Some(w) => Some((Wizard { visible, ..w })),
            None => None,
        },
{
    match wizard.take() {
        Some(mut w) => {
            w.set_visible(visible);
            *wizard = Some(w);
        },
        None => {},
    }
}

fn edit_profile(editor: &mut ActionEditor, p: &mut Profile, zone: ZoneId, op: Op) -> (changed: bool)
    ensures
        profile_edited(*old(p), zone, op, changed, *final(p)),
        final(editor).last_test == if changed {
            None
        } else {
            old(editor).last_test
        },
{
    let ghost before = *p;
    match zone_index(&p.zones, zone) {
        Some(i) => {
            let changed: bool = editor.apply(&mut p.zones[i].actions, op);
            proof {
                assert(first_zone(before.zones@, zone, i as int));
                assert(p.zones@ =~= before.zones@.update(i as int, p.zones@[i as int]));
            }
            changed
        },
        None => false,
    }
}

/// What a change to a zone's actions does to the profile: only these actions
/// change.
pub open spec fn profile_edited(
    before: Profile,
    zone: ZoneId,
    op: Op,
    changed: bool,
    after: Profile,
) -> bool {
    if exists|i: int| first_zone(before.zones@, zone, i) {
        exists|i: int| #[trigger]
            first_zone(before.zones@, zone, i) && {
                &&& after.zones@ == before.zones@.update(i, after.zones@[i])
                &&& after == (Profile { zones: after.zones, ..before })
                &&& after.zones@[i] == (Zone {
                    actions: after.zones@[i].actions,
                    ..before.zones@[i]
                })
                &&& (views(after.zones@[i].actions@), changed) == chain_edited(
                    views(before.zones@[i].actions@),
                    op,
                )
            }
    } else {
        !changed && after == before
    }
}

/// How long ago something began.
pub open spec fn time_since(start: u64, now: u64) -> int {
    (AnimState { started_at: start, duration: STANDARD }).elapsed(now)
}

/// What a look at the change of screens gives and leaves.
pub open spec fn screen_faded(before: Shell, now: u64, r: Option<u64>, after: Shell) -> bool {
    let started = if before.state.screen != before.last_screen {
        Some(now)
    } else {
        before.screen_fade_start
    };
    let settled = Shell { last_screen: before.state.screen, ..before };
    match started {
        Some(t) if time_since(t, now) < STANDARD => r == Some(time_since(t, now) as u64) && after
            == (Shell { screen_fade_start: started, ..settled }),
        _ => r is None && after == (Shell { screen_fade_start: None, ..settled }),
    }
}

/// What a look at the change of themes gives and leaves.
pub open spec fn theme_faded(before: Shell, now: u64, fade: ThemeFade, after: Shell) -> bool {
    let dark = before.state.system_dark;
    match before.state.theme_transition {
        None => fade == ThemeFade::Settled(palette(before.state.config.theme, dark)) && after
            == before,
        Some(t) => if time_since(t.started_at, now) >= STANDARD {
            fade == ThemeFade::Settled(palette(t.to, dark)) && after == (Shell {
                state: AppState { theme_transition: None, ..before.state },
                ..before
            })
        } else {
            fade == (ThemeFade::Fading {
                from: palette(t.from, dark),
                to: palette(t.to, dark),
                elapsed: time_since(t.started_at, now) as u64,
            }) && after == before
        },
    }
}

/// `i` is the first zone with this identity.
pub open spec fn first_zone(zones: Seq<Zone>, zone: ZoneId, i: int) -> bool {
    &&& 0 <= i < zones.len()
    &&& zones[i].id == zone
    &&& forall|j: int| 0 <= j < i ==> (#[trigger] zones[j]).id != zone
}

/// The selected zone is one of these.
pub open spec fn selection_holds(zones: Seq<Zone>, selected: Option<ZoneId>) -> bool {
    selected matches Some(z) && exists|i: int| first_zone(zones, z, i)
}

fn zone_index(zones: &Vec<Zone>, zone: ZoneId) -> (r: Option<usize>)
    ensures
        match r {
            Some(i) => first_zone(zones@, zone, i as int),
            None => forall|i: int| !first_zone(zones@, zone, i),
        },
{
    let mut i: usize = 0;
    while i < zones.len()
        invariant
            i <= zones@.len(),
            forall|j: int| 0 <= j < i ==> (#[trigger] zones@[j]).id != zone,
        decreases zones@.len() - i,
    {
        if zones[i].id == zone {
            return Some(i);
        }
        i += 1;
    }
    None
}

/// What a change to the selected zone's actions does: only these actions change,
/// and the outcome of a trial run is forgotten.
pub open spec fn zone_edited(before: Shell, op: Op, changed: bool, after: Shell) -> bool {
    match (before.selected_zone, before.state.active_profile) {
        (Some(z), Some(p)) => after.state.active_profile matches Some(q) && profile_edited(
            p,
            z,
            op,
            changed,
            q,
        ) && after == (Shell {
            state: AppState { active_profile: Some(q), ..before.state },
            action_editor: ActionEditor {
                last_test: if changed {
                    None
                } else {
                    before.action_editor.last_test
                },
            },
            ..before
        }),
        _ => !changed && after == before,
    }
}

/// The message is there and has this text.
pub open spec fn says(message: Option<String>, text: Seq<char>) -> bool {
    message matches Some(m) && m@ == text
}

/// What something on the profiles screen changes.
pub open spec fn profile_event_done(
    before: Shell,
    event: ProfileEvent,
    refresh: bool,
    after: Shell,
) -> bool {
    match event {
        ProfileEvent::Exported(Ok(path)) => refresh && says(
            after.io_message,
            "Exported to "@ + path@,
        ) && after == (Shell {
            io_message: after.io_message,
            save_error: None,
            ..before
        }),
        ProfileEvent::Exported(Err(e)) => !refresh && failed(
            before,
            "Could not export profile: "@,
            e,
            after,
        ),
        ProfileEvent::Duplicated(Ok(_)) => refresh && after.duplicate_name@.len() == 0
            && says(
            after.io_message,
            "Duplicated — rebind this copy's zones to the new context."@,
        ) && after == (Shell {
            duplicate_name: after.duplicate_name,
            selected_zone: None,
            io_message: after.io_message,
            save_error: None,
            ..before
        }),
        ProfileEvent::Duplicated(Err(e)) => !refresh && failed(
            before,
            "Could not duplicate profile: "@,
            e,
            after,
        ),
        ProfileEvent::Renamed(Ok(_)) => refresh && after.duplicate_name@.len() == 0 && says(
            after.io_message,
            "Profile renamed."@,
        ) && after == (Shell {
            duplicate_name: after.duplicate_name,
            io_message: after.io_message,
            save_error: None,
            ..before
        }),
        ProfileEvent::Renamed(Err(e)) => !refresh && failed(
            before,
            "Could not rename profile: "@,
            e,
            after,
        ),
        ProfileEvent::Imported(Ok(_)) => refresh && says(
            after.io_message,
            "Imported a copy as a new profile."@,
        ) && after == (Shell {
            selected_zone: None,
            io_message: after.io_message,
            save_error: None,
            ..before
        }),
        ProfileEvent::Imported(Err(e)) => !refresh && failed(
            before,
            "Could not import profile: "@,
            e,
            after,
        ),
        ProfileEvent::AskDelete => !refresh && after == (Shell {
            confirm_delete: before.state.active_profile is Some,
            ..before
        }),
        ProfileEvent::CancelDelete => !refresh && after == (Shell {
            confirm_delete: false,
            ..before
        }),
        ProfileEvent::Deleted(Ok(_)) => refresh && says(
            after.io_message,
            "Profile deleted."@,
        ) && after == (Shell {
            selected_zone: None,
            io_message: after.io_message,
            save_error: None,
            ..before
        }),
        ProfileEvent::Deleted(Err(e)) => !refresh && banner(
            before,
            "Could not delete profile: "@,
            e,
            after,
        ),
        ProfileEvent::Switched(Ok(_)) => refresh && after == (Shell {
            selected_zone: None,
            ..before
        }),
        ProfileEvent::Switched(Err(e)) => !refresh && banner(
            before,
            "Could not switch profile: "@,
            e,
            after,
        ),
        ProfileEvent::Saved(Ok(_)) => !refresh && after == (Shell { save_error: None, ..before }),
        ProfileEvent::Saved(Err(e)) => !refresh && banner(
            before,
            "Could not save your changes: "@,
            e,
            after,
        ),
    }
}

/// An error is shown; nothing else changes.
pub open spec fn banner(before: Shell, start: Seq<char>, e: String, after: Shell) -> bool {
    after.save_error matches Some(m) && m@ == start + e@ && after == (Shell {
        save_error: after.save_error,
        ..before
    })
}

/// An error is shown in place of the last message; nothing else changes.
pub open spec fn failed(before: Shell, start: Seq<char>, e: String, after: Shell) -> bool {
    after.save_error matches Some(m) && m@ == start + e@ && after == (Shell {
        save_error: after.save_error,
        io_message: None,
        ..before
    })
}

/// What becomes of a tap with this window: its classification, and the pulse of
/// the nearest zone, longer where the tap was accepted; there is none without a
/// zone.
pub open spec fn judged<
    E: Fn(&[Single]) -> FeatureVector,
    D: Fn(&ClassifierParams, &FeatureVector) -> Distances,
>(
    p: Profile,
    window: Seq<Single>,
    extract: E,
    measure: D,
    now: u64,
    pulse: Option<ZonePulse>,
    c: Classification,
) -> bool {
    exists|
        w: &[Single],
        fv: FeatureVector,
        d: Distances,
        space: FeatureSpaceView,
        nearest: Option<ZoneId>,
    |
        {
            &&& w@ == window
            &&& #[trigger] call_ensures(extract, (w,), fv)
            &&& #[trigger] call_ensures(measure, (&p.classifier, &fv), d)
            &&& #[trigger] located(p.classifier@, fv@, d, space)
            &&& #[trigger] space.nearest(nearest)
            &&& classified(p.classifier@, fv@, d, c)
            &&& pulse == match nearest {
                Some(zone) => Some(
                    ZonePulse {
                        zone,
                        anim: AnimState {
                            started_at: now,
                            duration: if space.accepted {
                                QUICK
                            } else {
                                INSTANT
                            },
                        },
                        accepted: space.accepted,
                    },
                ),
                None => None,
            }
        }
}

fn judge_tap<
    E: Fn(&[Single]) -> FeatureVector,
    D: Fn(&ClassifierParams, &FeatureVector) -> Distances,
>(p: &Profile, window: &[Single], extract: E, measure: D, now: u64) -> (r: (
    Option<ZonePulse>,
    Classification,
))
    requires
        p.classifier@.well_formed(),
        window@.len() == FEATURE_WINDOW_SAMPLES,
        call_requires(extract, (window,)),
        measures_any(measure),
    ensures
        judged(*p, window@, extract, measure, now, r.0, r.1),
{
    let fv: FeatureVector = extract(window);
    let d: Distances = measure(&p.classifier, &fv);
    let space = p.classifier.feature_space(&fv, &d);
    let c: Classification = p.classifier.classify(&fv, &d);
    let duration: u64 = if space.accepted {
        QUICK
    } else {
        INSTANT
    };
    let nearest: Option<ZoneId> = space.nearest_zone();
    proof {
        assert(call_ensures(measure, (&p.classifier, &fv), d));
        assert(located(p.classifier@, fv@, d, space));
        assert(space.nearest(nearest));
    }
    let pulse: Option<ZonePulse> = match nearest {
        Some(zone) => Some(
            ZonePulse { zone, anim: AnimState::start(duration, now), accepted: space.accepted },
        ),
        None => None,
    };
    (pulse, c)
}

/// The microphone that is heard is known, and is not the one that the profile
/// was made with.
pub open spec fn mismatched(profile: Profile, live: LiveStatus) -> bool {
    match (live.device, live.sample_rate) {
        (Some(name), Some(rate)) => !(profile.device_fingerprint.device_name@ == name@
            && profile.device_fingerprint.capability_hash@ == crate::profile::capability(rate)),
        _ => false,
    }
}

/// `r` is the zone whose actions a tap runs: the one that an accepted tap was
/// given. On another microphone than the profile's a tap runs nothing.
pub open spec fn runs(p: Profile, live: LiveStatus, c: Classification, r: Option<usize>) -> bool {
    match c.zone_id {
        Some(z) if c.accepted && !mismatched(p, live) => match r {
            Some(i) => first_zone(p.zones@, z, i as int),
            None => forall|i: int| !first_zone(p.zones@, z, i),
        },
        _ => r is None,
    }
}

/// The zone whose actions a tap runs.
pub fn zone_to_run(p: &Profile, live: &LiveStatus, c: &Classification) -> (r: Option<usize>)
    ensures
        runs(*p, *live, *c, r),
{
    if !c.accepted || mismatch(p, live) {
        return None;
    }
    match c.zone_id {
        Some(z) => zone_index(&p.zones, z),
        None => None,
    }
}

fn mismatch(p: &Profile, live: &LiveStatus) -> (r: bool)
    ensures
        r == mismatched(*p, *live),
{
    match (&live.device, live.sample_rate) {
        (Some(name), Some(rate)) => {
            let current = DeviceFingerprint::from_device(name.clone(), rate);
            p.needs_recalibration_for(&current)
        },
        _ => false,
    }
}

/// A sound that is not accepted never runs an action, and neither does any sound
/// on another microphone than the profile's.
pub proof fn rejected_sounds_run_nothing(
    p: Profile,
    live: LiveStatus,
    c: Classification,
    r: Option<usize>,
)
    requires
        runs(p, live, c, r),
        !c.accepted || mismatched(p, live),
    ensures
        r is None,
{
}

/// What a tap does to the shell: it is counted; on the home screen the nearest
/// zone pulses; and `fire` is the zone whose actions run.
pub open spec fn tapped<
    E: Fn(&[Single]) -> FeatureVector,
    D: Fn(&ClassifierParams, &FeatureVector) -> Distances,
>(
    before: Shell,
    window: Seq<Single>,
    extract: E,
    measure: D,
    now: u64,
    fire: Option<usize>,
    after: Shell,
) -> bool {
    let counted = Shell {
        live: LiveStatus { taps: (before.live.taps + 1) as u32, ..before.live },
        ..before
    };
    match before.state.active_profile {
        Some(p) if window.len() == FEATURE_WINDOW_SAMPLES => exists|
            pulse: Option<ZonePulse>,
            c: Classification,
        |
            #[trigger] judged(p, window, extract, measure, now, pulse, c) && runs(
                p,
                before.live,
                c,
                fire,
            ) && match pulse {
                Some(z) if before.state.screen == Screen::Home => after.zone_pulses@ == with_pulse(
                    before.zone_pulses@,
                    z,
                ) && after == (Shell { zone_pulses: after.zone_pulses, ..counted }),
                _ => after == counted,
            },
        _ => fire is None && after == counted,
    }
}

/// What an event of the listener does to the shell.
pub open spec fn told<
    E: Fn(&[Single]) -> FeatureVector,
    D: Fn(&ClassifierParams, &FeatureVector) -> Distances,
>(
    before: Shell,
    event: CaptureEvent,
    held: Single,
    extract: E,
    measure: D,
    now: u64,
    fire: Option<usize>,
    after: Shell,
) -> bool {
    match event {
        CaptureEvent::Started { device_name, sample_rate } => fire is None && after == (Shell {
            live: LiveStatus {
                device: Some(device_name),
                sample_rate: Some(sample_rate),
                ..before.live
            },
            ..before
        }),
        CaptureEvent::Level { rms, peak } => fire is None && after == (Shell {
            live: LiveStatus { rms, peak, peak_hold: held.larger(peak), ..before.live },
            ..before
        }),
        CaptureEvent::Onset { window, is_transient, .. } => if !is_transient {
            fire is None && after == (Shell {
                live: LiveStatus { rejects: (before.live.rejects + 1) as u32, ..before.live },
                ..before
            })
        } else {
            tapped(before, window@, extract, measure, now, fire, after)
        },
        CaptureEvent::Frame { .. } => fire is None && after == before,
        CaptureEvent::Failed(msg) => fire is None && after == (Shell {
            live: LiveStatus { error: Some(msg), ..before.live },
            state: before.listens(ListeningState::Error),
            capturing: false,
            ..before
        }),
    }
}

/// A sustained sound is never taken for a tap: it runs nothing and lights up
/// nothing, whatever it sounds like.
pub proof fn sustained_sounds_run_nothing<
    E: Fn(&[Single]) -> FeatureVector,
    D: Fn(&ClassifierParams, &FeatureVector) -> Distances,
>(
    before: Shell,
    event: CaptureEvent,
    held: Single,
    extract: E,
    measure: D,
    now: u64,
    fire: Option<usize>,
    after: Shell,
)
    requires
        told(before, event, held, extract, measure, now, fire, after),
        event matches CaptureEvent::Onset { is_transient, .. } && !is_transient,
    ensures
        fire is None,
        after.zone_pulses == before.zone_pulses,
        after.live.taps == before.live.taps,
{
}

/// The microphone taken from the home screen, if it has it.
pub open spec fn stop_for(s: Shell) -> CaptureStep {
    if s.capturing {
        CaptureStep::Stop
    } else {
        CaptureStep::Keep
    }
}

/// The shell once the home screen has given the microphone to another.
pub open spec fn taken(s: Shell) -> Shell {
    Shell { state: s.listens(yielded(s.state.listening)), capturing: false, ..s }
}

/// What the beginning of a frame does.
pub open spec fn begun(
    before: Shell,
    system_dark: bool,
    minimized: bool,
    plan: FramePlan,
    after: Shell,
) -> bool {
    let showing = before.window_visible && !minimized;
    let lit = Shell { state: AppState { system_dark, ..before.state }, ..before };
    match before.wizard {
        Some(w) => {
            &&& plan == (FramePlan {
                wizard: true,
                showing,
                capture: stop_for(before),
                start_diagnostics: false,
            })
            &&& after == (Shell { wizard: Some(Wizard { visible: showing, ..w }), ..taken(lit) })
        },
        None => settled(lit, showing, plan, after),
    }
}

/// What settling the screens without the wizard does.
pub open spec fn settled(before: Shell, showing: bool, plan: FramePlan, after: Shell) -> bool {
    let evaluation = if showing && before.state.screen == Screen::Evaluation {
        before.evaluation
    } else {
        EvaluationScreen { run: None, ..before.evaluation }
    };
    let open = showing && before.state.screen == Screen::Diagnostics;
    let start = open && !before.diagnostics.capturing && before.diagnostics.error is None;
    let screens = Shell { evaluation, diagnostics: after.diagnostics, ..before };
    &&& if open {
        after.diagnostics == if start {
            (DiagnosticsScreen { capturing: true, error: None, ..before.diagnostics })
        } else {
            before.diagnostics
        }
    } else {
        after.diagnostics.idle()
    }
    &&& if evaluation.run is Some || open {
        &&& plan == (FramePlan {
            wizard: false,
            showing,
            capture: stop_for(before),
            start_diagnostics: start,
        })
        &&& after == taken(screens)
    } else {
        &&& plan == (FramePlan {
            wizard: false,
            showing,
            capture: screens.reconciled().1,
            start_diagnostics: false,
        })
        &&& after == screens.reconciled().0
    }
}

/// What the end of a frame does.
pub open spec fn ended(before: Shell, now: u64, plan: EndPlan, after: Shell) -> bool {
    let opened = before.launch_wizard;
    let pending = before.evaluation.pending_start;
    &&& after.zone_pulses@ == running_pulses(before.zone_pulses@, now)
    &&& plan.repaint_soon == (after.zone_pulses@.len() > 0)
    &&& plan.wizard_opened == opened
    &&& plan.run_started == (pending is Some && before.state.active_profile is Some)
    &&& if opened {
        after.wizard matches Some(w) && call_ensures(Wizard::new, (now,), w)
    } else {
        after.wizard == before.wizard
    }
    &&& if plan.run_started {
        after.evaluation.run matches Some(r) && call_ensures(
            crate::ui::evaluation::EvalRun::new,
            (&before.state.active_profile->0, pending->0),
            r,
        ) && after.evaluation == (EvaluationScreen {
            pending_start: None,
            result: None,
            run: Some(r),
            ..before.evaluation
        })
    } else {
        after.evaluation == (EvaluationScreen { pending_start: None, ..before.evaluation })
    }
    &&& after == (Shell {
        zone_pulses: after.zone_pulses,
        launch_wizard: false,
        wizard: after.wizard,
        evaluation: after.evaluation,
        capturing: before.capturing && !opened && pending is None,
        state: before.listens(
            if opened {
                ListeningState::Paused
            } else if pending is Some {
                yielded(before.state.listening)
            } else {
                before.state.listening
            },
        ),
        ..before
    })
}

/// The microphone has one owner: once a frame has begun, the home screen has it
/// only where neither the wizard nor an evaluation nor the diagnostics does, and
/// only while listening.
pub proof fn one_screen_has_the_microphone(
    before: Shell,
    system_dark: bool,
    minimized: bool,
    plan: FramePlan,
    after: Shell,
)
    requires
        begun(before, system_dark, minimized, plan, after),
    ensures
        after.capturing ==> after.wizard is None && after.evaluation.run is None
            && !after.diagnostics.capturing && after.state.listening == ListeningState::Listening,
        after.diagnostics.capturing && before.wizard is None ==> after.evaluation.run is None,
{
}

/// Quitting from the tray is never turned into hiding.
pub proof fn quitting_is_final(s: Shell, toggled: bool, close_requested: bool)
    requires
        s.has_tray,
    ensures
        s.outside(toggled, seq![TrayCommand::Quit], close_requested).0.force_quit,
        s.outside(toggled, seq![TrayCommand::Quit], close_requested).1 == seq![
            WindowCommand::Close,
        ],
{
    let keyed = if s.has_hotkeys && toggled {
        Shell { state: s.listens(s.state.listening.toggled()), ..s }
    } else {
        s
    };
    let cmds = seq![TrayCommand::Quit];
    assert(cmds.drop_last() =~= Seq::<TrayCommand>::empty());
    assert(cmds.last() == TrayCommand::Quit);
    assert(keyed.all_commanded(cmds.drop_last()) == (keyed, Seq::<WindowCommand>::empty()));
    assert(Seq::<WindowCommand>::empty() + seq![WindowCommand::Close] =~= seq![
        WindowCommand::Close,
    ]);
}

/// What the button on the home screen says.
pub open spec fn verb_text(state: ListeningState) -> Seq<char> {
    match state {
        ListeningState::Listening => "Pause"@,
        ListeningState::Paused => "Start listening"@,
        ListeningState::Error => "Resolve device error first"@,
    }
}

/// What the button on the home screen says, and whether it can be pressed.
pub fn listen_button(state: ListeningState) -> (r: (&'static str, bool))
    ensures
        r.0@ == verb_text(state),
        r.1 == (state != ListeningState::Error),
{
    match state {
        ListeningState::Listening => ("Pause", true),
        ListeningState::Paused => ("Start listening", true),
        ListeningState::Error => ("Resolve device error first", false),
    }
}

/// The sign of a state.
pub fn status_glyph(state: ListeningState) -> (s: &'static str)
    ensures
        s@ == match state {
            ListeningState::Listening => "●"@,
            ListeningState::Paused => "❚❚"@,
            ListeningState::Error => "▲"@,
        },
{
    match state {
        ListeningState::Listening => "●",
        ListeningState::Paused => "❚❚",
        ListeningState::Error => "▲",
    }
}

/// What is said where the profile was made with another microphone.
pub open spec fn mismatch_text(calibrated: Seq<char>, active: Seq<char>) -> Seq<char> {
    "⚠ Calibrated for “"@ + calibrated + "”, but “"@ + active
        + "” is active — recalibrate for reliable accuracy."@
}

/// A warning on the home screen: the profile was made with another microphone
/// than the one that is heard.
pub fn mismatch_warning(profile: &Profile, live: &LiveStatus) -> (r: Option<String>)
    ensures
        if mismatched(*profile, *live) {
            r matches Some(t) && t@ == mismatch_text(
                profile.device_fingerprint.device_name@,
                live.device->0@,
            )
        } else {
            r is None
        },
{
    if !mismatch(profile, live) {
        return None;
    }
    match &live.device {
        Some(name) => {
            let start = join3(
                "⚠ Calibrated for “",
                &profile.device_fingerprint.device_name,
                "”, but “",
            );
            Some(join3(&start, name, "” is active — recalibrate for reliable accuracy."))
        },
        None => None,
    }
}

/// A warning on the home screen: zones that do nothing yet.
pub fn unbound_warning(profile: &Profile) -> (r: Option<String>)
    ensures
        if crate::profile::unbound(profile.zones@) == 0 {
            r is None
        } else {
            r matches Some(t) && t@ == "⚠ Unbound zones: "@ + decimal(
                crate::profile::unbound(profile.zones@),
            ) + " of "@ + decimal(profile.zones@.len())
                + ". Open Zones & profiles to bind an action to each."@
        },
{
    let n: usize = profile.unbound_zone_count();
    if n == 0 {
        return None;
    }
    let count = decimal_text(n as u64);
    let total = decimal_text(profile.zones.len() as u64);
    let start = join3("⚠ Unbound zones: ", &count, " of ");
    Some(join3(&start, &total, ". Open Zones & profiles to bind an action to each."))
}

/// Columns of the zone tiles.
pub open spec fn columns_for(zones: int) -> int {
    if zones <= 4 {
        2
    } else if zones <= 6 {
        3
    } else {
        4
    }
}

/// Columns and rows of the zone tiles.
pub fn tile_grid(zones: usize) -> (r: (usize, usize))
    ensures
        r.0 == columns_for(zones as int),
        r.1 == (zones + columns_for(zones as int) - 1) / columns_for(zones as int),
{
    let columns: usize = if zones <= 4 {
        2
    } else if zones <= 6 {
        3
    } else {
        4
    };
    let rows: usize = if zones % columns == 0 {
        zones / columns
    } else {
        zones / columns + 1
    };
    (columns, rows)
}

/// Every zone has a tile of its own inside the grid.
pub proof fn tiles_do_not_overlap(zones: int, i: int, j: int)
    requires
        0 <= i < j < zones,
    ensures
        i % columns_for(zones) != j % columns_for(zones) || i / columns_for(zones) != j
            / columns_for(zones),
        j / columns_for(zones) < (zones + columns_for(zones) - 1) / columns_for(zones),
{
}

/// The plural of an action.
pub open spec fn action_count(n: nat) -> Seq<char> {
    decimal(n) + if n == 1 {
        " action"@
    } else {
        " actions"@
    }
}

fn count_actions(n: usize) -> (s: String)
    ensures
        s@ == action_count(n as nat),
{
    let number = decimal_text(n as u64);
    if n == 1 {
        join(&number, " action")
    } else {
        join(&number, " actions")
    }
}

/// What stands on a zone's tile.
pub fn tile_caption(zone: &Zone) -> (s: String)
    ensures
        s@ == if zone.actions@.len() == 0 {
            "no action"@
        } else {
            action_count(zone.actions@.len())
        },
{
    if zone.actions.len() == 0 {
        "no action".to_owned()
    } else {
        count_actions(zone.actions.len())
    }
}

/// What a screen reader says of the zones: each with its number of actions.
pub open spec fn zones_text(zones: Seq<Zone>) -> Seq<char>
    decreases zones.len(),
{
    if zones.len() == 0 {
        Seq::empty()
    } else {
        let last = zones.last().label@ + ": "@ + action_count(zones.last().actions@.len());
        if zones.len() == 1 {
            last
        } else {
            zones_text(zones.drop_last()) + ", "@ + last
        }
    }
}

pub fn zone_tiles(zones: &Vec<Zone>) -> (s: String)
    ensures
        s@ == zones_text(zones@),
{
    let mut s: String = String::new();
    let mut i: usize = 0;
    while i < zones.len()
        invariant
            i <= zones@.len(),
            s@ == zones_text(zones@.take(i as int)),
        decreases zones@.len() - i,
    {
        proof {
            assert(zones@.take(i + 1).drop_last() =~= zones@.take(i as int));
        }
        let count = count_actions(zones[i].actions.len());
        let last = join3(&zones[i].label, ": ", &count);
        s = if i == 0 {
            last
        } else {
            join3(&s, ", ", &last)
        };
        i += 1;
    }
    proof {
        assert(zones@.take(i as int) =~= zones@);
    }
    s
}

/// Whether profiles can be switched: there are two or more.
pub fn switcher_shown(profiles: &Vec<ProfileSummary>) -> (r: bool)
    ensures
        r == (profiles@.len() >= 2),
{
    profiles.len() >= 2
}

/// A profile in the list to switch to.
pub fn profile_switcher(p: &ProfileSummary) -> (s: String)
    ensures
        s@ == p.name@ + "   ·   "@ + decimal(p.zone_count as nat) + if p.zone_count == 1 {
            " zone"@
        } else {
            " zones"@
        },
{
    let count = decimal_text(p.zone_count as u64);
    let start = join3(&p.name, "   ·   ", &count);
    if p.zone_count == 1 {
        join(&start, " zone")
    } else {
        join(&start, " zones")
    }
}

/// Whether the system prefers dark colours: also where it does not say.
pub fn read_system_dark(light: Option<bool>) -> (dark: bool)
    ensures
        dark == (light != Some(true)),
{
    match light {
        Some(l) => !l,
        None => true,
    }
}

/// A new pulse takes the place of the zone's own and leaves those of other zones
/// in order; pulses end when their time is up and not before.
pub proof fn pulses_come_and_go_alone(s: Seq<ZonePulse>, p: ZonePulse, now: u64)
    ensures
        with_pulse(s, p) == s.filter(|q: ZonePulse| q.zone != p.zone).push(p),
        running_pulses(s, now) == s.filter(
            |q: ZonePulse| now < q.anim.started_at || now - q.anim.started_at < q.anim.duration,
        ),
    decreases s.len(),
{
    reveal(Seq::filter);
    if s.len() > 0 {
        pulses_come_and_go_alone(s.drop_last(), p, now);
        let others = other_pulses(s.drop_last(), p.zone);
        assert(others.push(p).drop_last() =~= others);
        assert(s.drop_last().filter(|q: ZonePulse| q.zone != p.zone).push(p).drop_last()
            =~= s.drop_last().filter(|q: ZonePulse| q.zone != p.zone));
    }
}

/// The listener runs exactly while the state says so. It is started where it did
/// not run and stopped where it did, and what was heard before is forgotten only
/// at a start.
pub proof fn the_listener_follows_the_state(s: Shell)
    ensures
        s.reconciled().0.capturing <==> s.state.listening is Listening,
        s.reconciled().1 is Start <==> !s.capturing && s.reconciled().0.capturing,
        s.reconciled().1 is Stop <==> s.capturing && !s.reconciled().0.capturing,
        !(s.reconciled().1 is Start) ==> s.reconciled().0.live == s.live,
        s.reconciled().1 is Start ==> s.reconciled().0.live.taps == 0
            && s.reconciled().0.live.rejects == 0 && s.reconciled().0.live.error is None
            && s.reconciled().0.live.device is None && s.reconciled().0.live.sample_rate is None,
        s.reconciled().0 == (Shell {
            live: s.reconciled().0.live,
            capturing: s.reconciled().0.capturing,
            ..s
        }),
{
}

/// A tap runs the actions of one zone of the profile: the first with the identity
/// that the tap was given, and only where the tap was accepted and the microphone
/// is not known to be another than the profile's. Where all that holds, it does
/// run them.
pub proof fn accepted_taps_run_their_zone(
    p: &Profile,
    live: &LiveStatus,
    c: &Classification,
    r: Option<usize>,
    j: int,
)
    requires
        call_ensures(zone_to_run, (p, live, c), r),
        0 <= j < p.zones@.len(),
    ensures
        r matches Some(i) ==> i < p.zones@.len() && c.accepted && c.zone_id == Some(
            p.zones@[i as int].id,
        ) && (j < i ==> p.zones@[j].id != p.zones@[i as int].id),
        r is Some && live.device is Some && live.sample_rate is Some
            ==> p.device_fingerprint.device_name@ == live.device->0@
            && p.device_fingerprint.capability_hash@ == "sr"@ + decimal(
            live.sample_rate->0 as nat,
        ),
        c.accepted && c.zone_id == Some(p.zones@[j].id) && (live.device is None
            || live.sample_rate is None || (p.device_fingerprint.device_name@ == live.device->0@
            && p.device_fingerprint.capability_hash@ == "sr"@ + decimal(
            live.sample_rate->0 as nat,
        ))) ==> r is Some,
{
    if c.zone_id == Some(p.zones@[j].id) {
        let z = p.zones@[j].id;
        first_zone_exists(p.zones@, z, j);
        let i = choose|i: int| first_zone(p.zones@, z, i);
        assert(first_zone(p.zones@, c.zone_id->0, i));
        if c.accepted && !mismatched(*p, *live) && r is None {
            assert(runs(*p, *live, *c, r));
            assert(!first_zone(p.zones@, c.zone_id->0, i));
        }
    }
}

proof fn first_zone_exists(zones: Seq<Zone>, zone: ZoneId, j: int)
    requires
        0 <= j < zones.len(),
        zones[j].id == zone,
    ensures
        exists|i: int| first_zone(zones, zone, i),
    decreases j,
{
    if exists|k: int| 0 <= k < j && (#[trigger] zones[k]).id == zone {
        let k = choose|k: int| 0 <= k < j && (#[trigger] zones[k]).id == zone;
        first_zone_exists(zones, zone, k);
    } else {
        assert(first_zone(zones, zone, j));
    }
}

/// What the listener tells the home screen. Only a sound that decays counts as a
/// tap, and any other onset as a rejection; each is counted once. Actions run only
/// for a tap with a full window and an active profile. A failure ends listening.
/// Nothing else of the application changes.
pub proof fn sounds_are_counted_once<
    E: Fn(&[Single]) -> FeatureVector,
    D: Fn(&ClassifierParams, &FeatureVector) -> Distances,
>(
    before: Shell,
    event: CaptureEvent,
    held: Single,
    extract: E,
    measure: D,
    now: u64,
    fire: Option<usize>,
    after: Shell,
)
    requires
        told(before, event, held, extract, measure, now, fire, after),
        before.live.taps < u32::MAX,
        before.live.rejects < u32::MAX,
    ensures
        after.live.taps == before.live.taps + if event matches CaptureEvent::Onset {
            is_transient,
            ..
        } && is_transient {
            1int
        } else {
            0
        },
        after.live.rejects == before.live.rejects + if event matches CaptureEvent::Onset {
            is_transient,
            ..
        } && !is_transient {
            1int
        } else {
            0
        },
        fire matches Some(i) ==> (event matches CaptureEvent::Onset { window, is_transient, .. }
            && is_transient && window@.len() == 4096) && (before.state.active_profile matches Some(
            p,
        ) && i < p.zones@.len()),
        event matches CaptureEvent::Failed(msg) ==> after.live.error == Some(msg)
            && after.state.listening is Error && !after.capturing,
        !(event is Failed) ==> after.live.error == before.live.error && after.state == before.state
            && after.capturing == before.capturing,
        event matches CaptureEvent::Started { device_name, sample_rate } ==> after.live.device
            == Some(device_name) && after.live.sample_rate == Some(sample_rate),
        !(event is Started) ==> after.live.device == before.live.device && after.live.sample_rate
            == before.live.sample_rate,
        event matches CaptureEvent::Level { rms, peak } ==> after.live.rms == rms
            && after.live.peak == peak && (!peak.nan() ==> peak.at_most(after.live.peak_hold)) && (
        !held.nan() ==> held.at_most(after.live.peak_hold)) && (after.live.peak_hold == peak
            || after.live.peak_hold == held),
        !(event is Level) ==> after.live.rms == before.live.rms && after.live.peak
            == before.live.peak && after.live.peak_hold == before.live.peak_hold,
        !(event is Onset) || !(before.state.screen is Home) ==> after.zone_pulses
            == before.zone_pulses,
        after.state.active_profile == before.state.active_profile && after.state.config
            == before.state.config && after.state.screen == before.state.screen,
        after.wizard == before.wizard && after.evaluation == before.evaluation
            && after.diagnostics == before.diagnostics && after.selected_zone
            == before.selected_zone && after.force_quit == before.force_quit
            && after.window_visible == before.window_visible,
{
}

/// A tap on the home screen lights up the zone that it is nearest to, from now on
/// and alone; longer, and as accepted, where it was accepted.
pub proof fn taps_light_up_the_nearest_zone<
    E: Fn(&[Single]) -> FeatureVector,
    D: Fn(&ClassifierParams, &FeatureVector) -> Distances,
>(
    p: Profile,
    window: Seq<Single>,
    extract: E,
    measure: D,
    now: u64,
    pulse: Option<ZonePulse>,
    c: Classification,
)
    requires
        p.classifier@.well_formed(),
        measures_any(measure),
        judged(p, window, extract, measure, now, pulse, c),
    ensures
        pulse is None <==> p.classifier@.zone_ids.len() == 0,
        pulse matches Some(z) ==> {
            &&& p.classifier@.zone_ids.contains(z.zone)
            &&& z.anim.started_at == now
            &&& z.accepted == c.accepted
            &&& z.accepted ==> z.anim.duration == 180_000_000
            &&& !z.accepted ==> z.anim.duration == 100_000_000
            &&& c.accepted ==> c.zone_id == Some(z.zone)
        },
{
    let (w, fv, d, space, nearest) = choose|
        w: &[Single],
        fv: FeatureVector,
        d: Distances,
        space: FeatureSpaceView,
        nearest: Option<ZoneId>,
    |
        {
            &&& w@ == window
            &&& #[trigger] call_ensures(extract, (w,), fv)
            &&& #[trigger] call_ensures(measure, (&p.classifier, &fv), d)
            &&& #[trigger] located(p.classifier@, fv@, d, space)
            &&& #[trigger] space.nearest(nearest)
            &&& classified(p.classifier@, fv@, d, c)
            &&& pulse == match nearest {
                Some(zone) => Some(
                    ZonePulse {
                        zone,
                        anim: AnimState {
                            started_at: now,
                            duration: if space.accepted {
                                QUICK
                            } else {
                                INSTANT
                            },
                        },
                        accepted: space.accepted,
                    },
                ),
                None => None,
            }
        };
    assert(d.covers(p.classifier@));
    let m = p.classifier@;
    accepted_means_a_zone(m, fv@, d, c);
    match nearest {
        Some(zone) => {
            let distances = centroid_distances(space.zones@);
            let i = choose|i: int| #[trigger]
                first_least(distances, i) && zone == space.zones@[i].zone_id;
            assert(space.zones@[i].zone_id == m.zone_ids[i]);
            if c.accepted {
                assert(distances =~= d.centroids@) by {
                    assert forall|k: int| 0 <= k < distances.len() implies distances[k]
                        == #[trigger] d.centroids@[k] by {
                        assert(space.zones@[k].centroid_distance == d.centroids@[k]);
                    }
                }
                let k = choose|k: int|
                    #![trigger first_least(d.centroids@, k)]
                    first_least(d.centroids@, k) && c.zone_id == Some(m.zone_ids[k])
                        && c.confidence == d.confidences@[k];
                first_least_is_unique(d.centroids@, i, k);
            }
        },
        None => {},
    }
}

/// Commands of the tray take effect one after the other.
pub proof fn commands_add_up(s: Shell, a: Seq<TrayCommand>, b: Seq<TrayCommand>)
    ensures
        s.all_commanded(a + b).0 == s.all_commanded(a).0.all_commanded(b).0,
        s.all_commanded(a + b).1 == s.all_commanded(a).1 + s.all_commanded(a).0.all_commanded(b).1,
        s.all_commanded(Seq::empty()) == (s, Seq::<WindowCommand>::empty()),
    decreases b.len(),
{
    if b.len() == 0 {
        assert(a + b =~= a);
        assert(s.all_commanded(a).1 + Seq::<WindowCommand>::empty() =~= s.all_commanded(a).1);
    } else {
        assert((a + b).drop_last() =~= a + b.drop_last());
        commands_add_up(s, a, b.drop_last());
        assert(s.all_commanded(a + b).1 =~= s.all_commanded(a).1 + s.all_commanded(
            a,
        ).0.all_commanded(b).1);
    }
}

/// What a command of the tray touches: toggling changes whether taps are acted on,
/// and an error stays one; opening shows the window and brings it to the front;
/// quitting closes it for good. No command touches anything else.
pub proof fn commands_do_one_thing(s: Shell, cmd: TrayCommand)
    ensures
        ({
            let one = s.all_commanded(seq![cmd]);
            let t = one.0;
            &&& t.state == (AppState { listening: t.state.listening, ..s.state })
            &&& t == (Shell {
                state: t.state,
                window_visible: t.window_visible,
                force_quit: t.force_quit,
                ..s
            })
            &&& t.window_visible <==> s.window_visible || cmd is OpenWindow
            &&& t.force_quit <==> s.force_quit || cmd is Quit
            &&& t.state.listening != s.state.listening <==> cmd is ToggleListening && !(
            s.state.listening is Error)
            &&& s.state.listening is Paused && cmd is ToggleListening
                ==> t.state.listening is Listening
            &&& s.state.listening is Listening && cmd is ToggleListening
                ==> t.state.listening is Paused
            &&& cmd is ToggleListening ==> one.1.len() == 0
            &&& cmd is OpenWindow ==> one.1 == seq![WindowCommand::Show, WindowCommand::Focus]
            &&& cmd is Quit ==> one.1 == seq![WindowCommand::Close]
        }),
{
    assert(seq![cmd].drop_last() =~= Seq::<TrayCommand>::empty());
    assert(s.all_commanded(seq![cmd].drop_last()) == (s, Seq::<WindowCommand>::empty()));
    let more = s.commanded(cmd).1;
    assert(Seq::<WindowCommand>::empty() + more =~= more);
}

/// The wish to close hides the window exactly where the settings say so, there is
/// a tray to bring it back from, and nothing asked to quit; otherwise it changes
/// nothing and the window may close. The key counts only where it is registered,
/// and the tray only where there is one.
pub proof fn closing_hides_only_with_a_tray(s: Shell, toggled: bool, cmds: Seq<TrayCommand>)
    ensures
        ({
            let stay = s.outside(toggled, cmds, false);
            let close = s.outside(toggled, cmds, true);
            let hides = s.state.config.minimize_to_tray_on_close && s.has_tray
                && !stay.0.force_quit;
            &&& hides ==> close.0 == (Shell { window_visible: false, ..stay.0 }) && close.1
                == stay.1 + seq![WindowCommand::CancelClose, WindowCommand::Hide]
            &&& !hides ==> close == stay
            &&& !s.has_hotkeys ==> s.outside(toggled, cmds, false) == s.outside(false, cmds, false)
            &&& !s.has_tray ==> stay.1.len() == 0 && stay.0.force_quit == s.force_quit
                && stay.0.window_visible == s.window_visible
            &&& !s.has_tray && !s.has_hotkeys ==> stay.0 == s
            &&& s.has_tray && !toggled ==> stay == s.all_commanded(cmds)
            &&& s.has_hotkeys && toggled && cmds.len() == 0 ==> stay.0.state.listening
                == s.state.listening.toggled()
        }),
{
    let keyed = if s.has_hotkeys && toggled {
        Shell { state: s.listens(s.state.listening.toggled()), ..s }
    } else {
        s
    };
    let used = if s.has_tray {
        cmds
    } else {
        Seq::empty()
    };
    commands_keep_the_rest(keyed, used);
}

proof fn commands_keep_the_rest(s: Shell, cmds: Seq<TrayCommand>)
    ensures
        s.all_commanded(cmds).0.has_tray == s.has_tray,
        s.all_commanded(cmds).0.state.config == s.state.config,
    decreases cmds.len(),
{
    if cmds.len() > 0 {
        commands_keep_the_rest(s, cmds.drop_last());
    }
}

/// The beginning of a frame. What it tells the listener to do is what changes of
/// the home screen's hold on the microphone. A window that cannot be seen runs no
/// evaluation and no diagnostics. While the wizard, an evaluation or the
/// diagnostics are there, taps are not acted on; otherwise listening goes on as it
/// was. The profile, the settings and the screen stay.
pub proof fn frames_settle_the_microphone(
    before: Shell,
    system_dark: bool,
    minimized: bool,
    plan: FramePlan,
    after: Shell,
)
    requires
        begun(before, system_dark, minimized, plan, after),
    ensures
        plan.capture is Start <==> !before.capturing && after.capturing,
        plan.capture is Stop <==> before.capturing && !after.capturing,
        plan.wizard <==> before.wizard is Some,
        plan.showing <==> before.window_visible && !minimized,
        before.wizard is None && !plan.showing ==> after.evaluation.run is None
            && after.diagnostics.idle(),
        before.wizard is None && !(before.state.screen is Evaluation)
            ==> after.evaluation.run is None,
        before.wizard is None && !(before.state.screen is Diagnostics) ==> after.diagnostics.idle(),
        before.wizard is None && plan.showing && before.state.screen is Evaluation
            ==> after.evaluation == before.evaluation,
        before.wizard is None && plan.showing && before.state.screen is Diagnostics
            && before.diagnostics.error is None ==> after.diagnostics.capturing,
        before.wizard is None ==> (plan.start_diagnostics <==> !before.diagnostics.capturing
            && after.diagnostics.capturing),
        before.wizard is Some || after.evaluation.run is Some || (plan.showing
            && before.state.screen is Diagnostics) ==> !after.capturing
            && !(after.state.listening is Listening),
        before.wizard is None && after.evaluation.run is None && !(plan.showing
            && before.state.screen is Diagnostics) ==> after.state.listening
            == before.state.listening && (after.capturing <==> after.state.listening is Listening),
        after.state.listening is Error <==> before.state.listening is Error,
        after.state.system_dark == system_dark,
        after.state == (AppState {
            listening: after.state.listening,
            system_dark: after.state.system_dark,
            ..before.state
        }),
        before.wizard matches Some(w) ==> after.wizard == Some(
            Wizard { visible: plan.showing, ..w },
        ),
        before.wizard is None ==> after.wizard is None,
        after.selected_zone == before.selected_zone && after.zone_pulses == before.zone_pulses
            && after.force_quit == before.force_quit,
{
}

/// The end of a frame. The wizard opens and an evaluation begins exactly where
/// that was asked for, the latter only with a profile to evaluate; both requests
/// are then answered, and either takes the microphone from the home screen.
/// Without them listening goes on as it was.
pub proof fn frames_answer_their_requests(before: Shell, now: u64, plan: EndPlan, after: Shell)
    requires
        ended(before, now, plan, after),
    ensures
        plan.wizard_opened <==> before.launch_wizard,
        plan.run_started <==> before.evaluation.pending_start is Some
            && before.state.active_profile is Some,
        !after.launch_wizard && after.evaluation.pending_start is None,
        plan.wizard_opened ==> after.wizard is Some && after.state.listening is Paused
            && !after.capturing,
        plan.run_started ==> after.evaluation.run is Some && after.evaluation.result is None
            && !after.capturing && !(after.state.listening is Listening),
        !plan.wizard_opened ==> after.wizard == before.wizard,
        !plan.run_started ==> after.evaluation.run == before.evaluation.run
            && after.evaluation.result == before.evaluation.result,
        !before.launch_wizard && before.evaluation.pending_start is None ==> after.capturing
            == before.capturing && after.state == before.state,
        plan.run_started ==> (after.evaluation.run matches Some(r) && r.taps_per_zone
            == before.evaluation.pending_start->0 && r.profile_id
            == before.state.active_profile->0.id && r.records@.len() == 0),
        plan.repaint_soon <==> after.zone_pulses@.len() > 0,
        after.zone_pulses@ == before.zone_pulses@.filter(
            |q: ZonePulse| now < q.anim.started_at || now - q.anim.started_at < q.anim.duration,
        ),
        after.evaluation.history == before.evaluation.history && after.evaluation.taps_per_zone
            == before.evaluation.taps_per_zone,
        after.state == (AppState { listening: after.state.listening, ..before.state }),
        after.selected_zone == before.selected_zone && after.live == before.live
            && after.force_quit == before.force_quit && after.window_visible
            == before.window_visible,
{
    if before.zone_pulses@.len() > 0 {
        pulses_come_and_go_alone(before.zone_pulses@, before.zone_pulses@[0], now);
    } else {
        reveal(Seq::filter);
        assert(after.zone_pulses@ =~= before.zone_pulses@.filter(
            |q: ZonePulse| now < q.anim.started_at || now - q.anim.started_at < q.anim.duration,
        ));
    }
}

/// What was asked of a profile and failed.
pub open spec fn failure_of(event: ProfileEvent) -> Option<String> {
    match event {
        ProfileEvent::Exported(Err(e)) => Some(e),
        ProfileEvent::Duplicated(Err(e)) => Some(e),
        ProfileEvent::Renamed(Err(e)) => Some(e),
        ProfileEvent::Imported(Err(e)) => Some(e),
        ProfileEvent::Deleted(Err(e)) => Some(e),
        ProfileEvent::Switched(Err(e)) => Some(e),
        ProfileEvent::Saved(Err(e)) => Some(e),
        _ => None,
    }
}

/// A failure on the profiles screen is shown with its reason and loses nothing:
/// the selection, the name that was typed and the lists stay, and there is nothing
/// to read again. A success that changes the files has the lists read again. The
/// selected zone is dropped exactly where another profile may now be the active
/// one, and no event touches the state itself.
pub proof fn failures_lose_nothing(
    before: Shell,
    event: ProfileEvent,
    refresh: bool,
    after: Shell,
)
    requires
        profile_event_done(before, event, refresh, after),
    ensures
        after.state == before.state && after.profiles == before.profiles && after.importable
            == before.importable,
        after.wizard == before.wizard && after.evaluation == before.evaluation
            && after.capturing == before.capturing && after.live == before.live,
        failure_of(event) matches Some(e) ==> !refresh && (after.save_error matches Some(m)
            && e@.len() <= m@.len() && m@.skip(m@.len() - e@.len()) == e@) && after.selected_zone
            == before.selected_zone && after.duplicate_name == before.duplicate_name
            && after.confirm_delete == before.confirm_delete,
        failure_of(event) is None ==> (refresh <==> !(event is AskDelete || event is CancelDelete
            || event is Saved)),
        failure_of(event) is None && (event is Duplicated || event is Imported || event is Deleted
            || event is Switched) ==> after.selected_zone is None,
        failure_of(event) is None && !(event is Duplicated || event is Imported || event is Deleted
            || event is Switched) ==> after.selected_zone == before.selected_zone,
        failure_of(event) is None && (event is Exported || event is Duplicated || event is Renamed
            || event is Imported || event is Deleted || event is Saved)
            ==> after.save_error is None,
        failure_of(event) is None && (event is Exported || event is Duplicated || event is Renamed
            || event is Imported || event is Deleted) ==> after.io_message is Some,
        event is AskDelete ==> after.confirm_delete == (before.state.active_profile is Some),
        event is CancelDelete ==> !after.confirm_delete,
        !(event is AskDelete || event is CancelDelete) ==> after.confirm_delete
            == before.confirm_delete,
{
    match failure_of(event) {
        Some(e) => {
            let m = after.save_error->0@;
            assert(m.skip(m.len() - e@.len()) =~= e@);
        },
        None => {},
    }
}

/// A change to the selected zone's actions changes these actions alone, as the
/// change says: every other zone, and everything else of the profile and of the
/// application, stays. Without a profile, a selection or a zone of that identity
/// nothing changes.
pub proof fn edits_touch_the_selected_zone_alone(
    before: Shell,
    op: Op,
    changed: bool,
    after: Shell,
    j: int,
)
    requires
        zone_edited(before, op, changed, after),
        before.state.active_profile matches Some(p) && 0 <= j < p.zones@.len(),
    ensures
        after.selected_zone == before.selected_zone && after.state.config == before.state.config
            && after.state.listening == before.state.listening && after.live == before.live,
        before.selected_zone is None ==> !changed && after == before,
        after.state.active_profile matches Some(q) && before.state.active_profile matches Some(p)
            && {
            &&& q.zones@.len() == p.zones@.len()
            &&& q.id == p.id && q.name == p.name && q.classifier == p.classifier
            &&& q.zones@[j].id == p.zones@[j].id && q.zones@[j].label == p.zones@[j].label
                && q.zones@[j].layout == p.zones@[j].layout
            &&& before.selected_zone != Some(p.zones@[j].id) ==> q.zones@[j] == p.zones@[j]
            &&& before.selected_zone == Some(p.zones@[j].id) && (forall|k: int|
                0 <= k < j ==> (#[trigger] p.zones@[k]).id != p.zones@[j].id) ==> (
            views(q.zones@[j].actions@), changed) == chain_edited(
                views(p.zones@[j].actions@),
                op,
            )
        },
        changed ==> after.action_editor.last_test is None,
        !changed ==> after.action_editor == before.action_editor,
{
    let p = before.state.active_profile->0;
    let q = after.state.active_profile->0;
    match before.selected_zone {
        Some(z) => {
            if exists|i: int| first_zone(p.zones@, z, i) {
                let i = choose|i: int| #[trigger]
                    first_zone(p.zones@, z, i) && {
                        &&& q.zones@ == p.zones@.update(i, q.zones@[i])
                        &&& q == (Profile { zones: q.zones, ..p })
                        &&& q.zones@[i] == (Zone { actions: q.zones@[i].actions, ..p.zones@[i] })
                        &&& (views(q.zones@[i].actions@), changed) == chain_edited(
                            views(p.zones@[i].actions@),
                            op,
                        )
                    };
                if j != i {
                    assert(q.zones@[j] == p.zones@[j]);
                }
            } else if p.zones@[j].id == z {
                first_zone_exists(p.zones@, z, j);
            }
        },
        None => {},
    }
}

/// A change of screens fades in over a quarter of a second: it starts from nothing
/// at the change, and once it is over it is not shown again until the next one.
pub proof fn screens_fade_in_once(
    before: Shell,
    now: u64,
    r: Option<u64>,
    after: Shell,
    later: u64,
    s: Option<u64>,
    end: Shell,
)
    requires
        screen_faded(before, now, r, after),
        now <= later,
        screen_faded(after, later, s, end),
    ensures
        r matches Some(t) ==> t < 250_000_000,
        before.state.screen != before.last_screen ==> r == Some(0u64),
        before.state.screen == before.last_screen && before.screen_fade_start is None
            ==> r is None,
        before.state.screen == before.last_screen && before.screen_fade_start is Some
            && before.screen_fade_start->0 <= now ==> (r is Some <==> now
            - before.screen_fade_start->0 < 250_000_000) && (r matches Some(t) ==> t == now
            - before.screen_fade_start->0),
        r is None ==> s is None,
        before.state.screen != before.last_screen ==> (s is Some <==> later - now < 250_000_000)
            && (s matches Some(t) ==> t == later - now),
        after.last_screen == before.state.screen && after.state == before.state,
{
}

/// A change of themes fades from the one to the other over a quarter of a second
/// and then rests on the other; without one the colours are those of the theme in
/// the settings.
pub proof fn themes_fade_into_each_other(before: Shell, now: u64, fade: ThemeFade, after: Shell)
    requires
        theme_faded(before, now, fade, after),
    ensures
        before.state.theme_transition is None ==> fade == ThemeFade::Settled(
            palette(before.state.config.theme, before.state.system_dark),
        ) && after == before,
        before.state.theme_transition matches Some(t) ==> t.started_at <= now ==> match fade {
            ThemeFade::Settled(c) => now - t.started_at >= 250_000_000 && c == palette(
                t.to,
                before.state.system_dark,
            ) && after.state.theme_transition is None,
            ThemeFade::Fading { from, to, elapsed } => now - t.started_at < 250_000_000
                && elapsed == now - t.started_at && from == palette(
                t.from,
                before.state.system_dark,
            ) && to == palette(t.to, before.state.system_dark) && after == before,
        },
        after.state.config == before.state.config && after.state.active_profile
            == before.state.active_profile,
{
}

/// The tiles of the zones fill a grid of two to four columns, with no row too many
/// and none too few.
pub proof fn tiles_fill_their_grid(zones: usize, r: (usize, usize))
    requires
        call_ensures(tile_grid, (zones,), r),
    ensures
        2 <= r.0 <= 4,
        r.0 == 2 <==> zones <= 4,
        r.0 == 4 <==> zones > 6,
        r.0 * r.1 >= zones,
        zones > 0 ==> r.0 * (r.1 - 1) < zones,
{
    let c = r.0 as int;
    let n = zones as int;
    let rows = r.1 as int;
    assert(c * rows >= n && (n > 0 ==> c * (rows - 1) < n)) by (nonlinear_arith)
        requires
            2 <= c <= 4,
            n >= 0,
            rows == (n + c - 1) / c,
    ;
}

/// A warning about the microphone is shown exactly where the one that is heard is
/// known and its name or its sample rate is not the profile's.
pub proof fn other_microphones_are_warned_of(profile: &Profile, live: &LiveStatus, r: Option<String>)
    requires
        call_ensures(mismatch_warning, (profile, live), r),
    ensures
        r is Some <==> live.device is Some && live.sample_rate is Some && !(
        profile.device_fingerprint.device_name@ == live.device->0@
            && profile.device_fingerprint.capability_hash@ == "sr"@ + decimal(
            live.sample_rate->0 as nat,
        )),
{
}

/// A profile that could not be saved leaves the wizard as it is but for the message,
/// which ends with the reason.
pub proof fn unsaved_profiles_keep_the_wizard(
    before: Option<Wizard>,
    name: Seq<char>,
    e: Seq<char>,
    after: Option<Wizard>,
)
    requires
        save_error_noted(before, name, e, after),
    ensures
        after is Some <==> before is Some,
        before is Some ==> after->0 == (Wizard { save_error: after->0.save_error, ..before->0 })
            && (after->0.save_error matches Some(m) && m@.len() >= e.len() + name.len() && m@.skip(
            m@.len() - e.len(),
        ) == e),
{
    if before is Some {
        let m = after->0.save_error->0@;
        assert(m.skip(m.len() - e.len()) =~= e);
    }
}

/// A failure to write, copy, rename or read in a profile takes the last message off
/// the screen; any other failure leaves it.
pub proof fn failures_replace_the_last_message(
    before: Shell,
    event: ProfileEvent,
    refresh: bool,
    after: Shell,
)
    requires
        profile_event_done(before, event, refresh, after),
        failure_of(event) is Some,
    ensures
        event is Exported || event is Duplicated || event is Renamed || event is Imported
            ==> after.io_message is None,
        event is Deleted || event is Switched || event is Saved ==> after.io_message
            == before.io_message,
{
}

/// Nothing was heard at the start.
pub proof fn nothing_is_heard_at_first(l: LiveStatus)
    requires
        call_ensures(LiveStatus::new, (), l),
    ensures
        l.device is None && l.sample_rate is None && l.error is None,
        l.taps == 0 && l.rejects == 0,
        l.rms.bits == 0 && l.peak.bits == 0 && l.peak_hold.bits == 0,
{
}

/// The zones are read out in order, each by its label and its number of actions,
/// with commas between them.
pub proof fn zones_are_read_out_in_order(zones: Seq<Zone>, z: Zone)
    ensures
        zones_text(Seq::empty()).len() == 0,
        zones.len() == 0 ==> zones_text(zones.push(z)) == z.label@ + ": "@ + decimal(
            z.actions@.len(),
        ) + if z.actions@.len() == 1 {
            " action"@
        } else {
            " actions"@
        },
        zones.len() > 0 ==> zones_text(zones.push(z)) == zones_text(zones) + ", "@ + zones_text(
            seq![z],
        ),
{
    assert(zones.push(z).drop_last() =~= zones);
    assert(zones.push(z).last() == z);
    let one = seq![z];
    assert(one.last() == z);
    assert(zones_text(one) == z.label@ + ": "@ + action_count(z.actions@.len()));
    if zones.len() == 0 {
        let n = action_count(z.actions@.len());
        let tail = if z.actions@.len() == 1 {
            " action"@
        } else {
            " actions"@
        };
        assert(z.label@ + ": "@ + (decimal(z.actions@.len()) + tail) =~= z.label@ + ": "@ + decimal(
            z.actions@.len(),
        ) + tail);
    }
}

/// On the home screen a tap lights up one zone from now on, after the pulses of the
/// other zones, which stay. Where the tap runs actions, they are those of the zone
/// that lights up.
pub proof fn taps_run_the_zone_that_lights_up<
    E: Fn(&[Single]) -> FeatureVector,
    D: Fn(&ClassifierParams, &FeatureVector) -> Distances,
>(
    before: Shell,
    event: CaptureEvent,
    held: Single,
    extract: E,
    measure: D,
    now: u64,
    fire: Option<usize>,
    after: Shell,
    p: Profile,
)
    requires
        told(before, event, held, extract, measure, now, fire, after),
        measures_any(measure),
        before.state.active_profile == Some(p),
        p.classifier@.well_formed(),
        p.classifier@.zone_ids.len() > 0,
        before.state.screen is Home,
        event matches CaptureEvent::Onset { window, is_transient, .. } && is_transient
            && window@.len() == 4096,
    ensures
        after.zone_pulses@.len() > 0,
        after.zone_pulses@.last().anim.started_at == now,
        after.zone_pulses@.drop_last() == before.zone_pulses@.filter(
            |q: ZonePulse| q.zone != after.zone_pulses@.last().zone,
        ),
        fire matches Some(i) ==> i < p.zones@.len() && p.zones@[i as int].id
            == after.zone_pulses@.last().zone && after.zone_pulses@.last().accepted,
{
    let window = event->Onset_window@;
    let (pulse, c) = choose|pulse: Option<ZonePulse>, c: Classification|
        #[trigger] judged(p, window, extract, measure, now, pulse, c) && runs(
            p,
            before.live,
            c,
            fire,
        ) && match pulse {
            Some(z) => after.zone_pulses@ == with_pulse(before.zone_pulses@, z),
            _ => true,
        };
    taps_light_up_the_nearest_zone(p, window, extract, measure, now, pulse, c);
    let z = pulse->0;
    pulses_come_and_go_alone(before.zone_pulses@, z, now);
    let others = before.zone_pulses@.filter(|q: ZonePulse| q.zone != z.zone);
    assert(after.zone_pulses@ == others.push(z));
    assert(others.push(z).drop_last() =~= others);
    assert(before.zone_pulses@.filter(|q: ZonePulse| q.zone != after.zone_pulses@.last().zone)
        =~= others);
}

} // verus!
