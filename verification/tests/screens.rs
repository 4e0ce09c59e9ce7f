//! What the user sees and does: actions, screens, the tray and the window.

use std::cell::RefCell;

use qwerty::app_state::{AppState, ListeningState, ProfileSummary, Screen};
use qwerty::audio::{
    buffer_capacity, capture_taps, choose_input_config, gain_indicates_low_signal, input_warnings,
    monitor_edge, resolve_device, zone_number, CaptureError, ConfigRange, DeviceChoice, LiveError,
};
use qwerty::calibration::{EnvironmentQuality, TapFeedback, ZoneAccuracy};
use qwerty::capture_worker::{envelope, CaptureDetail, CaptureEvent, Worker, RECENT_SPAN};
use qwerty::classifier::{ClassifierError, ClassifierParams, Distances, Fit, StdExample};
use qwerty::features::{FeatureVector, FEATURE_WINDOW_SAMPLES};
use qwerty::hotkeys::{HotkeyEvent, Hotkeys};
use qwerty::ids::{ProfileId, ZoneId};
use qwerty::onset::OnsetEvent;
use qwerty::platform::keys::{
    keystroke_events, modifier_vk, partial_injection, release_events, vk_of, KeyEvent,
};
use qwerty::platform::region_select::{
    lparam_xy, normalize_selection, rgb, DragEvent, DragReaction, DragState,
};
use qwerty::platform::screen::{bgrx_to_rgba, capture_area, captured};
use qwerty::platform::{
    dispatch, dispatch_chain, launch_result, os_prefers_reduced_motion, shell_result, ActionError,
    Launch, PlatformActions, ToastSpec,
};
use qwerty::profile::{
    ActionSpec, Config, DeviceFingerprint, KeyCombo, Modifier, Profile, ScreenshotMode,
    SensingMode, SystemSound, Theme, Timestamp, Zone, ZoneLayout, PROFILE_SCHEMA_VERSION,
};
use qwerty::single::Single;
use qwerty::tray::{tooltip, Click, Tray, TrayCommand, TrayError};
use qwerty::ui::action_editor::{
    label_of, text_fields, ActionEditor, FieldEdit, Kind, Op, TextField,
};
use qwerty::ui::diagnostics::{
    draw_feature_space, mode_available, mode_name, sensing_mode_text, DiagnosticsScreen,
};
use qwerty::ui::evaluation::{
    grade, latency_ok, meets_target, verdict, EvalRun, EvaluationScreen, EvaluationView, Grade,
};
use qwerty::ui::icon::{
    assemble, decode_icon, downscale_rgba, tray_base, tray_rgba, Picture, CHANNEL_BITS, RGBA, TRAY,
};
use qwerty::ui::motion::{AnimState, SpringPreset, DELIBERATE, INSTANT, QUICK, STANDARD};
use qwerty::ui::shell::{
    listen_button, mismatch_warning, profile_switcher, read_system_dark, status_glyph,
    switcher_shown, theme_name, tile_caption, tile_grid, unbound_warning, zone_tiles, CaptureStep,
    LiveStatus, ProfileEvent, Shell, ThemeFade, WindowCommand, THEME_CHOICES,
};
use qwerty::ui::style::{radius, space, text};
use qwerty::ui::theme::{contrast_verdict, is_dark, tokens_for, Color, CONCRETE_THEMES};
use qwerty::ui::wizard::{
    auto_cells, default_labels, environment_label, pip, resize_labels, step_mark, Cell, Pip, Step,
    StepMark, Wizard, WizardOutcome, STEP_ORDER, ZONE_COUNTS,
};

fn single(x: f32) -> Single {
    Single::from_bits(x.to_bits())
}

fn float(s: Single) -> f32 {
    f32::from_bits(s.to_bits())
}

fn singles(xs: &[f32]) -> Vec<Single> {
    xs.iter().map(|x| single(*x)).collect()
}

fn zone(n: u128) -> ZoneId {
    ZoneId::from_uuid(n)
}

// --- carrying out actions -----------------------------------------------------------

/// Records the calls dispatched to it; every method can be made to fail.
struct MockPlatform {
    calls: RefCell<Vec<String>>,
    fail_on: Option<&'static str>,
}

impl MockPlatform {
    fn new() -> Self {
        Self { calls: RefCell::new(Vec::new()), fail_on: None }
    }
    fn failing(method: &'static str) -> Self {
        Self { calls: RefCell::new(Vec::new()), fail_on: Some(method) }
    }
    fn record(&self, m: &'static str) -> Result<(), ActionError> {
        self.calls.borrow_mut().push(m.to_string());
        if self.fail_on == Some(m) {
            Err(ActionError::LaunchFailed { target: m.into(), reason: "mock".into() })
        } else {
            Ok(())
        }
    }
}

impl PlatformActions for MockPlatform {
    fn open_uri(&mut self, _: &str) -> Result<(), ActionError> {
        self.record("open_uri")
    }
    fn open_path(&mut self, _: &str) -> Result<(), ActionError> {
        self.record("open_path")
    }
    fn run_command(&mut self, _: &str, _: &Vec<String>) -> Result<(), ActionError> {
        self.record("run_command")
    }
    fn copy_to_clipboard(&mut self, _: &str) -> Result<(), ActionError> {
        self.record("copy_to_clipboard")
    }
    fn speak(&mut self, _: &str) -> Result<(), ActionError> {
        self.record("speak")
    }
    fn send_keystroke(&mut self, _: &KeyCombo) -> Result<(), ActionError> {
        self.record("send_keystroke")
    }
    fn play_sound(&mut self, _: SystemSound) -> Result<(), ActionError> {
        self.record("play_sound")
    }
    fn screenshot_to_clipboard(&mut self, _: ScreenshotMode) -> Result<(), ActionError> {
        self.record("screenshot_to_clipboard")
    }
    fn notify(&mut self, _: &ToastSpec) -> Result<(), ActionError> {
        self.record("notify")
    }
}

#[test]
fn each_action_routes_to_the_right_call() {
    let cases: Vec<(ActionSpec, &str)> = vec![
        (ActionSpec::OpenApp { path: "a".into() }, "open_path"),
        (ActionSpec::OpenPath { path: "a".into() }, "open_path"),
        (ActionSpec::OpenUrl { url: "u".into() }, "open_uri"),
        (ActionSpec::RunCommand { command: "c".into(), args: vec![] }, "run_command"),
        (ActionSpec::CopyToClipboard { text: "t".into() }, "copy_to_clipboard"),
        (ActionSpec::Speak { text: "t".into() }, "speak"),
        (ActionSpec::PlaySound { sound: SystemSound::Success }, "play_sound"),
        (ActionSpec::ShowToast { title: "t".into(), body: "b".into() }, "notify"),
        (ActionSpec::Screenshot { mode: ScreenshotMode::FullScreen }, "screenshot_to_clipboard"),
        (
            ActionSpec::SendKeystroke { combo: KeyCombo { modifiers: vec![], key: "q".into() } },
            "send_keystroke",
        ),
    ];
    for (spec, expected) in cases {
        let mut mock = MockPlatform::new();
        dispatch(&spec, &mut mock).unwrap();
        assert_eq!(mock.calls.borrow().as_slice(), &[expected.to_string()]);
    }
}

#[test]
fn visual_only_is_a_no_op() {
    let mut mock = MockPlatform::new();
    dispatch(&ActionSpec::VisualOnly, &mut mock).unwrap();
    assert!(mock.calls.borrow().is_empty());
}

#[test]
fn chain_runs_in_order_and_stops_at_first_failure() {
    let mut mock = MockPlatform::failing("speak");
    let chain = vec![
        ActionSpec::CopyToClipboard { text: "t".into() },
        ActionSpec::Speak { text: "t".into() }, // fails here (index 1)
        ActionSpec::OpenUrl { url: "u".into() }, // must not run
    ];
    let err = dispatch_chain(&chain, &mut mock).unwrap_err();
    assert_eq!(err.0, 1);
    assert_eq!(
        mock.calls.borrow().as_slice(),
        &["copy_to_clipboard".to_string(), "speak".to_string()]
    );
    assert!(dispatch_chain(&chain, &mut MockPlatform::new()).is_ok());
}

#[test]
fn a_joined_chain_is_the_two_chains_one_after_the_other() {
    let a = vec![
        ActionSpec::CopyToClipboard { text: "t".into() },
        ActionSpec::VisualOnly,
        ActionSpec::PlaySound { sound: SystemSound::Success },
    ];
    let b = vec![ActionSpec::OpenUrl { url: "u".into() }, ActionSpec::Speak { text: "t".into() }];
    let both: Vec<ActionSpec> = a.iter().chain(&b).cloned().collect();
    for broken in ["nothing", "copy_to_clipboard", "play_sound", "open_uri", "speak"] {
        let mut once = MockPlatform::failing(broken);
        let whole = dispatch_chain(&both, &mut once);
        let mut twice = MockPlatform::failing(broken);
        let parts = match dispatch_chain(&a, &mut twice) {
            Ok(()) => dispatch_chain(&b, &mut twice).map_err(|(j, e)| (a.len() + j, e)),
            stopped => stopped,
        };
        let text = |r: Result<(), (usize, ActionError)>| r.map_err(|(n, e)| (n, e.describe()));
        assert_eq!(text(whole), text(parts));
        assert_eq!(once.calls.borrow().as_slice(), twice.calls.borrow().as_slice());
    }
    let mut mock = MockPlatform::new();
    assert!(dispatch_chain(&[], &mut mock).is_ok());
    assert!(mock.calls.borrow().is_empty());
}

#[test]
fn action_errors_are_worded() {
    let text = |e: ActionError| e.describe();
    assert_eq!(text(ActionError::TargetNotFound("x".into())), "could not find \"x\"");
    assert_eq!(
        text(ActionError::LaunchFailed { target: "x".into(), reason: "no".into() }),
        "could not launch \"x\": no"
    );
    assert_eq!(text(ActionError::Clipboard("e".into())), "clipboard error: e");
    assert_eq!(text(ActionError::Speech("e".into())), "text-to-speech error: e");
    assert_eq!(text(ActionError::Keystroke("e".into())), "keystroke error: e");
    assert_eq!(text(ActionError::Screenshot("e".into())), "screenshot error: e");
    assert_eq!(text(ActionError::Notification("e".into())), "notification error: e");
    assert_eq!(text(ActionError::Sound("e".into())), "sound error: e");
    assert_eq!(text(ActionError::Unsupported("x")), "not supported on this build: x");
}

#[test]
fn shell_codes_are_understood() {
    assert!(shell_result("t", 33).is_ok());
    assert!(matches!(shell_result("t", 2), Err(ActionError::TargetNotFound(t)) if t == "t"));
    assert!(matches!(shell_result("t", 3), Err(ActionError::TargetNotFound(_))));
    for (code, text) in [(32, "32"), (0, "0"), (-7, "-7"), (i64::MIN, "-9223372036854775808")] {
        match shell_result("t", code) {
            Err(ActionError::LaunchFailed { target, reason }) => {
                assert_eq!(target, "t");
                assert_eq!(reason, format!("shell refused to open target (SE_ERR {text})"));
            }
            other => panic!("{other:?}"),
        }
    }
    assert!(launch_result("c", Launch::Started).is_ok());
    assert!(matches!(launch_result("c", Launch::NotFound), Err(ActionError::TargetNotFound(c)) if c == "c"));
    assert!(matches!(
        launch_result("c", Launch::Failed("denied".into())),
        Err(ActionError::LaunchFailed { reason, .. }) if reason == "denied"
    ));
}

#[test]
fn key_names_are_understood() {
    let ok = |name: &str| vk_of(name).unwrap();
    assert_eq!(ok("q"), (0x51, false));
    assert_eq!(ok(" Q "), (0x51, false));
    assert_eq!(ok("7"), (0x37, false));
    assert_eq!(ok("F1"), (0x70, false));
    assert_eq!(ok("f12"), (0x7B, false));
    assert_eq!(ok("f+5"), (0x74, false));
    assert_eq!(ok("SpaceBar"), (0x20, false));
    assert_eq!(ok("return"), (0x0D, false));
    assert_eq!(ok("TAB"), (0x09, false));
    assert_eq!(ok("Escape"), (0x1B, false));
    assert_eq!((ok("left"), ok("up")), ((0x25, true), (0x26, true)));
    assert_eq!((ok("right"), ok("down")), ((0x27, true), (0x28, true)));
    for bad in ["F13", "F0", "ü", "", "?"] {
        assert!(vk_of(bad).is_err(), "{bad}");
    }
    assert_eq!(
        vk_of(" PageUp ").unwrap_err().describe(),
        "keystroke error: unrecognized key \"pageup\""
    );
}

#[test]
fn combinations_press_and_release_in_mirror_order() {
    let combo = KeyCombo { modifiers: vec![Modifier::Ctrl, Modifier::Shift], key: "left".into() };
    let events = keystroke_events(&combo).unwrap();
    let e = |vk: u16, extended: bool, press: bool| KeyEvent { vk, extended, press };
    assert_eq!(
        events,
        vec![
            e(0x11, false, true),
            e(0x10, false, true),
            e(0x25, true, true),
            e(0x25, true, false),
            e(0x10, false, false),
            e(0x11, false, false),
        ]
    );
    assert_eq!(
        release_events(&combo).unwrap(),
        vec![e(0x25, true, false), e(0x11, false, false), e(0x10, false, false)]
    );
    assert_eq!((modifier_vk(Modifier::Alt), modifier_vk(Modifier::Win)), (0x12, 0x5B));
    let flags: Vec<u32> = events.iter().map(|e| e.flags()).collect();
    assert_eq!(flags, [0, 0, 1, 3, 2, 2]);
    assert!(keystroke_events(&KeyCombo { modifiers: vec![], key: "nope".into() }).is_err());
    assert!(partial_injection(6, 6, 5).is_ok());
    assert_eq!(
        partial_injection(2, 6, 0x1f).unwrap_err().describe(),
        "keystroke error: SendInput injected 2/6 (GetLastError 0x1f)"
    );
}

// --- selecting a region ---------------------------------------------------------------

const CLIP: (i32, i32, i32, i32) = (0, 0, 1920, 1080);

#[test]
fn orders_corners_into_top_left_origin_rect() {
    let a = normalize_selection((100, 200), (400, 500), CLIP);
    let b = normalize_selection((400, 500), (100, 200), CLIP);
    assert_eq!(a, Some((100, 200, 300, 300)));
    assert_eq!(a, b);
}

#[test]
fn a_click_without_a_drag_is_rejected() {
    assert_eq!(normalize_selection((300, 300), (300, 300), CLIP), None);
}

#[test]
fn clamps_to_the_virtual_screen() {
    let r = normalize_selection((-50, -80), (5000, 5000), CLIP);
    assert_eq!(r, Some((0, 0, 1920, 1080)));
}

#[test]
fn honours_a_non_zero_virtual_origin() {
    let clip = (-1920, 0, 3840, 1080);
    let r = normalize_selection((-1900, 100), (-1500, 400), clip);
    assert_eq!(r, Some((-1900, 100, 400, 300)));
}

#[test]
fn a_selection_fully_outside_the_clip_has_no_area() {
    assert_eq!(normalize_selection((3000, 100), (4000, 400), CLIP), None);
}

#[test]
fn corners_at_the_limits_do_not_overflow() {
    assert_eq!(normalize_selection((i32::MIN, i32::MIN), (i32::MIN, i32::MIN), CLIP), None);
    assert_eq!(
        normalize_selection((i32::MIN, i32::MIN), (i32::MAX, i32::MAX), (5, 6, i32::MAX, 2)),
        Some((5, 6, i32::MAX - 5, 2))
    );
}

#[test]
fn a_drag_selects_what_it_spans() {
    let screen = (-100, 0, 1000, 800);
    let mut d = DragState::new();
    assert_eq!(d.outline(), None);
    assert_eq!(
        d.handle(DragEvent::Move(5, 5)),
        DragReaction { capture: None, redraw: false, close: false }
    );
    assert!(d.handle(DragEvent::LeftDown(50, 60)).redraw);
    assert!(d.handle(DragEvent::Move(10, 90)).redraw);
    assert_eq!(d.outline(), Some((10, 60, 50, 90)));
    assert_eq!(d.selection(screen), None);
    assert!(d.handle(DragEvent::LeftUp(20, 100)).close);
    assert_eq!(d.selection(screen), Some((-80, 60, 30, 40)));
    // Turning away afterwards still selects nothing.
    assert!(d.handle(DragEvent::Escape).close);
    assert_eq!(d.selection(screen), None);

    let mut d = DragState::new();
    d.handle(DragEvent::LeftUp(20, 100));
    assert_eq!(d.selection(screen), None);
    assert_eq!(capture_area(ScreenshotMode::FullScreen, screen, &d).unwrap(), Some(screen));
    assert_eq!(capture_area(ScreenshotMode::RegionSelect, screen, &d).unwrap(), None);
    assert!(capture_area(ScreenshotMode::FullScreen, (0, 0, 0, 5), &d).is_err());
    assert!(captured(true, 5, 5).is_ok() && captured(true, 4, 5).is_err());
    assert!(captured(false, 5, 5).is_err());
}

#[test]
fn packed_values_are_taken_apart() {
    assert_eq!(lparam_xy(0x0002_0001), (1, 2));
    assert_eq!(lparam_xy(0xffff_ffff_fffe_ffff), (-1, -2));
    assert_eq!(lparam_xy(0x7fff_8000), (-32768, 32767));
    assert_eq!(rgb(230, 190, 90), 230 | (190 << 8) | (90 << 16));
    let mut px = vec![1, 2, 3, 0, 10, 20, 30, 40, 7];
    bgrx_to_rgba(&mut px);
    assert_eq!(px, [3, 2, 1, 255, 30, 20, 10, 255, 7]);
}

// --- the icon ---------------------------------------------------------------------------

fn png_of(width: u32, height: u32, color: png::ColorType, data: &[u8]) -> Vec<u8> {
    let mut bytes = Vec::new();
    let mut encoder = png::Encoder::new(&mut bytes, width, height);
    encoder.set_color(color);
    encoder.set_depth(png::BitDepth::Eight);
    let mut writer = encoder.write_header().unwrap();
    writer.write_image_data(data).unwrap();
    writer.finish().unwrap();
    bytes
}

/// A keycap-sized picture with a gradient.
fn keycap() -> Vec<u8> {
    let mut data = Vec::new();
    for y in 0..360u32 {
        for x in 0..360u32 {
            data.extend([(x / 2) as u8, (y / 2) as u8, 77, 255]);
        }
    }
    png_of(360, 360, png::ColorType::Rgba, &data)
}

fn base() -> Vec<u8> {
    tray_base(&decode_icon(&keycap()).unwrap())
}

#[test]
fn bundled_icon_decodes_to_rgba() {
    let Picture { rgba, width: w, height: h } = decode_icon(&keycap()).unwrap();
    assert!(w > 0 && h > 0);
    assert_eq!(rgba.len(), (w * h * 4) as usize);
    assert_eq!(&rgba[4 * (360 * 10 + 20)..4 * (360 * 10 + 21)], &[10, 5, 77, 255]);
}

#[test]
fn pictures_of_another_shape_are_refused() {
    assert!(decode_icon(b"not a picture").is_none());
    assert!(decode_icon(&png_of(2, 1, png::ColorType::Rgb, &[1, 2, 3, 4, 5, 6])).is_none());
    let mut broken = keycap();
    broken.truncate(200);
    assert!(decode_icon(&broken).is_none());
    let pixel = || Some(vec![1, 2, 3, 4]);
    assert_eq!(assemble(Some((1, 1, RGBA, CHANNEL_BITS)), pixel()).unwrap().rgba, [1, 2, 3, 4]);
    assert!(assemble(Some((1, 1, 2, CHANNEL_BITS)), pixel()).is_none());
    assert!(assemble(Some((1, 1, RGBA, 16)), pixel()).is_none());
    assert!(assemble(Some((1, 2, RGBA, CHANNEL_BITS)), pixel()).is_none());
    assert!(assemble(Some((1, 1, RGBA, CHANNEL_BITS)), None).is_none());
}

#[test]
fn tray_icon_is_correct_size_for_each_state() {
    for state in [ListeningState::Listening, ListeningState::Paused, ListeningState::Error] {
        let (rgba, w, h) = tray_rgba(state, &base());
        assert_eq!((w, h), (TRAY, TRAY));
        assert_eq!(rgba.len(), (TRAY * TRAY * 4) as usize);
    }
}

#[test]
fn status_dot_paints_its_state_color_at_its_center() {
    let (rgba, w, _h) = tray_rgba(ListeningState::Listening, &base());
    let (cx, cy) = (w - 8, w - 8); // radius 7 + 1px inset from the edge
    let i = ((cy * w + cx) * 4) as usize;
    assert_eq!(
        (rgba[i], rgba[i + 1], rgba[i + 2]),
        (0x35, 0xC4, 0x6B),
        "status dot center should be the listening color",
    );
}

#[test]
fn the_dot_has_an_outline_and_leaves_the_rest() {
    let b = base();
    let (rgba, w, _) = tray_rgba(ListeningState::Error, &b);
    let at = |x: u32, y: u32| {
        let i = ((y * w + x) * 4) as usize;
        (rgba[i], rgba[i + 1], rgba[i + 2], rgba[i + 3])
    };
    assert_eq!(at(24 + 7, 24), (0xF0, 0x6A, 0x6A, 255));
    assert_eq!(at(24 - 8, 24), (20, 24, 28, 255));
    assert_eq!(at(24 - 8, 24 + 2), (20, 24, 28, 255)); // 68
    assert_eq!(&rgba[..4], &b[..4]);
    let i = ((26 * w + 15) * 4) as usize;
    assert_eq!(&rgba[i..i + 4], &b[i..i + 4]); // outside
}

#[test]
fn scaling_averages_what_lies_under_a_pixel() {
    // 2x2 to 1x1, and up again.
    let src = [10, 0, 0, 255, 20, 0, 0, 255, 30, 0, 0, 255, 43, 0, 0, 255];
    assert_eq!(downscale_rgba(&src, 2, 2, 1, 1), vec![25, 0, 0, 255]);
    assert_eq!(downscale_rgba(&[9, 8, 7, 6], 1, 1, 2, 1), vec![9, 8, 7, 6, 9, 8, 7, 6]);
    let plain: Vec<u8> = (0..360 * 360).flat_map(|_| [1u8, 2, 3, 4]).collect();
    assert!(downscale_rgba(&plain, 360, 360, 32, 32).chunks(4).all(|p| p == [1, 2, 3, 4]));
}

// --- motion, style, themes ----------------------------------------------------------------

#[test]
fn anim_state_starts_near_zero_incomplete_and_bounded() {
    let a = AnimState::start(STANDARD, 1_000);
    let (n, d) = a.linear_at(1_000);
    assert_eq!(n, 0);
    assert!(!a.is_complete(1_000));
    for now in [0, 1_000, 1_000 + STANDARD / 2, 1_000 + STANDARD, u64::MAX] {
        let (n, d2) = a.linear_at(now);
        assert!(n <= d2 && d2 == d);
    }
    assert!(a.is_complete(1_000 + STANDARD));
    assert!(!a.is_complete(1_000 + STANDARD - 1));
}

#[test]
fn anim_state_zero_duration_is_immediately_complete() {
    let a = AnimState::start(0, 5);
    assert!(a.is_complete(5));
    assert_eq!(a.linear_at(5), (1, 1));
}

#[test]
fn start_delayed_reads_zero_before_it_begins() {
    let a = AnimState::start_delayed(QUICK, 1_000_000);
    assert_eq!(a.linear_at(10).0, 0);
    assert!(!a.is_complete_at(10));
    assert!(a.is_complete_at(1_000_000 + QUICK));
    let at_once = AnimState::start_delayed(0, 1_000_000);
    assert!(!at_once.is_complete_at(999_999));
    assert_eq!(at_once.linear_at(999_999).0, 0);
    assert!(at_once.is_complete_at(1_000_000));
    assert_eq!(at_once.linear_at(1_000_000), (1, 1));
}

#[test]
fn durations_and_springs_have_their_values() {
    assert_eq!((INSTANT, QUICK), (100_000_000, 180_000_000));
    assert_eq!((STANDARD, DELIBERATE), (250_000_000, 400_000_000));
    assert_eq!(SpringPreset::Stiff.constants(), (320, 32));
    assert_eq!(SpringPreset::Smooth.constants(), (210, 20));
    assert_eq!(SpringPreset::Bouncy.constants(), (180, 12));
}

#[test]
fn spacing_scale_is_strictly_increasing() {
    let steps = [
        space::XXS,
        space::XS,
        space::SM,
        space::MD,
        space::LG,
        space::XL,
        space::XXL,
    ];
    for w in steps.windows(2) {
        assert!(w[1] > w[0], "spacing scale not increasing: {} !> {}", w[1], w[0]);
    }
}

#[test]
fn type_scale_is_strictly_decreasing_from_display_to_caption() {
    let sizes = [
        text::DISPLAY,
        text::TITLE,
        text::HEADING,
        text::SECTION,
        text::BODY,
        text::CAPTION,
    ];
    for w in sizes.windows(2) {
        assert!(w[1] < w[0], "type scale not decreasing: {} !< {}", w[1], w[0]);
    }
}

#[test]
fn radius_scale_is_strictly_increasing() {
    let steps = [radius::XS, radius::SM, radius::MD, radius::LG];
    for w in steps.windows(2) {
        assert!(w[1] > w[0], "radius scale not increasing: {} !> {}", w[1], w[0]);
    }
}

#[test]
fn system_theme_follows_os_preference() {
    assert_eq!(
        tokens_for(Theme::System, true).bg_base,
        tokens_for(Theme::Midnight, false).bg_base
    );
    assert_eq!(
        tokens_for(Theme::System, false).bg_base,
        tokens_for(Theme::Daylight, false).bg_base
    );
}

fn luminance(c: Color) -> f32 {
    let lin = |c: u8| {
        let c = c as f32 / 255.0;
        if c <= 0.039_28 {
            c / 12.92
        } else {
            ((c + 0.055) / 1.055).powf(2.4)
        }
    };
    0.2126 * lin(c.r) + 0.7152 * lin(c.g) + 0.0722 * lin(c.b)
}

fn contrast_ratio(a: Color, b: Color) -> f32 {
    let (la, lb) = (luminance(a), luminance(b));
    let (hi, lo) = if la >= lb { (la, lb) } else { (lb, la) };
    (hi + 0.05) / (lo + 0.05)
}

#[test]
fn every_theme_primary_text_meets_wcag_aa() {
    for theme in CONCRETE_THEMES {
        let t = tokens_for(theme, false);
        let c = contrast_ratio(t.text_primary, t.bg_base);
        assert!(c >= 4.5, "{theme:?} primary text contrast {c:.2} < 4.5 (AA)");
    }
}

#[test]
fn high_contrast_theme_meets_wcag_aaa() {
    let t = tokens_for(Theme::HighContrast, false);
    let c = contrast_ratio(t.text_primary, t.bg_base);
    assert!(c >= 7.0, "High Contrast text contrast {c:.2} < 7.0 (AAA)");
}

#[test]
fn secondary_text_is_at_least_large_text_aa() {
    for theme in CONCRETE_THEMES {
        let t = tokens_for(theme, false);
        let c = contrast_ratio(t.text_secondary, t.bg_base);
        assert!(c >= 3.0, "{theme:?} secondary text contrast {c:.2} < 3.0");
    }
}

#[test]
fn contrasts_are_judged() {
    assert_eq!(contrast_verdict(single(7.0)), "AA + AAA");
    assert_eq!(contrast_verdict(single(6.9)), "AA");
    assert_eq!(contrast_verdict(single(4.5)), "AA");
    assert_eq!(contrast_verdict(single(4.4)), "FAILS AA");
}

#[test]
fn colors_are_written_in_hex() {
    assert_eq!(Color::rgb(0x2D, 0x6C, 0xDF).hex(), "#2D6CDF");
    assert_eq!(Color::rgb(0, 10, 255).hex(), "#000AFF");
    assert_eq!(tokens_for(Theme::Aurora, true).accent.hex(), "#45C4B4");
    assert!(is_dark(tokens_for(Theme::Midnight, true).bg_base));
    assert!(!is_dark(tokens_for(Theme::Daylight, true).bg_base));
    assert!(is_dark(Color::rgb(128, 128, 127)) && !is_dark(Color::rgb(128, 128, 128)));
    assert!(read_system_dark(None) && read_system_dark(Some(false)) && !read_system_dark(Some(true)));
    let names: Vec<&str> = THEME_CHOICES.iter().map(|t| theme_name(*t)).collect();
    assert_eq!(names, ["System", "Daylight", "Midnight", "Aurora", "High contrast"]);
}

// --- the tray and the key -------------------------------------------------------------------

#[test]
fn the_tray_asks_for_what_was_chosen() {
    let mut tray = Tray {
        toggle_id: "1".into(),
        open_id: "2".into(),
        quit_id: "3".into(),
        state: ListeningState::Paused,
    };
    let menu: Vec<String> = ["3", "9", "1", "2"].iter().map(|s| s.to_string()).collect();
    let clicks = [
        Click { left: true, up: false },
        Click { left: true, up: true },
        Click { left: false, up: true },
    ];
    assert_eq!(
        tray.poll(&menu, &clicks),
        vec![
            TrayCommand::Quit,
            TrayCommand::ToggleListening,
            TrayCommand::OpenWindow,
            TrayCommand::OpenWindow
        ]
    );
    assert!(tray.set_state(ListeningState::Error));
    assert!(!tray.set_state(ListeningState::Error));
    assert_eq!(tooltip(ListeningState::Listening), "Qwerty — Listening");
}

#[test]
fn the_key_counts_presses_only() {
    let h = Hotkeys { toggle_id: 4 };
    let e = |id: u32, pressed: bool| HotkeyEvent { id, pressed };
    assert!(h.poll_toggle(&[e(4, false), e(4, true), e(4, true)]));
    assert!(!h.poll_toggle(&[e(4, false), e(5, true)]));
    assert!(!h.poll_toggle(&[]));
    assert_eq!(Hotkeys::DEFAULT_LABEL, "Ctrl+Alt+Space");
}

// --- devices and the listener -----------------------------------------------------------------

#[test]
fn devices_are_found_by_position_or_name() {
    let names: Vec<Option<String>> =
        vec![Some("Realtek Audio".into()), None, Some("USB Mikrofon ÄÖ".into())];
    assert_eq!(resolve_device(None, &names).unwrap(), DeviceChoice::Default);
    assert_eq!(resolve_device(Some("2"), &names).unwrap(), DeviceChoice::Listed(2));
    assert_eq!(resolve_device(Some("usb MIK"), &names).unwrap(), DeviceChoice::Listed(2));
    assert_eq!(resolve_device(Some("äö"), &names).unwrap(), DeviceChoice::Listed(2));
    assert_eq!(resolve_device(Some(""), &names).unwrap(), DeviceChoice::Listed(0));
    for sel in ["3", "webcam"] {
        assert_eq!(
            resolve_device(Some(sel), &names).unwrap_err().describe(),
            format!("no input device matched \"{sel}\"")
        );
    }
}

#[test]
fn the_best_format_is_chosen() {
    let r = |min_rate: u32, max_rate: u32, is_f32: bool| ConfigRange { min_rate, max_rate, is_f32 };
    assert_eq!(choose_input_config(&[]), None);
    assert_eq!(choose_input_config(&[r(48_000, 96_000, true)]), None);
    assert_eq!(choose_input_config(&[r(8_000, 44_100, false), r(1, 48_000, false)]), Some(0));
    assert_eq!(
        choose_input_config(&[
            r(8_000, 44_100, false),
            r(48_000, 96_000, true),
            r(44_100, 44_100, true),
            r(1, 99_999, true)
        ]),
        Some(2)
    );
    assert_eq!((buffer_capacity(8_000), buffer_capacity(48_000)), (16_384, 48_000));
    assert_eq!((monitor_edge(0), monitor_edge(100), monitor_edge(4096)), (1, 25, 661));
}

#[test]
fn low_signal_gate_trips_only_when_boost_is_heavy() {
    assert!(!gain_indicates_low_signal(single(1.0)));
    assert!(!gain_indicates_low_signal(single(32.0 - 0.1)));
    assert!(gain_indicates_low_signal(single(32.0)));
    assert!(gain_indicates_low_signal(single(64.0)));
}

#[test]
fn the_state_of_the_input_is_warned_of() {
    assert!(input_warnings(single(31.0), 0).is_empty());
    assert_eq!(input_warnings(single(40.0), 0), vec!["Low mic signal."]);
    assert_eq!(
        input_warnings(single(40.0), 3),
        vec!["Low mic signal.", "Audio samples dropped."]
    );
    assert_eq!(input_warnings(single(f32::NAN), 1), vec!["Audio samples dropped."]);
}

#[test]
fn capture_errors_are_worded() {
    let text = |e: CaptureError| e.describe();
    assert_eq!(text(CaptureError::NoInputDevice), "no audio input device is available");
    assert_eq!(text(CaptureError::Enumerate("x".into())), "could not enumerate input devices: x");
    assert_eq!(text(CaptureError::DeviceName("x".into())), "could not read a device name: x");
    assert_eq!(text(CaptureError::DefaultConfig("x".into())), "no default input config: x");
    assert_eq!(text(CaptureError::UnsupportedFormat("I64".into())), "unsupported sample format: I64");
    assert_eq!(text(CaptureError::BuildStream("x".into())), "could not build the input stream: x");
    assert_eq!(text(CaptureError::Play("x".into())), "could not start the input stream: x");
    assert_eq!(
        LiveError::Capture(CaptureError::StreamFailed).describe(),
        "the audio input stream failed (see stderr for the device error)"
    );
    assert_eq!(
        LiveError::Training(ClassifierError::EmptyTrainingSet).describe(),
        "calibration failed: classifier training set was empty"
    );
}

#[test]
fn taps_are_taken_until_there_are_enough() {
    let ev = |is_transient: bool| OnsetEvent { start: 0, window: vec![], is_transient };
    let events = [ev(true), ev(false), ev(true), ev(true)];
    assert_eq!(capture_taps(&events, 0, 2), vec![0, 2]);
    assert_eq!(capture_taps(&events, 9, 10), vec![0]);
    assert!(capture_taps(&events, 10, 10).is_empty());
    assert_eq!(zone_number(&[zone(5), zone(6)], zone(6)), Some(2));
    assert_eq!(zone_number(&[zone(5)], zone(6)), None);
}

#[test]
fn envelope_has_requested_length_and_catches_peaks() {
    let mut samples = vec![0.0f32; 4000];
    samples[1234] = 0.9;
    let env = envelope(&singles(&samples), 256);
    assert_eq!(env.len(), 256);
    assert!(env.iter().any(|v| (float(*v) - 0.9).abs() < 1e-6), "peak was lost");
    assert!(env.iter().all(|v| float(*v) >= 0.0), "envelope is magnitude only");
}

#[test]
fn envelope_handles_degenerate_input() {
    assert!(envelope(&[], 16).is_empty());
    assert!(envelope(&singles(&[0.5, 0.5]), 0).is_empty());
    assert_eq!(envelope(&singles(&[0.2, 0.4]), 8).len(), 8);
    assert_eq!(envelope(&singles(&[f32::NAN, -0.5]), 1), singles(&[0.5]));
}

#[test]
fn the_listener_reports_at_its_pace_and_stays_bounded() {
    let mut w = Worker::new(CaptureDetail::Diagnostics, 1_000);
    assert!(!w.level_due(1_000 + 49_999_999) && w.level_due(1_000 + 50_000_000));
    w.absorb(&singles(&[0.1, -0.7, 0.3]));
    match w.take_level(single(0.5), 7_000) {
        CaptureEvent::Level { rms, peak } => assert_eq!((float(rms), float(peak)), (0.5, 0.7)),
        other => panic!("{other:?}"),
    }
    match w.take_level(single(0.5), 8_000) {
        CaptureEvent::Level { rms, peak } => assert_eq!((float(rms), float(peak)), (0.0, 0.0)),
        other => panic!("{other:?}"),
    }
    assert_eq!(w.last_level, 8_000);
    assert!(!w.frame_due(u64::MAX) && w.window_start().is_none());
    w.absorb(&vec![single(0.25); RECENT_SPAN]);
    w.absorb(&singles(&[0.9]));
    assert_eq!(w.recent.len(), RECENT_SPAN);
    assert_eq!(float(w.recent[RECENT_SPAN - 1]), 0.9);
    assert_eq!(w.window_start(), Some(RECENT_SPAN - FEATURE_WINDOW_SAMPLES));
    assert!(w.frame_due(1_000 + 30_000_000) && !w.frame_due(1_000 + 29_999_999));
    match w.take_frame([single(0.5); 16], 9_000) {
        CaptureEvent::Frame { waveform, bands } => {
            assert_eq!((waveform.len(), bands.len()), (256, 16));
            assert_eq!(float(waveform[255]), 0.9);
        }
        other => panic!("{other:?}"),
    }
    assert_eq!(w.last_frame, 9_000);
    let mut plain = Worker::new(CaptureDetail::Standard, 0);
    plain.absorb(&vec![single(0.25); 9_000]);
    assert!(plain.recent.is_empty() && !plain.frame_due(u64::MAX));
}

// --- the action editor ---------------------------------------------------------------------

#[test]
fn kinds_and_fresh_actions_match() {
    for k in Kind::ALL {
        assert_eq!(Kind::of(&k.default_spec()), k);
        let complete = matches!(k, Kind::PlaySound | Kind::Screenshot | Kind::VisualOnly);
        assert_eq!(k.default_spec().incomplete_reason().is_none(), complete);
    }
    assert_eq!(Kind::OpenPath.label(), "Open file / folder");
    assert_eq!(Kind::ShowToast.label(), "Show notification");
}

#[test]
fn chains_are_edited() {
    let mut e = ActionEditor::new();
    let mut chain: Vec<ActionSpec> = vec![];
    assert!(e.apply(&mut chain, Op::Add));
    assert!(e.apply(&mut chain, Op::Add));
    assert!(!e.apply(&mut chain, Op::SetKind(0, Kind::OpenApp)));
    assert!(e.apply(&mut chain, Op::SetKind(1, Kind::RunCommand)));
    let ty = |field: TextField, t: &str, done: bool| FieldEdit::Type { field, text: t.into(), done };
    // Typing is not a change to keep until the field is left.
    assert!(!e.apply(&mut chain, Op::Fields(1, ty(TextField::Command, "make", false))));
    assert!(e.apply(&mut chain, Op::Fields(1, FieldEdit::AddArg)));
    assert!(e.apply(&mut chain, Op::Fields(1, ty(TextField::Arg(0), "all", true))));
    assert!(!e.apply(&mut chain, Op::Fields(1, ty(TextField::Arg(1), "x", true))));
    assert!(!e.apply(&mut chain, Op::Fields(1, ty(TextField::Url, "x", true))));
    assert_eq!(text_fields(&chain[1]), vec![TextField::Command, TextField::Arg(0)]);
    assert_eq!(label_of(TextField::Arg(0)), "arg 1");
    assert!(e.apply(&mut chain, Op::MoveUp(1)));
    match &chain[0] {
        ActionSpec::RunCommand { command, args } => {
            assert_eq!((command.as_str(), args.as_slice()), ("make", &["all".to_string()][..]));
        }
        other => panic!("{other:?}"),
    }
    assert!(e.apply(&mut chain, Op::MoveDown(0)));
    assert!(!e.apply(&mut chain, Op::MoveDown(1)) && !e.apply(&mut chain, Op::MoveUp(0)));
    assert!(e.apply(&mut chain, Op::Fields(1, FieldEdit::RemoveArg(0))));
    assert!(e.apply(&mut chain, Op::Remove(0)));
    assert_eq!(chain.len(), 1);
    assert!(!e.apply(&mut chain, Op::Remove(1)));
}

#[test]
fn keystrokes_hold_each_modifier_once() {
    let mut e = ActionEditor::new();
    let mut chain = vec![Kind::SendKeystroke.default_spec()];
    assert!(e.apply(&mut chain, Op::Fields(0, FieldEdit::Hold(Modifier::Alt))));
    assert!(!e.apply(&mut chain, Op::Fields(0, FieldEdit::Hold(Modifier::Alt))));
    assert!(e.apply(&mut chain, Op::Fields(0, FieldEdit::Hold(Modifier::Win))));
    assert!(e.apply(&mut chain, Op::Fields(0, FieldEdit::Release(Modifier::Alt))));
    match &chain[0] {
        ActionSpec::SendKeystroke { combo } => assert_eq!(combo.modifiers, vec![Modifier::Win]),
        other => panic!("{other:?}"),
    }
    assert!(!e.apply(&mut chain, Op::Fields(0, FieldEdit::Sound(SystemSound::Error))));
    let mut other = vec![Kind::PlaySound.default_spec(), Kind::Screenshot.default_spec()];
    assert!(e.apply(&mut other, Op::Fields(0, FieldEdit::Sound(SystemSound::Error))));
    assert!(e.apply(&mut other, Op::Fields(1, FieldEdit::Mode(ScreenshotMode::RegionSelect))));
    assert!(matches!(other[0], ActionSpec::PlaySound { sound: SystemSound::Error }));
    assert!(matches!(other[1], ActionSpec::Screenshot { mode: ScreenshotMode::RegionSelect }));
}

#[test]
fn trial_runs_are_remembered_until_the_chain_changes() {
    let mut e = ActionEditor::new();
    let mut chain = vec![ActionSpec::Speak { text: "hi".into() }];
    e.test(zone(1), 0, &chain, &mut MockPlatform::failing("speak"));
    assert!(e.row_status(zone(2), 0).is_none());
    match e.row_status(zone(1), 0) {
        Some(Err(t)) => assert_eq!(t, "could not launch \"speak\": mock"),
        other => panic!("{other:?}"),
    }
    e.test(zone(1), 5, &chain, &mut MockPlatform::new());
    assert!(e.row_status(zone(1), 0).is_some());
    e.apply(&mut chain, Op::Add);
    assert!(e.row_status(zone(1), 0).is_none());
}

// --- the wizard -----------------------------------------------------------------------------

fn flat(x: f32) -> FeatureVector {
    FeatureVector {
        temporal: [single(x); 6],
        spectral_bands: [single(x); 16],
        cepstral: [single(x); 12],
    }
}

/// The first sample of a window tells the zone.
fn extract(w: &[Single]) -> FeatureVector {
    flat(float(w[0]))
}

fn loudness(_: &[Single]) -> Single {
    single(0.1)
}

fn no_fit(samples: &[(ZoneId, FeatureVector)], negatives: &[FeatureVector]) -> Fit {
    // One dimension is enough: centroids at the zones' first samples.
    let mut zones: Vec<ZoneId> = Vec::new();
    let mut centroids = Vec::new();
    for (z, fv) in samples {
        if !zones.contains(z) {
            zones.push(*z);
            centroids.push(fv.as_array().to_vec());
        }
    }
    Fit {
        feature_mean: vec![single(0.0); 34],
        feature_std: vec![single(1.0); 34],
        standardized: samples.iter().map(|(_, fv)| fv.as_array().to_vec()).collect(),
        centroids,
        spreads: vec![single(0.01); samples.len()],
        spread_bound: single(0.02),
        negative_distances: vec![single(1.0); negatives.len()],
        midpoint: single(0.5),
    }
}

fn measure(p: &ClassifierParams, fv: &FeatureVector) -> Distances {
    let x = float(fv.temporal[0]);
    let d = |v: &Vec<Single>| single((float(v[0]) - x).abs());
    Distances {
        examples: p.examples.iter().map(|e| d(&e.v)).collect(),
        centroids: p.centroids.iter().map(d).collect(),
        confidences: vec![single(0.75); p.centroids.len()],
    }
}

fn window(x: f32) -> Vec<Single> {
    vec![single(x); FEATURE_WINDOW_SAMPLES]
}

fn onset(x: f32) -> CaptureEvent {
    CaptureEvent::Onset { window: window(x), is_transient: true, detected_at: 5 }
}

fn level(peak: f32) -> CaptureEvent {
    CaptureEvent::Level { rms: single(0.001), peak: single(peak) }
}

fn tell(w: &mut Wizard, e: CaptureEvent) -> bool {
    w.drain_capture(e, loudness, extract)
}

#[test]
fn steps_have_places_titles_and_labels() {
    for (i, s) in STEP_ORDER.iter().enumerate() {
        assert_eq!(s.index(), i);
    }
    let labels: Vec<&str> = STEP_ORDER.iter().map(|s| s.short_label()).collect();
    assert_eq!(labels, ["Room", "Layout", "Capture", "Check", "Ignore", "Save"]);
    assert_eq!(Step::Negatives.title(), "Teach it what to ignore");
    assert_eq!(Step::Capture.announcement(), "Step 3 of 6: Capture each zone");
    assert_eq!(step_mark(1, Step::Capture), StepMark::Done);
    assert_eq!(step_mark(2, Step::Capture), StepMark::Current);
    assert_eq!(step_mark(3, Step::Capture), StepMark::Ahead);
    assert_eq!((pip(1, 2), pip(2, 2), pip(3, 2)), (Pip::Filled, Pip::Next, Pip::Hollow));
}

#[test]
fn labels_follow_the_number_of_zones() {
    assert_eq!(default_labels(2), vec!["Zone 1", "Zone 2"]);
    assert_eq!(resize_labels(vec!["A".into()], 3), vec!["A", "Zone 2", "Zone 3"]);
    assert_eq!(resize_labels(vec!["A".into(), "B".into()], 1), vec!["A"]);
    assert_eq!(ZONE_COUNTS, [2, 4, 6, 8]);
    let (cells, rows) = auto_cells(3);
    assert_eq!(rows, 2);
    assert_eq!(
        cells,
        vec![
            Cell { column: 0, row: 0 },
            Cell { column: 1, row: 0 },
            Cell { column: 0, row: 1 }
        ]
    );
    assert_eq!(environment_label(EnvironmentQuality::Quiet), "Quiet — good to go");
}

#[test]
fn the_wizard_walks_from_the_room_to_a_profile() {
    let mut w = Wizard::new(0);
    assert_eq!((w.zone_count, w.labels.len(), w.profile_name.as_str()), (4, 4, "My desk"));
    assert!(!w.environment_step(single(0.001), single(0.003), 1)); // not measured yet
    assert_eq!(float(w.current_noise_floor(single(9.0))), 0.0);
    assert!(tell(&mut w, level(0.2)));
    tell(&mut w, CaptureEvent::Started { device_name: "Mic".into(), sample_rate: 44_100 });
    assert_eq!(float(w.current_noise_floor(single(0.5))), 0.5);
    assert!(!w.environment_ready(single(0.5))); // too noisy
    assert!(w.environment_step(single(0.001), single(0.003), 1));
    assert_eq!(w.step, Step::Layout);
    assert!(!w.choose_device(Some("Other".into())));
    assert!(!w.set_zone_count(3));
    assert!(w.set_zone_count(2));
    assert!(w.set_label(1, "Right".into()) && !w.set_label(2, "x".into()));
    assert!(!w.layout_step(vec![zone(1)], 2)); // one identity per zone
    assert!(w.layout_step(vec![zone(1), zone(2)], 2));
    assert_eq!(w.step, Step::Capture);
    assert_eq!(
        w.capture_prompt().unwrap(),
        "Zone 1 of 2: “Zone 1”. Tap this exact spot 10 times."
    );
    tell(&mut w, onset(0.2)); // not armed
    assert!(!w.next_zone());
    assert!(w.toggle_armed());
    for _ in 0..3 {
        tell(&mut w, onset(0.2));
    }
    assert_eq!(w.last_feedback, Some(TapFeedback::Accepted));
    w.sync_pips(50);
    assert_eq!(w.pip_count, 3);
    assert_eq!(w.pip_fill, Some((2, AnimState { started_at: 50, duration: QUICK })));
    assert!(w.undo_last());
    w.sync_pips(60);
    assert_eq!((w.pip_count, w.pip_fill, w.last_feedback), (2, None, None));
    for _ in 0..9 {
        tell(&mut w, onset(0.2));
    }
    assert!(!w.armed && !w.toggle_armed()); // complete
    assert!(!w.capture_step(no_fit, measure, 3)); // not the last zone
    assert!(w.next_zone());
    assert!(w.toggle_armed());
    for _ in 0..10 {
        tell(&mut w, onset(0.6));
    }
    assert!(w.capture_step(no_fit, measure, 3));
    assert_eq!(w.step, Step::Consistency);
    match &w.consistency {
        Some(Ok(r)) => {
            assert!(r.all_consistent());
            assert_eq!(r.per_zone_accuracy, vec![ZoneAccuracy { correct: 10, total: 10 }; 2]);
        }
        other => panic!("{other:?}"),
    }
    // Redo a zone, come back, go on.
    assert!(w.redo_flagged(1, 4));
    assert_eq!(w.session.as_ref().unwrap().zone_sample_count(1), 0);
    assert!(w.toggle_armed());
    for _ in 0..10 {
        tell(&mut w, onset(0.6));
    }
    assert!(w.capture_step(no_fit, measure, 5));
    assert!(w.consistency_step(6));
    assert_eq!(w.step, Step::Negatives);
    tell(&mut w, onset(0.9));
    assert_eq!(w.neg_count, 0);
    assert!(w.toggle_negatives());
    tell(&mut w, onset(0.9));
    assert_eq!(w.neg_count, 1);
    assert!(w.negatives_step(7));
    w.profile_name = "  ".into();
    assert!(!w.can_save());
    w.profile_name = " Desk ".into();
    let half = ZoneLayout {
        x: single(0.0),
        y: single(0.0),
        width: single(0.5),
        height: single(1.0),
    };
    let at = Timestamp { secs: 3, nanos: 0 };
    assert!(w.save_step(&[half], ProfileId::from_uuid(8), at, no_fit).is_none());
    assert_eq!(
        w.save_error.as_deref(),
        Some("1 zone labels/layouts provided for 2 zones")
    );
    match w.save_step(&[half, half], ProfileId::from_uuid(8), at, no_fit) {
        Some(WizardOutcome::Saved(p)) => {
            assert_eq!((p.name.as_str(), p.zones[1].label.as_str()), ("Desk", "Right"));
            assert_eq!(p.device_fingerprint.device_name, "Mic");
            assert_eq!(p.device_fingerprint.capability_hash, "sr44100");
            assert!(p.negative_examples_trained);
            assert!(p.validate().is_ok());
        }
        other => panic!("{other:?}"),
    }
}

#[test]
fn picking_another_microphone_measures_anew() {
    let mut w = Wizard::new(0);
    tell(&mut w, level(0.2));
    assert!(w.choose_device(Some("B".into())));
    assert_eq!((w.env_rms_count, float(w.level_peak)), (0, 0.0));
    assert!(!w.choose_device(Some("B".into())));
    assert!(w.choose_device(None));
    tell(&mut w, CaptureEvent::Failed("unplugged".into()));
    assert_eq!(w.capture_error.as_deref(), Some("unplugged"));
    assert_eq!(w.repaint_after(1), Some(33));
    w.set_visible(false);
    assert_eq!(w.repaint_after(1), None);
    w.cancel();
    assert!(w.cancelled);
    assert!(matches!(w.build(&[], ProfileId::new(), Timestamp { secs: 0, nanos: 0 }, no_fit), Err(e) if e == "no calibration session"));
}

// --- profiles to look at ----------------------------------------------------------------

fn profile() -> Profile {
    let z = |n: u128, label: &str, actions: Vec<ActionSpec>| Zone {
        id: zone(n),
        label: label.into(),
        layout: ZoneLayout {
            x: single(0.0),
            y: single(0.0),
            width: single(0.5),
            height: single(1.0),
        },
        actions,
        calibration_sample_count: 2,
    };
    let row = |x: f32| vec![single(x); 34];
    let ts = Timestamp { secs: 0, nanos: 0 };
    Profile {
        schema_version: PROFILE_SCHEMA_VERSION,
        id: ProfileId::from_uuid(77),
        name: "Desk".into(),
        created_at: ts,
        updated_at: ts,
        device_fingerprint: DeviceFingerprint::from_device("Mic".into(), 44_100),
        sensing_mode: SensingMode::Passive,
        zones: vec![z(1, "Left", vec![]), z(2, "Right", vec![ActionSpec::VisualOnly])],
        classifier: ClassifierParams {
            schema_version: 1,
            feature_mean: row(0.0),
            feature_std: row(1.0),
            zone_ids: vec![zone(1), zone(2)],
            centroids: vec![row(0.2), row(0.6)],
            examples: vec![
                StdExample { zone: 0, v: row(0.2) },
                StdExample { zone: 1, v: row(0.6) },
            ],
            novelty_threshold: single(0.05),
            negative_examples_trained: false,
        },
        negative_examples_trained: false,
    }
}

// --- the evaluation screen ---------------------------------------------------------------

fn latency(at: u64) -> Single {
    single(at as f32)
}

fn slot(c: Single) -> usize {
    (float(c) * 10.0) as usize
}

fn divide(a: u32, b: u32) -> Single {
    single(a as f32 / b as f32)
}

fn hear(r: &mut EvalRun, x: f32) {
    r.drain(onset(x), extract, measure, latency);
}

#[test]
fn a_run_without_zones_ignores_taps() {
    let mut p = profile();
    p.zones.clear();
    let mut r = EvalRun::new(&p, 2);
    assert_eq!(r.prompt(), "Zone 1 of 0: “”. Tap this spot 2 times.");
    assert!(r.toggle_armed() && r.is_last_zone());
    hear(&mut r, 0.2);
    assert!(r.records.is_empty() && r.last.is_none() && r.armed);
    r.advance_zone();
    r.undo_last();
    assert!(r.all_zones_complete());
    assert!(r.finish(Timestamp { secs: 0, nanos: 0 }, slot, divide).report.validate().is_ok());
    let mut s = shell();
    s.state.active_profile.as_mut().unwrap().zones.clear();
    s.evaluation.idle_ui();
    assert!(s.end_frame(5).run_started && s.evaluation.is_running());
}

#[test]
fn a_run_asks_for_every_zone_and_reports() {
    let mut r = EvalRun::new(&profile(), 2);
    assert_eq!(r.prompt(), "Zone 1 of 2: “Left”. Tap this spot 2 times.");
    hear(&mut r, 0.2); // not armed
    assert_eq!(r.current_count(), 0);
    assert!(r.toggle_armed());
    hear(&mut r, 0.2);
    assert_eq!(r.last.as_ref().unwrap().describe(), "✓ correct");
    hear(&mut r, 0.6);
    assert_eq!(r.last.as_ref().unwrap().describe(), "✗ misclassified as “Right”");
    assert!(!r.armed && r.current_zone_complete() && !r.all_zones_complete());
    r.undo_last();
    assert_eq!(r.count_for(0), 1);
    assert!(r.last.is_none());
    assert!(r.toggle_armed());
    hear(&mut r, 0.9);
    assert_eq!(
        r.last.as_ref().unwrap().describe(),
        "rejected — not recognized as any zone"
    );
    assert!(!r.is_last_zone());
    r.advance_zone();
    r.advance_zone();
    assert_eq!(r.current_zone, 1);
    assert!(r.is_last_zone() && r.toggle_armed());
    hear(&mut r, 0.6);
    hear(&mut r, 0.61);
    assert!(r.all_zones_complete());
    let f = r.finish(Timestamp { secs: 4, nanos: 0 }, slot, divide);
    assert_eq!(f.report.confusion_matrix, vec![vec![1, 0], vec![0, 2]]);
    assert_eq!(f.report.rejected_tap_count, 1);
    assert_eq!(float(f.report.overall_accuracy), 0.75);
    assert_eq!(f.report.confidence_distribution.bins[7], 3);
    assert_eq!(f.latencies_ms, singles(&[5.0, 5.0, 5.0, 5.0]));
    assert_eq!((float(f.accuracy_of(0)), float(f.accuracy_of(1)), float(f.accuracy_of(9))), (0.5, 1.0, 0.0));
    r.drain(
        CaptureEvent::Started { device_name: "Mic".into(), sample_rate: 1 },
        extract,
        measure,
        latency,
    );
    r.drain(CaptureEvent::Failed("gone".into()), extract, measure, latency);
    assert_eq!((r.device_name.as_deref(), r.capture_error.as_deref()), (Some("Mic"), Some("gone")));
}

#[test]
fn the_evaluation_screen_goes_from_idle_to_result_and_back() {
    let p = profile();
    let mut s = EvaluationScreen::new();
    assert_eq!(s.ui(None), (EvaluationView::NoProfile, false));
    assert_eq!(s.ui(Some(p.id)), (EvaluationView::Idle, true));
    assert_eq!(s.taps_per_zone, 15);
    s.set_history(p.id, vec![]);
    assert_eq!(s.ui(Some(p.id)), (EvaluationView::Idle, false));
    s.choose_taps(10);
    s.choose_taps(11);
    s.idle_ui();
    assert_eq!(s.take_pending_start(), Some(10));
    assert_eq!(s.take_pending_start(), None);
    s.begin_run(&p, 1);
    assert!(s.is_running());
    let at = Timestamp { secs: 4, nanos: 0 };
    assert!(!s.running_ui(at, slot, divide));
    {
        let r = s.run.as_mut().unwrap();
        r.toggle_armed();
        hear(r, 0.2);
        r.advance_zone();
        r.toggle_armed();
        hear(r, 0.6);
    }
    assert!(s.running_ui(at, slot, divide));
    assert_eq!(s.ui(Some(p.id)).0, EvaluationView::Result);
    assert!(s.save_due());
    s.result_ui(Err("disk full".into()));
    assert!(!s.save_due() && s.history_for.is_none());
    s.retry_save();
    assert!(s.save_due());
    s.result_ui(Ok("report.json".into()));
    s.retry_save();
    assert!(!s.save_due());
    s.run_again();
    assert_eq!(s.ui(Some(p.id)).0, EvaluationView::Idle);
    s.begin_run(&p, 1);
    s.stop_run();
    assert!(!s.is_running());
}

#[test]
fn results_are_graded() {
    assert!(meets_target(single(0.92)) && !meets_target(single(0.9199)));
    assert_eq!(verdict(single(1.0)), "meets the ≥92% target");
    assert_eq!(verdict(single(0.5)), "below the 92% target");
    assert_eq!(grade(single(0.95)), Grade::Good);
    assert_eq!(grade(single(0.75)), Grade::Fair);
    assert_eq!(grade(single(0.74)), Grade::Poor);
    let l = |p50: f32, p95: f32| qwerty::evaluation::LatencyStats {
        p50: single(p50),
        p95: single(p95),
        p99: single(p95),
        max: single(p95),
    };
    assert!(latency_ok(&l(119.9, 199.9)));
    assert!(!latency_ok(&l(120.0, 150.0)) && !latency_ok(&l(100.0, 200.0)));
}

// --- the diagnostics screen --------------------------------------------------------------

#[test]
fn diagnostics_keep_a_bounded_picture_and_recover() {
    let p = profile();
    let mut d = DiagnosticsScreen::new();
    assert!(d.needs_start() && !d.repaints());
    let frame = |v: f32| CaptureEvent::Frame {
        waveform: singles(&[v]),
        bands: [single(v); 16],
    };
    d.drain(frame(1.0), Some(&p), extract, measure); // not started
    assert!(d.spectrogram.is_empty());
    d.start();
    assert!(!d.needs_start() && d.repaints());
    for i in 0..100 {
        d.drain(frame(i as f32), Some(&p), extract, measure);
    }
    assert_eq!(d.spectrogram.len(), 90);
    assert_eq!((float(d.spectrogram[0][0]), float(d.spectrogram[89][0])), (10.0, 99.0));
    d.drain(onset(0.59), Some(&p), extract, measure);
    let tap = d.last_tap.as_ref().unwrap();
    assert!(tap.is_transient && tap.space.accepted);
    let bars = draw_feature_space(&p.zones, &tap.space);
    assert_eq!(bars.len(), 2);
    assert!(!bars[0].is_winner && bars[1].is_winner);
    assert_eq!(bars[1].zone, 1);
    d.drain(CaptureEvent::Failed("gone".into()), Some(&p), extract, measure);
    assert!(!d.needs_start() && !d.repaints());
    d.stop();
    assert!(d.needs_start() && d.spectrogram.is_empty() && d.last_tap.is_none());
}

#[test]
fn ways_of_sensing_are_named() {
    assert_eq!(mode_name(SensingMode::Hybrid), "Hybrid");
    assert!(mode_available(SensingMode::Passive) && !mode_available(SensingMode::Active));
    assert_eq!(
        sensing_mode_text(Some(SensingMode::Passive)),
        "This profile was calibrated with Passive sensing."
    );
    assert_eq!(sensing_mode_text(None), "No profile is active.");
}

// --- the shell -----------------------------------------------------------------------------

fn shell() -> Shell {
    let mut state = AppState::with_config(Config::default(), Some("c".into()), true);
    state.active_profile = Some(profile());
    Shell::new(state, false, true, true, vec![], vec![])
}

#[test]
fn the_listener_runs_exactly_while_listening() {
    let mut s = shell();
    assert_eq!(s.update(true, false).capture, CaptureStep::Keep);
    s.state.toggle_listening();
    assert_eq!(s.update(true, false).capture, CaptureStep::Start);
    assert_eq!(s.update(true, false).capture, CaptureStep::Keep);
    s.state.toggle_listening();
    assert_eq!(s.update(true, false).capture, CaptureStep::Stop);
    s.state.toggle_listening();
    s.update(true, false);
    s.on_capture(CaptureEvent::Failed("unplugged".into()), single(0.0), extract, measure, 1);
    assert_eq!(s.state.listening, ListeningState::Error);
    assert_eq!((s.capturing, s.live.error.as_deref()), (false, Some("unplugged")));
    assert!(s.capture_visible(true) && !s.capture_visible(false));
}

#[test]
fn screens_take_the_microphone_from_home() {
    let mut s = shell();
    s.state.toggle_listening();
    s.update(true, false);
    s.state.screen = Screen::Diagnostics;
    let plan = s.update(true, false);
    assert!(plan.start_diagnostics && plan.capture == CaptureStep::Stop);
    assert_eq!(s.state.listening, ListeningState::Paused);
    assert!(!s.update(true, false).start_diagnostics);
    // Minimizing gives it back.
    s.update(true, true);
    assert!(!s.diagnostics.capturing);

    s.state.screen = Screen::Evaluation;
    s.evaluation.choose_taps(10);
    s.evaluation.idle_ui();
    s.state.listening = ListeningState::Listening;
    s.capturing = true;
    assert!(s.end_frame(5).run_started);
    assert!(s.evaluation.is_running() && !s.capturing);
    assert_eq!(s.state.listening, ListeningState::Paused);
    s.update(true, false);
    assert!(s.evaluation.is_running());
    s.state.screen = Screen::Home;
    s.update(true, false);
    assert!(!s.evaluation.is_running());
}

#[test]
fn taps_on_the_home_screen_make_the_nearest_zone_pulse() {
    let mut s = shell();
    s.on_capture(onset(0.21), single(0.0), extract, measure, 10);
    s.on_capture(onset(0.9), single(0.0), extract, measure, 20);
    assert_eq!(s.zone_pulses.len(), 2);
    assert_eq!((s.zone_pulses[0].zone, s.zone_pulses[0].accepted), (zone(1), true));
    assert_eq!((s.zone_pulses[1].zone, s.zone_pulses[1].accepted), (zone(2), false));
    assert_eq!(s.zone_pulses[1].anim.duration, INSTANT);
    s.on_capture(onset(0.2), single(0.0), extract, measure, 30);
    assert_eq!(s.zone_pulses.len(), 2);
    assert_eq!(s.zone_pulses[1].anim.started_at, 30);
    s.on_capture(
        CaptureEvent::Onset { window: window(0.2), is_transient: false, detected_at: 0 },
        single(0.0),
        extract,
        measure,
        30,
    );
    assert_eq!((s.live.taps, s.live.rejects), (3, 1));
    s.on_capture(level(0.4), single(0.6), extract, measure, 40);
    assert_eq!((float(s.live.peak), float(s.live.peak_hold)), (0.4, 0.6));
    s.state.screen = Screen::Settings;
    s.on_capture(onset(0.6), single(0.0), extract, measure, 50);
    assert_eq!((s.live.taps, s.zone_pulses[0].anim.started_at), (4, 20));
    assert!(s.end_frame(25 + INSTANT).repaint_soon);
    assert_eq!(s.zone_pulses.len(), 1);
    assert!(!s.end_frame(u64::MAX).repaint_soon);
}

#[test]
fn an_accepted_tap_runs_its_zone_and_nothing_else_does() {
    let mut s = shell();
    s.state.screen = Screen::Settings;
    let hear = |s: &mut Shell, x: f32| s.on_capture(onset(x), single(0.0), extract, measure, 1);
    assert_eq!(hear(&mut s, 0.61), Some(1));
    assert_eq!(hear(&mut s, 0.2), Some(0));
    assert_eq!(hear(&mut s, 0.9), None); // rejected
    let started = |name: &str| CaptureEvent::Started { device_name: name.into(), sample_rate: 44_100 };
    assert_eq!(s.on_capture(started("Mic"), single(0.0), extract, measure, 1), None);
    assert_eq!(hear(&mut s, 0.2), Some(0));
    // Another microphone than the profile's is not trusted.
    s.on_capture(started("Other"), single(0.0), extract, measure, 1);
    assert_eq!(hear(&mut s, 0.2), None);
    s.state.active_profile = None;
    assert_eq!(hear(&mut s, 0.2), None);
}

#[test]
fn a_tap_runs_the_chain_of_its_zone() {
    let mut s = shell();
    s.state.active_profile.as_mut().unwrap().zones[0].actions = vec![
        ActionSpec::Speak { text: "t".into() },
        ActionSpec::VisualOnly,
        ActionSpec::OpenUrl { url: "u".into() },
    ];
    let mut mock = MockPlatform::new();
    let fire = s.on_capture(onset(0.2), single(0.0), extract, measure, 1);
    assert!(s.run_tap(fire, &mut mock).is_ok());
    assert_eq!(mock.calls.borrow().as_slice(), ["speak".to_string(), "open_uri".to_string()]);
    let mut broken = MockPlatform::failing("speak");
    assert_eq!(s.run_tap(Some(0), &mut broken).unwrap_err().0, 0);
    assert_eq!(broken.calls.borrow().len(), 1);
    let mut idle = MockPlatform::new();
    assert!(s.run_tap(None, &mut idle).is_ok() && s.run_tap(Some(9), &mut idle).is_ok());
    s.state.active_profile = None;
    assert!(s.run_tap(Some(0), &mut idle).is_ok());
    assert!(idle.calls.borrow().is_empty());
}

#[test]
fn the_first_launch_opens_the_wizard() {
    let state = AppState::with_config(Config::default(), Some("c".into()), true);
    let mut s = Shell::new(state, true, true, true, vec![], vec![]);
    assert!(s.end_frame(1).wizard_opened);
    assert!(s.wizard.is_some() && !s.launch_wizard);
    assert!(!shell().end_frame(1).wizard_opened);
}

#[test]
fn commands_from_outside_reach_the_window() {
    let mut s = shell();
    assert!(s.handle_external_events(true, &[TrayCommand::ToggleListening], false).is_empty());
    assert_eq!(s.state.listening, ListeningState::Paused);
    assert_eq!(
        s.handle_external_events(false, &[], true),
        vec![WindowCommand::CancelClose, WindowCommand::Hide]
    );
    assert!(!s.window_visible);
    assert_eq!(
        s.handle_external_events(false, &[TrayCommand::OpenWindow], false),
        vec![WindowCommand::Show, WindowCommand::Focus]
    );
    assert!(s.window_visible);
    assert_eq!(
        s.handle_external_events(false, &[TrayCommand::Quit], true),
        vec![WindowCommand::Close]
    );
    assert!(s.force_quit && s.window_visible);
    let mut s = shell();
    s.state.config.minimize_to_tray_on_close = false;
    assert!(s.handle_external_events(false, &[], true).is_empty());
    let mut s = shell();
    s.has_tray = false;
    assert!(s.handle_external_events(false, &[TrayCommand::Quit], true).is_empty());
}

#[test]
fn the_wizard_owns_the_window_until_it_ends() {
    let mut s = shell();
    s.state.listening = ListeningState::Error;
    s.launch_wizard = true;
    assert!(s.end_frame(1).wizard_opened);
    assert_eq!(s.state.listening, ListeningState::Paused);
    let plan = s.update(true, true);
    assert!(plan.wizard && !plan.showing);
    assert!(!s.wizard.as_ref().unwrap().visible);
    assert!(!s.wizard_ended(&WizardOutcome::Saved(profile()), Err("disk full".into())));
    assert_eq!(
        s.wizard.as_ref().unwrap().save_error.as_deref(),
        Some("Could not save “Desk”: disk full")
    );
    s.state.screen = Screen::Zones;
    assert!(s.wizard_ended(&WizardOutcome::Saved(profile()), Ok(())));
    assert!(s.wizard.is_none() && s.state.screen == Screen::Home);
    s.launch_wizard = true;
    s.end_frame(2);
    assert!(!s.wizard_ended(&WizardOutcome::Cancelled, Ok(())));
    assert!(s.wizard.is_none());
}

#[test]
fn fades_run_and_settle() {
    let mut s = shell();
    assert_eq!(s.screen_fade(10), None);
    s.state.screen = Screen::Zones;
    assert_eq!(s.screen_fade(10), Some(0));
    assert_eq!(s.screen_fade(10 + STANDARD - 1), Some(STANDARD - 1));
    assert_eq!(s.screen_fade(10 + STANDARD), None);
    let night = tokens_for(Theme::Midnight, true);
    let day = tokens_for(Theme::Daylight, true);
    assert_eq!(s.effective_tokens(0), ThemeFade::Settled(night));
    s.state.begin_theme_switch(Theme::Daylight, 100);
    assert_eq!(
        s.effective_tokens(150),
        ThemeFade::Fading { from: night, to: day, elapsed: 50 }
    );
    assert_eq!(s.effective_tokens(100 + STANDARD), ThemeFade::Settled(day));
    assert!(s.state.theme_transition.is_none());
}

#[test]
fn profile_events_leave_their_messages() {
    let mut s = shell();
    assert!(s.profile_io(ProfileEvent::Exported(Ok("C:\\x.json".into()))));
    assert_eq!(s.io_message.as_deref(), Some("Exported to C:\\x.json"));
    assert!(!s.profile_io(ProfileEvent::Exported(Err("no".into()))));
    assert_eq!(s.io_message, None);
    assert_eq!(s.save_error.as_deref(), Some("Could not export profile: no"));
    s.duplicate_name = "Game".into();
    s.selected_zone = Some(zone(1));
    assert!(s.profile_io(ProfileEvent::Duplicated(Ok(()))));
    assert_eq!((s.duplicate_name.as_str(), s.selected_zone, s.save_error.clone()), ("", None, None));
    s.duplicate_name = "Den".into();
    s.selected_zone = Some(zone(1));
    assert!(s.profile_io(ProfileEvent::Renamed(Ok(()))));
    assert_eq!((s.duplicate_name.as_str(), s.selected_zone), ("", Some(zone(1))));
    assert_eq!(s.io_message.as_deref(), Some("Profile renamed."));
    assert!(s.profile_io(ProfileEvent::Imported(Ok(()))));
    assert_eq!(s.io_message.as_deref(), Some("Imported a copy as a new profile."));
    for (e, text) in [
        (ProfileEvent::Duplicated(Err("x".into())), "Could not duplicate profile: x"),
        (ProfileEvent::Renamed(Err("x".into())), "Could not rename profile: x"),
        (ProfileEvent::Imported(Err("x".into())), "Could not import profile: x"),
        (ProfileEvent::Deleted(Err("x".into())), "Could not delete profile: x"),
        (ProfileEvent::Switched(Err("x".into())), "Could not switch profile: x"),
        (ProfileEvent::Saved(Err("x".into())), "Could not save your changes: x"),
    ] {
        assert!(!s.profile_io(e));
        assert_eq!(s.save_error.as_deref(), Some(text));
    }
    assert!(!s.profile_io(ProfileEvent::Saved(Ok(()))));
    assert_eq!(s.save_error, None);
    // Deleting takes a question first.
    assert_eq!(s.confirm_delete(), None);
    s.profile_io(ProfileEvent::AskDelete);
    s.profile_io(ProfileEvent::CancelDelete);
    assert_eq!(s.confirm_delete(), None);
    s.profile_io(ProfileEvent::AskDelete);
    assert_eq!(s.confirm_delete(), Some(ProfileId::from_uuid(77)));
    assert!(s.profile_io(ProfileEvent::Deleted(Ok(()))));
    assert_eq!(s.io_message.as_deref(), Some("Profile deleted."));
    assert!(s.profile_io(ProfileEvent::Switched(Ok(()))));
    s.confirm_delete = true;
    s.refresh_profiles(vec![], vec![]);
    assert!(!s.confirm_delete);
}

#[test]
fn the_selected_zone_is_edited() {
    let mut s = shell();
    assert!(!s.edit_zone(Op::Add));
    s.selected_zone = Some(zone(9));
    assert!(!s.edit_zone(Op::Add));
    s.zones();
    assert_eq!(s.selected_zone, Some(zone(1)));
    assert!(s.edit_zone(Op::Add));
    s.selected_zone = Some(zone(2));
    s.zones();
    assert_eq!(s.selected_zone, Some(zone(2)));
    assert!(s.edit_zone(Op::Remove(0)));
    let p = s.state.active_profile.as_ref().unwrap();
    assert_eq!((p.zones[0].actions.len(), p.zones[1].actions.len()), (1, 0));
}

#[test]
fn the_home_screen_says_what_is_the_matter() {
    assert_eq!(listen_button(ListeningState::Paused), ("Start listening", true));
    assert_eq!(listen_button(ListeningState::Error), ("Resolve device error first", false));
    assert_eq!(status_glyph(ListeningState::Paused), "❚❚");
    let p = profile();
    let mut live = LiveStatus::new();
    assert_eq!(mismatch_warning(&p, &live), None);
    live.device = Some("Mic".into());
    live.sample_rate = Some(44_100);
    assert_eq!(mismatch_warning(&p, &live), None);
    live.device = Some("Other".into());
    assert_eq!(
        mismatch_warning(&p, &live).unwrap(),
        "⚠ Calibrated for “Mic”, but “Other” is active — recalibrate for reliable accuracy."
    );
    assert_eq!(
        unbound_warning(&p).unwrap(),
        "⚠ Unbound zones: 1 of 2. Open Zones & profiles to bind an action to each."
    );
    assert_eq!(tile_caption(&p.zones[0]), "no action");
    assert_eq!(tile_caption(&p.zones[1]), "1 action");
    assert_eq!(zone_tiles(&p.zones), "Left: 0 actions, Right: 1 action");
    assert_eq!((tile_grid(2), tile_grid(5), tile_grid(8)), ((2, 1), (3, 2), (4, 2)));
    let row = |n: usize| ProfileSummary {
        id: p.id,
        name: "Desk".into(),
        zone_count: n,
        is_active: false,
    };
    assert_eq!(profile_switcher(&row(1)), "Desk   ·   1 zone");
    assert_eq!(profile_switcher(&row(4)), "Desk   ·   4 zones");
    assert!(!switcher_shown(&vec![row(1)]) && switcher_shown(&vec![row(1), row(2)]));
}

#[test]
fn tray_failures_are_described() {
    assert_eq!(
        TrayError::Menu("no memory".into()).describe(),
        "could not build the tray menu: no memory"
    );
    assert_eq!(
        TrayError::Build("no shell".into()).describe(),
        "could not create the tray icon: no shell"
    );
}

#[test]
fn motion_is_reduced_only_where_the_system_asks() {
    assert!(os_prefers_reduced_motion(Some(false)));
    assert!(!os_prefers_reduced_motion(Some(true)));
    assert!(!os_prefers_reduced_motion(None));
}
