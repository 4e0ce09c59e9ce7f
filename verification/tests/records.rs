//! What is stored: settings, profiles, reports, their names and their order.

use qwerty::app_state::{
    list_evaluation_reports, list_importable_profiles, profile_file, sanitize_filename, AppState,
    ImportEntry, ListeningState, Removal, Screen,
};
use qwerty::classifier::{Classification, ClassifierParams, StdExample};
use qwerty::clock::{file_stamp, list_stamp, report_file};
use qwerty::evaluation::{EvaluationAccumulator, EvaluationReport, Histogram, LatencyStats};
use qwerty::ids::{ProfileId, ZoneId};
use qwerty::profile::{
    accept_version, ActionSpec, Config, DeviceFingerprint, KeyCombo, Modifier,
    NotificationVerbosity, PersistenceError, Profile, SensingMode, SystemSound, Theme, Timestamp,
    Zone, ZoneLayout, CONFIG_SCHEMA_VERSION, PROFILE_SCHEMA_VERSION,
};
use qwerty::single::Single;
use qwerty::soak::{parse_duration_secs, parse_zone_count};
use qwerty::text::{chars_of, decimal_text, is_blank, is_json_file, parse_number};
use qwerty::value::Value;

fn single(x: f32) -> Single {
    Single::from_bits(x.to_bits())
}

fn float(s: Single) -> f32 {
    f32::from_bits(s.to_bits())
}

fn singles(xs: &[f32]) -> Vec<Single> {
    xs.iter().map(|x| single(*x)).collect()
}

fn zone(n: u128) -> ZoneId {
    ZoneId::from_uuid(n)
}

fn tiny_classifier() -> ClassifierParams {
    ClassifierParams {
        schema_version: 1,
        feature_mean: vec![single(1.5); 34],
        feature_std: vec![single(0.5); 34],
        zone_ids: vec![zone(10), zone(20)],
        centroids: vec![vec![single(-1.0); 34], vec![single(1.0); 34]],
        examples: vec![
            StdExample { zone: 0, v: vec![single(-1.0); 34] },
            StdExample { zone: 1, v: vec![single(1.0); 34] },
        ],
        novelty_threshold: single(0.25),
        negative_examples_trained: false,
    }
}

fn sample_profile() -> Profile {
    let ts = Timestamp { secs: 1_784_635_200, nanos: 0 };
    Profile {
        schema_version: PROFILE_SCHEMA_VERSION,
        id: ProfileId::from_uuid(1),
        name: "Home desk".into(),
        created_at: ts,
        updated_at: ts,
        device_fingerprint: DeviceFingerprint {
            device_name: "Built-in Microphone".into(),
            capability_hash: "abc123".into(),
        },
        sensing_mode: SensingMode::Passive,
        zones: vec![Zone {
            id: zone(2),
            label: "Top-left".into(),
            layout: ZoneLayout {
                x: single(0.0),
                y: single(0.0),
                width: single(0.5),
                height: single(0.5),
            },
            actions: vec![
                ActionSpec::OpenApp {
                    path: "C:\\Windows\\System32\\WindowsTerminal.exe".into(),
                },
                ActionSpec::ShowToast {
                    title: "Terminal".into(),
                    body: "Opened via top-left tap".into(),
                },
            ],
            calibration_sample_count: 10,
        }],
        classifier: tiny_classifier(),
        negative_examples_trained: false,
    }
}

// --- actions and devices ---------------------------------------------------------

#[test]
fn core_version_is_reported() {
    assert!(!qwerty::CORE_VERSION.is_empty());
}

#[test]
fn links_against_core() {
    assert!(!qwerty::CORE_VERSION.is_empty());
}

#[test]
fn unbound_zone_count_counts_zones_without_actions() {
    let mut p = sample_profile();
    assert_eq!(p.unbound_zone_count(), 0);
    p.zones[0].actions.clear();
    assert_eq!(p.unbound_zone_count(), 1);
}

#[test]
fn incomplete_reason_flags_only_blank_required_fields() {
    assert!(ActionSpec::OpenApp { path: String::new() }.incomplete_reason().is_some());
    assert!(ActionSpec::OpenApp { path: "app".into() }.incomplete_reason().is_none());
    assert!(ActionSpec::SendKeystroke {
        combo: KeyCombo { modifiers: vec![], key: "   ".into() }
    }
    .incomplete_reason()
    .is_some());
    assert!(ActionSpec::VisualOnly.incomplete_reason().is_none());
    assert!(ActionSpec::PlaySound { sound: SystemSound::Default }.incomplete_reason().is_none());
    assert!(ActionSpec::ShowToast { title: String::new(), body: String::new() }
        .incomplete_reason()
        .is_some());
    assert!(ActionSpec::ShowToast { title: "Hi".into(), body: String::new() }
        .incomplete_reason()
        .is_none());
}

#[test]
fn every_incomplete_action_says_what_it_needs() {
    let needs = |a: ActionSpec| a.incomplete_reason().unwrap();
    assert_eq!(needs(ActionSpec::OpenApp { path: "\u{a0}\t".into() }), "needs an application path");
    assert_eq!(needs(ActionSpec::OpenPath { path: "".into() }), "needs a file or folder path");
    assert_eq!(needs(ActionSpec::OpenUrl { url: "\u{3000}".into() }), "needs a URL");
    assert_eq!(
        needs(ActionSpec::RunCommand { command: " ".into(), args: vec!["x".into()] }),
        "needs a command"
    );
    assert_eq!(needs(ActionSpec::CopyToClipboard { text: "".into() }), "needs text to copy");
    assert_eq!(needs(ActionSpec::Speak { text: "\n".into() }), "needs text to speak");
    // A zero-width space is not white space.
    assert!(ActionSpec::Speak { text: "\u{200b}".into() }.incomplete_reason().is_none());
}

#[test]
fn device_fingerprint_from_device_uses_the_sample_rate_hash() {
    let fp = DeviceFingerprint::from_device("USB Mic".into(), 48_000);
    assert_eq!(fp.device_name, "USB Mic");
    assert_eq!(fp.capability_hash, "sr48000");
}

#[test]
fn needs_recalibration_only_when_the_device_differs() {
    let p = sample_profile();
    assert!(!p.needs_recalibration_for(&p.device_fingerprint.clone()));
    let other = DeviceFingerprint::from_device("A Different Mic".into(), 48_000);
    assert!(p.needs_recalibration_for(&other));
}

#[test]
fn another_rate_of_the_same_device_needs_recalibration() {
    let mut p = sample_profile();
    p.device_fingerprint = DeviceFingerprint::from_device("Mic".into(), 44_100);
    assert!(!p.needs_recalibration_for(&DeviceFingerprint::from_device("Mic".into(), 44_100)));
    assert!(p.needs_recalibration_for(&DeviceFingerprint::from_device("Mic".into(), 4_410)));
}

// --- identities, numbers, moments ---------------------------------------------------

#[test]
fn identities_are_written_with_hyphens() {
    let id = ProfileId::from_uuid(0x67e55044_10b1_426f_9247_bb680e5fe0c8);
    assert_eq!(id.text(), "67e55044-10b1-426f-9247-bb680e5fe0c8");
    assert_eq!(id.as_uuid(), 0x67e55044_10b1_426f_9247_bb680e5fe0c8);
    assert_eq!(zone(1).text(), "00000000-0000-0000-0000-000000000001");
    assert_eq!(profile_file(id), "67e55044-10b1-426f-9247-bb680e5fe0c8.json");
}

#[test]
fn fresh_identities_are_random_and_of_version_four() {
    let (a, b) = (ProfileId::new(), ProfileId::new());
    assert!(a != b);
    let text: Vec<char> = ZoneId::new().text().chars().collect();
    assert_eq!(text[14], '4');
    assert!(matches!(text[19], '8' | '9' | 'a' | 'b'));
    assert!(ZoneId::default() != ZoneId::default());
}

#[test]
fn numbers_read_back_what_was_written() {
    for n in [0u64, 7, 10, 48_000, u64::MAX] {
        assert_eq!(parse_number(&decimal_text(n)), Some(n));
    }
    assert_eq!(decimal_text(44_100), "44100");
    assert_eq!(parse_number("+12"), Some(12));
    assert_eq!(parse_number("007"), Some(7));
    for bad in ["", "+", "-1", "1x", " 1", "18446744073709551616"] {
        assert_eq!(parse_number(bad), None, "{bad}");
    }
}

#[test]
fn arguments_of_an_endurance_run_are_read() {
    let args = |s: &[&str]| s.iter().map(|a| a.to_string()).collect::<Vec<String>>();
    assert_eq!(parse_duration_secs(&args(&[])), Ok(30));
    assert_eq!(parse_duration_secs(&args(&["--zones", "2", "--duration", "5"])), Ok(5));
    assert_eq!(parse_duration_secs(&args(&["--duration"])), Err(()));
    assert_eq!(parse_duration_secs(&args(&["--duration", "soon"])), Err(()));
    assert_eq!(parse_zone_count(&args(&["--duration", "5"])), Ok(4));
    assert_eq!(parse_zone_count(&args(&["--zones", "8"])), Ok(8));
    assert_eq!(parse_zone_count(&args(&["--zones", "3"])), Err(()));
}

#[test]
fn moments_become_file_names() {
    let at = Timestamp { secs: 1_784_635_200, nanos: 123_456_789 };
    assert_eq!(file_stamp(at).unwrap(), "20260721T120000123Z");
    assert_eq!(report_file(at, ".json").unwrap(), "20260721T120000123Z.json");
    assert_eq!(report_file(at, ".csv").unwrap(), "20260721T120000123Z.csv");
    assert_eq!(list_stamp(at).unwrap(), "2026-07-21 12:00 UTC");
    assert!(file_stamp(Timestamp { secs: i64::MAX, nanos: 0 }).is_none());
    assert!(list_stamp(Timestamp { secs: i64::MIN, nanos: 0 }).is_none());
}

#[test]
fn text_is_taken_apart_by_character() {
    assert_eq!(chars_of("aé😀"), vec!['a', 'é', '😀']);
    assert!(is_blank(" \u{2003}\t") && is_blank("") && !is_blank(" x "));
    assert!(is_json_file("a.json") && is_json_file("..json"));
    assert!(!is_json_file(".json") && !is_json_file("a.JSON") && !is_json_file("a.json.tmp"));
}

// --- reading and writing ---------------------------------------------------------

fn config_json(c: &Config) -> String {
    let mut m = serde_json::Map::new();
    m.insert("schema_version".into(), serde_json::Value::from(c.schema_version));
    m.insert(
        "active_profile_id".into(),
        match c.active_profile_id {
            Some(id) => serde_json::Value::from(id.text()),
            None => serde_json::Value::Null,
        },
    );
    m.insert("minimize".into(), serde_json::Value::from(c.minimize_to_tray_on_close));
    m.insert(
        "hotkey".into(),
        match &c.global_hotkey {
            Some(k) => serde_json::Value::from(k.key.clone()),
            None => serde_json::Value::Null,
        },
    );
    serde_json::to_string_pretty(&serde_json::Value::Object(m)).unwrap()
}

fn same_config(a: &Config, b: &Config) -> bool {
    a.schema_version == b.schema_version
        && a.active_profile_id == b.active_profile_id
        && a.theme == b.theme
        && a.start_with_windows == b.start_with_windows
        && a.minimize_to_tray_on_close == b.minimize_to_tray_on_close
        && a.notification_verbosity == b.notification_verbosity
        && a.debug_capture_enabled == b.debug_capture_enabled
        && match (&a.global_hotkey, &b.global_hotkey) {
            (Some(x), Some(y)) => x.same(y),
            (None, None) => true,
            _ => false,
        }
}

#[test]
fn config_default_round_trips() {
    let c = Config::default();
    let back = Config::from_json(&config_json(&c), "config.json", Ok(c.clone())).unwrap();
    assert!(same_config(&c, &back));
    assert_eq!((c.theme, c.notification_verbosity), (Theme::System, NotificationVerbosity::Normal));
    assert!(c.minimize_to_tray_on_close && !c.start_with_windows && !c.debug_capture_enabled);
}

#[test]
fn config_with_hotkey_round_trips() {
    let c = Config {
        global_hotkey: Some(KeyCombo {
            modifiers: vec![Modifier::Ctrl, Modifier::Shift],
            key: "Q".into(),
        }),
        active_profile_id: Some(ProfileId::from_uuid(7)),
        ..Default::default()
    };
    let back = Config::from_json(&config_json(&c), "config.json", Ok(c.clone())).unwrap();
    assert!(same_config(&c, &back));
}

#[test]
fn profile_round_trips_with_no_field_loss() {
    let p = sample_profile();
    let back = Profile::from_json("{\"schema_version\": 1}", "p.json", Ok(p.clone())).unwrap();
    assert!(p.same(&back));
    assert!(p.copy().same(&p));
    let mut q = p.copy();
    q.zones[0].actions[1] = ActionSpec::ShowToast { title: "Terminal".into(), body: "".into() };
    assert!(!q.same(&p));
}

#[test]
fn save_rejects_a_non_finite_zone_layout() {
    let mut p = sample_profile();
    assert!(p.validate().is_ok(), "the sample profile is valid");
    p.zones[0].layout.x = single(f32::NAN);
    assert_eq!(
        p.validate().unwrap_err(),
        "zone ZoneId(00000000-0000-0000-0000-000000000002) has a non-finite layout"
    );
    match p.check("p.json") {
        Err(PersistenceError::InvalidData { file, reason }) => {
            assert_eq!(file, "p.json");
            assert!(reason.contains("non-finite layout"));
        }
        other => panic!("expected InvalidData, got {other:?}"),
    }
}

#[test]
fn schema_version_mismatch_is_a_named_error() {
    let mut c = Config::default();
    c.schema_version = 999;
    let err = Config::from_json(&config_json(&c), "config.json", Ok(c.clone())).unwrap_err();
    assert_eq!(
        err.describe(),
        "config.json: schema_version 999 does not match expected 1 — this file must be \
         migrated or recalibrated, not loaded as-is"
    );
    match err {
        PersistenceError::SchemaMismatch { file, found, expected } => {
            assert_eq!(file, "config.json");
            assert_eq!(found, 999);
            assert_eq!(expected, CONFIG_SCHEMA_VERSION);
        }
        other => panic!("expected SchemaMismatch, got {other:?}"),
    }
}

#[test]
fn versions_are_read_from_the_text_itself() {
    let read = |s: &str| Config::from_json(s, "c.json", Ok(Config::default()));
    assert!(read("{\"schema_version\": 1, \"x\": [1]}").is_ok());
    for (text, version) in [
        ("{}", 0),
        ("[1]", 0),
        ("{\"schema_version\": \"1\"}", 0),
        ("{\"schema_version\": -1}", 0),
        ("{\"schema_version\": 2}", 2),
        ("{\"schema_version\": 4294967297}", 4_294_967_297),
    ] {
        match read(text) {
            Err(PersistenceError::SchemaMismatch { found, .. }) => assert_eq!(found, version),
            other => panic!("{text}: {other:?}"),
        }
    }
}

#[test]
fn corrupt_json_is_an_error_not_a_panic() {
    let text = config_json(&Config::default());
    assert!(matches!(
        Config::from_json(&text[..20], "config.json", Ok(Config::default())),
        Err(PersistenceError::Json(_))
    ));
    // So is text of the right version that does not decode.
    match Config::from_json(&text, "config.json", Err("missing field".into())) {
        Err(e) => assert_eq!(e.describe(), "malformed JSON: missing field"),
        Ok(_) => panic!("must not be taken"),
    }
    assert_eq!(PersistenceError::Io("gone".into()).describe(), "I/O error: gone");
    assert_eq!(accept_version(Ok(Some(3)), 3, "f", Ok(5u8)).unwrap(), 5);
}

#[test]
fn profile_with_malformed_classifier_is_refused_on_load() {
    let mut p = sample_profile();
    p.classifier.feature_mean = singles(&[0.0, 1.0]);
    let err = Profile::from_json("{\"schema_version\": 1}", "p.json", Ok(p)).unwrap_err();
    assert!(matches!(err, PersistenceError::InvalidData { .. }));
    assert_eq!(
        err.describe(),
        "p.json: invalid contents — classifier parameters are malformed: standardization \
         vectors must be length 34"
    );
}

// --- the state of the application -------------------------------------------------

fn test_state() -> AppState {
    AppState::with_config(Config::default(), None, true)
}

fn stored_state() -> AppState {
    AppState::with_config(Config::default(), Some("config.json".into()), true)
}

#[test]
fn toggle_flips_between_listening_and_paused() {
    let mut s = test_state();
    s.listening = ListeningState::Paused;
    assert_eq!(s.toggle_listening(), ListeningState::Listening);
    assert_eq!(s.toggle_listening(), ListeningState::Paused);
}

#[test]
fn toggle_does_not_escape_error_state() {
    let mut s = test_state();
    s.listening = ListeningState::Error;
    assert_eq!(s.toggle_listening(), ListeningState::Error);
}

#[test]
fn switching_to_same_theme_is_a_noop() {
    let mut s = test_state();
    let current = s.config.theme;
    assert!(!s.begin_theme_switch(current, 5));
    assert!(s.theme_transition.is_none());
}

#[test]
fn switching_theme_records_transition_and_updates_config() {
    let mut s = test_state();
    s.config.theme = Theme::Daylight;
    assert!(s.begin_theme_switch(Theme::Midnight, 5));
    assert_eq!(s.config.theme, Theme::Midnight);
    let t = s.theme_transition.expect("transition recorded");
    assert_eq!(t.from, Theme::Daylight);
    assert_eq!(t.to, Theme::Midnight);
    assert_eq!(t.started_at, 5);
}

#[test]
fn screen_rail_has_all_five_and_labels() {
    assert_eq!(Screen::ALL.len(), 5);
    assert_eq!(Screen::Home.label(), "Home");
    assert_eq!(Screen::Settings.label(), "Settings");
}

#[test]
fn screens_and_states_are_labelled() {
    let labels: Vec<&str> = Screen::ALL.iter().map(|s| s.label()).collect();
    assert_eq!(labels, ["Home", "Zones & profiles", "Diagnostics", "Evaluation", "Settings"]);
    let glyphs: Vec<&str> = Screen::ALL.iter().map(|s| s.glyph()).collect();
    assert_eq!(glyphs, ["⌂", "▦", "∿", "✓", "⚙"]);
    assert_eq!(ListeningState::Listening.label(), "Listening");
    assert_eq!(ListeningState::Paused.label(), "Paused");
    assert_eq!(ListeningState::Error.label(), "Error");
}

#[test]
fn list_profiles_is_empty_without_a_profiles_dir() {
    assert!(test_state().list_profiles(&vec![]).is_empty());
}

#[test]
fn list_profiles_skips_non_json_and_corrupt_files() {
    // Only names that end in `.json` are read, and what cannot be read is left out.
    assert!(!is_json_file("notes.txt") && is_json_file("broken.json"));
    let broken = Profile::from_json("{ not valid profile", "broken.json", Err("x".into()));
    let loaded = vec![broken.map_err(|e| e.describe())];
    assert!(stored_state().list_profiles(&loaded).is_empty());
}

#[test]
fn profiles_are_listed_by_name_and_the_active_one_is_marked() {
    let mut s = stored_state();
    s.config.active_profile_id = Some(ProfileId::from_uuid(3));
    let named = |name: &str, id: u128| {
        let mut p = sample_profile();
        p.name = name.into();
        p.id = ProfileId::from_uuid(id);
        Ok(p)
    };
    let loaded = vec![
        named("work", 1),
        Err("unreadable".into()),
        named("Home", 2),
        named("work", 3),
        named("Ärmel", 4),
    ];
    let listed = s.list_profiles(&loaded);
    let names: Vec<(&str, u128, bool)> = listed
        .iter()
        .map(|p| (p.name.as_str(), p.id.as_uuid(), p.is_active))
        .collect();
    assert_eq!(
        names,
        [("Home", 2, false), ("work", 1, false), ("work", 3, true), ("Ärmel", 4, false)]
    );
    assert_eq!(listed[0].zone_count, 1);
}

#[test]
fn switch_to_a_missing_profile_fails_and_keeps_the_current_active() {
    let mut s = stored_state();
    let original = s.config.active_profile_id;
    let id = ProfileId::new();
    assert_eq!(s.switch_profile(id).unwrap(), Some(profile_file(id)));
    assert!(s.switch_loaded(id, Err("not found".into())).is_err());
    assert_eq!(s.config.active_profile_id, original);
}

#[test]
fn switching_to_the_already_active_profile_is_a_noop_ok() {
    let mut s = test_state();
    let id = ProfileId::new();
    s.config.active_profile_id = Some(id);
    assert_eq!(s.switch_profile(id), Ok(None));
    assert_eq!(
        s.switch_profile(ProfileId::from_uuid(1)),
        Err("no %APPDATA% location is available to switch profiles".into())
    );
}

#[test]
fn a_switch_that_cannot_be_saved_is_undone() {
    let mut s = stored_state();
    s.config.active_profile_id = Some(ProfileId::from_uuid(1));
    let to = ProfileId::from_uuid(2);
    let previous = s.switch_loaded(to, Ok(sample_profile())).unwrap();
    assert_eq!(s.config.active_profile_id, Some(to));
    assert!(s.switch_saved(previous, Err("disk full".into())).is_err());
    assert_eq!(s.config.active_profile_id, Some(ProfileId::from_uuid(1)));
    let previous = s.switch_loaded(to, Ok(sample_profile())).unwrap();
    assert!(s.switch_saved(previous, Ok(())).is_ok());
    assert_eq!(s.active_profile_file(), Some(profile_file(to)));
    s.reload_active_profile(Some(Ok(sample_profile())));
    assert!(s.active_profile.is_some());
    s.reload_active_profile(Some(Err("corrupt".into())));
    assert!(s.active_profile.is_none());
}

#[test]
fn sanitize_filename_replaces_illegal_chars_and_has_a_fallback() {
    assert_eq!(sanitize_filename("Home desk"), "Home desk");
    assert_eq!(sanitize_filename("a/b:c*d?"), "a_b_c_d_");
    assert_eq!(sanitize_filename("  ..  "), "profile");
    assert_eq!(sanitize_filename(""), "profile");
}

#[test]
fn file_names_hold_no_control_codes_and_no_dots_around() {
    assert_eq!(sanitize_filename("a\u{7}b\u{85}c"), "a_b_c");
    assert_eq!(sanitize_filename(" .x. "), "x");
    assert_eq!(sanitize_filename(". .a"), "a");
    assert_eq!(sanitize_filename(". . ."), "profile");
    assert_eq!(sanitize_filename("a.b . "), "a.b");
    assert_eq!(sanitize_filename(&sanitize_filename(" .?x. ")), "_x");
    assert_eq!(sanitize_filename("<>\"|\\"), "_____");
}

#[test]
fn exporting_without_an_active_profile_errors() {
    assert!(test_state().export_active_profile().is_err());
    let mut s = stored_state();
    s.active_profile = Some(sample_profile());
    assert_eq!(s.export_active_profile().unwrap(), "Home desk.json");
    s.config_path = None;
    assert_eq!(
        s.export_active_profile().unwrap_err(),
        "no %APPDATA% location is available to export"
    );
}

#[test]
fn importing_a_missing_or_corrupt_file_fails_and_changes_nothing() {
    let s = stored_state();
    let now = Timestamp { secs: 9, nanos: 0 };
    let fresh = ProfileId::from_uuid(5);
    assert!(AppState::import_profile(Err("no such file".into()), fresh, now).is_err());
    let bad = Profile::from_json("{ not a profile", "bad.json", Err("x".into()));
    assert!(AppState::import_profile(bad.map_err(|e| e.describe()), fresh, now).is_err());
    assert!(s.active_profile.is_none());
    let p = AppState::import_profile(Ok(sample_profile()), fresh, now).unwrap();
    assert_eq!((p.id, p.updated_at, p.created_at.secs), (fresh, now, 1_784_635_200));
    assert_eq!(p.name, "Home desk");
}

#[test]
fn list_importable_is_empty_without_an_exports_dir() {
    assert!(list_importable_profiles(vec![]).is_empty());
}

#[test]
fn importable_files_are_listed_by_name() {
    let e = |file: &str, stem: Option<&str>, loaded: Result<Profile, String>| {
        ImportEntry::new(file.into(), stem.map(|s| s.into()), &loaded)
    };
    let listed = list_importable_profiles(vec![
        e("z.json", Some("z"), Err("corrupt".into())),
        e("a.json", Some("a"), Ok(sample_profile())),
        e("?.json", None, Err("corrupt".into())),
    ]);
    let names: Vec<&str> = listed.iter().map(|e| e.name.as_str()).collect();
    assert_eq!(names, ["Home desk", "profile", "z"]);
    assert_eq!(listed[0].file, "a.json");
}

#[test]
fn duplicating_without_an_active_profile_errors() {
    let now = Timestamp { secs: 9, nanos: 0 };
    let fresh = ProfileId::from_uuid(5);
    assert!(test_state().duplicate_active_profile("Game", fresh, now).is_err());
    let mut s = stored_state();
    s.active_profile = Some(sample_profile());
    let p = s.duplicate_active_profile("  Game ", fresh, now).unwrap();
    assert_eq!((p.id, p.name.as_str(), p.created_at, p.updated_at), (fresh, "Game", now, now));
    assert_eq!(p.zones.len(), 1);
    assert!(p.classifier.same(&tiny_classifier()));
    let q = s.duplicate_active_profile("  ", fresh, now).unwrap();
    assert_eq!(q.name, "Home desk copy");
}

#[test]
fn renaming_changes_the_name_and_the_time_alone() {
    let now = Timestamp { secs: 9, nanos: 0 };
    assert_eq!(
        test_state().rename_active_profile("Den", now).unwrap_err(),
        "no active profile to rename"
    );
    let mut s = stored_state();
    s.active_profile = Some(sample_profile());
    assert_eq!(s.rename_active_profile(" \t", now).unwrap_err(), "a profile needs a name");
    let mut q = s.rename_active_profile("  Den 2 ", now).unwrap();
    assert_eq!((q.name.as_str(), q.updated_at), ("Den 2", now));
    q.name = sample_profile().name;
    q.updated_at = sample_profile().updated_at;
    assert!(q.same(&sample_profile()));
}

#[test]
fn deleting_the_active_profile_removes_its_file_and_clears_active() {
    let mut s = stored_state();
    let id = ProfileId::new();
    s.config.active_profile_id = Some(id);
    s.active_profile = Some(sample_profile());
    assert_eq!(s.delete_profile(id).unwrap(), (profile_file(id), id.text()));
    assert_eq!(s.profile_deleted(id, Removal::Removed), Ok(true));
    assert_eq!(s.config.active_profile_id, None, "active must be cleared");
    assert!(s.active_profile.is_none());
}

#[test]
fn deleting_a_non_active_profile_leaves_the_active_selection() {
    let mut s = stored_state();
    let active = ProfileId::new();
    s.config.active_profile_id = Some(active);
    assert_eq!(s.profile_deleted(ProfileId::new(), Removal::Removed), Ok(false));
    assert_eq!(s.config.active_profile_id, Some(active));
}

#[test]
fn deleting_an_absent_profile_is_ok_and_idempotent() {
    let mut s = stored_state();
    let id = ProfileId::new();
    assert_eq!(s.profile_deleted(id, Removal::Absent), Ok(false));
    assert_eq!(s.profile_deleted(id, Removal::Absent), Ok(false));
    s.config.active_profile_id = Some(id);
    assert_eq!(s.profile_deleted(id, Removal::Failed("locked".into())), Err("locked".into()));
    assert_eq!(s.config.active_profile_id, Some(id));
    assert!(test_state().delete_profile(id).is_err());
}

#[test]
fn saving_goes_step_by_step() {
    let mut s = stored_state();
    let p = sample_profile();
    let now = Timestamp { secs: 9, nanos: 0 };
    assert!(test_state().save_profile(&p).is_err());
    assert_eq!(s.save_profile(&p).unwrap(), profile_file(p.id));
    s.profile_written(p.id);
    assert!(s.profile_saved(&p, Err("disk full".into())).is_err());
    assert!(s.active_profile.is_none());
    assert!(s.profile_saved(&p, Ok(())).is_ok());
    assert!(s.active_profile.as_ref().unwrap().same(&p));
    assert_eq!(s.save_active_profile(now).unwrap().updated_at, now);
    assert!(test_state().save_active_profile(now).is_err());

    // Saved on the way out only where something changed.
    assert!(!s.save_active_profile_if_changed(&Some(p.copy())));
    assert!(s.save_active_profile_if_changed(&None));
    let mut minus_zero = p.copy();
    minus_zero.zones[0].layout.x = single(-0.0);
    assert!(!s.save_active_profile_if_changed(&Some(minus_zero)));
    let mut edited = p.copy();
    edited.name = "Other".into();
    assert!(s.save_active_profile_if_changed(&Some(edited)));
    assert!(!test_state().save_active_profile_if_changed(&None));
}

#[test]
fn unreadable_settings_are_left_alone() {
    let path = Some("config.json".to_string());
    let s = AppState::load(Some(Err(PersistenceError::Json("bad".into()))), path.clone(), true);
    assert_eq!(s.config_load_error.as_deref(), Some("malformed JSON: bad"));
    assert!(same_config(&s.config, &Config::default()));
    assert_eq!(
        s.save_config().unwrap_err(),
        "the settings could not be loaded, so their file is not overwritten: malformed JSON: bad"
    );
    let mut c = Config::default();
    c.theme = Theme::Aurora;
    let s = AppState::load(Some(Ok(c)), path, false);
    assert_eq!(s.config.theme, Theme::Aurora);
    assert_eq!(s.save_config(), Ok(Some(&"config.json".to_string())));
    assert_eq!(AppState::load(None, None, false).save_config(), Ok(None));
}

#[test]
fn reports_are_written_beside_their_profile() {
    let acc = EvaluationAccumulator::new(vec![zone(1)], 1);
    let at = Timestamp { secs: 1_784_635_200, nanos: 0 };
    let r = acc.finish(ProfileId::from_uuid(5), at, &[], divide);
    assert_eq!(
        stored_state().save_evaluation_report(&r).unwrap(),
        ("00000000-0000-0000-0000-000000000005".into(), "20260721T120000000Z.json".into())
    );
    assert_eq!(
        test_state().save_evaluation_report(&r).unwrap_err(),
        "no %APPDATA% location is available to save the report"
    );
    assert_eq!(
        stored_state().export_evaluation_csv(&r).unwrap(),
        ("00000000-0000-0000-0000-000000000005".into(), "20260721T120000000Z.csv".into())
    );
    assert_eq!(
        test_state().export_evaluation_csv(&r).unwrap_err(),
        "no %APPDATA% location is available to export the report"
    );
    let never = Timestamp { secs: i64::MAX, nanos: 0 };
    let r = acc.finish(ProfileId::from_uuid(5), never, &[], divide);
    assert!(stored_state().save_evaluation_report(&r).is_err());
    assert!(stored_state().export_evaluation_csv(&r).is_err());
    let late = file_stamp(Timestamp { secs: 253_402_300_800, nanos: 0 }).unwrap();
    assert_eq!(late, "+100000101T000000000Z");
}

// --- evaluation ---------------------------------------------------------------------

fn slot(v: f32, bins: usize) -> usize {
    (v.clamp(0.0, 1.0) * bins as f32) as usize
}

fn divide(a: u32, b: u32) -> Single {
    single(a as f32 / b as f32)
}

fn finish(acc: &EvaluationAccumulator, id: u128) -> EvaluationReport {
    let slots: Vec<usize> = acc.confidences().iter().map(|c| slot(float(*c), 10)).collect();
    acc.finish(ProfileId::from_uuid(id), Timestamp { secs: 100, nanos: 0 }, &slots, divide)
}

fn record(acc: &mut EvaluationAccumulator, a: ZoneId, p: Option<ZoneId>, c: f32, ms: f32) {
    acc.record(a, p, single(c), single(ms));
}

#[test]
fn histogram_buckets_and_clamps() {
    let values = [0.0, 1.0, 0.55, -3.0, 9.0, f32::NAN];
    let slots: Vec<usize> = values.iter().map(|v| slot(*v, 10)).collect();
    let h = Histogram::from_values(&singles(&values), &slots, 10, single(0.0), single(1.0));
    assert_eq!(h.bins.len(), 10);
    assert_eq!(h.bins[0], 2); // 0.0 and the clamped -3.0
    assert_eq!(h.bins[5], 1); // 0.55
    assert_eq!(h.bins[9], 2); // 1.0 and the clamped 9.0
    assert_eq!(h.total(), 5); // NaN dropped
    assert_eq!(Histogram::from_values(&[], &[], 0, single(0.0), single(1.0)).bins, vec![0]);
    // The ends are decided by comparison, whatever the slots say.
    let h = Histogram::from_values(&singles(&values), &[7; 6], 10, single(0.0), single(1.0));
    assert_eq!(h.bins, vec![2, 0, 0, 0, 0, 0, 0, 1, 0, 2]);
}

#[test]
fn latency_percentiles_are_nearest_rank() {
    let samples: Vec<f32> = (1..=100).map(|i| i as f32).collect();
    let s = LatencyStats::from_millis(&singles(&samples));
    assert_eq!(float(s.p50), 50.0);
    assert_eq!(float(s.p95), 95.0);
    assert_eq!(float(s.p99), 99.0);
    assert_eq!(float(s.max), 100.0);
}

#[test]
fn latencies_may_come_in_any_order_and_with_garbage() {
    let s = LatencyStats::from_millis(&singles(&[3.0, f32::NAN, 1.0, f32::INFINITY, 2.0]));
    assert_eq!(
        (float(s.p50), float(s.p95), float(s.p99), float(s.max)),
        (2.0, 3.0, 3.0, 3.0)
    );
}

#[test]
fn empty_latency_is_all_zero() {
    let s = LatencyStats::from_millis(&[]);
    assert_eq!(
        (float(s.p50), float(s.p95), float(s.p99), float(s.max)),
        (0.0, 0.0, 0.0, 0.0)
    );
}

#[test]
fn perfect_run_is_100_percent_with_identity_matrix() {
    let (za, zb) = (zone(1), zone(2));
    let mut acc = EvaluationAccumulator::new(vec![za, zb], 3);
    for _ in 0..3 {
        record(&mut acc, za, Some(za), 0.9, 40.0);
        record(&mut acc, zb, Some(zb), 0.85, 45.0);
    }
    let r = finish(&acc, 9);
    assert_eq!(r.confusion_matrix, vec![vec![3, 0], vec![0, 3]]);
    assert_eq!(float(r.overall_accuracy), 1.0);
    assert_eq!(float(r.per_zone_accuracy[&za.as_uuid()]), 1.0);
    assert_eq!(r.rejected_tap_count, 0);
    assert_eq!(r.confidence_distribution.total(), 6);
}

#[test]
fn misclassification_and_rejection_lower_accuracy() {
    let (za, zb) = (zone(1), zone(2));
    let mut acc = EvaluationAccumulator::new(vec![za, zb], 4);
    record(&mut acc, za, Some(za), 0.8, 50.0);
    record(&mut acc, za, Some(za), 0.8, 50.0);
    record(&mut acc, za, Some(zb), 0.4, 60.0); // misclassified
    record(&mut acc, za, None, 0.0, 55.0); // rejected
    for _ in 0..4 {
        record(&mut acc, zb, Some(zb), 0.9, 45.0);
    }
    let r = finish(&acc, 1);
    assert_eq!(r.confusion_matrix, vec![vec![2, 1], vec![0, 4]]);
    assert_eq!(r.rejected_tap_count, 1);
    assert_eq!(float(r.per_zone_accuracy[&za.as_uuid()]), 0.5);
    assert_eq!(float(r.per_zone_accuracy[&zb.as_uuid()]), 1.0);
    assert_eq!(float(r.overall_accuracy), 0.75);
    assert_eq!(r.confidence_distribution.total(), 7);
    assert_eq!(acc.latencies_ms().len(), 8);
}

#[test]
fn a_prediction_outside_the_run_is_a_rejection() {
    let mut acc = EvaluationAccumulator::new(vec![zone(1)], 1);
    record(&mut acc, zone(1), Some(zone(9)), 0.9, 40.0);
    let r = finish(&acc, 1);
    assert_eq!((r.rejected_tap_count, r.confusion_matrix[0][0]), (1, 0));
    assert_eq!(float(r.overall_accuracy), 0.0);
}

#[test]
fn report_round_trips_through_json() {
    let (za, zb) = (zone(1), zone(2));
    let mut acc = EvaluationAccumulator::new(vec![za, zb], 2);
    record(&mut acc, za, Some(za), 0.7, 40.0);
    record(&mut acc, zb, None, 0.0, 90.0);
    let r = finish(&acc, 5);
    let back =
        EvaluationReport::from_json("{\"schema_version\": 1}", "eval.json", Ok(r.clone())).unwrap();
    assert_eq!(r.confusion_matrix, back.confusion_matrix);
    assert_eq!(r.per_zone_accuracy, back.per_zone_accuracy);
    assert_eq!((r.latency_ms, r.run_at, r.profile_id), (back.latency_ms, back.run_at, back.profile_id));
}

#[test]
fn schema_mismatch_is_a_named_error() {
    let mut acc = EvaluationAccumulator::new(vec![zone(1), zone(2)], 1);
    record(&mut acc, zone(1), Some(zone(1)), 0.6, 30.0);
    record(&mut acc, zone(2), Some(zone(2)), 0.6, 30.0);
    let r = finish(&acc, 2);
    let err =
        EvaluationReport::from_json("{\"schema_version\": 999}", "eval.json", Ok(r)).unwrap_err();
    assert!(matches!(err, PersistenceError::SchemaMismatch { .. }));
}

#[test]
fn structurally_inconsistent_report_is_refused_on_load() {
    let (za, zb) = (zone(1), zone(2));
    let mut acc = EvaluationAccumulator::new(vec![za, zb], 1);
    record(&mut acc, za, Some(za), 0.8, 40.0);
    record(&mut acc, zb, Some(zb), 0.8, 40.0);
    let r = finish(&acc, 7);
    let load = |r: EvaluationReport| {
        EvaluationReport::from_json("{\"schema_version\": 1}", "eval.json", Ok(r))
    };
    assert!(load(r.clone()).is_ok());

    let mut ragged = r.clone();
    ragged.confusion_matrix = vec![vec![1, 0], vec![0]];
    let err = load(ragged).unwrap_err();
    assert!(matches!(err, PersistenceError::InvalidData { .. }), "got {err:?}");
    assert_eq!(
        err.describe(),
        "eval.json: invalid contents — confusion_matrix row 1 has 1 cells, expected 2 (the \
         matrix must be square)"
    );

    let mut thin = r.clone();
    thin.per_zone_accuracy.remove(&zb.as_uuid());
    let err2 = load(thin).unwrap_err();
    assert!(matches!(err2, PersistenceError::InvalidData { .. }), "got {err2:?}");
    assert_eq!(
        err2.describe(),
        "eval.json: invalid contents — per_zone_accuracy has 1 entries but the confusion \
         matrix is 2x2"
    );
}

#[test]
fn record_classification_maps_rejected_to_none() {
    let (za, zb) = (zone(1), zone(2));
    let mut acc = EvaluationAccumulator::new(vec![za, zb], 1);
    acc.record_classification(
        za,
        Classification { zone_id: Some(za), confidence: single(0.9), accepted: true },
        single(40.0),
    );
    acc.record_classification(
        zb,
        Classification { zone_id: Some(zb), confidence: single(0.9), accepted: false },
        single(40.0),
    );
    let r = finish(&acc, 3);
    assert_eq!(r.confusion_matrix, vec![vec![1, 0], vec![0, 0]]);
    assert_eq!(r.rejected_tap_count, 1);
}

#[test]
fn reports_are_listed_oldest_first() {
    let at = |secs: i64, nanos: u32| {
        let acc = EvaluationAccumulator::new(vec![zone(1)], 1);
        acc.finish(ProfileId::from_uuid(1), Timestamp { secs, nanos }, &[], divide)
    };
    let listed = list_evaluation_reports(vec![at(5, 1), at(-3, 9), at(5, 0), at(7, 0)]);
    let times: Vec<(i64, u32)> = listed.iter().map(|r| (r.run_at.secs, r.run_at.nanos)).collect();
    assert_eq!(times, [(-3, 9), (5, 0), (5, 1), (7, 0)]);
}
