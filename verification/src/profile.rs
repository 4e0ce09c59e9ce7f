//! Settings and desk profiles, and the rules for reading and writing them.

use vstd::prelude::*;

use crate::classifier::{ClassifierError, ClassifierParams};
use crate::ids::{hyphenated, ProfileId, ZoneId};
use crate::single::Single;
use crate::text::{blank, decimal, decimal_is_injective, decimal_text, is_blank, join, join3};

verus! {

/// Version of the stored settings.
pub const CONFIG_SCHEMA_VERSION: u32 = 1;

/// Version of a stored profile.
pub const PROFILE_SCHEMA_VERSION: u32 = 1;

#[derive(Clone, Copy, Debug, PartialEq, Eq, Structural)]
pub enum Theme {
    System,
    Daylight,
    Midnight,
    Aurora,
    HighContrast,
}

#[derive(Clone, Copy, Debug, PartialEq, Eq, Structural)]
pub enum NotificationVerbosity {
    Silent,
    Minimal,
    Normal,
}

#[derive(Clone, Copy, Debug, PartialEq, Eq, Structural)]
pub enum SensingMode {
    Passive,
    Active,
    Hybrid,
}

/// A modifier key of a [`KeyCombo`].
#[derive(Clone, Copy, Debug, PartialEq, Eq, Structural)]
pub enum Modifier {
    Ctrl,
    Shift,
    Alt,
    Win,
}

/// A key with its modifiers, such as `Ctrl+Shift+Q`.
#[derive(Clone, Debug)]
pub struct KeyCombo {
    pub modifiers: Vec<Modifier>,
    pub key: String,
}

/// A sound by its meaning.
#[derive(Clone, Copy, Debug, PartialEq, Eq, Structural)]
pub enum SystemSound {
    Default,
    Success,
    Error,
    Notification,
}

#[derive(Clone, Copy, Debug, PartialEq, Eq, Structural)]
pub enum ScreenshotMode {
    FullScreen,
    RegionSelect,
}

/// One action of a zone's chain.
#[derive(Clone, Debug)]
pub enum ActionSpec {
    OpenApp { path: String },
    OpenPath { path: String },
    OpenUrl { url: String },
    RunCommand { command: String, args: Vec<String> },
    CopyToClipboard { text: String },
    Speak { text: String },
    PlaySound { sound: SystemSound },
    ShowToast { title: String, body: String },
    SendKeystroke { combo: KeyCombo },
    Screenshot { mode: ScreenshotMode },
    VisualOnly,
}

impl ActionSpec {
    /// What the action still lacks; `None` where it can run. A toast needs a
    /// title or a body.
    pub open spec fn missing(&self) -> Option<Seq<char>> {
        let (lacks, what) = match self {
            ActionSpec::OpenApp { path } => (blank(path@), "needs an application path"@),
            ActionSpec::OpenPath { path } => (blank(path@), "needs a file or folder path"@),
            ActionSpec::OpenUrl { url } => (blank(url@), "needs a URL"@),
            ActionSpec::RunCommand { command, .. } => (blank(command@), "needs a command"@),
            ActionSpec::CopyToClipboard { text } => (blank(text@), "needs text to copy"@),
            ActionSpec::Speak { text } => (blank(text@), "needs text to speak"@),
            ActionSpec::ShowToast { title, body } => (
                blank(title@) && blank(body@),
                "needs a title or body"@,
            ),
            ActionSpec::SendKeystroke { combo } => (blank(combo.key@), "needs a key"@),
            ActionSpec::PlaySound { .. } => (false, Seq::empty()),
            ActionSpec::Screenshot { .. } => (false, Seq::empty()),
            ActionSpec::VisualOnly => (false, Seq::empty()),
        };
        if lacks {
            Some(what)
        } else {
            None
        }
    }

    /// Why the action cannot run yet, for the editor to show: a required field
    /// is blank.
    pub fn incomplete_reason(&self) -> (r: Option<&'static str>)
        ensures
            match self.missing() {
                None => r is None,
                Some(what) => r matches Some(t) && t@ == what,
            },
    {
        match self {
            ActionSpec::OpenApp { path } => reason_if(is_blank(path), "needs an application path"),
            ActionSpec::OpenPath { path } => reason_if(
                is_blank(path),
                "needs a file or folder path",
            ),
            ActionSpec::OpenUrl { url } => reason_if(is_blank(url), "needs a URL"),
            ActionSpec::RunCommand { command, .. } => reason_if(
                is_blank(command),
                "needs a command",
            ),
            ActionSpec::CopyToClipboard { text } => reason_if(is_blank(text), "needs text to copy"),
            ActionSpec::Speak { text } => reason_if(is_blank(text), "needs text to speak"),
            ActionSpec::ShowToast { title, body } => reason_if(
                is_blank(title) && is_blank(body),
                "needs a title or body",
            ),
            ActionSpec::SendKeystroke { combo } => reason_if(is_blank(&combo.key), "needs a key"),
            ActionSpec::PlaySound { .. } => None,
            ActionSpec::Screenshot { .. } => None,
            ActionSpec::VisualOnly => None,
        }
    }
}

fn reason_if(lacks: bool, what: &'static str) -> (r: Option<&'static str>)
    ensures
        r == if lacks {
            Some(what)
        } else {
            None
        },
{
    if lacks {
        Some(what)
    } else {
        None
    }
}

/// The settings.
#[derive(Clone, Debug)]
pub struct Config {
    pub schema_version: u32,
    pub active_profile_id: Option<ProfileId>,
    pub theme: Theme,
    pub start_with_windows: bool,
    pub minimize_to_tray_on_close: bool,
    pub notification_verbosity: NotificationVerbosity,
    pub global_hotkey: Option<KeyCombo>,
    pub debug_capture_enabled: bool,
}

impl Default for Config {
    /// Settings of a first start.
    fn default() -> (c: Config)
        ensures
            c == (Config {
                schema_version: CONFIG_SCHEMA_VERSION,
                active_profile_id: None,
                theme: Theme::System,
                start_with_windows: false,
                minimize_to_tray_on_close: true,
                notification_verbosity: NotificationVerbosity::Normal,
                global_hotkey: None,
                debug_capture_enabled: false,
            }),
    {
        Config {
            schema_version: CONFIG_SCHEMA_VERSION,
            active_profile_id: None,
            theme: Theme::System,
            start_with_windows: false,
            minimize_to_tray_on_close: true,
            notification_verbosity: NotificationVerbosity::Normal,
            global_hotkey: None,
            debug_capture_enabled: false,
        }
    }
}

impl Config {
    /// Take settings out of JSON text. `decoded` is what the text decodes to
    /// once its version is known to be right.
    pub fn from_json(s: &str, file: &str, decoded: Result<Config, String>) -> (r: Result<
        Config,
        PersistenceError,
    >)
        ensures
            versioned(json_version(s@), CONFIG_SCHEMA_VERSION, file@, decoded, r),
    {
        parse_versioned(s, CONFIG_SCHEMA_VERSION, file, decoded)
    }
}

/// Which microphone a profile was calibrated with.
#[derive(Clone, Debug)]
pub struct DeviceFingerprint {
    pub device_name: String,
    pub capability_hash: String,
}

/// What is remembered of a device's capabilities: its sample rate.
pub open spec fn capability(sample_rate: u32) -> Seq<char> {
    "sr"@ + decimal(sample_rate as nat)
}

impl DeviceFingerprint {
    /// Name and capabilities are the same.
    pub open spec fn same(self, other: DeviceFingerprint) -> bool {
        self.device_name@ == other.device_name@ && self.capability_hash@ == other.capability_hash@
    }

    /// The fingerprint of a device with this name and rate.
    pub fn from_device(device_name: String, sample_rate: u32) -> (f: DeviceFingerprint)
        ensures
            f.device_name@ == device_name@,
            f.capability_hash@ == capability(sample_rate),
    {
        let rate = decimal_text(sample_rate as u64);
        DeviceFingerprint { device_name, capability_hash: join("sr", &rate) }
    }
}

/// A device that differs in name or in rate has another fingerprint, and the
/// same device the same one.
pub proof fn fingerprints_tell_devices_apart(
    a: DeviceFingerprint,
    a_rate: u32,
    b: DeviceFingerprint,
    b_rate: u32,
)
    requires
        a.capability_hash@ == capability(a_rate),
        b.capability_hash@ == capability(b_rate),
    ensures
        a.same(b) <==> a.device_name@ == b.device_name@ && a_rate == b_rate,
{
    if a.capability_hash@ == b.capability_hash@ {
        let n = "sr"@.len() as int;
        assert(capability(a_rate).skip(n) =~= decimal(a_rate as nat));
        assert(capability(b_rate).skip(n) =~= decimal(b_rate as nat));
        decimal_is_injective(a_rate as nat, b_rate as nat);
    }
}

/// Where a zone lies on the desk diagram, as fractions of its size.
#[derive(Clone, Copy, Debug, PartialEq, Eq, Structural)]
pub struct ZoneLayout {
    pub x: Single,
    pub y: Single,
    pub width: Single,
    pub height: Single,
}

impl ZoneLayout {
    pub open spec fn finite(self) -> bool {
        self.x.finite() && self.y.finite() && self.width.finite() && self.height.finite()
    }
}

#[derive(Clone, Debug)]
pub struct Zone {
    pub id: ZoneId,
    pub label: String,
    pub layout: ZoneLayout,
    pub actions: Vec<ActionSpec>,
    pub calibration_sample_count: u32,
}

/// A moment in time: seconds since the Unix epoch, and nanoseconds.
#[derive(Clone, Copy, Debug, PartialEq, Eq, Structural)]
pub struct Timestamp {
    pub secs: i64,
    pub nanos: u32,
}

/// A calibrated desk.
#[derive(Clone, Debug)]
pub struct Profile {
    pub schema_version: u32,
    pub id: ProfileId,
    pub name: String,
    pub created_at: Timestamp,
    pub updated_at: Timestamp,
    pub device_fingerprint: DeviceFingerprint,
    pub sensing_mode: SensingMode,
    pub zones: Vec<Zone>,
    pub classifier: ClassifierParams,
    pub negative_examples_trained: bool,
}

/// How many zones have no action.
pub open spec fn unbound(zones: Seq<Zone>) -> nat
    decreases zones.len(),
{
    if zones.len() == 0 {
        0
    } else {
        unbound(zones.drop_last()) + if zones.last().actions@.len() == 0 {
            1nat
        } else {
            0nat
        }
    }
}

/// The position of the first zone whose layout is not finite.
pub open spec fn first_bad_layout(zones: Seq<Zone>, i: int) -> bool {
    &&& 0 <= i < zones.len()
    &&& !zones[i].layout.finite()
    &&& forall|j: int| 0 <= j < i ==> (#[trigger] zones[j]).layout.finite()
}

pub open spec fn layouts_finite(zones: Seq<Zone>) -> bool {
    forall|i: int| 0 <= i < zones.len() ==> (#[trigger] zones[i]).layout.finite()
}

/// What is said of a zone whose layout is not finite.
pub open spec fn bad_layout_text(id: ZoneId) -> Seq<char> {
    "zone ZoneId("@ + hyphenated(id.value) + ") has a non-finite layout"@
}

/// The text of a classifier error.
pub open spec fn classifier_error_text(e: ClassifierError) -> Seq<char> {
    match e {
        ClassifierError::EmptyTrainingSet => "classifier training set was empty"@,
        ClassifierError::NonFiniteParameters =>
            "classifier training produced non-finite parameters"@,
        ClassifierError::MalformedParameters(d) => "classifier parameters are malformed: "@ + d@,
    }
}

impl Profile {
    /// Fit to be stored and used.
    pub open spec fn valid(&self) -> bool {
        self.classifier@.well_formed() && layouts_finite(self.zones@)
    }

    /// `reason` is why the profile is not valid: the classifier's fault, or
    /// otherwise the first zone with a layout that is not finite.
    pub open spec fn invalid_because(&self, reason: Seq<char>) -> bool {
        match self.classifier@.fault() {
            Some(f) => exists|e: ClassifierError| #[trigger]
                crate::classifier::reports(e, f) && reason == classifier_error_text(e),
            None => exists|i: int| #[trigger]
                first_bad_layout(self.zones@, i) && reason == bad_layout_text(self.zones@[i].id),
        }
    }

    /// Whether this profile should be calibrated anew for the device: it was
    /// made with another one.
    pub fn needs_recalibration_for(&self, current_device: &DeviceFingerprint) -> (r: bool)
        ensures
            r == !self.device_fingerprint.same(*current_device),
    {
        !(self.device_fingerprint.device_name == current_device.device_name
            && self.device_fingerprint.capability_hash == current_device.capability_hash)
    }

    /// How many zones do nothing yet.
    pub fn unbound_zone_count(&self) -> (n: usize)
        ensures
            n == unbound(self.zones@),
            n <= self.zones@.len(),
    {
        let mut n: usize = 0;
        let mut i: usize = 0;
        while i < self.zones.len()
            invariant
                i <= self.zones@.len(),
                n == unbound(self.zones@.take(i as int)),
                n <= i,
            decreases self.zones@.len() - i,
        {
            proof {
                assert(self.zones@.take(i + 1).drop_last() =~= self.zones@.take(i as int));
            }
            if self.zones[i].actions.len() == 0 {
                n += 1;
            }
            i += 1;
        }
        proof {
            assert(self.zones@.take(i as int) =~= self.zones@);
        }
        n
    }

    /// Check what decoding alone cannot: that the classifier is consistent and
    /// every layout is finite. The error says what is wrong.
    pub fn validate(&self) -> (r: Result<(), String>)
        ensures
            r is Ok <==> self.valid(),
            r matches Err(reason) ==> self.invalid_because(reason@),
    {
        match self.classifier.validate() {
            Ok(()) => {},
            Err(e) => {
                let text = e.describe();
                proof {
                    assert(crate::classifier::reports(e, self.classifier@.fault()->0));
                }
                return Err(text);
            },
        }
        let mut i: usize = 0;
        while i < self.zones.len()
            invariant
                i <= self.zones@.len(),
                self.classifier@.well_formed(),
                forall|j: int| 0 <= j < i ==> (#[trigger] self.zones@[j]).layout.finite(),
            decreases self.zones@.len() - i,
        {
            let l: ZoneLayout = self.zones[i].layout;
            if !(l.x.is_finite() && l.y.is_finite() && l.width.is_finite()
                && l.height.is_finite()) {
                let id = self.zones[i].id.text();
                proof {
                    assert(first_bad_layout(self.zones@, i as int));
                }
                return Err(join3("zone ZoneId(", &id, ") has a non-finite layout"));
            }
            i += 1;
        }
        Ok(())
    }

    /// Take a profile out of JSON text. `decoded` is what the text decodes to
    /// once its version is known to be right; an invalid profile is refused.
    pub fn from_json(s: &str, file: &str, decoded: Result<Profile, String>) -> (r: Result<
        Profile,
        PersistenceError,
    >)
        ensures
            r matches Ok(p) ==> decoded == Ok::<Profile, String>(p) && p.valid() && version_is(
                json_version(s@),
                PROFILE_SCHEMA_VERSION,
            ),
            r matches Err(e) ==> match decoded {
                Ok(p) if version_is(json_version(s@), PROFILE_SCHEMA_VERSION) => !p.valid()
                    && e.invalid_data(file@, |reason: Seq<char>| p.invalid_because(reason)),
                _ => versioned(json_version(s@), PROFILE_SCHEMA_VERSION, file@, decoded, r),
            },
    {
        match parse_versioned(s, PROFILE_SCHEMA_VERSION, file, decoded) {
            Ok(profile) => match profile.check(file) {
                Ok(()) => Ok(profile),
                Err(e) => Err(e),
            },
            Err(e) => Err(e),
        }
    }

    /// Refuse an invalid profile, before it is written to or after it was read
    /// from `file`.
    pub fn check(&self, file: &str) -> (r: Result<(), PersistenceError>)
        ensures
            r is Ok <==> self.valid(),
            r matches Err(e) ==> e.invalid_data(
                file@,
                |reason: Seq<char>| self.invalid_because(reason),
            ),
    {
        match self.validate() {
            Ok(()) => Ok(()),
            Err(reason) => Err(PersistenceError::InvalidData { file: file.to_owned(), reason }),
        }
    }
}

impl ClassifierError {
    /// The error in words.
    pub fn describe(&self) -> (s: String)
        ensures
            s@ == classifier_error_text(*self),
    {
        match self {
            ClassifierError::EmptyTrainingSet => "classifier training set was empty".to_owned(),
            ClassifierError::NonFiniteParameters =>
                "classifier training produced non-finite parameters".to_owned(),
            ClassifierError::MalformedParameters(d) => join(
                "classifier parameters are malformed: ",
                d,
            ),
        }
    }
}

/// Why stored data could not be read or written.
#[derive(Clone, Debug)]
pub enum PersistenceError {
    /// The file could not be read or written; the text says why.
    Io(String),
    /// The text is no JSON, or not of the expected shape; the text says why.
    Json(String),
    /// The file's version is not the current one.
    SchemaMismatch { file: String, found: u64, expected: u32 },
    /// The version is right and the contents are not usable.
    InvalidData { file: String, reason: String },
}

impl PersistenceError {
    /// The error is `InvalidData` for this file with a reason that fits.
    pub open spec fn invalid_data(
        self,
        file: Seq<char>,
        fits: spec_fn(Seq<char>) -> bool,
    ) -> bool {
        self matches PersistenceError::InvalidData { file: f, reason } && f@ == file && fits(reason@)
    }

    /// The error in words.
    pub open spec fn text(&self) -> Seq<char> {
        match self {
            PersistenceError::Io(e) => "I/O error: "@ + e@,
            PersistenceError::Json(e) => "malformed JSON: "@ + e@,
            PersistenceError::SchemaMismatch { file, found, expected } => file@
                + ": schema_version "@ + decimal(*found as nat) + " does not match expected "@
                + decimal(*expected as nat)
                + " — this file must be migrated or recalibrated, not loaded as-is"@,
            PersistenceError::InvalidData { file, reason } => file@ + ": invalid contents — "@
                + reason@,
        }
    }

    pub fn describe(&self) -> (s: String)
        ensures
            s@ == self.text(),
    {
        match self {
            PersistenceError::Io(e) => join("I/O error: ", e),
            PersistenceError::Json(e) => join("malformed JSON: ", e),
            PersistenceError::SchemaMismatch { file, found, expected } => {
                let found = decimal_text(*found);
                let expected = decimal_text(*expected as u64);
                let start = join3(file, ": schema_version ", &found);
                let middle = join3(&start, " does not match expected ", &expected);
                join(
                    &middle,
                    " — this file must be migrated or recalibrated, not loaded as-is",
                )
            },
            PersistenceError::InvalidData { file, reason } => join3(
                file,
                ": invalid contents — ",
                reason,
            ),
        }
    }
}

/// What `serde_json` makes of a text: the unsigned integer under a key of the
/// value it holds (`None` where there is no such key, or no such number under
/// it), or the message with which it refuses the text.
pub uninterp spec fn json_number(s: Seq<char>, key: Seq<char>) -> Result<Option<u64>, Seq<char>>;

/// `serde_json::from_str` to a `Value`, `Value::get` of a key and
/// `Value::as_u64` of what stands there: see [`json_number`].
#[verifier::external_body]
fn read_number(s: &str, key: &str) -> (r: Result<Option<u64>, String>)
    ensures
        match json_number(s@, key@) {
            Ok(v) => r == Ok::<Option<u64>, String>(v),
            Err(t) => r matches Err(e) && e@ == t,
        },
{
    match serde_json::from_str::<serde_json::Value>(s) {
        Ok(value) => Ok(value.get(key).and_then(serde_json::Value::as_u64)),
        Err(e) => Err(e.to_string()),
    }
}

/// The version of a stored text: the number under `schema_version`.
pub open spec fn json_version(s: Seq<char>) -> Result<Option<u64>, Seq<char>> {
    json_number(s, "schema_version"@)
}

/// The version that a file counts as: a file without one has version 0.
pub open spec fn version_of(found: Option<u64>) -> u64 {
    match found {
        Some(v) => v,
        None => 0,
    }
}

/// The text was JSON and its version is the expected one.
pub open spec fn version_is(found: Result<Option<u64>, Seq<char>>, expected: u32) -> bool {
    found matches Ok(v) && version_of(v) == expected
}

/// `r` is what comes of a text with this version: the message where it is no
/// JSON, a mismatch where the version is another one, and otherwise what the
/// text decodes to.
pub open spec fn versioned<T>(
    found: Result<Option<u64>, Seq<char>>,
    expected: u32,
    file: Seq<char>,
    decoded: Result<T, String>,
    r: Result<T, PersistenceError>,
) -> bool {
    match found {
        Err(t) => r matches Err(PersistenceError::Json(e)) && e@ == t,
        Ok(v) => if version_of(v) != expected {
            r matches Err(PersistenceError::SchemaMismatch { file: f, found, expected: x })
                && f@ == file && found == version_of(v) && x == expected
        } else {
            match decoded {
                Ok(value) => r == Ok::<T, PersistenceError>(value),
                Err(t) => r matches Err(PersistenceError::Json(e)) && e@ == t@,
            }
        },
    }
}

/// Take a value out of JSON text, but only where the text's version is the
/// expected one. `decoded` is what the text decodes to.
pub fn parse_versioned<T>(
    s: &str,
    expected: u32,
    file: &str,
    decoded: Result<T, String>,
) -> (r: Result<T, PersistenceError>)
    ensures
        versioned(json_version(s@), expected, file@, decoded, r),
{
    accept_version(read_number(s, "schema_version"), expected, file, decoded)
}

/// What comes of a text whose version was read: see [`versioned`].
pub fn accept_version<T>(
    found: Result<Option<u64>, String>,
    expected: u32,
    file: &str,
    decoded: Result<T, String>,
) -> (r: Result<T, PersistenceError>)
    ensures
        versioned(
            match found {
                Ok(v) => Ok(v),
                Err(t) => Err(t@),
            },
            expected,
            file@,
            decoded,
            r,
        ),
{
    let version: u64 = match found {
        Err(t) => return Err(PersistenceError::Json(t)),
        Ok(Some(v)) => v,
        Ok(None) => 0,
    };
    if version != expected as u64 {
        return Err(
            PersistenceError::SchemaMismatch { file: file.to_owned(), found: version, expected },
        );
    }
    match decoded {
        Ok(value) => Ok(value),
        Err(t) => Err(PersistenceError::Json(t)),
    }
}

/// What is of the right version is taken as it decodes: nothing of it is lost or
/// changed on the way.
pub proof fn current_versions_are_taken<T>(
    found: Result<Option<u64>, Seq<char>>,
    expected: u32,
    file: Seq<char>,
    value: T,
    r: Result<T, PersistenceError>,
)
    requires
        versioned(found, expected, file, Ok(value), r),
        version_is(found, expected),
    ensures
        r == Ok::<T, PersistenceError>(value),
{
}

/// Nothing of another version is ever taken, whatever it decodes to.
pub proof fn other_versions_are_refused<T>(
    found: Result<Option<u64>, Seq<char>>,
    expected: u32,
    file: Seq<char>,
    decoded: Result<T, String>,
    r: Result<T, PersistenceError>,
)
    requires
        versioned(found, expected, file, decoded, r),
        !version_is(found, expected),
    ensures
        r is Err,
{
}

/// Stored data is taken exactly where its text is JSON of the expected version and
/// decodes; a text without a version counts as version 0. What is refused says
/// why: the message of the text or of the decoding, or both versions and the file.
pub proof fn only_the_expected_version_is_taken<T>(
    found: Result<Option<u64>, String>,
    expected: u32,
    file: &str,
    decoded: Result<T, String>,
    r: Result<T, PersistenceError>,
)
    requires
        call_ensures(accept_version::<T>, (found, expected, file, decoded), r),
    ensures
        r is Ok <==> decoded is Ok && (found matches Ok(v) && (v == Some(expected as u64) || (
        v is None && expected == 0))),
        r matches Ok(value) ==> decoded == Ok::<T, String>(value),
        r matches Err(e) ==> {
            &&& !(e is Io) && !(e is InvalidData)
            &&& e matches PersistenceError::SchemaMismatch { file: f, found: n, expected: x } ==> f@
                == file@ && x == expected && n != expected && (found == Ok::<Option<u64>, String>(
                Some(n),
            ) || (n == 0 && found == Ok::<Option<u64>, String>(None)))
            &&& e matches PersistenceError::Json(m) ==> (found matches Err(t) && t@ == m@) || (
            found is Ok && (decoded matches Err(t) && t@ == m@))
            &&& found is Err ==> e is Json
        },
{
}

/// A stored profile is taken exactly where it has the current version, decodes and
/// is valid. Settings need only the first two.
pub proof fn stored_profiles_are_checked(
    s: &str,
    file: &str,
    decoded: Result<Profile, String>,
    r: Result<Profile, PersistenceError>,
    config: Result<Config, String>,
    c: Result<Config, PersistenceError>,
)
    requires
        call_ensures(Profile::from_json, (s, file, decoded), r),
        call_ensures(Config::from_json, (s, file, config), c),
    ensures
        r is Ok <==> json_number(s@, "schema_version"@) == Ok::<Option<u64>, Seq<char>>(Some(1))
            && (decoded matches Ok(p) && p.valid()),
        r matches Ok(p) ==> decoded == Ok::<Profile, String>(p),
        c is Ok <==> json_number(s@, "schema_version"@) == Ok::<Option<u64>, Seq<char>>(Some(1))
            && config is Ok,
        c matches Ok(d) ==> config == Ok::<Config, String>(d),
        r matches Err(e) ==> (e is InvalidData <==> json_number(s@, "schema_version"@) == Ok::<
            Option<u64>,
            Seq<char>,
        >(Some(1)) && decoded is Ok),
{
}

/// A profile is valid exactly where its classifier is and every zone's place and
/// size are finite numbers. The reason for refusing one names the first zone whose
/// layout is not.
pub proof fn valid_profiles_have_finite_layouts(
    p: &Profile,
    r: Result<(), String>,
    model: Result<(), ClassifierError>,
)
    requires
        call_ensures(Profile::validate, (p,), r),
        call_ensures(ClassifierParams::validate, (&p.classifier,), model),
    ensures
        r is Ok <==> model is Ok && forall|i: int|
            0 <= i < p.zones@.len() ==> (#[trigger] p.zones@[i]).layout.x.finite()
                && p.zones@[i].layout.y.finite() && p.zones@[i].layout.width.finite()
                && p.zones@[i].layout.height.finite(),
        model is Ok ==> (r matches Err(reason) ==> exists|i: int|
            0 <= i < p.zones@.len() && !(#[trigger] p.zones@[i]).layout.finite() && reason@
                == "zone ZoneId("@ + hyphenated(p.zones@[i].id.value) + ") has a non-finite layout"@
                && forall|j: int| 0 <= j < i ==> (#[trigger] p.zones@[j]).layout.finite()),
{
    if model is Ok && r is Err {
        let reason = r->Err_0;
        let i = choose|i: int| #[trigger]
            first_bad_layout(p.zones@, i) && reason@ == bad_layout_text(p.zones@[i].id);
        assert(!p.zones@[i].layout.finite());
    }
}

/// The zones that do nothing yet are those without an action, and all of them are
/// counted.
pub proof fn unbound_zones_have_no_action(zones: Seq<Zone>)
    ensures
        unbound(zones) == zones.filter(|z: Zone| z.actions@.len() == 0).len(),
    decreases zones.len(),
{
    reveal(Seq::filter);
    if zones.len() > 0 {
        unbound_zones_have_no_action(zones.drop_last());
    }
}

/// A profile is to be calibrated anew exactly where the device has another name or
/// another sample rate than the one that it was made with.
pub proof fn other_devices_need_recalibration(
    p: &Profile,
    name: String,
    rate: u32,
    current: &DeviceFingerprint,
    current_name: String,
    current_rate: u32,
    r: bool,
)
    requires
        call_ensures(DeviceFingerprint::from_device, (name, rate), p.device_fingerprint),
        call_ensures(DeviceFingerprint::from_device, (current_name, current_rate), *current),
        call_ensures(Profile::needs_recalibration_for, (p, current), r),
    ensures
        r <==> name@ != current_name@ || rate != current_rate,
{
    fingerprints_tell_devices_apart(p.device_fingerprint, rate, *current, current_rate);
}

/// A profile that is refused is refused for the file that it was meant for or came
/// from, with a reason; a valid one is not refused.
pub proof fn refusals_name_the_file(p: &Profile, file: &str, r: Result<(), PersistenceError>)
    requires
        call_ensures(Profile::check, (p, file), r),
    ensures
        r is Ok <==> p.valid(),
        r matches Err(e) ==> (e matches PersistenceError::InvalidData { file: f, reason } && f@
            == file@ && p.invalid_because(reason@)),
{
}

/// A profile whose classifier is refused is refused for the classifier's own reason,
/// whatever its layouts are.
pub proof fn classifier_faults_come_first(p: &Profile, r: Result<(), String>, e: ClassifierError)
    requires
        call_ensures(Profile::validate, (p,), r),
        call_ensures(ClassifierParams::validate, (&p.classifier,), Err(e)),
    ensures
        r matches Err(reason) && reason@ == classifier_error_text(e),
{
}

} // verus!
