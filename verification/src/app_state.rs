//! The state of the application and what each request does to it.
//!
//! Reading and writing files is the caller's part. Where a request needs it, it
//! comes in steps: one says which file, the next takes what came of it.

use vstd::prelude::*;

use crate::clock::{report_file, utc_text};
use crate::evaluation::EvaluationReport;
use crate::ids::{hyphenated, text_names_one_identity, ProfileId};
use crate::order::{
    arrange, arranged, arranged_is_ordered, codes, keys_are_compared_where_they_differ, precedes,
    text_before, Keyed,
};
use crate::profile::{Config, PersistenceError, Profile, Theme, Timestamp};
use crate::text::{
    blank, chars_of, control, edges_strip_white_space_and_dots, is_blank, join, strip, strip_ends,
    strip_leaves_a_part, strip_takes_off_the_ends_alone, strips, text_of, white_space, Edge,
};
use crate::value::{validity_shows_in_the_view, ProfileView, Value};

verus! {

/// A screen of the main navigation.
#[derive(Clone, Copy, Debug, PartialEq, Eq, Structural)]
pub enum Screen {
    Home,
    Zones,
    Diagnostics,
    Evaluation,
    Settings,
}

impl Screen {
    /// The screens from top to bottom.
    pub const ALL: [Screen; 5] = [
        Screen::Home,
        Screen::Zones,
        Screen::Diagnostics,
        Screen::Evaluation,
        Screen::Settings,
    ];

    pub open spec fn label_text(self) -> Seq<char> {
        match self {
            Screen::Home => "Home"@,
            Screen::Zones => "Zones & profiles"@,
            Screen::Diagnostics => "Diagnostics"@,
            Screen::Evaluation => "Evaluation"@,
            Screen::Settings => "Settings"@,
        }
    }

    pub fn label(self) -> (s: &'static str)
        ensures
            s@ == self.label_text(),
    {
        match self {
            Screen::Home => "Home",
            Screen::Zones => "Zones & profiles",
            Screen::Diagnostics => "Diagnostics",
            Screen::Evaluation => "Evaluation",
            Screen::Settings => "Settings",
        }
    }

    pub open spec fn glyph_text(self) -> Seq<char> {
        match self {
            Screen::Home => "⌂"@,
            Screen::Zones => "▦"@,
            Screen::Diagnostics => "∿"@,
            Screen::Evaluation => "✓"@,
            Screen::Settings => "⚙"@,
        }
    }

    /// A sign that stands before the label.
    pub fn glyph(self) -> (s: &'static str)
        ensures
            s@ == self.glyph_text(),
    {
        match self {
            Screen::Home => "⌂",
            Screen::Zones => "▦",
            Screen::Diagnostics => "∿",
            Screen::Evaluation => "✓",
            Screen::Settings => "⚙",
        }
    }
}

/// Whether taps are acted on.
#[derive(Clone, Copy, Debug, PartialEq, Eq, Structural)]
pub enum ListeningState {
    Listening,
    Paused,
    /// The device failed; this must be resolved first.
    Error,
}

impl ListeningState {
    pub open spec fn label_text(self) -> Seq<char> {
        match self {
            ListeningState::Listening => "Listening"@,
            ListeningState::Paused => "Paused"@,
            ListeningState::Error => "Error"@,
        }
    }

    pub fn label(self) -> (s: &'static str)
        ensures
            s@ == self.label_text(),
    {
        match self {
            ListeningState::Listening => "Listening",
            ListeningState::Paused => "Paused",
            ListeningState::Error => "Error",
        }
    }

    /// Listening and paused change places; an error stays.
    pub open spec fn toggled(self) -> ListeningState {
        match self {
            ListeningState::Listening => ListeningState::Paused,
            ListeningState::Paused => ListeningState::Listening,
            ListeningState::Error => ListeningState::Error,
        }
    }
}

/// Toggling twice changes nothing, and an error is never toggled away.
pub proof fn toggling_twice_restores(s: ListeningState)
    ensures
        s.toggled().toggled() == s,
        s.toggled() == ListeningState::Error <==> s == ListeningState::Error,
{
}

/// A theme that fades into another.
#[derive(Clone, Copy, Debug, PartialEq, Eq, Structural)]
pub struct ThemeTransition {
    pub from: Theme,
    pub to: Theme,
    /// When it began, in nanoseconds of the caller's clock.
    pub started_at: u64,
}

/// What a list of profiles shows of each.
#[derive(Clone, Debug)]
pub struct ProfileSummary {
    pub id: ProfileId,
    pub name: String,
    pub zone_count: usize,
    pub is_active: bool,
}

/// What a summary says.
pub struct Summary {
    pub id: ProfileId,
    pub name: Seq<char>,
    pub zone_count: nat,
    pub is_active: bool,
}

impl View for ProfileSummary {
    type V = Summary;

    open spec fn view(&self) -> Summary {
        Summary {
            id: self.id,
            name: self.name@,
            zone_count: self.zone_count as nat,
            is_active: self.is_active,
        }
    }
}

impl Keyed for ProfileSummary {
    open spec fn key(&self) -> Seq<int> {
        codes(self.name@)
    }

    fn before(&self, other: &ProfileSummary) -> (r: bool) {
        text_before(&self.name, &other.name)
    }
}

/// The summary of a profile.
pub open spec fn summary_of(p: Profile, active: Option<ProfileId>) -> Summary {
    Summary {
        id: p.id,
        name: p.name@,
        zone_count: p.zones@.len(),
        is_active: active == Some(p.id),
    }
}

/// The summaries of the files that could be read, in their order.
pub open spec fn readable(
    loaded: Seq<Result<Profile, String>>,
    active: Option<ProfileId>,
) -> Seq<Summary>
    decreases loaded.len(),
{
    if loaded.len() == 0 {
        Seq::empty()
    } else {
        let before = readable(loaded.drop_last(), active);
        match loaded.last() {
            Ok(p) => before.push(summary_of(p, active)),
            Err(_) => before,
        }
    }
}

/// The views of summaries.
pub open spec fn summaries(s: Seq<ProfileSummary>) -> Seq<Summary> {
    Seq::new(s.len(), |i: int| s[i]@)
}

/// A profile file that can be imported.
#[derive(Clone, Debug)]
pub struct ImportEntry {
    pub file: String,
    pub name: String,
}

impl Keyed for ImportEntry {
    open spec fn key(&self) -> Seq<int> {
        codes(self.name@)
    }

    fn before(&self, other: &ImportEntry) -> (r: bool) {
        text_before(&self.name, &other.name)
    }
}

impl ImportEntry {
    /// The entry of a file: by the profile's name, or by the file's stem where
    /// the profile cannot be read.
    pub fn new(file: String, stem: Option<String>, loaded: &Result<Profile, String>) -> (e:
        ImportEntry)
        ensures
            e.file == file,
            e.name@ == match *loaded {
                Ok(p) => p.name@,
                Err(_) => match stem {
                    Some(s) => s@,
                    None => "profile"@,
                },
            },
    {
        let name = match loaded {
            Ok(p) => p.name.clone(),
            Err(_) => match stem {
                Some(s) => s,
                None => "profile".to_owned(),
            },
        };
        ImportEntry { file, name }
    }
}

/// The files that can be imported, by name.
pub fn list_importable_profiles(entries: Vec<ImportEntry>) -> (r: Vec<ImportEntry>)
    ensures
        r@ == arranged(entries@),
{
    arrange(entries)
}

impl Keyed for EvaluationReport {
    open spec fn key(&self) -> Seq<int> {
        seq![self.run_at.secs as int, self.run_at.nanos as int]
    }

    fn before(&self, other: &EvaluationReport) -> (r: bool) {
        proof {
            let a = self.key();
            let b = other.key();
            assert(a.skip(1).skip(1) =~= Seq::<int>::empty());
            assert(b.skip(1).skip(1) =~= Seq::<int>::empty());
            reveal_with_fuel(precedes, 3);
        }
        self.run_at.secs < other.run_at.secs || (self.run_at.secs == other.run_at.secs
            && self.run_at.nanos < other.run_at.nanos)
    }
}

/// The reports of a profile, the oldest first.
pub fn list_evaluation_reports(reports: Vec<EvaluationReport>) -> (r: Vec<EvaluationReport>)
    ensures
        r@ == arranged(reports@),
{
    arrange(reports)
}

/// What came of removing a profile's file.
#[derive(Clone, Debug)]
pub enum Removal {
    Removed,
    /// There was no such file.
    Absent,
    /// The file is still there; the text says why.
    Failed(String),
}

/// Name of a profile's file.
pub open spec fn profile_file_text(id: ProfileId) -> Seq<char> {
    hyphenated(id.value) + ".json"@
}

/// Name of a profile's file.
pub fn profile_file(id: ProfileId) -> (s: String)
    ensures
        s@ == profile_file_text(id),
{
    let text = id.text();
    join(&text, ".json")
}

/// No two profiles share a file.
pub proof fn profile_files_do_not_collide(a: ProfileId, b: ProfileId)
    requires
        profile_file_text(a) == profile_file_text(b),
    ensures
        a == b,
{
    assert(profile_file_text(a).take(36) =~= hyphenated(a.value));
    assert(profile_file_text(b).take(36) =~= hyphenated(b.value));
    text_names_one_identity(a.value, b.value);
}

/// The settings to start with: those that were read, or the first ones where
/// there is no file or it cannot be read, with the warning to log.
fn initial_config(loaded: Option<Result<Config, PersistenceError>>) -> (r: (
    Config,
    Option<String>,
))
    ensures
        match loaded {
            Some(Ok(c)) => r.0 == c && r.1 is None,
            Some(Err(e)) => call_ensures(Config::default, (), r.0) && (r.1 matches Some(t) && t@
                == e.text()),
            None => call_ensures(Config::default, (), r.0) && r.1 is None,
        },
{
    match loaded {
        Some(Ok(c)) => (c, None),
        Some(Err(e)) => {
            let warning = e.describe();
            (Config::default(), Some(warning))
        },
        None => (Config::default(), None),
    }
}

/// What is said where settings are not saved because their file could not be read.
pub open spec fn refusal_text(reason: Seq<char>) -> Seq<char> {
    "the settings could not be loaded, so their file is not overwritten: "@ + reason
}

/// The state of the application.
#[derive(Clone, Debug)]
pub struct AppState {
    pub config: Config,
    /// Where the settings are stored; `None` where nothing can be stored.
    pub config_path: Option<String>,
    pub screen: Screen,
    pub listening: ListeningState,
    pub theme_transition: Option<ThemeTransition>,
    pub system_dark: bool,
    pub active_profile: Option<Profile>,
    /// Why the stored settings could not be read. They are then left alone.
    pub config_load_error: Option<String>,
}

impl AppState {
    /// The state with another profile selected in the settings.
    pub open spec fn selecting(self, id: Option<ProfileId>) -> AppState {
        AppState { config: Config { active_profile_id: id, ..self.config }, ..self }
    }

    /// The state to start with, given what came of reading the settings (`None`
    /// where there is no file).
    pub fn load(
        loaded: Option<Result<Config, PersistenceError>>,
        config_path: Option<String>,
        system_dark: bool,
    ) -> (s: AppState)
        ensures
            s == (AppState {
                config: s.config,
                config_path,
                screen: Screen::Home,
                listening: ListeningState::Paused,
                theme_transition: None,
                system_dark,
                active_profile: None,
                config_load_error: s.config_load_error,
            }),
            match loaded {
                Some(Ok(c)) => s.config == c && s.config_load_error is None,
                Some(Err(e)) => call_ensures(Config::default, (), s.config) && (
                s.config_load_error matches Some(t) && t@ == e.text()),
                None => call_ensures(Config::default, (), s.config) && s.config_load_error is None,
            },
    {
        let (config, warning) = initial_config(loaded);
        let mut s = AppState::with_config(config, config_path, system_dark);
        s.config_load_error = warning;
        s
    }

    /// Where the settings are to be written; nowhere (`Ok(None)`) without a
    /// place. Refused where the file could not be read: it is not overwritten.
    pub fn save_config(&self) -> (r: Result<Option<&String>, String>)
        ensures
            match (self.config_path, self.config_load_error) {
                (None, _) => r == Ok::<Option<&String>, String>(None),
                (Some(path), None) => r == Ok::<Option<&String>, String>(Some(&path)),
                (Some(_), Some(reason)) => r matches Err(e) && e@ == refusal_text(reason@),
            },
    {
        match (&self.config_path, &self.config_load_error) {
            (None, _) => Ok(None),
            (Some(path), None) => Ok(Some(path)),
            (Some(_), Some(reason)) => Err(
                join(
                    "the settings could not be loaded, so their file is not overwritten: ",
                    reason,
                ),
            ),
        }
    }

    /// The state of a fresh start.
    pub fn with_config(config: Config, config_path: Option<String>, system_dark: bool) -> (s:
        AppState)
        ensures
            s == (AppState {
                config,
                config_path,
                screen: Screen::Home,
                listening: ListeningState::Paused,
                theme_transition: None,
                system_dark,
                active_profile: None,
                config_load_error: None,
            }),
    {
        AppState {
            config,
            config_path,
            screen: Screen::Home,
            listening: ListeningState::Paused,
            theme_transition: None,
            system_dark,
            active_profile: None,
            config_load_error: None,
        }
    }

    /// The file of the active profile, where there is one to load.
    pub fn active_profile_file(&self) -> (r: Option<String>)
        ensures
            match (self.config.active_profile_id, self.config_path) {
                (Some(id), Some(_)) => r matches Some(f) && f@ == profile_file_text(id),
                _ => r is None,
            },
    {
        match (self.config.active_profile_id, &self.config_path) {
            (Some(id), Some(_)) => Some(profile_file(id)),
            _ => None,
        }
    }

    /// Take what came of loading the active profile; without it, or where it
    /// could not be read, none is active in memory.
    pub fn reload_active_profile(&mut self, loaded: Option<Result<Profile, String>>)
        ensures
            *final(self) == (AppState {
                active_profile: match loaded {
                    Some(Ok(p)) => Some(p),
                    _ => None,
                },
                ..*old(self)
            }),
    {
        self.active_profile = match loaded {
            Some(Ok(p)) => Some(p),
            _ => None,
        };
    }

    /// The profiles to show, by name: those of the given files that could be
    /// read. Without a place to store there are none.
    pub fn list_profiles(&self, loaded: &Vec<Result<Profile, String>>) -> (r: Vec<ProfileSummary>)
        ensures
            self.config_path is None ==> r@.len() == 0,
            self.config_path is Some ==> exists|listed: Seq<ProfileSummary>|
                r@ == #[trigger] arranged(listed) && summaries(listed) == readable(
                    loaded@,
                    self.config.active_profile_id,
                ),
    {
        if self.config_path.is_none() {
            return Vec::new();
        }
        let active: Option<ProfileId> = self.config.active_profile_id;
        let mut listed: Vec<ProfileSummary> = Vec::new();
        let mut i: usize = 0;
        proof {
            assert(summaries(listed@) =~= Seq::<Summary>::empty());
        }
        while i < loaded.len()
            invariant
                i <= loaded@.len(),
                active == self.config.active_profile_id,
                summaries(listed@) == readable(loaded@.take(i as int), active),
            decreases loaded@.len() - i,
        {
            proof {
                assert(loaded@.take(i + 1).drop_last() =~= loaded@.take(i as int));
            }
            match &loaded[i] {
                Ok(p) => {
                    let is_active: bool = match active {
                        Some(id) => id == p.id,
                        None => false,
                    };
                    let ghost before = listed@;
                    listed.push(
                        ProfileSummary {
                            id: p.id,
                            name: p.name.clone(),
                            zone_count: p.zones.len(),
                            is_active,
                        },
                    );
                    proof {
                        assert(summaries(listed@) =~= summaries(before).push(
                            summary_of(*p, active),
                        ));
                    }
                },
                Err(_) => {},
            }
            i += 1;
        }
        proof {
            assert(loaded@.take(i as int) =~= loaded@);
        }
        arrange(listed)
    }

    /// Ask for another profile. `Ok(None)` where it is active already; otherwise
    /// the file to load first, which must be readable before anything changes.
    pub fn switch_profile(&self, id: ProfileId) -> (r: Result<Option<String>, String>)
        ensures
            self.config.active_profile_id == Some(id) ==> r == Ok::<Option<String>, String>(None),
            self.config.active_profile_id != Some(id) && self.config_path is Some ==> (r matches
                Ok(Some(f)) && f@ == profile_file_text(id)),
            self.config.active_profile_id != Some(id) && self.config_path is None ==> (r matches
                Err(e) && e@ == "no %APPDATA% location is available to switch profiles"@),
    {
        let already: bool = match self.config.active_profile_id {
            Some(active) => active == id,
            None => false,
        };
        if already {
            return Ok(None);
        }
        if self.config_path.is_none() {
            return Err("no %APPDATA% location is available to switch profiles".to_owned());
        }
        Ok(Some(profile_file(id)))
    }

    /// Take what came of loading the profile to switch to. On success it is
    /// selected, the settings are to be saved, and the previous selection is
    /// given back; a failure changes nothing.
    pub fn switch_loaded(&mut self, id: ProfileId, loaded: Result<Profile, String>) -> (r: Result<
        Option<ProfileId>,
        String,
    >)
        ensures
            match loaded {
                Ok(_) => r == Ok::<Option<ProfileId>, String>(old(self).config.active_profile_id)
                    && *final(self) == old(self).selecting(Some(id)),
                Err(e) => r == Err::<Option<ProfileId>, String>(e) && *final(self) == *old(self),
            },
    {
        match loaded {
            Ok(_) => {
                let previous: Option<ProfileId> = self.config.active_profile_id;
                self.config.active_profile_id = Some(id);
                Ok(previous)
            },
            Err(e) => Err(e),
        }
    }

    /// Take what came of saving the settings after a switch. A failure puts the
    /// previous selection back.
    pub fn switch_saved(
        &mut self,
        previous: Option<ProfileId>,
        saved: Result<(), String>,
    ) -> (r: Result<(), String>)
        ensures
            match saved {
                Ok(_) => r is Ok,
                Err(e) => r == Err::<(), String>(e),
            },
            *final(self) == match saved {
                Ok(()) => *old(self),
                Err(_) => old(self).selecting(previous),
            },
    {
        match saved {
            Ok(()) => Ok(()),
            Err(e) => {
                self.config.active_profile_id = previous;
                Err(e)
            },
        }
    }

    /// The file that the active profile is exported to.
    pub fn export_active_profile(&self) -> (r: Result<String, String>)
        ensures
            match self.active_profile {
                None => r matches Err(e) && e@ == "no active profile to export"@,
                Some(p) => if self.config_path is None {
                    r matches Err(e) && e@ == "no %APPDATA% location is available to export"@
                } else {
                    r matches Ok(f) && f@ == sanitized(p.name@) + ".json"@
                },
            },
    {
        match &self.active_profile {
            None => Err("no active profile to export".to_owned()),
            Some(p) => {
                if self.config_path.is_none() {
                    return Err("no %APPDATA% location is available to export".to_owned());
                }
                let stem = sanitize_filename(&p.name);
                Ok(join(&stem, ".json"))
            },
        }
    }

    /// Where a profile is to be written.
    pub fn save_profile(&self, profile: &Profile) -> (r: Result<String, String>)
        ensures
            match self.config_path {
                None => r matches Err(e) && e@
                    == "no %APPDATA% location is available to save the profile"@,
                Some(_) => r matches Ok(f) && f@ == profile_file_text(profile.id),
            },
    {
        if self.config_path.is_none() {
            return Err("no %APPDATA% location is available to save the profile".to_owned());
        }
        Ok(profile_file(profile.id))
    }

    /// The profile's file was written: it is selected, and the settings are to
    /// be saved.
    pub fn profile_written(&mut self, id: ProfileId)
        ensures
            *final(self) == old(self).selecting(Some(id)),
    {
        self.config.active_profile_id = Some(id);
    }

    /// Take what came of saving the settings after a profile was written: on
    /// success the profile is the active one in memory, too.
    pub fn profile_saved(&mut self, profile: &Profile, saved: Result<(), String>) -> (r: Result<
        (),
        String,
    >)
        ensures
            match saved {
                Ok(_) => r is Ok,
                Err(e) => r == Err::<(), String>(e),
            },
            saved is Err ==> *final(self) == *old(self),
            saved is Ok ==> (final(self).active_profile matches Some(p) && p@ == profile@
                && *final(self) == (AppState { active_profile: Some(p), ..*old(self) })),
    {
        match saved {
            Ok(()) => {
                self.active_profile = Some(profile.copy());
                Ok(())
            },
            Err(e) => Err(e),
        }
    }

    /// The active profile as it is to be saved now.
    pub fn save_active_profile(&self, now: Timestamp) -> (r: Result<Profile, String>)
        ensures
            match self.active_profile {
                None => r matches Err(e) && e@ == "no active profile to save"@,
                Some(p) => r matches Ok(q) && q@ == (ProfileView { updated_at: now, ..p@ }),
            },
    {
        match &self.active_profile {
            None => Err("no active profile to save".to_owned()),
            Some(p) => {
                let mut q = p.copy();
                q.updated_at = now;
                Ok(q)
            },
        }
    }

    /// Whether the active profile is to be saved on the way out: not where there
    /// is none, nor where the file holds the same. `on_disk` is what the file
    /// holds, where it could be read.
    pub fn save_active_profile_if_changed(&self, on_disk: &Option<Profile>) -> (r: bool)
        ensures
            r == match self.active_profile {
                None => false,
                Some(p) => match *on_disk {
                    Some(d) => self.config_path is None || !d.equals(&p),
                    None => true,
                },
            },
    {
        match &self.active_profile {
            None => false,
            Some(p) => match on_disk {
                Some(d) => self.config_path.is_none() || !d.same(p),
                None => true,
            },
        }
    }

    /// The profile to save for one that was read from an import file: it gets an
    /// identity of its own, so that it overwrites none.
    pub fn import_profile(
        loaded: Result<Profile, String>,
        fresh: ProfileId,
        now: Timestamp,
    ) -> (r: Result<Profile, String>)
        ensures
            match loaded {
                Ok(p) => r == Ok::<Profile, String>((Profile { id: fresh, updated_at: now, ..p })),
                Err(e) => r == Err::<Profile, String>(e),
            },
    {
        match loaded {
            Ok(mut p) => {
                p.id = fresh;
                p.updated_at = now;
                Ok(p)
            },
            Err(e) => Err(e),
        }
    }

    /// A copy of the active profile to save under another name: the same
    /// calibration, zones and actions with an identity of its own. A blank name
    /// becomes that of a copy.
    pub fn duplicate_active_profile(
        &self,
        new_name: &str,
        fresh: ProfileId,
        now: Timestamp,
    ) -> (r: Result<Profile, String>)
        ensures
            match self.active_profile {
                None => r matches Err(e) && e@ == "no active profile to duplicate"@,
                Some(p) => r matches Ok(q) && q@ == (ProfileView {
                    id: fresh,
                    name: copy_name(p.name@, new_name@),
                    created_at: now,
                    updated_at: now,
                    ..p@
                }) && q.valid() == p.valid(),
            },
    {
        match &self.active_profile {
            None => Err("no active profile to duplicate".to_owned()),
            Some(p) => {
                let mut q = p.copy();
                q.id = fresh;
                let name = strip_ends(&chars_of(new_name), Edge::WhiteSpace);
                q.name = if name.len() == 0 {
                    join(&p.name, " copy")
                } else {
                    text_of(&name)
                };
                q.created_at = now;
                q.updated_at = now;
                proof {
                    validity_shows_in_the_view(q, *p);
                }
                Ok(q)
            },
        }
    }

    /// The active profile as it is to be saved under another name, without
    /// surrounding white space; a blank name is refused.
    pub fn rename_active_profile(&self, new_name: &str, now: Timestamp) -> (r: Result<
        Profile,
        String,
    >)
        ensures
            match self.active_profile {
                None => r matches Err(e) && e@ == "no active profile to rename"@,
                Some(p) => if blank(new_name@) {
                    r matches Err(e) && e@ == "a profile needs a name"@
                } else {
                    r matches Ok(q) && q@ == (ProfileView {
                        name: strip(new_name@, Edge::WhiteSpace),
                        updated_at: now,
                        ..p@
                    }) && q.valid() == p.valid()
                },
            },
    {
        match &self.active_profile {
            None => Err("no active profile to rename".to_owned()),
            Some(p) => {
                if is_blank(new_name) {
                    return Err("a profile needs a name".to_owned());
                }
                let mut q = p.copy();
                q.name = text_of(&strip_ends(&chars_of(new_name), Edge::WhiteSpace));
                q.updated_at = now;
                proof {
                    validity_shows_in_the_view(q, *p);
                }
                Ok(q)
            },
        }
    }

    /// What to remove for a profile: its file, and the directory of its reports.
    pub fn delete_profile(&self, id: ProfileId) -> (r: Result<(String, String), String>)
        ensures
            match self.config_path {
                None => r matches Err(e) && e@
                    == "no %APPDATA% location is available to delete profiles"@,
                Some(_) => r matches Ok((file, reports)) && file@ == profile_file_text(id)
                    && reports@ == hyphenated(id.value),
            },
    {
        if self.config_path.is_none() {
            return Err("no %APPDATA% location is available to delete profiles".to_owned());
        }
        Ok((profile_file(id), id.text()))
    }

    /// Take what came of removing a profile's file. A file that was not there is
    /// as good as removed. Says whether the settings are to be saved: where the
    /// profile was selected, nothing is any more.
    pub fn profile_deleted(&mut self, id: ProfileId, removal: Removal) -> (r: Result<bool, String>)
        ensures
            match removal {
                Removal::Failed(e) => r == Err::<bool, String>(e) && *final(self) == *old(self),
                _ => if old(self).config.active_profile_id == Some(id) {
                    r == Ok::<bool, String>(true) && *final(self) == (AppState {
                        active_profile: None,
                        ..old(self).selecting(None)
                    })
                } else {
                    r == Ok::<bool, String>(false) && *final(self) == *old(self)
                },
            },
    {
        match removal {
            Removal::Failed(e) => return Err(e),
            _ => {},
        }
        let selected: bool = match self.config.active_profile_id {
            Some(active) => active == id,
            None => false,
        };
        if selected {
            self.config.active_profile_id = None;
            self.active_profile = None;
        }
        Ok(selected)
    }

    /// Where a report is to be written: the directory of its profile's reports,
    /// and the file for its moment.
    pub fn save_evaluation_report(&self, report: &EvaluationReport) -> (r: Result<
        (String, String),
        String,
    >)
        ensures
            match self.config_path {
                None => r matches Err(e) && e@
                    == "no %APPDATA% location is available to save the report"@,
                Some(_) => match utc_text(
                    report.run_at.secs,
                    report.run_at.nanos,
                    "%Y%m%dT%H%M%S%3fZ"@,
                ) {
                    Some(stamp) => r matches Ok((dir, file)) && dir@ == hyphenated(
                        report.profile_id.value,
                    ) && file@ == stamp + ".json"@,
                    None => r matches Err(e) && e@ == "the report has no valid time"@,
                },
            },
    {
        if self.config_path.is_none() {
            return Err("no %APPDATA% location is available to save the report".to_owned());
        }
        match report_file(report.run_at, ".json") {
            Some(file) => Ok((report.profile_id.text(), file)),
            None => Err("the report has no valid time".to_owned()),
        }
    }

    /// Where a report is to be exported as a table: beside its report, under the
    /// same name but for the extension.
    pub fn export_evaluation_csv(&self, report: &EvaluationReport) -> (r: Result<
        (String, String),
        String,
    >)
        ensures
            match self.config_path {
                None => r matches Err(e) && e@
                    == "no %APPDATA% location is available to export the report"@,
                Some(_) => match utc_text(
                    report.run_at.secs,
                    report.run_at.nanos,
                    "%Y%m%dT%H%M%S%3fZ"@,
                ) {
                    Some(stamp) => r matches Ok((dir, file)) && dir@ == hyphenated(
                        report.profile_id.value,
                    ) && file@ == stamp + ".csv"@,
                    None => r matches Err(e) && e@ == "the report has no valid time"@,
                },
            },
    {
        if self.config_path.is_none() {
            return Err("no %APPDATA% location is available to export the report".to_owned());
        }
        match report_file(report.run_at, ".csv") {
            Some(file) => Ok((report.profile_id.text(), file)),
            None => Err("the report has no valid time".to_owned()),
        }
    }

    /// Change between listening and paused.
    pub fn toggle_listening(&mut self) -> (r: ListeningState)
        ensures
            r == old(self).listening.toggled(),
            *final(self) == (AppState { listening: r, ..*old(self) }),
    {
        self.listening = match self.listening {
            ListeningState::Listening => ListeningState::Paused,
            ListeningState::Paused => ListeningState::Listening,
            ListeningState::Error => ListeningState::Error,
        };
        self.listening
    }

    /// Begin to fade into another theme. `false`, and nothing changes, where it
    /// is the current one.
    pub fn begin_theme_switch(&mut self, theme: Theme, now: u64) -> (r: bool)
        ensures
            r == (old(self).config.theme != theme),
            *final(self) == if r {
                (AppState {
                    theme_transition: Some(
                        ThemeTransition { from: old(self).config.theme, to: theme, started_at: now },
                    ),
                    config: Config { theme, ..old(self).config },
                    ..*old(self)
                })
            } else {
                *old(self)
            },
    {
        if self.config.theme == theme {
            return false;
        }
        self.theme_transition = Some(
            ThemeTransition { from: self.config.theme, to: theme, started_at: now },
        );
        self.config.theme = theme;
        true
    }
}

/// A switch whose settings cannot be saved leaves the state as it was: going back
/// to the previous selection undoes the selection.
pub proof fn failed_switches_change_nothing(before: AppState, id: ProfileId)
    ensures
        before.selecting(Some(id)).selecting(before.config.active_profile_id) == before,
{
}

/// The name of a copy: the one that was asked for without surrounding white
/// space, or the source's with an addition.
pub open spec fn copy_name(source: Seq<char>, asked: Seq<char>) -> Seq<char> {
    let name = strip(asked, Edge::WhiteSpace);
    if name.len() == 0 {
        source + " copy"@
    } else {
        name
    }
}

/// Characters that no file name may hold.
pub open spec fn illegal(c: char) -> bool {
    c == '<' || c == '>' || c == ':' || c == '"' || c == '/' || c == '\\' || c == '|' || c == '?'
        || c == '*' || control(c)
}

/// The text with every illegal character replaced.
pub open spec fn legalised(s: Seq<char>) -> Seq<char> {
    Seq::new(
        s.len(),
        |i: int|
            if illegal(s[i]) {
                '_'
            } else {
                s[i]
            },
    )
}

/// The file name for a profile's name: without illegal characters, and without
/// white space or dots around it.
pub open spec fn sanitized(name: Seq<char>) -> Seq<char> {
    let trimmed = strip(legalised(name), Edge::WhiteSpaceAndDots);
    if trimmed.len() == 0 {
        "profile"@
    } else {
        trimmed
    }
}

/// The file name for a profile's name.
pub fn sanitize_filename(name: &str) -> (s: String)
    ensures
        s@ == sanitized(name@),
{
    let chars = chars_of(name);
    let mut clean: Vec<char> = Vec::new();
    let mut i: usize = 0;
    while i < chars.len()
        invariant
            i <= chars@.len(),
            clean@ == legalised(chars@.take(i as int)),
        decreases chars@.len() - i,
    {
        let c: char = chars[i];
        let bad: bool = c == '<' || c == '>' || c == ':' || c == '"' || c == '/' || c == '\\' || c
            == '|' || c == '?' || c == '*' || c.is_control();
        clean.push(
            if bad {
                '_'
            } else {
                c
            },
        );
        i += 1;
        proof {
            assert(clean@ =~= legalised(chars@.take(i as int)));
        }
    }
    proof {
        assert(chars@.take(i as int) =~= chars@);
    }
    let trimmed = strip_ends(&clean, Edge::WhiteSpaceAndDots);
    if trimmed.len() == 0 {
        "profile".to_owned()
    } else {
        text_of(&trimmed)
    }
}

/// A file name is never empty, holds no illegal character, and neither starts
/// nor ends with white space or a dot.
pub proof fn file_names_are_legal(name: Seq<char>)
    ensures
        sanitized(name).len() > 0,
        forall|i: int| 0 <= i < sanitized(name).len() ==> !illegal(#[trigger] sanitized(name)[i]),
        !white_space(sanitized(name)[0]),
        sanitized(name)[0] != '.',
        !white_space(sanitized(name).last()),
        sanitized(name).last() != '.',
{
    reveal_strlit("profile");
    let clean = legalised(name);
    let trimmed = strip(clean, Edge::WhiteSpaceAndDots);
    strip_leaves_a_part(clean, Edge::WhiteSpaceAndDots);
    assert forall|i: int| 0 <= i < trimmed.len() implies !illegal(#[trigger] trimmed[i]) by {
        assert(clean.contains(trimmed[i]));
        let m = clean.index_of(trimmed[i]);
        assert(!illegal(clean[m]));
    }
}

/// A file name is left as it is: making one of it again changes nothing.
pub proof fn file_names_stay(name: Seq<char>)
    ensures
        sanitized(sanitized(name)) == sanitized(name),
{
    file_names_are_legal(name);
    let s = sanitized(name);
    assert(legalised(s) =~= s);
}

/// Selecting a profile changes the selection in the settings and nothing else.
pub proof fn selecting_changes_the_selection_alone(s: AppState, id: Option<ProfileId>)
    ensures
        s.selecting(id).config.active_profile_id == id,
        s.selecting(id).config == (Config { active_profile_id: id, ..s.config }),
        s.selecting(id).config_path == s.config_path,
        s.selecting(id).screen == s.screen,
        s.selecting(id).listening == s.listening,
        s.selecting(id).theme_transition == s.theme_transition,
        s.selecting(id).system_dark == s.system_dark,
        s.selecting(id).active_profile == s.active_profile,
        s.selecting(id).config_load_error == s.config_load_error,
{
}

/// Toggling starts what is paused and pauses what listens.
pub proof fn toggling_changes_sides(s: ListeningState)
    ensures
        s is Listening <==> s.toggled() is Paused,
        s is Paused <==> s.toggled() is Listening,
{
}

/// Every profile that could be read is listed, with its own identity, name and
/// number of zones, and exactly the selected one as active. A file that could not
/// be read is left out.
pub proof fn readable_profiles_are_listed(
    loaded: Seq<Result<Profile, String>>,
    active: Option<ProfileId>,
    p: Profile,
    e: String,
)
    ensures
        readable(Seq::empty(), active).len() == 0,
        readable(loaded.push(Err(e)), active) == readable(loaded, active),
        readable(loaded.push(Ok(p)), active).len() == readable(loaded, active).len() + 1,
        readable(loaded.push(Ok(p)), active).drop_last() == readable(loaded, active),
        readable(loaded.push(Ok(p)), active).last().id == p.id,
        readable(loaded.push(Ok(p)), active).last().name == p.name@,
        readable(loaded.push(Ok(p)), active).last().zone_count == p.zones@.len(),
        readable(loaded.push(Ok(p)), active).last().is_active <==> active == Some(p.id),
{
    assert(loaded.push(Err(e)).drop_last() =~= loaded);
    assert(loaded.push(Ok(p)).drop_last() =~= loaded);
    assert(readable(loaded.push(Ok(p)), active).drop_last() =~= readable(loaded, active));
}

/// A list of profiles shows those that could be read, each as often as it was
/// read, with no name before one that comes earlier in dictionary order. Without a
/// place to store there are none.
pub proof fn profiles_are_listed_by_name(
    s: &AppState,
    loaded: &Vec<Result<Profile, String>>,
    r: Vec<ProfileSummary>,
)
    requires
        call_ensures(AppState::list_profiles, (s, loaded), r),
    ensures
        s.config_path is None ==> r@.len() == 0,
        s.config_path is Some ==> r@.len() == readable(
            loaded@,
            s.config.active_profile_id,
        ).len(),
        forall|i: int, j: int|
            0 <= i <= j < r@.len() ==> !precedes(
                codes((#[trigger] r@[j]).name@),
                codes((#[trigger] r@[i]).name@),
            ),
{
    if s.config_path is Some {
        let listed = choose|listed: Seq<ProfileSummary>|
            r@ == #[trigger] arranged(listed) && summaries(listed) == readable(
                loaded@,
                s.config.active_profile_id,
            );
        arranged_is_ordered(listed);
        assert(summaries(listed).len() == listed.len());
        assert forall|i: int, j: int| 0 <= i <= j < r@.len() implies !precedes(
            codes((#[trigger] r@[j]).name@),
            codes((#[trigger] r@[i]).name@),
        ) by {
            assert(!precedes(arranged(listed)[j].key(), arranged(listed)[i].key()));
        }
    }
}

/// Reports are listed from the oldest to the latest, and all of them.
pub proof fn reports_are_listed_by_their_time(
    reports: Vec<EvaluationReport>,
    r: Vec<EvaluationReport>,
    i: int,
    j: int,
)
    requires
        call_ensures(list_evaluation_reports, (reports,), r),
        0 <= i < j < r@.len(),
    ensures
        r@.to_multiset() == reports@.to_multiset(),
        r@[i].run_at.secs <= r@[j].run_at.secs,
        r@[i].run_at.secs == r@[j].run_at.secs ==> r@[i].run_at.nanos <= r@[j].run_at.nanos,
{
    arranged_is_ordered(reports@);
    let (a, b) = (r@[j].key(), r@[i].key());
    assert(!precedes(arranged(reports@)[j].key(), arranged(reports@)[i].key()));
    if a[0] != b[0] {
        assert(a.take(0) =~= b.take(0));
        keys_are_compared_where_they_differ(a, b, 0);
    } else if a[1] != b[1] {
        assert(a.take(1) =~= b.take(1));
        keys_are_compared_where_they_differ(a, b, 1);
    }
}

/// Files to import are listed by name, and all of them.
pub proof fn imports_are_listed_by_name(
    entries: Vec<ImportEntry>,
    r: Vec<ImportEntry>,
    i: int,
    j: int,
)
    requires
        call_ensures(list_importable_profiles, (entries,), r),
        0 <= i < j < r@.len(),
    ensures
        r@.to_multiset() == entries@.to_multiset(),
        !precedes(codes(r@[j].name@), codes(r@[i].name@)),
{
    arranged_is_ordered(entries@);
    assert(!precedes(arranged(entries@)[j].key(), arranged(entries@)[i].key()));
}

/// A copy has the name that was asked for, without white space around it, and
/// where nothing was asked for the source's name with an addition, so that the two
/// can be told apart.
pub proof fn copies_have_a_name_of_their_own(source: Seq<char>, asked: Seq<char>)
    ensures
        blank(asked) ==> copy_name(source, asked) == source + " copy"@ && copy_name(source, asked)
            != source,
        !blank(asked) ==> copy_name(source, asked).len() > 0 && !white_space(
            copy_name(source, asked)[0],
        ) && !white_space(copy_name(source, asked).last()),
        !blank(asked) && !white_space(asked[0]) && !white_space(asked.last()) ==> copy_name(
            source,
            asked,
        ) == asked,
{
    reveal_strlit(" copy");
    edges_strip_white_space_and_dots(asked, Edge::WhiteSpace, 'a');
    strip_leaves_a_part(asked, Edge::WhiteSpace);
    let ends = strip_takes_off_the_ends_alone(asked, Edge::WhiteSpace);
    assert((source + " copy"@).len() == source.len() + 5);
    if !blank(asked) && !white_space(asked[0]) && !white_space(asked.last()) {
        assert(asked.subrange(0, asked.len() as int) =~= asked);
        assert(ends.0 == 0) by {
            if ends.0 > 0 {
                assert(strips(Edge::WhiteSpace, asked[0]));
            }
        }
        assert(ends.1 == asked.len()) by {
            if ends.1 < asked.len() {
                assert(strips(Edge::WhiteSpace, asked[asked.len() - 1]));
            }
        }
    }
}

/// A name that can stand as a file's name is kept letter for letter. In any name
/// each character that no file name may hold becomes an underscore and every other
/// one stays.
pub proof fn legal_names_are_kept(name: Seq<char>, i: int)
    requires
        0 <= i < name.len(),
    ensures
        legalised(name).len() == name.len(),
        "<>:\"/\\|?*"@.contains(name[i]) || control(name[i]) ==> legalised(name)[i] == '_',
        !("<>:\"/\\|?*"@.contains(name[i]) || control(name[i])) ==> legalised(name)[i] == name[i],
        legalised(name) == name && !white_space(name[0]) && name[0] != '.' && !white_space(
            name.last(),
        ) && name.last() != '.' ==> sanitized(name) == name,
{
    reveal_strlit("<>:\"/\\|?*");
    let bad = "<>:\"/\\|?*"@;
    assert(bad.len() == 9);
    assert(bad[0] == '<' && bad[1] == '>' && bad[2] == ':' && bad[3] == '"' && bad[4] == '/');
    assert(bad[5] == '\\' && bad[6] == '|' && bad[7] == '?' && bad[8] == '*');
    let edge = Edge::WhiteSpaceAndDots;
    let ends = strip_takes_off_the_ends_alone(legalised(name), edge);
    if legalised(name) == name && !white_space(name[0]) && name[0] != '.' && !white_space(
        name.last(),
    ) && name.last() != '.' {
        assert(ends.0 == 0) by {
            if ends.0 > 0 {
                assert(strips(edge, legalised(name)[0]));
            }
        }
        assert(ends.1 == name.len()) by {
            if ends.1 < name.len() {
                assert(strips(edge, legalised(name)[name.len() - 1]));
            }
        }
        assert(name.subrange(0, name.len() as int) =~= name);
    }
}

/// A profile's file ends with the extension that profiles are looked for by.
pub proof fn profile_files_are_json(id: ProfileId, s: String)
    requires
        call_ensures(profile_file, (id,), s),
    ensures
        s@.len() >= 5,
        s@.skip(s@.len() - 5) == ".json"@,
        s@.take(s@.len() - 5) == hyphenated(id.value),
{
    reveal_strlit(".json");
    assert(s@.skip(s@.len() - 5) =~= ".json"@);
    assert(s@.take(s@.len() - 5) =~= hyphenated(id.value));
}

} // verus!
