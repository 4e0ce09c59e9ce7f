//! Editing a zone's chain of actions.

use vstd::prelude::*;

use crate::ids::ZoneId;
use crate::platform::{carried_out, dispatch, failure, ActionError, PlatformActions};
use crate::profile::{ActionSpec, KeyCombo, Modifier, ScreenshotMode, SystemSound};
use crate::text::{blank, decimal, decimal_is_injective, decimal_text, join};
use crate::value::{views, ActionView, ComboView};

verus! {

/// What sort of action it is.
#[derive(Clone, Copy, Debug, PartialEq, Eq, Structural)]
pub enum Kind {
    OpenApp,
    OpenPath,
    OpenUrl,
    RunCommand,
    CopyToClipboard,
    Speak,
    PlaySound,
    ShowToast,
    SendKeystroke,
    Screenshot,
    VisualOnly,
}

impl Kind {
    /// The sorts in the order in which they are offered.
    pub const ALL: [Kind; 11] = [
        Kind::OpenApp,
        Kind::OpenPath,
        Kind::OpenUrl,
        Kind::RunCommand,
        Kind::CopyToClipboard,
        Kind::Speak,
        Kind::PlaySound,
        Kind::ShowToast,
        Kind::SendKeystroke,
        Kind::Screenshot,
        Kind::VisualOnly,
    ];

    pub open spec fn label_text(self) -> Seq<char> {
        match self {
            Kind::OpenApp => "Open app"@,
            Kind::OpenPath => "Open file / folder"@,
            Kind::OpenUrl => "Open URL"@,
            Kind::RunCommand => "Run command"@,
            Kind::CopyToClipboard => "Copy to clipboard"@,
            Kind::Speak => "Speak text"@,
            Kind::PlaySound => "Play sound"@,
            Kind::ShowToast => "Show notification"@,
            Kind::SendKeystroke => "Send keystroke"@,
            Kind::Screenshot => "Screenshot"@,
            Kind::VisualOnly => "Visual only"@,
        }
    }

    pub fn label(self) -> (s: &'static str)
        ensures
            s@ == self.label_text(),
    {
        match self {
            Kind::OpenApp => "Open app",
            Kind::OpenPath => "Open file / folder",
            Kind::OpenUrl => "Open URL",
            Kind::RunCommand => "Run command",
            Kind::CopyToClipboard => "Copy to clipboard",
            Kind::Speak => "Speak text",
            Kind::PlaySound => "Play sound",
            Kind::ShowToast => "Show notification",
            Kind::SendKeystroke => "Send keystroke",
            Kind::Screenshot => "Screenshot",
            Kind::VisualOnly => "Visual only",
        }
    }

    /// The sort of an action.
    pub open spec fn kind_of(a: ActionView) -> Kind {
        match a {
            ActionView::OpenApp { .. } => Kind::OpenApp,
            ActionView::OpenPath { .. } => Kind::OpenPath,
            ActionView::OpenUrl { .. } => Kind::OpenUrl,
            ActionView::RunCommand { .. } => Kind::RunCommand,
            ActionView::CopyToClipboard { .. } => Kind::CopyToClipboard,
            ActionView::Speak { .. } => Kind::Speak,
            ActionView::PlaySound { .. } => Kind::PlaySound,
            ActionView::ShowToast { .. } => Kind::ShowToast,
            ActionView::SendKeystroke { .. } => Kind::SendKeystroke,
            ActionView::Screenshot { .. } => Kind::Screenshot,
            ActionView::VisualOnly => Kind::VisualOnly,
        }
    }

    pub fn of(spec: &ActionSpec) -> (k: Kind)
        ensures
            k == Kind::kind_of(spec@),
    {
        match spec {
            ActionSpec::OpenApp { .. } => Kind::OpenApp,
            ActionSpec::OpenPath { .. } => Kind::OpenPath,
            ActionSpec::OpenUrl { .. } => Kind::OpenUrl,
            ActionSpec::RunCommand { .. } => Kind::RunCommand,
            ActionSpec::CopyToClipboard { .. } => Kind::CopyToClipboard,
            ActionSpec::Speak { .. } => Kind::Speak,
            ActionSpec::PlaySound { .. } => Kind::PlaySound,
            ActionSpec::ShowToast { .. } => Kind::ShowToast,
            ActionSpec::SendKeystroke { .. } => Kind::SendKeystroke,
            ActionSpec::Screenshot { .. } => Kind::Screenshot,
            ActionSpec::VisualOnly => Kind::VisualOnly,
        }
    }

    /// A fresh action of this sort, with nothing filled in.
    pub open spec fn fresh(self) -> ActionView {
        match self {
            Kind::OpenApp => ActionView::OpenApp { path: Seq::empty() },
            Kind::OpenPath => ActionView::OpenPath { path: Seq::empty() },
            Kind::OpenUrl => ActionView::OpenUrl { url: Seq::empty() },
            Kind::RunCommand => ActionView::RunCommand {
                command: Seq::empty(),
                args: Seq::empty(),
            },
            Kind::CopyToClipboard => ActionView::CopyToClipboard { text: Seq::empty() },
            Kind::Speak => ActionView::Speak { text: Seq::empty() },
            Kind::PlaySound => ActionView::PlaySound { sound: SystemSound::Default },
            Kind::ShowToast => ActionView::ShowToast { title: Seq::empty(), body: Seq::empty() },
            Kind::SendKeystroke => ActionView::SendKeystroke {
                combo: ComboView { modifiers: Seq::empty(), key: Seq::empty() },
            },
            Kind::Screenshot => ActionView::Screenshot { mode: ScreenshotMode::FullScreen },
            Kind::VisualOnly => ActionView::VisualOnly,
        }
    }

    pub fn default_spec(self) -> (a: ActionSpec)
        ensures
            a@ == self.fresh(),
    {
        match self {
            Kind::OpenApp => ActionSpec::OpenApp { path: String::new() },
            Kind::OpenPath => ActionSpec::OpenPath { path: String::new() },
            Kind::OpenUrl => ActionSpec::OpenUrl { url: String::new() },
            Kind::RunCommand => {
                let args: Vec<String> = Vec::new();
                proof {
                    assert(views(args@) =~= Seq::<Seq<char>>::empty());
                }
                ActionSpec::RunCommand { command: String::new(), args }
            },
            Kind::CopyToClipboard => ActionSpec::CopyToClipboard { text: String::new() },
            Kind::Speak => ActionSpec::Speak { text: String::new() },
            Kind::PlaySound => ActionSpec::PlaySound { sound: SystemSound::Default },
            Kind::ShowToast => ActionSpec::ShowToast {
                title: String::new(),
                body: String::new(),
            },
            Kind::SendKeystroke => ActionSpec::SendKeystroke {
                combo: KeyCombo { modifiers: Vec::new(), key: String::new() },
            },
            Kind::Screenshot => ActionSpec::Screenshot { mode: ScreenshotMode::FullScreen },
            Kind::VisualOnly => ActionSpec::VisualOnly,
        }
    }
}

/// A fresh action is of the sort that was asked for. It cannot run yet where its
/// sort has a field that must be filled in.
pub proof fn fresh_actions_have_their_kind(k: Kind, a: ActionSpec)
    requires
        a@ == k.fresh(),
    ensures
        Kind::kind_of(a@) == k,
        a.missing() is None <==> k == Kind::PlaySound || k == Kind::Screenshot || k
            == Kind::VisualOnly,
{
    assert(blank(Seq::<char>::empty()));
}

/// A field that text is typed into.
#[derive(Clone, Copy, Debug, PartialEq, Eq, Structural)]
pub enum TextField {
    Path,
    Url,
    Command,
    /// An argument of a command, by its position.
    Arg(usize),
    Text,
    Title,
    Body,
    Key,
}

/// A change to the fields of one action.
#[derive(Clone, Debug)]
pub enum FieldEdit {
    /// The field now holds this text; `done` once the field is left.
    Type { field: TextField, text: String, done: bool },
    RemoveArg(usize),
    AddArg,
    Sound(SystemSound),
    Mode(ScreenshotMode),
    Hold(Modifier),
    Release(Modifier),
}

/// The modifiers without one of them.
pub open spec fn without(mods: Seq<Modifier>, m: Modifier) -> Seq<Modifier>
    decreases mods.len(),
{
    if mods.len() == 0 {
        Seq::empty()
    } else if mods.last() == m {
        without(mods.drop_last(), m)
    } else {
        without(mods.drop_last(), m).push(mods.last())
    }
}

/// The action with the text in the field; `None` where it has no such field.
pub open spec fn typed(a: ActionView, field: TextField, text: Seq<char>) -> Option<ActionView> {
    match (a, field) {
        (ActionView::OpenApp { .. }, TextField::Path) => Some(ActionView::OpenApp { path: text }),
        (ActionView::OpenPath { .. }, TextField::Path) => Some(ActionView::OpenPath { path: text }),
        (ActionView::OpenUrl { .. }, TextField::Url) => Some(ActionView::OpenUrl { url: text }),
        (ActionView::RunCommand { args, .. }, TextField::Command) => Some(
            ActionView::RunCommand { command: text, args },
        ),
        (ActionView::RunCommand { command, args }, TextField::Arg(i)) => if i < args.len() {
            Some(ActionView::RunCommand { command, args: args.update(i as int, text) })
        } else {
            None
        },
        (ActionView::CopyToClipboard { .. }, TextField::Text) => Some(
            ActionView::CopyToClipboard { text },
        ),
        (ActionView::Speak { .. }, TextField::Text) => Some(ActionView::Speak { text }),
        (ActionView::ShowToast { body, .. }, TextField::Title) => Some(
            ActionView::ShowToast { title: text, body },
        ),
        (ActionView::ShowToast { title, .. }, TextField::Body) => Some(
            ActionView::ShowToast { title, body: text },
        ),
        (ActionView::SendKeystroke { combo }, TextField::Key) => Some(
            ActionView::SendKeystroke { combo: ComboView { key: text, ..combo } },
        ),
        _ => None,
    }
}

/// The action after a change to its fields, and whether the change is to be
/// kept: text counts once its field is left. What the action has no field for
/// changes nothing.
pub open spec fn field_edited(a: ActionView, edit: FieldEdit) -> (ActionView, bool) {
    match edit {
        FieldEdit::Type { field, text, done } => match typed(a, field, text@) {
            Some(b) => (b, done),
            None => (a, false),
        },
        FieldEdit::RemoveArg(i) => match a {
            ActionView::RunCommand { command, args } if i < args.len() => (
                ActionView::RunCommand { command, args: args.remove(i as int) },
                true,
            ),
            _ => (a, false),
        },
        FieldEdit::AddArg => match a {
            ActionView::RunCommand { command, args } => (
                ActionView::RunCommand { command, args: args.push(Seq::empty()) },
                true,
            ),
            _ => (a, false),
        },
        FieldEdit::Sound(sound) => match a {
            ActionView::PlaySound { .. } => (ActionView::PlaySound { sound }, true),
            _ => (a, false),
        },
        FieldEdit::Mode(mode) => match a {
            ActionView::Screenshot { .. } => (ActionView::Screenshot { mode }, true),
            _ => (a, false),
        },
        FieldEdit::Hold(m) => match a {
            ActionView::SendKeystroke { combo } if !combo.modifiers.contains(m) => (
                ActionView::SendKeystroke {
                    combo: ComboView { modifiers: combo.modifiers.push(m), ..combo },
                },
                true,
            ),
            _ => (a, false),
        },
        FieldEdit::Release(m) => match a {
            ActionView::SendKeystroke { combo } if combo.modifiers.contains(m) => (
                ActionView::SendKeystroke {
                    combo: ComboView { modifiers: without(combo.modifiers, m), ..combo },
                },
                true,
            ),
            _ => (a, false),
        },
    }
}

fn has_modifier(mods: &Vec<Modifier>, m: Modifier) -> (r: bool)
    ensures
        r == mods@.contains(m),
{
    let mut i: usize = 0;
    while i < mods.len()
        invariant
            i <= mods@.len(),
            forall|j: int| 0 <= j < i ==> #[trigger] mods@[j] != m,
        decreases mods@.len() - i,
    {
        if mods[i] == m {
            return true;
        }
        i += 1;
    }
    false
}

fn drop_modifier(mods: &Vec<Modifier>, m: Modifier) -> (out: Vec<Modifier>)
    ensures
        out@ == without(mods@, m),
{
    let mut out: Vec<Modifier> = Vec::new();
    let mut i: usize = 0;
    while i < mods.len()
        invariant
            i <= mods@.len(),
            out@ == without(mods@.take(i as int), m),
        decreases mods@.len() - i,
    {
        proof {
            assert(mods@.take(i + 1).drop_last() =~= mods@.take(i as int));
        }
        if mods[i] != m {
            out.push(mods[i]);
        }
        i += 1;
    }
    proof {
        assert(mods@.take(i as int) =~= mods@);
    }
    out
}

/// Letting a modifier go undoes holding it.
pub proof fn releasing_undoes_holding(mods: Seq<Modifier>, m: Modifier)
    requires
        !mods.contains(m),
    ensures
        without(mods.push(m), m) == mods,
{
    assert(mods.push(m).drop_last() =~= mods);
    without_absent(mods, m);
}

proof fn without_absent(mods: Seq<Modifier>, m: Modifier)
    requires
        !mods.contains(m),
    ensures
        without(mods, m) == mods,
    decreases mods.len(),
{
    if mods.len() > 0 {
        let t = mods.drop_last();
        assert(mods[mods.len() - 1] != m);
        assert forall|i: int| 0 <= i < t.len() implies t[i] != m by {
            assert(mods[i] != m);
        }
        without_absent(t, m);
        assert(t.push(mods.last()) =~= mods);
    }
}

/// Change the fields of an action. Says whether the change is to be kept.
pub fn action_fields(spec: &mut ActionSpec, edit: FieldEdit) -> (changed: bool)
    ensures
        (final(spec)@, changed) == field_edited(old(spec)@, edit),
{
    match edit {
        FieldEdit::Type { field, text, done } => type_text(spec, field, text) && done,
        FieldEdit::RemoveArg(i) => match spec {
            ActionSpec::RunCommand { args, .. } => {
                if i < args.len() {
                    let ghost before = args@;
                    args.remove(i);
                    proof {
                        assert(views(args@) =~= views(before).remove(i as int));
                    }
                    true
                } else {
                    false
                }
            },
            _ => false,
        },
        FieldEdit::AddArg => match spec {
            ActionSpec::RunCommand { args, .. } => {
                let ghost before = args@;
                args.push(String::new());
                proof {
                    assert(views(args@) =~= views(before).push(Seq::empty()));
                }
                true
            },
            _ => false,
        },
        FieldEdit::Sound(chosen) => match spec {
            ActionSpec::PlaySound { sound } => {
                *sound = chosen;
                true
            },
            _ => false,
        },
        FieldEdit::Mode(chosen) => match spec {
            ActionSpec::Screenshot { mode } => {
                *mode = chosen;
                true
            },
            _ => false,
        },
        FieldEdit::Hold(m) => match spec {
            ActionSpec::SendKeystroke { combo } => {
                if has_modifier(&combo.modifiers, m) {
                    false
                } else {
                    combo.modifiers.push(m);
                    true
                }
            },
            _ => false,
        },
        FieldEdit::Release(m) => match spec {
            ActionSpec::SendKeystroke { combo } => {
                if has_modifier(&combo.modifiers, m) {
                    combo.modifiers = drop_modifier(&combo.modifiers, m);
                    true
                } else {
                    false
                }
            },
            _ => false,
        },
    }
}

fn type_text(spec: &mut ActionSpec, field: TextField, new: String) -> (r: bool)
    ensures
        match typed(old(spec)@, field, new@) {
            Some(b) => r && final(spec)@ == b,
            None => !r && final(spec)@ == old(spec)@,
        },
{
    match (spec, field) {
        (ActionSpec::OpenApp { path }, TextField::Path) => {
            *path = new;
            true
        },
        (ActionSpec::OpenPath { path }, TextField::Path) => {
            *path = new;
            true
        },
        (ActionSpec::OpenUrl { url }, TextField::Url) => {
            *url = new;
            true
        },
        (ActionSpec::RunCommand { command, .. }, TextField::Command) => {
            *command = new;
            true
        },
        (ActionSpec::RunCommand { args, .. }, TextField::Arg(i)) => {
            if i < args.len() {
                let ghost before = args@;
                args[i] = new;
                proof {
                    assert(views(args@) =~= views(before).update(i as int, new@));
                }
                true
            } else {
                false
            }
        },
        (ActionSpec::CopyToClipboard { text }, TextField::Text) => {
            *text = new;
            true
        },
        (ActionSpec::Speak { text }, TextField::Text) => {
            *text = new;
            true
        },
        (ActionSpec::ShowToast { title, .. }, TextField::Title) => {
            *title = new;
            true
        },
        (ActionSpec::ShowToast { body, .. }, TextField::Body) => {
            *body = new;
            true
        },
        (ActionSpec::SendKeystroke { combo }, TextField::Key) => {
            combo.key = new;
            true
        },
        _ => false,
    }
}

/// The text fields of an action, in the order in which they are shown.
pub open spec fn shown_fields(a: ActionView) -> Seq<TextField> {
    match a {
        ActionView::OpenApp { .. } => seq![TextField::Path],
        ActionView::OpenPath { .. } => seq![TextField::Path],
        ActionView::OpenUrl { .. } => seq![TextField::Url],
        ActionView::RunCommand { args, .. } => seq![TextField::Command] + Seq::new(
            args.len(),
            |i: int| TextField::Arg(i as usize),
        ),
        ActionView::CopyToClipboard { .. } => seq![TextField::Text],
        ActionView::Speak { .. } => seq![TextField::Text],
        ActionView::ShowToast { .. } => seq![TextField::Title, TextField::Body],
        ActionView::SendKeystroke { .. } => seq![TextField::Key],
        ActionView::PlaySound { .. } => Seq::empty(),
        ActionView::Screenshot { .. } => Seq::empty(),
        ActionView::VisualOnly => Seq::empty(),
    }
}

/// The text fields of an action.
pub fn text_fields(spec: &ActionSpec) -> (v: Vec<TextField>)
    ensures
        v@ == shown_fields(spec@),
{
    let mut v: Vec<TextField> = Vec::new();
    match spec {
        ActionSpec::OpenApp { .. } => v.push(TextField::Path),
        ActionSpec::OpenPath { .. } => v.push(TextField::Path),
        ActionSpec::OpenUrl { .. } => v.push(TextField::Url),
        ActionSpec::RunCommand { args, .. } => {
            v.push(TextField::Command);
            let mut i: usize = 0;
            proof {
                assert(v@ =~= seq![TextField::Command] + Seq::new(
                    0,
                    |i: int| TextField::Arg(i as usize),
                ));
            }
            while i < args.len()
                invariant
                    i <= args@.len(),
                    v@ == seq![TextField::Command] + Seq::new(
                        i as nat,
                        |i: int| TextField::Arg(i as usize),
                    ),
                decreases args@.len() - i,
            {
                v.push(TextField::Arg(i));
                i += 1;
                proof {
                    assert(v@ =~= seq![TextField::Command] + Seq::new(
                        i as nat,
                        |i: int| TextField::Arg(i as usize),
                    ));
                }
            }
        },
        ActionSpec::CopyToClipboard { .. } => v.push(TextField::Text),
        ActionSpec::Speak { .. } => v.push(TextField::Text),
        ActionSpec::ShowToast { .. } => {
            v.push(TextField::Title);
            v.push(TextField::Body);
        },
        ActionSpec::SendKeystroke { .. } => v.push(TextField::Key),
        _ => {},
    }
    proof {
        assert(v@ =~= shown_fields(spec@));
    }
    v
}

/// The fields that are shown are exactly those that can be typed into.
pub proof fn shown_fields_can_be_typed(a: ActionView, field: TextField, text: Seq<char>)
    requires
        a matches ActionView::RunCommand { args, .. } ==> args.len() <= usize::MAX,
    ensures
        shown_fields(a).contains(field) <==> typed(a, field, text) is Some,
{
    let s = shown_fields(a);
    if typed(a, field, text) is Some {
        match a {
            ActionView::RunCommand { args, .. } => {
                match field {
                    TextField::Arg(i) => {
                        assert(s[i + 1] == field);
                    },
                    _ => {
                        assert(s[0] == field);
                    },
                }
            },
            ActionView::ShowToast { .. } => {
                if field == TextField::Title {
                    assert(s[0] == field);
                } else {
                    assert(s[1] == field);
                }
            },
            _ => {
                assert(s[0] == field);
            },
        }
    }
}

/// The name that stands before a field; a text of several lines has none.
pub open spec fn field_label(field: TextField) -> Seq<char> {
    match field {
        TextField::Path => "Path"@,
        TextField::Url => "URL"@,
        TextField::Command => "Command"@,
        TextField::Arg(i) => "arg "@ + decimal((i + 1) as nat),
        TextField::Text => ""@,
        TextField::Title => "Title"@,
        TextField::Body => "Body"@,
        TextField::Key => "Key"@,
    }
}

pub fn label_of(field: TextField) -> (s: String)
    requires
        field matches TextField::Arg(i) ==> i < usize::MAX,
    ensures
        s@ == field_label(field),
{
    match field {
        TextField::Path => "Path".to_owned(),
        TextField::Url => "URL".to_owned(),
        TextField::Command => "Command".to_owned(),
        TextField::Arg(i) => {
            let number = decimal_text((i + 1) as u64);
            join("arg ", &number)
        },
        TextField::Text => "".to_owned(),
        TextField::Title => "Title".to_owned(),
        TextField::Body => "Body".to_owned(),
        TextField::Key => "Key".to_owned(),
    }
}

/// A change to a chain of actions.
#[derive(Clone, Debug)]
pub enum Op {
    /// Make the action another sort.
    SetKind(usize, Kind),
    Fields(usize, FieldEdit),
    Add,
    Remove(usize),
    MoveUp(usize),
    MoveDown(usize),
}

/// The chain after a change, and whether there was one. An action that is made
/// another sort starts afresh; the ends of the chain stop a move.
pub open spec fn chain_edited(chain: Seq<ActionView>, op: Op) -> (Seq<ActionView>, bool) {
    match op {
        Op::SetKind(i, k) => if i < chain.len() && Kind::kind_of(chain[i as int]) != k {
            (chain.update(i as int, k.fresh()), true)
        } else {
            (chain, false)
        },
        Op::Fields(i, edit) => if i < chain.len() {
            let (a, changed) = field_edited(chain[i as int], edit);
            (chain.update(i as int, a), changed)
        } else {
            (chain, false)
        },
        Op::Add => (chain.push(Kind::OpenApp.fresh()), true),
        Op::Remove(i) => if i < chain.len() {
            (chain.remove(i as int), true)
        } else {
            (chain, false)
        },
        Op::MoveUp(i) => if 0 < i < chain.len() {
            (swapped(chain, i as int, i - 1), true)
        } else {
            (chain, false)
        },
        Op::MoveDown(i) => if i + 1 < chain.len() {
            (swapped(chain, i as int, i + 1), true)
        } else {
            (chain, false)
        },
    }
}

/// Two actions change places.
pub open spec fn swapped(chain: Seq<ActionView>, i: int, j: int) -> Seq<ActionView> {
    chain.update(i, chain[j]).update(j, chain[i])
}

/// Moving an action down undoes moving it up.
pub proof fn moves_undo_each_other(chain: Seq<ActionView>, i: usize)
    requires
        0 < i < chain.len(),
    ensures
        chain_edited(
            chain_edited(chain, Op::MoveUp(i)).0,
            Op::MoveDown((i - 1) as usize),
        ).0 == chain,
{
    let once = swapped(chain, i as int, i - 1);
    assert(swapped(once, i - 1, i as int) =~= chain);
}

/// The outcome of the last trial run: the zone, the position of the action, and
/// what came of it.
#[derive(Clone, Debug)]
pub struct ActionEditor {
    pub last_test: Option<(ZoneId, usize, Result<(), String>)>,
}

fn move_up(actions: &mut Vec<ActionSpec>, i: usize)
    requires
        0 < i < old(actions)@.len(),
    ensures
        views(final(actions)@) == swapped(views(old(actions)@), i as int, i - 1),
        views(final(actions)@) == swapped(views(old(actions)@), i - 1, i as int),
{
    let ghost before = actions@;
    let action = actions.remove(i);
    actions.insert(i - 1, action);
    proof {
        assert(views(actions@) =~= swapped(views(before), i as int, i - 1));
        assert(views(actions@) =~= swapped(views(before), i - 1, i as int));
    }
}

impl ActionEditor {
    pub fn new() -> (e: ActionEditor)
        ensures
            e.last_test is None,
    {
        ActionEditor { last_test: None }
    }

    /// Change a zone's chain. Says whether it is to be saved; then the outcome
    /// of the last trial run no longer holds.
    pub fn apply(&mut self, actions: &mut Vec<ActionSpec>, op: Op) -> (changed: bool)
        ensures
            (views(final(actions)@), changed) == chain_edited(views(old(actions)@), op),
            final(self).last_test == if changed {
                None
            } else {
                old(self).last_test
            },
    {
        let ghost before = actions@;
        let changed: bool = match op {
            Op::SetKind(i, k) => {
                if i < actions.len() && Kind::of(&actions[i]) != k {
                    actions[i] = k.default_spec();
                    proof {
                        assert(views(actions@) =~= views(before).update(i as int, k.fresh()));
                    }
                    true
                } else {
                    false
                }
            },
            Op::Fields(i, edit) => {
                if i < actions.len() {
                    let changed: bool = action_fields(&mut actions[i], edit);
                    proof {
                        assert(views(actions@) =~= views(before).update(
                            i as int,
                            field_edited(before[i as int]@, edit).0,
                        ));
                    }
                    changed
                } else {
                    false
                }
            },
            Op::Add => {
                actions.push(Kind::OpenApp.default_spec());
                proof {
                    assert(views(actions@) =~= views(before).push(Kind::OpenApp.fresh()));
                }
                true
            },
            Op::Remove(i) => {
                if i < actions.len() {
                    actions.remove(i);
                    proof {
                        assert(views(actions@) =~= views(before).remove(i as int));
                    }
                    true
                } else {
                    false
                }
            },
            Op::MoveUp(i) => {
                if 0 < i && i < actions.len() {
                    move_up(actions, i);
                    true
                } else {
                    false
                }
            },
            Op::MoveDown(i) => {
                if i < actions.len() && actions.len() - i > 1 {
                    move_up(actions, i + 1);
                    true
                } else {
                    false
                }
            },
        };
        if changed {
            self.last_test = None;
        }
        changed
    }

    /// Run one action of a zone for a trial and keep what came of it.
    pub fn test<P: PlatformActions>(
        &mut self,
        zone_id: ZoneId,
        i: usize,
        actions: &[ActionSpec],
        platform: &mut P,
    )
        ensures
            i >= actions@.len() ==> *final(self) == *old(self) && *final(platform) == *old(
                platform,
            ),
            i < actions@.len() ==> (final(self).last_test matches Some((z, k, outcome)) && z
                == zone_id && k == i && exists|failed: Option<ActionError>| #[trigger]
                carried_out(
                    actions@[i as int]@,
                    old(platform).log(),
                    failed,
                    final(platform).log(),
                ) && match failed {
                    None => outcome is Ok,
                    Some(e) => outcome matches Err(t) && t@ == e.text(),
                }),
    {
        if i < actions.len() {
            let ghost before = platform.log();
            let r = dispatch(&actions[i], platform);
            proof {
                assert(carried_out(actions@[i as int]@, before, failure(r), platform.log()));
            }
            let outcome: Result<(), String> = match r {
                Ok(()) => Ok(()),
                Err(e) => Err(e.describe()),
            };
            self.last_test = Some((zone_id, i, outcome));
        }
    }

    /// What came of the last trial run, where it was of this action.
    pub fn row_status(&self, zone_id: ZoneId, i: usize) -> (r: Option<&Result<(), String>>)
        ensures
            match self.last_test {
                Some((z, k, outcome)) => if z == zone_id && k == i {
                    r == Some(&outcome)
                } else {
                    r is None
                },
                None => r is None,
            },
    {
        match &self.last_test {
            Some((z, k, outcome)) => {
                if *z == zone_id && *k == i {
                    Some(outcome)
                } else {
                    None
                }
            },
            None => None,
        }
    }
}

/// What a text field of an action holds; `None` where it has no such field.
pub open spec fn text_in(a: ActionView, field: TextField) -> Option<Seq<char>> {
    match field {
        TextField::Path => match a {
            ActionView::OpenApp { path } => Some(path),
            ActionView::OpenPath { path } => Some(path),
            _ => None,
        },
        TextField::Url => match a {
            ActionView::OpenUrl { url } => Some(url),
            _ => None,
        },
        TextField::Command => match a {
            ActionView::RunCommand { command, .. } => Some(command),
            _ => None,
        },
        TextField::Arg(i) => match a {
            ActionView::RunCommand { args, .. } => if i < args.len() {
                Some(args[i as int])
            } else {
                None
            },
            _ => None,
        },
        TextField::Text => match a {
            ActionView::CopyToClipboard { text } => Some(text),
            ActionView::Speak { text } => Some(text),
            _ => None,
        },
        TextField::Title => match a {
            ActionView::ShowToast { title, .. } => Some(title),
            _ => None,
        },
        TextField::Body => match a {
            ActionView::ShowToast { body, .. } => Some(body),
            _ => None,
        },
        TextField::Key => match a {
            ActionView::SendKeystroke { combo } => Some(combo.key),
            _ => None,
        },
    }
}

/// The modifiers that an action holds down; none where it sends no keystroke.
pub open spec fn held_in(a: ActionView) -> Seq<Modifier> {
    match a {
        ActionView::SendKeystroke { combo } => combo.modifiers,
        _ => Seq::empty(),
    }
}

/// How many arguments an action has.
pub open spec fn arg_count(a: ActionView) -> nat {
    match a {
        ActionView::RunCommand { args, .. } => args.len(),
        _ => 0,
    }
}

/// Two actions are of one sort, and what is chosen in them is the same.
pub open spec fn same_sort(a: ActionView, b: ActionView) -> bool {
    match a {
        ActionView::OpenApp { .. } => b is OpenApp,
        ActionView::OpenPath { .. } => b is OpenPath,
        ActionView::OpenUrl { .. } => b is OpenUrl,
        ActionView::RunCommand { .. } => b is RunCommand,
        ActionView::CopyToClipboard { .. } => b is CopyToClipboard,
        ActionView::Speak { .. } => b is Speak,
        ActionView::PlaySound { sound } => b == (ActionView::PlaySound { sound }),
        ActionView::ShowToast { .. } => b is ShowToast,
        ActionView::SendKeystroke { .. } => b is SendKeystroke,
        ActionView::Screenshot { mode } => b == (ActionView::Screenshot { mode }),
        ActionView::VisualOnly => b is VisualOnly,
    }
}

/// Typing into a field changes that field alone: it then holds the text, and
/// every other field, the modifiers, the number of arguments and the action's
/// sort stay as they were. A key keeps its modifiers, a command its arguments,
/// a title its body. What the action has no field for changes nothing. The
/// change counts once the field is left.
pub proof fn typing_changes_one_field(
    a: ActionView,
    field: TextField,
    text: String,
    done: bool,
    other: TextField,
)
    requires
        other != field,
    ensures
        ({
            let b = field_edited(a, FieldEdit::Type { field, text, done });
            &&& same_sort(a, b.0)
            &&& text_in(a, field) is Some ==> text_in(b.0, field) == Some(text@) && b.1 == done
            &&& text_in(a, field) is None ==> b.0 == a && !b.1
            &&& text_in(b.0, other) == text_in(a, other)
            &&& held_in(b.0) == held_in(a)
            &&& arg_count(b.0) == arg_count(a)
        }),
{
}

/// A field that is typed into twice holds what was typed last, as if the first
/// text had never been there.
pub proof fn typing_replaces_what_was_typed(
    a: ActionView,
    field: TextField,
    first: String,
    second: String,
    done: bool,
)
    ensures
        field_edited(
            field_edited(a, FieldEdit::Type { field, text: first, done }).0,
            FieldEdit::Type { field, text: second, done },
        ) == field_edited(a, FieldEdit::Type { field, text: second, done }),
{
    match a {
        ActionView::RunCommand { args, .. } => {
            match field {
                TextField::Arg(i) => {
                    if i < args.len() {
                        assert(args.update(i as int, first@).update(i as int, second@)
                            =~= args.update(i as int, second@));
                    }
                },
                _ => {},
            }
        },
        _ => {},
    }
}

/// Typing what a field already holds leaves the action as it is.
pub proof fn typing_the_same_changes_nothing(
    a: ActionView,
    field: TextField,
    text: String,
    done: bool,
)
    requires
        text_in(a, field) is Some ==> text_in(a, field) == Some(text@),
    ensures
        field_edited(a, FieldEdit::Type { field, text, done }).0 == a,
{
    match a {
        ActionView::RunCommand { args, .. } => {
            match field {
                TextField::Arg(i) => {
                    if i < args.len() {
                        assert(args.update(i as int, text@) =~= args);
                    }
                },
                _ => {},
            }
        },
        _ => {},
    }
}

/// Text goes into a field exactly where the action has that field. A key keeps its
/// modifiers, a command its arguments, an argument its command and its neighbours, a
/// title its body.
pub proof fn typed_actions_keep_their_other_fields(
    a: ActionView,
    field: TextField,
    text: Seq<char>,
    other: TextField,
)
    requires
        other != field,
    ensures
        typed(a, field, text) is Some <==> text_in(a, field) is Some,
        typed(a, field, text) matches Some(b) ==> text_in(b, field) == Some(text) && text_in(
            b,
            other,
        ) == text_in(a, other) && held_in(b) == held_in(a) && arg_count(b) == arg_count(a)
            && same_sort(a, b),
{
}

/// A new argument is empty and comes last; the command and the arguments that
/// were there stay. Taking an argument out leaves the command and the others, in
/// order. Only a command has arguments.
pub proof fn arguments_come_and_go_alone(a: ActionView, i: usize, j: int)
    ensures
        ({
            let added = field_edited(a, FieldEdit::AddArg);
            let removed = field_edited(a, FieldEdit::RemoveArg(i));
            &&& added.1 <==> a is RunCommand
            &&& removed.1 <==> a is RunCommand && i < arg_count(a)
            &&& !added.1 ==> added.0 == a
            &&& !removed.1 ==> removed.0 == a
            &&& a matches ActionView::RunCommand { command, args } ==> {
                &&& added.0 matches ActionView::RunCommand { command: c, args: more }
                &&& c == command
                &&& more.len() == args.len() + 1
                &&& 0 <= j < args.len() ==> more[j] == args[j]
                &&& more[args.len() as int].len() == 0
                &&& removed.0 matches ActionView::RunCommand { command: k, args: fewer }
                &&& k == command
                &&& i < args.len() ==> fewer.len() == args.len() - 1
                &&& i < args.len() && 0 <= j < i ==> fewer[j] == args[j]
                &&& i < args.len() && i < j < args.len() ==> fewer[j - 1] == args[j]
            }
        }),
{
}

/// A choice of a sound or of what a screenshot shows is taken by the action that
/// has that choice, and by no other.
pub proof fn choices_are_taken(a: ActionView, sound: SystemSound, mode: ScreenshotMode)
    ensures
        field_edited(a, FieldEdit::Sound(sound)) == if a is PlaySound {
            (ActionView::PlaySound { sound }, true)
        } else {
            (a, false)
        },
        field_edited(a, FieldEdit::Mode(mode)) == if a is Screenshot {
            (ActionView::Screenshot { mode }, true)
        } else {
            (a, false)
        },
{
}

proof fn without_drops_only_that(mods: Seq<Modifier>, m: Modifier, other: Modifier)
    requires
        other != m,
    ensures
        !without(mods, m).contains(m),
        without(mods, m).contains(other) <==> mods.contains(other),
        without(mods, m) == mods.filter(|x: Modifier| x != m),
    decreases mods.len(),
{
    reveal(Seq::filter);
    let w = without(mods, m);
    if mods.len() > 0 {
        let t = mods.drop_last();
        let l = mods.last();
        without_drops_only_that(t, m, other);
        assert(mods =~= t.push(l));
        if mods.contains(other) {
            let k = choose|k: int| 0 <= k < mods.len() && mods[k] == other;
            if k < t.len() {
                assert(t[k] == other);
                let q = choose|q: int| 0 <= q < without(t, m).len() && without(t, m)[q] == other;
                assert(w[q] == other);
            } else {
                assert(w[w.len() - 1] == other);
            }
        }
        if w.contains(other) {
            let q = choose|q: int| 0 <= q < w.len() && w[q] == other;
            if q < without(t, m).len() {
                assert(without(t, m).contains(other)) by {
                    assert(without(t, m)[q] == other);
                }
                let k = choose|k: int| 0 <= k < t.len() && t[k] == other;
                assert(mods[k] == other);
            } else {
                assert(mods[mods.len() - 1] == other);
            }
        }
        assert(!w.contains(m)) by {
            if w.contains(m) {
                let q = choose|q: int| 0 <= q < w.len() && w[q] == m;
                if q < without(t, m).len() {
                    assert(without(t, m)[q] == m);
                    assert(without(t, m).contains(m));
                }
            }
        }
    } else {
        assert(mods.filter(|x: Modifier| x != m) =~= Seq::<Modifier>::empty());
    }
}

/// Holding a modifier down adds it once, after those that are held; letting it go
/// takes it out and leaves the others in order. The key stays what it is. Both
/// are kept only where they change something.
pub proof fn modifiers_are_held_one_by_one(a: ActionView, m: Modifier, other: Modifier)
    requires
        other != m,
    ensures
        ({
            let held = field_edited(a, FieldEdit::Hold(m));
            let released = field_edited(a, FieldEdit::Release(m));
            &&& same_sort(a, held.0) && same_sort(a, released.0)
            &&& text_in(held.0, TextField::Key) == text_in(a, TextField::Key)
            &&& text_in(released.0, TextField::Key) == text_in(a, TextField::Key)
            &&& held.1 <==> a is SendKeystroke && !held_in(a).contains(m)
            &&& released.1 <==> held_in(a).contains(m)
            &&& !held.1 ==> held.0 == a
            &&& !released.1 ==> released.0 == a
            &&& a is SendKeystroke ==> held_in(held.0).contains(m)
            &&& held.1 ==> held_in(held.0).drop_last() == held_in(a) && held_in(held.0).last() == m
            &&& !held_in(released.0).contains(m)
            &&& held_in(released.0).contains(other) <==> held_in(a).contains(other)
            &&& held_in(released.0) == held_in(a).filter(|x: Modifier| x != m)
        }),
{
    let mods = held_in(a);
    without_drops_only_that(mods, m, other);
    assert(mods.push(m).drop_last() =~= mods);
    assert(mods.push(m)[mods.len() as int] == m);
    if !mods.contains(m) {
        without_absent(mods, m);
    }
}

/// A fresh action has nothing filled in and nothing held down.
pub proof fn fresh_actions_are_empty(k: Kind, field: TextField)
    ensures
        text_in(k.fresh(), field) matches Some(t) ==> t.len() == 0,
        held_in(k.fresh()).len() == 0,
        arg_count(k.fresh()) == 0,
        k == Kind::PlaySound ==> k.fresh() == (ActionView::PlaySound {
            sound: SystemSound::Default,
        }),
        k == Kind::Screenshot ==> k.fresh() == (ActionView::Screenshot {
            mode: ScreenshotMode::FullScreen,
        }),
{
}

/// A change to one action leaves every other action of the chain as it is and
/// where it is, and the chain as long as it is.
pub proof fn edits_touch_one_action(
    chain: Seq<ActionView>,
    i: usize,
    k: Kind,
    edit: FieldEdit,
    j: int,
)
    requires
        0 <= j < chain.len(),
        j != i,
    ensures
        ({
            let turned = chain_edited(chain, Op::SetKind(i, k));
            let edited = chain_edited(chain, Op::Fields(i, edit));
            &&& turned.0.len() == chain.len() && edited.0.len() == chain.len()
            &&& turned.0[j] == chain[j] && edited.0[j] == chain[j]
            &&& i >= chain.len() ==> turned == (chain, false) && edited == (chain, false)
            &&& i < chain.len() ==> (edited.0[i as int], edited.1) == field_edited(
                chain[i as int],
                edit,
            )
        }),
{
}

/// Making an action another sort starts it afresh. Making it the sort that it
/// already is keeps all that was filled in, and counts as no change.
pub proof fn only_another_sort_starts_afresh(chain: Seq<ActionView>, i: usize, k: Kind)
    requires
        i < chain.len(),
    ensures
        ({
            let turned = chain_edited(chain, Op::SetKind(i, k));
            let a = chain[i as int];
            &&& Kind::kind_of(turned.0[i as int]) == k
            &&& turned.1 <==> Kind::kind_of(a) != k
            &&& !turned.1 ==> turned.0 == chain
            &&& turned.1 ==> arg_count(turned.0[i as int]) == 0 && held_in(turned.0[i as int]).len()
                == 0
        }),
{
}

/// A new action comes last and opens an app that is not named yet. Taking an
/// action out leaves the others in order; a position past the end takes nothing
/// out.
pub proof fn actions_come_and_go_alone(chain: Seq<ActionView>, i: usize, j: int)
    requires
        0 <= j < chain.len(),
    ensures
        ({
            let added = chain_edited(chain, Op::Add);
            let removed = chain_edited(chain, Op::Remove(i));
            &&& added.1 && added.0.len() == chain.len() + 1
            &&& added.0[j] == chain[j]
            &&& added.0.last() matches ActionView::OpenApp { path } && path.len() == 0
            &&& removed.1 <==> i < chain.len()
            &&& !removed.1 ==> removed.0 == chain
            &&& removed.1 ==> removed.0.len() == chain.len() - 1
            &&& removed.1 && j < i ==> removed.0[j] == chain[j]
            &&& removed.1 && j > i ==> removed.0[j - 1] == chain[j]
        }),
{
}

/// A move lets an action change places with its neighbour and leaves all others.
/// The first action cannot move up, nor the last one down.
pub proof fn moves_swap_neighbours(chain: Seq<ActionView>, i: usize, j: int)
    requires
        0 <= j < chain.len(),
        i < chain.len(),
    ensures
        ({
            let up = chain_edited(chain, Op::MoveUp(i));
            let down = chain_edited(chain, Op::MoveDown(i));
            &&& up.0.len() == chain.len() && down.0.len() == chain.len()
            &&& up.1 <==> i > 0
            &&& down.1 <==> i < chain.len() - 1
            &&& !up.1 ==> up.0 == chain
            &&& !down.1 ==> down.0 == chain
            &&& up.1 ==> up.0[i - 1] == chain[i as int] && up.0[i as int] == chain[i - 1]
            &&& down.1 ==> down.0[i + 1] == chain[i as int] && down.0[i as int] == chain[i + 1]
            &&& j != i && j != i - 1 ==> up.0[j] == chain[j]
            &&& j != i && j != i + 1 ==> down.0[j] == chain[j]
        }),
{
}

/// A status is shown only for the zone and the position that were tried last.
pub proof fn statuses_belong_to_the_last_trial(
    editor: &ActionEditor,
    zone_id: ZoneId,
    i: usize,
    r: Option<&Result<(), String>>,
)
    requires
        call_ensures(ActionEditor::row_status, (editor, zone_id, i), r),
    ensures
        editor.last_test is None ==> r is None,
        editor.last_test matches Some((z, k, outcome)) ==> (r is Some <==> z == zone_id && k == i)
            && (r matches Some(shown) ==> *shown == outcome),
{
}

/// An argument is labelled by its place, counted from one, so no two arguments
/// have the same label.
pub proof fn argument_labels_differ(i: usize, j: usize)
    requires
        i < usize::MAX,
        j < usize::MAX,
        field_label(TextField::Arg(i)) == field_label(TextField::Arg(j)),
    ensures
        i == j,
{
    let a = decimal((i + 1) as nat);
    let b = decimal((j + 1) as nat);
    let p = "arg "@;
    assert(a =~= (p + a).skip(p.len() as int));
    assert(b =~= (p + b).skip(p.len() as int));
    decimal_is_injective((i + 1) as nat, (j + 1) as nat);
}

/// An action can run exactly where it has nothing to fill in, or one of its text
/// fields, arguments aside, is filled in with more than white space.
pub proof fn actions_run_once_filled_in(a: &ActionSpec, r: Option<&'static str>, field: TextField)
    requires
        call_ensures(ActionSpec::incomplete_reason, (a,), r),
        !(field is Arg),
    ensures
        a is PlaySound || a is Screenshot || a is VisualOnly ==> r is None,
        (text_in(a@, field) matches Some(t) && !blank(t)) ==> r is None,
        r is None ==> a is PlaySound || a is Screenshot || a is VisualOnly || exists|f: TextField|
            !(f is Arg) && (#[trigger] text_in(a@, f) matches Some(t) && !blank(t)),
{
    if r is None {
        match a {
            ActionSpec::OpenApp { path } => {
                assert(text_in(a@, TextField::Path) == Some(path@));
            },
            ActionSpec::OpenPath { path } => {
                assert(text_in(a@, TextField::Path) == Some(path@));
            },
            ActionSpec::OpenUrl { url } => {
                assert(text_in(a@, TextField::Url) == Some(url@));
            },
            ActionSpec::RunCommand { command, .. } => {
                assert(text_in(a@, TextField::Command) == Some(command@));
            },
            ActionSpec::CopyToClipboard { text } => {
                assert(text_in(a@, TextField::Text) == Some(text@));
            },
            ActionSpec::Speak { text } => {
                assert(text_in(a@, TextField::Text) == Some(text@));
            },
            ActionSpec::ShowToast { title, body } => {
                assert(text_in(a@, TextField::Title) == Some(title@));
                assert(text_in(a@, TextField::Body) == Some(body@));
            },
            ActionSpec::SendKeystroke { combo } => {
                assert(text_in(a@, TextField::Key) == Some(combo.key@));
            },
            _ => {},
        }
    }
}

} // verus!
