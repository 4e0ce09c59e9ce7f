//! What actions do: the border to the operating system, and how actions are
//! carried out across it.

pub mod keys;
pub mod region_select;
pub mod screen;

use vstd::prelude::*;

use crate::profile::{ActionSpec, KeyCombo, ScreenshotMode, SystemSound};
use crate::text::{decimal, decimal_text, join, join3};
use crate::value::{views, ActionView, ComboView};

verus! {

/// A notification.
#[derive(Clone, Debug)]
pub struct ToastSpec {
    pub title: String,
    pub body: String,
}

/// Why an action failed.
#[derive(Clone, Debug)]
pub enum ActionError {
    TargetNotFound(String),
    LaunchFailed { target: String, reason: String },
    Clipboard(String),
    Speech(String),
    Keystroke(String),
    Screenshot(String),
    Notification(String),
    Sound(String),
    Unsupported(&'static str),
}

impl ActionError {
    /// The error in words.
    pub open spec fn text(&self) -> Seq<char> {
        match self {
            ActionError::TargetNotFound(t) => "could not find \""@ + t@ + "\""@,
            ActionError::LaunchFailed { target, reason } => "could not launch \""@ + target@
                + "\": "@ + reason@,
            ActionError::Clipboard(e) => "clipboard error: "@ + e@,
            ActionError::Speech(e) => "text-to-speech error: "@ + e@,
            ActionError::Keystroke(e) => "keystroke error: "@ + e@,
            ActionError::Screenshot(e) => "screenshot error: "@ + e@,
            ActionError::Notification(e) => "notification error: "@ + e@,
            ActionError::Sound(e) => "sound error: "@ + e@,
            ActionError::Unsupported(what) => "not supported on this build: "@ + what@,
        }
    }

    pub fn describe(&self) -> (s: String)
        ensures
            s@ == self.text(),
    {
        match self {
            ActionError::TargetNotFound(t) => join3("could not find \"", t, "\""),
            ActionError::LaunchFailed { target, reason } => {
                let start = join3("could not launch \"", target, "\": ");
                join(&start, reason)
            },
            ActionError::Clipboard(e) => join("clipboard error: ", e),
            ActionError::Speech(e) => join("text-to-speech error: ", e),
            ActionError::Keystroke(e) => join("keystroke error: ", e),
            ActionError::Screenshot(e) => join("screenshot error: ", e),
            ActionError::Notification(e) => join("notification error: ", e),
            ActionError::Sound(e) => join("sound error: ", e),
            ActionError::Unsupported(what) => join("not supported on this build: ", what),
        }
    }
}

/// A call to the operating system.
pub enum PlatformCall {
    OpenUri(Seq<char>),
    OpenPath(Seq<char>),
    RunCommand(Seq<char>, Seq<Seq<char>>),
    CopyToClipboard(Seq<char>),
    Speak(Seq<char>),
    SendKeystroke(ComboView),
    PlaySound(SystemSound),
    Screenshot(ScreenshotMode),
    /// Title and body.
    Notify(Seq<char>, Seq<char>),
}

/// Why something failed; `None` where it succeeded.
pub open spec fn failure<E>(r: Result<(), E>) -> Option<E> {
    match r {
        Ok(_) => None,
        Err(e) => Some(e),
    }
}

/// The log with one more call and its answer.
pub open spec fn logged(
    log: Seq<(PlatformCall, Option<ActionError>)>,
    call: PlatformCall,
    r: Result<(), ActionError>,
) -> Seq<(PlatformCall, Option<ActionError>)> {
    log.push((call, failure(r)))
}

/// What an operating system can do. The log holds the calls that were made, in
/// order, each with why it failed, if it did; a call adds itself and nothing
/// else.
pub trait PlatformActions {
    /// Nothing is known of it but what the calls add.
    open spec fn log(&self) -> Seq<(PlatformCall, Option<ActionError>)> {
        arbitrary()
    }

    fn open_uri(&mut self, uri: &str) -> (r: Result<(), ActionError>)
        ensures
            final(self).log() == logged(old(self).log(), PlatformCall::OpenUri(uri@), r),
    ;

    fn open_path(&mut self, path: &str) -> (r: Result<(), ActionError>)
        ensures
            final(self).log() == logged(old(self).log(), PlatformCall::OpenPath(path@), r),
    ;

    fn run_command(&mut self, cmd: &str, args: &Vec<String>) -> (r: Result<(), ActionError>)
        ensures
            final(self).log() == logged(
                old(self).log(),
                PlatformCall::RunCommand(cmd@, views(args@)),
                r,
            ),
    ;

    fn copy_to_clipboard(&mut self, text: &str) -> (r: Result<(), ActionError>)
        ensures
            final(self).log() == logged(old(self).log(), PlatformCall::CopyToClipboard(text@), r),
    ;

    fn speak(&mut self, text: &str) -> (r: Result<(), ActionError>)
        ensures
            final(self).log() == logged(old(self).log(), PlatformCall::Speak(text@), r),
    ;

    fn send_keystroke(&mut self, combo: &KeyCombo) -> (r: Result<(), ActionError>)
        ensures
            final(self).log() == logged(old(self).log(), PlatformCall::SendKeystroke(combo@), r),
    ;

    fn play_sound(&mut self, sound: SystemSound) -> (r: Result<(), ActionError>)
        ensures
            final(self).log() == logged(old(self).log(), PlatformCall::PlaySound(sound), r),
    ;

    fn screenshot_to_clipboard(&mut self, mode: ScreenshotMode) -> (r: Result<(), ActionError>)
        ensures
            final(self).log() == logged(old(self).log(), PlatformCall::Screenshot(mode), r),
    ;

    fn notify(&mut self, toast: &ToastSpec) -> (r: Result<(), ActionError>)
        ensures
            final(self).log() == logged(
                old(self).log(),
                PlatformCall::Notify(toast.title@, toast.body@),
                r,
            ),
    ;
}

/// The call that carries out an action. The action that only shows something
/// needs none.
pub open spec fn call_of(action: ActionView) -> Option<PlatformCall> {
    match action {
        ActionView::OpenApp { path } => Some(PlatformCall::OpenPath(path)),
        ActionView::OpenPath { path } => Some(PlatformCall::OpenPath(path)),
        ActionView::OpenUrl { url } => Some(PlatformCall::OpenUri(url)),
        ActionView::RunCommand { command, args } => Some(PlatformCall::RunCommand(command, args)),
        ActionView::CopyToClipboard { text } => Some(PlatformCall::CopyToClipboard(text)),
        ActionView::Speak { text } => Some(PlatformCall::Speak(text)),
        ActionView::PlaySound { sound } => Some(PlatformCall::PlaySound(sound)),
        ActionView::ShowToast { title, body } => Some(PlatformCall::Notify(title, body)),
        ActionView::SendKeystroke { combo } => Some(PlatformCall::SendKeystroke(combo)),
        ActionView::Screenshot { mode } => Some(PlatformCall::Screenshot(mode)),
        ActionView::VisualOnly => None,
    }
}

/// An action was carried out: its one call was made, and `failed` is why it
/// failed, if it did. The action that needs no call made none and succeeded.
pub open spec fn carried_out(
    action: ActionView,
    before: Seq<(PlatformCall, Option<ActionError>)>,
    failed: Option<ActionError>,
    after: Seq<(PlatformCall, Option<ActionError>)>,
) -> bool {
    match call_of(action) {
        Some(call) => after == before.push((call, failed)),
        None => failed is None && after == before,
    }
}

/// Carry out one action.
pub fn dispatch<P: PlatformActions>(action: &ActionSpec, platform: &mut P) -> (r: Result<
    (),
    ActionError,
>)
    ensures
        carried_out(action@, old(platform).log(), failure(r), final(platform).log()),
{
    match action {
        ActionSpec::OpenApp { path } => platform.open_path(path),
        ActionSpec::OpenPath { path } => platform.open_path(path),
        ActionSpec::OpenUrl { url } => platform.open_uri(url),
        ActionSpec::RunCommand { command, args } => platform.run_command(command, args),
        ActionSpec::CopyToClipboard { text } => platform.copy_to_clipboard(text),
        ActionSpec::Speak { text } => platform.speak(text),
        ActionSpec::PlaySound { sound } => platform.play_sound(*sound),
        ActionSpec::ShowToast { title, body } => {
            let toast = ToastSpec { title: title.clone(), body: body.clone() };
            platform.notify(&toast)
        },
        ActionSpec::SendKeystroke { combo } => platform.send_keystroke(combo),
        ActionSpec::Screenshot { mode } => platform.screenshot_to_clipboard(*mode),
        ActionSpec::VisualOnly => Ok(()),
    }
}

/// The calls of actions that all succeed, in order.
pub open spec fn successes(actions: Seq<ActionView>) -> Seq<(PlatformCall, Option<ActionError>)>
    decreases actions.len(),
{
    if actions.len() == 0 {
        Seq::empty()
    } else {
        let before = successes(actions.drop_last());
        match call_of(actions.last()) {
            Some(call) => before.push((call, None)),
            None => before,
        }
    }
}

/// A chain was run: every action in order, each once, where all succeed; and
/// otherwise those up to the first that fails, and none after it. `failed` is
/// that action's position and why it failed.
pub open spec fn chain_ran(
    actions: Seq<ActionView>,
    before: Seq<(PlatformCall, Option<ActionError>)>,
    failed: Option<(usize, ActionError)>,
    after: Seq<(PlatformCall, Option<ActionError>)>,
) -> bool {
    match failed {
        None => after == before + successes(actions),
        Some((n, e)) => n < actions.len() && carried_out(
            actions[n as int],
            before + successes(actions.take(n as int)),
            Some(e),
            after,
        ),
    }
}

/// Carry out a chain of actions in order, up to the first that fails. The error
/// says which one that was.
pub fn dispatch_chain<P: PlatformActions>(actions: &[ActionSpec], platform: &mut P) -> (r: Result<
    (),
    (usize, ActionError),
>)
    ensures
        chain_ran(views(actions@), old(platform).log(), failure(r), final(platform).log()),
{
    let ghost chain = views(actions@);
    let ghost first = platform.log();
    let mut i: usize = 0;
    proof {
        assert(first + successes(chain.take(0)) =~= first);
    }
    while i < actions.len()
        invariant
            i <= actions@.len(),
            chain == views(actions@),
            first == old(platform).log(),
            platform.log() == first + successes(chain.take(i as int)),
        decreases actions@.len() - i,
    {
        let ghost made = platform.log();
        let r = dispatch(&actions[i], platform);
        proof {
            assert(actions@[i as int]@ == chain[i as int]);
            assert(chain.take(i + 1).drop_last() =~= chain.take(i as int));
            assert(chain.take(i + 1).last() == chain[i as int]);
            assert(carried_out(chain[i as int], made, failure(r), platform.log()));
        }
        match r {
            Ok(()) => {
                proof {
                    assert(platform.log() =~= first + successes(chain.take(i + 1)));
                }
            },
            Err(e) => return Err((i, e)),
        }
        i += 1;
    }
    proof {
        assert(chain.take(i as int) =~= chain);
    }
    Ok(())
}

proof fn successes_join(a: Seq<ActionView>, b: Seq<ActionView>)
    ensures
        successes(a + b) == successes(a) + successes(b),
    decreases b.len(),
{
    if b.len() == 0 {
        assert(a + b =~= a);
        assert(successes(a) + successes(b) =~= successes(a));
    } else {
        assert((a + b).drop_last() =~= a + b.drop_last());
        successes_join(a, b.drop_last());
        assert(successes(a + b) =~= successes(a) + successes(b));
    }
}

/// What comes of two chains as one: the first failure, counted from the start of
/// the first.
pub open spec fn joined(
    first: nat,
    fa: Option<(usize, ActionError)>,
    fb: Option<(usize, ActionError)>,
) -> Option<(usize, ActionError)> {
    match (fa, fb) {
        (None, Some((j, e))) => Some(((first + j) as usize, e)),
        _ => fa,
    }
}

/// Two chains run as one where the second is run after the first, and only where
/// the first succeeds: the same calls are made, and the same comes of it.
pub proof fn chains_join(
    a: Seq<ActionView>,
    b: Seq<ActionView>,
    before: Seq<(PlatformCall, Option<ActionError>)>,
    fa: Option<(usize, ActionError)>,
    between: Seq<(PlatformCall, Option<ActionError>)>,
    fb: Option<(usize, ActionError)>,
    after: Seq<(PlatformCall, Option<ActionError>)>,
)
    requires
        a.len() + b.len() <= usize::MAX,
        chain_ran(a, before, fa, between),
        fa is None ==> chain_ran(b, between, fb, after),
        fa is Some ==> after == between,
    ensures
        chain_ran(a + b, before, joined(a.len(), fa, fb), after),
{
    successes_join(a, b);
    match fa {
        None => match fb {
            None => {
                assert(before + successes(a) + successes(b) =~= before + (successes(a)
                    + successes(b)));
            },
            Some((j, e)) => {
                let n = (a.len() + j) as int;
                assert((a + b).take(n) =~= a + b.take(j as int));
                successes_join(a, b.take(j as int));
                assert(between + successes(b.take(j as int)) =~= before + successes(
                    (a + b).take(n),
                ));
            },
        },
        Some((n, e)) => {
            assert((a + b).take(n as int) =~= a.take(n as int));
        },
    }
}

/// Every run of two chains as one is a run of the first, and of the second after
/// it where the first succeeds.
pub proof fn chains_split(
    a: Seq<ActionView>,
    b: Seq<ActionView>,
    before: Seq<(PlatformCall, Option<ActionError>)>,
    failed: Option<(usize, ActionError)>,
    after: Seq<(PlatformCall, Option<ActionError>)>,
) -> (parts: (
    Option<(usize, ActionError)>,
    Seq<(PlatformCall, Option<ActionError>)>,
    Option<(usize, ActionError)>,
))
    requires
        a.len() + b.len() <= usize::MAX,
        chain_ran(a + b, before, failed, after),
    ensures
        chain_ran(a, before, parts.0, parts.1),
        parts.0 is None ==> chain_ran(b, parts.1, parts.2, after),
        parts.0 is Some ==> after == parts.1,
        failed == joined(a.len(), parts.0, parts.2),
{
    successes_join(a, b);
    let between = before + successes(a);
    match failed {
        None => {
            assert(between + successes(b) =~= before + (successes(a) + successes(b)));
            (None, between, None)
        },
        Some((n, e)) => if n < a.len() {
            assert((a + b).take(n as int) =~= a.take(n as int));
            (failed, after, None)
        } else {
            let j = n - a.len();
            assert((a + b).take(n as int) =~= a + b.take(j));
            successes_join(a, b.take(j));
            assert(between + successes(b.take(j)) =~= before + successes((a + b).take(n as int)));
            (None, between, Some((j as usize, e)))
        },
    }
}

/// An empty chain succeeds and makes no call.
pub proof fn empty_chains_do_nothing(
    before: Seq<(PlatformCall, Option<ActionError>)>,
    failed: Option<(usize, ActionError)>,
    after: Seq<(PlatformCall, Option<ActionError>)>,
)
    ensures
        chain_ran(Seq::empty(), before, failed, after) <==> failed is None && after == before,
{
    assert(before + Seq::<(PlatformCall, Option<ActionError>)>::empty() =~= before);
}

/// A number with its sign.
pub open spec fn signed_decimal(n: int) -> Seq<char> {
    if n < 0 {
        "-"@ + decimal((-n) as nat)
    } else {
        decimal(n as nat)
    }
}

/// What came of asking the shell to open a target: codes above 32 are success,
/// 2 and 3 say that there is no such target.
pub open spec fn shell_outcome(target: Seq<char>, code: int, r: Result<(), ActionError>) -> bool {
    if code > 32 {
        r is Ok
    } else if code == 2 || code == 3 {
        r matches Err(ActionError::TargetNotFound(t)) && t@ == target
    } else {
        r matches Err(ActionError::LaunchFailed { target: t, reason }) && t@ == target && reason@
            == "shell refused to open target (SE_ERR "@ + signed_decimal(code) + ")"@
    }
}

/// The outcome of asking the shell to open a target.
pub fn shell_result(target: &str, code: i64) -> (r: Result<(), ActionError>)
    ensures
        shell_outcome(target@, code as int, r),
{
    if code > 32 {
        return Ok(());
    }
    if code == 2 || code == 3 {
        return Err(ActionError::TargetNotFound(target.to_owned()));
    }
    let number = if code < 0 {
        let magnitude: u64 = (-(code + 1)) as u64 + 1;
        let digits = decimal_text(magnitude);
        join("-", &digits)
    } else {
        decimal_text(code as u64)
    };
    let reason = join3("shell refused to open target (SE_ERR ", &number, ")");
    Err(ActionError::LaunchFailed { target: target.to_owned(), reason })
}

/// Whether animations are to be kept to a minimum, given whether the system says
/// that they are shown: they are where it does not say.
pub fn os_prefers_reduced_motion(animations_shown: Option<bool>) -> (r: bool)
    ensures
        r == (animations_shown == Some(false)),
{
    match animations_shown {
        Some(shown) => !shown,
        None => false,
    }
}

/// What came of starting a command.
#[derive(Clone, Debug)]
pub enum Launch {
    Started,
    /// There is no such program.
    NotFound,
    /// The program could not be started; the text says why.
    Failed(String),
}

/// The outcome of starting a command.
pub fn launch_result(cmd: &str, launch: Launch) -> (r: Result<(), ActionError>)
    ensures
        match launch {
            Launch::Started => r is Ok,
            Launch::NotFound => r matches Err(ActionError::TargetNotFound(t)) && t@ == cmd@,
            Launch::Failed(e) => r matches Err(ActionError::LaunchFailed { target, reason })
                && target@ == cmd@ && reason == e,
        },
{
    match launch {
        Launch::Started => Ok(()),
        Launch::NotFound => Err(ActionError::TargetNotFound(cmd.to_owned())),
        Launch::Failed(reason) => Err(
            ActionError::LaunchFailed { target: cmd.to_owned(), reason },
        ),
    }
}

/// The one call that carries out an action holds everything that the action
/// holds: a command comes with all its arguments in order, a key with the
/// modifiers that are held with it, a notification with its title and its body.
pub proof fn calls_carry_what_the_action_holds(
    action: ActionSpec,
    before: Seq<(PlatformCall, Option<ActionError>)>,
    failed: Option<ActionError>,
    after: Seq<(PlatformCall, Option<ActionError>)>,
)
    requires
        carried_out(action@, before, failed, after),
    ensures
        action is VisualOnly <==> after.len() == before.len(),
        action is VisualOnly ==> failed is None && after == before,
        !(action is VisualOnly) ==> after.len() == before.len() + 1 && after.drop_last() == before
            && after.last().1 == failed,
        after.len() > before.len() ==> match after.last().0 {
            PlatformCall::OpenPath(p) => (action matches ActionSpec::OpenApp { path } && path@ == p)
                || (action matches ActionSpec::OpenPath { path } && path@ == p),
            PlatformCall::OpenUri(u) => action matches ActionSpec::OpenUrl { url } && url@ == u,
            PlatformCall::RunCommand(c, held) => action matches ActionSpec::RunCommand {
                command,
                args,
            } && command@ == c && args@.len() == held.len() && forall|i: int|
                0 <= i < held.len() ==> (#[trigger] args@[i])@ == held[i],
            PlatformCall::CopyToClipboard(t) => action matches ActionSpec::CopyToClipboard { text }
                && text@ == t,
            PlatformCall::Speak(t) => action matches ActionSpec::Speak { text } && text@ == t,
            PlatformCall::SendKeystroke(keys) => action matches ActionSpec::SendKeystroke { combo }
                && combo.key@ == keys.key && combo.modifiers@ == keys.modifiers,
            PlatformCall::PlaySound(s) => action == (ActionSpec::PlaySound { sound: s }),
            PlatformCall::Screenshot(m) => action == (ActionSpec::Screenshot { mode: m }),
            PlatformCall::Notify(t, b) => action matches ActionSpec::ShowToast { title, body }
                && title@ == t && body@ == b,
        },
{
    if !(action is VisualOnly) {
        assert(after.drop_last() =~= before);
        match action {
            ActionSpec::RunCommand { command, args } => {
                let held = views(args@);
                assert forall|i: int| 0 <= i < held.len() implies (#[trigger] args@[i])@
                    == held[i] by {}
            },
            _ => {},
        }
    }
}

/// Two actions that differ in anything they hold make calls that differ. An app
/// and a file are opened by the same call, so those two alone can share one.
pub proof fn different_actions_make_different_calls(
    a: ActionView,
    b: ActionView,
    before: Seq<(PlatformCall, Option<ActionError>)>,
    failed: Option<ActionError>,
    after: Seq<(PlatformCall, Option<ActionError>)>,
)
    requires
        carried_out(a, before, failed, after),
        carried_out(b, before, failed, after),
    ensures
        a == b || (a matches ActionView::OpenApp { path: p } && b == (ActionView::OpenPath {
            path: p,
        })) || (a matches ActionView::OpenPath { path: p } && b == (ActionView::OpenApp {
            path: p,
        })),
{
    if call_of(a) is None || call_of(b) is None {
        assert(before.push((PlatformCall::Speak(Seq::empty()), None)).len() != before.len());
    } else {
        assert(after.last().0 == call_of(a)->0);
        assert(after.last().0 == call_of(b)->0);
    }
}

proof fn successes_answer_none(actions: Seq<ActionView>)
    ensures
        forall|i: int|
            0 <= i < successes(actions).len() ==> (#[trigger] successes(actions)[i]).1 is None,
        successes(actions).len() <= actions.len(),
        (forall|i: int| 0 <= i < actions.len() ==> !(#[trigger] actions[i] is VisualOnly))
            ==> successes(actions).len() == actions.len(),
    decreases actions.len(),
{
    if actions.len() > 0 {
        successes_answer_none(actions.drop_last());
        if forall|i: int| 0 <= i < actions.len() ==> !(#[trigger] actions[i] is VisualOnly) {
            assert(!(actions[actions.len() - 1] is VisualOnly));
            assert forall|i: int| 0 <= i < actions.len() - 1 implies !(
            #[trigger] actions.drop_last()[i] is VisualOnly) by {
                assert(!(actions[i] is VisualOnly));
            }
        }
    }
}

/// A chain keeps the calls that were made before it. Of its own calls all but
/// the last one succeed, and the last one fails exactly where the chain does,
/// for the same reason. A chain that succeeds has made one call for every action
/// that is not for show only.
pub proof fn chains_stop_at_the_first_failure(
    actions: Seq<ActionView>,
    before: Seq<(PlatformCall, Option<ActionError>)>,
    failed: Option<(usize, ActionError)>,
    after: Seq<(PlatformCall, Option<ActionError>)>,
)
    requires
        chain_ran(actions, before, failed, after),
    ensures
        before.is_prefix_of(after),
        forall|i: int|
            before.len() <= i < after.len() - 1 ==> (#[trigger] after[i]).1 is None,
        failed is None && after.len() > before.len() ==> after.last().1 is None,
        failed is None && (forall|i: int|
            0 <= i < actions.len() ==> !(#[trigger] actions[i] is VisualOnly)) ==> after.len()
            == before.len() + actions.len(),
        failed matches Some((n, e)) ==> n < actions.len() && after.len() > before.len()
            && after.last().1 == Some(e) && after.len() <= before.len() + n + 1,
        failed matches Some((n, e)) ==> carried_out(
            actions[n as int],
            after.drop_last(),
            Some(e),
            after,
        ),
{
    match failed {
        None => {
            successes_answer_none(actions);
            let s = successes(actions);
            assert forall|i: int| before.len() <= i < after.len() implies (
            #[trigger] after[i]).1 is None by {
                assert(after[i] == s[i - before.len()]);
            }
        },
        Some((n, e)) => {
            let s = successes(actions.take(n as int));
            successes_answer_none(actions.take(n as int));
            assert(after.drop_last() =~= before + s);
            assert forall|i: int| before.len() <= i < after.len() - 1 implies (
            #[trigger] after[i]).1 is None by {
                assert(after[i] == s[i - before.len()]);
            }
        },
    }
}

/// A chain of one action is that action: it fails at its first and only
/// position, or not at all.
pub proof fn a_chain_of_one_is_its_action(
    action: ActionView,
    before: Seq<(PlatformCall, Option<ActionError>)>,
    failed: Option<ActionError>,
    after: Seq<(PlatformCall, Option<ActionError>)>,
)
    ensures
        carried_out(action, before, failed, after) <==> chain_ran(
            seq![action],
            before,
            match failed {
                None => None,
                Some(e) => Some((0, e)),
            },
            after,
        ),
{
    let one = seq![action];
    assert(one.drop_last() =~= Seq::<ActionView>::empty());
    assert(one.take(0) =~= Seq::<ActionView>::empty());
    assert(successes(one.take(0)) =~= Seq::<(PlatformCall, Option<ActionError>)>::empty());
    assert(before + successes(one.take(0)) =~= before);
    assert(successes(one.drop_last()) =~= Seq::<(PlatformCall, Option<ActionError>)>::empty());
    assert(failed is None ==> (before + successes(one) =~= match call_of(action) {
        Some(call) => before.push((call, None)),
        None => before,
    }));
}

/// Only codes above 32 are success. Every failure names the target that was
/// asked for, and exactly the codes for a missing file and a missing directory
/// say that it was not found.
pub proof fn shell_codes_are_told_apart(target: &str, code: i64, r: Result<(), ActionError>)
    requires
        call_ensures(shell_result, (target, code), r),
    ensures
        r is Ok <==> code >= 33,
        (r matches Err(e) && e is TargetNotFound) <==> 2 <= code <= 3,
        (r matches Err(e) && e is LaunchFailed) <==> code <= 1 || 4 <= code <= 32,
        r matches Err(ActionError::TargetNotFound(t)) ==> t@ == target@,
        r matches Err(ActionError::LaunchFailed { target: t, .. }) ==> t@ == target@,
{
}

/// Starting a command fails exactly where it did not start, and the error names
/// the command that was asked for.
pub proof fn launch_failures_name_the_command(cmd: &str, launch: Launch, r: Result<
    (),
    ActionError,
>)
    requires
        call_ensures(launch_result, (cmd, launch), r),
    ensures
        r is Ok <==> launch is Started,
        (r matches Err(ActionError::TargetNotFound(t)) && t@ == cmd@) <==> launch is NotFound,
        (r matches Err(ActionError::LaunchFailed { target, reason }) && target@ == cmd@
            && launch == Launch::Failed(reason)) <==> launch is Failed,
{
}

/// Motion is reduced for a system that says animations are off, and for no
/// other.
pub proof fn silence_keeps_motion(animations_shown: Option<bool>, r: bool)
    requires
        call_ensures(os_prefers_reduced_motion, (animations_shown,), r),
    ensures
        animations_shown is None ==> !r,
        animations_shown matches Some(shown) ==> r != shown,
{
}

/// A number below zero is written with a minus sign before its absolute value, and
/// any other without a sign.
pub proof fn signs_are_written_before_the_number(n: nat)
    ensures
        signed_decimal(n as int) == decimal(n),
        n > 0 ==> signed_decimal(-(n as int)) == "-"@ + decimal(n),
{
}

} // verus!
