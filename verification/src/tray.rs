//! The tray icon: its tooltip, and what its menu and clicks ask for.

use vstd::prelude::*;

use crate::app_state::ListeningState;
use crate::text::join;

verus! {

/// What the tray asks for.
#[derive(Clone, Copy, Debug, PartialEq, Eq, Structural)]
pub enum TrayCommand {
    ToggleListening,
    OpenWindow,
    Quit,
}

/// A mouse button on the icon, going down or coming up.
#[derive(Clone, Copy, Debug, PartialEq, Eq, Structural)]
pub struct Click {
    pub left: bool,
    pub up: bool,
}

/// Why there is no icon. Texts come from the system.
#[derive(Clone, Debug)]
pub enum TrayError {
    Menu(String),
    Build(String),
}

impl TrayError {
    /// The error in words.
    pub open spec fn text(&self) -> Seq<char> {
        match self {
            TrayError::Menu(e) => "could not build the tray menu: "@ + e@,
            TrayError::Build(e) => "could not create the tray icon: "@ + e@,
        }
    }

    pub fn describe(&self) -> (s: String)
        ensures
            s@ == self.text(),
    {
        match self {
            TrayError::Menu(e) => join("could not build the tray menu: ", e),
            TrayError::Build(e) => join("could not create the tray icon: ", e),
        }
    }
}

/// The icon's menu and state.
#[derive(Clone, Debug)]
pub struct Tray {
    pub toggle_id: String,
    pub open_id: String,
    pub quit_id: String,
    pub state: ListeningState,
}

/// The text over the icon.
pub fn tooltip(state: ListeningState) -> (s: String)
    ensures
        s@ == "Qwerty — "@ + state.label_text(),
{
    join("Qwerty — ", state.label())
}

impl Tray {
    /// What an item of the menu asks for.
    pub open spec fn menu_command(&self, id: Seq<char>) -> Option<TrayCommand> {
        if id == self.toggle_id@ {
            Some(TrayCommand::ToggleListening)
        } else if id == self.open_id@ {
            Some(TrayCommand::OpenWindow)
        } else if id == self.quit_id@ {
            Some(TrayCommand::Quit)
        } else {
            None
        }
    }

    /// What the items of the menu ask for, in order.
    pub open spec fn menu_commands(&self, ids: Seq<String>) -> Seq<TrayCommand>
        decreases ids.len(),
    {
        if ids.len() == 0 {
            Seq::empty()
        } else {
            let before = self.menu_commands(ids.drop_last());
            match self.menu_command(ids.last()@) {
                Some(c) => before.push(c),
                None => before,
            }
        }
    }

    /// Show a state. `false` where it is shown already: then nothing is to be
    /// redrawn.
    pub fn set_state(&mut self, state: ListeningState) -> (changed: bool)
        ensures
            changed == (old(self).state != state),
            *final(self) == (Tray { state, ..*old(self) }),
    {
        if self.state == state {
            return false;
        }
        self.state = state;
        true
    }

    /// What is asked for by the menu items that were chosen, then by the clicks
    /// on the icon: a left button coming up opens the window.
    pub fn poll(&self, menu: &[String], clicks: &[Click]) -> (cmds: Vec<TrayCommand>)
        ensures
            cmds@ == self.menu_commands(menu@) + click_commands(clicks@),
    {
        let mut cmds: Vec<TrayCommand> = Vec::new();
        let mut i: usize = 0;
        while i < menu.len()
            invariant
                i <= menu@.len(),
                cmds@ == self.menu_commands(menu@.take(i as int)),
            decreases menu@.len() - i,
        {
            proof {
                assert(menu@.take(i + 1).drop_last() =~= menu@.take(i as int));
            }
            if menu[i] == self.toggle_id {
                cmds.push(TrayCommand::ToggleListening);
            } else if menu[i] == self.open_id {
                cmds.push(TrayCommand::OpenWindow);
            } else if menu[i] == self.quit_id {
                cmds.push(TrayCommand::Quit);
            }
            i += 1;
        }
        proof {
            assert(menu@.take(i as int) =~= menu@);
            assert(cmds@ =~= self.menu_commands(menu@) + click_commands(clicks@.take(0)));
        }
        let mut k: usize = 0;
        while k < clicks.len()
            invariant
                k <= clicks@.len(),
                cmds@ == self.menu_commands(menu@) + click_commands(clicks@.take(k as int)),
            decreases clicks@.len() - k,
        {
            proof {
                assert(clicks@.take(k + 1).drop_last() =~= clicks@.take(k as int));
            }
            let ghost before = click_commands(clicks@.take(k as int));
            if clicks[k].left && clicks[k].up {
                cmds.push(TrayCommand::OpenWindow);
                proof {
                    assert(cmds@ =~= self.menu_commands(menu@) + before.push(
                        TrayCommand::OpenWindow,
                    ));
                }
            }
            k += 1;
        }
        proof {
            assert(clicks@.take(k as int) =~= clicks@);
        }
        cmds
    }
}

/// What clicks ask for: every left button that comes up opens the window.
pub open spec fn click_commands(clicks: Seq<Click>) -> Seq<TrayCommand>
    decreases clicks.len(),
{
    if clicks.len() == 0 {
        Seq::empty()
    } else {
        let before = click_commands(clicks.drop_last());
        if clicks.last().left && clicks.last().up {
            before.push(TrayCommand::OpenWindow)
        } else {
            before
        }
    }
}

/// Every item of the menu that is known asks for its own command, in the order in
/// which they were chosen, and others for nothing.
pub proof fn menu_items_ask_for_their_command(tray: Tray, ids: Seq<String>, id: String)
    requires
        tray.toggle_id@ != tray.open_id@,
        tray.toggle_id@ != tray.quit_id@,
        tray.open_id@ != tray.quit_id@,
    ensures
        tray.menu_commands(Seq::empty()).len() == 0,
        id@ == tray.toggle_id@ ==> tray.menu_commands(ids.push(id)) == tray.menu_commands(ids).push(
            TrayCommand::ToggleListening,
        ),
        id@ == tray.open_id@ ==> tray.menu_commands(ids.push(id)) == tray.menu_commands(ids).push(
            TrayCommand::OpenWindow,
        ),
        id@ == tray.quit_id@ ==> tray.menu_commands(ids.push(id)) == tray.menu_commands(ids).push(
            TrayCommand::Quit,
        ),
        id@ != tray.toggle_id@ && id@ != tray.open_id@ && id@ != tray.quit_id@
            ==> tray.menu_commands(ids.push(id)) == tray.menu_commands(ids),
{
    assert(ids.push(id).drop_last() =~= ids);
}

/// Clicks ask for the window and nothing else, once for every left button that comes
/// up.
pub proof fn left_clicks_open_the_window(clicks: Seq<Click>, i: int)
    ensures
        click_commands(clicks).len() == clicks.filter(|c: Click| c.left && c.up).len(),
        0 <= i < click_commands(clicks).len() ==> click_commands(clicks)[i]
            == TrayCommand::OpenWindow,
    decreases clicks.len(),
{
    reveal(Seq::filter);
    if clicks.len() > 0 {
        left_clicks_open_the_window(clicks.drop_last(), i);
    }
}

} // verus!
