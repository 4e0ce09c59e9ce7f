//! The system-wide key that toggles listening.

use vstd::prelude::*;

verus! {

/// An event of a registered key.
#[derive(Clone, Copy, Debug, PartialEq, Eq, Structural)]
pub struct HotkeyEvent {
    pub id: u32,
    pub pressed: bool,
}

/// The registered key.
#[derive(Clone, Copy, Debug, PartialEq, Eq, Structural)]
pub struct Hotkeys {
    pub toggle_id: u32,
}

impl Hotkeys {
    /// The key, as it is shown.
    pub const DEFAULT_LABEL: &'static str = "Ctrl+Alt+Space";

    /// Whether the key was pressed among these events. Releases and other keys
    /// do not count, and several presses count once.
    pub fn poll_toggle(&self, events: &[HotkeyEvent]) -> (r: bool)
        ensures
            r == exists|i: int|
                0 <= i < events@.len() && (#[trigger] events@[i]).id == self.toggle_id
                    && events@[i].pressed,
    {
        let mut i: usize = 0;
        while i < events.len()
            invariant
                i <= events@.len(),
                forall|j: int|
                    0 <= j < i ==> !((#[trigger] events@[j]).id == self.toggle_id
                        && events@[j].pressed),
            decreases events@.len() - i,
        {
            if events[i].id == self.toggle_id && events[i].pressed {
                return true;
            }
            i += 1;
        }
        false
    }
}

} // verus!
