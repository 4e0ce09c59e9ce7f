//! What the screens show and how they move from state to state.

pub mod action_editor;
pub mod diagnostics;
pub mod evaluation;
pub mod icon;
pub mod motion;
pub mod shell;
pub mod style;
pub mod theme;
pub mod wizard;
