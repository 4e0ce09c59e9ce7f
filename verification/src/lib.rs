//! Qwerty: tap a zone of the desk, run an action.
//!
//! The library holds the rules of the application: how calibration samples
//! become a classifier, when a sound is a tap, what each zone runs, what may be
//! written to and read from disk, and how every screen moves from one state to
//! the next. Sound samples and features are held by their single-precision
//! encoding (see [`single`]).

pub mod app_state;
pub mod audio;
pub mod calibration;
pub mod capture;
pub mod capture_worker;
pub mod classifier;
pub mod clock;
pub mod evaluation;
pub mod features;
pub mod hotkeys;
pub mod ids;
pub mod onset;
pub mod order;
pub mod platform;
pub mod profile;
pub mod single;
pub mod soak;
pub mod text;
pub mod tray;
pub mod ui;
pub mod value;

use vstd::prelude::*;

verus! {

/// Version of the library.
pub const CORE_VERSION: &'static str = "0.1.0";

} // verus!
