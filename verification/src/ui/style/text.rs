//! Text sizes, from large to small.

use vstd::prelude::*;

verus! {

pub const DISPLAY: u8 = 34;

pub const TITLE: u8 = 26;

pub const HEADING: u8 = 20;

pub const SECTION: u8 = 16;

pub const BODY: u8 = 14;

pub const CAPTION: u8 = 12;

} // verus!
