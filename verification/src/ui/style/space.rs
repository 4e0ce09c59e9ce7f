//! Distances, from tight to wide.

use vstd::prelude::*;

verus! {

pub const XXS: u8 = 2;

pub const XS: u8 = 4;

pub const SM: u8 = 8;

pub const MD: u8 = 12;

pub const LG: u8 = 16;

pub const XL: u8 = 24;

pub const XXL: u8 = 32;

} // verus!
