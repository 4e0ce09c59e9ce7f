//! Corner radii, from sharp to round.

use vstd::prelude::*;

verus! {

pub const XS: u8 = 3;

pub const SM: u8 = 6;

pub const MD: u8 = 10;

pub const LG: u8 = 14;

} // verus!
