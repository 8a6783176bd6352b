//! Sideband channel numbers, as in protocol v1.

use vstd::prelude::*;

verus! {

pub const DATA: u8 = 1;

pub const PROGRESS: u8 = 2;

pub const ERROR: u8 = 3;

} // verus!
