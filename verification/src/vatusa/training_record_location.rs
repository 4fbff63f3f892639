//! VATUSA training record "location" values.

use vstd::prelude::*;

verus! {

pub const CLASSROOM: u8 = 0;

pub const LIVE: u8 = 0;

pub const SIMULATION: u8 = 2;

pub const LIVE_OTS: u8 = 1;

pub const SIMULATION_OTS: u8 = 2;

pub const NO_SHOW: u8 = 0;

pub const OTHER: u8 = 0;

} // verus!
