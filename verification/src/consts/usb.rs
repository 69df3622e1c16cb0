//! USB pins. They are fixed in hardware; do not use them as plain GPIOs.

use vstd::prelude::*;

verus! {

/// D-
pub const DM_GPIO: u8 = 19;

/// D+
pub const DP_GPIO: u8 = 20;

} // verus!
