//! Battery voltage sense: a roughly 3:1 divider of the battery voltage
//! on an ADC pin.

use vstd::prelude::*;

verus! {

/// GPIO carrying the divider output.
pub const ADC_GPIO: u8 = 4;

/// ADC1 channel.
pub const ADC1_CHANNEL: u8 = 3;

/// Attenuation in dB, for a full-scale input of about 2.5 V at the pin.
pub const ADC_ATTENUATION_DB: u8 = 12;

} // verus!
