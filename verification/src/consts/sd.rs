//! SD/MMC pin layout: 1-bit mode, with D3 routed through the PCA9554
//! expander. GPIO1 and GPIO2 are shared with the ST7701 init link, which
//! needs them during panel bring-up only.

use crate::consts::pca9554::SD_D3_EN_BIT;
use vstd::prelude::*;

verus! {

/// SD CLK, also the ST7701 init SCK.
pub const CLK_GPIO: u8 = 2;

/// SD CMD, also the ST7701 init MOSI.
pub const CMD_GPIO: u8 = 1;

/// SD D0.
pub const D0_GPIO: u8 = 42;

/// SD D3 (enable) on the PCA9554 expander.
pub const D3_PCA9554_BIT: u8 = SD_D3_EN_BIT;

} // verus!
