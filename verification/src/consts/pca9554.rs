//! PCA9554 expander pin assignments. Bit numbers match the chip's
//! registers, one less than the EXIO1..EXIO8 labels of the schematic.
//! Bits 4, 5 and 6 are unused on this carrier.

use vstd::prelude::*;

verus! {

/// LCD reset. Claimed at start-up as output-high.
pub const LCD_RST_BIT: u8 = 0;

/// Touch-controller reset. Claimed at start-up as output-high.
pub const TOUCH_RST_BIT: u8 = 1;

/// ST7701 chip-select. Claimed at start-up as output-high.
pub const ST7701_CS_BIT: u8 = 2;

/// SD card D3 (enable). Left alone at start-up: drive it high to enable
/// the SD card data path.
pub const SD_D3_EN_BIT: u8 = 3;

/// On-board piezo buzzer. Claimed at start-up as output-low, silent.
pub const BUZZER_BIT: u8 = 7;

} // verus!
