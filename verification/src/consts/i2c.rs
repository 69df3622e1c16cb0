//! I2C bus 0: the PCA9554 expander, the GT911 touch controller, the
//! PCF85063 RTC and the QMI8658 IMU.

use vstd::prelude::*;

verus! {

/// SDA pin on the ESP32-S3.
pub const SDA_GPIO: u8 = 15;

/// SCL pin on the ESP32-S3.
pub const SCL_GPIO: u8 = 7;

/// Bus frequency. All four on-board peripherals tolerate it.
pub const FREQUENCY_HZ: u32 = 400_000;

/// PCA9554 8-bit I/O expander.
pub const PCA9554_ADDR: u8 = 0x20;

/// GT911 capacitive touch controller, once a reset with INT low has
/// latched this address.
pub const GT911_ADDR: u8 = 0x5D;

/// PCF85063 RTC with battery backup.
pub const PCF85063_ADDR: u8 = 0x51;

/// QMI8658C 6-axis IMU, with the address strap of this board.
pub const QMI8658_ADDR: u8 = 0x6B;

} // verus!
