//! Hardware constants for the Waveshare ESP32-S3-Touch-LCD-2.8C carrier.
//!
//! Names match the silkscreen labels and the schematic on the Waveshare
//! wiki. They cover the peripherals that the board-support package drives
//! and those that it leaves alone.

pub mod battery;
pub mod i2c;
pub mod pca9554;
pub mod sd;
pub mod usb;
