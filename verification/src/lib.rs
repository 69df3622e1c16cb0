//! Verified core of the board-support package for the **Waveshare
//! ESP32-S3-Touch-LCD-2.8C**, a 2.8" round 480x480 IPS panel with a Goodix
//! GT911 touch overlay on an ESP32-S3 carrier with 8 MB of PSRAM.
//!
//! Everything here works on plain values and memory. What touches the
//! hardware is left to the firmware around it, which performs the
//! actions that this crate hands out and reports what came of them:
//!
//! - [`board`] brings the board up, action by action;
//! - [`st7701`] turns init sequences into levels and delays on the wires
//!   of the panel controller;
//! - [`framebuffer`] draws into the two framebuffers and swaps them;
//! - [`bounce_buffer`] builds the DMA ring and handles its interrupt, and
//!   [`scanout`] states what the panel gets to see of it all;
//! - [`pca9554`], [`buzzer`] and [`backlight`] decide on single pins;
//! - [`consts`] holds the board's constants.

pub mod backlight;
pub mod board;
pub mod bounce_buffer;
pub mod buzzer;
pub mod consts;
pub mod framebuffer;
pub mod pca9554;
pub mod scanout;
pub mod st7701;

pub use backlight::Backlight;
pub use board::{init, Error};
pub use bounce_buffer::BounceRing;
pub use buzzer::Buzzer;
pub use framebuffer::{
    Framebuffer, BYTES as FRAMEBUFFER_BYTES, HEIGHT, PSRAM_BYTES_REQUIRED, WIDTH,
};
