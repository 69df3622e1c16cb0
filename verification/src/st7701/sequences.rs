//! Canonical init sequences for known ST7701-based panels.
//!
//! Each sequence can be passed straight to
//! [`crate::st7701::St7701::init`] or [`crate::st7701::St7701::run`]. The
//! byte values come from each panel's reference driver. Don't mix and
//! match between sequences: the gamma table, the memory-access byte and
//! the pixel-format command are all subtly panel-specific.

use crate::st7701::Step;
use vstd::prelude::*;

verus! {

/// A step of a sequence, by value: command, parameters, delay.
pub open spec fn step_value(step: Step) -> (u8, Seq<u8>, u32) {
    (step.cmd, step.data@, step.delay_ms)
}

/// The init sequence of the Waveshare ESP32-S3-Touch-LCD-2.8C, by value.
pub open spec fn waveshare_2_8c_table() -> Seq<(u8, Seq<u8>, u32)> {
    seq![
        // Command2 BK3 select
        (0xFF, seq![0x77u8, 0x01, 0x00, 0x00, 0x13], 0),
        (0xEF, seq![0x08u8], 0),
        // Command2 BK0 select
        (0xFF, seq![0x77u8, 0x01, 0x00, 0x00, 0x10], 0),
        (0xC0, seq![0x3Bu8, 0x00], 0),
        (0xC1, seq![0x10u8, 0x0C], 0),
        (0xC2, seq![0x07u8, 0x0A], 0),
        (0xC7, seq![0x00u8], 0),
        (0xCC, seq![0x10u8], 0),
        (0xCD, seq![0x08u8], 0),
        (
            0xB0,
            seq![
                0x05u8, 0x12, 0x98, 0x0E, 0x0F, 0x07, 0x07, 0x09,
                0x09, 0x23, 0x05, 0x52, 0x0F, 0x67, 0x2C, 0x11,
            ],
            0,
        ),
        (
            0xB1,
            seq![
                0x0Bu8, 0x11, 0x97, 0x0C, 0x12, 0x06, 0x06, 0x08,
                0x08, 0x22, 0x03, 0x51, 0x11, 0x66, 0x2B, 0x0F,
            ],
            0,
        ),
        // Command2 BK1 select
        (0xFF, seq![0x77u8, 0x01, 0x00, 0x00, 0x11], 0),
        (0xB0, seq![0x5Du8], 0),
        (0xB1, seq![0x3Eu8], 0),
        (0xB2, seq![0x81u8], 0),
        (0xB3, seq![0x80u8], 0),
        (0xB5, seq![0x4Eu8], 0),
        (0xB7, seq![0x85u8], 0),
        (0xB8, seq![0x20u8], 0),
        (0xC1, seq![0x78u8], 0),
        (0xC2, seq![0x78u8], 0),
        (0xD0, seq![0x88u8], 0),
        (0xE0, seq![0x00u8, 0x00, 0x02], 0),
        (0xE1, seq![0x06u8, 0x30, 0x08, 0x30, 0x05, 0x30, 0x07, 0x30, 0x00, 0x33, 0x33], 0),
        (0xE2, seq![0x11u8, 0x11, 0x33, 0x33, 0xF4, 0x00, 0x00, 0x00, 0xF4, 0x00, 0x00, 0x00], 0),
        (0xE3, seq![0x00u8, 0x00, 0x11, 0x11], 0),
        (0xE4, seq![0x44u8, 0x44], 0),
        (
            0xE5,
            seq![
                0x0Du8, 0xF5, 0x30, 0xF0, 0x0F, 0xF7, 0x30, 0xF0,
                0x09, 0xF1, 0x30, 0xF0, 0x0B, 0xF3, 0x30, 0xF0,
            ],
            0,
        ),
        (0xE6, seq![0x00u8, 0x00, 0x11, 0x11], 0),
        (0xE7, seq![0x44u8, 0x44], 0),
        (
            0xE8,
            seq![
                0x0Cu8, 0xF4, 0x30, 0xF0, 0x0E, 0xF6, 0x30, 0xF0,
                0x08, 0xF0, 0x30, 0xF0, 0x0A, 0xF2, 0x30, 0xF0,
            ],
            0,
        ),
        (0xE9, seq![0x36u8, 0x01], 0),
        (0xEB, seq![0x00u8, 0x01, 0xE4, 0xE4, 0x44, 0x88, 0x40], 0),
        (
            0xED,
            seq![
                0xFFu8, 0x10, 0xAF, 0x76, 0x54, 0x2B, 0xCF, 0xFF,
                0xFF, 0xFC, 0xB2, 0x45, 0x67, 0xFA, 0x01, 0xFF,
            ],
            0,
        ),
        (0xEF, seq![0x08u8, 0x08, 0x08, 0x45, 0x3F, 0x54], 0),
        // Back to BK0
        (0xFF, seq![0x77u8, 0x01, 0x00, 0x00, 0x00], 0),
        // Sleep Out — 120 ms wait per the ST7701 datasheet
        (0x11, Seq::empty(), 120),
        // Interface Pixel Format: 0x66 = RGB666 on the controller side; the
        // ST7701 maps from a 16-bit RGB565 bus internally.
        (0x3A, seq![0x66u8], 0),
        // Memory Access Control: 0x00 = no rotation, no BGR (straight RGB).
        (0x36, seq![0x00u8], 0),
        // Tearing Effect Line On (V-blank only).
        (0x35, seq![0x00u8], 0),
        // Display On.
        (0x29, Seq::empty(), 0),
    ]
}

/// Init sequence for the Waveshare ESP32-S3-Touch-LCD-2.8C, a 480x480
/// round IPS panel with an ST7701S controller.
pub fn waveshare_2_8c() -> (sequence: &'static [Step])
    ensures
        sequence@.map_values(|step: Step| step_value(step)) == waveshare_2_8c_table(),
{
    let sequence: &'static [Step] = &[
        // Command2 BK3 select
        Step { cmd: 0xFF, data: &[0x77, 0x01, 0x00, 0x00, 0x13], delay_ms: 0 },
        Step { cmd: 0xEF, data: &[0x08], delay_ms: 0 },
        // Command2 BK0 select
        Step { cmd: 0xFF, data: &[0x77, 0x01, 0x00, 0x00, 0x10], delay_ms: 0 },
        Step { cmd: 0xC0, data: &[0x3B, 0x00], delay_ms: 0 },
        Step { cmd: 0xC1, data: &[0x10, 0x0C], delay_ms: 0 },
        Step { cmd: 0xC2, data: &[0x07, 0x0A], delay_ms: 0 },
        Step { cmd: 0xC7, data: &[0x00], delay_ms: 0 },
        Step { cmd: 0xCC, data: &[0x10], delay_ms: 0 },
        Step { cmd: 0xCD, data: &[0x08], delay_ms: 0 },
        Step {
            cmd: 0xB0,
            data: &[
                0x05, 0x12, 0x98, 0x0E, 0x0F, 0x07, 0x07, 0x09,
                0x09, 0x23, 0x05, 0x52, 0x0F, 0x67, 0x2C, 0x11,
            ],
            delay_ms: 0,
        },
        Step {
            cmd: 0xB1,
            data: &[
                0x0B, 0x11, 0x97, 0x0C, 0x12, 0x06, 0x06, 0x08,
                0x08, 0x22, 0x03, 0x51, 0x11, 0x66, 0x2B, 0x0F,
            ],
            delay_ms: 0,
        },
        // Command2 BK1 select
        Step { cmd: 0xFF, data: &[0x77, 0x01, 0x00, 0x00, 0x11], delay_ms: 0 },
        Step { cmd: 0xB0, data: &[0x5D], delay_ms: 0 },
        Step { cmd: 0xB1, data: &[0x3E], delay_ms: 0 },
        Step { cmd: 0xB2, data: &[0x81], delay_ms: 0 },
        Step { cmd: 0xB3, data: &[0x80], delay_ms: 0 },
        Step { cmd: 0xB5, data: &[0x4E], delay_ms: 0 },
        Step { cmd: 0xB7, data: &[0x85], delay_ms: 0 },
        Step { cmd: 0xB8, data: &[0x20], delay_ms: 0 },
        Step { cmd: 0xC1, data: &[0x78], delay_ms: 0 },
        Step { cmd: 0xC2, data: &[0x78], delay_ms: 0 },
        Step { cmd: 0xD0, data: &[0x88], delay_ms: 0 },
        Step { cmd: 0xE0, data: &[0x00, 0x00, 0x02], delay_ms: 0 },
        Step {
            cmd: 0xE1,
            data: &[
                0x06, 0x30, 0x08, 0x30, 0x05, 0x30, 0x07, 0x30,
                0x00, 0x33, 0x33,
            ],
            delay_ms: 0,
        },
        Step {
            cmd: 0xE2,
            data: &[
                0x11, 0x11, 0x33, 0x33, 0xF4, 0x00, 0x00, 0x00,
                0xF4, 0x00, 0x00, 0x00,
            ],
            delay_ms: 0,
        },
        Step { cmd: 0xE3, data: &[0x00, 0x00, 0x11, 0x11], delay_ms: 0 },
        Step { cmd: 0xE4, data: &[0x44, 0x44], delay_ms: 0 },
        Step {
            cmd: 0xE5,
            data: &[
                0x0D, 0xF5, 0x30, 0xF0, 0x0F, 0xF7, 0x30, 0xF0,
                0x09, 0xF1, 0x30, 0xF0, 0x0B, 0xF3, 0x30, 0xF0,
            ],
            delay_ms: 0,
        },
        Step { cmd: 0xE6, data: &[0x00, 0x00, 0x11, 0x11], delay_ms: 0 },
        Step { cmd: 0xE7, data: &[0x44, 0x44], delay_ms: 0 },
        Step {
            cmd: 0xE8,
            data: &[
                0x0C, 0xF4, 0x30, 0xF0, 0x0E, 0xF6, 0x30, 0xF0,
                0x08, 0xF0, 0x30, 0xF0, 0x0A, 0xF2, 0x30, 0xF0,
            ],
            delay_ms: 0,
        },
        Step { cmd: 0xE9, data: &[0x36, 0x01], delay_ms: 0 },
        Step { cmd: 0xEB, data: &[0x00, 0x01, 0xE4, 0xE4, 0x44, 0x88, 0x40], delay_ms: 0 },
        Step {
            cmd: 0xED,
            data: &[
                0xFF, 0x10, 0xAF, 0x76, 0x54, 0x2B, 0xCF, 0xFF,
                0xFF, 0xFC, 0xB2, 0x45, 0x67, 0xFA, 0x01, 0xFF,
            ],
            delay_ms: 0,
        },
        Step { cmd: 0xEF, data: &[0x08, 0x08, 0x08, 0x45, 0x3F, 0x54], delay_ms: 0 },
        // Back to BK0
        Step { cmd: 0xFF, data: &[0x77, 0x01, 0x00, 0x00, 0x00], delay_ms: 0 },
        // Sleep Out — 120 ms wait per the ST7701 datasheet
        Step { cmd: 0x11, data: &[], delay_ms: 120 },
        // Interface Pixel Format: 0x66 = RGB666 on the controller side; the
        // ST7701 maps from a 16-bit RGB565 bus internally.
        Step { cmd: 0x3A, data: &[0x66], delay_ms: 0 },
        // Memory Access Control: 0x00 = no rotation, no BGR (straight RGB).
        Step { cmd: 0x36, data: &[0x00], delay_ms: 0 },
        // Tearing Effect Line On (V-blank only).
        Step { cmd: 0x35, data: &[0x00], delay_ms: 0 },
        // Display On.
        Step { cmd: 0x29, data: &[], delay_ms: 0 },
    ];
    assert(sequence@.map_values(|step: Step| step_value(step)) =~~= waveshare_2_8c_table());
    sequence
}

/// The known sequences, by name.
#[derive(Debug, Clone, Copy, PartialEq, Eq, Structural)]
pub enum Sequence {
    /// The one of the Waveshare ESP32-S3-Touch-LCD-2.8C.
    Waveshare28c,
}

impl Sequence {
    /// The sequence by value.
    pub open spec fn table(self) -> Seq<(u8, Seq<u8>, u32)> {
        match self {
            Sequence::Waveshare28c => waveshare_2_8c_table(),
        }
    }

    /// The steps of the sequence.
    pub fn steps(self) -> (steps: &'static [Step])
        ensures
            steps@.map_values(|step: Step| step_value(step)) == self.table(),
    {
        match self {
            Sequence::Waveshare28c => waveshare_2_8c(),
        }
    }
}

} // verus!
