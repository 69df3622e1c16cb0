//! Backlight handle.
//!
//! The backlight hangs on a plain output pin, driven high at start-up.
//! The handle decides which level a request means; whoever holds it
//! drives the pin.

use vstd::prelude::*;

verus! {

/// Level of an output pin.
#[derive(Debug, Clone, Copy, PartialEq, Eq, Structural)]
pub enum Level {
    /// Low.
    Low,
    /// High.
    High,
}

/// LCD backlight handle around its output pin.
pub struct Backlight<P> {
    /// The pin to drive.
    pub pin: P,
}

impl<P> Backlight<P> {
    /// Wrap the pin.
    pub fn new(pin: P) -> (backlight: Self)
        ensures
            backlight == (Backlight { pin }),
    {
        Backlight { pin }
    }

    /// Full brightness.
    pub fn on(&self) -> (level: Level)
        ensures
            level == Level::High,
    {
        Level::High
    }

    /// Blank.
    pub fn off(&self) -> (level: Level)
        ensures
            level == Level::Low,
    {
        Level::Low
    }

    /// On (`true`) or off (`false`).
    pub fn set(&self, on: bool) -> (level: Level)
        ensures
            level == (if on {
                Level::High
            } else {
                Level::Low
            }),
    {
        if on {
            self.on()
        } else {
            self.off()
        }
    }

    /// Return the pin, to be reconfigured for dimming.
    pub fn into_inner(self) -> (pin: P)
        ensures
            pin == self.pin,
    {
        self.pin
    }
}

} // verus!
