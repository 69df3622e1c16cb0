//! Bringing the board up.
//!
//! [`init`] hands out, one by one, the actions that bring the board up,
//! in the only order that works: the I2C bus and the expander pins, the
//! panel controller, the touch controller with the reset dance that
//! latches its address, the DPI peripheral, the framebuffers, the bounce
//! ring and its DMA transfer, and the backlight last. Whoever owns the
//! peripherals performs each action and reports whether it succeeded.
//! The first one that does not ends the bring-up, with the error that
//! belongs to it.

use crate::consts::i2c::{FREQUENCY_HZ, GT911_ADDR, PCA9554_ADDR};
use crate::consts::pca9554::{BUZZER_BIT, LCD_RST_BIT, ST7701_CS_BIT, TOUCH_RST_BIT};
use crate::framebuffer::{HEIGHT, WIDTH};
use crate::pca9554::{
    law_direction_turns_its_pin, law_output_drives_its_pin, Chip, Pca9554Controller,
};
use crate::st7701::receiver::{command_bits, law_init_is_received, received_steps, Receiver};
use crate::st7701::sequences::{step_value, waveshare_2_8c_table, Sequence};
use crate::st7701::{reset_actions, run_actions, Step};
use vstd::prelude::*;

verus! {

/// What can go wrong while the board is brought up.
#[derive(Debug, Clone, Copy, PartialEq, Eq, Structural)]
#[non_exhaustive]
pub enum Error {
    /// The I2C peripheral rejected its configuration.
    I2cConfig,
    /// The PCA9554 did not acknowledge a write.
    Pca9554,
    /// The ST7701 init link failed.
    St7701,
    /// The DPI peripheral rejected its configuration.
    Dpi,
    /// The PSRAM region is too small for two framebuffers.
    PsramTooSmall,
    /// The DPI DMA transfer failed to start.
    DpiStart,
    /// The GT911 did not acknowledge, or is not a GT911.
    Gt911,
}

/// Timing of a frame, in pixel clocks and lines.
#[derive(Debug, Clone, Copy, PartialEq, Eq, Structural)]
pub struct FrameTiming {
    /// Visible pixels per line.
    pub horizontal_active_width: usize,
    /// Pixel clocks per line.
    pub horizontal_total_width: usize,
    /// Pixel clocks before the visible ones of a line, sync pulse
    /// included.
    pub horizontal_blank_front_porch: usize,
    /// Visible lines per frame.
    pub vertical_active_height: usize,
    /// Lines per frame.
    pub vertical_total_height: usize,
    /// Lines before the visible ones of a frame, sync pulse included.
    pub vertical_blank_front_porch: usize,
    /// Width of the HSYNC pulse, in pixel clocks.
    pub hsync_width: usize,
    /// Width of the VSYNC pulse, in lines.
    pub vsync_width: usize,
    /// Position of the HSYNC pulse in a line.
    pub hsync_position: usize,
}

/// How the DPI peripheral drives the panel.
#[derive(Debug, Clone, Copy, PartialEq, Eq, Structural)]
pub struct DpiConfig {
    /// Pixel clock frequency.
    pub pclk_hz: u32,
    /// Whether the pixel clock idles high.
    pub clock_idles_high: bool,
    /// Whether data shifts while the pixel clock is high.
    pub shifts_on_high: bool,
    /// Whether two bytes go out per pixel clock.
    pub two_byte_mode: bool,
    /// Frame timing.
    pub timing: FrameTiming,
    /// Whether VSYNC idles high.
    pub vsync_idles_high: bool,
    /// Whether HSYNC idles high.
    pub hsync_idles_high: bool,
    /// Whether DE idles high.
    pub de_idles_high: bool,
}

/// One thing to do to bring the board up.
#[derive(Debug, Clone, Copy, PartialEq, Eq, Structural)]
pub enum InitAction {
    /// Open the I2C bus.
    OpenI2c {
        /// Bus frequency.
        frequency_hz: u32,
    },
    /// Make an expander pin an output at the given level, writing the
    /// level before the direction so that the pin never glitches.
    ClaimOutput {
        /// Bus address of the expander.
        addr: u8,
        /// The pin's bit.
        bit: u8,
        /// Its level.
        high: bool,
    },
    /// Run the ST7701 init driver with the panel's sequence.
    InitPanel {
        /// The sequence.
        sequence: Sequence,
    },
    /// Drive the touch controller's INT line.
    DriveTouchInt {
        /// Its level.
        high: bool,
    },
    /// Let go of the touch controller's INT line.
    ReleaseTouchInt,
    /// Drive an expander pin that has been claimed.
    DriveOutput {
        /// Bus address of the expander.
        addr: u8,
        /// The pin's bit.
        bit: u8,
        /// Its level.
        high: bool,
    },
    /// Wait for so many milliseconds.
    DelayMs(u32),
    /// Run the GT911 init handshake.
    InitTouch,
    /// Open the DPI peripheral.
    OpenDpi(DpiConfig),
    /// Carve the framebuffers off the PSRAM region.
    SplitPsram,
    /// Build the bounce ring on the initial front buffer.
    BuildRing,
    /// Start the continuous DMA transfer of the ring.
    StartTransfer,
    /// Install the EOF interrupt handler.
    EnableEofInterrupt,
    /// Drive the backlight pin high.
    BacklightOn,
    /// Share the I2C bus and build the peripheral handles on it.
    ShareBus,
}

/// The panel's timing and clocking.
pub open spec fn spec_dpi_config() -> DpiConfig {
    DpiConfig {
        pclk_hz: 12_000_000,
        clock_idles_high: false,
        shifts_on_high: false,
        two_byte_mode: true,
        timing: FrameTiming {
            horizontal_active_width: 480,
            horizontal_total_width: 548,
            horizontal_blank_front_porch: 50,
            vertical_active_height: 480,
            vertical_total_height: 508,
            vertical_blank_front_porch: 8,
            hsync_width: 8,
            vsync_width: 2,
            hsync_position: 0,
        },
        vsync_idles_high: true,
        hsync_idles_high: true,
        de_idles_high: false,
    }
}

/// The panel's timing and clocking.
pub fn dpi_config() -> (config: DpiConfig)
    ensures
        config == spec_dpi_config(),
{
    DpiConfig {
        pclk_hz: 12_000_000,
        clock_idles_high: false,
        shifts_on_high: false,
        two_byte_mode: true,
        timing: FrameTiming {
            horizontal_active_width: 480,
            horizontal_total_width: 548,
            horizontal_blank_front_porch: 50,
            vertical_active_height: 480,
            vertical_total_height: 508,
            vertical_blank_front_porch: 8,
            hsync_width: 8,
            vsync_width: 2,
            hsync_position: 0,
        },
        vsync_idles_high: true,
        hsync_idles_high: true,
        de_idles_high: false,
    }
}

/// Everything that brings the board up, in order.
pub open spec fn init_actions() -> Seq<InitAction> {
    seq![
        InitAction::OpenI2c { frequency_hz: FREQUENCY_HZ },
        InitAction::ClaimOutput { addr: PCA9554_ADDR, bit: LCD_RST_BIT, high: true },
        InitAction::ClaimOutput { addr: PCA9554_ADDR, bit: TOUCH_RST_BIT, high: true },
        InitAction::ClaimOutput { addr: PCA9554_ADDR, bit: ST7701_CS_BIT, high: true },
        InitAction::ClaimOutput { addr: PCA9554_ADDR, bit: BUZZER_BIT, high: false },
        InitAction::InitPanel { sequence: Sequence::Waveshare28c },
        InitAction::DriveTouchInt { high: false },
        InitAction::DelayMs(10),
        InitAction::DriveOutput { addr: PCA9554_ADDR, bit: TOUCH_RST_BIT, high: false },
        InitAction::DelayMs(10),
        InitAction::DriveOutput { addr: PCA9554_ADDR, bit: TOUCH_RST_BIT, high: true },
        InitAction::DelayMs(200),
        InitAction::DriveTouchInt { high: true },
        InitAction::ReleaseTouchInt,
        InitAction::InitTouch,
        InitAction::OpenDpi(spec_dpi_config()),
        InitAction::SplitPsram,
        InitAction::BuildRing,
        InitAction::StartTransfer,
        InitAction::EnableEofInterrupt,
        InitAction::BacklightOn,
        InitAction::ShareBus,
    ]
}

/// How many actions bring the board up.
const N_INIT_ACTIONS: usize = 22;

/// The error of an action that fails; none for one that cannot.
pub open spec fn failure_of(action: InitAction) -> Option<Error> {
    match action {
        InitAction::OpenI2c { .. } => Some(Error::I2cConfig),
        InitAction::ClaimOutput { .. } => Some(Error::Pca9554),
        InitAction::InitPanel { .. } => Some(Error::St7701),
        InitAction::DriveOutput { .. } => Some(Error::Pca9554),
        InitAction::InitTouch => Some(Error::Gt911),
        InitAction::OpenDpi(_) => Some(Error::Dpi),
        InitAction::SplitPsram => Some(Error::PsramTooSmall),
        InitAction::StartTransfer => Some(Error::DpiStart),
        _ => None,
    }
}

/// A bring-up under way, handed out action by action. Its view is what
/// is still to be done.
pub struct BringUp {
    at: usize,
}

impl View for BringUp {
    type V = Seq<InitAction>;

    closed spec fn view(&self) -> Seq<InitAction> {
        init_actions().skip(self.at as int)
    }
}

/// Bring the board up. To be done at most once per boot.
pub fn init() -> (bring_up: BringUp)
    ensures
        bring_up.wf(),
        bring_up@ == init_actions(),
{
    let bring_up = BringUp { at: 0 };
    assert(bring_up@ =~= init_actions());
    bring_up
}

impl BringUp {
    /// The position is within the actions.
    pub closed spec fn wf(&self) -> bool {
        self.at <= init_actions().len()
    }

    /// What to do next; nothing once the board is up.
    pub fn action(&self) -> (action: Option<InitAction>)
        requires
            self.wf(),
        ensures
            action is None <==> self@.len() == 0,
            action matches Some(action) ==> action == self@[0],
    {
        let at = self.at;
        if at == 0 {
            Some(InitAction::OpenI2c { frequency_hz: FREQUENCY_HZ })
        } else if at == 1 {
            Some(InitAction::ClaimOutput { addr: PCA9554_ADDR, bit: LCD_RST_BIT, high: true })
        } else if at == 2 {
            Some(InitAction::ClaimOutput { addr: PCA9554_ADDR, bit: TOUCH_RST_BIT, high: true })
        } else if at == 3 {
            Some(InitAction::ClaimOutput { addr: PCA9554_ADDR, bit: ST7701_CS_BIT, high: true })
        } else if at == 4 {
            Some(InitAction::ClaimOutput { addr: PCA9554_ADDR, bit: BUZZER_BIT, high: false })
        } else if at == 5 {
            Some(InitAction::InitPanel { sequence: Sequence::Waveshare28c })
        } else if at == 6 {
            Some(InitAction::DriveTouchInt { high: false })
        } else if at == 7 {
            Some(InitAction::DelayMs(10))
        } else if at == 8 {
            Some(InitAction::DriveOutput { addr: PCA9554_ADDR, bit: TOUCH_RST_BIT, high: false })
        } else if at == 9 {
            Some(InitAction::DelayMs(10))
        } else if at == 10 {
            Some(InitAction::DriveOutput { addr: PCA9554_ADDR, bit: TOUCH_RST_BIT, high: true })
        } else if at == 11 {
            Some(InitAction::DelayMs(200))
        } else if at == 12 {
            Some(InitAction::DriveTouchInt { high: true })
        } else if at == 13 {
            Some(InitAction::ReleaseTouchInt)
        } else if at == 14 {
            Some(InitAction::InitTouch)
        } else if at == 15 {
            Some(InitAction::OpenDpi(dpi_config()))
        } else if at == 16 {
            Some(InitAction::SplitPsram)
        } else if at == 17 {
            Some(InitAction::BuildRing)
        } else if at == 18 {
            Some(InitAction::StartTransfer)
        } else if at == 19 {
            Some(InitAction::EnableEofInterrupt)
        } else if at == 20 {
            Some(InitAction::BacklightOn)
        } else if at == 21 {
            Some(InitAction::ShareBus)
        } else {
            None
        }
    }

    /// Report whether the action that [`BringUp::action`] named
    /// succeeded. A failure ends the bring-up.
    pub fn complete(&mut self, succeeded: bool) -> (result: Result<(), Error>)
        requires
            old(self).wf(),
            old(self)@.len() > 0,
            succeeded || failure_of(old(self)@[0]) is Some,
        ensures
            final(self).wf(),
            succeeded ==> result == Ok::<(), Error>(()) && final(self)@ == old(self)@.drop_first(),
            !succeeded ==> result == Err::<(), Error>(failure_of(old(self)@[0])->0) && final(self)@
                == Seq::<InitAction>::empty(),
    {
        let ghost before = self@;
        if succeeded {
            self.at = self.at + 1;
            assert(self@ =~= before.drop_first());
            return Ok(());
        }
        let failed = self.action();
        self.at = N_INIT_ACTIONS;
        assert(self@ =~= Seq::<InitAction>::empty());
        match failed {
            Some(InitAction::OpenI2c { .. }) => Err(Error::I2cConfig),
            Some(InitAction::InitPanel { .. }) => Err(Error::St7701),
            Some(InitAction::InitTouch) => Err(Error::Gt911),
            Some(InitAction::OpenDpi(_)) => Err(Error::Dpi),
            Some(InitAction::SplitPsram) => Err(Error::PsramTooSmall),
            Some(InitAction::StartTransfer) => Err(Error::DpiStart),
            _ => Err(Error::Pca9554),
        }
    }
}

/// What the touch controller makes of its reset and INT lines.
pub struct TouchPins {
    /// Level of INT, if it is driven.
    pub int: Option<bool>,
    /// Level of RST, if it is driven.
    pub rst: Option<bool>,
    /// The bus address latched at the last rising edge of RST, where that
    /// is known.
    pub addr: Option<u8>,
}

impl TouchPins {
    /// RST is driven. When it rises, the controller takes its address
    /// from the level of INT: 0x5D if it is low, 0x14 if it is high.
    pub open spec fn reset_driven(self, high: bool) -> TouchPins {
        TouchPins {
            rst: Some(high),
            addr: if high && self.rst == Some(false) {
                match self.int {
                    Some(true) => Some(0x14u8),
                    Some(false) => Some(0x5Du8),
                    None => None,
                }
            } else {
                self.addr
            },
            ..self
        }
    }

    /// What one action brings.
    pub open spec fn after(self, action: InitAction) -> TouchPins {
        match action {
            InitAction::DriveTouchInt { high } => TouchPins { int: Some(high), ..self },
            InitAction::ReleaseTouchInt => TouchPins { int: None, ..self },
            InitAction::ClaimOutput { addr, bit, high } => if addr == PCA9554_ADDR && bit
                == TOUCH_RST_BIT {
                self.reset_driven(high)
            } else {
                self
            },
            InitAction::DriveOutput { addr, bit, high } => if addr == PCA9554_ADDR && bit
                == TOUCH_RST_BIT {
                self.reset_driven(high)
            } else {
                self
            },
            _ => self,
        }
    }

    /// What a succession of actions brings.
    pub open spec fn after_all(self, actions: Seq<InitAction>) -> TouchPins
        decreases actions.len(),
    {
        if actions.len() == 0 {
            self
        } else {
            self.after_all(actions.drop_last()).after(actions.last())
        }
    }
}

/// When the touch controller is first talked to, it answers at the
/// board's address, its reset is released, and INT is its own to drive.
pub proof fn law_touch_address_is_latched(before: TouchPins, i: int)
    requires
        0 <= i < init_actions().len(),
        init_actions()[i] is InitTouch,
    ensures
        before.after_all(init_actions().take(i)).addr == Some(GT911_ADDR),
        before.after_all(init_actions().take(i)).rst == Some(true),
        before.after_all(init_actions().take(i)).int is None,
{
    let a = init_actions();
    assert(i == 14);
    assert forall|n: int| 0 < n <= 14 implies (#[trigger] a.take(n)).drop_last() =~= a.take(n - 1)
        && a.take(n).last() == a[n - 1] by {}
    reveal_with_fuel(TouchPins::after_all, 16);
}

/// The panel controller is told the table of the 2.8C panel, command by
/// command, after a reset: whatever `steps` the sequence of the bring-up
/// stands for, and whatever state the controller was in.
pub proof fn law_panel_gets_its_table(receiver: Receiver, steps: Seq<Step>, i: int)
    requires
        0 <= i < init_actions().len(),
        init_actions()[i] is InitPanel,
        steps.map_values(|step: Step| step_value(step))
            == init_actions()[i]->InitPanel_sequence.table(),
    ensures
        ({
            let table = waveshare_2_8c_table();
            let after = receiver.after_all(reset_actions() + run_actions(steps));
            &&& after.idle()
            &&& after.rst
            &&& after.commands == Seq::new(
                table.len(),
                |k: int| command_bits(table[k].0, table[k].1),
            )
        }),
{
    let table = waveshare_2_8c_table();
    let values = steps.map_values(|step: Step| step_value(step));
    assert(values == table);
    law_init_is_received(receiver, steps);
    assert forall|k: int| 0 <= k < table.len() implies #[trigger] received_steps(steps)[k]
        == command_bits(table[k].0, table[k].1) by {
        assert(values[k] == step_value(steps[k]));
    }
    assert(received_steps(steps) =~= Seq::new(
        table.len(),
        |k: int| command_bits(table[k].0, table[k].1),
    ));
}

/// What one action brings for the expander. To claim a pin is to set its
/// level first and make it an output then.
pub open spec fn expander_after(chip: Chip, action: InitAction) -> Chip {
    match action {
        InitAction::ClaimOutput { addr, bit, high } => {
            let controller = Pca9554Controller { addr };
            chip.performed(controller.output_update(bit, high)).performed(
                controller.direction_update(bit, true),
            )
        },
        InitAction::DriveOutput { addr, bit, high } => chip.performed(
            Pca9554Controller { addr }.output_update(bit, high),
        ),
        _ => chip,
    }
}

/// What a succession of actions brings for the expander.
pub open spec fn expander_after_all(chip: Chip, actions: Seq<InitAction>) -> Chip
    decreases actions.len(),
{
    if actions.len() == 0 {
        chip
    } else {
        expander_after(expander_after_all(chip, actions.drop_last()), actions.last())
    }
}

/// A claimed pin is an output at the given level; the others are left
/// alone.
proof fn lemma_claim(chip: Chip, bit: u8, high: bool)
    requires
        chip.addr == PCA9554_ADDR,
        bit < 8,
    ensures
        ({
            let after = expander_after(
                chip,
                InitAction::ClaimOutput { addr: PCA9554_ADDR, bit, high },
            );
            &&& after.addr == chip.addr
            &&& forall|n: u8|
                n < 8 ==> #[trigger] after.level(n) == (if n == bit {
                    Some(high)
                } else {
                    chip.level(n)
                })
        }),
{
    let controller = Pca9554Controller { addr: PCA9554_ADDR };
    let driven = chip.performed(controller.output_update(bit, high));
    let after = driven.performed(controller.direction_update(bit, true));
    assert forall|n: u8| n < 8 implies #[trigger] after.level(n) == (if n == bit {
        Some(high)
    } else {
        chip.level(n)
    }) by {
        law_output_drives_its_pin(chip, controller, bit, high, n);
        law_direction_turns_its_pin(driven, controller, bit, true, n);
    }
    law_output_drives_its_pin(chip, controller, bit, high, 0);
    law_direction_turns_its_pin(driven, controller, bit, true, 0);
}

/// A pin that is an output is driven; the others are left alone.
proof fn lemma_drive(chip: Chip, bit: u8, high: bool)
    requires
        chip.addr == PCA9554_ADDR,
        bit < 8,
        chip.level(bit) is Some,
    ensures
        ({
            let after = expander_after(
                chip,
                InitAction::DriveOutput { addr: PCA9554_ADDR, bit, high },
            );
            &&& after.addr == chip.addr
            &&& forall|n: u8|
                n < 8 ==> #[trigger] after.level(n) == (if n == bit {
                    Some(high)
                } else {
                    chip.level(n)
                })
        }),
{
    let controller = Pca9554Controller { addr: PCA9554_ADDR };
    let after = chip.performed(controller.output_update(bit, high));
    assert forall|n: u8| n < 8 implies #[trigger] after.level(n) == (if n == bit {
        Some(high)
    } else {
        chip.level(n)
    }) by {
        law_output_drives_its_pin(chip, controller, bit, high, n);
    }
    law_output_drives_its_pin(chip, controller, bit, high, 0);
}

/// Whatever state the expander was left in, the bring-up releases the
/// resets of panel and touch controller, deselects the panel, silences
/// the buzzer, and leaves the other pins alone.
pub proof fn law_bring_up_sets_pins(chip: Chip, n: u8)
    requires
        chip.addr == PCA9554_ADDR,
        n < 8,
    ensures
        ({
            let after = expander_after_all(chip, init_actions());
            &&& after.level(LCD_RST_BIT) == Some(true)
            &&& after.level(TOUCH_RST_BIT) == Some(true)
            &&& after.level(ST7701_CS_BIT) == Some(true)
            &&& after.level(BUZZER_BIT) == Some(false)
            &&& 3 <= n <= 6 ==> after.level(n) == chip.level(n)
        }),
{
    let a = init_actions();
    assert forall|m: int| 0 < m <= 22 implies (#[trigger] a.take(m)).drop_last() =~= a.take(m - 1)
        && a.take(m).last() == a[m - 1] by {}
    assert(a.take(22) =~= a);
    reveal_with_fuel(expander_after_all, 24);
    let c1 = expander_after(chip, a[1]);
    lemma_claim(chip, LCD_RST_BIT, true);
    let c2 = expander_after(c1, a[2]);
    lemma_claim(c1, TOUCH_RST_BIT, true);
    let c3 = expander_after(c2, a[3]);
    lemma_claim(c2, ST7701_CS_BIT, true);
    let c4 = expander_after(c3, a[4]);
    lemma_claim(c3, BUZZER_BIT, false);
    let c5 = expander_after(c4, a[8]);
    lemma_drive(c4, TOUCH_RST_BIT, false);
    let c6 = expander_after(c5, a[10]);
    lemma_drive(c5, TOUCH_RST_BIT, true);
    assert(expander_after_all(chip, a.take(22)) == c6);
}

/// Each error names the kind of step that failed, and no other.
pub proof fn law_errors_name_the_step(action: InitAction)
    ensures
        failure_of(action) == Some(Error::I2cConfig) <==> action is OpenI2c,
        failure_of(action) == Some(Error::Pca9554) <==> action is ClaimOutput
            || action is DriveOutput,
        failure_of(action) == Some(Error::St7701) <==> action is InitPanel,
        failure_of(action) == Some(Error::Gt911) <==> action is InitTouch,
        failure_of(action) == Some(Error::Dpi) <==> action is OpenDpi,
        failure_of(action) == Some(Error::PsramTooSmall) <==> action is SplitPsram,
        failure_of(action) == Some(Error::DpiStart) <==> action is StartTransfer,
{
}

/// The steps of the bring-up come in an order in which each finds what
/// it needs: expander pins are claimed before anything hangs on them,
/// memory is in place before the ring, the ring before the transfer, the
/// transfer before its interrupt, and the backlight goes on only when
/// there is a picture.
pub proof fn law_order_of_bring_up(i: int, j: int)
    requires
        0 <= i < init_actions().len(),
        0 <= j < init_actions().len(),
    ensures
        init_actions()[i] is OpenI2c && init_actions()[j] is ClaimOutput ==> i < j,
        init_actions()[i] is ClaimOutput && init_actions()[j] is InitPanel ==> i < j,
        init_actions()[i] is ClaimOutput && init_actions()[j] is DriveOutput ==> i < j,
        init_actions()[i] is DriveOutput && init_actions()[j] is InitTouch ==> i < j,
        init_actions()[i] is SplitPsram && init_actions()[j] is BuildRing ==> i < j,
        init_actions()[i] is BuildRing && init_actions()[j] is StartTransfer ==> i < j,
        init_actions()[i] is OpenDpi && init_actions()[j] is StartTransfer ==> i < j,
        init_actions()[i] is StartTransfer && init_actions()[j] is EnableEofInterrupt ==> i < j,
        init_actions()[i] is EnableEofInterrupt && init_actions()[j] is BacklightOn ==> i < j,
        failure_of(init_actions()[i]) is Some && init_actions()[j] is BacklightOn ==> i < j,
{
}

/// The timing fits the framebuffer: what is visible is exactly its width
/// and height, the sync pulses lie within the porches before it, and both
/// leave room in a line and in a frame.
pub proof fn law_timing_fits()
    ensures
        ({
            let t = spec_dpi_config().timing;
            &&& t.horizontal_active_width == WIDTH
            &&& t.vertical_active_height == HEIGHT
            &&& t.hsync_position + t.hsync_width <= t.horizontal_blank_front_porch
            &&& t.vsync_width <= t.vertical_blank_front_porch
            &&& t.horizontal_blank_front_porch + t.horizontal_active_width
                < t.horizontal_total_width
            &&& t.vertical_blank_front_porch + t.vertical_active_height < t.vertical_total_height
        }),
{
}

} // verus!
