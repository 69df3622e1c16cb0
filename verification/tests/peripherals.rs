use embassy_time::Duration;
use ws_esp32_s3_touch_lcd_2_8c::backlight::{Backlight, Level};
use ws_esp32_s3_touch_lcd_2_8c::board::{dpi_config, init, BringUp, Error, InitAction};
use ws_esp32_s3_touch_lcd_2_8c::buzzer::{BeepAction, Buzzer};
use ws_esp32_s3_touch_lcd_2_8c::consts;
use ws_esp32_s3_touch_lcd_2_8c::pca9554::{
    BitUpdate, Error as PcaError, Pca9554Controller, WriteBack,
};
use ws_esp32_s3_touch_lcd_2_8c::st7701::sequences::{waveshare_2_8c, Sequence};

const ADDR: u8 = consts::i2c::PCA9554_ADDR;

fn controller() -> Pca9554Controller {
    Pca9554Controller::new(ADDR)
}

/// Perform an update on a register.
fn perform(update: BitUpdate, register: &mut u8) {
    let back = update.modify::<()>(Ok(*register)).unwrap();
    assert_eq!((back.addr, back.register), (update.addr, update.register));
    *register = back.value;
    assert_eq!(back.finish::<()>(Ok(())), Ok(()));
}

#[test]
fn output_goes_to_the_output_port() {
    assert_eq!(
        controller().set_output(3, true),
        BitUpdate { addr: 0x20, register: 0x01, bit: 3, set: true }
    );
    assert_eq!(
        controller().set_output(3, true).modify::<()>(Ok(0b1000_0001)),
        Ok(WriteBack { addr: 0x20, register: 0x01, value: 0b1000_1001 })
    );
    assert_eq!(
        controller().set_output(7, false).modify::<()>(Ok(0b1000_0001)),
        Ok(WriteBack { addr: 0x20, register: 0x01, value: 0b0000_0001 })
    );
}

#[test]
fn direction_is_cleared_for_outputs() {
    assert_eq!(
        controller().set_direction(0, true).modify::<()>(Ok(0xFF)),
        Ok(WriteBack { addr: 0x20, register: 0x03, value: 0xFE })
    );
    assert_eq!(
        controller().set_direction(6, false).modify::<()>(Ok(0x00)),
        Ok(WriteBack { addr: 0x20, register: 0x03, value: 0x40 })
    );
}

#[test]
fn bus_failures_are_reported() {
    let update = controller().set_output(1, true);
    assert_eq!(update.modify(Err("nack")), Err(PcaError::Bus));
    let back = update.modify::<()>(Ok(0)).unwrap();
    assert_eq!(back.finish(Err("nack")), Err(PcaError::Bus));
}

#[test]
fn updates_change_one_bit() {
    for value in 0..=255u8 {
        for bit in 0..8 {
            for set in [false, true] {
                let mut register = value;
                perform(controller().set_output(bit, set), &mut register);
                assert_eq!(register & !(1 << bit), value & !(1 << bit));
                assert_eq!(register >> bit & 1 == 1, set);
                let once = register;
                perform(controller().set_output(bit, set), &mut register);
                assert_eq!(register, once);
            }
        }
    }
}

#[test]
fn owners_do_not_clobber_each_other() {
    let mut one = 0b0000_0110;
    perform(controller().set_output(7, true), &mut one);
    perform(controller().set_output(3, true), &mut one);
    let mut two = 0b0000_0110;
    perform(controller().set_output(3, true), &mut two);
    perform(controller().set_output(7, true), &mut two);
    assert_eq!(one, 0b1000_1110);
    assert_eq!(two, one);
}

#[test]
fn buzzer_on_and_off() {
    let buzzer = Buzzer::new(controller());
    let mut register = 0x07;
    perform(buzzer.on(), &mut register);
    assert_eq!(register, 0x87);
    perform(buzzer.off(), &mut register);
    assert_eq!(register, 0x07);
}

#[test]
fn beep_ends_silent() {
    let duration = Duration::from_millis(60);
    let mut beep = Buzzer::new(controller()).beep_for(duration);
    let mut register = 0x07;
    let mut waited = Vec::new();
    while let Some(action) = beep.action() {
        match action {
            BeepAction::Update(update) => perform(update, &mut register),
            BeepAction::Wait(duration) => {
                assert_eq!(register, 0x87);
                // Someone else uses the expander meanwhile.
                perform(controller().set_output(3, true), &mut register);
                waited.push(duration);
            }
        }
        beep.advance();
    }
    assert_eq!(waited, vec![duration]);
    assert_eq!(register, 0x0F);
    beep.advance();
    assert!(beep.action().is_none());
}

#[test]
fn backlight_levels() {
    let backlight = Backlight::new("GPIO6");
    assert_eq!(backlight.on(), Level::High);
    assert_eq!(backlight.off(), Level::Low);
    assert_eq!(backlight.set(true), Level::High);
    assert_eq!(backlight.set(false), Level::Low);
    assert_eq!(backlight.into_inner(), "GPIO6");
}

fn bring_up_actions() -> Vec<InitAction> {
    let mut bring_up = init();
    let mut actions = Vec::new();
    while let Some(action) = bring_up.action() {
        actions.push(action);
        assert_eq!(bring_up.complete(true), Ok(()));
    }
    actions
}

#[test]
fn bring_up_in_order() {
    let claim = |bit, high| InitAction::ClaimOutput { addr: 0x20, bit, high };
    let drive = |bit, high| InitAction::DriveOutput { addr: 0x20, bit, high };
    assert_eq!(
        bring_up_actions(),
        vec![
            InitAction::OpenI2c { frequency_hz: 400_000 },
            claim(0, true),
            claim(1, true),
            claim(2, true),
            claim(7, false),
            InitAction::InitPanel { sequence: Sequence::Waveshare28c },
            InitAction::DriveTouchInt { high: false },
            InitAction::DelayMs(10),
            drive(1, false),
            InitAction::DelayMs(10),
            drive(1, true),
            InitAction::DelayMs(200),
            InitAction::DriveTouchInt { high: true },
            InitAction::ReleaseTouchInt,
            InitAction::InitTouch,
            InitAction::OpenDpi(dpi_config()),
            InitAction::SplitPsram,
            InitAction::BuildRing,
            InitAction::StartTransfer,
            InitAction::EnableEofInterrupt,
            InitAction::BacklightOn,
            InitAction::ShareBus,
        ]
    );
}

/// Fail the first action that matches.
fn fail(wanted: fn(&InitAction) -> bool) -> (Error, BringUp) {
    let mut bring_up = init();
    loop {
        let action = bring_up.action().unwrap();
        if wanted(&action) {
            let error = bring_up.complete(false).unwrap_err();
            return (error, bring_up);
        }
        bring_up.complete(true).unwrap();
    }
}

#[test]
fn failures_have_their_own_errors() {
    let cases: Vec<(fn(&InitAction) -> bool, Error)> = vec![
        (|a| matches!(a, InitAction::OpenI2c { .. }), Error::I2cConfig),
        (|a| matches!(a, InitAction::ClaimOutput { bit: 0, .. }), Error::Pca9554),
        (|a| matches!(a, InitAction::ClaimOutput { bit: 7, .. }), Error::Pca9554),
        (|a| matches!(a, InitAction::InitPanel { .. }), Error::St7701),
        (|a| matches!(a, InitAction::DriveOutput { high: false, .. }), Error::Pca9554),
        (|a| matches!(a, InitAction::DriveOutput { high: true, .. }), Error::Pca9554),
        (|a| matches!(a, InitAction::InitTouch), Error::Gt911),
        (|a| matches!(a, InitAction::OpenDpi(_)), Error::Dpi),
        (|a| matches!(a, InitAction::SplitPsram), Error::PsramTooSmall),
        (|a| matches!(a, InitAction::StartTransfer), Error::DpiStart),
    ];
    for (wanted, expected) in cases {
        let (error, bring_up) = fail(wanted);
        assert_eq!(error, expected);
        assert_eq!(bring_up.action(), None);
    }
}

#[test]
fn panel_timing() {
    let config = dpi_config();
    assert_eq!(config.pclk_hz, 12_000_000);
    let t = config.timing;
    assert_eq!((t.horizontal_active_width, t.vertical_active_height), (480, 480));
    assert_eq!((t.horizontal_total_width, t.vertical_total_height), (548, 508));
    assert_eq!((t.horizontal_blank_front_porch, t.vertical_blank_front_porch), (50, 8));
    assert_eq!((t.hsync_width, t.vsync_width, t.hsync_position), (8, 2, 0));
    assert!(config.two_byte_mode && config.vsync_idles_high && config.hsync_idles_high);
    assert!(!config.clock_idles_high && !config.shifts_on_high && !config.de_idles_high);
    // About 43 frames, so about 1290 interrupts, per second.
    let clocks = (t.horizontal_total_width * t.vertical_total_height) as u32;
    assert_eq!(config.pclk_hz / clocks, 43);
    assert_eq!(30 * config.pclk_hz / clocks, 1293);
}

#[test]
fn board_constants() {
    assert_eq!((consts::i2c::SDA_GPIO, consts::i2c::SCL_GPIO), (15, 7));
    assert_eq!(consts::i2c::FREQUENCY_HZ, 400_000);
    assert_eq!(consts::i2c::PCA9554_ADDR, 0x20);
    assert_eq!(consts::i2c::GT911_ADDR, 0x5D);
    assert_eq!(consts::i2c::PCF85063_ADDR, 0x51);
    assert_eq!(consts::i2c::QMI8658_ADDR, 0x6B);
    assert_eq!(consts::pca9554::LCD_RST_BIT, 0);
    assert_eq!(consts::pca9554::TOUCH_RST_BIT, 1);
    assert_eq!(consts::pca9554::ST7701_CS_BIT, 2);
    assert_eq!(consts::pca9554::SD_D3_EN_BIT, 3);
    assert_eq!(consts::pca9554::BUZZER_BIT, 7);
    assert_eq!((consts::sd::CLK_GPIO, consts::sd::CMD_GPIO, consts::sd::D0_GPIO), (2, 1, 42));
    assert_eq!(consts::sd::D3_PCA9554_BIT, 3);
    assert_eq!((consts::battery::ADC_GPIO, consts::battery::ADC1_CHANNEL), (4, 3));
    assert_eq!(consts::battery::ADC_ATTENUATION_DB, 12);
    assert_eq!((consts::usb::DM_GPIO, consts::usb::DP_GPIO), (19, 20));
}

#[test]
fn bring_up_names_the_panel_sequence() {
    let sequences: Vec<Sequence> = bring_up_actions()
        .into_iter()
        .filter_map(|action| match action {
            InitAction::InitPanel { sequence } => Some(sequence),
            _ => None,
        })
        .collect();
    assert_eq!(sequences.len(), 1);
    let (steps, table) = (sequences[0].steps(), waveshare_2_8c());
    assert_eq!(steps.len(), 41);
    for (step, expected) in steps.iter().zip(table) {
        assert_eq!(
            (step.cmd, step.data, step.delay_ms),
            (expected.cmd, expected.data, expected.delay_ms)
        );
    }
}
