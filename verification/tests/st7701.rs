use ws_esp32_s3_touch_lcd_2_8c::st7701::sequences::waveshare_2_8c;
use ws_esp32_s3_touch_lcd_2_8c::st7701::{Action, Error, Line, St7701, Step, Transfer};

fn driver() -> St7701<u8, u8, u8, u8, u8> {
    St7701::new(1, 2, 3, 4, 5)
}

/// Perform a transfer to its end, with every pin behaving.
fn play(mut transfer: Transfer<'_>) -> Vec<Action> {
    let mut done = Vec::new();
    while let Some(action) = transfer.action() {
        done.push(action);
        assert_eq!(transfer.complete::<()>(Ok(())), Ok(()));
    }
    done
}

fn set(line: Line, high: bool) -> Action {
    Action::Drive { line, high }
}

fn bit(high: bool) -> Vec<Action> {
    vec![
        set(Line::Sda, high),
        Action::DelayUs(1),
        set(Line::Sck, true),
        Action::DelayUs(1),
        set(Line::Sck, false),
        Action::DelayUs(1),
    ]
}

/// What the controller receives: for each command its bytes, with the
/// data flag of each.
fn receive(actions: &[Action]) -> Vec<Vec<(bool, u8)>> {
    let (mut sck, mut sda, mut cs) = (false, false, true);
    let mut bits: Vec<bool> = Vec::new();
    let mut commands = Vec::new();
    for action in actions {
        match *action {
            Action::Drive { line: Line::Sck, high } => {
                if high && !sck && !cs {
                    bits.push(sda);
                }
                sck = high;
            }
            Action::Drive { line: Line::Sda, high } => {
                assert!(!sck, "SDA moved while SCK was high");
                sda = high;
            }
            Action::Drive { line: Line::Cs, high } => {
                if !high {
                    bits.clear();
                } else if !cs {
                    assert_eq!(bits.len() % 9, 0);
                    let words = bits
                        .chunks(9)
                        .map(|w| (w[0], w[1..].iter().fold(0u8, |b, &bit| b << 1 | bit as u8)))
                        .collect();
                    commands.push(words);
                }
                cs = high;
            }
            _ => {}
        }
    }
    assert!(!sck && cs);
    commands
}

#[test]
fn reset_pulse() {
    assert_eq!(
        play(driver().reset()),
        vec![
            set(Line::Sck, false),
            set(Line::Sda, false),
            set(Line::Cs, true),
            set(Line::Rst, false),
            Action::DelayMs(10),
            set(Line::Rst, true),
            Action::DelayMs(120),
        ]
    );
}

#[test]
fn command_on_the_wire() {
    let mut expected = vec![set(Line::Cs, false)];
    // D/CX low, then 0xA5 from its most significant bit down.
    for high in [false, true, false, true, false, false, true, false, true] {
        expected.extend(bit(high));
    }
    // D/CX high, then 0x01.
    for high in [true, false, false, false, false, false, false, false, true] {
        expected.extend(bit(high));
    }
    expected.push(set(Line::Cs, true));
    assert_eq!(play(driver().write_command(0xA5, &[0x01])), expected);
}

#[test]
fn command_without_parameters() {
    let actions = play(driver().write_command(0x29, &[]));
    assert_eq!(actions.len(), 2 + 9 * 6);
    assert_eq!(receive(&actions), vec![vec![(false, 0x29)]]);
}

#[test]
fn run_sends_steps_in_order_with_delays() {
    let steps = [
        Step { cmd: 0x11, data: &[], delay_ms: 120 },
        Step { cmd: 0x3A, data: &[0x66], delay_ms: 0 },
    ];
    let actions = play(driver().run(&steps));
    assert_eq!(actions[2 + 54 - 1], set(Line::Cs, true));
    assert_eq!(actions[2 + 54], Action::DelayMs(120));
    assert_eq!(actions[2 + 54 + 1], set(Line::Cs, false));
    assert_eq!(actions.len(), (2 + 54 + 1) + (2 + 108));
    assert_eq!(
        receive(&actions),
        vec![vec![(false, 0x11)], vec![(false, 0x3A), (true, 0x66)]]
    );
}

#[test]
fn run_of_nothing_is_nothing() {
    assert!(play(driver().run(&[])).is_empty());
}

#[test]
fn init_is_reset_and_run() {
    let steps = [Step { cmd: 0x36, data: &[0x00], delay_ms: 3 }];
    let mut expected = play(driver().reset());
    expected.extend(play(driver().run(&steps)));
    assert_eq!(play(driver().init(&steps)), expected);
}

#[test]
fn run_in_parts_is_run_as_a_whole() {
    let sequence = waveshare_2_8c();
    let mut parts = play(driver().run(&sequence[..17]));
    parts.extend(play(driver().run(&sequence[17..])));
    assert_eq!(play(driver().run(sequence)), parts);
}

#[test]
fn failing_pin_ends_the_transfer() {
    let mut transfer = driver().write_command(0x11, &[]);
    assert_eq!(transfer.action(), Some(set(Line::Cs, false)));
    assert_eq!(transfer.complete::<&str>(Ok(())), Ok(()));
    assert_eq!(transfer.complete(Err("bus")), Err(Error::Pin("bus")));
    assert_eq!(transfer.action(), None);
    assert_eq!(transfer.complete::<&str>(Ok(())), Ok(()));
    assert_eq!(transfer.action(), None);
}

#[test]
fn pin_error_converts() {
    let error: Error<u8> = Error::from(7u8);
    assert_eq!(error, Error::Pin(7));
}

#[test]
fn release_hands_everything_back() {
    assert_eq!(driver().release(), (1, 2, 3, 4, 5));
}

#[test]
fn panel_sequence_reaches_the_controller() {
    let sequence = waveshare_2_8c();
    let received = receive(&play(driver().init(sequence)));
    assert_eq!(received.len(), 41);
    for (step, words) in sequence.iter().zip(&received) {
        assert_eq!(words[0], (false, step.cmd));
        let data: Vec<(bool, u8)> = step.data.iter().map(|&b| (true, b)).collect();
        assert_eq!(words[1..], data[..]);
    }
}

#[test]
fn init_takes_the_time_it_should() {
    let sequence = waveshare_2_8c();
    let words: usize = sequence.iter().map(|s| 1 + s.data.len()).sum();
    let mut us: u64 = 0;
    for action in play(driver().init(sequence)) {
        match action {
            Action::DelayUs(n) => us += n as u64,
            Action::DelayMs(n) => us += 1000 * n as u64,
            _ => {}
        }
    }
    // Reset, Sleep Out, and three microseconds for each of nine bits.
    assert_eq!(us, 130_000 + 120_000 + 27 * words as u64);
}

#[test]
fn panel_sequence_values() {
    let sequence = waveshare_2_8c();
    let values: Vec<(u8, &[u8], u32)> =
        sequence.iter().map(|s| (s.cmd, s.data, s.delay_ms)).collect();
    let expected: Vec<(u8, &[u8], u32)> = vec![
        (0xFF, &[0x77, 0x01, 0x00, 0x00, 0x13], 0),
        (0xEF, &[0x08], 0),
        (0xFF, &[0x77, 0x01, 0x00, 0x00, 0x10], 0),
        (0xC0, &[0x3B, 0x00], 0),
        (0xC1, &[0x10, 0x0C], 0),
        (0xC2, &[0x07, 0x0A], 0),
        (0xC7, &[0x00], 0),
        (0xCC, &[0x10], 0),
        (0xCD, &[0x08], 0),
        (
            0xB0,
            &[
                0x05, 0x12, 0x98, 0x0E, 0x0F, 0x07, 0x07, 0x09, 0x09, 0x23, 0x05, 0x52, 0x0F, 0x67,
                0x2C, 0x11,
            ],
            0,
        ),
        (
            0xB1,
            &[
                0x0B, 0x11, 0x97, 0x0C, 0x12, 0x06, 0x06, 0x08, 0x08, 0x22, 0x03, 0x51, 0x11, 0x66,
                0x2B, 0x0F,
            ],
            0,
        ),
        (0xFF, &[0x77, 0x01, 0x00, 0x00, 0x11], 0),
        (0xB0, &[0x5D], 0),
        (0xB1, &[0x3E], 0),
        (0xB2, &[0x81], 0),
        (0xB3, &[0x80], 0),
        (0xB5, &[0x4E], 0),
        (0xB7, &[0x85], 0),
        (0xB8, &[0x20], 0),
        (0xC1, &[0x78], 0),
        (0xC2, &[0x78], 0),
        (0xD0, &[0x88], 0),
        (0xE0, &[0x00, 0x00, 0x02], 0),
        (0xE1, &[0x06, 0x30, 0x08, 0x30, 0x05, 0x30, 0x07, 0x30, 0x00, 0x33, 0x33], 0),
        (0xE2, &[0x11, 0x11, 0x33, 0x33, 0xF4, 0x00, 0x00, 0x00, 0xF4, 0x00, 0x00, 0x00], 0),
        (0xE3, &[0x00, 0x00, 0x11, 0x11], 0),
        (0xE4, &[0x44, 0x44], 0),
        (
            0xE5,
            &[
                0x0D, 0xF5, 0x30, 0xF0, 0x0F, 0xF7, 0x30, 0xF0, 0x09, 0xF1, 0x30, 0xF0, 0x0B, 0xF3,
                0x30, 0xF0,
            ],
            0,
        ),
        (0xE6, &[0x00, 0x00, 0x11, 0x11], 0),
        (0xE7, &[0x44, 0x44], 0),
        (
            0xE8,
            &[
                0x0C, 0xF4, 0x30, 0xF0, 0x0E, 0xF6, 0x30, 0xF0, 0x08, 0xF0, 0x30, 0xF0, 0x0A, 0xF2,
                0x30, 0xF0,
            ],
            0,
        ),
        (0xE9, &[0x36, 0x01], 0),
        (0xEB, &[0x00, 0x01, 0xE4, 0xE4, 0x44, 0x88, 0x40], 0),
        (
            0xED,
            &[
                0xFF, 0x10, 0xAF, 0x76, 0x54, 0x2B, 0xCF, 0xFF, 0xFF, 0xFC, 0xB2, 0x45, 0x67, 0xFA,
                0x01, 0xFF,
            ],
            0,
        ),
        (0xEF, &[0x08, 0x08, 0x08, 0x45, 0x3F, 0x54], 0),
        (0xFF, &[0x77, 0x01, 0x00, 0x00, 0x00], 0),
        (0x11, &[], 120),
        (0x3A, &[0x66], 0),
        (0x36, &[0x00], 0),
        (0x35, &[0x00], 0),
        (0x29, &[], 0),
    ];
    assert_eq!(values, expected);
}
