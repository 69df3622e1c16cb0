//! Sitronix **ST7701** / ST7701S init driver.
//!
//! The controller is configured once, over a 9-bit-per-word "3-wire" SPI
//! link that is bit-banged over plain output pins: SCK idles low and
//! data is sampled on its rising edge, words go out most significant bit
//! first behind a data/command flag, and CS is low for the length of a
//! command. RST is the active-low hardware reset.
//!
//! [`St7701`] turns a job (a reset, a command, a whole init sequence)
//! into a [`Transfer`]: the exact succession of pin levels and delays,
//! handed out one [`Action`] at a time. Whoever owns the pins performs
//! each action and reports how it went; the first pin that fails ends
//! the transfer.

use vstd::prelude::*;

pub mod receiver;
pub mod sequences;

verus! {

/// One entry in an init sequence: a command byte, zero or more parameter
/// bytes, and an optional settling delay.
#[derive(Debug, Clone, Copy)]
pub struct Step {
    /// Command byte, sent with the data flag cleared.
    pub cmd: u8,
    /// Parameter bytes, each sent with the data flag set.
    pub data: &'static [u8],
    /// Settling delay after this step, in milliseconds. 0 = no delay.
    pub delay_ms: u32,
}

/// Driver errors.
#[derive(Debug, Clone, Copy, PartialEq, Eq)]
pub enum Error<E> {
    /// A pin could not be driven. Holds the pin's own error.
    Pin(E),
}

impl<E> From<E> for Error<E> {
    fn from(e: E) -> (error: Self) {
        Error::Pin(e)
    }
}

impl<E> vstd::std_specs::convert::FromSpecImpl<E> for Error<E> {
    open spec fn obeys_from_spec() -> bool {
        true
    }

    open spec fn from_spec(e: E) -> Error<E> {
        Error::Pin(e)
    }
}

/// The wires between the MCU and the controller.
#[derive(Debug, Clone, Copy, PartialEq, Eq, Structural)]
pub enum Line {
    /// Serial clock.
    Sck,
    /// Serial data.
    Sda,
    /// Chip select, active low.
    Cs,
    /// Hardware reset, active low.
    Rst,
}

/// One thing to do on the wires.
#[derive(Debug, Clone, Copy, PartialEq, Eq, Structural)]
pub enum Action {
    /// Drive a line high or low.
    Drive {
        /// The line.
        line: Line,
        /// Whether to drive it high.
        high: bool,
    },
    /// Wait for so many microseconds.
    DelayUs(u32),
    /// Wait for so many milliseconds.
    DelayMs(u32),
}

/// Hardware reset: the link idles, then RST is low for 10 ms, and 120 ms
/// pass before the controller may be talked to.
pub open spec fn reset_actions() -> Seq<Action> {
    seq![
        Action::Drive { line: Line::Sck, high: false },
        Action::Drive { line: Line::Sda, high: false },
        Action::Drive { line: Line::Cs, high: true },
        Action::Drive { line: Line::Rst, high: false },
        Action::DelayMs(10),
        Action::Drive { line: Line::Rst, high: true },
        Action::DelayMs(120),
    ]
}

/// One bit on the wire: data first, then a clock pulse.
pub open spec fn bit_actions(bit: bool) -> Seq<Action> {
    seq![
        Action::Drive { line: Line::Sda, high: bit },
        Action::DelayUs(1),
        Action::Drive { line: Line::Sck, high: true },
        Action::DelayUs(1),
        Action::Drive { line: Line::Sck, high: false },
        Action::DelayUs(1),
    ]
}

/// Bits on the wire, one after the other.
pub open spec fn bits_actions(bits: Seq<bool>) -> Seq<Action>
    decreases bits.len(),
{
    if bits.len() == 0 {
        Seq::empty()
    } else {
        bit_actions(bits[0]) + bits_actions(bits.drop_first())
    }
}

/// Bit `n` of a byte.
pub open spec fn byte_bit(byte: u8, n: int) -> bool {
    (byte >> (n as u8)) & 1 != 0
}

/// A 9-bit word: the data flag, then the byte from its most significant
/// bit down.
pub open spec fn word_bits(is_data: bool, byte: u8) -> Seq<bool> {
    Seq::new(
        9,
        |j: int|
            if j == 0 {
                is_data
            } else {
                byte_bit(byte, 8 - j)
            },
    )
}

/// Word `w` of a command: the command byte, then its parameters.
pub open spec fn word_of(cmd: u8, data: Seq<u8>, w: int) -> Seq<bool> {
    if w == 0 {
        word_bits(false, cmd)
    } else {
        word_bits(true, data[w - 1])
    }
}

/// The words of a command from word `w` on.
pub open spec fn words_actions(cmd: u8, data: Seq<u8>, w: int) -> Seq<Action>
    decreases data.len() + 1 - w,
{
    if w > data.len() {
        Seq::empty()
    } else {
        bits_actions(word_of(cmd, data, w)) + words_actions(cmd, data, w + 1)
    }
}

/// One command with its parameters, framed by CS.
pub open spec fn command_actions(cmd: u8, data: Seq<u8>) -> Seq<Action> {
    seq![Action::Drive { line: Line::Cs, high: false }] + words_actions(cmd, data, 0) + seq![
        Action::Drive { line: Line::Cs, high: true },
    ]
}

/// The settling delay of a step, if it has one.
pub open spec fn settle_actions(delay_ms: u32) -> Seq<Action> {
    if delay_ms > 0 {
        seq![Action::DelayMs(delay_ms)]
    } else {
        Seq::empty()
    }
}

/// One step of an init sequence.
pub open spec fn step_actions(step: Step) -> Seq<Action> {
    command_actions(step.cmd, step.data@) + settle_actions(step.delay_ms)
}

/// A whole init sequence.
pub open spec fn run_actions(sequence: Seq<Step>) -> Seq<Action>
    decreases sequence.len(),
{
    if sequence.len() == 0 {
        Seq::empty()
    } else {
        step_actions(sequence[0]) + run_actions(sequence.drop_first())
    }
}

/// Where a transfer stands.
#[derive(Debug, Clone, Copy, PartialEq, Eq, Structural)]
enum Stage {
    /// In the hardware reset, with so many of its actions done.
    Reset { tick: usize },
    /// About to select the controller.
    Select,
    /// Clocking out bit `bit` of word `word`, with so many of the bit's
    /// actions done.
    Clock { word: usize, bit: usize, tick: usize },
    /// About to deselect the controller.
    Deselect,
    /// About to let the step settle.
    Settle,
    /// Nothing is left.
    Done,
}

/// A job on the wires, handed out action by action.
///
/// Its view is what is still to be done.
pub struct Transfer<'a> {
    stage: Stage,
    cmd: u8,
    data: &'a [u8],
    delay_ms: u32,
    sequence: &'a [Step],
    next: usize,
}

impl<'a> View for Transfer<'a> {
    type V = Seq<Action>;

    closed spec fn view(&self) -> Seq<Action> {
        match self.stage {
            Stage::Reset { tick } => reset_actions().skip(tick as int) + self.later(),
            Stage::Select => command_actions(self.cmd, self.data@) + self.settled(),
            Stage::Clock { word, bit, tick } => {
                let bits = word_of(self.cmd, self.data@, word as int);
                bit_actions(bits[bit as int]).skip(tick as int) + bits_actions(bits.skip(bit + 1))
                    + words_actions(self.cmd, self.data@, word + 1) + self.closing()
            },
            Stage::Deselect => self.closing(),
            Stage::Settle => self.settled(),
            Stage::Done => Seq::empty(),
        }
    }
}

impl<'a> Transfer<'a> {
    /// What follows the current command: the rest of the sequence.
    spec fn later(&self) -> Seq<Action> {
        run_actions(self.sequence@.skip(self.next as int))
    }

    /// What follows once the current command is through.
    spec fn settled(&self) -> Seq<Action> {
        settle_actions(self.delay_ms) + self.later()
    }

    /// What follows the last bit of the current command.
    spec fn closing(&self) -> Seq<Action> {
        seq![Action::Drive { line: Line::Cs, high: true }] + self.settled()
    }

    /// All positions are within what they point into.
    pub closed spec fn wf(&self) -> bool {
        &&& self.next <= self.sequence@.len()
        &&& match self.stage {
            Stage::Reset { tick } => tick < 7,
            Stage::Clock { word, bit, tick } => word <= self.data@.len() && bit < 9 && tick < 6,
            Stage::Settle => self.delay_ms > 0,
            _ => true,
        }
    }

    /// Take up the next step of the sequence, or finish.
    fn take_up(&mut self)
        requires
            old(self).next <= old(self).sequence@.len(),
        ensures
            final(self).wf(),
            final(self)@ == old(self).later(),
    {
        if self.next < self.sequence.len() {
            let step = self.sequence[self.next];
            proof {
                let rest = self.sequence@.skip(self.next as int);
                assert(rest.drop_first() =~= self.sequence@.skip(self.next + 1));
            }
            self.cmd = step.cmd;
            self.data = step.data;
            self.delay_ms = step.delay_ms;
            self.next = self.next + 1;
            self.stage = Stage::Select;
            assert(self@ =~= old(self).later());
        } else {
            self.stage = Stage::Done;
        }
    }

    /// One of the actions that clock out a bit.
    fn write_bit(bit: bool, tick: usize) -> (action: Action)
        requires
            tick < 6,
        ensures
            action == bit_actions(bit)[tick as int],
    {
        if tick == 0 {
            Action::Drive { line: Line::Sda, high: bit }
        } else if tick == 2 {
            Action::Drive { line: Line::Sck, high: true }
        } else if tick == 4 {
            Action::Drive { line: Line::Sck, high: false }
        } else {
            Action::DelayUs(1)
        }
    }

    /// One of the bits of a 9-bit word.
    fn write_9bit(is_data: bool, byte: u8, index: usize) -> (bit: bool)
        requires
            index < 9,
        ensures
            bit == word_bits(is_data, byte)[index as int],
    {
        if index == 0 {
            is_data
        } else {
            (byte >> ((8 - index) as u8)) & 1 != 0
        }
    }

    /// What to do next; nothing once the transfer is through.
    pub fn action(&self) -> (action: Option<Action>)
        requires
            self.wf(),
        ensures
            action is None <==> self@.len() == 0,
            action matches Some(action) ==> action == self@[0],
    {
        match self.stage {
            Stage::Reset { tick } => {
                if tick == 0 {
                    Some(Action::Drive { line: Line::Sck, high: false })
                } else if tick == 1 {
                    Some(Action::Drive { line: Line::Sda, high: false })
                } else if tick == 2 {
                    Some(Action::Drive { line: Line::Cs, high: true })
                } else if tick == 3 {
                    Some(Action::Drive { line: Line::Rst, high: false })
                } else if tick == 4 {
                    Some(Action::DelayMs(10))
                } else if tick == 5 {
                    Some(Action::Drive { line: Line::Rst, high: true })
                } else {
                    Some(Action::DelayMs(120))
                }
            },
            Stage::Select => Some(Action::Drive { line: Line::Cs, high: false }),
            Stage::Clock { word, bit, tick } => {
                let level = if word == 0 {
                    Self::write_9bit(false, self.cmd, bit)
                } else {
                    Self::write_9bit(true, self.data[word - 1], bit)
                };
                Some(Self::write_bit(level, tick))
            },
            Stage::Deselect => Some(Action::Drive { line: Line::Cs, high: true }),
            Stage::Settle => Some(Action::DelayMs(self.delay_ms)),
            Stage::Done => None,
        }
    }

    /// Go on to the next action.
    fn advance(&mut self)
        requires
            old(self).wf(),
            old(self)@.len() > 0,
        ensures
            final(self).wf(),
            final(self)@ == old(self)@.drop_first(),
    {
        match self.stage {
            Stage::Reset { tick } => {
                if tick < 6 {
                    self.stage = Stage::Reset { tick: tick + 1 };
                } else {
                    self.take_up();
                }
                assert(self@ =~= old(self)@.drop_first());
            },
            Stage::Select => {
                self.stage = Stage::Clock { word: 0, bit: 0, tick: 0 };
                proof {
                    lemma_first_bit(self.cmd, self.data@, 0);
                }
                assert(self@ =~= old(self)@.drop_first());
            },
            Stage::Clock { word, bit, tick } => {
                let ghost bits = word_of(self.cmd, self.data@, word as int);
                if tick < 5 {
                    self.stage = Stage::Clock { word, bit, tick: tick + 1 };
                } else if bit < 8 {
                    self.stage = Stage::Clock { word, bit: bit + 1, tick: 0 };
                    assert(bits.skip(bit + 1).drop_first() =~= bits.skip(bit + 2));
                } else if word < self.data.len() {
                    self.stage = Stage::Clock { word: word + 1, bit: 0, tick: 0 };
                    proof {
                        lemma_first_bit(self.cmd, self.data@, word + 1);
                    }
                } else {
                    self.stage = Stage::Deselect;
                }
                assert(self@ =~= old(self)@.drop_first());
            },
            Stage::Deselect => {
                if self.delay_ms > 0 {
                    self.stage = Stage::Settle;
                } else {
                    self.take_up();
                }
                assert(self@ =~= old(self)@.drop_first());
            },
            Stage::Settle => {
                self.take_up();
                assert(self@ =~= old(self)@.drop_first());
            },
            Stage::Done => {},
        }
    }

    /// Report how the action that [`Transfer::action`] named went.
    ///
    /// Delays always go well. A pin that fails ends the transfer, and its
    /// error is handed back.
    pub fn complete<E>(&mut self, outcome: Result<(), E>) -> (result: Result<(), Error<E>>)
        requires
            old(self).wf(),
        ensures
            final(self).wf(),
            match outcome {
                Ok(_) => {
                    &&& result == Ok::<(), Error<E>>(())
                    &&& final(self)@ == (if old(self)@.len() > 0 {
                        old(self)@.drop_first()
                    } else {
                        Seq::empty()
                    })
                },
                Err(e) => {
                    &&& result == Err::<(), Error<E>>(Error::Pin(e))
                    &&& final(self)@ == Seq::<Action>::empty()
                },
            },
    {
        match outcome {
            Ok(_) => {
                if self.action().is_some() {
                    self.advance();
                }
                Ok(())
            },
            Err(e) => {
                self.stage = Stage::Done;
                Err(Error::from(e))
            },
        }
    }
}

/// The first bit of word `w` of a command, set apart from the rest.
proof fn lemma_first_bit(cmd: u8, data: Seq<u8>, w: int)
    requires
        0 <= w <= data.len(),
    ensures
        words_actions(cmd, data, w) == bit_actions(word_of(cmd, data, w)[0]).skip(0) + bits_actions(
            word_of(cmd, data, w).skip(1),
        ) + words_actions(cmd, data, w + 1),
{
    let bits = word_of(cmd, data, w);
    assert(bits.drop_first() =~= bits.skip(1));
    assert(bit_actions(bits[0]).skip(0) =~= bit_actions(bits[0]));
    assert(words_actions(cmd, data, w) =~= bit_actions(bits[0]).skip(0) + bits_actions(bits.skip(1))
        + words_actions(cmd, data, w + 1));
}

/// ST7701 init driver: the wires, and what to do on them.
///
/// It never touches the pins itself. The type parameters are the four
/// pins and the delay source that actions are performed with.
pub struct St7701<SCK, SDA, CS, RST, D> {
    /// Serial clock pin.
    pub sck: SCK,
    /// Serial data pin.
    pub sda: SDA,
    /// Chip-select pin.
    pub cs: CS,
    /// Reset pin.
    pub rst: RST,
    /// Delay source.
    pub delay: D,
}

impl<SCK, SDA, CS, RST, D> St7701<SCK, SDA, CS, RST, D> {
    /// Construct the driver. Does not touch the pins.
    pub fn new(sck: SCK, sda: SDA, cs: CS, rst: RST, delay: D) -> (driver: Self)
        ensures
            driver == (St7701 { sck, sda, cs, rst, delay }),
    {
        St7701 { sck, sda, cs, rst, delay }
    }

    /// Hardware-reset the controller, then clock out `sequence`.
    pub fn init<'a>(&self, sequence: &'a [Step]) -> (transfer: Transfer<'a>)
        ensures
            transfer.wf(),
            transfer@ == reset_actions() + run_actions(sequence@),
    {
        let transfer = Transfer {
            stage: Stage::Reset { tick: 0 },
            cmd: 0,
            data: &[],
            delay_ms: 0,
            sequence,
            next: 0,
        };
        assert(sequence@.skip(0) =~= sequence@);
        assert(transfer@ =~= reset_actions() + run_actions(sequence@));
        transfer
    }

    /// Hardware reset. Leaves SCK and SDA low and CS high, so the link is
    /// in a known state when bits are clocked.
    pub fn reset(&self) -> (transfer: Transfer<'static>)
        ensures
            transfer.wf(),
            transfer@ == reset_actions(),
    {
        let transfer = Transfer {
            stage: Stage::Reset { tick: 0 },
            cmd: 0,
            data: &[],
            delay_ms: 0,
            sequence: &[],
            next: 0,
        };
        assert(transfer@ =~= reset_actions());
        transfer
    }

    /// Clock out `sequence` without a hardware reset first.
    pub fn run<'a>(&self, sequence: &'a [Step]) -> (transfer: Transfer<'a>)
        ensures
            transfer.wf(),
            transfer@ == run_actions(sequence@),
    {
        let mut transfer = Transfer {
            stage: Stage::Done,
            cmd: 0,
            data: &[],
            delay_ms: 0,
            sequence,
            next: 0,
        };
        assert(sequence@.skip(0) =~= sequence@);
        transfer.take_up();
        transfer
    }

    /// Send a single command with its parameter bytes. CS is low for the
    /// length of it.
    pub fn write_command<'a>(&self, cmd: u8, data: &'a [u8]) -> (transfer: Transfer<'a>)
        ensures
            transfer.wf(),
            transfer@ == command_actions(cmd, data@),
    {
        let transfer = Transfer {
            stage: Stage::Select,
            cmd,
            data,
            delay_ms: 0,
            sequence: &[],
            next: 0,
        };
        assert(transfer@ =~= command_actions(cmd, data@));
        transfer
    }

    /// Hand the pins and the delay source back.
    pub fn release(self) -> (parts: (SCK, SDA, CS, RST, D))
        ensures
            parts == (self.sck, self.sda, self.cs, self.rst, self.delay),
    {
        (self.sck, self.sda, self.cs, self.rst, self.delay)
    }
}

} // verus!
