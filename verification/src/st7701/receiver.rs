//! The other end of the link: what the controller makes of the wires.

use crate::st7701::{
    bit_actions, bits_actions, byte_bit, command_actions, reset_actions, run_actions,
    settle_actions, step_actions, word_bits, word_of, words_actions, Action, Line, Step,
};
use vstd::prelude::*;

verus! {

/// What the controller sees and has made of it.
#[verifier::ext_equal]
pub struct Receiver {
    /// Level of SCK.
    pub sck: bool,
    /// Level of SDA.
    pub sda: bool,
    /// Level of CS.
    pub cs: bool,
    /// Level of RST.
    pub rst: bool,
    /// Bits sampled since CS went low.
    pub bits: Seq<bool>,
    /// The bits of each command completed since the last reset.
    pub commands: Seq<Seq<bool>>,
    /// Whether SDA has kept still whenever SCK was high.
    pub clean: bool,
    /// Microseconds that have gone by in delays.
    pub elapsed_us: int,
    /// When SDA was last driven.
    pub sda_us: int,
    /// When SCK last changed.
    pub sck_us: int,
    /// When RST was last driven.
    pub rst_us: int,
    /// How long RST was low before it was last driven high.
    pub pulse_us: int,
    /// When each command since the last reset began: CS went low.
    pub begun_us: Seq<int>,
    /// When each command since the last reset was complete: CS went high.
    pub ended_us: Seq<int>,
    /// Whether, since the last reset, everything on the link has been
    /// given a microsecond while CS was low: data before it is sampled,
    /// each level of the clock, and the clock before data moves or CS
    /// rises.
    pub timed: bool,
}

impl Receiver {
    /// Nothing is under way: SCK is low and CS is high.
    pub open spec fn idle(self) -> bool {
        !self.sck && self.cs
    }

    /// Nothing is under way, and SCK has been low for some time.
    pub open spec fn ready(self) -> bool {
        self.idle() && self.elapsed_us > self.sck_us
    }

    /// What one action brings. SDA is sampled on the rising edge of SCK
    /// while CS is low; CS going low begins a command and CS going high
    /// ends it. RST low makes the controller forget what it was told.
    pub open spec fn after(self, action: Action) -> Receiver {
        match action {
            Action::DelayUs(us) => Receiver { elapsed_us: self.elapsed_us + us, ..self },
            Action::DelayMs(ms) => Receiver { elapsed_us: self.elapsed_us + 1000 * ms, ..self },
            Action::Drive { line: Line::Sck, high } => Receiver {
                sck: high,
                bits: if high && !self.sck && !self.cs {
                    self.bits.push(self.sda)
                } else {
                    self.bits
                },
                sck_us: if high != self.sck {
                    self.elapsed_us
                } else {
                    self.sck_us
                },
                timed: self.timed && (high != self.sck && !self.cs ==> self.elapsed_us
                    - self.sck_us >= 1 && (high ==> self.elapsed_us - self.sda_us >= 1)),
                ..self
            },
            Action::Drive { line: Line::Sda, high } => Receiver {
                sda: high,
                clean: self.clean && !self.sck,
                sda_us: self.elapsed_us,
                timed: self.timed && (!self.cs ==> self.elapsed_us - self.sck_us >= 1),
                ..self
            },
            Action::Drive { line: Line::Cs, high } => Receiver {
                cs: high,
                bits: if !high && self.cs {
                    Seq::empty()
                } else {
                    self.bits
                },
                commands: if high && !self.cs {
                    self.commands.push(self.bits)
                } else {
                    self.commands
                },
                begun_us: if !high && self.cs {
                    self.begun_us.push(self.elapsed_us)
                } else {
                    self.begun_us
                },
                ended_us: if high && !self.cs {
                    self.ended_us.push(self.elapsed_us)
                } else {
                    self.ended_us
                },
                timed: self.timed && (high && !self.cs ==> self.elapsed_us - self.sck_us >= 1),
                ..self
            },
            Action::Drive { line: Line::Rst, high } => Receiver {
                rst: high,
                bits: if high {
                    self.bits
                } else {
                    Seq::empty()
                },
                commands: if high {
                    self.commands
                } else {
                    Seq::empty()
                },
                rst_us: self.elapsed_us,
                pulse_us: if high {
                    self.elapsed_us - self.rst_us
                } else {
                    self.pulse_us
                },
                begun_us: if high {
                    self.begun_us
                } else {
                    Seq::empty()
                },
                ended_us: if high {
                    self.ended_us
                } else {
                    Seq::empty()
                },
                timed: self.timed || !high,
                ..self
            },
        }
    }

    /// What a succession of actions brings.
    pub open spec fn after_all(self, actions: Seq<Action>) -> Receiver
        decreases actions.len(),
    {
        if actions.len() == 0 {
            self
        } else {
            self.after(actions[0]).after_all(actions.drop_first())
        }
    }
}

/// The bits of a command's words, from word `w` on.
pub open spec fn command_bits_from(cmd: u8, data: Seq<u8>, w: int) -> Seq<bool>
    decreases data.len() + 1 - w,
{
    if w > data.len() {
        Seq::empty()
    } else {
        word_of(cmd, data, w) + command_bits_from(cmd, data, w + 1)
    }
}

/// The bits of a whole command.
pub open spec fn command_bits(cmd: u8, data: Seq<u8>) -> Seq<bool> {
    command_bits_from(cmd, data, 0)
}

/// The byte behind the data flag of word `w` among received bits.
pub open spec fn received_byte(bits: Seq<bool>, w: int) -> int {
    let value = |j: int, weight: int|
        if bits[9 * w + j] {
            weight
        } else {
            0
        };
    value(1, 128) + value(2, 64) + value(3, 32) + value(4, 16) + value(5, 8) + value(6, 4) + value(
        7,
        2,
    ) + value(8, 1)
}

/// What a step is received as.
pub open spec fn received_steps(sequence: Seq<Step>) -> Seq<Seq<bool>> {
    Seq::new(sequence.len(), |i: int| command_bits(sequence[i].cmd, sequence[i].data@))
}

/// How long a step takes, in microseconds.
pub open spec fn step_us(step: Step) -> int {
    27 * (1 + step.data@.len()) + 1000 * step.delay_ms
}

/// How long a sequence takes, in microseconds.
pub open spec fn run_us(sequence: Seq<Step>) -> int
    decreases sequence.len(),
{
    if sequence.len() == 0 {
        0
    } else {
        step_us(sequence[0]) + run_us(sequence.drop_first())
    }
}

/// Actions in two parts bring what the parts bring in turn.
proof fn lemma_after_parts(receiver: Receiver, one: Seq<Action>, two: Seq<Action>)
    ensures
        receiver.after_all(one + two) == receiver.after_all(one).after_all(two),
    decreases one.len(),
{
    if one.len() == 0 {
        assert(one + two =~= two);
    } else {
        assert((one + two).drop_first() =~= one.drop_first() + two);
        lemma_after_parts(receiver.after(one[0]), one.drop_first(), two);
    }
}

/// A single action.
proof fn lemma_after_one(receiver: Receiver, action: Action)
    ensures
        receiver.after_all(seq![action]) == receiver.after(action),
{
    let actions = seq![action];
    assert(actions.drop_first() =~= Seq::empty());
    reveal_with_fuel(Receiver::after_all, 2);
}

/// One bit is sampled once, with SCK low again at the end.
proof fn lemma_after_bit(receiver: Receiver, bit: bool)
    requires
        !receiver.sck,
        !receiver.cs,
    ensures
        receiver.after_all(bit_actions(bit)) == (Receiver {
            sda: bit,
            bits: receiver.bits.push(bit),
            elapsed_us: receiver.elapsed_us + 3,
            sda_us: receiver.elapsed_us,
            sck_us: receiver.elapsed_us + 2,
            timed: receiver.timed && receiver.elapsed_us > receiver.sck_us,
            ..receiver
        }),
{
    let a = bit_actions(bit);
    let r1 = receiver.after(a[0]);
    let r2 = r1.after(a[1]);
    let r3 = r2.after(a[2]);
    let r4 = r3.after(a[3]);
    let r5 = r4.after(a[4]);
    let r6 = r5.after(a[5]);
    reveal_with_fuel(Receiver::after_all, 7);
    assert(receiver.after_all(a) == r6);
}

/// Bits are sampled in the order in which they are clocked out.
proof fn lemma_after_bits(receiver: Receiver, bits: Seq<bool>)
    requires
        !receiver.sck,
        !receiver.cs,
    ensures
        receiver.after_all(bits_actions(bits)) == (Receiver {
            sda: if bits.len() > 0 {
                bits.last()
            } else {
                receiver.sda
            },
            bits: receiver.bits + bits,
            elapsed_us: receiver.elapsed_us + 3 * bits.len(),
            sda_us: if bits.len() > 0 {
                receiver.elapsed_us + 3 * bits.len() - 3
            } else {
                receiver.sda_us
            },
            sck_us: if bits.len() > 0 {
                receiver.elapsed_us + 3 * bits.len() - 1
            } else {
                receiver.sck_us
            },
            timed: receiver.timed && (bits.len() > 0 ==> receiver.elapsed_us > receiver.sck_us),
            ..receiver
        }),
    decreases bits.len(),
{
    if bits.len() == 0 {
        assert(receiver.bits + bits =~= receiver.bits);
    } else {
        lemma_after_parts(receiver, bit_actions(bits[0]), bits_actions(bits.drop_first()));
        lemma_after_bit(receiver, bits[0]);
        let next = receiver.after_all(bit_actions(bits[0]));
        lemma_after_bits(next, bits.drop_first());
        assert(next.bits + bits.drop_first() =~= receiver.bits + bits);
    }
}

/// Words are received in the order in which they are clocked out.
proof fn lemma_after_words(receiver: Receiver, cmd: u8, data: Seq<u8>, w: int)
    requires
        !receiver.sck,
        !receiver.cs,
        0 <= w <= data.len() + 1,
    ensures
        receiver.after_all(words_actions(cmd, data, w)) == (Receiver {
            sda: receiver.after_all(words_actions(cmd, data, w)).sda,
            bits: receiver.bits + command_bits_from(cmd, data, w),
            elapsed_us: receiver.elapsed_us + 27 * (data.len() + 1 - w),
            sda_us: receiver.after_all(words_actions(cmd, data, w)).sda_us,
            sck_us: if w <= data.len() {
                receiver.elapsed_us + 27 * (data.len() + 1 - w) - 1
            } else {
                receiver.sck_us
            },
            timed: receiver.timed && (w <= data.len() ==> receiver.elapsed_us > receiver.sck_us),
            ..receiver
        }),
    decreases data.len() + 1 - w,
{
    if w > data.len() {
        assert(receiver.bits + command_bits_from(cmd, data, w) =~= receiver.bits);
    } else {
        let word = word_of(cmd, data, w);
        lemma_after_parts(receiver, bits_actions(word), words_actions(cmd, data, w + 1));
        lemma_after_bits(receiver, word);
        let next = receiver.after_all(bits_actions(word));
        lemma_after_words(next, cmd, data, w + 1);
        assert(next.bits + command_bits_from(cmd, data, w + 1) =~= receiver.bits
            + command_bits_from(cmd, data, w));
    }
}

/// A command that is clocked out reaches the controller as it was given,
/// in 27 microseconds per word, and leaves the link idle again.
pub proof fn law_command_is_received(receiver: Receiver, cmd: u8, data: Seq<u8>)
    requires
        receiver.idle(),
    ensures
        ({
            let after = receiver.after_all(command_actions(cmd, data));
            &&& after.idle()
            &&& after.commands == receiver.commands.push(command_bits(cmd, data))
            &&& after.rst == receiver.rst
            &&& after.clean == receiver.clean
            &&& after.elapsed_us == receiver.elapsed_us + 27 * (1 + data.len())
            &&& after.begun_us == receiver.begun_us.push(receiver.elapsed_us)
            &&& after.ended_us == receiver.ended_us.push(after.elapsed_us)
            &&& after.ready()
            &&& receiver.ready() ==> after.timed == receiver.timed
        }),
{
    let select = seq![Action::Drive { line: Line::Cs, high: false }];
    let deselect = seq![Action::Drive { line: Line::Cs, high: true }];
    let words = words_actions(cmd, data, 0);
    lemma_after_parts(receiver, select + words, deselect);
    lemma_after_parts(receiver, select, words);
    lemma_after_one(receiver, select[0]);
    let selected = receiver.after(select[0]);
    lemma_after_words(selected, cmd, data, 0);
    assert(selected.bits + command_bits(cmd, data) =~= command_bits(cmd, data));
    lemma_after_one(selected.after_all(words), deselect[0]);
}

/// A received command takes apart into the command byte, flagged as
/// such, and its parameters, flagged as data.
pub proof fn law_command_decodes(cmd: u8, data: Seq<u8>, w: int)
    requires
        0 <= w <= data.len(),
    ensures
        command_bits(cmd, data).len() == 9 * (1 + data.len()),
        command_bits(cmd, data)[9 * w] == (w > 0),
        received_byte(command_bits(cmd, data), w) == (if w == 0 {
            cmd
        } else {
            data[w - 1]
        }),
{
    lemma_bits_of_word(cmd, data, 0, w);
    let byte = if w == 0 {
        cmd
    } else {
        data[w - 1]
    };
    let bits = command_bits(cmd, data);
    let word = word_of(cmd, data, w);
    assert(bits[9 * w + 0] == word[0]);
    assert(bits[9 * w + 1] == word[1]);
    assert(bits[9 * w + 2] == word[2]);
    assert(bits[9 * w + 3] == word[3]);
    assert(bits[9 * w + 4] == word[4]);
    assert(bits[9 * w + 5] == word[5]);
    assert(bits[9 * w + 6] == word[6]);
    assert(bits[9 * w + 7] == word[7]);
    assert(bits[9 * w + 8] == word[8]);
    lemma_byte_from_bits(byte);
}

/// Where the bits of word `k` are found.
proof fn lemma_bits_of_word(cmd: u8, data: Seq<u8>, w: int, k: int)
    requires
        0 <= w <= k <= data.len(),
    ensures
        command_bits_from(cmd, data, w).len() == 9 * (data.len() + 1 - w),
        forall|j: int|
            0 <= j < 9 ==> command_bits_from(cmd, data, w)[9 * (k - w) + j] == #[trigger] word_of(
                cmd,
                data,
                k,
            )[j],
    decreases data.len() - w,
{
    let rest = command_bits_from(cmd, data, w + 1);
    if w < data.len() {
        lemma_bits_of_word(
            cmd,
            data,
            w + 1,
            if k > w {
                k
            } else {
                w + 1
            },
        );
    } else {
        assert(rest =~= Seq::empty());
    }
    assert forall|j: int| 0 <= j < 9 implies command_bits_from(cmd, data, w)[9 * (k - w) + j]
        == #[trigger] word_of(cmd, data, k)[j] by {
        if k > w {
            assert(9 * (k - w) + j - 9 == 9 * (k - (w + 1)) + j);
            assert(command_bits_from(cmd, data, w)[9 * (k - w) + j] == rest[9 * (k - (w + 1)) + j]);
        }
    }
}

/// A byte is the sum of its bits.
proof fn lemma_byte_from_bits(byte: u8)
    ensures
        byte == (if byte_bit(byte, 7) {
            128int
        } else {
            0
        }) + (if byte_bit(byte, 6) {
            64int
        } else {
            0
        }) + (if byte_bit(byte, 5) {
            32int
        } else {
            0
        }) + (if byte_bit(byte, 4) {
            16int
        } else {
            0
        }) + (if byte_bit(byte, 3) {
            8int
        } else {
            0
        }) + (if byte_bit(byte, 2) {
            4int
        } else {
            0
        }) + (if byte_bit(byte, 1) {
            2int
        } else {
            0
        }) + (if byte_bit(byte, 0) {
            1int
        } else {
            0
        }),
{
    assert(byte == 128 * ((byte >> 7u8) & 1) + 64 * ((byte >> 6u8) & 1) + 32 * ((byte >> 5u8) & 1)
        + 16 * ((byte >> 4u8) & 1) + 8 * ((byte >> 3u8) & 1) + 4 * ((byte >> 2u8) & 1) + 2 * ((byte
        >> 1u8) & 1) + ((byte >> 0u8) & 1)) by (bit_vector);
    assert(forall|n: u8| #[trigger] ((byte >> n) & 1) <= 1) by (bit_vector);
}

/// A sequence that is clocked out reaches the controller step by step,
/// unchanged and in order, without touching RST, and leaves the link
/// idle again. SDA never moves while SCK is high.
pub proof fn law_run_is_received(receiver: Receiver, sequence: Seq<Step>)
    requires
        receiver.idle(),
    ensures
        ({
            let after = receiver.after_all(run_actions(sequence));
            &&& after.idle()
            &&& after.commands == receiver.commands + received_steps(sequence)
            &&& after.rst == receiver.rst
            &&& after.clean == receiver.clean
            &&& after.elapsed_us == receiver.elapsed_us + run_us(sequence)
        }),
    decreases sequence.len(),
{
    if sequence.len() == 0 {
        assert(receiver.commands + received_steps(sequence) =~= receiver.commands);
    } else {
        let step = sequence[0];
        let rest = sequence.drop_first();
        lemma_after_parts(receiver, step_actions(step), run_actions(rest));
        lemma_after_parts(
            receiver,
            command_actions(step.cmd, step.data@),
            settle_actions(step.delay_ms),
        );
        law_command_is_received(receiver, step.cmd, step.data@);
        let sent = receiver.after_all(command_actions(step.cmd, step.data@));
        if step.delay_ms > 0 {
            lemma_after_one(sent, Action::DelayMs(step.delay_ms));
        }
        let next = receiver.after_all(step_actions(step));
        law_run_is_received(next, rest);
        assert(next.commands + received_steps(rest) =~= receiver.commands + received_steps(
            sequence,
        ));
    }
}

/// Every command of a sequence has its time: the first begins at once,
/// each takes 27 microseconds per word, and between its end and the
/// beginning of the next, or the end of the run, lies its own settling
/// delay and nothing else.
pub proof fn law_run_keeps_time(receiver: Receiver, sequence: Seq<Step>)
    requires
        receiver.idle(),
    ensures
        ({
            let after = receiver.after_all(run_actions(sequence));
            let n = sequence.len();
            let b = receiver.begun_us.len();
            let e = receiver.ended_us.len();
            &&& after.begun_us.len() == b + n
            &&& after.ended_us.len() == e + n
            &&& after.begun_us.take(b as int) == receiver.begun_us
            &&& after.ended_us.take(e as int) == receiver.ended_us
            &&& n > 0 ==> after.begun_us[b as int] == receiver.elapsed_us
            &&& forall|i: int|
                0 <= i < n ==> after.ended_us[e + i] - after.begun_us[b + i] == 27 * (1 + (
                #[trigger] sequence[i]).data@.len())
            &&& forall|i: int|
                0 <= i < n - 1 ==> after.begun_us[b + i + 1] - after.ended_us[e + i] == 1000 * (
                #[trigger] sequence[i]).delay_ms
            &&& n > 0 ==> after.elapsed_us - after.ended_us[e + n - 1] == 1000
                * sequence.last().delay_ms
            &&& receiver.ready() ==> after.ready() && after.timed == receiver.timed
        }),
    decreases sequence.len(),
{
    let after = receiver.after_all(run_actions(sequence));
    let b = receiver.begun_us.len() as int;
    let e = receiver.ended_us.len() as int;
    if sequence.len() > 0 {
        let step = sequence[0];
        let rest = sequence.drop_first();
        lemma_after_parts(receiver, step_actions(step), run_actions(rest));
        lemma_after_parts(
            receiver,
            command_actions(step.cmd, step.data@),
            settle_actions(step.delay_ms),
        );
        law_command_is_received(receiver, step.cmd, step.data@);
        let sent = receiver.after_all(command_actions(step.cmd, step.data@));
        if step.delay_ms > 0 {
            lemma_after_one(sent, Action::DelayMs(step.delay_ms));
        }
        let next = receiver.after_all(step_actions(step));
        law_run_keeps_time(next, rest);
        assert(after.begun_us[b] == after.begun_us.take(b + 1)[b]);
        assert(after.ended_us[e] == after.ended_us.take(e + 1)[e]);
        assert(after.begun_us.take(b) =~= after.begun_us.take(b + 1).take(b));
        assert(next.begun_us.take(b) =~= receiver.begun_us);
        assert(after.ended_us.take(e) =~= after.ended_us.take(e + 1).take(e));
        assert(next.ended_us.take(e) =~= receiver.ended_us);
        assert forall|i: int| 0 <= i < sequence.len() implies after.ended_us[e + i]
            - after.begun_us[b + i] == 27 * (1 + (#[trigger] sequence[i]).data@.len()) by {
            if i > 0 {
                assert(rest[i - 1] == sequence[i]);
                assert(e + 1 + (i - 1) == e + i && b + 1 + (i - 1) == b + i);
            }
        }
        assert forall|i: int| 0 <= i < sequence.len() - 1 implies after.begun_us[b + i + 1]
            - after.ended_us[e + i] == 1000 * (#[trigger] sequence[i]).delay_ms by {
            if i > 0 {
                assert(rest[i - 1] == sequence[i]);
                assert(e + 1 + (i - 1) == e + i && b + 1 + (i - 1) + 1 == b + i + 1);
            }
        }
        if rest.len() > 0 {
            assert(rest.last() == sequence.last());
        }
    } else {
        assert(after.begun_us.take(b) =~= receiver.begun_us);
        assert(after.ended_us.take(e) =~= receiver.ended_us);
    }
}

/// What the controller receives of a sequence takes apart into the given
/// steps: command `i` since the start is the command byte of step `i`,
/// flagged as such, and then its parameters, flagged as data.
pub proof fn law_run_decodes(receiver: Receiver, sequence: Seq<Step>, i: int, w: int)
    requires
        receiver.idle(),
        0 <= i < sequence.len(),
        0 <= w <= sequence[i].data@.len(),
    ensures
        ({
            let after = receiver.after_all(run_actions(sequence));
            let bits = after.commands[receiver.commands.len() + i];
            &&& after.commands.len() == receiver.commands.len() + sequence.len()
            &&& bits.len() == 9 * (1 + sequence[i].data@.len())
            &&& bits[9 * w] == (w > 0)
            &&& received_byte(bits, w) == (if w == 0 {
                sequence[i].cmd
            } else {
                sequence[i].data@[w - 1]
            })
        }),
{
    law_run_is_received(receiver, sequence);
    law_command_decodes(sequence[i].cmd, sequence[i].data@, w);
    let after = receiver.after_all(run_actions(sequence));
    assert(after.commands[receiver.commands.len() + i] == received_steps(sequence)[i]);
}

/// A command takes two moves of CS and six actions for each bit, and not
/// one more.
pub proof fn law_command_length(cmd: u8, data: Seq<u8>)
    ensures
        command_actions(cmd, data).len() == 2 + 54 * (1 + data.len()),
{
    lemma_words_length(cmd, data, 0);
}

/// A step is its command and, if it has one, a single delay.
pub proof fn law_step_length(step: Step)
    ensures
        step_actions(step).len() == 2 + 54 * (1 + step.data@.len()) + (if step.delay_ms > 0 {
            1int
        } else {
            0
        }),
{
    law_command_length(step.cmd, step.data@);
}

/// The length of some words.
proof fn lemma_words_length(cmd: u8, data: Seq<u8>, w: int)
    requires
        0 <= w <= data.len() + 1,
    ensures
        words_actions(cmd, data, w).len() == 54 * (data.len() + 1 - w),
    decreases data.len() + 1 - w,
{
    if w <= data.len() {
        lemma_bits_length(word_of(cmd, data, w));
        lemma_words_length(cmd, data, w + 1);
    }
}

/// The length of some bits.
proof fn lemma_bits_length(bits: Seq<bool>)
    ensures
        bits_actions(bits).len() == 6 * bits.len(),
    decreases bits.len(),
{
    if bits.len() > 0 {
        lemma_bits_length(bits.drop_first());
    }
}

/// Whatever state the link is in, init makes the controller forget it,
/// releases the reset, and tells it exactly the given sequence.
pub proof fn law_init_is_received(receiver: Receiver, sequence: Seq<Step>)
    ensures
        ({
            let after = receiver.after_all(reset_actions() + run_actions(sequence));
            &&& after.idle()
            &&& after.rst
            &&& after.commands == received_steps(sequence)
            &&& after.clean == receiver.clean
            &&& after.elapsed_us == receiver.elapsed_us + 130_000 + run_us(sequence)
        }),
{
    lemma_after_parts(receiver, reset_actions(), run_actions(sequence));
    law_reset_idles_link(receiver);
    let fresh = receiver.after_all(reset_actions());
    law_run_is_received(fresh, sequence);
    assert(fresh.commands + received_steps(sequence) =~= received_steps(sequence));
}

/// A reset pulses RST low for 10 ms, gives the controller 120 ms to come
/// up, and leaves the link idle with SDA low.
pub proof fn law_reset_idles_link(receiver: Receiver)
    ensures
        ({
            let after = receiver.after_all(reset_actions());
            &&& after.idle()
            &&& !after.sda
            &&& after.rst
            &&& after.bits == Seq::<bool>::empty()
            &&& after.commands == Seq::<Seq<bool>>::empty()
            &&& after.clean == receiver.clean
            &&& after.elapsed_us == receiver.elapsed_us + 130_000
            &&& after.pulse_us == 10_000
            &&& after.elapsed_us - after.rst_us == 120_000
            &&& after.begun_us == Seq::<int>::empty()
            &&& after.ended_us == Seq::<int>::empty()
            &&& after.timed
            &&& after.sck_us <= receiver.elapsed_us || after.sck_us == receiver.sck_us
        }),
{
    let a = reset_actions();
    reveal_with_fuel(Receiver::after_all, 8);
    let r1 = receiver.after(a[0]);
    let r2 = r1.after(a[1]);
    let r3 = r2.after(a[2]);
    let r4 = r3.after(a[3]);
    let r5 = r4.after(a[4]);
    let r6 = r5.after(a[5]);
    let r7 = r6.after(a[6]);
    assert(receiver.after_all(a) == r7);
}

/// Init keeps its time as well: RST is low for 10 ms, the first command
/// begins 120 ms after it rises, and each command is given its own
/// settling delay before the next begins. Everything on the link is given
/// a microsecond, provided that the record of the last clock edge does
/// not lie in the future.
pub proof fn law_init_keeps_time(receiver: Receiver, sequence: Seq<Step>)
    requires
        receiver.sck_us <= receiver.elapsed_us,
    ensures
        ({
            let after = receiver.after_all(reset_actions() + run_actions(sequence));
            let n = sequence.len();
            &&& after.timed
            &&& after.begun_us.len() == n && after.ended_us.len() == n
            &&& n > 0 ==> after.begun_us[0] == receiver.elapsed_us + 130_000
            &&& forall|i: int|
                0 <= i < n ==> after.ended_us[i] - after.begun_us[i] == 27 * (1 + (
                #[trigger] sequence[i]).data@.len())
            &&& forall|i: int|
                0 <= i < n - 1 ==> after.begun_us[i + 1] - after.ended_us[i] == 1000 * (
                #[trigger] sequence[i]).delay_ms
            &&& n > 0 ==> after.elapsed_us - after.ended_us[n - 1] == 1000
                * sequence.last().delay_ms
        }),
{
    lemma_after_parts(receiver, reset_actions(), run_actions(sequence));
    law_reset_idles_link(receiver);
    let fresh = receiver.after_all(reset_actions());
    law_run_keeps_time(fresh, sequence);
    let after = receiver.after_all(reset_actions() + run_actions(sequence));
    assert forall|i: int| 0 <= i < sequence.len() implies after.ended_us[i] - after.begun_us[i]
        == 27 * (1 + (#[trigger] sequence[i]).data@.len()) by {
        assert(0 + i == i);
    }
    assert forall|i: int| 0 <= i < sequence.len() - 1 implies after.begun_us[i + 1]
        - after.ended_us[i] == 1000 * (#[trigger] sequence[i]).delay_ms by {
        assert(0 + i + 1 == i + 1);
    }
}

/// Sequences may be clocked out in parts.
pub proof fn law_run_in_parts(one: Seq<Step>, two: Seq<Step>)
    ensures
        run_actions(one + two) == run_actions(one) + run_actions(two),
    decreases one.len(),
{
    if one.len() == 0 {
        assert(one + two =~= two);
        assert(run_actions(one) + run_actions(two) =~= run_actions(two));
    } else {
        law_run_in_parts(one.drop_first(), two);
        assert((one + two).drop_first() =~= one.drop_first() + two);
        assert(run_actions(one + two) =~= run_actions(one) + run_actions(two));
    }
}

} // verus!
