//! Read-modify-write controller for the PCA9554 I/O expander.
//!
//! The expander's pins have several owners. A driver that caches the
//! output register and writes the whole byte would let them clobber each
//! other, so every change of a pin reads the register afresh, modifies
//! one bit and writes the byte back. Whoever owns the bus performs the
//! two transactions, with nothing in between.

use vstd::prelude::*;

verus! {

/// Output port register.
pub const REG_OUTPUT_PORT: u8 = 0x01;

/// Configuration register: a cleared bit makes a pin an output.
pub const REG_CONFIGURATION: u8 = 0x03;

/// Controller errors.
#[derive(Debug, Clone, Copy, PartialEq, Eq, Structural)]
pub enum Error {
    /// The bus transaction failed.
    Bus,
}

/// Whether bit `n` of a register is set.
pub open spec fn register_bit(value: u8, n: u8) -> bool {
    (value >> n) & 1 == 1
}

/// A register with bit `bit` set or cleared.
pub open spec fn with_bit(value: u8, bit: u8, set: bool) -> u8 {
    if set {
        value | (1u8 << bit)
    } else {
        value & !(1u8 << bit)
    }
}

/// A read-modify-write of one register bit, before the read: one byte of
/// `register` is to be read from the chip at `addr`.
#[derive(Debug, Clone, Copy, PartialEq, Eq, Structural)]
pub struct BitUpdate {
    /// Bus address of the chip.
    pub addr: u8,
    /// The register.
    pub register: u8,
    /// The bit to change.
    pub bit: u8,
    /// Whether to set or to clear it.
    pub set: bool,
}

/// A read-modify-write of one register bit, before the write: `register`
/// and `value` are to be written to the chip at `addr`, in this order.
#[derive(Debug, Clone, Copy, PartialEq, Eq, Structural)]
pub struct WriteBack {
    /// Bus address of the chip.
    pub addr: u8,
    /// The register.
    pub register: u8,
    /// Its new value.
    pub value: u8,
}

impl BitUpdate {
    /// What is written back to a register that was read as `value`.
    pub open spec fn write_back(self, value: u8) -> WriteBack {
        WriteBack {
            addr: self.addr,
            register: self.register,
            value: with_bit(value, self.bit, self.set),
        }
    }

    /// Go on with what the read brought: the value to write back, or the
    /// end of it if the read failed.
    pub fn modify<E>(self, read: Result<u8, E>) -> (next: Result<WriteBack, Error>)
        requires
            self.bit < 8,
        ensures
            next == (match read {
                Ok(value) => Ok(
                    WriteBack {
                        addr: self.addr,
                        register: self.register,
                        value: with_bit(value, self.bit, self.set),
                    },
                ),
                Err(_) => Err(Error::Bus),
            }),
            read matches Ok(value) ==> next == Ok::<WriteBack, Error>(self.write_back(value)),
    {
        match read {
            Ok(value) => {
                let new = if self.set {
                    value | (1u8 << self.bit)
                } else {
                    value & !(1u8 << self.bit)
                };
                Ok(WriteBack { addr: self.addr, register: self.register, value: new })
            },
            Err(_) => Err(Error::Bus),
        }
    }
}

impl WriteBack {
    /// Finish with what the write brought.
    pub fn finish<E>(self, written: Result<(), E>) -> (result: Result<(), Error>)
        ensures
            result == (match written {
                Ok(_) => Ok::<(), Error>(()),
                Err(_) => Err::<(), Error>(Error::Bus),
            }),
    {
        match written {
            Ok(_) => Ok(()),
            Err(_) => Err(Error::Bus),
        }
    }
}

/// Stateless PCA9554 controller.
#[derive(Debug, Clone, Copy, PartialEq, Eq, Structural)]
pub struct Pca9554Controller {
    /// Bus address of the chip.
    pub addr: u8,
}

impl Pca9554Controller {
    /// The update that drives a pin.
    pub open spec fn output_update(self, bit: u8, high: bool) -> BitUpdate {
        BitUpdate { addr: self.addr, register: REG_OUTPUT_PORT, bit, set: high }
    }

    /// The update that makes a pin an output or an input.
    pub open spec fn direction_update(self, bit: u8, output: bool) -> BitUpdate {
        BitUpdate { addr: self.addr, register: REG_CONFIGURATION, bit, set: !output }
    }

    /// A controller for the chip at `addr`.
    pub fn new(addr: u8) -> (controller: Self)
        ensures
            controller == (Pca9554Controller { addr }),
    {
        Pca9554Controller { addr }
    }

    /// Set or clear bit `bit` of the output port register. The pin has to
    /// have been made an output before.
    pub fn set_output(&self, bit: u8, high: bool) -> (update: BitUpdate)
        requires
            bit < 8,
        ensures
            update == (BitUpdate { addr: self.addr, register: REG_OUTPUT_PORT, bit, set: high }),
            update == self.output_update(bit, high),
    {
        BitUpdate { addr: self.addr, register: REG_OUTPUT_PORT, bit, set: high }
    }

    /// Make the pin of bit `bit` an output or an input. Outputs have
    /// their bit cleared in the configuration register.
    pub fn set_direction(&self, bit: u8, output: bool) -> (update: BitUpdate)
        requires
            bit < 8,
        ensures
            update == (BitUpdate {
                addr: self.addr,
                register: REG_CONFIGURATION,
                bit,
                set: !output,
            }),
            update == self.direction_update(bit, output),
    {
        BitUpdate { addr: self.addr, register: REG_CONFIGURATION, bit, set: !output }
    }
}

/// An update gives its bit the value it asks for and leaves every other
/// bit as it was.
pub proof fn law_one_bit_changes(value: u8, bit: u8, set: bool, n: u8)
    requires
        bit < 8,
        n < 8,
    ensures
        register_bit(with_bit(value, bit, set), n) == (if n == bit {
            set
        } else {
            register_bit(value, n)
        }),
{
    assert(((value | (1u8 << bit)) >> n) & 1 == (if n == bit {
        1u8
    } else {
        (value >> n) & 1
    })) by (bit_vector)
        requires
            bit < 8,
            n < 8,
    ;
    assert(((value & !(1u8 << bit)) >> n) & 1 == (if n == bit {
        0u8
    } else {
        (value >> n) & 1
    })) by (bit_vector)
        requires
            bit < 8,
            n < 8,
    ;
}

/// Owners of different pins do not get in each other's way: the order of
/// their updates does not matter, and neither undoes the other.
pub proof fn law_owners_do_not_clobber(value: u8, one: u8, high_one: bool, two: u8, high_two: bool)
    requires
        one < 8,
        two < 8,
        one != two,
    ensures
        with_bit(with_bit(value, one, high_one), two, high_two) == with_bit(
            with_bit(value, two, high_two),
            one,
            high_one,
        ),
        register_bit(with_bit(with_bit(value, one, high_one), two, high_two), one) == high_one,
        register_bit(with_bit(with_bit(value, one, high_one), two, high_two), two) == high_two,
{
    law_one_bit_changes(with_bit(value, one, high_one), two, high_two, one);
    law_one_bit_changes(with_bit(value, one, high_one), two, high_two, two);
    law_one_bit_changes(value, one, high_one, one);
    assert((value | (1u8 << one)) | (1u8 << two) == (value | (1u8 << two)) | (1u8 << one))
        by (bit_vector);
    assert((value & !(1u8 << one)) & !(1u8 << two) == (value & !(1u8 << two)) & !(1u8 << one))
        by (bit_vector);
    assert((value | (1u8 << one)) & !(1u8 << two) == (value & !(1u8 << two)) | (1u8 << one) && (
    value & !(1u8 << one)) | (1u8 << two) == (value | (1u8 << two)) & !(1u8 << one)) by (bit_vector)
        requires
            one < 8,
            two < 8,
            one != two,
    ;
}

/// The last update of a bit wins, and doing it twice changes nothing
/// more.
pub proof fn law_last_update_wins(value: u8, bit: u8, first: bool, last: bool)
    requires
        bit < 8,
    ensures
        with_bit(with_bit(value, bit, first), bit, last) == with_bit(value, bit, last),
{
    assert((value & !(1u8 << bit)) | (1u8 << bit) == value | (1u8 << bit) && (value | (1u8 << bit))
        & !(1u8 << bit) == value & !(1u8 << bit) && (value | (1u8 << bit)) | (1u8 << bit) == value
        | (1u8 << bit) && (value & !(1u8 << bit)) & !(1u8 << bit) == value & !(1u8 << bit))
        by (bit_vector);
}

/// The expander itself: its output port is register 1, its configuration
/// register 3.
pub struct Chip {
    /// Bus address.
    pub addr: u8,
    /// Output port register.
    pub output: u8,
    /// Configuration register.
    pub configuration: u8,
}

impl Chip {
    /// What a read of a register brings, if there is one here.
    pub open spec fn read(self, addr: u8, register: u8) -> Option<u8> {
        if addr == self.addr && register == 1 {
            Some(self.output)
        } else if addr == self.addr && register == 3 {
            Some(self.configuration)
        } else {
            None
        }
    }

    /// The chip after a write to one of its registers.
    pub open spec fn written(self, back: WriteBack) -> Chip {
        if back.addr == self.addr && back.register == 1 {
            Chip { output: back.value, ..self }
        } else if back.addr == self.addr && back.register == 3 {
            Chip { configuration: back.value, ..self }
        } else {
            self
        }
    }

    /// The chip after a whole read-modify-write.
    pub open spec fn performed(self, update: BitUpdate) -> Chip {
        match self.read(update.addr, update.register) {
            Some(value) => self.written(update.write_back(value)),
            None => self,
        }
    }

    /// The level that the chip drives on pin `n`: none on an input.
    pub open spec fn level(self, n: u8) -> Option<bool> {
        if register_bit(self.configuration, n) {
            None
        } else {
            Some(register_bit(self.output, n))
        }
    }
}

/// Setting an output drives the level on its pin if that is an output,
/// and takes effect later if it is not. No other pin changes, and no pin
/// changes direction.
pub proof fn law_output_drives_its_pin(
    chip: Chip,
    controller: Pca9554Controller,
    bit: u8,
    high: bool,
    n: u8,
)
    requires
        chip.addr == controller.addr,
        bit < 8,
        n < 8,
    ensures
        ({
            let after = chip.performed(controller.output_update(bit, high));
            &&& after.addr == chip.addr
            &&& after.configuration == chip.configuration
            &&& chip.level(bit) is Some ==> after.level(bit) == Some(high)
            &&& chip.level(bit) is None ==> after.level(bit) is None
            &&& register_bit(after.output, bit) == high
            &&& n != bit ==> after.level(n) == chip.level(n)
            &&& n != bit ==> register_bit(after.output, n) == register_bit(chip.output, n)
        }),
{
    law_one_bit_changes(chip.output, bit, high, bit);
    law_one_bit_changes(chip.output, bit, high, n);
}

/// Setting a direction makes a pin an output at the level that was set
/// for it before, or an input. No other pin changes, and no level that
/// was set is lost.
pub proof fn law_direction_turns_its_pin(
    chip: Chip,
    controller: Pca9554Controller,
    bit: u8,
    output: bool,
    n: u8,
)
    requires
        chip.addr == controller.addr,
        bit < 8,
        n < 8,
    ensures
        ({
            let after = chip.performed(controller.direction_update(bit, output));
            &&& after.addr == chip.addr
            &&& after.output == chip.output
            &&& output ==> after.level(bit) == Some(register_bit(chip.output, bit))
            &&& !output ==> after.level(bit) is None
            &&& n != bit ==> after.level(n) == chip.level(n)
        }),
{
    law_one_bit_changes(chip.configuration, bit, !output, bit);
    law_one_bit_changes(chip.configuration, bit, !output, n);
}

/// An update is no business of a chip at another address.
pub proof fn law_other_chips_are_left_alone(
    chip: Chip,
    controller: Pca9554Controller,
    bit: u8,
    set: bool,
)
    requires
        chip.addr != controller.addr,
    ensures
        chip.performed(controller.output_update(bit, set)) == chip,
        chip.performed(controller.direction_update(bit, set)) == chip,
{
}

} // verus!
