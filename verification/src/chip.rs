//! Error types shared by every chip of this crate, and the interface a chip
//! offers to its host.
use vstd::prelude::*;

verus! {

/// An error reported while loading a program image into a chip's memory.
#[derive(Debug, Clone, Copy, PartialEq, Eq, Structural)]
pub enum LoadProgramError {
    /// The program image does not fit into the memory region reserved for
    /// programs; the payload is the size of the rejected image in bytes.
    ProgramTooLarge(usize),
}

/// An error reported by one execution cycle.
///
/// A malformed program (an opcode outside the instruction set, stack misuse,
/// or an out-of-range operand) is reported to the host as a typed error, and
/// the machine state is left exactly as it was before the cycle, so that the
/// host can choose its own policy: halt, skip, or surface a diagnostic.
#[derive(Debug, Clone, Copy, PartialEq, Eq, Structural)]
pub enum Chip8Error {
    /// The fetched two-byte instruction does not decode to any instruction
    /// of the instruction set.
    UnknownOpcode,
    /// A call was executed while the call stack was already full.
    StackOverflow,
    /// A return was executed while the call stack was empty.
    StackUnderflow,
    /// A font-sprite lookup was executed with a character above 0xF.
    InvalidCharacterIndex,
    /// A key-driven skip was executed with a register value that does not
    /// address an input pin.
    InvalidInputPin,
    /// The program counter points so close to the end of memory that no
    /// two-byte instruction can be fetched from it.
    InvalidProgramCounter,
}

/// Represents a chip: the interface a host drives.
///
/// Each executable method comes with a specification hook (a `spec`
/// function) that the implementing chip fills in with the exact relation
/// between the states before and after the call, so that code generic over
/// a `Chip` works against the implementation's real contract.
pub trait Chip: Sized {
    /// The type used to address input pins.
    type PinAddress;

    /// The type used for memory addresses.
    type MemoryAddress;

    /// The type of the errors one execution cycle can report.
    type Error;

    /// Well-formedness: what every reachable state of the chip satisfies.
    spec fn well_formed(&self) -> bool;

    /// What a finished `load_program` call guarantees: `self` is the new
    /// state, `pre` the state before the call.
    spec fn load_program_post(
        &self,
        pre: Self,
        bytes: Seq<u8>,
        r: Result<(), LoadProgramError>,
    ) -> bool;

    /// What a finished `cycle` call guarantees.
    spec fn cycle_post(&self, pre: Self, r: Result<(), Self::Error>) -> bool;

    /// What the slice returned by `read_output_pins` holds.
    spec fn read_output_pins_post(&self, pins: Seq<bool>) -> bool;

    /// Which pin arguments `set_input_pin` accepts.
    spec fn set_input_pin_req(&self, pin: Self::PinAddress) -> bool;

    /// What a finished `set_input_pin` call guarantees.
    spec fn set_input_pin_post(&self, pre: Self, pin: Self::PinAddress, value: bool) -> bool;

    /// What a finished `reset_input_pins` call guarantees.
    spec fn reset_input_pins_post(&self, pre: Self) -> bool;

    /// Mutates self in that it loads the program from the given slice and
    /// stores it into the chip's memory.
    fn load_program(&mut self, bytes: &[u8]) -> (r: Result<(), LoadProgramError>)
        requires
            old(self).well_formed(),
        ensures
            final(self).well_formed(),
            final(self).load_program_post(*old(self), bytes@, r),
    ;

    /// Performs an execution cycle. It mutates self so that its state
    /// corresponds to the state after the execution cycle.
    fn cycle(&mut self) -> (r: Result<(), Self::Error>)
        requires
            old(self).well_formed(),
        ensures
            final(self).well_formed(),
            final(self).cycle_post(*old(self), r),
    ;

    /// Returns a slice representing the current state of the output pins.
    fn read_output_pins(&self) -> (r: &[bool])
        requires
            self.well_formed(),
        ensures
            self.read_output_pins_post(r@),
    ;

    /// Mutates self so that the input pin referenced by `pin` is set to
    /// `value` after calling this method.
    fn set_input_pin(&mut self, pin: Self::PinAddress, value: bool)
        requires
            old(self).well_formed(),
            old(self).set_input_pin_req(pin),
        ensures
            final(self).well_formed(),
            final(self).set_input_pin_post(*old(self), pin, value),
    ;

    /// Mutates self so that all input pins are reset after calling this
    /// method.
    fn reset_input_pins(&mut self)
        requires
            old(self).well_formed(),
        ensures
            final(self).well_formed(),
            final(self).reset_input_pins_post(*old(self)),
    ;
}

} // verus!
