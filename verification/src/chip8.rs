//! The executable CHIP-8 machine.
//!
//! `Chip8` holds the concrete machine state; its abstract value (via
//! [`View`]) is a [`State`], and every mutating operation is specified as a
//! transition on that abstract value, using the spec functions of
//! [`crate::state`].
use vstd::prelude::*;

use crate::chip::{Chip8Error, LoadProgramError};
use crate::constants::{
    chip8_charset, charset_seq, CHIP8_CHARSET_LEN, CHIP8_CHARSET_OFFSET, CHIP8_MAX_PROGRAM_SIZE,
    CHIP8_MEMORY_SIZE, CHIP8_PROGRAM_OFFSET, CHIP8_TIMER_RESOLUTION,
};
use crate::state::{init_memory, init_state, load_memory, spec_cycle, spec_tick, State};

verus! {

/// A CHIP-8 machine.
///
/// The fields are public so that a host (or a test) can inspect the machine
/// and wire its pins; every verified operation requires and preserves
/// [`Chip8::wf`].
pub struct Chip8 {
    /// 4096 bytes of main memory.
    pub memory: Vec<u8>,
    /// 16 registers where each can store one byte.
    pub registers: Vec<u8>,
    /// The index register.
    pub index: u16,
    /// The program counter.
    pub program_counter: u16,
    /// The output pins. Those are usually directly wired up to the pixels of
    /// a display; the core itself only ever sets and clears them.
    pub output_pins: Vec<bool>,
    /// The delay timer, decremented every tenth cycle.
    pub delay_timer: u8,
    /// The sound timer, decremented every tenth cycle.
    pub sound_timer: u8,
    /// The call stack, holding return addresses only.
    pub stack: Vec<u16>,
    /// The number of occupied stack entries.
    pub stack_pointer: u8,
    /// The input pins. Those are usually directly wired up to keys; the core
    /// only ever reads them.
    pub input_pins: Vec<bool>,
    /// Set whenever an instruction changes the output pins, so that a host
    /// knows when to redraw; the host clears it.
    pub draw: bool,
    /// Cycles executed since the timers were last decremented.
    pub cycles_since_timer_dec: u8,
}

impl View for Chip8 {
    type V = State;

    open spec fn view(&self) -> State {
        State {
            memory: self.memory@,
            registers: self.registers@,
            index: self.index,
            program_counter: self.program_counter,
            output_pins: self.output_pins@,
            delay_timer: self.delay_timer,
            sound_timer: self.sound_timer,
            stack: self.stack@,
            stack_pointer: self.stack_pointer,
            input_pins: self.input_pins@,
            draw: self.draw,
            cycles_since_timer_dec: self.cycles_since_timer_dec,
        }
    }
}

/// A vector holding `len` copies of `value`.
fn filled<T: Copy>(len: usize, value: T) -> (r: Vec<T>)
    ensures
        r@ == Seq::new(len as nat, |i: int| value),
{
    let mut r: Vec<T> = Vec::new();
    let mut i: usize = 0;
    while i < len
        invariant
            i <= len,
            r@ =~= Seq::new(i as nat, |j: int| value),
        decreases len - i,
    {
        r.push(value);
        i = i + 1;
        proof {
            assert(r@ =~= Seq::new(i as nat, |j: int| value));
        }
    }
    proof {
        assert(r@ =~= Seq::new(len as nat, |j: int| value));
    }
    r
}

impl Chip8 {
    /// Well-formedness of the machine: its abstract state is well-formed.
    pub open spec fn wf(&self) -> bool {
        self@.wf()
    }

    /// Constructs a new CHIP-8 and appropriately initializes all fields so
    /// that it is ready for the first execution cycle: the program counter
    /// points at the program offset and the character font is preloaded.
    /// No program is loaded upon initialization.
    pub fn new() -> (r: Chip8)
        ensures
            r.wf(),
            r@ == init_state(),
    {
        let charset = chip8_charset();
        let mut memory = filled::<u8>(CHIP8_MEMORY_SIZE as usize, 0u8);
        let mut i: usize = 0;
        while i < CHIP8_CHARSET_LEN as usize
            invariant
                i <= CHIP8_CHARSET_LEN,
                charset@ == charset_seq(),
                memory@.len() == CHIP8_MEMORY_SIZE,
                forall|j: int|
                    CHIP8_CHARSET_OFFSET <= j < CHIP8_CHARSET_OFFSET + i ==> memory@[j]
                        == charset_at_mem(j),
                forall|j: int|
                    0 <= j < CHIP8_MEMORY_SIZE && !(CHIP8_CHARSET_OFFSET <= j
                        < CHIP8_CHARSET_OFFSET + i) ==> memory@[j] == 0u8,
            decreases CHIP8_CHARSET_LEN - i,
        {
            memory[CHIP8_CHARSET_OFFSET as usize + i] = charset[i];
            i = i + 1;
        }
        proof {
            assert forall|j: int| 0 <= j < CHIP8_MEMORY_SIZE implies memory@[j]
                == init_memory()[j] by {
                if CHIP8_CHARSET_OFFSET <= j < CHIP8_CHARSET_OFFSET + CHIP8_CHARSET_LEN {
                    assert(memory@[j] == charset_at_mem(j));
                } else {
                    assert(memory@[j] == 0u8);
                }
            }
            assert(memory@ =~= init_memory());
        }
        let r = Chip8 {
            memory,
            registers: filled::<u8>(16, 0u8),
            index: 0,
            program_counter: CHIP8_PROGRAM_OFFSET,
            output_pins: filled::<bool>(64 * 32, false),
            delay_timer: 0,
            sound_timer: 0,
            stack: filled::<u16>(16, 0u16),
            stack_pointer: 0,
            input_pins: filled::<bool>(16, false),
            draw: false,
            cycles_since_timer_dec: 0,
        };
        proof {
            assert(r@ =~= init_state());
        }
        r
    }

    /// Fetches the next instruction from the two memory bytes at the current
    /// program counter.
    pub fn next_instruction(&self) -> (r: crate::opcodes::Opcode)
        requires
            self.wf(),
            self.program_counter <= CHIP8_MEMORY_SIZE - 2,
        ensures
            r.wf(),
            r.decodes(
                self@.memory[self@.program_counter as int],
                self@.memory[self@.program_counter + 1],
            ),
    {
        crate::opcodes::Opcode::new(
            &[
                self.memory[self.program_counter as usize],
                self.memory[self.program_counter as usize + 1],
            ],
        )
    }

    /// Performs one execution cycle: fetch the instruction at the program
    /// counter, execute it, then run the timer subsystem. On success the
    /// machine performs exactly the transition of [`spec_cycle`] for some
    /// random byte (and for every random byte, unless the fetched
    /// instruction is RND); on an error the machine is untouched and the
    /// same error is what [`spec_cycle`] assigns to it, whatever the random
    /// byte.
    pub fn cycle(&mut self) -> (r: Result<(), Chip8Error>)
        requires
            old(self).wf(),
        ensures
            final(self).wf(),
            match r {
                Ok(()) => exists|b: u8|
                    spec_cycle(old(self)@, b) == Ok::<State, Chip8Error>(final(self)@),
                Err(e) => final(self)@ == old(self)@ && forall|b: u8|
                    spec_cycle(old(self)@, b) == Err::<State, Chip8Error>(e),
            },
    {
        if self.program_counter > CHIP8_MEMORY_SIZE - 2 {
            return Err(Chip8Error::InvalidProgramCounter);
        }
        let opcode = self.next_instruction();
        let executed = opcode.execute(self);
        match executed {
            Ok(()) => {}
            Err(e) => {
                proof {
                    assert forall|b: u8| spec_cycle(old(self)@, b) == Err::<State, Chip8Error>(
                        e,
                    ) by {
                        assert(opcode.spec_execute_on(old(self)@, b) == Err::<State, Chip8Error>(
                            e,
                        ));
                    }
                }
                return Err(e);
            }
        }
        let ghost mid: State = self@;
        self.cycles_since_timer_dec = self.cycles_since_timer_dec + 1;
        if self.cycles_since_timer_dec == CHIP8_TIMER_RESOLUTION {
            if self.delay_timer > 0 {
                self.delay_timer = self.delay_timer - 1;
            }
            if self.sound_timer > 0 {
                self.sound_timer = self.sound_timer - 1;
            }
            self.cycles_since_timer_dec = 0;
        }
        proof {
            assert(self@ == spec_tick(mid));
            let b = choose|b: u8|
                opcode.spec_execute_on(old(self)@, b) == Ok::<State, Chip8Error>(mid);
            assert(spec_cycle(old(self)@, b) == Ok::<State, Chip8Error>(self@));
        }
        Ok(())
    }

    /// Sets a memory byte.
    pub fn set_memory_byte(&mut self, byte: u8, index: u16)
        requires
            old(self).wf(),
            index < CHIP8_MEMORY_SIZE,
        ensures
            final(self).wf(),
            final(self)@ == (State { memory: old(self)@.memory.update(index as int, byte), ..old(
                self,
            )@ }),
    {
        self.memory[index as usize] = byte;
    }

    /// Convenience method to load a program from a slice; the program must
    /// fit into the memory region reserved for programs.
    pub fn load_program_bytes(&mut self, program: &[u8])
        requires
            old(self).wf(),
            program@.len() <= CHIP8_MAX_PROGRAM_SIZE,
        ensures
            final(self).wf(),
            final(self)@ == (State {
                memory: load_memory(old(self)@.memory, program@),
                ..old(self)@
            }),
    {
        let ghost orig: State = self@;
        let mut i: usize = 0;
        while i < program.len()
            invariant
                orig.wf(),
                i <= program@.len() <= CHIP8_MAX_PROGRAM_SIZE,
                self@ == (State { memory: self@.memory, ..orig }),
                self@.memory.len() == CHIP8_MEMORY_SIZE,
                forall|j: int|
                    CHIP8_PROGRAM_OFFSET <= j < CHIP8_PROGRAM_OFFSET + i ==> self@.memory[j]
                        == program@[j - CHIP8_PROGRAM_OFFSET],
                forall|j: int|
                    0 <= j < CHIP8_MEMORY_SIZE && !(CHIP8_PROGRAM_OFFSET <= j
                        < CHIP8_PROGRAM_OFFSET + i) ==> self@.memory[j] == orig.memory[j],
            decreases program@.len() - i,
        {
            self.set_memory_byte(program[i], CHIP8_PROGRAM_OFFSET + i as u16);
            i = i + 1;
        }
        proof {
            assert(self@.memory =~= load_memory(orig.memory, program@));
            assert(self@ =~= (State { memory: load_memory(orig.memory, program@), ..orig }));
        }
    }

    /// Loads the program image `bytes` into memory at the program offset.
    /// An image larger than the program region is rejected before any memory
    /// is touched, so the load is all-or-nothing.
    pub fn load_program(&mut self, bytes: &[u8]) -> (r: Result<(), LoadProgramError>)
        requires
            old(self).wf(),
        ensures
            final(self).wf(),
            match r {
                Ok(()) => bytes@.len() <= CHIP8_MAX_PROGRAM_SIZE && final(self)@ == (State {
                    memory: load_memory(old(self)@.memory, bytes@),
                    ..old(self)@
                }),
                Err(LoadProgramError::ProgramTooLarge(n)) => n == bytes@.len() && bytes@.len()
                    > CHIP8_MAX_PROGRAM_SIZE && final(self)@ == old(self)@,
            },
    {
        if bytes.len() > CHIP8_MAX_PROGRAM_SIZE as usize {
            return Err(LoadProgramError::ProgramTooLarge(bytes.len()));
        }
        self.load_program_bytes(bytes);
        Ok(())
    }

    /// Returns the current state of the output pins: the framebuffer,
    /// row-major, 64 wide by 32 tall.
    pub fn read_output_pins(&self) -> (r: &[bool])
        ensures
            r@ == self@.output_pins,
    {
        self.output_pins.as_slice()
    }

    /// Sets the input pin `pin` to `value`.
    pub fn set_input_pin(&mut self, pin: u8, value: bool)
        requires
            old(self).wf(),
            pin < 16,
        ensures
            final(self).wf(),
            final(self)@ == (State {
                input_pins: old(self)@.input_pins.update(pin as int, value),
                ..old(self)@
            }),
    {
        self.input_pins[pin as usize] = value;
    }

    /// Resets all input pins.
    pub fn reset_input_pins(&mut self)
        requires
            old(self).wf(),
        ensures
            final(self).wf(),
            final(self)@ == (State {
                input_pins: Seq::new(16, |i: int| false),
                ..old(self)@
            }),
    {
        let mut i: usize = 0;
        while i < 16
            invariant
                old(self).wf(),
                i <= 16,
                self@ == (State { input_pins: self@.input_pins, ..old(self)@ }),
                self@.input_pins.len() == 16,
                forall|j: int| 0 <= j < i ==> !self@.input_pins[j],
            decreases 16 - i,
        {
            self.input_pins[i] = false;
            i = i + 1;
        }
        proof {
            assert(self@.input_pins =~= Seq::new(16, |i: int| false));
            assert(self@ =~= (State {
                input_pins: Seq::new(16, |i: int| false),
                ..old(self)@
            }));
        }
    }
}

impl Chip8 {
    /// A display snapshot of the current framebuffer.
    pub fn get_display(&self) -> (r: Display)
        ensures
            r.pixels@ == self@.output_pins,
    {
        let pixels = self.output_pins.clone();
        proof {
            assert(pixels@ =~= self@.output_pins);
        }
        Display::new(pixels)
    }
}

impl crate::chip::Chip for Chip8 {
    /// The CHIP-8's pins can actually be addressed by using just half a
    /// byte. However, we use a whole byte here and restrict its range,
    /// because it is more convenient to handle.
    type PinAddress = u8;

    /// A CHIP-8 memory address is in the range between 0 and 4096
    /// (exclusive), represented as a u16.
    type MemoryAddress = u16;

    type Error = Chip8Error;

    open spec fn well_formed(&self) -> bool {
        self.wf()
    }

    open spec fn load_program_post(
        &self,
        pre: Chip8,
        bytes: Seq<u8>,
        r: Result<(), LoadProgramError>,
    ) -> bool {
        match r {
            Ok(()) => bytes.len() <= CHIP8_MAX_PROGRAM_SIZE && self@ == (State {
                memory: load_memory(pre@.memory, bytes),
                ..pre@
            }),
            Err(LoadProgramError::ProgramTooLarge(n)) => n == bytes.len() && bytes.len()
                > CHIP8_MAX_PROGRAM_SIZE && self@ == pre@,
        }
    }

    open spec fn cycle_post(&self, pre: Chip8, r: Result<(), Chip8Error>) -> bool {
        match r {
            Ok(()) => exists|b: u8| spec_cycle(pre@, b) == Ok::<State, Chip8Error>(self@),
            Err(e) => self@ == pre@ && forall|b: u8|
                spec_cycle(pre@, b) == Err::<State, Chip8Error>(e),
        }
    }

    open spec fn read_output_pins_post(&self, pins: Seq<bool>) -> bool {
        pins == self@.output_pins
    }

    open spec fn set_input_pin_req(&self, pin: u8) -> bool {
        pin < 16
    }

    open spec fn set_input_pin_post(&self, pre: Chip8, pin: u8, value: bool) -> bool {
        self@ == (State { input_pins: pre@.input_pins.update(pin as int, value), ..pre@ })
    }

    open spec fn reset_input_pins_post(&self, pre: Chip8) -> bool {
        self@ == (State { input_pins: Seq::new(16, |i: int| false), ..pre@ })
    }

    fn load_program(&mut self, bytes: &[u8]) -> (r: Result<(), LoadProgramError>) {
        Chip8::load_program(self, bytes)
    }

    fn cycle(&mut self) -> (r: Result<(), Chip8Error>) {
        Chip8::cycle(self)
    }

    fn read_output_pins(&self) -> (r: &[bool]) {
        Chip8::read_output_pins(self)
    }

    fn set_input_pin(&mut self, pin: u8, value: bool) {
        Chip8::set_input_pin(self, pin, value)
    }

    fn reset_input_pins(&mut self) {
        Chip8::reset_input_pins(self)
    }
}

impl Default for Chip8 {
    /// The freshly constructed machine.
    fn default() -> (r: Chip8)
        ensures
            r.wf(),
            r@ == init_state(),
    {
        Chip8::new()
    }
}

impl Default for Display {
    /// A blank display.
    fn default() -> (r: Display)
        ensures
            r.pixels@ == Seq::new((64 * 32) as nat, |i: int| false),
    {
        Display::new(filled::<bool>(64 * 32, false))
    }
}

/// Byte `j` of the initial memory inside the font region, phrased in memory
/// coordinates.
spec fn charset_at_mem(j: int) -> u8 {
    charset_seq()[j - CHIP8_CHARSET_OFFSET]
}

/// A snapshot of the framebuffer, handed to whatever renders it.
pub struct Display {
    /// The pixel values, row-major, 64 wide by 32 tall.
    pub pixels: Vec<bool>,
}

impl Display {
    /// Creates a new display snapshot from a pixel vector.
    pub fn new(pixels: Vec<bool>) -> (r: Display)
        ensures
            r.pixels@ == pixels@,
    {
        Display { pixels }
    }
}

} // verus!
