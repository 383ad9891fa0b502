//! Decoding of opcodes and their execution.
//!
//! An [`Opcode`] is the result of the decode step: the instruction class
//! nibble and the three payload nibbles. Decoding is total; whether the
//! decoded combination is a real instruction is decided at dispatch time by
//! [`Opcode::execute`], which either performs exactly the transition written
//! down by [`crate::state::spec_execute`] or reports a typed error and
//! leaves the machine untouched.
use vstd::prelude::*;

use crate::chip::Chip8Error;
use crate::chip8::Chip8;
use crate::state::{
    alu_op_valid, alu_registers, dump_memory, high_nibble, indexed_addr, lemma_first_set_pin,
    lemma_no_set_pin, load_registers, low_nibble, payload_address, payload_value, pixel_pos,
    spec_add_imm, spec_add_index, spec_alu, spec_bcd, spec_call, spec_cls, spec_draw, spec_execute,
    spec_get_delay, spec_jump, spec_jump_v0, spec_load_font, spec_load_imm, spec_load_index,
    spec_misc, spec_random, spec_reg_dump, spec_reg_load, spec_ret, spec_set_delay, spec_set_sound,
    spec_skip_if, spec_skip_key, spec_skip_reg, spec_sys, spec_wait_key, sprite_bit, sprite_row,
    State,
};
use crate::draw::{
    changes_upto, collision_upto, hits_upto, lemma_no_prior_hit, lemma_upto_empty,
    lemma_upto_full, lemma_upto_row_end, lemma_upto_step,
};
use crate::util::{conditional_skip, increment_program_counter, lemma_skip_then_advance};

verus! {

/// Represents a CHIP-8 opcode: the class nibble and the payload.
pub struct Opcode {
    /// The instruction class: the most significant nibble of the opcode.
    pub instruction_class: u8,
    /// The payload: the remaining three nibbles of the opcode.
    pub payload: OpcodePayload,
}

/// Represents the payload of a CHIP-8 opcode: the opcode without its most
/// significant nibble, kept as three separate nibbles.
pub struct OpcodePayload {
    /// The three payload nibbles, most significant first. Each entry is a
    /// nibble, so its four most significant bits are zero.
    pub bytes: [u8; 3],
}

impl OpcodePayload {
    /// The payload nibbles really are nibbles.
    pub open spec fn wf(&self) -> bool {
        self.bytes@[0] < 16 && self.bytes@[1] < 16 && self.bytes@[2] < 16
    }

    /// Interprets the opcode payload as an address in the range 0x000 to
    /// 0xFFF (inclusive).
    pub fn address(&self) -> (r: u16)
        requires
            self.wf(),
        ensures
            r == payload_address(self.bytes@[0], self.bytes@[1], self.bytes@[2]),
            r < 4096,
    {
        self.bytes[0] as u16 * 256 + self.bytes[1] as u16 * 16 + self.bytes[2] as u16
    }

    /// Interprets the first payload nibble as a register index in the range
    /// 0x0 to 0xF (inclusive) and the remaining two nibbles as an immediate
    /// value in the range 0x00 to 0xFF (inclusive).
    pub fn reg_and_value(&self) -> (r: (u8, u8))
        requires
            self.wf(),
        ensures
            r.0 == self.bytes@[0],
            r.1 == payload_value(self.bytes@[1], self.bytes@[2]),
    {
        (self.bytes[0], self.bytes[1] * 16 + self.bytes[2])
    }

    /// Interprets the opcode payload as three operands of one nibble each,
    /// i.e. in the range 0x0 to 0xF (inclusive).
    pub fn operands(&self) -> (r: (u8, u8, u8))
        ensures
            r.0 == self.bytes@[0],
            r.1 == self.bytes@[1],
            r.2 == self.bytes@[2],
    {
        (self.bytes[0], self.bytes[1], self.bytes[2])
    }
}

impl Opcode {
    /// Every stored nibble really is a nibble.
    pub open spec fn wf(&self) -> bool {
        self.instruction_class < 16 && self.payload.wf()
    }

    /// The opcode is the decoding of the two raw instruction bytes `hi` and
    /// `lo`.
    pub open spec fn decodes(&self, hi: u8, lo: u8) -> bool {
        &&& self.instruction_class == high_nibble(hi)
        &&& self.payload.bytes@[0] == low_nibble(hi)
        &&& self.payload.bytes@[1] == high_nibble(lo)
        &&& self.payload.bytes@[2] == low_nibble(lo)
    }

    /// The transition this opcode performs when executed on abstract state
    /// `s`, given the random byte `rnd`.
    pub open spec fn spec_execute_on(&self, s: State, rnd: u8) -> Result<State, Chip8Error> {
        spec_execute(
            s,
            self.instruction_class,
            self.payload.bytes@[0],
            self.payload.bytes@[1],
            self.payload.bytes@[2],
            rnd,
        )
    }

    /// Constructs a new `Opcode` given its two-byte representation.
    pub fn new(opcode: &[u8; 2]) -> (r: Opcode)
        ensures
            r.wf(),
            r.decodes(opcode@[0], opcode@[1]),
    {
        Opcode {
            instruction_class: opcode[0] / 16,
            payload: OpcodePayload {
                bytes: [opcode[0] % 16, opcode[1] / 16, opcode[1] % 16],
            },
        }
    }
}

// ---------------------------------------------------------------------------
// The instruction bodies
// ---------------------------------------------------------------------------

/// CLS (opcode 0x00E0): clears the framebuffer, raising the draw flag if any
/// pixel was lit.
fn exec_cls(state: &mut Chip8)
    requires
        old(state).wf(),
    ensures
        final(state).wf(),
        final(state)@ == spec_cls(old(state)@),
{
    let ghost s0: State = state@;
    let mut any: bool = false;
    let mut i: usize = 0;
    while i < 64 * 32
        invariant
            s0.wf(),
            i <= 64 * 32,
            state@ == (State { output_pins: state@.output_pins, draw: s0.draw, ..s0 }),
            state@.output_pins.len() == 64 * 32,
            forall|j: int| 0 <= j < i ==> !state@.output_pins[j],
            forall|j: int| i <= j < 64 * 32 ==> state@.output_pins[j] == s0.output_pins[j],
            any == exists|j: int| 0 <= j < i && s0.output_pins[j],
        decreases 64 * 32 - i,
    {
        let lit = state.output_pins[i];
        if lit {
            any = true;
        }
        state.output_pins[i] = false;
        proof {
            assert(lit == s0.output_pins[i as int]);
            if any {
                if lit {
                    assert(s0.output_pins[i as int]);
                    assert(exists|j: int| 0 <= j < i + 1 && s0.output_pins[j]);
                }
            } else {
                assert forall|j: int| 0 <= j < i + 1 implies !s0.output_pins[j] by {
                    if j < i {
                        assert(!(exists|j2: int| 0 <= j2 < i && s0.output_pins[j2]));
                    }
                }
            }
        }
        i = i + 1;
    }
    if any {
        state.draw = true;
    }
    increment_program_counter(state);
    proof {
        assert(final(state)@.output_pins =~= spec_cls(s0).output_pins);
        assert(final(state)@ =~= spec_cls(s0));
    }
}

/// RET (opcode 0x00EE): pops the return address; underflows on an empty
/// stack.
fn exec_ret(state: &mut Chip8) -> (r: Result<(), Chip8Error>)
    requires
        old(state).wf(),
    ensures
        final(state).wf(),
        obeys(old(state)@, final(state)@, r, spec_ret(old(state)@)),
{
    if state.stack_pointer == 0 {
        return Err(Chip8Error::StackUnderflow);
    }
    state.program_counter = state.stack[(state.stack_pointer - 1) as usize] % 4096;
    state.stack_pointer = state.stack_pointer - 1;
    increment_program_counter(state);
    Ok(())
}

/// The 0x0 instruction class: CLS, RET, and nothing else.
fn exec_sys(state: &mut Chip8, addr: u16) -> (r: Result<(), Chip8Error>)
    requires
        old(state).wf(),
    ensures
        final(state).wf(),
        obeys(old(state)@, final(state)@, r, spec_sys(old(state)@, addr)),
{
    if addr == 0x0E0 {
        exec_cls(state);
        Ok(())
    } else if addr == 0x0EE {
        exec_ret(state)
    } else {
        Err(Chip8Error::UnknownOpcode)
    }
}

/// JP (opcode 0x1nnn): jumps to the payload address.
fn exec_jump(state: &mut Chip8, addr: u16)
    requires
        old(state).wf(),
        addr < 4096,
    ensures
        final(state).wf(),
        final(state)@ == spec_jump(old(state)@, addr),
{
    state.program_counter = addr;
}

/// CALL (opcode 0x2nnn): pushes the return address and jumps; overflows on a
/// full stack.
fn exec_call(state: &mut Chip8, addr: u16) -> (r: Result<(), Chip8Error>)
    requires
        old(state).wf(),
        addr < 4096,
    ensures
        final(state).wf(),
        obeys(old(state)@, final(state)@, r, spec_call(old(state)@, addr)),
{
    if state.stack_pointer >= 16 {
        return Err(Chip8Error::StackOverflow);
    }
    let return_address = (state.program_counter + 2) % 4096;
    state.stack[state.stack_pointer as usize] = return_address;
    state.stack_pointer = state.stack_pointer + 1;
    state.program_counter = addr;
    Ok(())
}

/// SE Vx, byte (opcode 0x3xkk): skips when Vx equals the immediate.
fn exec_skip_eq_imm(state: &mut Chip8, x: u8, value: u8)
    requires
        old(state).wf(),
        x < 16,
    ensures
        final(state).wf(),
        final(state)@ == spec_skip_if(old(state)@, old(state)@.registers[x as int] == value),
{
    let cond = state.registers[x as usize] == value;
    conditional_skip(state, cond);
    increment_program_counter(state);
    proof {
        lemma_skip_then_advance(old(state)@, cond);
    }
}

/// SNE Vx, byte (opcode 0x4xkk): skips when Vx differs from the immediate.
fn exec_skip_ne_imm(state: &mut Chip8, x: u8, value: u8)
    requires
        old(state).wf(),
        x < 16,
    ensures
        final(state).wf(),
        final(state)@ == spec_skip_if(old(state)@, old(state)@.registers[x as int] != value),
{
    let cond = state.registers[x as usize] != value;
    conditional_skip(state, cond);
    increment_program_counter(state);
    proof {
        lemma_skip_then_advance(old(state)@, cond);
    }
}

/// SE Vx, Vy / SNE Vx, Vy (opcodes 0x5xy0 and 0x9xy0): register-comparison
/// skips; any other low nibble is not an instruction.
fn exec_skip_reg(state: &mut Chip8, x: u8, y: u8, n3: u8, want_equal: bool) -> (r: Result<
    (),
    Chip8Error,
>)
    requires
        old(state).wf(),
        x < 16,
        y < 16,
    ensures
        final(state).wf(),
        obeys(old(state)@, final(state)@, r, spec_skip_reg(old(state)@, x, y, n3, want_equal)),
{
    if n3 != 0 {
        return Err(Chip8Error::UnknownOpcode);
    }
    let cond = (state.registers[x as usize] == state.registers[y as usize]) == want_equal;
    conditional_skip(state, cond);
    increment_program_counter(state);
    proof {
        lemma_skip_then_advance(old(state)@, cond);
    }
    Ok(())
}

/// LD Vx, byte (opcode 0x6xkk): loads the immediate into Vx.
fn exec_load_imm(state: &mut Chip8, x: u8, value: u8)
    requires
        old(state).wf(),
        x < 16,
    ensures
        final(state).wf(),
        final(state)@ == spec_load_imm(old(state)@, x, value),
{
    state.registers[x as usize] = value;
    increment_program_counter(state);
}

/// ADD Vx, byte (opcode 0x7xkk): adds the immediate into Vx, wrapping.
fn exec_add_imm(state: &mut Chip8, x: u8, value: u8)
    requires
        old(state).wf(),
        x < 16,
    ensures
        final(state).wf(),
        final(state)@ == spec_add_imm(old(state)@, x, value),
{
    let sum = (state.registers[x as usize] as u16 + value as u16) % 256;
    state.registers[x as usize] = sum as u8;
    increment_program_counter(state);
}

/// The value and the VF flag produced by the ALU operation `op` on operand
/// bytes `a` and `b`.
fn alu_compute(op: u8, a: u8, b: u8) -> (r: (u8, Option<bool>))
    requires
        alu_op_valid(op),
    ensures
        r.0 == crate::state::alu_value(op, a, b),
        r.1 == crate::state::alu_flag(op, a, b),
{
    if op == 0x0 {
        (b, None)
    } else if op == 0x1 {
        (a | b, None)
    } else if op == 0x2 {
        (a & b, None)
    } else if op == 0x3 {
        (a ^ b, None)
    } else if op == 0x4 {
        let sum = a as u16 + b as u16;
        ((sum % 256) as u8, Some(sum > 255))
    } else if op == 0x5 {
        (((a as u16 + 256 - b as u16) % 256) as u8, Some(a >= b))
    } else if op == 0x6 {
        (a / 2, Some(a % 2 == 1))
    } else if op == 0x7 {
        (((b as u16 + 256 - a as u16) % 256) as u8, Some(b >= a))
    } else {
        (((a as u16 * 2) % 256) as u8, Some(a >= 128))
    }
}

/// The 0x8 instruction class (opcodes 0x8xyN): register-to-register ALU
/// operations, with the carry/borrow/shift flag conventions of VF.
fn exec_alu(state: &mut Chip8, x: u8, y: u8, op: u8) -> (r: Result<(), Chip8Error>)
    requires
        old(state).wf(),
        x < 16,
        y < 16,
    ensures
        final(state).wf(),
        obeys(old(state)@, final(state)@, r, spec_alu(old(state)@, x, y, op)),
{
    if !(op == 0x0 || op == 0x1 || op == 0x2 || op == 0x3 || op == 0x4 || op == 0x5 || op == 0x6
        || op == 0x7 || op == 0xE) {
        return Err(Chip8Error::UnknownOpcode);
    }
    let a = state.registers[x as usize];
    let b = state.registers[y as usize];
    let (value, flag) = alu_compute(op, a, b);
    state.registers[x as usize] = value;
    match flag {
        Some(true) => {
            state.registers[0xF] = 1;
        }
        Some(false) => {
            state.registers[0xF] = 0;
        }
        None => {}
    }
    increment_program_counter(state);
    proof {
        assert(final(state)@.registers =~= alu_registers(old(state)@.registers, op, x, y));
    }
    Ok(())
}

/// LD I, addr (opcode 0xAnnn): loads the index register.
fn exec_load_index(state: &mut Chip8, addr: u16)
    requires
        old(state).wf(),
    ensures
        final(state).wf(),
        final(state)@ == spec_load_index(old(state)@, addr),
{
    state.index = addr;
    increment_program_counter(state);
}

/// JP V0, addr (opcode 0xBnnn): jumps to the payload address plus V0.
fn exec_jump_v0(state: &mut Chip8, addr: u16)
    requires
        old(state).wf(),
        addr < 4096,
    ensures
        final(state).wf(),
        final(state)@ == spec_jump_v0(old(state)@, addr),
{
    state.program_counter = (addr + state.registers[0] as u16) % 4096;
}

/// RND Vx, byte (opcode 0xCxkk): masks the random byte `rnd` with the
/// immediate. The randomness itself is drawn by the caller; for every value
/// of `rnd` this function performs the corresponding transition exactly.
fn exec_random(state: &mut Chip8, x: u8, value: u8, rnd: u8)
    requires
        old(state).wf(),
        x < 16,
    ensures
        final(state).wf(),
        final(state)@ == spec_random(old(state)@, x, value, rnd),
{
    state.registers[x as usize] = rnd & value;
    increment_program_counter(state);
}

/// Relies on `rand::random`: one byte from the thread-local random number
/// generator. Nothing is promised of the value.
#[verifier::external_body]
fn random_byte() -> u8 {
    rand::random::<u8>()
}

/// DRW Vx, Vy, n (opcode 0xDxyn): draws the sprite of `n` rows stored at
/// the index register at coordinates (Vx, Vy), XORing it onto the
/// framebuffer with coordinate wraparound. VF reports whether any lit pixel
/// was unlit by the draw, and the draw flag is raised if any pixel changed.
fn exec_draw(state: &mut Chip8, x: u8, y: u8, n: u8)
    requires
        old(state).wf(),
        x < 16,
        y < 16,
        n < 16,
    ensures
        final(state).wf(),
        final(state)@ == spec_draw(old(state)@, x, y, n),
{
    let ghost s0: State = state@;
    let x0 = state.registers[x as usize];
    let y0 = state.registers[y as usize];
    state.registers[0xF] = 0;
    proof {
        lemma_upto_empty(s0.output_pins, s0.memory, s0.index, x0, y0);
    }
    let mut r: u8 = 0;
    while r < n
        invariant
            s0.wf(),
            n < 16,
            r <= n,
            x0 == s0.registers[x as int],
            y0 == s0.registers[y as int],
            state@ == (State {
                output_pins: state@.output_pins,
                registers: state@.registers,
                draw: state@.draw,
                ..s0
            }),
            state@.output_pins.len() == 64 * 32,
            state@.registers == s0.registers.update(
                0xF,
                if collision_upto(s0.output_pins, s0.memory, s0.index, x0, y0, r as int, 0) {
                    1u8
                } else {
                    0u8
                },
            ),
            state@.draw == (s0.draw || changes_upto(s0.memory, s0.index, r as int, 0)),
            forall|p: int|
                0 <= p < 64 * 32 ==> state@.output_pins[p] == (s0.output_pins[p] != hits_upto(
                    s0.memory,
                    s0.index,
                    x0,
                    y0,
                    r as int,
                    0,
                    p,
                )),
        decreases n - r,
    {
        let row = state.memory[(state.index as usize + r as usize) % 4096];
        proof {
            assert(row == sprite_row(s0.memory, s0.index, r as int));
        }
        let mut c: u8 = 0;
        while c < 8
            invariant
                s0.wf(),
                n < 16,
                r < n,
                c <= 8,
                x0 == s0.registers[x as int],
                y0 == s0.registers[y as int],
                row == sprite_row(s0.memory, s0.index, r as int),
                state@ == (State {
                    output_pins: state@.output_pins,
                    registers: state@.registers,
                    draw: state@.draw,
                    ..s0
                }),
                state@.output_pins.len() == 64 * 32,
                state@.registers == s0.registers.update(
                    0xF,
                    if collision_upto(
                        s0.output_pins,
                        s0.memory,
                        s0.index,
                        x0,
                        y0,
                        r as int,
                        c as int,
                    ) {
                        1u8
                    } else {
                        0u8
                    },
                ),
                state@.draw == (s0.draw || changes_upto(s0.memory, s0.index, r as int, c as int)),
                forall|p: int|
                    0 <= p < 64 * 32 ==> state@.output_pins[p] == (s0.output_pins[p] != hits_upto(
                        s0.memory,
                        s0.index,
                        x0,
                        y0,
                        r as int,
                        c as int,
                        p,
                    )),
            decreases 8 - c,
        {
            let bit = (row >> (7 - c)) & 1 == 1;
            proof {
                assert(bit == sprite_bit(row, c as int));
                lemma_upto_step(s0.output_pins, s0.memory, s0.index, x0, y0, r as int, c as int);
                lemma_no_prior_hit(s0.memory, s0.index, x0, y0, r as int, c as int);
            }
            if bit {
                let px = (x0 as usize + c as usize) % 64;
                let py = (y0 as usize + r as usize) % 32;
                let pos = py * 64 + px;
                proof {
                    assert(pos == pixel_pos(x0, y0, r as int, c as int));
                    assert(pos < 64 * 32);
                }
                state.draw = true;
                let lit = state.output_pins[pos];
                if lit {
                    state.registers[0xF] = 1;
                }
                state.output_pins[pos] = !lit;
                proof {
                    assert(lit == s0.output_pins[pos as int]);
                    assert(state@.registers =~= s0.registers.update(
                        0xF,
                        if collision_upto(
                            s0.output_pins,
                            s0.memory,
                            s0.index,
                            x0,
                            y0,
                            r as int,
                            c + 1,
                        ) {
                            1u8
                        } else {
                            0u8
                        },
                    ));
                }
            }
            c = c + 1;
        }
        proof {
            lemma_upto_row_end(s0.output_pins, s0.memory, s0.index, x0, y0, r as int);
        }
        r = r + 1;
    }
    proof {
        lemma_upto_full(s0.output_pins, s0.memory, s0.index, x0, y0, n);
        assert(state@.output_pins =~= crate::state::draw_gfx(
            s0.output_pins,
            s0.memory,
            s0.index,
            x0,
            y0,
            n,
        ));
        assert(state@.registers =~= s0.registers.update(
            0xF,
            if crate::state::draw_collision(s0.output_pins, s0.memory, s0.index, x0, y0, n) {
                1u8
            } else {
                0u8
            },
        ));
    }
    increment_program_counter(state);
}

/// SKP Vx / SKNP Vx (opcodes 0xEx9E and 0xExA1): skips depending on the
/// input pin addressed by Vx.
fn exec_skip_key(state: &mut Chip8, x: u8, value: u8) -> (r: Result<(), Chip8Error>)
    requires
        old(state).wf(),
        x < 16,
    ensures
        final(state).wf(),
        obeys(old(state)@, final(state)@, r, spec_skip_key(old(state)@, x, value)),
{
    if value != 0x9E && value != 0xA1 {
        return Err(Chip8Error::UnknownOpcode);
    }
    let pin = state.registers[x as usize];
    if pin >= 16 {
        return Err(Chip8Error::InvalidInputPin);
    }
    let cond = state.input_pins[pin as usize] == (value == 0x9E);
    conditional_skip(state, cond);
    increment_program_counter(state);
    proof {
        lemma_skip_then_advance(old(state)@, cond);
    }
    Ok(())
}

/// LD Vx, DT (opcode 0xFx07): reads the delay timer into Vx.
fn exec_get_delay(state: &mut Chip8, x: u8)
    requires
        old(state).wf(),
        x < 16,
    ensures
        final(state).wf(),
        final(state)@ == spec_get_delay(old(state)@, x),
{
    let value = state.delay_timer;
    state.registers[x as usize] = value;
    increment_program_counter(state);
}

/// LD Vx, K (opcode 0xFx0A): waits for a key. When no input pin is set the
/// machine is left untouched, so the next cycle re-executes this very
/// instruction; otherwise the lowest set pin lands in Vx.
fn exec_wait_key(state: &mut Chip8, x: u8)
    requires
        old(state).wf(),
        x < 16,
    ensures
        final(state).wf(),
        final(state)@ == spec_wait_key(old(state)@, x),
{
    let mut i: usize = 0;
    while i < 16
        invariant
            old(state).wf(),
            x < 16,
            i <= 16,
            state@ == old(state)@,
            forall|j: int| 0 <= j < i ==> !state@.input_pins[j],
        decreases 16 - i,
    {
        if state.input_pins[i] {
            proof {
                lemma_first_set_pin(state@.input_pins, 0, i as int);
            }
            state.registers[x as usize] = i as u8;
            increment_program_counter(state);
            return ;
        }
        i = i + 1;
    }
    proof {
        lemma_no_set_pin(state@.input_pins, 0);
    }
}

/// LD DT, Vx (opcode 0xFx15): sets the delay timer from Vx.
fn exec_set_delay(state: &mut Chip8, x: u8)
    requires
        old(state).wf(),
        x < 16,
    ensures
        final(state).wf(),
        final(state)@ == spec_set_delay(old(state)@, x),
{
    state.delay_timer = state.registers[x as usize];
    increment_program_counter(state);
}

/// LD ST, Vx (opcode 0xFx18): sets the sound timer from Vx.
fn exec_set_sound(state: &mut Chip8, x: u8)
    requires
        old(state).wf(),
        x < 16,
    ensures
        final(state).wf(),
        final(state)@ == spec_set_sound(old(state)@, x),
{
    state.sound_timer = state.registers[x as usize];
    increment_program_counter(state);
}

/// ADD I, Vx (opcode 0xFx1E): adds Vx into the index register, wrapping as
/// a sixteen-bit value.
fn exec_add_index(state: &mut Chip8, x: u8)
    requires
        old(state).wf(),
        x < 16,
    ensures
        final(state).wf(),
        final(state)@ == spec_add_index(old(state)@, x),
{
    state.index = state.index.wrapping_add(state.registers[x as usize] as u16);
    increment_program_counter(state);
}

/// LD F, Vx (opcode 0xFx29): points the index register at the font sprite
/// for the character in Vx; characters above 0xF have no sprite.
fn exec_load_font(state: &mut Chip8, x: u8) -> (r: Result<(), Chip8Error>)
    requires
        old(state).wf(),
        x < 16,
    ensures
        final(state).wf(),
        obeys(old(state)@, final(state)@, r, spec_load_font(old(state)@, x)),
{
    let character = state.registers[x as usize];
    if character > 0xF {
        return Err(Chip8Error::InvalidCharacterIndex);
    }
    state.index = crate::constants::CHIP8_CHARSET_OFFSET + character as u16 * 5;
    increment_program_counter(state);
    Ok(())
}

/// LD B, Vx (opcode 0xFx33): stores the three decimal digits of Vx at the
/// index register, most significant first, index-relative addresses
/// wrapping at the end of memory.
fn exec_bcd(state: &mut Chip8, x: u8)
    requires
        old(state).wf(),
        x < 16,
    ensures
        final(state).wf(),
        final(state)@ == spec_bcd(old(state)@, x),
{
    let a = state.registers[x as usize];
    let base = state.index as usize;
    state.memory[(base + 2) % 4096] = a % 10;
    state.memory[(base + 1) % 4096] = (a / 10) % 10;
    state.memory[base % 4096] = a / 100;
    increment_program_counter(state);
}

/// LD [I], Vx (opcode 0xFx55): stores registers V0 through Vx at the index
/// register, index-relative addresses wrapping at the end of memory.
fn exec_reg_dump(state: &mut Chip8, x: u8)
    requires
        old(state).wf(),
        x < 16,
    ensures
        final(state).wf(),
        final(state)@ == spec_reg_dump(old(state)@, x),
{
    let ghost s0: State = state@;
    let mut k: u8 = 0;
    while k < x + 1
        invariant
            s0.wf(),
            x < 16,
            k <= x + 1,
            state@ == (State { memory: state@.memory, ..s0 }),
            state@.memory == dump_memory(s0.memory, s0.registers, s0.index, k as int),
        decreases x + 1 - k,
    {
        let addr = (state.index as usize + k as usize) % 4096;
        proof {
            crate::state::lemma_dump_memory_len(s0.memory, s0.registers, s0.index, k as int);
        }
        state.memory[addr] = state.registers[k as usize];
        k = k + 1;
        proof {
            crate::state::lemma_dump_memory_len(s0.memory, s0.registers, s0.index, k as int);
        }
    }
    proof {
        crate::state::lemma_dump_memory_len(s0.memory, s0.registers, s0.index, x + 1);
    }
    increment_program_counter(state);
}

/// LD Vx, [I] (opcode 0xFx65): loads registers V0 through Vx from the index
/// register, index-relative addresses wrapping at the end of memory.
fn exec_reg_load(state: &mut Chip8, x: u8)
    requires
        old(state).wf(),
        x < 16,
    ensures
        final(state).wf(),
        final(state)@ == spec_reg_load(old(state)@, x),
{
    let ghost s0: State = state@;
    let mut k: u8 = 0;
    while k < x + 1
        invariant
            s0.wf(),
            x < 16,
            k <= x + 1,
            state@ == (State { registers: state@.registers, ..s0 }),
            state@.registers.len() == 16,
            forall|j: int| 0 <= j < k ==> state@.registers[j] == s0.memory[indexed_addr(
                s0.index,
                j,
            )],
            forall|j: int| k <= j < 16 ==> state@.registers[j] == s0.registers[j],
        decreases x + 1 - k,
    {
        let addr = (state.index as usize + k as usize) % 4096;
        let value = state.memory[addr];
        state.registers[k as usize] = value;
        k = k + 1;
    }
    proof {
        assert(state@.registers =~= load_registers(s0.memory, s0.registers, s0.index, x));
    }
    increment_program_counter(state);
}

/// The 0xF instruction class (opcodes 0xFxkk), dispatched on the immediate
/// byte.
fn exec_misc(state: &mut Chip8, x: u8, value: u8) -> (r: Result<(), Chip8Error>)
    requires
        old(state).wf(),
        x < 16,
    ensures
        final(state).wf(),
        obeys(old(state)@, final(state)@, r, spec_misc(old(state)@, x, value)),
{
    match value {
        0x07 => {
            exec_get_delay(state, x);
            Ok(())
        }
        0x0A => {
            exec_wait_key(state, x);
            Ok(())
        }
        0x15 => {
            exec_set_delay(state, x);
            Ok(())
        }
        0x18 => {
            exec_set_sound(state, x);
            Ok(())
        }
        0x1E => {
            exec_add_index(state, x);
            Ok(())
        }
        0x29 => exec_load_font(state, x),
        0x33 => {
            exec_bcd(state, x);
            Ok(())
        }
        0x55 => {
            exec_reg_dump(state, x);
            Ok(())
        }
        0x65 => {
            exec_reg_load(state, x);
            Ok(())
        }
        _ => Err(Chip8Error::UnknownOpcode),
    }
}

impl Opcode {
    /// Executes `self` on the given machine: the one exhaustive dispatch
    /// over the instruction classes. On success the machine performs exactly
    /// the transition of [`spec_execute`] for some random byte (and for
    /// every random byte, unless the instruction is RND); on an error the
    /// machine is untouched and the same error is what the specification
    /// assigns to the instruction, whatever the random byte.
    pub fn execute(self, state: &mut Chip8) -> (r: Result<(), Chip8Error>)
        requires
            old(state).wf(),
            self.wf(),
        ensures
            final(state).wf(),
            match r {
                Ok(()) => exists|b: u8|
                    self.spec_execute_on(old(state)@, b) == Ok::<State, Chip8Error>(
                        final(state)@,
                    ),
                Err(e) => final(state)@ == old(state)@ && forall|b: u8|
                    self.spec_execute_on(old(state)@, b) == Err::<State, Chip8Error>(e),
            },
    {
        let cls = self.instruction_class;
        if cls == 0x0 {
            let addr = self.payload.address();
            let r = exec_sys(state, addr);
            proof {
                self.lemma_dispatch(old(state)@, state@, r);
            }
            r
        } else if cls == 0x1 {
            let addr = self.payload.address();
            exec_jump(state, addr);
            proof {
                assert(self.spec_execute_on(old(state)@, 0u8) == Ok::<State, Chip8Error>(state@));
            }
            Ok(())
        } else if cls == 0x2 {
            let addr = self.payload.address();
            let r = exec_call(state, addr);
            proof {
                self.lemma_dispatch(old(state)@, state@, r);
            }
            r
        } else if cls == 0x3 {
            let (x, value) = self.payload.reg_and_value();
            exec_skip_eq_imm(state, x, value);
            proof {
                assert(self.spec_execute_on(old(state)@, 0u8) == Ok::<State, Chip8Error>(state@));
            }
            Ok(())
        } else if cls == 0x4 {
            let (x, value) = self.payload.reg_and_value();
            exec_skip_ne_imm(state, x, value);
            proof {
                assert(self.spec_execute_on(old(state)@, 0u8) == Ok::<State, Chip8Error>(state@));
            }
            Ok(())
        } else if cls == 0x5 {
            let (x, y, n3) = self.payload.operands();
            let r = exec_skip_reg(state, x, y, n3, true);
            proof {
                self.lemma_dispatch(old(state)@, state@, r);
            }
            r
        } else if cls == 0x6 {
            let (x, value) = self.payload.reg_and_value();
            exec_load_imm(state, x, value);
            proof {
                assert(self.spec_execute_on(old(state)@, 0u8) == Ok::<State, Chip8Error>(state@));
            }
            Ok(())
        } else if cls == 0x7 {
            let (x, value) = self.payload.reg_and_value();
            exec_add_imm(state, x, value);
            proof {
                assert(self.spec_execute_on(old(state)@, 0u8) == Ok::<State, Chip8Error>(state@));
            }
            Ok(())
        } else if cls == 0x8 {
            let (x, y, op) = self.payload.operands();
            let r = exec_alu(state, x, y, op);
            proof {
                self.lemma_dispatch(old(state)@, state@, r);
            }
            r
        } else if cls == 0x9 {
            let (x, y, n3) = self.payload.operands();
            let r = exec_skip_reg(state, x, y, n3, false);
            proof {
                self.lemma_dispatch(old(state)@, state@, r);
            }
            r
        } else if cls == 0xA {
            let addr = self.payload.address();
            exec_load_index(state, addr);
            proof {
                assert(self.spec_execute_on(old(state)@, 0u8) == Ok::<State, Chip8Error>(state@));
            }
            Ok(())
        } else if cls == 0xB {
            let addr = self.payload.address();
            exec_jump_v0(state, addr);
            proof {
                assert(self.spec_execute_on(old(state)@, 0u8) == Ok::<State, Chip8Error>(state@));
            }
            Ok(())
        } else if cls == 0xC {
            let (x, value) = self.payload.reg_and_value();
            let rnd = random_byte();
            exec_random(state, x, value, rnd);
            proof {
                assert(self.spec_execute_on(old(state)@, rnd) == Ok::<State, Chip8Error>(state@));
            }
            Ok(())
        } else if cls == 0xD {
            let (x, y, n) = self.payload.operands();
            exec_draw(state, x, y, n);
            proof {
                assert(self.spec_execute_on(old(state)@, 0u8) == Ok::<State, Chip8Error>(state@));
            }
            Ok(())
        } else if cls == 0xE {
            let (x, value) = self.payload.reg_and_value();
            let r = exec_skip_key(state, x, value);
            proof {
                self.lemma_dispatch(old(state)@, state@, r);
            }
            r
        } else {
            let (x, value) = self.payload.reg_and_value();
            let r = exec_misc(state, x, value);
            proof {
                assert(cls == 0xF);
                self.lemma_dispatch(old(state)@, state@, r);
            }
            r
        }
    }

    /// An instruction whose own transition obeys its class specification
    /// also obeys the full dispatch specification, for every random byte.
    proof fn lemma_dispatch(
        self,
        pre: State,
        post: State,
        r: Result<(), Chip8Error>,
    )
        requires
            self.wf(),
            self.instruction_class != 0xC,
            obeys(pre, post, r, self.spec_execute_on(pre, 0u8)),
        ensures
            match r {
                Ok(()) => exists|b: u8|
                    self.spec_execute_on(pre, b) == Ok::<State, Chip8Error>(post),
                Err(e) => post == pre && forall|b: u8|
                    self.spec_execute_on(pre, b) == Err::<State, Chip8Error>(e),
            },
    {
        assert(forall|b: u8|
            #[trigger] self.spec_execute_on(pre, b) == self.spec_execute_on(pre, 0u8));
        match r {
            Ok(()) => {
                assert(self.spec_execute_on(pre, 0u8) == Ok::<State, Chip8Error>(post));
            }
            Err(e) => {
                assert(self.spec_execute_on(pre, 0u8) == Err::<State, Chip8Error>(e));
            }
        }
    }
}

/// How an executed instruction relates the machine to its specification:
/// on success the machine is exactly the specified successor state, and on
/// an error the machine is untouched and the specification reports the same
/// error.
pub open spec fn obeys(
    pre: State,
    post: State,
    r: Result<(), Chip8Error>,
    transition: Result<State, Chip8Error>,
) -> bool {
    match r {
        Ok(()) => transition == Ok::<State, Chip8Error>(post),
        Err(e) => post == pre && transition == Err::<State, Chip8Error>(e),
    }
}

} // verus!
