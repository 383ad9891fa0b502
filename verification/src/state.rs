//! The mathematical model of the CHIP-8 machine.
//!
//! `State` is the abstract value of a machine: plain sequences and integers.
//! The spec functions in this module write down, instruction by instruction,
//! what one execution cycle does to a `State`; the executable machine in
//! [`crate::chip8`] is proved to implement `spec_cycle` exactly.
use vstd::prelude::*;

use crate::chip::Chip8Error;
use crate::constants::{
    CHIP8_CHARSET_OFFSET, CHIP8_CHARSET_LEN, CHIP8_MEMORY_SIZE, CHIP8_PROGRAM_OFFSET,
    CHIP8_TIMER_RESOLUTION,
};

verus! {

/// The abstract state of a CHIP-8 machine.
#[verifier::ext_equal]
pub struct State {
    /// Main memory: 4096 bytes.
    pub memory: Seq<u8>,
    /// The sixteen one-byte registers V0 through VF.
    pub registers: Seq<u8>,
    /// The index register.
    pub index: u16,
    /// The program counter; always below 4096.
    pub program_counter: u16,
    /// The framebuffer: 2048 pixels, row-major, 64 wide by 32 tall.
    pub output_pins: Seq<bool>,
    /// The delay timer.
    pub delay_timer: u8,
    /// The sound timer.
    pub sound_timer: u8,
    /// The sixteen-entry call stack.
    pub stack: Seq<u16>,
    /// Number of occupied stack entries; between 0 and 16.
    pub stack_pointer: u8,
    /// The sixteen input latches.
    pub input_pins: Seq<bool>,
    /// Set whenever an instruction changes a pixel; cleared by the host.
    pub draw: bool,
    /// Number of cycles executed since the timers were last decremented;
    /// always below the timer resolution.
    pub cycles_since_timer_dec: u8,
}

impl State {
    /// Well-formedness: the shape every reachable machine state has.
    pub open spec fn wf(self) -> bool {
        &&& self.memory.len() == CHIP8_MEMORY_SIZE
        &&& self.registers.len() == 16
        &&& self.output_pins.len() == 64 * 32
        &&& self.stack.len() == 16
        &&& self.input_pins.len() == 16
        &&& self.program_counter < CHIP8_MEMORY_SIZE
        &&& self.stack_pointer <= 16
        &&& self.cycles_since_timer_dec < CHIP8_TIMER_RESOLUTION
    }
}

/// Memory contents of a freshly constructed machine: the character font at
/// its fixed offset, zero everywhere else.
pub open spec fn init_memory() -> Seq<u8> {
    Seq::new(CHIP8_MEMORY_SIZE as nat, |i: int|
        if CHIP8_CHARSET_OFFSET <= i < CHIP8_CHARSET_OFFSET + CHIP8_CHARSET_LEN {
            charset_at(i - CHIP8_CHARSET_OFFSET)
        } else {
            0u8
        })
}

/// Byte `i` of the character font.
pub open spec fn charset_at(i: int) -> u8 {
    crate::constants::charset_seq()[i]
}

/// The state of a freshly constructed machine.
pub open spec fn init_state() -> State {
    State {
        memory: init_memory(),
        registers: Seq::new(16, |i: int| 0u8),
        index: 0,
        program_counter: CHIP8_PROGRAM_OFFSET,
        output_pins: Seq::new((64 * 32) as nat, |i: int| false),
        delay_timer: 0,
        sound_timer: 0,
        stack: Seq::new(16, |i: int| 0u16),
        stack_pointer: 0,
        input_pins: Seq::new(16, |i: int| false),
        draw: false,
        cycles_since_timer_dec: 0,
    }
}

/// Memory after loading a program image at the program offset: the image
/// verbatim, everything else untouched.
pub open spec fn load_memory(mem: Seq<u8>, program: Seq<u8>) -> Seq<u8> {
    Seq::new(mem.len(), |i: int|
        if CHIP8_PROGRAM_OFFSET <= i < CHIP8_PROGRAM_OFFSET + program.len() {
            program[i - CHIP8_PROGRAM_OFFSET]
        } else {
            mem[i]
        })
}

// ---------------------------------------------------------------------------
// Decoding
// ---------------------------------------------------------------------------

/// The high nibble of a byte.
pub open spec fn high_nibble(b: u8) -> u8 {
    b / 16
}

/// The low nibble of a byte.
pub open spec fn low_nibble(b: u8) -> u8 {
    b % 16
}

/// The three payload nibbles of an opcode read as a twelve-bit address.
pub open spec fn payload_address(n1: u8, n2: u8, n3: u8) -> u16
    recommends
        n1 < 16,
        n2 < 16,
        n3 < 16,
{
    (n1 * 256 + n2 * 16 + n3) as u16
}

/// The last two payload nibbles of an opcode read as an eight-bit immediate.
pub open spec fn payload_value(n2: u8, n3: u8) -> u8
    recommends
        n2 < 16,
        n3 < 16,
{
    (n2 * 16 + n3) as u8
}

// ---------------------------------------------------------------------------
// Small state helpers
// ---------------------------------------------------------------------------

/// A program counter advanced by `amount` bytes, wrapping at the end of
/// memory so that it always stays a valid address.
pub open spec fn wrap_pc(pc: int) -> u16 {
    (pc % (CHIP8_MEMORY_SIZE as int)) as u16
}

/// The state with the program counter advanced past the current instruction.
pub open spec fn advance(s: State) -> State {
    State { program_counter: wrap_pc(s.program_counter + 2), ..s }
}

/// The state after a conditional skip: the program counter moves past the
/// next instruction when `cond` holds, and just past the current one
/// otherwise.
pub open spec fn spec_skip_if(s: State, cond: bool) -> State {
    State {
        program_counter: wrap_pc(s.program_counter + if cond { 4int } else { 2int }),
        ..s
    }
}

// ---------------------------------------------------------------------------
// Instruction semantics
// ---------------------------------------------------------------------------

/// CLS: clear the framebuffer; the draw flag is set if any pixel was lit.
pub open spec fn spec_cls(s: State) -> State {
    State {
        output_pins: Seq::new(s.output_pins.len(), |i: int| false),
        draw: s.draw || (exists|p: int| 0 <= p < s.output_pins.len() && s.output_pins[p]),
        ..advance(s)
    }
}

/// RET: pop the return address and resume just past it; underflows on an
/// empty stack.
pub open spec fn spec_ret(s: State) -> Result<State, Chip8Error> {
    if s.stack_pointer == 0 {
        Err(Chip8Error::StackUnderflow)
    } else {
        Ok(State {
            program_counter: wrap_pc(s.stack[s.stack_pointer - 1] + 2),
            stack_pointer: (s.stack_pointer - 1) as u8,
            ..s
        })
    }
}

/// JP: jump to the payload address.
pub open spec fn spec_jump(s: State, addr: u16) -> State {
    State { program_counter: addr, ..s }
}

/// CALL: push the return address (the instruction after the call) and jump;
/// overflows on a full stack.
pub open spec fn spec_call(s: State, addr: u16) -> Result<State, Chip8Error> {
    if s.stack_pointer >= 16 {
        Err(Chip8Error::StackOverflow)
    } else {
        Ok(State {
            stack: s.stack.update(s.stack_pointer as int, wrap_pc(s.program_counter + 2)),
            stack_pointer: (s.stack_pointer + 1) as u8,
            program_counter: addr,
            ..s
        })
    }
}

/// LD Vx, byte: load an immediate into a register.
pub open spec fn spec_load_imm(s: State, x: u8, value: u8) -> State {
    State { registers: s.registers.update(x as int, value), ..advance(s) }
}

/// ADD Vx, byte: add an immediate into a register, wrapping, with no flag.
pub open spec fn spec_add_imm(s: State, x: u8, value: u8) -> State {
    State {
        registers: s.registers.update(x as int, ((s.registers[x as int] + value) % 256) as u8),
        ..advance(s)
    }
}

/// The value computed by the register-to-register ALU instruction `op`
/// on operand bytes `a` (the destination register) and `b`.
pub open spec fn alu_value(op: u8, a: u8, b: u8) -> u8 {
    match op {
        0x0 => b,
        0x1 => a | b,
        0x2 => a & b,
        0x3 => a ^ b,
        0x4 => ((a + b) % 256) as u8,
        0x5 => ((a - b) % 256) as u8,
        0x6 => a / 2,
        0x7 => ((b - a) % 256) as u8,
        0xE => ((a * 2) % 256) as u8,
        _ => 0u8,
    }
}

/// The carry/borrow/shift flag written to VF by the ALU instruction `op`,
/// or `None` for the operations that leave VF alone.
pub open spec fn alu_flag(op: u8, a: u8, b: u8) -> Option<bool> {
    match op {
        0x4 => Some(a + b > 255),
        0x5 => Some(a >= b),
        0x6 => Some(a % 2 == 1),
        0x7 => Some(b >= a),
        0xE => Some(a >= 128),
        _ => None,
    }
}

/// Whether `op` selects one of the nine ALU operations.
pub open spec fn alu_op_valid(op: u8) -> bool {
    op == 0x0 || op == 0x1 || op == 0x2 || op == 0x3 || op == 0x4 || op == 0x5 || op == 0x6
        || op == 0x7 || op == 0xE
}

/// The register file after the ALU instruction `op` ran on registers `x`
/// and `y`: the result lands in Vx, then the flag (if any) lands in VF.
pub open spec fn alu_registers(regs: Seq<u8>, op: u8, x: u8, y: u8) -> Seq<u8> {
    let a = regs[x as int];
    let b = regs[y as int];
    let updated = regs.update(x as int, alu_value(op, a, b));
    match alu_flag(op, a, b) {
        Some(f) => updated.update(0xF, if f { 1u8 } else { 0u8 }),
        None => updated,
    }
}

/// The 0x8 instruction class: register-to-register ALU operations.
pub open spec fn spec_alu(s: State, x: u8, y: u8, op: u8) -> Result<State, Chip8Error> {
    if !alu_op_valid(op) {
        Err(Chip8Error::UnknownOpcode)
    } else {
        Ok(State { registers: alu_registers(s.registers, op, x, y), ..advance(s) })
    }
}

/// SE Vx, Vy / SNE Vx, Vy: register-comparison skips; the low payload nibble
/// must be zero (SE) or zero (SNE) for the opcode to be well-formed.
pub open spec fn spec_skip_reg(s: State, x: u8, y: u8, n3: u8, want_equal: bool) -> Result<
    State,
    Chip8Error,
> {
    if n3 != 0 {
        Err(Chip8Error::UnknownOpcode)
    } else {
        Ok(spec_skip_if(s, (s.registers[x as int] == s.registers[y as int]) == want_equal))
    }
}

/// LD I, addr: load the index register.
pub open spec fn spec_load_index(s: State, addr: u16) -> State {
    State { index: addr, ..advance(s) }
}

/// JP V0, addr: jump to the payload address plus V0, wrapping at the end of
/// memory.
pub open spec fn spec_jump_v0(s: State, addr: u16) -> State {
    State { program_counter: wrap_pc(addr + s.registers[0]), ..s }
}

/// RND Vx, byte: a random byte masked by the immediate.
pub open spec fn spec_random(s: State, x: u8, value: u8, rnd: u8) -> State {
    State { registers: s.registers.update(x as int, rnd & value), ..advance(s) }
}

/// SKP Vx / SKNP Vx: skip depending on the input pin addressed by Vx.
pub open spec fn spec_skip_key(s: State, x: u8, value: u8) -> Result<State, Chip8Error> {
    if value == 0x9E || value == 0xA1 {
        if s.registers[x as int] >= 16 {
            Err(Chip8Error::InvalidInputPin)
        } else {
            let pressed = s.input_pins[s.registers[x as int] as int];
            Ok(spec_skip_if(s, pressed == (value == 0x9E)))
        }
    } else {
        Err(Chip8Error::UnknownOpcode)
    }
}

/// LD Vx, DT: read the delay timer.
pub open spec fn spec_get_delay(s: State, x: u8) -> State {
    State { registers: s.registers.update(x as int, s.delay_timer), ..advance(s) }
}

/// The lowest-numbered set input pin at or above `k`, if any.
pub open spec fn first_set_pin_from(pins: Seq<bool>, k: int) -> Option<int>
    decreases 16 - k,
{
    if k < 0 || k >= 16 {
        None
    } else if pins[k] {
        Some(k)
    } else {
        first_set_pin_from(pins, k + 1)
    }
}

/// A scan that saw only unset pins below `i` and a set pin at `i` has found
/// the lowest-numbered set pin.
pub proof fn lemma_first_set_pin(pins: Seq<bool>, k: int, i: int)
    requires
        0 <= k <= i < 16,
        pins[i],
        forall|j: int| k <= j < i ==> !pins[j],
    ensures
        first_set_pin_from(pins, k) == Some(i),
    decreases i - k,
{
    if k < i {
        lemma_first_set_pin(pins, k + 1, i);
    }
}

/// A scan that saw only unset pins finds nothing.
pub proof fn lemma_no_set_pin(pins: Seq<bool>, k: int)
    requires
        0 <= k <= 16,
        forall|j: int| k <= j < 16 ==> !pins[j],
    ensures
        first_set_pin_from(pins, k) == Option::<int>::None,
    decreases 16 - k,
{
    if k < 16 {
        lemma_no_set_pin(pins, k + 1);
    }
}

/// LD Vx, K: wait for a key. With no pin set the state is left untouched
/// (in particular the program counter does not advance, so the next cycle
/// re-executes the same instruction); otherwise the lowest set pin lands in
/// Vx and execution continues.
pub open spec fn spec_wait_key(s: State, x: u8) -> State {
    match first_set_pin_from(s.input_pins, 0) {
        Option::None => s,
        Option::Some(k) => State {
            registers: s.registers.update(x as int, k as u8),
            ..advance(s)
        },
    }
}

/// LD DT, Vx: set the delay timer.
pub open spec fn spec_set_delay(s: State, x: u8) -> State {
    State { delay_timer: s.registers[x as int], ..advance(s) }
}

/// LD ST, Vx: set the sound timer.
pub open spec fn spec_set_sound(s: State, x: u8) -> State {
    State { sound_timer: s.registers[x as int], ..advance(s) }
}

/// ADD I, Vx: add a register into the index register, wrapping as a
/// sixteen-bit value.
pub open spec fn spec_add_index(s: State, x: u8) -> State {
    State { index: ((s.index + s.registers[x as int]) % 0x10000) as u16, ..advance(s) }
}

/// LD F, Vx: point the index register at the font sprite for the character
/// in Vx; characters above 0xF have no sprite.
pub open spec fn spec_load_font(s: State, x: u8) -> Result<State, Chip8Error> {
    if s.registers[x as int] > 0xF {
        Err(Chip8Error::InvalidCharacterIndex)
    } else {
        Ok(State {
            index: (CHIP8_CHARSET_OFFSET + s.registers[x as int] * 5) as u16,
            ..advance(s)
        })
    }
}

/// An index-relative memory address, wrapping at the end of memory.
pub open spec fn indexed_addr(index: u16, offset: int) -> int {
    (index + offset) % (CHIP8_MEMORY_SIZE as int)
}

/// LD B, Vx: the three decimal digits of Vx, most significant first, stored
/// at the index register.
pub open spec fn spec_bcd(s: State, x: u8) -> State {
    let a = s.registers[x as int];
    State {
        memory: s.memory
            .update(indexed_addr(s.index, 2), a % 10)
            .update(indexed_addr(s.index, 1), (a / 10) % 10)
            .update(indexed_addr(s.index, 0), a / 100),
        ..advance(s)
    }
}

/// Memory after storing the first `k` registers at the index register, one
/// byte per register, index-relative addresses wrapping at the end of
/// memory.
pub open spec fn dump_memory(mem: Seq<u8>, regs: Seq<u8>, index: u16, k: int) -> Seq<u8>
    decreases k,
{
    if k <= 0 {
        mem
    } else {
        dump_memory(mem, regs, index, k - 1).update(indexed_addr(index, k - 1), regs[k - 1])
    }
}

/// Storing registers does not change the size of memory.
pub proof fn lemma_dump_memory_len(mem: Seq<u8>, regs: Seq<u8>, index: u16, k: int)
    requires
        mem.len() == CHIP8_MEMORY_SIZE,
    ensures
        dump_memory(mem, regs, index, k).len() == mem.len(),
    decreases k,
{
    if k <= 0 {
        assert(dump_memory(mem, regs, index, k) == mem);
    } else {
        lemma_dump_memory_len(mem, regs, index, k - 1);
        assert(dump_memory(mem, regs, index, k) == dump_memory(mem, regs, index, k - 1).update(
            indexed_addr(index, k - 1),
            regs[k - 1],
        ));
    }
}

/// LD [I], Vx: store registers V0 through Vx at the index register.
pub open spec fn spec_reg_dump(s: State, x: u8) -> State {
    State { memory: dump_memory(s.memory, s.registers, s.index, x + 1), ..advance(s) }
}

/// The register file after loading registers V0 through Vx from the index
/// register; higher registers keep their previous values.
pub open spec fn load_registers(mem: Seq<u8>, regs: Seq<u8>, index: u16, x: u8) -> Seq<u8> {
    Seq::new(regs.len(), |r: int|
        if r <= x {
            mem[indexed_addr(index, r)]
        } else {
            regs[r]
        })
}

/// LD Vx, [I]: load registers V0 through Vx from the index register.
pub open spec fn spec_reg_load(s: State, x: u8) -> State {
    State { registers: load_registers(s.memory, s.registers, s.index, x), ..advance(s) }
}

// ---------------------------------------------------------------------------
// DRW: sprite drawing
// ---------------------------------------------------------------------------

/// Sprite row `r`: the byte at the index register plus `r`.
pub open spec fn sprite_row(mem: Seq<u8>, index: u16, r: int) -> u8 {
    mem[indexed_addr(index, r)]
}

/// Whether bit `c` of a sprite row is set, counting from the most
/// significant bit: bit 0 is the leftmost pixel.
pub open spec fn sprite_bit(row: u8, c: int) -> bool {
    (row >> (7 - c) as u8) & 1 == 1
}

/// The framebuffer position written by sprite row `r`, column `c`, for a
/// sprite drawn at `(x0, y0)`: both coordinates wrap around the screen.
pub open spec fn pixel_pos(x0: u8, y0: u8, r: int, c: int) -> int {
    ((y0 + r) % 32) * 64 + ((x0 + c) % 64)
}

/// Whether the sprite of height `n` drawn at `(x0, y0)` flips framebuffer
/// position `p`: some set sprite bit lands there.
pub open spec fn draw_hits(mem: Seq<u8>, index: u16, x0: u8, y0: u8, n: u8, p: int) -> bool {
    exists|r: int, c: int|
        0 <= r < n && 0 <= c < 8 && p == pixel_pos(x0, y0, r, c) && sprite_bit(
            sprite_row(mem, index, r),
            c,
        )
}

/// The framebuffer after the draw: every hit position is flipped, every
/// other position is untouched.
pub open spec fn draw_gfx(gfx: Seq<bool>, mem: Seq<u8>, index: u16, x0: u8, y0: u8, n: u8) -> Seq<
    bool,
> {
    Seq::new(gfx.len(), |p: int| gfx[p] != draw_hits(mem, index, x0, y0, n, p))
}

/// Whether the draw collides: some set sprite bit lands on a pixel that was
/// already lit, i.e. some pixel goes from set to unset.
pub open spec fn draw_collision(
    gfx: Seq<bool>,
    mem: Seq<u8>,
    index: u16,
    x0: u8,
    y0: u8,
    n: u8,
) -> bool {
    exists|r: int, c: int|
        0 <= r < n && 0 <= c < 8 && sprite_bit(sprite_row(mem, index, r), c) && gfx[pixel_pos(
            x0,
            y0,
            r,
            c,
        )]
}

/// Whether the draw changes any pixel at all: the sprite has some set bit.
pub open spec fn draw_changes(mem: Seq<u8>, index: u16, n: u8) -> bool {
    exists|r: int, c: int|
        0 <= r < n && 0 <= c < 8 && sprite_bit(sprite_row(mem, index, r), c)
}

/// DRW Vx, Vy, n: XOR the sprite onto the framebuffer; VF reports a
/// collision; the draw flag is set if any pixel changed.
pub open spec fn spec_draw(s: State, x: u8, y: u8, n: u8) -> State {
    let x0 = s.registers[x as int];
    let y0 = s.registers[y as int];
    State {
        output_pins: draw_gfx(s.output_pins, s.memory, s.index, x0, y0, n),
        registers: s.registers.update(
            0xF,
            if draw_collision(s.output_pins, s.memory, s.index, x0, y0, n) {
                1u8
            } else {
                0u8
            },
        ),
        draw: s.draw || draw_changes(s.memory, s.index, n),
        ..advance(s)
    }
}

// ---------------------------------------------------------------------------
// Dispatch, timers, and the full cycle
// ---------------------------------------------------------------------------

/// The 0x0 instruction class: CLS and RET.
pub open spec fn spec_sys(s: State, addr: u16) -> Result<State, Chip8Error> {
    if addr == 0x0E0 {
        Ok(spec_cls(s))
    } else if addr == 0x0EE {
        spec_ret(s)
    } else {
        Err(Chip8Error::UnknownOpcode)
    }
}

/// The 0xF instruction class, dispatched on the immediate byte.
pub open spec fn spec_misc(s: State, x: u8, value: u8) -> Result<State, Chip8Error> {
    match value {
        0x07 => Ok(spec_get_delay(s, x)),
        0x0A => Ok(spec_wait_key(s, x)),
        0x15 => Ok(spec_set_delay(s, x)),
        0x18 => Ok(spec_set_sound(s, x)),
        0x1E => Ok(spec_add_index(s, x)),
        0x29 => spec_load_font(s, x),
        0x33 => Ok(spec_bcd(s, x)),
        0x55 => Ok(spec_reg_dump(s, x)),
        0x65 => Ok(spec_reg_load(s, x)),
        _ => Err(Chip8Error::UnknownOpcode),
    }
}

/// One decoded instruction, executed on `s`. The instruction is given as
/// its class nibble and the three payload nibbles; `rnd` is the random byte
/// consumed by RND and ignored by every other instruction.
pub open spec fn spec_execute(s: State, cls: u8, n1: u8, n2: u8, n3: u8, rnd: u8) -> Result<
    State,
    Chip8Error,
> {
    match cls {
        0x0 => spec_sys(s, payload_address(n1, n2, n3)),
        0x1 => Ok(spec_jump(s, payload_address(n1, n2, n3))),
        0x2 => spec_call(s, payload_address(n1, n2, n3)),
        0x3 => Ok(spec_skip_if(s, s.registers[n1 as int] == payload_value(n2, n3))),
        0x4 => Ok(spec_skip_if(s, s.registers[n1 as int] != payload_value(n2, n3))),
        0x5 => spec_skip_reg(s, n1, n2, n3, true),
        0x6 => Ok(spec_load_imm(s, n1, payload_value(n2, n3))),
        0x7 => Ok(spec_add_imm(s, n1, payload_value(n2, n3))),
        0x8 => spec_alu(s, n1, n2, n3),
        0x9 => spec_skip_reg(s, n1, n2, n3, false),
        0xA => Ok(spec_load_index(s, payload_address(n1, n2, n3))),
        0xB => Ok(spec_jump_v0(s, payload_address(n1, n2, n3))),
        0xC => Ok(spec_random(s, n1, payload_value(n2, n3), rnd)),
        0xD => Ok(spec_draw(s, n1, n2, n3)),
        0xE => spec_skip_key(s, n1, payload_value(n2, n3)),
        0xF => spec_misc(s, n1, payload_value(n2, n3)),
        _ => Err(Chip8Error::UnknownOpcode),
    }
}

/// The timer subsystem, run once after every executed instruction: every
/// tenth cycle both timers count down (stopping at zero) and the cycle
/// counter resets.
pub open spec fn spec_tick(s: State) -> State {
    if s.cycles_since_timer_dec + 1 == CHIP8_TIMER_RESOLUTION {
        State {
            delay_timer: if s.delay_timer > 0 { (s.delay_timer - 1) as u8 } else { 0u8 },
            sound_timer: if s.sound_timer > 0 { (s.sound_timer - 1) as u8 } else { 0u8 },
            cycles_since_timer_dec: 0,
            ..s
        }
    } else {
        State { cycles_since_timer_dec: (s.cycles_since_timer_dec + 1) as u8, ..s }
    }
}

/// The timer subsystem run `k` times in a row, with no instructions in
/// between that touch the timers.
pub open spec fn tick_n(s: State, k: int) -> State
    decreases k,
{
    if k <= 0 {
        s
    } else {
        spec_tick(tick_n(s, k - 1))
    }
}

/// One full execution cycle: fetch the instruction at the program counter,
/// execute it, then run the timer subsystem. Fails without changing the
/// state if no two-byte instruction fits below the program counter, or if
/// the instruction itself is malformed.
pub open spec fn spec_cycle(s: State, rnd: u8) -> Result<State, Chip8Error> {
    if s.program_counter > CHIP8_MEMORY_SIZE - 2 {
        Err(Chip8Error::InvalidProgramCounter)
    } else {
        let hi = s.memory[s.program_counter as int];
        let lo = s.memory[s.program_counter + 1];
        match spec_execute(
            s,
            high_nibble(hi),
            low_nibble(hi),
            high_nibble(lo),
            low_nibble(lo),
            rnd,
        ) {
            Ok(s1) => Ok(spec_tick(s1)),
            Err(e) => Err(e),
        }
    }
}

} // verus!
