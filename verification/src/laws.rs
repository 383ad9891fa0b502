//! The laws of the instruction set: properties that hold of every machine
//! state, proved once and for all against the spec functions that
//! [`crate::chip8::Chip8::cycle`] is verified to implement.
use vstd::prelude::*;

use crate::chip::Chip8Error;
use crate::draw::lemma_mod_eq_small;
use crate::state::{
    advance, draw_collision, draw_gfx, dump_memory, first_set_pin_from, indexed_addr,
    load_registers, spec_bcd, spec_draw, spec_execute, spec_tick, spec_wait_key, tick_n, wrap_pc,
    State,
};

verus! {

/// ALU addition: executing the add-register instruction on registers `x`
/// and `y` leaves the wrapped byte sum in Vx and sets VF exactly when the
/// true sum overflows a byte. The destination must not be VF itself, since
/// the carry flag is written to VF after the sum.
pub proof fn lemma_alu_addition(s: State, x: u8, y: u8, rnd: u8)
    requires
        s.wf(),
        x < 15,
        y < 16,
    ensures
        ({
            let a = s.registers[x as int];
            let b = s.registers[y as int];
            &&& spec_execute(s, 0x8, x, y, 0x4, rnd) matches Ok(s1)
            &&& spec_execute(s, 0x8, x, y, 0x4, rnd)->Ok_0.registers[x as int] == (a + b) % 256
            &&& (spec_execute(s, 0x8, x, y, 0x4, rnd)->Ok_0.registers[0xF] == 1 <==> a + b > 255)
            &&& (spec_execute(s, 0x8, x, y, 0x4, rnd)->Ok_0.registers[0xF] == 0 <==> a + b <= 255)
        }),
{
}

/// Drawing the identical sprite twice onto a framebuffer restores the
/// framebuffer: XOR-drawing is its own inverse.
pub proof fn lemma_draw_twice_restores(
    gfx: Seq<bool>,
    mem: Seq<u8>,
    index: u16,
    x0: u8,
    y0: u8,
    n: u8,
)
    ensures
        draw_gfx(draw_gfx(gfx, mem, index, x0, y0, n), mem, index, x0, y0, n) == gfx,
{
    assert(draw_gfx(draw_gfx(gfx, mem, index, x0, y0, n), mem, index, x0, y0, n) =~= gfx);
}

/// The same law at the level of machine states: two draws of the same
/// sprite at the same coordinates leave the framebuffer as it started.
/// The coordinate registers must not be VF, which the first draw
/// overwrites with its collision flag.
pub proof fn lemma_double_draw(s: State, x: u8, y: u8, n: u8)
    requires
        s.wf(),
        x < 15,
        y < 15,
    ensures
        spec_draw(spec_draw(s, x, y, n), x, y, n).output_pins == s.output_pins,
{
    let s1 = spec_draw(s, x, y, n);
    assert(s1.registers[x as int] == s.registers[x as int]);
    assert(s1.registers[y as int] == s.registers[y as int]);
    lemma_draw_twice_restores(
        s.output_pins,
        s.memory,
        s.index,
        s.registers[x as int],
        s.registers[y as int],
        n,
    );
}

/// A draw onto a framebuffer whose pixels are all unlit reports no
/// collision: no pixel can go from set to unset.
pub proof fn lemma_draw_clean_no_collision(
    gfx: Seq<bool>,
    mem: Seq<u8>,
    index: u16,
    x0: u8,
    y0: u8,
    n: u8,
)
    requires
        gfx.len() == 64 * 32,
        forall|p: int| 0 <= p < gfx.len() ==> !gfx[p],
    ensures
        !draw_collision(gfx, mem, index, x0, y0, n),
{
    if draw_collision(gfx, mem, index, x0, y0, n) {
        let (r, c) = choose|r: int, c: int|
            0 <= r < n && 0 <= c < 8 && crate::state::sprite_bit(
                crate::state::sprite_row(mem, index, r),
                c,
            ) && gfx[crate::state::pixel_pos(x0, y0, r, c)];
        vstd::arithmetic::div_mod::lemma_mod_division_less_than_divisor(x0 + c, 64);
        vstd::arithmetic::div_mod::lemma_mod_division_less_than_divisor(y0 + r, 32);
        assert(0 <= crate::state::pixel_pos(x0, y0, r, c) < 64 * 32);
        assert(false);
    }
}

/// BCD: the three bytes stored by the decimal-encoding instruction are the
/// hundreds, tens and ones digits of Vx, most significant first.
pub proof fn lemma_bcd_digits(s: State, x: u8)
    requires
        s.wf(),
        x < 16,
    ensures
        ({
            let a = s.registers[x as int];
            let s1 = spec_bcd(s, x);
            &&& s1.memory[indexed_addr(s.index, 0)] == a / 100
            &&& s1.memory[indexed_addr(s.index, 1)] == (a / 10) % 10
            &&& s1.memory[indexed_addr(s.index, 2)] == a % 10
        }),
{
    lemma_indexed_addrs_distinct(s.index, 0, 1);
    lemma_indexed_addrs_distinct(s.index, 0, 2);
    lemma_indexed_addrs_distinct(s.index, 1, 2);
}

/// Two index-relative addresses with distinct small offsets are distinct
/// memory addresses, and both are in bounds.
pub proof fn lemma_indexed_addrs_distinct(index: u16, j: int, k: int)
    requires
        0 <= j < 4096,
        0 <= k < 4096,
        j != k,
    ensures
        indexed_addr(index, j) != indexed_addr(index, k),
        0 <= indexed_addr(index, j) < 4096,
        0 <= indexed_addr(index, k) < 4096,
{
    vstd::arithmetic::div_mod::lemma_mod_division_less_than_divisor(index + j, 4096);
    vstd::arithmetic::div_mod::lemma_mod_division_less_than_divisor(index + k, 4096);
    if indexed_addr(index, j) == indexed_addr(index, k) {
        lemma_mod_eq_small(index + j, index + k, 4096);
    }
}

/// The byte stored for register `r` by a dump of the first `k` registers
/// is exactly the value of register `r`.
pub proof fn lemma_dump_memory_at(mem: Seq<u8>, regs: Seq<u8>, index: u16, k: int, r: int)
    requires
        mem.len() == 4096,
        regs.len() == 16,
        0 <= r < k <= 16,
    ensures
        dump_memory(mem, regs, index, k)[indexed_addr(index, r)] == regs[r],
    decreases k,
{
    crate::state::lemma_dump_memory_len(mem, regs, index, k - 1);
    if r == k - 1 {
        vstd::arithmetic::div_mod::lemma_mod_division_less_than_divisor(index + r, 4096);
    } else {
        lemma_dump_memory_at(mem, regs, index, k - 1, r);
        lemma_indexed_addrs_distinct(index, r, k - 1);
    }
}

/// Register dump/load round-trip: dumping V0 through Vx to memory at an
/// arbitrary index and loading that same range back into a fresh register
/// bank reproduces the dumped registers and leaves the higher registers of
/// the fresh bank at their prior values.
pub proof fn lemma_register_dump_load_round_trip(
    mem: Seq<u8>,
    regs: Seq<u8>,
    fresh: Seq<u8>,
    index: u16,
    x: u8,
)
    requires
        mem.len() == 4096,
        regs.len() == 16,
        fresh.len() == 16,
        x < 16,
    ensures
        ({
            let stored = dump_memory(mem, regs, index, x + 1);
            let loaded = load_registers(stored, fresh, index, x);
            &&& forall|r: int| 0 <= r <= x ==> loaded[r] == regs[r]
            &&& forall|r: int| x < r < 16 ==> loaded[r] == fresh[r]
        }),
{
    let stored = dump_memory(mem, regs, index, x + 1);
    let loaded = load_registers(stored, fresh, index, x);
    assert forall|r: int| 0 <= r <= x implies loaded[r] == regs[r] by {
        lemma_dump_memory_at(mem, regs, index, x + 1, r);
    }
}

/// Timer cadence, from a fresh count: the delay and sound timers keep
/// their values through the first nine consecutive timer steps, and the
/// tenth step counts both down (stopping at zero) and resets the count.
pub proof fn lemma_timer_cadence(s: State, k: int)
    requires
        s.wf(),
        s.cycles_since_timer_dec == 0,
        0 <= k <= 10,
    ensures
        k < 10 ==> tick_n(s, k) == (State { cycles_since_timer_dec: k as u8, ..s }),
        k == 10 ==> tick_n(s, k) == (State {
            delay_timer: if s.delay_timer > 0 { (s.delay_timer - 1) as u8 } else { 0u8 },
            sound_timer: if s.sound_timer > 0 { (s.sound_timer - 1) as u8 } else { 0u8 },
            cycles_since_timer_dec: 0u8,
            ..s
        }),
    decreases k,
{
    if k > 0 {
        lemma_timer_cadence(s, k - 1);
    }
}

/// Wait-for-key: executing the wait instruction with no input pin set
/// leaves the machine exactly as it was — in particular the program
/// counter, so the next cycle re-executes the same instruction. Once some
/// pin is set, the instruction stores the lowest set pin in Vx and
/// advances the program counter by exactly two.
pub proof fn lemma_wait_key(s: State, x: u8)
    requires
        s.wf(),
        x < 16,
    ensures
        first_set_pin_from(s.input_pins, 0) is None ==> spec_wait_key(s, x) == s,
        first_set_pin_from(s.input_pins, 0) matches Some(k) ==> spec_wait_key(s, x) == (State {
            registers: s.registers.update(x as int, k as u8),
            program_counter: wrap_pc(s.program_counter + 2),
            ..s
        }),
{
}

} // verus!
