//! The fixed parameters of the CHIP-8 machine: memory geometry, the program
//! load offset, the timer cadence, and the built-in character sprite font.
use vstd::prelude::*;

verus! {

/// Size of the main memory in bytes.
pub const CHIP8_MEMORY_SIZE: u16 = 4096;

/// Address at which program images are loaded, and the initial value of the
/// program counter.
pub const CHIP8_PROGRAM_OFFSET: u16 = 0x200;

/// Largest loadable program image: everything from the program offset to the
/// end of memory.
pub const CHIP8_MAX_PROGRAM_SIZE: u16 = 3584;

/// Address at which the character sprite font is preloaded.
pub const CHIP8_CHARSET_OFFSET: u16 = 0x50;

/// Length of the character sprite font in bytes: sixteen characters of five
/// rows each.
pub const CHIP8_CHARSET_LEN: u16 = 80;

/// The timers are decremented once every this many execution cycles.
pub const CHIP8_TIMER_RESOLUTION: u8 = 10;

/// The built-in font: one five-row sprite for each of the sixteen hexadecimal
/// characters, in character order.
pub open spec fn charset_seq() -> Seq<u8> {
    seq![
        0xF0u8, 0x90, 0x90, 0x90, 0xF0, // 0
        0x20, 0x60, 0x20, 0x20, 0x70, // 1
        0xF0, 0x10, 0xF0, 0x80, 0xF0, // 2
        0xF0, 0x10, 0xF0, 0x10, 0xF0, // 3
        0x90, 0x90, 0xF0, 0x10, 0x10, // 4
        0xF0, 0x80, 0xF0, 0x10, 0xF0, // 5
        0xF0, 0x80, 0xF0, 0x90, 0xF0, // 6
        0xF0, 0x10, 0x20, 0x40, 0x40, // 7
        0xF0, 0x90, 0xF0, 0x90, 0xF0, // 8
        0xF0, 0x90, 0xF0, 0x10, 0xF0, // 9
        0xF0, 0x90, 0xF0, 0x90, 0x90, // A
        0xE0, 0x90, 0xE0, 0x90, 0xE0, // B
        0xF0, 0x80, 0x80, 0x80, 0xF0, // C
        0xE0, 0x90, 0x90, 0x90, 0xE0, // D
        0xF0, 0x80, 0xF0, 0x80, 0xF0, // E
        0xF0, 0x80, 0xF0, 0x80, 0x80, // F
    ]
}

/// The built-in font as a byte vector, for loading into memory.
pub fn chip8_charset() -> (r: Vec<u8>)
    ensures
        r@ == charset_seq(),
{
    let r: Vec<u8> = vec![
        0xF0u8, 0x90, 0x90, 0x90, 0xF0, // 0
        0x20, 0x60, 0x20, 0x20, 0x70, // 1
        0xF0, 0x10, 0xF0, 0x80, 0xF0, // 2
        0xF0, 0x10, 0xF0, 0x10, 0xF0, // 3
        0x90, 0x90, 0xF0, 0x10, 0x10, // 4
        0xF0, 0x80, 0xF0, 0x10, 0xF0, // 5
        0xF0, 0x80, 0xF0, 0x90, 0xF0, // 6
        0xF0, 0x10, 0x20, 0x40, 0x40, // 7
        0xF0, 0x90, 0xF0, 0x90, 0xF0, // 8
        0xF0, 0x90, 0xF0, 0x10, 0xF0, // 9
        0xF0, 0x90, 0xF0, 0x90, 0x90, // A
        0xE0, 0x90, 0xE0, 0x90, 0xE0, // B
        0xF0, 0x80, 0x80, 0x80, 0xF0, // C
        0xE0, 0x90, 0x90, 0x90, 0xE0, // D
        0xF0, 0x80, 0xF0, 0x80, 0xF0, // E
        0xF0, 0x80, 0xF0, 0x80, 0x80, // F
    ];
    proof {
        assert(r@ =~= charset_seq());
    }
    r
}

} // verus!
