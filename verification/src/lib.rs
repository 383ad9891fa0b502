//! A verified CHIP-8 emulation core.
//!
//! The machine state, the opcode decoder and the 35 instruction semantics
//! are implemented as verified executable code; the intended behaviour of
//! every instruction is written down once, as a mathematical transition
//! function over an abstract machine state, and each executable function
//! is proved to implement it.
pub mod chip;
pub mod chip8;
pub mod constants;
pub mod draw;
pub mod laws;
pub mod opcodes;
pub mod state;
pub mod util;
