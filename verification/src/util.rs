//! Convenience functions for modification of the CHIP-8 state.
use vstd::prelude::*;

use crate::chip8::Chip8;
use crate::state::{advance, wrap_pc, State};

verus! {

/// Convenience function to increment the program counter past the current
/// instruction, wrapping at the end of memory.
pub fn increment_program_counter(state: &mut Chip8)
    requires
        old(state).wf(),
    ensures
        final(state).wf(),
        final(state)@ == advance(old(state)@),
{
    state.program_counter = (state.program_counter + 2) % 4096;
}

/// Convenience function to skip the next instruction when `skip` holds: the
/// program counter moves one extra instruction forward.
pub fn conditional_skip(state: &mut Chip8, skip: bool)
    requires
        old(state).wf(),
    ensures
        final(state).wf(),
        final(state)@ == if skip {
            advance(old(state)@)
        } else {
            old(state)@
        },
{
    if skip {
        increment_program_counter(state);
    }
}

/// Skipping and then advancing lands the program counter exactly one or two
/// instructions further, which is what the conditional-skip instructions
/// promise.
pub proof fn lemma_skip_then_advance(s: State, cond: bool)
    requires
        s.wf(),
    ensures
        advance(if cond {
            advance(s)
        } else {
            s
        }) == crate::state::spec_skip_if(s, cond),
{
    let four_ahead = wrap_pc(s.program_counter + 4);
    if cond {
        assert(wrap_pc(wrap_pc(s.program_counter + 2) + 2) == four_ahead) by {
            vstd::arithmetic::div_mod::lemma_add_mod_noop(
                s.program_counter + 2,
                2,
                4096,
            );
        }
    }
}

} // verus!
