//! Tests of the machine as a whole: construction, program loading, the
//! error taxonomy, the timer cadence, and the laws' concrete scenarios.
use chip_8_emulator::chip::{Chip, Chip8Error, LoadProgramError};
use chip_8_emulator::chip8::{Chip8, Display};

fn with_program(words: &[u16]) -> Chip8 {
    let mut chip8 = Chip8::new();
    let mut bytes = Vec::new();
    for w in words {
        bytes.push((w >> 8) as u8);
        bytes.push((w & 0xFF) as u8);
    }
    chip8.load_program(&bytes).unwrap();
    chip8
}

#[test]
fn test_new_machine() {
    let chip8 = Chip8::new();
    assert_eq!(chip8.program_counter, 0x200);
    assert_eq!(chip8.stack_pointer, 0);
    assert_eq!(chip8.index, 0);
    assert_eq!(chip8.memory.len(), 4096);
    assert_eq!(chip8.registers, vec![0u8; 16]);
    // The font is preloaded at its fixed offset...
    assert_eq!(chip8.memory[0x50], 0xF0);
    assert_eq!(chip8.memory[0x50 + 79], 0x80);
    // ...and the rest of memory is blank.
    assert_eq!(chip8.memory[0x4F], 0);
    assert_eq!(chip8.memory[0xA0], 0);
    assert!(chip8.output_pins.iter().all(|p| !p));
    assert!(chip8.input_pins.iter().all(|p| !p));
}

#[test]
fn test_load_program() {
    let mut chip8 = Chip8::new();
    chip8.load_program(&[1, 2, 3]).unwrap();
    assert_eq!(chip8.memory[0x200], 1);
    assert_eq!(chip8.memory[0x201], 2);
    assert_eq!(chip8.memory[0x202], 3);
    assert_eq!(chip8.memory[0x203], 0);

    let exact_fit = vec![0xAB; 3584];
    let mut chip8 = Chip8::new();
    chip8.load_program(&exact_fit).unwrap();
    assert_eq!(chip8.memory[4095], 0xAB);
}

#[test]
fn test_load_program_too_large_is_atomic() {
    let mut chip8 = Chip8::new();
    let oversized = vec![0xAB; 3585];
    assert_eq!(
        chip8.load_program(&oversized),
        Err(LoadProgramError::ProgramTooLarge(3585))
    );
    // Rejected before any memory mutation occurred.
    assert_eq!(chip8.memory[0x200], 0);
    assert_eq!(chip8.memory[4095], 0);
}

#[test]
fn test_unknown_opcodes_leave_state_untouched() {
    for instruction in [0x00C0u16, 0x5121, 0x800F, 0x9ABC, 0xE0FF, 0xF0FF] {
        let mut chip8 = with_program(&[instruction]);
        assert_eq!(chip8.cycle(), Err(Chip8Error::UnknownOpcode));
        assert_eq!(chip8.program_counter, 0x200);
        assert_eq!(chip8.cycles_since_timer_dec, 0);
    }
}

#[test]
fn test_stack_underflow() {
    let mut chip8 = with_program(&[0x00EE]);
    assert_eq!(chip8.cycle(), Err(Chip8Error::StackUnderflow));
    assert_eq!(chip8.program_counter, 0x200);
    assert_eq!(chip8.stack_pointer, 0);
}

#[test]
fn test_stack_overflow() {
    // A call of its own address fills the stack one level per cycle.
    let mut chip8 = with_program(&[0x2200]);
    for depth in 1..=16 {
        chip8.cycle().unwrap();
        assert_eq!(chip8.stack_pointer, depth);
    }
    assert_eq!(chip8.cycle(), Err(Chip8Error::StackOverflow));
    assert_eq!(chip8.stack_pointer, 16);
    assert_eq!(chip8.program_counter, 0x200);
}

#[test]
fn test_call_then_return() {
    // CALL 0x206, then RET at 0x206.
    let mut chip8 = with_program(&[0x2206, 0x0000, 0x0000]);
    chip8.memory[0x206] = 0x00;
    chip8.memory[0x207] = 0xEE;
    chip8.cycle().unwrap();
    assert_eq!(chip8.program_counter, 0x206);
    assert_eq!(chip8.stack_pointer, 1);
    assert_eq!(chip8.stack[0], 0x202);
    chip8.cycle().unwrap();
    // RET resumes at the popped return address, advanced past it.
    assert_eq!(chip8.program_counter, 0x204);
    assert_eq!(chip8.stack_pointer, 0);
}

#[test]
fn test_invalid_character_index() {
    let mut chip8 = with_program(&[0xF029]);
    chip8.registers[0] = 0x10;
    assert_eq!(chip8.cycle(), Err(Chip8Error::InvalidCharacterIndex));
    assert_eq!(chip8.program_counter, 0x200);
}

#[test]
fn test_invalid_input_pin() {
    for instruction in [0xE09Eu16, 0xE0A1] {
        let mut chip8 = with_program(&[instruction]);
        chip8.registers[0] = 16;
        assert_eq!(chip8.cycle(), Err(Chip8Error::InvalidInputPin));
        assert_eq!(chip8.program_counter, 0x200);
    }
}

#[test]
fn test_invalid_program_counter() {
    let mut chip8 = Chip8::new();
    chip8.program_counter = 4095;
    assert_eq!(chip8.cycle(), Err(Chip8Error::InvalidProgramCounter));
    assert_eq!(chip8.program_counter, 4095);
}

#[test]
fn test_random_masked() {
    // The random byte is masked with the immediate: a zero mask pins the
    // result, whatever byte the generator produced.
    let mut chip8 = with_program(&[0xC000]);
    chip8.registers[0] = 0xAA;
    chip8.cycle().unwrap();
    assert_eq!(chip8.registers[0], 0);
    assert_eq!(chip8.program_counter, 0x202);

    let mut chip8 = with_program(&[0xC30F]);
    chip8.cycle().unwrap();
    assert!(chip8.registers[3] <= 0x0F);
}

#[test]
fn test_clear_screen() {
    // Clearing a blank screen leaves the draw flag alone.
    let mut chip8 = with_program(&[0x00E0]);
    chip8.cycle().unwrap();
    assert!(!chip8.draw);
    assert_eq!(chip8.program_counter, 0x202);

    // Clearing a lit screen clears every pixel and raises the draw flag.
    let mut chip8 = with_program(&[0x00E0]);
    chip8.output_pins[77] = true;
    chip8.output_pins[2047] = true;
    chip8.cycle().unwrap();
    assert!(chip8.output_pins.iter().all(|p| !p));
    assert!(chip8.draw);
}

#[test]
fn test_alu_addition_carry() {
    // 200 + 100 wraps to 44 with the carry flag set.
    let mut chip8 = with_program(&[0x8014]);
    chip8.registers[0] = 200;
    chip8.registers[1] = 100;
    chip8.cycle().unwrap();
    assert_eq!(chip8.registers[0], 44);
    assert_eq!(chip8.registers[0xF], 1);

    // 1 + 2 does not carry.
    let mut chip8 = with_program(&[0x8014]);
    chip8.registers[0] = 1;
    chip8.registers[1] = 2;
    chip8.registers[0xF] = 1;
    chip8.cycle().unwrap();
    assert_eq!(chip8.registers[0], 3);
    assert_eq!(chip8.registers[0xF], 0);
}

#[test]
fn test_draw_twice_restores_screen() {
    // Drawing the same sprite twice at the same coordinates restores the
    // touched region: the first draw on a clean region reports no
    // collision, the second unlights exactly what the first lit.
    let mut chip8 = with_program(&[0xD015, 0xD015]);
    chip8.index = 0x50;
    chip8.cycle().unwrap();
    assert_eq!(chip8.registers[0xF], 0);
    assert!(chip8.output_pins.iter().any(|p| *p));
    chip8.cycle().unwrap();
    assert!(chip8.output_pins.iter().all(|p| !p));
    // Every pixel the second draw touched was lit, so it collided.
    assert_eq!(chip8.registers[0xF], 1);
    assert!(chip8.draw);
}

#[test]
fn test_bcd_255() {
    let mut chip8 = with_program(&[0xF033]);
    chip8.registers[0] = 255;
    chip8.index = 0x300;
    chip8.cycle().unwrap();
    assert_eq!(chip8.memory[0x300], 2);
    assert_eq!(chip8.memory[0x301], 5);
    assert_eq!(chip8.memory[0x302], 5);
}

#[test]
fn test_dump_then_load_fresh_bank() {
    // Dump V0..=V2, wipe the register bank, load the range back: the dumped
    // registers reappear and the higher registers keep their fresh values.
    let mut chip8 = with_program(&[0xF255, 0xF265]);
    chip8.registers[0] = 7;
    chip8.registers[1] = 8;
    chip8.registers[2] = 9;
    chip8.index = 0x400;
    chip8.cycle().unwrap();
    for r in 0..16 {
        chip8.registers[r] = 0;
    }
    chip8.registers[3] = 0x55;
    chip8.cycle().unwrap();
    assert_eq!(&chip8.registers[0..4], &[7, 8, 9, 0x55]);
    assert!(chip8.registers[4..].iter().all(|v| *v == 0));
}

#[test]
fn test_alu_flag_conventions() {
    // Subtraction sets VF to 1 exactly when there is no borrow; equal
    // operands do not borrow.
    let mut chip8 = with_program(&[0x8015]);
    chip8.registers[0] = 5;
    chip8.registers[1] = 5;
    chip8.cycle().unwrap();
    assert_eq!(chip8.registers[0], 0);
    assert_eq!(chip8.registers[0xF], 1);

    let mut chip8 = with_program(&[0x8015]);
    chip8.registers[0] = 4;
    chip8.registers[1] = 5;
    chip8.cycle().unwrap();
    assert_eq!(chip8.registers[0], 255);
    assert_eq!(chip8.registers[0xF], 0);

    // Reversed subtraction borrows the other way around.
    let mut chip8 = with_program(&[0x8017]);
    chip8.registers[0] = 5;
    chip8.registers[1] = 4;
    chip8.cycle().unwrap();
    assert_eq!(chip8.registers[0], 255);
    assert_eq!(chip8.registers[0xF], 0);

    // Shifting right reports the dropped low bit.
    let mut chip8 = with_program(&[0x8016]);
    chip8.registers[0] = 5;
    chip8.cycle().unwrap();
    assert_eq!(chip8.registers[0], 2);
    assert_eq!(chip8.registers[0xF], 1);

    // Shifting left reports the dropped high bit.
    let mut chip8 = with_program(&[0x801E]);
    chip8.registers[0] = 0x81;
    chip8.cycle().unwrap();
    assert_eq!(chip8.registers[0], 2);
    assert_eq!(chip8.registers[0xF], 1);
}

#[test]
fn test_draw_wraps_around_edges() {
    // The font sprite for 0 drawn at (60, 30) wraps around both screen
    // edges: its rows are F0 90 90 90 F0, eight columns wide.
    let mut chip8 = with_program(&[0xD015]);
    chip8.registers[0] = 60;
    chip8.registers[1] = 30;
    chip8.index = 0x50;
    chip8.cycle().unwrap();
    let pixel = |x: usize, y: usize| chip8.output_pins[y * 64 + x];
    // Top row of the sprite (0xF0) lands on screen row 30.
    assert!(pixel(60, 30) && pixel(61, 30) && pixel(62, 30) && pixel(63, 30));
    assert!(!pixel(0, 30));
    // The third sprite row (0x90) wraps to screen row 0: bits 0 and 3 only.
    assert!(pixel(60, 0));
    assert!(!pixel(61, 0) && !pixel(62, 0));
    assert!(pixel(63, 0));
    // The bottom row (0xF0) wraps to screen row 2.
    assert!(pixel(60, 2) && pixel(63, 2));
}

#[test]
fn test_draw_zero_rows() {
    let mut chip8 = with_program(&[0xD010]);
    chip8.registers[0xF] = 1;
    chip8.cycle().unwrap();
    assert!(chip8.output_pins.iter().all(|p| !p));
    assert_eq!(chip8.registers[0xF], 0);
    assert!(!chip8.draw);
    assert_eq!(chip8.program_counter, 0x202);
}

#[test]
fn test_draw_sprite_source_wraps_memory() {
    // The sprite source address wraps at the end of memory: with the index
    // register at 4095, the second row comes from address 0.
    let mut chip8 = with_program(&[0xD012]);
    chip8.memory[4095] = 0x80;
    chip8.memory[0] = 0x40;
    chip8.index = 4095;
    chip8.cycle().unwrap();
    assert!(chip8.output_pins[0]);
    assert!(chip8.output_pins[64 + 1]);
}

#[test]
fn test_bcd_wraps_memory() {
    let mut chip8 = with_program(&[0xF033]);
    chip8.registers[0] = 217;
    chip8.index = 4094;
    chip8.cycle().unwrap();
    assert_eq!(chip8.memory[4094], 2);
    assert_eq!(chip8.memory[4095], 1);
    assert_eq!(chip8.memory[0], 7);
}

#[test]
fn test_reg_dump_wraps_memory() {
    let mut chip8 = with_program(&[0xF155]);
    chip8.registers[0] = 0x11;
    chip8.registers[1] = 0x22;
    chip8.index = 4095;
    chip8.cycle().unwrap();
    assert_eq!(chip8.memory[4095], 0x11);
    assert_eq!(chip8.memory[0], 0x22);
}

#[test]
fn test_timer_cadence() {
    // A jump to its own address never touches the timers; with the delay
    // timer at 1, it must read 1 after each of the first nine cycles and 0
    // only after the tenth.
    let mut chip8 = with_program(&[0x1200]);
    chip8.delay_timer = 1;
    chip8.sound_timer = 1;
    for _ in 0..9 {
        chip8.cycle().unwrap();
        assert_eq!(chip8.delay_timer, 1);
        assert_eq!(chip8.sound_timer, 1);
    }
    chip8.cycle().unwrap();
    assert_eq!(chip8.delay_timer, 0);
    assert_eq!(chip8.sound_timer, 0);
    // The timers stop at zero.
    for _ in 0..10 {
        chip8.cycle().unwrap();
    }
    assert_eq!(chip8.delay_timer, 0);
    assert_eq!(chip8.sound_timer, 0);
}

#[test]
fn test_wait_for_key_sequence() {
    // Wait for a key at 0x200, then load V0 at 0x202.
    let mut chip8 = with_program(&[0xF30A, 0x6099]);
    for _ in 0..3 {
        chip8.cycle().unwrap();
        assert_eq!(chip8.program_counter, 0x200);
    }
    chip8.set_input_pin(5, true);
    chip8.cycle().unwrap();
    assert_eq!(chip8.registers[3], 5);
    assert_eq!(chip8.program_counter, 0x202);
    // The wait instruction is not re-executed: the next cycle runs the
    // following instruction, even though the pin is still set.
    chip8.cycle().unwrap();
    assert_eq!(chip8.registers[0], 0x99);
    assert_eq!(chip8.program_counter, 0x204);
    assert_eq!(chip8.registers[3], 5);
}

#[test]
fn test_wait_for_key_lowest_pin_wins() {
    let mut chip8 = with_program(&[0xF00A]);
    chip8.input_pins[9] = true;
    chip8.input_pins[4] = true;
    chip8.cycle().unwrap();
    assert_eq!(chip8.registers[0], 4);
}

#[test]
fn test_input_pins() {
    let mut chip8 = Chip8::new();
    chip8.set_input_pin(0, true);
    chip8.set_input_pin(15, true);
    assert!(chip8.input_pins[0]);
    assert!(chip8.input_pins[15]);
    assert!(!chip8.input_pins[7]);
    chip8.reset_input_pins();
    assert!(chip8.input_pins.iter().all(|p| !p));
}

#[test]
fn test_read_output_pins() {
    let mut chip8 = Chip8::new();
    chip8.output_pins[123] = true;
    let pins = chip8.read_output_pins();
    assert_eq!(pins.len(), 64 * 32);
    assert!(pins[123]);
    assert!(!pins[124]);
}

#[test]
fn test_display_snapshot() {
    let mut chip8 = Chip8::new();
    chip8.output_pins[5] = true;
    let display = chip8.get_display();
    assert_eq!(display.pixels, chip8.output_pins);

    let blank = Display::default();
    assert_eq!(blank.pixels.len(), 64 * 32);
    assert!(blank.pixels.iter().all(|p| !p));

    let display = Display::new(vec![true; 64 * 32]);
    assert!(display.pixels.iter().all(|p| *p));
}

/// Drives any chip through the generic interface.
fn run_cycles<C: Chip>(chip: &mut C, n: usize) -> Result<(), C::Error> {
    for _ in 0..n {
        chip.cycle()?;
    }
    Ok(())
}

#[test]
fn test_generic_chip_interface() {
    let mut chip8 = Chip8::new();
    Chip::load_program(&mut chip8, &[0x12, 0x00]).unwrap();
    run_cycles(&mut chip8, 25).unwrap();
    assert_eq!(chip8.program_counter, 0x200);
    assert_eq!(chip8.delay_timer, 0);
    Chip::set_input_pin(&mut chip8, 3, true);
    assert!(chip8.input_pins[3]);
    Chip::reset_input_pins(&mut chip8);
    assert!(!chip8.input_pins[3]);
    assert_eq!(Chip::read_output_pins(&chip8).len(), 64 * 32);
}

#[test]
fn test_execute_opcode_directly() {
    // Executing a fetched opcode performs the instruction but, unlike a
    // full cycle, leaves the timer subsystem alone.
    let mut chip8 = with_program(&[0x6442]);
    let opcode = chip8.next_instruction();
    opcode.execute(&mut chip8).unwrap();
    assert_eq!(chip8.registers[4], 0x42);
    assert_eq!(chip8.program_counter, 0x202);
    assert_eq!(chip8.cycles_since_timer_dec, 0);
}

#[test]
fn test_next_instruction_decodes() {
    let chip8 = with_program(&[0xDABC]);
    let opcode = chip8.next_instruction();
    assert_eq!(opcode.instruction_class, 0xD);
    assert_eq!(opcode.payload.operands(), (0xA, 0xB, 0xC));
    assert_eq!(opcode.payload.address(), 0xABC);
    assert_eq!(opcode.payload.reg_and_value(), (0xA, 0xBC));
}
