//! Edge cases: stack limits, out-of-range index register uses, the
//! reset round trip, the unmasked font address, and the polling key
//! wait.

use chip8_core::memory::RAM_SIZE;
use chip8_core::{Chip8, Chip8Error, ROM_START_ADDRESS};

fn run_instruction(chip8: &mut Chip8, instruction: u16) -> Result<(), Chip8Error> {
    let pc = chip8.pc as usize;
    chip8
        .memory
        .write_byte(pc, (instruction >> 8) as u8)
        .expect("Failed to write instruction");
    chip8
        .memory
        .write_byte(pc + 1, (instruction & 0xFF) as u8)
        .expect("Failed to write instruction");
    chip8.run()
}

#[test]
fn test_reset_twice_matches_single_reset() {
    let mut once = Chip8::new().unwrap();
    let mut twice = Chip8::new().unwrap();
    for m in [&mut once, &mut twice] {
        m.registers[3] = 77;
        m.pc = 0x321;
        m.sp = 4;
        m.stack[2] = 0x400;
        m.i = 0x999;
        m.dt = 9;
        m.st = 8;
        m.framebuffer[100] = 1;
        m.keyboard[7] = 1;
        m.display_updated = true;
        m.memory.write_byte(0x700, 0x5A).unwrap();
    }

    once.reset().unwrap();
    twice.reset().unwrap();
    twice.reset().unwrap();

    assert_eq!(once.registers, twice.registers);
    assert_eq!(once.pc, twice.pc);
    assert_eq!(once.sp, twice.sp);
    assert_eq!(once.stack, twice.stack);
    assert_eq!(once.i, twice.i);
    assert_eq!(once.dt, twice.dt);
    assert_eq!(once.st, twice.st);
    assert_eq!(once.framebuffer, twice.framebuffer);
    assert_eq!(once.keyboard, twice.keyboard);
    assert_eq!(once.is_display_updated(), twice.is_display_updated());
    assert_eq!(once.memory.get(0, RAM_SIZE), twice.memory.get(0, RAM_SIZE));
}

#[test]
fn test_call_fails_on_seventeenth() {
    let mut chip8 = Chip8::new().unwrap();

    // Sixteen nested calls fill the stack.
    for _ in 0..16 {
        run_instruction(&mut chip8, 0x2300).unwrap();
        // Move off the subroutine entry so the next call has fresh
        // memory to hold its instruction.
        chip8.pc = 0x200;
    }
    assert_eq!(chip8.sp, 16);

    // The seventeenth call must fail without touching the stack.
    let result = run_instruction(&mut chip8, 0x2300);
    assert!(matches!(result, Err(Chip8Error::SPError(16))));
    assert_eq!(chip8.sp, 16);
}

#[test]
fn test_return_with_empty_stack_fails() {
    let mut chip8 = Chip8::new().unwrap();
    let result = run_instruction(&mut chip8, 0x00EE);
    assert!(matches!(result, Err(Chip8Error::SPOverflow(0))));
    assert_eq!(chip8.sp, 0);
}

#[test]
fn test_draw_fails_past_end_of_memory() {
    let mut chip8 = Chip8::new().unwrap();
    chip8.memory.write_byte(RAM_SIZE - 1, 0xFF).unwrap();
    chip8.i = (RAM_SIZE - 1) as u16;
    chip8.registers[1] = 0;
    chip8.registers[2] = 0;

    // Two rows: the first reads the last byte of memory, the second
    // has no byte to read.
    let result = run_instruction(&mut chip8, 0xD122);
    assert!(matches!(result, Err(Chip8Error::IndexError(4096))));

    // The first row stays drawn, but the updated flag was never raised.
    for col in 0..8 {
        assert_eq!(chip8.framebuffer[col], 1);
    }
    assert!(!chip8.is_display_updated());
}

#[test]
fn test_draw_zero_height_sprite() {
    let mut chip8 = Chip8::new().unwrap();
    chip8.registers[0xF] = 1;
    run_instruction(&mut chip8, 0xD120).unwrap();
    // Nothing drawn, the collision flag recomputed to 0, the updated
    // flag raised all the same.
    assert!(chip8.framebuffer.iter().all(|&p| p == 0));
    assert_eq!(chip8.registers[0xF], 0);
    assert!(chip8.is_display_updated());
}

#[test]
fn test_bcd_fails_past_end_of_memory() {
    let mut chip8 = Chip8::new().unwrap();
    chip8.i = (RAM_SIZE - 2) as u16;
    chip8.registers[0] = 123;
    let result = run_instruction(&mut chip8, 0xF033);
    assert!(matches!(result, Err(Chip8Error::IndexError(4094))));
    // Memory untouched.
    assert_eq!(chip8.memory.read_byte(RAM_SIZE - 2), Some(0));
    assert_eq!(chip8.memory.read_byte(RAM_SIZE - 1), Some(0));
}

#[test]
fn test_store_registers_fails_past_end_of_memory() {
    let mut chip8 = Chip8::new().unwrap();
    for k in 0..16 {
        chip8.registers[k] = k as u8 + 1;
    }
    chip8.i = (RAM_SIZE - 10) as u16;
    let result = run_instruction(&mut chip8, 0xFF55); // needs 16 bytes
    assert!(matches!(result, Err(Chip8Error::IndexError(4086))));
    // Memory untouched: the write is atomic.
    for k in 0..10 {
        assert_eq!(chip8.memory.read_byte(RAM_SIZE - 10 + k), Some(0));
    }
}

#[test]
fn test_load_registers_fails_past_end_of_memory() {
    let mut chip8 = Chip8::new().unwrap();
    chip8.i = (RAM_SIZE - 10) as u16;
    let result = run_instruction(&mut chip8, 0xFF65); // needs 16 bytes
    assert!(matches!(result, Err(Chip8Error::IndexError(4086))));
    // Registers untouched.
    assert_eq!(chip8.registers, [0; 16]);
}

#[test]
fn test_load_rom_exact_fit() {
    let mut chip8 = Chip8::new().unwrap();
    let rom = vec![0xAB; RAM_SIZE - ROM_START_ADDRESS];
    chip8.load_rom(&rom).unwrap();
    assert_eq!(chip8.memory.read_byte(ROM_START_ADDRESS), Some(0xAB));
    assert_eq!(chip8.memory.read_byte(RAM_SIZE - 1), Some(0xAB));
}

#[test]
fn test_load_rom_empty() {
    let mut chip8 = Chip8::new().unwrap();
    let rom: Vec<u8> = Vec::new();
    chip8.load_rom(&rom).unwrap();
    assert_eq!(chip8.memory.read_byte(ROM_START_ADDRESS), Some(0));
}

#[test]
fn test_font_address_not_masked_above_fifteen() {
    let mut chip8 = Chip8::new().unwrap();
    // A register value above 15 addresses past the font table rather
    // than wrapping modulo 16.
    chip8.registers[1] = 16;
    run_instruction(&mut chip8, 0xF129).unwrap();
    assert_eq!(chip8.i, 0x50 + 16 * 5);
}

#[test]
fn test_key_wait_polls_until_pressed() {
    let mut chip8 = Chip8::new().unwrap();
    let initial_pc = chip8.pc;

    // Several cycles with no key: the program counter never moves.
    for _ in 0..3 {
        run_instruction(&mut chip8, 0xF30A).unwrap();
        assert_eq!(chip8.pc, initial_pc);
    }

    // A key arrives; the next cycle captures it and moves on.
    chip8.key_press(0xA);
    run_instruction(&mut chip8, 0xF30A).unwrap();
    assert_eq!(chip8.registers[3], 0xA);
    assert_eq!(chip8.pc, initial_pc + 2);
}

#[test]
fn test_invalid_opcode_mutates_nothing_but_fetch() {
    let mut chip8 = Chip8::new().unwrap();
    chip8.registers[4] = 0x44;
    chip8.i = 0x321;
    chip8.dt = 7;
    let initial_pc = chip8.pc;

    let result = run_instruction(&mut chip8, 0x0FFF);
    assert!(matches!(result, Err(Chip8Error::InvalidOpCode(_))));

    // Only the fetch advance happened.
    assert_eq!(chip8.pc, initial_pc + 2);
    assert_eq!(chip8.registers[4], 0x44);
    assert_eq!(chip8.i, 0x321);
    assert_eq!(chip8.dt, 7);
    assert_eq!(chip8.sp, 0);
    assert!(chip8.framebuffer.iter().all(|&p| p == 0));
}

#[test]
fn test_random_with_zero_mask_is_zero() {
    let mut chip8 = Chip8::new().unwrap();
    for _ in 0..5 {
        chip8.registers[1] = 0xFF;
        run_instruction(&mut chip8, 0xC100).unwrap();
        assert_eq!(chip8.registers[1], 0);
        chip8.pc = 0x200;
    }
}

#[test]
fn test_sound_timer_drives_beep() {
    let mut chip8 = Chip8::new().unwrap();
    chip8.registers[2] = 2;
    run_instruction(&mut chip8, 0xF218).unwrap();
    assert!(chip8.should_beep());
    chip8.tick_timers();
    assert!(chip8.should_beep());
    chip8.tick_timers();
    assert!(!chip8.should_beep());
    chip8.tick_timers();
    assert_eq!(chip8.sound_timer(), 0);
}
