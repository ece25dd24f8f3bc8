use chip8_emulator::chip8::Chip8;
use chip8_emulator::inout::{beep_duration_ms, Display, Keyboard, DARK_COLOR, FONTSET, LIT_COLOR};
use chip8_emulator::isa::{decode, Instruction};
use chip8_emulator::machine::CycleFault;
use chip8_emulator::memory::Stack;

fn machine_with(program: &[u8]) -> Chip8 {
    let mut chip8 = Chip8::new();
    chip8.load_program(program);
    chip8
}

fn run_checked(chip8: &mut Chip8, cycles: usize) {
    for _ in 0..cycles {
        assert_eq!(chip8.check_cycle(), Ok(()));
        chip8.emulate_cycle();
    }
}

#[test]
fn new_machine_state() {
    let chip8 = Chip8::new();
    assert_eq!(chip8.program_counter, 0x200);
    assert_eq!(chip8.index_pointer, 0);
    assert_eq!(chip8.random_state, 0xACE1);
    assert_eq!(chip8.registers, [0u8; 16]);
    assert_eq!(&chip8.memory[0x50..0xA0], &FONTSET[..]);
    assert!(chip8.memory[..0x50].iter().all(|&b| b == 0));
    assert!(chip8.memory[0xA0..].iter().all(|&b| b == 0));
    assert_eq!(chip8.stack.depth(), 0);
    assert_eq!(chip8.display.width, 64);
    assert_eq!(chip8.display.height, 32);
    assert!(!chip8.display.modify_display);
    assert!(chip8.display.pixel.iter().all(|&p| !p));
    assert!(chip8.keyboard.key.iter().all(|&k| !k));
}

#[test]
fn load_program_places_bytes_at_start() {
    let mut chip8 = Chip8::new();
    chip8.program_counter = 0x300;
    chip8.load_program(&[1, 2, 3]);
    assert_eq!(chip8.program_counter, 0x200);
    assert_eq!(chip8.memory[0x200..0x203], [1, 2, 3]);
    assert_eq!(chip8.memory[0x203], 0);
    assert_eq!(chip8.memory[0x1FF], 0);
}

#[test]
fn load_program_filling_all_memory() {
    let program = vec![0xAB; 4096 - 0x200];
    let chip8 = machine_with(&program);
    assert_eq!(chip8.memory[4095], 0xAB);
    assert_eq!(chip8.memory[0x200], 0xAB);
}

#[test]
fn load_fontset_writes_font_only() {
    let mut memory = [7u8; 4096];
    Chip8::load_fontset(&mut memory);
    assert_eq!(&memory[0x50..0xA0], &FONTSET[..]);
    assert_eq!(memory[0x4F], 7);
    assert_eq!(memory[0xA0], 7);
}

#[test]
fn tick_timers_counts_down_and_stops_at_zero() {
    let mut chip8 = Chip8::new();
    chip8.delay_timer = 2;
    chip8.sound_timer = 1;
    chip8.tick_timers();
    assert_eq!((chip8.delay_timer, chip8.sound_timer), (1, 0));
    chip8.tick_timers();
    assert_eq!((chip8.delay_timer, chip8.sound_timer), (0, 0));
    chip8.tick_timers();
    assert_eq!((chip8.delay_timer, chip8.sound_timer), (0, 0));
}

#[test]
fn decode_examples() {
    assert_eq!(decode(0x00E0), Some(Instruction::ClearScreen));
    assert_eq!(decode(0x00EE), Some(Instruction::Return));
    assert_eq!(decode(0x0123), None);
    assert_eq!(decode(0x1ABC), Some(Instruction::Jump(0xABC)));
    assert_eq!(decode(0x2ABC), Some(Instruction::Call(0xABC)));
    assert_eq!(decode(0x3A42), Some(Instruction::SkipIfEqual(0xA, 0x42)));
    assert_eq!(decode(0x5AB7), Some(Instruction::SkipIfRegistersEqual(0xA, 0xB)));
    assert_eq!(decode(0x8AB4), Some(Instruction::AddRegisters(0xA, 0xB)));
    assert_eq!(decode(0x8AB8), None);
    assert_eq!(decode(0x8ABE), Some(Instruction::ShiftLeft(0xA, 0xB)));
    assert_eq!(decode(0xD125), Some(Instruction::Draw(1, 2, 5)));
    assert_eq!(decode(0xE39E), Some(Instruction::SkipIfKey(3)));
    assert_eq!(decode(0xE3A2), None);
    assert_eq!(decode(0xF30A), Some(Instruction::WaitKey(3)));
    assert_eq!(decode(0xF365), Some(Instruction::LoadRegisters(3)));
    assert_eq!(decode(0xF366), None);
}

#[test]
fn jumps_and_skips() {
    // 1206: jump to 0x206; 3005 (not taken: v0 == 0 != 5); 3000 (taken); skipped; 6107
    let mut chip8 = machine_with(&[0x12, 0x06, 0x00, 0x00, 0x00, 0x00, 0x30, 0x05, 0x30, 0x00, 0x61, 0x01, 0x61, 0x07]);
    run_checked(&mut chip8, 4);
    assert_eq!(chip8.registers[1], 7);
    assert_eq!(chip8.program_counter, 0x20E);
}

#[test]
fn skip_register_comparisons() {
    // v0 = 1, v1 = 1; 5010 skips; 9010 does not skip
    let mut chip8 = machine_with(&[0x60, 0x01, 0x61, 0x01, 0x50, 0x10, 0x00, 0x00, 0x90, 0x10, 0x40, 0x01]);
    run_checked(&mut chip8, 3);
    assert_eq!(chip8.program_counter, 0x208);
    run_checked(&mut chip8, 1);
    assert_eq!(chip8.program_counter, 0x20A);
    // 4001: v0 == 1, so no skip
    run_checked(&mut chip8, 1);
    assert_eq!(chip8.program_counter, 0x20C);
}

#[test]
fn add_immediate_wraps_without_flag() {
    let mut chip8 = machine_with(&[0x60, 0xFE, 0x70, 0x05]);
    run_checked(&mut chip8, 2);
    assert_eq!(chip8.registers[0], 3);
    assert_eq!(chip8.registers[0xF], 0);
}

#[test]
fn logic_operations() {
    let mut chip8 = machine_with(&[
        0x60, 0b1100, 0x61, 0b1010, 0x82, 0x00, 0x82, 0x11, // v2 = v0; v2 |= v1
        0x83, 0x00, 0x83, 0x12, // v3 = v0 & v1
        0x84, 0x00, 0x84, 0x13, // v4 = v0 ^ v1
    ]);
    run_checked(&mut chip8, 8);
    assert_eq!(chip8.registers[2], 0b1110);
    assert_eq!(chip8.registers[3], 0b1000);
    assert_eq!(chip8.registers[4], 0b0110);
}

#[test]
fn subtraction_flags() {
    // v0 = 5, v1 = 7: 8015 -> v0 = 254, vF = 0 (borrow)
    let mut chip8 = machine_with(&[0x60, 0x05, 0x61, 0x07, 0x80, 0x15]);
    run_checked(&mut chip8, 3);
    assert_eq!(chip8.registers[0], 254);
    assert_eq!(chip8.registers[0xF], 0);
    // v0 = 5, v1 = 7: 8017 -> v0 = 2, vF = 1 (no borrow)
    let mut chip8 = machine_with(&[0x60, 0x05, 0x61, 0x07, 0x80, 0x17]);
    run_checked(&mut chip8, 3);
    assert_eq!(chip8.registers[0], 2);
    assert_eq!(chip8.registers[0xF], 1);
    // equal values: no borrow
    let mut chip8 = machine_with(&[0x60, 0x07, 0x61, 0x07, 0x80, 0x15]);
    run_checked(&mut chip8, 3);
    assert_eq!(chip8.registers[0], 0);
    assert_eq!(chip8.registers[0xF], 1);
}

#[test]
fn shift_flags_keep_dropped_bit() {
    let mut chip8 = machine_with(&[0x60, 0x81, 0x80, 0x06]);
    run_checked(&mut chip8, 2);
    assert_eq!(chip8.registers[0], 0x40);
    assert_eq!(chip8.registers[0xF], 1);
    let mut chip8 = machine_with(&[0x60, 0x81, 0x80, 0x0E]);
    run_checked(&mut chip8, 2);
    assert_eq!(chip8.registers[0], 0x02);
    assert_eq!(chip8.registers[0xF], 1);
}

#[test]
fn shifts_take_vy() {
    // v0 = 4, v1 = 8: 8016 -> v0 = v1 >> 1 = 4, vF = 0
    let mut chip8 = machine_with(&[0x60, 0x04, 0x61, 0x08, 0x80, 0x16]);
    run_checked(&mut chip8, 3);
    assert_eq!(chip8.registers[0], 4);
    assert_eq!(chip8.registers[1], 8);
    assert_eq!(chip8.registers[0xF], 0);
    // v0 = 4, v1 = 0x81: 801E -> v0 = 0x02, vF = 1 (top bit of v1)
    let mut chip8 = machine_with(&[0x60, 0x04, 0x61, 0x81, 0x80, 0x1E]);
    run_checked(&mut chip8, 3);
    assert_eq!(chip8.registers[0], 0x02);
    assert_eq!(chip8.registers[0xF], 1);
    // v0 = 0, v1 = 3: 8016 -> v0 = 1, vF = 1
    let mut chip8 = machine_with(&[0x61, 0x03, 0x80, 0x16]);
    run_checked(&mut chip8, 2);
    assert_eq!(chip8.registers[0], 1);
    assert_eq!(chip8.registers[0xF], 1);
}

#[test]
fn logic_operations_clear_flag() {
    for op in [0x01u8, 0x02, 0x03] {
        let mut chip8 = machine_with(&[0x6F, 0x01, 0x60, 0x0C, 0x61, 0x0A, 0x80, 0x10 | op]);
        run_checked(&mut chip8, 4);
        assert_eq!(chip8.registers[0xF], 0);
    }
}

#[test]
fn store_registers_advances_index() {
    // 6004, 6108, 8016, A300, F155: v0 = 4, index ends at 0x302
    let mut chip8 = machine_with(&[0x60, 0x04, 0x61, 0x08, 0x80, 0x16, 0xA3, 0x00, 0xF1, 0x55]);
    run_checked(&mut chip8, 5);
    assert_eq!(chip8.registers[0], 4);
    assert_eq!(chip8.memory[0x300..0x302], [4, 8]);
    assert_eq!(chip8.index_pointer, 0x302);
}

#[test]
fn load_registers_advances_index() {
    let mut chip8 = machine_with(&[0xA3, 0x00, 0xF2, 0x65]);
    chip8.memory[0x300] = 5;
    chip8.memory[0x301] = 6;
    chip8.memory[0x302] = 7;
    chip8.memory[0x303] = 8;
    run_checked(&mut chip8, 2);
    assert_eq!(chip8.registers[..4], [5, 6, 7, 0]);
    assert_eq!(chip8.index_pointer, 0x303);
}

#[test]
fn flag_register_as_operand_ends_with_flag() {
    // vF = 0xFF, v1 = 2: 8F14 -> vF receives the carry, not the sum
    let mut chip8 = machine_with(&[0x6F, 0xFF, 0x61, 0x02, 0x8F, 0x14]);
    run_checked(&mut chip8, 3);
    assert_eq!(chip8.registers[0xF], 1);
}

#[test]
fn index_and_jump_plus_v0() {
    // A123; v0 = 4; F01E -> index 0x127; B300 -> pc 0x304
    let mut chip8 = machine_with(&[0xA1, 0x23, 0x60, 0x04, 0xF0, 0x1E, 0xB3, 0x00]);
    run_checked(&mut chip8, 4);
    assert_eq!(chip8.index_pointer, 0x127);
    assert_eq!(chip8.program_counter, 0x304);
}

#[test]
fn add_to_index_wraps() {
    let mut chip8 = machine_with(&[0x60, 0x10, 0xF0, 0x1E]);
    chip8.index_pointer = 0xFFF8;
    run_checked(&mut chip8, 2);
    assert_eq!(chip8.index_pointer, 0x0008);
}

#[test]
fn random_uses_xorshift() {
    // C0FF: first random byte from the seed 0xACE1 is 0x0F; C1F0 masks it
    let mut chip8 = machine_with(&[0xC0, 0xFF]);
    run_checked(&mut chip8, 1);
    assert_eq!(chip8.registers[0], 0x0F);
    assert_eq!(chip8.random_state, 0xD30F);
    let mut chip8 = machine_with(&[0xC1, 0xF0]);
    run_checked(&mut chip8, 1);
    assert_eq!(chip8.registers[1], 0x00);
}

#[test]
fn random_state_never_sticks_at_zero() {
    let mut chip8 = machine_with(&[0xC0, 0xFF, 0x12, 0x00]);
    for _ in 0..2000 {
        run_checked(&mut chip8, 2);
        assert_ne!(chip8.random_state, 0);
    }
}

#[test]
fn font_sprite_points_at_digit() {
    // v0 = 0x1B: digit B
    let mut chip8 = machine_with(&[0x60, 0x1B, 0xF0, 0x29]);
    run_checked(&mut chip8, 2);
    assert_eq!(chip8.index_pointer, 0x50 + 0xB * 5);
    let i = chip8.index_pointer as usize;
    assert_eq!(&chip8.memory[i..i + 5], &FONTSET[55..60]);
}

#[test]
fn store_and_load_registers_round_trip() {
    // v0..v2 = 1, 2, 3; index 0x300; F255 stores; clear regs; index 0x300; F265 loads
    let mut chip8 = machine_with(&[
        0x60, 0x01, 0x61, 0x02, 0x62, 0x03, 0x63, 0x09, 0xA3, 0x00, 0xF2, 0x55, 0x60, 0x00, 0x61,
        0x00, 0x62, 0x00, 0xA3, 0x00, 0xF2, 0x65,
    ]);
    run_checked(&mut chip8, 6);
    assert_eq!(chip8.memory[0x300..0x304], [1, 2, 3, 0]);
    assert_eq!(chip8.index_pointer, 0x303);
    run_checked(&mut chip8, 5);
    assert_eq!(chip8.registers[..4], [1, 2, 3, 9]);
    assert_eq!(chip8.index_pointer, 0x303);
}

#[test]
fn timers_from_registers() {
    let mut chip8 = machine_with(&[0x60, 0x09, 0xF0, 0x15, 0xF0, 0x18, 0xF1, 0x07]);
    run_checked(&mut chip8, 4);
    assert_eq!(chip8.delay_timer, 9);
    assert_eq!(chip8.sound_timer, 9);
    assert_eq!(chip8.registers[1], 9);
}

#[test]
fn wait_key_repeats_until_pressed() {
    let mut chip8 = machine_with(&[0xF3, 0x0A]);
    run_checked(&mut chip8, 1);
    assert_eq!(chip8.program_counter, 0x200);
    chip8.keyboard.key[0xC] = true;
    chip8.keyboard.key[0xE] = true;
    run_checked(&mut chip8, 1);
    assert_eq!(chip8.program_counter, 0x202);
    assert_eq!(chip8.registers[3], 0xC);
}

#[test]
fn key_skips() {
    // v0 = 5; E09E skips when key 5 is down; E0A1 skips when it is up
    let mut chip8 = machine_with(&[0x60, 0x05, 0xE0, 0x9E, 0x00, 0x00, 0xE0, 0xA1]);
    chip8.keyboard.key[5] = true;
    run_checked(&mut chip8, 2);
    assert_eq!(chip8.program_counter, 0x206);
    run_checked(&mut chip8, 1);
    assert_eq!(chip8.program_counter, 0x208);
}

#[test]
fn clear_screen_opcode() {
    let mut chip8 = machine_with(&[0x00, 0xE0]);
    chip8.display.pixel[100] = true;
    run_checked(&mut chip8, 1);
    assert!(chip8.display.pixel.iter().all(|&p| !p));
    assert!(chip8.display.modify_display);
}

#[test]
fn fault_program_counter_out_of_memory() {
    let mut chip8 = Chip8::new();
    chip8.program_counter = 4095;
    assert_eq!(chip8.check_cycle(), Err(CycleFault::ProgramCounterOutOfMemory(4095)));
}

#[test]
fn fault_unknown_opcode() {
    let chip8 = machine_with(&[0x01, 0x23]);
    assert_eq!(chip8.check_cycle(), Err(CycleFault::UnknownOpcode(0x0123)));
    let chip8 = machine_with(&[0xF0, 0xFF]);
    assert_eq!(chip8.check_cycle(), Err(CycleFault::UnknownOpcode(0xF0FF)));
}

#[test]
fn fault_stack_underflow_and_overflow() {
    let chip8 = machine_with(&[0x00, 0xEE]);
    assert_eq!(chip8.check_cycle(), Err(CycleFault::StackUnderflow));
    // 2200 calls itself forever: the seventeenth call overflows
    let mut chip8 = machine_with(&[0x22, 0x00]);
    run_checked(&mut chip8, 16);
    assert_eq!(chip8.stack.depth(), 16);
    assert_eq!(chip8.check_cycle(), Err(CycleFault::StackOverflow));
}

#[test]
fn fault_memory_out_of_range() {
    let mut chip8 = machine_with(&[0xD0, 0x05]);
    chip8.index_pointer = 4092;
    assert_eq!(chip8.check_cycle(), Err(CycleFault::MemoryOutOfRange));
    chip8.index_pointer = 4091;
    assert_eq!(chip8.check_cycle(), Ok(()));
    let mut chip8 = machine_with(&[0xF0, 0x33]);
    chip8.index_pointer = 4094;
    assert_eq!(chip8.check_cycle(), Err(CycleFault::MemoryOutOfRange));
    let mut chip8 = machine_with(&[0xF3, 0x55]);
    chip8.index_pointer = 4093;
    assert_eq!(chip8.check_cycle(), Err(CycleFault::MemoryOutOfRange));
    chip8.index_pointer = 4092;
    assert_eq!(chip8.check_cycle(), Ok(()));
    let mut chip8 = machine_with(&[0xF3, 0x65]);
    chip8.index_pointer = 4093;
    assert_eq!(chip8.check_cycle(), Err(CycleFault::MemoryOutOfRange));
}

#[test]
fn fault_key_out_of_range_and_display_shape() {
    let mut chip8 = machine_with(&[0xE0, 0x9E]);
    chip8.registers[0] = 16;
    assert_eq!(chip8.check_cycle(), Err(CycleFault::KeyOutOfRange(16)));
    let mut chip8 = machine_with(&[0xD0, 0x01]);
    chip8.display.width = 0;
    assert_eq!(chip8.check_cycle(), Err(CycleFault::BadDisplayShape));
    chip8.display.width = 64;
    chip8.display.height = 0;
    assert_eq!(chip8.check_cycle(), Err(CycleFault::BadDisplayShape));
    chip8.display.width = 32;
    chip8.display.height = 64;
    assert_eq!(chip8.check_cycle(), Ok(()));
}

#[test]
fn fault_sprite_outside_buffer() {
    // v0 = 60, v1 = 31, index = font 0, draw one row on a 65-wide screen
    let mut chip8 = machine_with(&[0x60, 0x3C, 0x61, 0x1F, 0xA0, 0x50, 0xD0, 0x11]);
    chip8.display.width = 65;
    run_checked(&mut chip8, 3);
    assert_eq!(chip8.check_cycle(), Err(CycleFault::SpriteOutsideBuffer));
    // the same draw one row higher stays inside the buffer
    chip8.registers[1] = 30;
    assert_eq!(chip8.check_cycle(), Ok(()));
    // an empty sprite fits anywhere
    let mut chip8 = machine_with(&[0xD0, 0x10]);
    chip8.display.width = 1000;
    chip8.display.height = 1000;
    assert_eq!(chip8.check_cycle(), Ok(()));
}

#[test]
fn run_frame_runs_ten_cycles_then_ticks() {
    // ten times 7001, then 00EE (never reached)
    let mut program = Vec::new();
    for _ in 0..10 {
        program.extend_from_slice(&[0x70, 0x01]);
    }
    program.extend_from_slice(&[0x00, 0xEE]);
    let mut chip8 = machine_with(&program);
    chip8.delay_timer = 3;
    assert_eq!(chip8.run_frame(), Ok(()));
    assert_eq!(chip8.registers[0], 10);
    assert_eq!(chip8.program_counter, 0x214);
    assert_eq!(chip8.delay_timer, 2);
    // next frame stops at once on the return without a call, with no tick
    assert_eq!(chip8.run_frame(), Err(CycleFault::StackUnderflow));
    assert_eq!(chip8.program_counter, 0x214);
    assert_eq!(chip8.delay_timer, 2);
}

#[test]
fn run_frame_stops_at_fault() {
    // two cycles then an unknown opcode
    let mut chip8 = machine_with(&[0x60, 0x05, 0x61, 0x06, 0x01, 0x23]);
    chip8.sound_timer = 1;
    assert_eq!(chip8.run_frame(), Err(CycleFault::UnknownOpcode(0x0123)));
    assert_eq!(chip8.registers[0], 5);
    assert_eq!(chip8.registers[1], 6);
    assert_eq!(chip8.program_counter, 0x204);
    assert_eq!(chip8.sound_timer, 1);
}

#[test]
fn beep_durations() {
    assert_eq!(beep_duration_ms(0), 50);
    assert_eq!(beep_duration_ms(1), 50);
    assert_eq!(beep_duration_ms(3), 50);
    assert_eq!(beep_duration_ms(4), 66);
    assert_eq!(beep_duration_ms(60), 1000);
    assert_eq!(beep_duration_ms(255), 4250);
}

#[test]
fn draw_without_set_bits_on_any_screen() {
    let mut display = Display::new();
    display.width = 0;
    display.height = 0;
    let collision = display.draw_sprite(5, 5, &[0, 0, 0]);
    assert!(!collision);
    assert!(display.pixel.iter().all(|&p| !p));
    assert!(display.modify_display);
    assert!(display.can_draw(5, 5, &[]));
    assert!(!display.can_draw(5, 5, &[1]));
}

#[test]
fn timers_after_many_ticks() {
    let mut chip8 = Chip8::new();
    chip8.delay_timer = 5;
    chip8.sound_timer = 255;
    for _ in 0..7 {
        chip8.tick_timers();
    }
    assert_eq!(chip8.delay_timer, 0);
    assert_eq!(chip8.sound_timer, 248);
}

#[test]
fn stack_push_pop() {
    let mut stack = Stack::new();
    assert_eq!(stack.depth(), 0);
    stack.push(0x202);
    stack.push(0x304);
    assert_eq!(stack.depth(), 2);
    assert_eq!(stack.pop(), 0x304);
    assert_eq!(stack.pop(), 0x202);
    assert_eq!(stack.depth(), 0);
}

#[test]
fn keyboard_queries() {
    let mut keyboard = Keyboard::new();
    assert_eq!(keyboard.first_pressed(), None);
    assert!(!keyboard.is_pressed(3));
    keyboard.key[9] = true;
    keyboard.key[3] = true;
    assert!(keyboard.is_pressed(3));
    assert_eq!(keyboard.first_pressed(), Some(3));
    keyboard.key[0] = true;
    assert_eq!(keyboard.first_pressed(), Some(0));
    let mut keyboard = Keyboard::new();
    keyboard.key[15] = true;
    assert_eq!(keyboard.first_pressed(), Some(15));
}

#[test]
fn draw_sprite_wraps_and_collides() {
    let mut display = Display::new();
    // one row 0b1000_0001 at (63, 31): bit 0 at (63,31), bit 7 wraps to (6,31)
    let collision = display.draw_sprite(63, 31, &[0x81]);
    assert!(!collision);
    assert!(display.modify_display);
    assert!(display.pixel[31 * 64 + 63]);
    assert!(display.pixel[31 * 64 + 6]);
    assert_eq!(display.pixel.iter().filter(|&&p| p).count(), 2);
    // a second row wraps vertically to row 0
    let collision = display.draw_sprite(63, 31, &[0x00, 0x80]);
    assert!(!collision);
    assert!(display.pixel[63]);
    let collision = display.draw_sprite(63, 31, &[0x80]);
    assert!(collision);
    assert!(!display.pixel[31 * 64 + 63]);
}

#[test]
fn draw_twice_restores_screen() {
    let mut display = Display::new();
    display.pixel[5] = true;
    display.pixel[70] = true;
    let before = display.pixel;
    let sprite = [0xFF, 0x3C, 0xA5];
    display.draw_sprite(2, 0, &sprite);
    assert_ne!(display.pixel, before);
    display.draw_sprite(2, 0, &sprite);
    assert_eq!(display.pixel, before);
}

#[test]
fn draw_empty_sprite_changes_nothing() {
    let mut display = Display::new();
    let collision = display.draw_sprite(10, 10, &[]);
    assert!(!collision);
    assert!(display.pixel.iter().all(|&p| !p));
    assert!(display.modify_display);
}

#[test]
fn draw_on_small_screen_wraps_onto_itself() {
    let mut display = Display::new();
    display.width = 4;
    display.height = 2;
    // eight set bits on a 4-wide screen: each cell of the row is flipped twice
    let collision = display.draw_sprite(0, 0, &[0xFF]);
    assert!(collision);
    assert!(display.pixel.iter().all(|&p| !p));
}

#[test]
fn display_clear() {
    let mut display = Display::new();
    display.pixel[0] = true;
    display.clear();
    assert!(display.pixel.iter().all(|&p| !p));
    assert!(display.modify_display);
}

#[test]
fn render_paints_lit_cells_white() {
    let mut display = Display::new();
    display.pixel[0] = true;
    display.pixel[2047] = true;
    let mut frame = [0x12345678u32; 2048];
    display.render(&mut frame);
    assert_eq!(frame[0], 0x00FFFFFF);
    assert_eq!(frame[2047], LIT_COLOR);
    assert_eq!(frame[1], 0);
    assert!(frame[1..2047].iter().all(|&c| c == DARK_COLOR));
}
