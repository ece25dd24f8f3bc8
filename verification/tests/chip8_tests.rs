use chip8_emulator::chip8::Chip8;

//load a program and run one cycle per opcode
fn run(program: &[u8], cycles: usize) -> Chip8 {
    let mut chip8 = Chip8::new();
    chip8.load_program(program);
    for _ in 0..cycles {
        chip8.emulate_cycle();
    }
    chip8
}

#[test]
fn set_and_add_register() {
    //6A05 - vA = 5, 7A03 - vA += 3
    let chip8 = run(&[0x6A, 0x05, 0x7A, 0x03], 2);
    assert_eq!(chip8.registers[0xA], 8);
}

#[test]
fn add_with_carry_flag() {
    //v0 = 0xFF, v1 = 0x02, v0 += v1 -> 0x01 with carry
    let chip8 = run(&[0x60, 0xFF, 0x61, 0x02, 0x80, 0x14], 3);
    assert_eq!(chip8.registers[0], 0x01);
    assert_eq!(chip8.registers[0xF], 1);
}

#[test]
fn call_and_return() {
    //2206 - call 0x206, 0000 padding, 00EE - return
    let chip8 = run(&[0x22, 0x06, 0x00, 0x00, 0x00, 0x00, 0x00, 0xEE], 2);
    assert_eq!(chip8.program_counter, 0x202);
}

#[test]
fn draw_sets_collision_flag() {
    //draw the same font sprite twice at (0,0): all pixels erased -> collision
    let program = [
        0x60, 0x00, //v0 = 0
        0xF0, 0x29, //index = sprite of digit 0
        0xD0, 0x05, //draw 5 bytes at (v0, v0)
        0xD0, 0x05, //draw again on top
    ];
    let mut chip8 = run(&program, 3);
    assert_eq!(chip8.registers[0xF], 0);
    chip8.emulate_cycle();
    assert_eq!(chip8.registers[0xF], 1);
    assert!(chip8.display.pixel.iter().all(|&pixel| !pixel));
}

#[test]
fn store_decimal_digits() {
    //v0 = 234, FX33 stores 2, 3, 4 starting at the index pointer
    let program = [
        0x60, 0xEA, //v0 = 234
        0xA3, 0x00, //index = 0x300
        0xF0, 0x33, //store decimal digits
    ];
    let chip8 = run(&program, 3);
    assert_eq!(chip8.memory[0x300..0x303], [2, 3, 4]);
}
