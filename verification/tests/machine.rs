use chip8::chip_8::Memory;
use chip8::loading::rom;

fn machine_with(program: &[u8]) -> Memory {
    let mut m = Memory::new();
    m.load_fontset();
    let r = rom { data: program.to_vec() };
    m.load_rom(&r);
    m
}

fn run(m: &mut Memory, cycles: usize) {
    for _ in 0..cycles {
        assert!(m.can_cycle());
        m.cycle();
    }
}

#[test]
fn new_machine_is_blank() {
    let m = Memory::new();
    assert!(m.mem.iter().all(|b| *b == 0));
    assert!(m.register.iter().all(|b| *b == 0));
    assert_eq!(m.index_reg, 0);
    assert_eq!(m.program_counter, 0);
    assert_eq!(m.stack, vec![0u16; 16]);
    assert_eq!(m.stack_pointer, 0);
    assert_eq!(m.delay_timer, 0);
    assert_eq!(m.sound_timer, 0);
    assert!(m.input_key.iter().all(|k| !*k));
    assert!(m.graphics.iter().all(|p| !*p));
    assert_eq!(m.opcode, 0);
    assert_eq!(m.rng_state, 0);
}

#[test]
fn empty_rom_has_no_bytes() {
    assert!(rom::new().data.is_empty());
}

#[test]
fn fontset_is_loaded_at_0x50() {
    let mut m = Memory::new();
    m.load_fontset();
    assert_eq!(&m.mem[0x50..0x55], &[0xF0, 0x90, 0x90, 0x90, 0xF0]);
    assert_eq!(&m.mem[0x9B..0xA0], &[0xF0, 0x80, 0xF0, 0x80, 0x80]);
    assert_eq!(m.mem[0x4F], 0);
    assert_eq!(m.mem[0xA0], 0);
}

#[test]
fn rom_is_loaded_at_0x200() {
    let m = machine_with(&[0x12, 0x34, 0x56]);
    assert_eq!(&m.mem[0x200..0x204], &[0x12, 0x34, 0x56, 0x00]);
    assert_eq!(m.mem[0x1FF], 0);
    assert_eq!(m.program_counter, 0x200);
}

#[test]
fn fetch_is_big_endian_and_advances_pc() {
    let mut m = machine_with(&[0xA1, 0x23]);
    run(&mut m, 1);
    assert_eq!(m.opcode, 0xA123);
    assert_eq!(m.index_reg, 0x123);
    assert_eq!(m.program_counter, 0x202);
}

#[test]
fn load_and_add_byte() {
    let mut m = machine_with(&[0x63, 0x05, 0x73, 0x0A]);
    run(&mut m, 2);
    assert_eq!(m.register[3], 15);
}

#[test]
fn add_byte_wraps() {
    let mut m = machine_with(&[0x61, 250, 0x71, 0x10]);
    run(&mut m, 2);
    assert_eq!(m.register[1], 10);
    assert_eq!(m.register[15], 0);
}

#[test]
fn add_registers_with_carry() {
    let mut m = machine_with(&[0x60, 200, 0x61, 100, 0x80, 0x14]);
    run(&mut m, 3);
    assert_eq!(m.register[0], 44);
    assert_eq!(m.register[15], 1);
    let mut m = machine_with(&[0x60, 20, 0x61, 100, 0x80, 0x14]);
    run(&mut m, 3);
    assert_eq!(m.register[0], 120);
    assert_eq!(m.register[15], 0);
}

#[test]
fn subtract_sets_not_borrow() {
    let mut m = machine_with(&[0x60, 50, 0x61, 20, 0x80, 0x15]);
    run(&mut m, 3);
    assert_eq!(m.register[0], 30);
    assert_eq!(m.register[15], 1);
    let mut m = machine_with(&[0x60, 20, 0x61, 20, 0x80, 0x15]);
    run(&mut m, 3);
    assert_eq!(m.register[0], 0);
    assert_eq!(m.register[15], 0);
}

#[test]
fn subtract_with_borrow_wraps() {
    let mut m = machine_with(&[0x61, 5, 0x62, 10, 0x81, 0x25]);
    run(&mut m, 3);
    assert_eq!(m.register[1], 251);
    assert_eq!(m.register[2], 10);
    assert_eq!(m.register[15], 0);
    let mut m = machine_with(&[0x60, 30, 0x61, 20, 0x80, 0x17]);
    run(&mut m, 3);
    assert_eq!(m.register[0], 246);
    assert_eq!(m.register[15], 0);
}

#[test]
fn subtract_reversed() {
    let mut m = machine_with(&[0x60, 20, 0x61, 50, 0x80, 0x17]);
    run(&mut m, 3);
    assert_eq!(m.register[0], 30);
    assert_eq!(m.register[15], 1);
}

#[test]
fn logic_operations() {
    let mut m = machine_with(&[0x60, 0x0C, 0x61, 0x0A, 0x82, 0x00, 0x82, 0x11, 0x83, 0x00, 0x83, 0x12, 0x84, 0x00, 0x84, 0x13]);
    run(&mut m, 8);
    assert_eq!(m.register[2], 0x0E);
    assert_eq!(m.register[3], 0x08);
    assert_eq!(m.register[4], 0x06);
}

#[test]
fn shifts_set_vf_to_the_bit_shifted_out() {
    let mut m = machine_with(&[0x60, 0x81, 0x80, 0x06]);
    run(&mut m, 2);
    assert_eq!(m.register[0], 0x40);
    assert_eq!(m.register[15], 1);
    let mut m = machine_with(&[0x60, 0x81, 0x80, 0x0E]);
    run(&mut m, 2);
    assert_eq!(m.register[0], 0x02);
    assert_eq!(m.register[15], 1);
    let mut m = machine_with(&[0x60, 0x41, 0x80, 0x0E]);
    run(&mut m, 2);
    assert_eq!(m.register[0], 0x82);
    assert_eq!(m.register[15], 0);
}

#[test]
fn skip_instructions() {
    // SE V0, 5 with V0 = 5 skips
    let mut m = machine_with(&[0x60, 0x05, 0x30, 0x05]);
    run(&mut m, 2);
    assert_eq!(m.program_counter, 0x206);
    // SE V0, 6 does not
    let mut m = machine_with(&[0x60, 0x05, 0x30, 0x06]);
    run(&mut m, 2);
    assert_eq!(m.program_counter, 0x204);
    // SNE V0, 6 skips
    let mut m = machine_with(&[0x60, 0x05, 0x40, 0x06]);
    run(&mut m, 2);
    assert_eq!(m.program_counter, 0x206);
    // SE V0, V1 with both zero skips; SNE V0, V1 does not
    let mut m = machine_with(&[0x50, 0x10]);
    run(&mut m, 1);
    assert_eq!(m.program_counter, 0x204);
    let mut m = machine_with(&[0x90, 0x10]);
    run(&mut m, 1);
    assert_eq!(m.program_counter, 0x202);
}

#[test]
fn jumps() {
    let mut m = machine_with(&[0x13, 0x45]);
    run(&mut m, 1);
    assert_eq!(m.program_counter, 0x345);
    let mut m = machine_with(&[0x60, 0x10, 0xB3, 0x00]);
    run(&mut m, 2);
    assert_eq!(m.program_counter, 0x310);
}

#[test]
fn call_and_return() {
    let mut m = machine_with(&[0x23, 0x00]);
    m.mem[0x300] = 0x00;
    m.mem[0x301] = 0xEE;
    run(&mut m, 1);
    assert_eq!(m.program_counter, 0x300);
    assert_eq!(m.stack_pointer, 1);
    assert_eq!(m.stack[0], 0x202);
    run(&mut m, 1);
    assert_eq!(m.program_counter, 0x202);
    assert_eq!(m.stack_pointer, 0);
}

#[test]
fn sixteen_calls_nest() {
    let mut m = Memory::new();
    for j in 1..=16u16 {
        m.opcode = 0x2000 + 0x10 * j;
        let pc = m.program_counter;
        assert!(m.can_execute());
        m.execute_opcode();
        assert_eq!(m.stack_pointer as u16, j);
        assert_eq!(m.stack[(j - 1) as usize], pc);
        assert_eq!(m.program_counter, 0x10 * j);
    }
    m.opcode = 0x2123;
    assert!(!m.can_execute());
}

#[test]
fn return_without_call_cannot_execute() {
    let m = machine_with(&[0x00, 0xEE]);
    assert!(!m.can_cycle());
}

#[test]
fn clear_screen() {
    let mut m = machine_with(&[0x00, 0xE0]);
    m.graphics[5] = true;
    m.graphics[2047] = true;
    run(&mut m, 1);
    assert!(m.graphics.iter().all(|p| !*p));
}

#[test]
fn unknown_opcodes_are_ignored() {
    let mut m = machine_with(&[0x01, 0x23, 0x80, 0x18, 0xE0, 0x00, 0xF0, 0x00]);
    m.register[1] = 7;
    run(&mut m, 4);
    assert_eq!(m.program_counter, 0x208);
    assert_eq!(m.register[0], 0);
    assert_eq!(m.register[1], 7);
    assert!(m.graphics.iter().all(|p| !*p));
}

#[test]
fn draw_font_digit_and_collision() {
    // V0 = 0, V1 = 0, I = sprite of digit 0, draw 5 rows at (0, 0), twice.
    let mut m = machine_with(&[0x60, 0x00, 0xF0, 0x29, 0xD0, 0x15, 0xD0, 0x15]);
    run(&mut m, 3);
    assert_eq!(m.index_reg, 0x50);
    // Row 0 is 0xF0: pixels 0..4 on, 4..8 off.
    assert_eq!(&m.graphics[0..8], &[true, true, true, true, false, false, false, false]);
    // Row 1 is 0x90.
    assert_eq!(&m.graphics[64..72], &[true, false, false, true, false, false, false, false]);
    assert_eq!(m.register[15], 0);
    run(&mut m, 1);
    assert_eq!(m.register[15], 1);
    assert!(m.graphics.iter().all(|p| !*p));
}

#[test]
fn draw_wraps_coordinates_and_rows() {
    // V0 = 62 + 64 (x wraps to 62), V1 = 33 (y wraps to 1); draw digit 1's first row 0x20.
    let mut m = machine_with(&[0x60, 126, 0x61, 33, 0xA0, 0x55, 0xD0, 0x11]);
    run(&mut m, 4);
    // 0x20 has its bit at column 2: index 1 * 64 + 62 + 2 = 128, the start of the next line.
    assert!(m.graphics[128]);
    assert_eq!(m.graphics.iter().filter(|p| **p).count(), 1);
}

#[test]
fn draw_off_the_bottom_cannot_execute() {
    // y = 31, sprite of 5 rows would go below the display.
    let mut m = machine_with(&[0x61, 31, 0xD0, 0x15]);
    m.index_reg = 0x50;
    run(&mut m, 1);
    assert!(!m.can_cycle());
}

#[test]
fn bcd_of_register() {
    let mut m = machine_with(&[0x60, 234, 0xA3, 0x00, 0xF0, 0x33]);
    run(&mut m, 3);
    assert_eq!(&m.mem[0x300..0x303], &[2, 3, 4]);
    let mut m = machine_with(&[0x60, 7, 0xA3, 0x00, 0xF0, 0x33]);
    run(&mut m, 3);
    assert_eq!(&m.mem[0x300..0x303], &[0, 0, 7]);
}

#[test]
fn store_and_load_registers_through_vx() {
    let mut m = machine_with(&[0xA3, 0x00, 0xF2, 0x55]);
    m.register[0] = 1;
    m.register[1] = 2;
    m.register[2] = 3;
    m.register[3] = 4;
    run(&mut m, 2);
    assert_eq!(&m.mem[0x300..0x304], &[1, 2, 3, 0]);
    let mut m = machine_with(&[0xA3, 0x00, 0xF2, 0x65]);
    m.mem[0x300] = 9;
    m.mem[0x301] = 8;
    m.mem[0x302] = 7;
    m.mem[0x303] = 6;
    run(&mut m, 2);
    assert_eq!(&m.register[0..4], &[9, 8, 7, 0]);
}

#[test]
fn timers() {
    let mut m = machine_with(&[0x60, 3, 0xF0, 0x15, 0xF0, 0x18, 0xF1, 0x07]);
    run(&mut m, 2);
    // set to 3, then counted down in the same cycle
    assert_eq!(m.delay_timer, 2);
    run(&mut m, 1);
    assert_eq!(m.delay_timer, 1);
    assert_eq!(m.sound_timer, 2);
    run(&mut m, 1);
    assert_eq!(m.register[1], 1);
    assert_eq!(m.delay_timer, 0);
    assert_eq!(m.sound_timer, 1);
}

#[test]
fn add_to_index() {
    let mut m = machine_with(&[0x60, 0x10, 0xA1, 0x00, 0xF0, 0x1E]);
    run(&mut m, 3);
    assert_eq!(m.index_reg, 0x110);
}

#[test]
fn keys() {
    let mut m = machine_with(&[0x60, 0x05, 0xE0, 0x9E, 0xE0, 0xA1]);
    let mut keys = [false; 16];
    keys[5] = true;
    m.input(keys);
    run(&mut m, 2);
    assert_eq!(m.program_counter, 0x206);
    let mut m = machine_with(&[0x60, 0x05, 0xE0, 0xA1]);
    run(&mut m, 2);
    assert_eq!(m.program_counter, 0x206);
    let mut m = machine_with(&[0x60, 0x10, 0xE0, 0x9E]);
    run(&mut m, 1);
    assert!(!m.can_cycle());
}

#[test]
fn wait_for_key() {
    let mut m = machine_with(&[0xF3, 0x0A]);
    run(&mut m, 1);
    assert_eq!(m.program_counter, 0x200);
    let mut keys = [false; 16];
    keys[9] = true;
    keys[12] = true;
    m.input(keys);
    run(&mut m, 1);
    assert_eq!(m.register[3], 9);
    assert_eq!(m.program_counter, 0x202);
}

#[test]
fn random_is_masked() {
    let mut m = machine_with(&[0xC2, 0x00, 0xC3, 0x0F]);
    m.register[2] = 0xAA;
    run(&mut m, 2);
    assert_eq!(m.register[2], 0);
    assert!(m.register[3] <= 0x0F);
}

#[test]
fn cannot_fetch_past_memory() {
    let mut m = Memory::new();
    m.program_counter = 4095;
    assert!(!m.can_cycle());
    m.program_counter = 4094;
    assert!(m.can_cycle());
}

#[test]
fn frame_buffer_colours() {
    let mut m = Memory::new();
    m.graphics[0] = true;
    m.graphics[2047] = true;
    let buf = m.frame_buffer();
    assert_eq!(buf.len(), 2048);
    assert_eq!(buf[0], 0x00FFFFFF);
    assert_eq!(buf[1], 0);
    assert_eq!(buf[2047], 0x00FFFFFF);
}

#[test]
fn execute_opcode_directly() {
    let mut m = Memory::new();
    m.opcode = 0x6A42;
    assert!(m.can_execute());
    m.execute_opcode();
    assert_eq!(m.register[10], 0x42);
    assert_eq!(m.program_counter, 0);
}
