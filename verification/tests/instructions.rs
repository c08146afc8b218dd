use chip8::error::Chip8Error;
use chip8::Chip8;

fn boot(program: &[u8]) -> Chip8 {
    let mut machine = Chip8::new();
    machine.load(program).unwrap();
    machine
}

fn step(machine: &mut Chip8) -> Result<(), Chip8Error> {
    machine
        .cpu
        .cycle(&mut machine.memory, &mut machine.display, &machine.kbd)
}

fn run(machine: &mut Chip8, cycles: usize) {
    for _ in 0..cycles {
        step(machine).unwrap();
    }
}

#[test]
fn add_with_carry_truth_table() {
    // Vx=0xFF, Vy=0x01 -> Vx=0x00, VF=1
    let mut m = boot(&[0x60, 0xFF, 0x61, 0x01, 0x80, 0x14]);
    run(&mut m, 3);
    assert_eq!(m.cpu.reg(0), 0x00);
    assert_eq!(m.cpu.reg(0xF), 1);
    // Vx=0x01, Vy=0x01 -> Vx=0x02, VF=0
    let mut m = boot(&[0x60, 0x01, 0x61, 0x01, 0x80, 0x14]);
    run(&mut m, 3);
    assert_eq!(m.cpu.reg(0), 0x02);
    assert_eq!(m.cpu.reg(0xF), 0);
}

#[test]
fn sub_sets_flag_iff_no_borrow() {
    // Vx=0x05, Vy=0x03 -> Vx=0x02, VF=1 (no borrow)
    let mut m = boot(&[0x60, 0x05, 0x61, 0x03, 0x80, 0x15]);
    run(&mut m, 3);
    assert_eq!(m.cpu.reg(0), 0x02);
    assert_eq!(m.cpu.reg(0xF), 1);
    // Vx=0x03, Vy=0x05 -> Vx=0xFE, VF=0 (borrow)
    let mut m = boot(&[0x60, 0x03, 0x61, 0x05, 0x80, 0x15]);
    run(&mut m, 3);
    assert_eq!(m.cpu.reg(0), 0xFE);
    assert_eq!(m.cpu.reg(0xF), 0);
}

#[test]
fn subn_sets_flag_iff_no_borrow() {
    // Vy=0x05, Vx=0x03 -> Vx=0x02, VF=1
    let mut m = boot(&[0x60, 0x03, 0x61, 0x05, 0x80, 0x17]);
    run(&mut m, 3);
    assert_eq!(m.cpu.reg(0), 0x02);
    assert_eq!(m.cpu.reg(0xF), 1);
}

#[test]
fn shr_reports_pre_shift_lsb() {
    // Vy=0x03 -> result 0x01 in Vy and Vx, VF=1
    let mut m = boot(&[0x61, 0x03, 0x80, 0x16]);
    run(&mut m, 2);
    assert_eq!(m.cpu.reg(0), 0x01);
    assert_eq!(m.cpu.reg(1), 0x01);
    assert_eq!(m.cpu.reg(0xF), 1);
}

#[test]
fn shl_reports_pre_shift_msb() {
    // Vy=0x81 -> result 0x02, VF=1
    let mut m = boot(&[0x61, 0x81, 0x80, 0x1E]);
    run(&mut m, 2);
    assert_eq!(m.cpu.reg(0), 0x02);
    assert_eq!(m.cpu.reg(1), 0x02);
    assert_eq!(m.cpu.reg(0xF), 1);
}

#[test]
fn bitwise_or_and_xor() {
    let mut m = boot(&[0x60, 0x0C, 0x61, 0x0A, 0x80, 0x11]);
    run(&mut m, 3);
    assert_eq!(m.cpu.reg(0), 0x0E);
    let mut m = boot(&[0x60, 0x0C, 0x61, 0x0A, 0x80, 0x12]);
    run(&mut m, 3);
    assert_eq!(m.cpu.reg(0), 0x08);
    let mut m = boot(&[0x60, 0x0C, 0x61, 0x0A, 0x80, 0x13]);
    run(&mut m, 3);
    assert_eq!(m.cpu.reg(0), 0x06);
}

#[test]
fn load_and_add_immediate_wrap() {
    let mut m = boot(&[0x60, 0xFE, 0x70, 0x05]);
    run(&mut m, 2);
    assert_eq!(m.cpu.reg(0), 0x03);
    // 7xkk sets no flag
    assert_eq!(m.cpu.reg(0xF), 0);
}

#[test]
fn skip_equal_immediate_taken_and_not() {
    // V0=7; SE V0,7 skips the next instruction
    let mut m = boot(&[0x60, 0x07, 0x30, 0x07, 0x61, 0x01, 0x62, 0x02]);
    run(&mut m, 3);
    assert_eq!(m.cpu.reg(1), 0);
    assert_eq!(m.cpu.reg(2), 2);
    // SE V0,8 does not skip
    let mut m = boot(&[0x60, 0x07, 0x30, 0x08, 0x61, 0x01]);
    run(&mut m, 3);
    assert_eq!(m.cpu.reg(1), 1);
}

#[test]
fn skip_not_equal_and_register_compares() {
    let mut m = boot(&[0x60, 0x07, 0x40, 0x08, 0x61, 0x01, 0x62, 0x02]);
    run(&mut m, 3);
    assert_eq!(m.cpu.reg(1), 0);
    assert_eq!(m.cpu.reg(2), 2);
    // 5xy0 with equal registers skips
    let mut m = boot(&[0x60, 0x03, 0x61, 0x03, 0x50, 0x10, 0x62, 0x09, 0x63, 0x04]);
    run(&mut m, 4);
    assert_eq!(m.cpu.reg(2), 0);
    assert_eq!(m.cpu.reg(3), 4);
    // 9xy0 with unequal registers skips
    let mut m = boot(&[0x60, 0x03, 0x61, 0x04, 0x90, 0x10, 0x62, 0x09, 0x63, 0x04]);
    run(&mut m, 4);
    assert_eq!(m.cpu.reg(2), 0);
    assert_eq!(m.cpu.reg(3), 4);
}

#[test]
fn jump_and_jump_with_offset() {
    let mut m = boot(&[0x12, 0x04, 0x00, 0x00, 0x61, 0x09]);
    run(&mut m, 2);
    assert_eq!(m.cpu.reg(1), 9);
    // Bnnn: jump to nnn + V0
    let mut m = boot(&[0x60, 0x02, 0xB2, 0x04, 0x00, 0x00, 0x61, 0x08]);
    run(&mut m, 3);
    assert_eq!(m.cpu.reg(1), 8);
}

#[test]
fn call_return_round_trip_restores_pc_and_depth() {
    let mut m = boot(&[0x22, 0x04, 0x00, 0x00, 0x00, 0xEE]);
    assert_eq!(m.cpu.stack_depth(), 0);
    step(&mut m).unwrap();
    assert_eq!(m.cpu.program_counter(), 0x204);
    assert_eq!(m.cpu.stack_depth(), 1);
    step(&mut m).unwrap();
    assert_eq!(m.cpu.program_counter(), 0x202);
    assert_eq!(m.cpu.stack_depth(), 0);
}

#[test]
fn seventeenth_nested_call_is_reported_not_silent() {
    // 2200 at 0x200 calls itself; each cycle pushes one frame
    let mut m = boot(&[0x22, 0x00]);
    for _ in 0..16 {
        step(&mut m).unwrap();
    }
    assert_eq!(m.cpu.stack_depth(), 16);
    assert_eq!(step(&mut m), Err(Chip8Error::StackOverflow));
    assert_eq!(m.cpu.stack_depth(), 16);
    assert_eq!(m.cpu.program_counter(), 0x200);
}

#[test]
fn return_on_empty_stack_is_reported() {
    let mut m = boot(&[0x00, 0xEE]);
    assert_eq!(step(&mut m), Err(Chip8Error::StackUnderflow));
    assert_eq!(m.cpu.program_counter(), 0x200);
}

#[test]
fn unknown_opcodes_are_reported() {
    let mut m = boot(&[0x50, 0x11]);
    assert_eq!(step(&mut m), Err(Chip8Error::UnknownOpcode(0x5011)));
    let mut m = boot(&[0x80, 0x18]);
    assert_eq!(step(&mut m), Err(Chip8Error::UnknownOpcode(0x8018)));
    let mut m = boot(&[0xE0, 0x00]);
    assert_eq!(step(&mut m), Err(Chip8Error::UnknownOpcode(0xE000)));
    let mut m = boot(&[0xF0, 0xFF]);
    assert_eq!(step(&mut m), Err(Chip8Error::UnknownOpcode(0xF0FF)));
}

#[test]
fn fetch_outside_memory_is_reported() {
    // jump to 0xFFF, where no full word can be fetched
    let mut m = boot(&[0x1F, 0xFF]);
    step(&mut m).unwrap();
    assert_eq!(step(&mut m), Err(Chip8Error::MemoryOutOfBounds));
}

#[test]
fn sprite_read_past_end_of_memory_is_reported() {
    let mut m = boot(&[0xAF, 0xFF, 0xD0, 0x02]);
    step(&mut m).unwrap();
    assert_eq!(step(&mut m), Err(Chip8Error::MemoryOutOfBounds));
}

#[test]
fn bcd_store_splits_decimal_digits() {
    // V0 = 0x7B (123), I = 0x300
    let mut m = boot(&[0x60, 0x7B, 0xA3, 0x00, 0xF0, 0x33]);
    run(&mut m, 3);
    assert_eq!(m.memory.read(0x300), Ok(1));
    assert_eq!(m.memory.read(0x301), Ok(2));
    assert_eq!(m.memory.read(0x302), Ok(3));
}

#[test]
fn register_block_store_load_round_trip() {
    // store V0..V2, clobber them, reload
    let mut m = boot(&[
        0x60, 0x0A, 0x61, 0x14, 0x62, 0x1E, 0xA4, 0x00, 0xF2, 0x55, 0x60, 0x00, 0x61, 0x00, 0x62,
        0x00, 0xF2, 0x65,
    ]);
    run(&mut m, 9);
    assert_eq!(m.cpu.reg(0), 0x0A);
    assert_eq!(m.cpu.reg(1), 0x14);
    assert_eq!(m.cpu.reg(2), 0x1E);
}

#[test]
fn register_block_round_trip_all_sixteen() {
    let mut program: Vec<u8> = Vec::new();
    for r in 0..16u8 {
        program.push(0x60 | r);
        program.push(r * 3 + 1);
    }
    program.extend_from_slice(&[0xA4, 0x00, 0xFF, 0x55]);
    for r in 0..16u8 {
        program.push(0x60 | r);
        program.push(0);
    }
    program.extend_from_slice(&[0xFF, 0x65]);
    let mut m = boot(&program);
    run(&mut m, 16 + 2 + 16 + 1);
    for r in 0..16usize {
        assert_eq!(m.cpu.reg(r), r as u8 * 3 + 1);
    }
}

#[test]
fn random_masked_with_zero_is_zero() {
    let mut m = boot(&[0xC0, 0x00]);
    step(&mut m).unwrap();
    assert_eq!(m.cpu.reg(0), 0);
}

#[test]
fn random_stays_within_mask() {
    let mut m = boot(&[0xC1, 0x0F]);
    step(&mut m).unwrap();
    assert_eq!(m.cpu.reg(1) & 0xF0, 0);
}

#[test]
fn glyph_address_is_five_times_digit() {
    let mut m = boot(&[0x60, 0x0A, 0xF0, 0x29]);
    run(&mut m, 2);
    assert_eq!(m.cpu.index_reg(), 50);
    assert_eq!(m.memory.get_char_addr(0), 0);
    assert_eq!(m.memory.get_char_addr(0xF), 75);
}

#[test]
fn index_add_has_no_flag() {
    let mut m = boot(&[0x60, 0x10, 0xA1, 0x00, 0xF0, 0x1E]);
    run(&mut m, 3);
    assert_eq!(m.cpu.index_reg(), 0x110);
    assert_eq!(m.cpu.reg(0xF), 0);
}

#[test]
fn delay_timer_floor_at_zero() {
    // DT = 5, then tick 3 times, then 7 more
    let mut m = boot(&[0x60, 0x05, 0xF0, 0x15]);
    run(&mut m, 2);
    for _ in 0..3 {
        m.cpu.update_timers();
    }
    assert_eq!(m.cpu.delay_value(), 2);
    for _ in 0..7 {
        m.cpu.update_timers();
    }
    assert_eq!(m.cpu.delay_value(), 0);
}

#[test]
fn delay_timer_read_back_through_fx07() {
    let mut m = boot(&[0x60, 0x04, 0xF0, 0x15, 0xF1, 0x07]);
    run(&mut m, 2);
    m.cpu.update_timers();
    step(&mut m).unwrap();
    assert_eq!(m.cpu.reg(1), 3);
}

#[test]
fn sound_timer_drives_sound_on() {
    let mut m = boot(&[0x60, 0x02, 0xF0, 0x18]);
    run(&mut m, 2);
    assert!(m.cpu.sound_on());
    m.cpu.update_timers();
    assert!(m.cpu.sound_on());
    m.cpu.update_timers();
    assert!(!m.cpu.sound_on());
}

#[test]
fn key_skips_and_wait_for_key() {
    // E09E skips when key V0 is down
    let mut m = boot(&[0x60, 0x03, 0xE0, 0x9E, 0x61, 0x01, 0x62, 0x02]);
    m.kbd.key_press(3);
    run(&mut m, 3);
    assert_eq!(m.cpu.reg(1), 0);
    assert_eq!(m.cpu.reg(2), 2);
    // E0A1 skips when key V0 is up
    let mut m = boot(&[0x60, 0x03, 0xE0, 0xA1, 0x61, 0x01, 0x62, 0x02]);
    run(&mut m, 3);
    assert_eq!(m.cpu.reg(1), 0);
    assert_eq!(m.cpu.reg(2), 2);
    // F00A busy-polls until key V0 is down
    let mut m = boot(&[0xF0, 0x0A]);
    step(&mut m).unwrap();
    assert_eq!(m.cpu.program_counter(), 0x200);
    step(&mut m).unwrap();
    assert_eq!(m.cpu.program_counter(), 0x200);
    m.kbd.key_press(0);
    step(&mut m).unwrap();
    assert_eq!(m.cpu.program_counter(), 0x202);
}

#[test]
fn system_call_is_a_no_op() {
    let mut m = boot(&[0x02, 0x34]);
    step(&mut m).unwrap();
    assert_eq!(m.cpu.program_counter(), 0x202);
}

#[test]
fn end_to_end_set_then_add() {
    let mut m = boot(&[0x60, 0x05, 0x70, 0x03, 0x00, 0x00]);
    run(&mut m, 2);
    assert_eq!(m.cpu.reg(0), 0x08);
    assert_eq!(m.cpu.program_counter(), 0x204);
}

#[test]
fn redraw_flag_set_only_by_clear_and_draw() {
    let mut m = boot(&[0x00, 0xE0, 0x60, 0x01, 0xA2, 0x00, 0xD0, 0x01]);
    assert!(m.cpu.needs_redraw());
    step(&mut m).unwrap();
    assert!(m.cpu.needs_redraw());
    step(&mut m).unwrap();
    assert!(!m.cpu.needs_redraw());
    step(&mut m).unwrap();
    assert!(!m.cpu.needs_redraw());
    step(&mut m).unwrap();
    assert!(m.cpu.needs_redraw());
}
