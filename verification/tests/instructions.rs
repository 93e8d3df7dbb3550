use chip8::Emu;

fn loaded(program: &[u8]) -> Emu {
    let mut emu = Emu::default();
    emu.load(program);
    emu
}

fn step_n(emu: &mut Emu, steps: usize) {
    for _ in 0..steps {
        assert_eq!(emu.exec(), Ok(()));
    }
}

/// Runs `program` to its end and returns the machine.
fn ran(program: &[u8]) -> Emu {
    let mut emu = loaded(program);
    step_n(&mut emu, program.len() / 2);
    emu
}

#[test]
fn set_immediate_loads_a_register() {
    let emu = ran(&[0x6A, 0x42]);
    assert_eq!(emu.registers()[0xA], 0x42);
    assert_eq!(emu.program_counter(), 0x202);
}

#[test]
fn add_immediate_wraps_and_leaves_the_flag() {
    let emu = ran(&[
        0x6F, 0x07, // VF = 7
        0x63, 0xFA, // V3 = 250
        0x73, 0x0A, // V3 += 10
    ]);
    assert_eq!(emu.registers()[3], 4);
    assert_eq!(emu.registers()[0xF], 7);
}

#[test]
fn add_immediate_without_overflow() {
    let emu = ran(&[0x63, 0x14, 0x73, 0x0A]);
    assert_eq!(emu.registers()[3], 30);
    assert_eq!(emu.registers()[0xF], 0);
}

#[test]
fn add_immediate_to_the_flag_register_itself() {
    let emu = ran(&[0x6F, 0xFF, 0x7F, 0x02]);
    assert_eq!(emu.registers()[0xF], 1);
}

#[test]
fn add_with_carry_overflows() {
    let emu = ran(&[
        0x61, 0xC8, // V1 = 200
        0x62, 0x64, // V2 = 100
        0x81, 0x24, // V1 += V2
    ]);
    assert_eq!(emu.registers()[1], 44);
    assert_eq!(emu.registers()[2], 100);
    assert_eq!(emu.registers()[0xF], 1);
}

#[test]
fn add_with_carry_fits() {
    let emu = ran(&[
        0x6F, 0x01, // VF = 1, to be cleared
        0x61, 0x0A, // V1 = 10
        0x62, 0x14, // V2 = 20
        0x81, 0x24, // V1 += V2
    ]);
    assert_eq!(emu.registers()[1], 30);
    assert_eq!(emu.registers()[0xF], 0);
}

#[test]
fn add_with_carry_at_the_edge() {
    let emu = ran(&[0x61, 0xFF, 0x62, 0x00, 0x81, 0x24]);
    assert_eq!((emu.registers()[1], emu.registers()[0xF]), (255, 0));
    let emu = ran(&[0x61, 0xFF, 0x62, 0x01, 0x81, 0x24]);
    assert_eq!((emu.registers()[1], emu.registers()[0xF]), (0, 1));
}

#[test]
fn add_with_carry_into_the_flag_register_keeps_the_flag() {
    let emu = ran(&[
        0x6F, 0xC8, // VF = 200
        0x60, 0x64, // V0 = 100
        0x8F, 0x04, // VF += V0
    ]);
    assert_eq!(emu.registers()[0xF], 1);
}

#[test]
fn subtract_with_borrow() {
    let emu = ran(&[
        0x6F, 0x01, // VF = 1, to be cleared
        0x61, 0x0A, // V1 = 10
        0x62, 0x14, // V2 = 20
        0x81, 0x25, // V1 -= V2
    ]);
    assert_eq!(emu.registers()[1], 246);
    assert_eq!(emu.registers()[0xF], 0);
}

#[test]
fn subtract_without_borrow() {
    let emu = ran(&[
        0x61, 0x14, // V1 = 20
        0x62, 0x0A, // V2 = 10
        0x81, 0x25, // V1 -= V2
    ]);
    assert_eq!(emu.registers()[1], 10);
    assert_eq!(emu.registers()[0xF], 1);
}

#[test]
fn subtract_equal_values_is_no_borrow() {
    let emu = ran(&[0x61, 0x07, 0x62, 0x07, 0x81, 0x25]);
    assert_eq!((emu.registers()[1], emu.registers()[0xF]), (0, 1));
}

#[test]
fn reverse_subtract_with_and_without_borrow() {
    // V1 = V2 - V1 = 20 - 10
    let emu = ran(&[0x61, 0x0A, 0x62, 0x14, 0x81, 0x27]);
    assert_eq!((emu.registers()[1], emu.registers()[0xF]), (10, 1));
    // V1 = V2 - V1 = 10 - 20
    let emu = ran(&[0x61, 0x14, 0x62, 0x0A, 0x81, 0x27]);
    assert_eq!((emu.registers()[1], emu.registers()[0xF]), (246, 0));
}

#[test]
fn copy_or_and_xor() {
    let emu = ran(&[0x61, 0x5A, 0x82, 0x10]);
    assert_eq!(emu.registers()[2], 0x5A);
    let emu = ran(&[0x61, 0xF0, 0x62, 0x3C, 0x81, 0x21]);
    assert_eq!(emu.registers()[1], 0xFC);
    let emu = ran(&[0x61, 0xF0, 0x62, 0x3C, 0x81, 0x22]);
    assert_eq!(emu.registers()[1], 0x30);
    let emu = ran(&[0x61, 0xF0, 0x62, 0x3C, 0x81, 0x23]);
    assert_eq!(emu.registers()[1], 0xCC);
    assert_eq!(emu.registers()[2], 0x3C);
    assert_eq!(emu.registers()[0xF], 0);
}

#[test]
fn shift_right_moves_the_low_bit_to_the_flag() {
    let emu = ran(&[0x61, 0x05, 0x81, 0x06]);
    assert_eq!((emu.registers()[1], emu.registers()[0xF]), (2, 1));
    let emu = ran(&[0x6F, 0x01, 0x61, 0x04, 0x81, 0x06]);
    assert_eq!((emu.registers()[1], emu.registers()[0xF]), (2, 0));
    let emu = ran(&[0x61, 0xFF, 0x81, 0x06]);
    assert_eq!((emu.registers()[1], emu.registers()[0xF]), (0x7F, 1));
}

#[test]
fn shift_right_ignores_the_second_register() {
    let emu = ran(&[0x61, 0x08, 0x62, 0xFF, 0x81, 0x26]);
    assert_eq!((emu.registers()[1], emu.registers()[2]), (4, 0xFF));
}

#[test]
fn shift_left_moves_the_high_bit_to_the_flag() {
    let emu = ran(&[0x61, 0x81, 0x81, 0x0E]);
    assert_eq!((emu.registers()[1], emu.registers()[0xF]), (0x02, 1));
    let emu = ran(&[0x6F, 0x01, 0x61, 0x41, 0x81, 0x0E]);
    assert_eq!((emu.registers()[1], emu.registers()[0xF]), (0x82, 0));
}

#[test]
fn shifts_of_the_flag_register_shift_the_flag_just_set() {
    // VF = 3: the low bit 1 goes to VF, which is then shifted right to 0.
    let emu = ran(&[0x6F, 0x03, 0x8F, 0x06]);
    assert_eq!(emu.registers()[0xF], 0);
    // VF = 0x81: the high bit 1 goes to VF, which is then shifted left to 2.
    let emu = ran(&[0x6F, 0x81, 0x8F, 0x0E]);
    assert_eq!(emu.registers()[0xF], 2);
}

#[test]
fn skip_if_equal_immediate() {
    let emu = ran(&[0x61, 0x33, 0x31, 0x33]);
    assert_eq!(emu.program_counter(), 0x206);
    let emu = ran(&[0x61, 0x33, 0x31, 0x34]);
    assert_eq!(emu.program_counter(), 0x204);
}

#[test]
fn skip_if_not_equal_immediate() {
    let emu = ran(&[0x61, 0x33, 0x41, 0x33]);
    assert_eq!(emu.program_counter(), 0x204);
    let emu = ran(&[0x61, 0x33, 0x41, 0x34]);
    assert_eq!(emu.program_counter(), 0x206);
}

#[test]
fn skip_if_registers_equal() {
    let emu = ran(&[0x61, 0x09, 0x62, 0x09, 0x51, 0x20]);
    assert_eq!(emu.program_counter(), 0x208);
    let emu = ran(&[0x61, 0x09, 0x62, 0x08, 0x51, 0x20]);
    assert_eq!(emu.program_counter(), 0x206);
}

#[test]
fn skip_if_registers_not_equal() {
    let emu = ran(&[0x61, 0x09, 0x62, 0x09, 0x91, 0x20]);
    assert_eq!(emu.program_counter(), 0x206);
    let emu = ran(&[0x61, 0x09, 0x62, 0x08, 0x91, 0x20]);
    assert_eq!(emu.program_counter(), 0x208);
}

#[test]
fn skips_change_no_register() {
    let emu = ran(&[0x61, 0x33, 0x31, 0x33]);
    let mut registers = [0u8; 16];
    registers[1] = 0x33;
    assert_eq!(emu.registers(), &registers[..]);
}

#[test]
fn jump_sets_the_program_counter() {
    let emu = ran(&[0x1A, 0xBC]);
    assert_eq!(emu.program_counter(), 0xABC);
    assert_eq!(emu.stack_pointer(), 0);
}

#[test]
fn jump_with_offset_adds_register_zero() {
    let emu = ran(&[0x60, 0x10, 0xB3, 0x00]);
    assert_eq!(emu.program_counter(), 0x310);
    let emu = ran(&[0x60, 0xFF, 0xBF, 0xFF]);
    assert_eq!(emu.program_counter(), 0x10FE);
}

#[test]
fn call_pushes_the_address_after_the_call() {
    let emu = ran(&[0x23, 0x45]);
    assert_eq!(emu.program_counter(), 0x345);
    assert_eq!(emu.stack_pointer(), 1);
    assert_eq!(emu.stack()[0], 0x202);
}

#[test]
fn return_pops_the_last_call() {
    let mut emu = loaded(&[
        0x22, 0x04, // 0x200: call 0x204
        0x00, 0x00, // 0x202
        0x22, 0x08, // 0x204: call 0x208
        0x00, 0x00, // 0x206
        0x00, 0xEE, // 0x208: return
    ]);
    step_n(&mut emu, 2);
    assert_eq!(emu.stack_pointer(), 2);
    assert_eq!(&emu.stack()[..2], &[0x202, 0x206]);
    step_n(&mut emu, 1);
    assert_eq!(emu.program_counter(), 0x206);
    assert_eq!(emu.stack_pointer(), 1);
}

#[test]
fn sixteen_calls_fill_the_stack() {
    let mut emu = loaded(&[0x22, 0x00]);
    step_n(&mut emu, 16);
    assert_eq!(emu.stack_pointer(), 16);
    assert_eq!(emu.stack(), &[0x202u16; 16][..]);
}

#[test]
fn machine_routine_is_ignored() {
    let emu = ran(&[0x01, 0x23]);
    let mut fresh = loaded(&[0x01, 0x23]);
    // Only the program counter differs from a machine that has not run.
    assert_eq!(emu.program_counter(), 0x202);
    assert_eq!(fresh.exec_with(0), Ok(()));
    assert_eq!(emu, fresh);
    assert_eq!(emu.registers(), &[0u8; 16][..]);
    let emu = ran(&[0x00, 0x00]);
    assert_eq!(emu.program_counter(), 0x202);
}

#[test]
fn clear_screen_blanks_the_display() {
    let mut emu = loaded(&[
        0xA0, 0x00, // I = glyph 0
        0xD0, 0x05, // draw at (0, 0)
        0x00, 0xE0, // clear
    ]);
    step_n(&mut emu, 2);
    assert!(emu.display().iter().any(|&cell| cell));
    step_n(&mut emu, 1);
    assert!(emu.display().iter().all(|&cell| !cell));
    assert_eq!(emu.program_counter(), 0x206);
}

#[test]
fn set_index_takes_twelve_bits() {
    let emu = ran(&[0xAF, 0xFF]);
    assert_eq!(emu.index_register(), 0xFFF);
}

#[test]
fn add_to_index_leaves_the_flag() {
    let emu = ran(&[0xA1, 0x00, 0x61, 0x23, 0xF1, 0x1E]);
    assert_eq!(emu.index_register(), 0x123);
    assert_eq!(emu.registers()[0xF], 0);
}

#[test]
fn add_to_index_wraps_at_sixteen_bits() {
    let mut emu = loaded(&[
        0xAF, 0xFF, // 0x200: I = 0xFFF
        0x60, 0xFF, // 0x202: V0 = 255
        0xF0, 0x1E, // 0x204: I += V0
        0x12, 0x04, // 0x206: jump 0x204
    ]);
    step_n(&mut emu, 2);
    let mut expected: u32 = 0xFFF;
    for _ in 0..300 {
        step_n(&mut emu, 1);
        expected = (expected + 255) % 0x1_0000;
        assert_eq!(emu.index_register() as u32, expected);
        step_n(&mut emu, 1);
    }
    // 0xFFF + 300 * 255 = 80595 = 65536 + 15059
    assert_eq!(emu.index_register(), 15059);
    assert_eq!(emu.registers()[0xF], 0);
}

#[test]
fn select_glyph_points_at_five_bytes_per_glyph() {
    let emu = ran(&[0x61, 0x0A, 0xF1, 0x29]);
    assert_eq!(emu.index_register(), 50);
    let emu = ran(&[0x61, 0x00, 0xF1, 0x29]);
    assert_eq!(emu.index_register(), 0);
    let emu = ran(&[0x61, 0xFF, 0xF1, 0x29]);
    assert_eq!(emu.index_register(), 1275);
}

#[test]
fn store_decimal_of_157() {
    let emu = ran(&[
        0x64, 0x9D, // V4 = 157
        0xA3, 0x00, // I = 0x300
        0xF4, 0x33,
    ]);
    assert_eq!(&emu.memory()[0x300..0x303], &[1, 5, 7]);
    assert_eq!(emu.index_register(), 0x300);
    assert_eq!(emu.registers()[4], 157);
}

#[test]
fn store_decimal_of_small_and_large_values() {
    let emu = ran(&[0x64, 0x00, 0xA3, 0x00, 0xF4, 0x33]);
    assert_eq!(&emu.memory()[0x300..0x303], &[0, 0, 0]);
    let emu = ran(&[0x64, 0x09, 0xA3, 0x00, 0xF4, 0x33]);
    assert_eq!(&emu.memory()[0x300..0x303], &[0, 0, 9]);
    let emu = ran(&[0x64, 0xFF, 0xA3, 0x00, 0xF4, 0x33]);
    assert_eq!(&emu.memory()[0x300..0x303], &[2, 5, 5]);
    let emu = ran(&[0x64, 0x64, 0xA3, 0x00, 0xF4, 0x33]);
    assert_eq!(&emu.memory()[0x300..0x303], &[1, 0, 0]);
}

#[test]
fn store_decimal_at_the_last_three_bytes() {
    let emu = ran(&[0x64, 0x7B, 0xAF, 0xFD, 0xF4, 0x33]);
    assert_eq!(&emu.memory()[0xFFD..], &[1, 2, 3]);
}

#[test]
fn dump_writes_registers_zero_to_x() {
    let emu = ran(&[
        0x60, 0x11, 0x61, 0x22, 0x62, 0x33, 0x63, 0x44, //
        0xA3, 0x00, // I = 0x300
        0xF2, 0x55, // dump V0..V2
    ]);
    assert_eq!(&emu.memory()[0x300..0x304], &[0x11, 0x22, 0x33, 0x00]);
    assert_eq!(emu.memory()[0x2FF], 0);
    assert_eq!(emu.index_register(), 0x300);
}

#[test]
fn load_reads_registers_zero_to_x() {
    let emu = ran(&[
        0x65, 0x99, // V5 = 0x99, out of the range read
        0xA0, 0x00, // I = 0: the font
        0xF4, 0x65, // load V0..V4
    ]);
    assert_eq!(&emu.registers()[..6], &[0xF0, 0x90, 0x90, 0x90, 0xF0, 0x99]);
    assert_eq!(emu.index_register(), 0);
}

#[test]
fn dump_then_load_gives_the_registers_back() {
    for x in 0..16u8 {
        let mut program = Vec::new();
        // V0..VF = 0xA0..0xAF
        for r in 0..16u8 {
            program.extend_from_slice(&[0x60 | r, 0xA0 | r]);
        }
        program.extend_from_slice(&[0xA4, 0x00]); // I = 0x400
        program.extend_from_slice(&[0xF0 | x, 0x55]); // dump V0..Vx
        // V0..VF = 0
        for r in 0..16u8 {
            program.extend_from_slice(&[0x60 | r, 0x00]);
        }
        program.extend_from_slice(&[0xF0 | x, 0x65]); // load V0..Vx
        let emu = ran(&program);
        for r in 0..16u8 {
            let expected = if r <= x { 0xA0 | r } else { 0 };
            assert_eq!(emu.registers()[r as usize], expected);
        }
        assert_eq!(emu.index_register(), 0x400);
    }
}

#[test]
fn dump_and_load_reach_the_last_byte() {
    let emu = ran(&[0x60, 0x77, 0x61, 0x88, 0xAF, 0xFE, 0xF1, 0x55]);
    assert_eq!(&emu.memory()[0xFFE..], &[0x77, 0x88]);
    let emu = ran(&[0x60, 0x77, 0xAF, 0xFF, 0xF0, 0x55, 0x60, 0x00, 0xF0, 0x65]);
    assert_eq!(emu.registers()[0], 0x77);
}

#[test]
fn delay_timer_is_set_and_read() {
    let mut emu = loaded(&[
        0x61, 0x2A, // V1 = 42
        0xF1, 0x15, // delay = V1
        0xF2, 0x07, // V2 = delay
    ]);
    step_n(&mut emu, 2);
    assert_eq!(emu.delay_timer(), 42);
    emu.tick_timers();
    step_n(&mut emu, 1);
    assert_eq!(emu.registers()[2], 41);
}

#[test]
fn sound_timer_is_set() {
    let emu = ran(&[0x61, 0x2A, 0xF1, 0x18]);
    assert_eq!(emu.sound_timer(), 42);
    assert_eq!(emu.delay_timer(), 0);
}

#[test]
fn skip_if_key_pressed() {
    let mut emu = loaded(&[0x61, 0x0B, 0xE1, 0x9E]);
    step_n(&mut emu, 2);
    assert_eq!(emu.program_counter(), 0x204);

    let mut emu = loaded(&[0x61, 0x0B, 0xE1, 0x9E]);
    emu.key_press(0xB, true);
    step_n(&mut emu, 2);
    assert_eq!(emu.program_counter(), 0x206);

    let mut emu = loaded(&[0x61, 0x0B, 0xE1, 0x9E]);
    emu.key_press(0xA, true);
    step_n(&mut emu, 2);
    assert_eq!(emu.program_counter(), 0x204);
}

#[test]
fn skip_if_key_not_pressed() {
    let mut emu = loaded(&[0x61, 0x0F, 0xE1, 0xA1]);
    step_n(&mut emu, 2);
    assert_eq!(emu.program_counter(), 0x206);

    let mut emu = loaded(&[0x61, 0x0F, 0xE1, 0xA1]);
    emu.key_press(0xF, true);
    step_n(&mut emu, 2);
    assert_eq!(emu.program_counter(), 0x204);
}

#[test]
fn wait_for_key_repeats_until_a_key_is_pressed() {
    let mut emu = loaded(&[
        0x63, 0x55, // V3 = 0x55
        0xF3, 0x0A, // V3 = key
        0x64, 0x01, // V4 = 1
    ]);
    step_n(&mut emu, 1);
    let waiting = loaded_and_stepped_once();
    for _ in 0..10 {
        step_n(&mut emu, 1);
        assert_eq!(emu.program_counter(), 0x202);
        assert_eq!(emu.registers()[3], 0x55);
        assert_eq!(emu, waiting);
    }
    emu.key_press(7, true);
    step_n(&mut emu, 1);
    assert_eq!(emu.program_counter(), 0x204);
    assert_eq!(emu.registers()[3], 7);
    step_n(&mut emu, 1);
    assert_eq!(emu.registers()[4], 1);
}

fn loaded_and_stepped_once() -> Emu {
    let mut emu = loaded(&[0x63, 0x55, 0xF3, 0x0A, 0x64, 0x01]);
    step_n(&mut emu, 1);
    emu
}

#[test]
fn wait_for_key_takes_the_lowest_pressed_key() {
    let mut emu = loaded(&[0xF3, 0x0A]);
    emu.key_press(0xC, true);
    emu.key_press(0x4, true);
    emu.key_press(0x9, true);
    step_n(&mut emu, 1);
    assert_eq!(emu.registers()[3], 4);
    assert_eq!(emu.program_counter(), 0x202);
}

#[test]
fn wait_for_key_takes_key_zero() {
    let mut emu = loaded(&[0x63, 0x55, 0xF3, 0x0A]);
    emu.key_press(0, true);
    step_n(&mut emu, 2);
    assert_eq!(emu.registers()[3], 0);
    assert_eq!(emu.program_counter(), 0x204);
}

#[test]
fn random_is_masked_by_the_immediate() {
    let mut emu = loaded(&[0xC1, 0x00, 0xC2, 0x0F, 0xC3, 0xFF]);
    assert_eq!(emu.exec_with(0xFF), Ok(()));
    assert_eq!(emu.registers()[1], 0);
    assert_eq!(emu.exec_with(0xAB), Ok(()));
    assert_eq!(emu.registers()[2], 0x0B);
    assert_eq!(emu.exec_with(0xAB), Ok(()));
    assert_eq!(emu.registers()[3], 0xAB);
    assert_eq!(emu.program_counter(), 0x206);
}

#[test]
fn random_from_the_generator_stays_under_the_mask() {
    let mut emu = loaded(&[
        0xC1, 0x0F, // 0x200: V1 = random & 0x0F
        0xC2, 0x00, // 0x202: V2 = random & 0
        0x12, 0x00, // 0x204: jump 0x200
    ]);
    for _ in 0..200 {
        step_n(&mut emu, 3);
        assert!(emu.registers()[1] <= 0x0F);
        assert_eq!(emu.registers()[2], 0);
    }
}

#[test]
fn random_from_the_generator_varies() {
    let mut emu = loaded(&[0xC1, 0xFF, 0x12, 0x00]);
    let mut seen = [false; 256];
    for _ in 0..2000 {
        step_n(&mut emu, 2);
        seen[emu.registers()[1] as usize] = true;
    }
    assert!(seen.iter().filter(|&&s| s).count() > 16);
}

#[test]
fn the_byte_given_to_a_step_matters_only_to_random() {
    let program = [0x61, 0x05, 0x71, 0x03, 0x81, 0x14, 0xA1, 0x23];
    let mut a = loaded(&program);
    let mut b = loaded(&program);
    for _ in 0..4 {
        assert_eq!(a.exec_with(0x00), Ok(()));
        assert_eq!(b.exec_with(0xFF), Ok(()));
    }
    assert_eq!(a, b);
}
