use chip8::{Chip8, Fault, Instruction};

fn run(chip: &mut Chip8, words: &[u16]) {
    for w in words {
        assert_eq!(chip.execute(*w), Ok(()), "word {w:#06x}");
    }
}

#[test]
fn fetch_reads_big_endian_and_advances_by_two() {
    let mut chip = Chip8::new();
    chip.load_rom(&[0x12, 0x34, 0xAB, 0xCD]).unwrap();
    let before = chip.clone();
    assert_eq!(chip.fetch(), 0x1234);
    assert_eq!(chip.pc, 0x202);
    assert_eq!(chip.fetch(), 0xABCD);
    assert_eq!(chip.pc, 0x204);
    let mut expected = before;
    expected.pc = 0x204;
    assert_eq!(chip, expected);
}

#[test]
fn fetch_at_the_last_two_bytes() {
    let mut chip = Chip8::new();
    chip.memory[4094] = 0xFE;
    chip.memory[4095] = 0xDC;
    chip.pc = 4094;
    assert_eq!(chip.fetch(), 0xFEDC);
    assert_eq!(chip.pc, 4096);
}

#[test]
fn nop_changes_nothing() {
    let mut chip = Chip8::new();
    let before = chip.clone();
    assert_eq!(chip.execute(0x0000), Ok(()));
    assert_eq!(chip, before);
}

#[test]
fn clear_screen_turns_every_pixel_off() {
    let mut chip = Chip8::new();
    chip.video = [true; 2048];
    chip.registers[0xF] = 1;
    let mut expected = chip.clone();
    expected.video = [false; 2048];
    assert_eq!(chip.execute(0x00E0), Ok(()));
    assert_eq!(chip, expected);
}

#[test]
fn jump_sets_the_program_counter() {
    let mut chip = Chip8::new();
    assert_eq!(chip.execute(0x1ABC), Ok(()));
    assert_eq!(chip.pc, 0xABC);
    assert_eq!(chip.sp, 0);
}

#[test]
fn call_then_return_restores_the_program_counter() {
    let mut chip = Chip8::new();
    chip.pc = 0x202;
    assert_eq!(chip.execute(0x2400), Ok(()));
    assert_eq!(chip.pc, 0x400);
    assert_eq!(chip.sp, 1);
    assert_eq!(chip.stack[0], 0x202);
    assert_eq!(chip.execute(0x00EE), Ok(()));
    assert_eq!(chip.pc, 0x202);
    assert_eq!(chip.sp, 0);
}

#[test]
fn call_then_return_over_two_cycles() {
    let mut chip = Chip8::new();
    let mut rom = vec![0u8; 0x102];
    rom[0] = 0x23;
    rom[1] = 0x00;
    rom[0x100] = 0x00;
    rom[0x101] = 0xEE;
    chip.load_rom(&rom).unwrap();
    assert_eq!(chip.tick(), Ok(()));
    assert_eq!(chip.pc, 0x300);
    assert_eq!(chip.tick(), Ok(()));
    assert_eq!(chip.pc, 0x202);
    assert_eq!(chip.sp, 0);
}

#[test]
fn sixteen_nested_calls_succeed_and_the_seventeenth_overflows() {
    let mut chip = Chip8::new();
    for depth in 0..16u16 {
        chip.pc = 0x200 + 2 * depth;
        assert_eq!(chip.execute(0x2300 + depth), Ok(()));
        assert_eq!(chip.sp as u16, depth + 1);
    }
    let before = chip.clone();
    assert_eq!(chip.execute(0x2345), Err(Fault::StackOverflow));
    assert_eq!(chip, before);
    for depth in (0..16u16).rev() {
        assert_eq!(chip.execute(0x00EE), Ok(()));
        assert_eq!(chip.pc, 0x200 + 2 * depth);
        assert_eq!(chip.sp as u16, depth);
    }
    assert_eq!(chip.sp, 0);
    let before = chip.clone();
    assert_eq!(chip.execute(0x00EE), Err(Fault::StackUnderflow));
    assert_eq!(chip, before);
}

#[test]
fn return_on_an_empty_stack_underflows() {
    let mut chip = Chip8::new();
    let before = chip.clone();
    assert_eq!(chip.execute(0x00EE), Err(Fault::StackUnderflow));
    assert_eq!(chip, before);
}

#[test]
fn skip_if_register_equals_byte() {
    let mut chip = Chip8::new();
    chip.registers[3] = 0x42;
    assert_eq!(chip.execute(0x3342), Ok(()));
    assert_eq!(chip.pc, 0x202);
    assert_eq!(chip.execute(0x3343), Ok(()));
    assert_eq!(chip.pc, 0x202);
}

#[test]
fn skip_if_register_differs_from_byte() {
    let mut chip = Chip8::new();
    chip.registers[3] = 0x42;
    assert_eq!(chip.execute(0x4342), Ok(()));
    assert_eq!(chip.pc, 0x200);
    assert_eq!(chip.execute(0x4343), Ok(()));
    assert_eq!(chip.pc, 0x202);
}

#[test]
fn skip_if_registers_are_equal_or_differ() {
    let mut chip = Chip8::new();
    chip.registers[1] = 7;
    chip.registers[2] = 7;
    chip.registers[3] = 8;
    assert_eq!(chip.execute(0x5120), Ok(()));
    assert_eq!(chip.pc, 0x202);
    assert_eq!(chip.execute(0x5130), Ok(()));
    assert_eq!(chip.pc, 0x202);
    assert_eq!(chip.execute(0x9120), Ok(()));
    assert_eq!(chip.pc, 0x202);
    assert_eq!(chip.execute(0x9130), Ok(()));
    assert_eq!(chip.pc, 0x204);
}

#[test]
fn skip_past_the_end_of_the_sixteen_bits_is_a_fault() {
    let mut chip = Chip8::new();
    chip.pc = 0xFFFE;
    let before = chip.clone();
    assert_eq!(chip.execute(0x3000), Err(Fault::ProgramCounterOutOfRange));
    assert_eq!(chip, before);
    chip.pc = 0xFFFD;
    assert_eq!(chip.execute(0x3000), Ok(()));
    assert_eq!(chip.pc, 0xFFFF);
    assert_eq!(chip.execute(0x3001), Ok(()));
    assert_eq!(chip.pc, 0xFFFF);
}

#[test]
fn load_and_add_byte() {
    let mut chip = Chip8::new();
    run(&mut chip, &[0x6AFE, 0x7A01]);
    assert_eq!(chip.registers[0xA], 0xFF);
    run(&mut chip, &[0x7A03]);
    assert_eq!(chip.registers[0xA], 0x02);
    assert_eq!(chip.registers[0xF], 0);
}

#[test]
fn move_or_and_xor() {
    let mut chip = Chip8::new();
    run(&mut chip, &[0x61CC, 0x62AA, 0x8310, 0x8321]);
    assert_eq!(chip.registers[3], 0xEE);
    run(&mut chip, &[0x8310, 0x8322]);
    assert_eq!(chip.registers[3], 0x88);
    run(&mut chip, &[0x8310, 0x8323]);
    assert_eq!(chip.registers[3], 0x66);
    assert_eq!(chip.registers[1], 0xCC);
    assert_eq!(chip.registers[2], 0xAA);
    assert_eq!(chip.registers[0xF], 0);
}

#[test]
fn add_with_carry() {
    let mut chip = Chip8::new();
    run(&mut chip, &[0x60FF, 0x6101, 0x8014]);
    assert_eq!(chip.registers[0], 0x00);
    assert_eq!(chip.registers[0xF], 1);
    run(&mut chip, &[0x6001, 0x6101, 0x8014]);
    assert_eq!(chip.registers[0], 0x02);
    assert_eq!(chip.registers[0xF], 0);
    run(&mut chip, &[0x60FF, 0x61FF, 0x8014]);
    assert_eq!(chip.registers[0], 0xFE);
    assert_eq!(chip.registers[0xF], 1);
}

#[test]
fn add_with_carry_into_the_flag_register_keeps_the_carry() {
    let mut chip = Chip8::new();
    run(&mut chip, &[0x6FF0, 0x6120, 0x8F14]);
    assert_eq!(chip.registers[0xF], 1);
    run(&mut chip, &[0x6F10, 0x6120, 0x8F14]);
    assert_eq!(chip.registers[0xF], 0);
}

#[test]
fn subtract_with_borrow() {
    let mut chip = Chip8::new();
    run(&mut chip, &[0x6005, 0x6103, 0x8015]);
    assert_eq!(chip.registers[0], 0x02);
    assert_eq!(chip.registers[0xF], 1);
    run(&mut chip, &[0x6003, 0x6105, 0x8015]);
    assert_eq!(chip.registers[0], 0xFE);
    assert_eq!(chip.registers[0xF], 0);
    run(&mut chip, &[0x6007, 0x6107, 0x8015]);
    assert_eq!(chip.registers[0], 0x00);
    assert_eq!(chip.registers[0xF], 1);
}

#[test]
fn shift_right_takes_the_lowest_bit() {
    let mut chip = Chip8::new();
    run(&mut chip, &[0x6005, 0x61FF, 0x8016]);
    assert_eq!(chip.registers[0], 0x02);
    assert_eq!(chip.registers[0xF], 1);
    assert_eq!(chip.registers[1], 0xFF);
    run(&mut chip, &[0x60FE, 0x8016]);
    assert_eq!(chip.registers[0], 0x7F);
    assert_eq!(chip.registers[0xF], 0);
}

#[test]
fn shift_right_of_the_flag_register() {
    let mut chip = Chip8::new();
    run(&mut chip, &[0x6F03, 0x8F06]);
    assert_eq!(chip.registers[0xF], 0);
}

#[test]
fn reverse_subtract_wraps() {
    let mut chip = Chip8::new();
    run(&mut chip, &[0x6003, 0x6105, 0x8017]);
    assert_eq!(chip.registers[0], 0x02);
    assert_eq!(chip.registers[0xF], 1);
    run(&mut chip, &[0x6005, 0x6103, 0x8017]);
    assert_eq!(chip.registers[0], 0xFE);
    assert_eq!(chip.registers[0xF], 0);
    run(&mut chip, &[0x6004, 0x6104, 0x8017]);
    assert_eq!(chip.registers[0], 0x00);
    assert_eq!(chip.registers[0xF], 0);
}

#[test]
fn reverse_subtract_reads_the_flag_after_writing_it() {
    let mut chip = Chip8::new();
    // VF = (V1 > VF) = 1, then VF = V1 - VF = 9 - 1.
    run(&mut chip, &[0x6F05, 0x6109, 0x8F17]);
    assert_eq!(chip.registers[0xF], 8);
    // VF = (VF > V0) = 1, then V0 = VF - V0 = 1 - 2 modulo 256.
    run(&mut chip, &[0x6F09, 0x6002, 0x80F7]);
    assert_eq!(chip.registers[0], 0xFF);
    assert_eq!(chip.registers[0xF], 1);
}

#[test]
fn shift_left_takes_the_highest_bit() {
    let mut chip = Chip8::new();
    run(&mut chip, &[0x6081, 0x61FF, 0x801E]);
    assert_eq!(chip.registers[0], 0x02);
    assert_eq!(chip.registers[0xF], 1);
    assert_eq!(chip.registers[1], 0xFF);
    run(&mut chip, &[0x607F, 0x801E]);
    assert_eq!(chip.registers[0], 0xFE);
    assert_eq!(chip.registers[0xF], 0);
}

#[test]
fn load_index_and_jump_with_offset() {
    let mut chip = Chip8::new();
    run(&mut chip, &[0xAFFF]);
    assert_eq!(chip.index, 0xFFF);
    run(&mut chip, &[0x60FF, 0xBFFF]);
    assert_eq!(chip.pc, 0x10FE);
    run(&mut chip, &[0x6002, 0xB300]);
    assert_eq!(chip.pc, 0x302);
}

#[test]
fn random_is_masked_by_the_byte() {
    let mut chip = Chip8::new();
    assert_eq!(chip.execute_with(0xC1FF, 0xAB), Ok(()));
    assert_eq!(chip.registers[1], 0xAB);
    assert_eq!(chip.execute_with(0xC10F, 0xAB), Ok(()));
    assert_eq!(chip.registers[1], 0x0B);
    assert_eq!(chip.execute_with(0xC1F0, 0xAB), Ok(()));
    assert_eq!(chip.registers[1], 0xA0);
    for _ in 0..200 {
        chip.registers[2] = 0xFF;
        assert_eq!(chip.execute(0xC200), Ok(()));
        assert_eq!(chip.registers[2], 0);
        assert_eq!(chip.execute(0xC33C), Ok(()));
        assert_eq!(chip.registers[3] & !0x3C, 0);
    }
    assert_eq!(chip.pc, 0x200);
}

#[test]
fn random_draws_differ() {
    let mut chip = Chip8::new();
    let mut seen = [false; 256];
    for _ in 0..512 {
        assert_eq!(chip.execute(0xC0FF), Ok(()));
        seen[chip.registers[0] as usize] = true;
    }
    assert!(seen.iter().filter(|s| **s).count() > 16);
}

#[test]
fn other_words_ignore_the_random_byte() {
    for word in [0x6A12u16, 0x8014, 0xA123, 0xD005, 0xF033, 0x00EE, 0x5121] {
        let mut a = Chip8::new();
        let mut b = Chip8::new();
        let ra = a.execute_with(word, 0x00);
        let rb = b.execute_with(word, 0xFF);
        assert_eq!(ra, rb);
        assert_eq!(a, b);
    }
}

#[test]
fn draw_wraps_around_the_right_edge() {
    let mut chip = Chip8::new();
    chip.memory[0x300] = 0xFF;
    run(&mut chip, &[0xA300, 0x603C, 0x6100, 0xD011]);
    for x in 0..64usize {
        let lit = x >= 60 || x <= 3;
        assert_eq!(chip.video[x], lit, "column {x}");
    }
    assert!(chip.video[64..].iter().all(|p| !*p));
    assert_eq!(chip.registers[0xF], 0);
}

#[test]
fn drawing_twice_erases_and_reports_a_collision() {
    let mut chip = Chip8::new();
    chip.memory[0x300] = 0xFF;
    run(&mut chip, &[0xA300, 0x603C, 0x6100, 0xD011, 0xD011]);
    assert!(chip.video.iter().all(|p| !*p));
    assert_eq!(chip.registers[0xF], 1);
    run(&mut chip, &[0xD011]);
    assert_eq!(chip.registers[0xF], 0);
}

#[test]
fn draw_wraps_around_the_bottom_edge() {
    let mut chip = Chip8::new();
    chip.memory[0x300] = 0x80;
    chip.memory[0x301] = 0x40;
    chip.memory[0x302] = 0x20;
    // (5, 31): the rows land on screen rows 31, 0 and 1.
    run(&mut chip, &[0xA300, 0x6005, 0x611F, 0xD013]);
    let mut expected = [false; 2048];
    expected[5 + 64 * 31] = true;
    expected[6] = true;
    expected[7 + 64] = true;
    assert_eq!(chip.video, expected);
    assert_eq!(chip.registers[0xF], 0);
}

#[test]
fn draw_takes_the_coordinates_modulo_the_screen() {
    let mut chip = Chip8::new();
    chip.memory[0x300] = 0xC0;
    // (130, 70) is (2, 6) on the screen.
    run(&mut chip, &[0xA300, 0x6082, 0x6146, 0xD011]);
    let mut expected = [false; 2048];
    expected[2 + 64 * 6] = true;
    expected[3 + 64 * 6] = true;
    assert_eq!(chip.video, expected);
}

#[test]
fn draw_draws_a_glyph_most_significant_bit_first() {
    let mut chip = Chip8::new();
    // The glyph for 1: 0x20 0x60 0x20 0x20 0x70.
    run(&mut chip, &[0x6001, 0xF029, 0x6A08, 0x6B02, 0xDAB5]);
    let rows: [&[usize]; 5] = [&[2], &[1, 2], &[2], &[2], &[1, 2, 3]];
    let mut expected = [false; 2048];
    for (r, cols) in rows.iter().enumerate() {
        for c in cols.iter() {
            expected[8 + c + 64 * (2 + r)] = true;
        }
    }
    assert_eq!(chip.video, expected);
    assert_eq!(chip.registers[0xF], 0);
}

#[test]
fn draw_reports_a_collision_only_for_pixels_turned_off() {
    let mut chip = Chip8::new();
    chip.memory[0x300] = 0xF0;
    chip.memory[0x301] = 0x0F;
    chip.memory[0x302] = 0x18;
    run(&mut chip, &[0xA300, 0x6000, 0x6100, 0xD011]);
    // The second sprite lies beside the first one: no collision.
    run(&mut chip, &[0xA301, 0xD011]);
    assert_eq!(chip.registers[0xF], 0);
    assert!(chip.video[..8].iter().all(|p| *p));
    // The third overlaps both in the middle.
    run(&mut chip, &[0xA302, 0xD011]);
    assert_eq!(chip.registers[0xF], 1);
    let row: Vec<bool> = chip.video[..8].to_vec();
    assert_eq!(row, vec![true, true, true, false, false, true, true, true]);
}

#[test]
fn draw_of_no_rows_clears_the_flag() {
    let mut chip = Chip8::new();
    chip.registers[0xF] = 7;
    chip.index = 0xFFFF;
    let mut expected = chip.clone();
    expected.registers[0xF] = 0;
    assert_eq!(chip.execute(0xD120), Ok(()));
    assert_eq!(chip, expected);
}

#[test]
fn draw_past_the_end_of_memory_is_a_fault() {
    let mut chip = Chip8::new();
    chip.index = 4095;
    let before = chip.clone();
    assert_eq!(chip.execute(0xD012), Err(Fault::MemoryOutOfRange));
    assert_eq!(chip, before);
    chip.memory[4095] = 0x80;
    assert_eq!(chip.execute(0xD011), Ok(()));
    assert!(chip.video[0]);
}

#[test]
fn skip_on_key_state() {
    let mut chip = Chip8::new();
    chip.registers[1] = 0xA;
    chip.keypress(0xA, true);
    assert_eq!(chip.execute(0xE19E), Ok(()));
    assert_eq!(chip.pc, 0x202);
    assert_eq!(chip.execute(0xE1A1), Ok(()));
    assert_eq!(chip.pc, 0x202);
    chip.keypress(0xA, false);
    assert_eq!(chip.execute(0xE19E), Ok(()));
    assert_eq!(chip.pc, 0x202);
    assert_eq!(chip.execute(0xE1A1), Ok(()));
    assert_eq!(chip.pc, 0x204);
}

#[test]
fn skip_on_a_key_outside_the_pad_is_a_fault() {
    let mut chip = Chip8::new();
    chip.registers[1] = 16;
    let before = chip.clone();
    assert_eq!(chip.execute(0xE19E), Err(Fault::KeyOutOfRange));
    assert_eq!(chip.execute(0xE1A1), Err(Fault::KeyOutOfRange));
    assert_eq!(chip, before);
}

#[test]
fn timers_are_read_and_written() {
    let mut chip = Chip8::new();
    run(&mut chip, &[0x6133, 0xF115, 0x6244, 0xF218, 0xF307]);
    assert_eq!(chip.dtimer, 0x33);
    assert_eq!(chip.stimer, 0x44);
    assert_eq!(chip.registers[3], 0x33);
}

#[test]
fn wait_key_rewinds_while_no_key_is_down() {
    let mut chip = Chip8::new();
    chip.pc = 0x202;
    let mut expected = chip.clone();
    expected.pc = 0x200;
    assert_eq!(chip.execute(0xF50A), Ok(()));
    assert_eq!(chip, expected);
}

#[test]
fn wait_key_cycle_repeats_until_a_key_goes_down() {
    let mut chip = Chip8::new();
    chip.load_rom(&[0xF5, 0x0A]).unwrap();
    let before = chip.clone();
    for _ in 0..5 {
        assert_eq!(chip.tick(), Ok(()));
        assert_eq!(chip, before);
    }
    chip.keypress(0xC, true);
    chip.keypress(0x3, true);
    assert_eq!(chip.tick(), Ok(()));
    assert_eq!(chip.registers[5], 0x3);
    assert_eq!(chip.pc, 0x202);
}

#[test]
fn wait_key_takes_the_lowest_pressed_key() {
    let mut chip = Chip8::new();
    chip.keypress(0xF, true);
    assert_eq!(chip.execute(0xF20A), Ok(()));
    assert_eq!(chip.registers[2], 0xF);
    chip.keypress(0x0, true);
    chip.keypress(0x7, true);
    assert_eq!(chip.execute(0xF20A), Ok(()));
    assert_eq!(chip.registers[2], 0x0);
    assert_eq!(chip.pc, 0x200);
}

#[test]
fn wait_key_below_address_two_is_a_fault() {
    let mut chip = Chip8::new();
    chip.pc = 1;
    let before = chip.clone();
    assert_eq!(chip.execute(0xF00A), Err(Fault::ProgramCounterOutOfRange));
    assert_eq!(chip, before);
}

#[test]
fn add_to_index_wraps_at_sixteen_bits() {
    let mut chip = Chip8::new();
    run(&mut chip, &[0xA123, 0x6010, 0xF01E]);
    assert_eq!(chip.index, 0x133);
    chip.index = 0xFFFF;
    run(&mut chip, &[0x6002, 0xF01E]);
    assert_eq!(chip.index, 0x0001);
    assert_eq!(chip.registers[0xF], 0);
}

#[test]
fn font_address_of_a_digit() {
    let mut chip = Chip8::new();
    run(&mut chip, &[0x600A, 0xF029]);
    assert_eq!(chip.index, 0x82);
    run(&mut chip, &[0x6000, 0xF029]);
    assert_eq!(chip.index, 0x50);
    run(&mut chip, &[0x600F, 0xF029]);
    assert_eq!(chip.index, 0x9B);
    run(&mut chip, &[0x60FF, 0xF029]);
    assert_eq!(chip.index, 0x50 + 5 * 255);
}

#[test]
fn decimal_digits_are_stored() {
    let mut chip = Chip8::new();
    run(&mut chip, &[0x607B, 0xA300, 0xF033]);
    assert_eq!(&chip.memory[0x300..0x303], &[1, 2, 3]);
    run(&mut chip, &[0x60FF, 0xF033]);
    assert_eq!(&chip.memory[0x300..0x303], &[2, 5, 5]);
    run(&mut chip, &[0x6007, 0xF033]);
    assert_eq!(&chip.memory[0x300..0x303], &[0, 0, 7]);
    assert_eq!(chip.memory[0x303], 0);
    assert_eq!(chip.index, 0x300);
}

#[test]
fn decimal_digits_past_the_end_of_memory_are_a_fault() {
    let mut chip = Chip8::new();
    chip.registers[0] = 123;
    chip.index = 4094;
    let before = chip.clone();
    assert_eq!(chip.execute(0xF033), Err(Fault::MemoryOutOfRange));
    assert_eq!(chip, before);
    chip.index = 4093;
    assert_eq!(chip.execute(0xF033), Ok(()));
    assert_eq!(&chip.memory[4093..], &[1, 2, 3]);
}

#[test]
fn registers_are_stored_and_loaded_back() {
    let mut chip = Chip8::new();
    run(&mut chip, &[0x6011, 0x6122, 0x6233, 0x6344, 0x6455, 0xA400, 0xF355]);
    assert_eq!(&chip.memory[0x400..0x405], &[0x11, 0x22, 0x33, 0x44, 0x00]);
    assert_eq!(chip.index, 0x400);
    run(&mut chip, &[0x6000, 0x6100, 0x6200, 0x6300, 0x6400, 0xF365]);
    assert_eq!(&chip.registers[..5], &[0x11, 0x22, 0x33, 0x44, 0x00]);
    assert_eq!(chip.index, 0x400);
}

#[test]
fn store_and_load_of_all_sixteen_registers() {
    let mut chip = Chip8::new();
    for i in 0..16u8 {
        chip.registers[i as usize] = 0xA0 + i;
    }
    let saved = chip.registers;
    run(&mut chip, &[0xA800, 0xFF55]);
    assert_eq!(&chip.memory[0x800..0x810], &saved[..]);
    chip.registers = [0; 16];
    run(&mut chip, &[0xFF65]);
    assert_eq!(chip.registers, saved);
}

#[test]
fn store_of_one_register_writes_one_byte() {
    let mut chip = Chip8::new();
    run(&mut chip, &[0x60AA, 0x61BB, 0xA300, 0xF055]);
    assert_eq!(&chip.memory[0x300..0x302], &[0xAA, 0x00]);
}

#[test]
fn store_and_load_past_the_end_of_memory_are_faults() {
    let mut chip = Chip8::new();
    chip.registers = [9; 16];
    chip.index = 4093;
    let before = chip.clone();
    assert_eq!(chip.execute(0xF355), Err(Fault::MemoryOutOfRange));
    assert_eq!(chip.execute(0xF365), Err(Fault::MemoryOutOfRange));
    assert_eq!(chip, before);
    assert_eq!(chip.execute(0xF255), Ok(()));
    assert_eq!(&chip.memory[4093..], &[9, 9, 9]);
}

#[test]
fn unknown_words_are_faults_that_name_word_and_program_counter() {
    for word in [0x0001u16, 0x5121, 0x8128, 0x9AB1, 0xE000, 0xF0FF] {
        let mut chip = Chip8::new();
        chip.pc = 0x246;
        let before = chip.clone();
        assert_eq!(chip.execute(word), Err(Fault::UnknownOpcode { opcode: word, pc: 0x246 }));
        assert_eq!(chip, before);
    }
}

#[test]
fn perform_applies_a_decoded_instruction() {
    let mut chip = Chip8::new();
    assert_eq!(chip.perform(Instruction::LoadByte { x: 4, byte: 0x99 }, 0), Ok(()));
    assert_eq!(chip.perform(Instruction::Move { x: 5, y: 4 }, 0), Ok(()));
    assert_eq!(chip.perform(Instruction::Random { x: 6, byte: 0xF0 }, 0x5A), Ok(()));
    assert_eq!(chip.perform(Instruction::Jump { addr: 0x456 }, 0), Ok(()));
    assert_eq!(chip.registers[4], 0x99);
    assert_eq!(chip.registers[5], 0x99);
    assert_eq!(chip.registers[6], 0x50);
    assert_eq!(chip.pc, 0x456);
}

#[test]
fn tick_fetches_and_executes() {
    let mut chip = Chip8::new();
    chip.load_rom(&[0x60, 0x07, 0x70, 0x05, 0x12, 0x00]).unwrap();
    assert_eq!(chip.tick(), Ok(()));
    assert_eq!((chip.registers[0], chip.pc), (7, 0x202));
    assert_eq!(chip.tick(), Ok(()));
    assert_eq!((chip.registers[0], chip.pc), (12, 0x204));
    assert_eq!(chip.tick(), Ok(()));
    assert_eq!((chip.registers[0], chip.pc), (12, 0x200));
}

#[test]
fn tick_outside_memory_is_a_fault() {
    for pc in [4095u16, 4096, 0xFFFF] {
        let mut chip = Chip8::new();
        chip.pc = pc;
        let before = chip.clone();
        assert_eq!(chip.tick(), Err(Fault::ProgramCounterOutOfRange));
        assert_eq!(chip, before);
    }
}

#[test]
fn tick_on_an_unknown_word_stops_after_the_fetch() {
    let mut chip = Chip8::new();
    chip.load_rom(&[0xFF, 0xFF]).unwrap();
    let mut expected = chip.clone();
    expected.pc = 0x202;
    assert_eq!(chip.tick(), Err(Fault::UnknownOpcode { opcode: 0xFFFF, pc: 0x202 }));
    assert_eq!(chip, expected);
}

#[test]
fn jump_to_the_last_byte_fails_at_the_next_fetch() {
    let mut chip = Chip8::new();
    chip.load_rom(&[0x1F, 0xFF]).unwrap();
    assert_eq!(chip.tick(), Ok(()));
    assert_eq!(chip.pc, 0xFFF);
    assert_eq!(chip.tick(), Err(Fault::ProgramCounterOutOfRange));
    assert_eq!(chip.pc, 0xFFF);
}

#[test]
fn stack_pointer_past_the_stack_is_an_overflow() {
    for sp in [17u8, 200, 255] {
        let mut chip = Chip8::new();
        chip.sp = sp;
        let before = chip.clone();
        assert_eq!(chip.execute(0x00EE), Err(Fault::StackOverflow));
        assert_eq!(chip.execute(0x2300), Err(Fault::StackOverflow));
        assert_eq!(chip, before);
    }
}
