use chip8_core::{Emu, EmuError};

fn machine(program: &[u8]) -> Emu {
    let mut emu = Emu::new();
    assert_eq!(emu.load(program), Ok(()));
    emu
}

fn step_n(emu: &mut Emu, steps: usize) {
    let mut done: usize = 0;
    while done < steps {
        assert_eq!(emu.tick_with(0), Ok(()));
        done += 1;
    }
}

/// Runs `6Xaa 6Ybb` and then the instruction `8XY_` with last nibble `op`.
fn alu(x: u8, a: u8, y: u8, b: u8, op: u8) -> Emu {
    let mut emu = machine(&[0x60 | x, a, 0x60 | y, b, 0x80 | x, (y << 4) | op]);
    step_n(&mut emu, 3);
    emu
}

#[test]
fn three_instructions_add_five_and_three() {
    let mut emu = machine(&[0x60, 0x05, 0x61, 0x03, 0x80, 0x14]);
    step_n(&mut emu, 3);
    assert_eq!(emu.registers()[0], 8);
    assert_eq!(emu.registers()[0xF], 0);
    assert_eq!(emu.registers()[1], 3);
    assert_eq!(emu.pc(), 0x206);
}

#[test]
fn jump_to_itself_stays_put() {
    let mut emu = machine(&[0x12, 0x00]);
    assert_eq!(emu.tick(), Ok(()));
    assert_eq!(emu.pc(), 0x200);
    assert_eq!(emu.tick(), Ok(()));
    assert_eq!(emu.pc(), 0x200);
}

#[test]
fn wait_key_holds_until_a_key_is_down() {
    let mut emu = machine(&[0xF0, 0x0A]);
    let mut round: u8 = 0;
    while round < 5 {
        assert_eq!(emu.tick(), Ok(()));
        assert_eq!(emu.pc(), 0x200);
        assert_eq!(emu.registers()[0], 0);
        round += 1;
    }
    assert_eq!(emu.set_key(0xB, true), Ok(()));
    assert_eq!(emu.tick(), Ok(()));
    assert_eq!(emu.pc(), 0x202);
    assert_eq!(emu.registers()[0], 0xB);
}

#[test]
fn wait_key_takes_the_lowest_key() {
    let mut emu = machine(&[0xF7, 0x0A]);
    assert_eq!(emu.set_key(9, true), Ok(()));
    assert_eq!(emu.set_key(4, true), Ok(()));
    assert_eq!(emu.set_key(0xE, true), Ok(()));
    assert_eq!(emu.tick(), Ok(()));
    assert_eq!(emu.registers()[7], 4);
    assert_eq!(emu.pc(), 0x202);
}

#[test]
fn wait_key_sees_key_zero() {
    let mut emu = machine(&[0x63, 0x55, 0xF3, 0x0A]);
    assert_eq!(emu.set_key(0, true), Ok(()));
    step_n(&mut emu, 2);
    assert_eq!(emu.registers()[3], 0);
    assert_eq!(emu.pc(), 0x204);
}

#[test]
fn wait_key_changes_nothing_while_waiting() {
    let mut emu = machine(&[0x6A, 0x11, 0xFA, 0x0A]);
    step_n(&mut emu, 1);
    let before = (emu.pc(), *emu.registers(), *emu.memory(), *emu.get_display());
    step_n(&mut emu, 3);
    let after = (emu.pc(), *emu.registers(), *emu.memory(), *emu.get_display());
    assert!(before == after);
    assert_eq!(emu.pc(), 0x202);
}

#[test]
fn add_without_carry() {
    let emu = alu(2, 100, 3, 155, 4);
    assert_eq!(emu.registers()[2], 255);
    assert_eq!(emu.registers()[0xF], 0);
}

#[test]
fn add_with_carry_wraps() {
    let emu = alu(2, 200, 3, 100, 4);
    assert_eq!(emu.registers()[2], 44);
    assert_eq!(emu.registers()[0xF], 1);
    let emu = alu(0, 255, 1, 255, 4);
    assert_eq!(emu.registers()[0], 254);
    assert_eq!(emu.registers()[0xF], 1);
    let emu = alu(0, 255, 1, 1, 4);
    assert_eq!(emu.registers()[0], 0);
    assert_eq!(emu.registers()[0xF], 1);
}

#[test]
fn add_of_a_register_to_itself() {
    let emu = alu(5, 0x90, 5, 0x90, 4);
    assert_eq!(emu.registers()[5], 0x20);
    assert_eq!(emu.registers()[0xF], 1);
}

#[test]
fn add_into_the_flag_register_leaves_the_flag() {
    // VF = 1, V0 = 1, VF += V0: the sum 2 is overwritten by the carry 0
    let emu = alu(0xF, 1, 0, 1, 4);
    assert_eq!(emu.registers()[0xF], 0);
    let emu = alu(0xF, 0xFF, 0, 2, 4);
    assert_eq!(emu.registers()[0xF], 1);
}

#[test]
fn sub_without_borrow() {
    let emu = alu(1, 10, 2, 3, 5);
    assert_eq!(emu.registers()[1], 7);
    assert_eq!(emu.registers()[0xF], 1);
    let emu = alu(1, 9, 2, 9, 5);
    assert_eq!(emu.registers()[1], 0);
    assert_eq!(emu.registers()[0xF], 1);
}

#[test]
fn sub_with_borrow_wraps() {
    let emu = alu(1, 3, 2, 10, 5);
    assert_eq!(emu.registers()[1], 249);
    assert_eq!(emu.registers()[0xF], 0);
    let emu = alu(1, 0, 2, 255, 5);
    assert_eq!(emu.registers()[1], 1);
    assert_eq!(emu.registers()[0xF], 0);
}

#[test]
fn sub_from_is_the_other_way_round() {
    let emu = alu(1, 3, 2, 10, 7);
    assert_eq!(emu.registers()[1], 7);
    assert_eq!(emu.registers()[2], 10);
    assert_eq!(emu.registers()[0xF], 1);
    let emu = alu(1, 10, 2, 3, 7);
    assert_eq!(emu.registers()[1], 249);
    assert_eq!(emu.registers()[0xF], 0);
    let emu = alu(1, 4, 2, 4, 7);
    assert_eq!(emu.registers()[1], 0);
    assert_eq!(emu.registers()[0xF], 1);
}

#[test]
fn shift_right_keeps_the_low_bit_in_the_flag() {
    let emu = alu(4, 0b1010_0101, 9, 0xFF, 6);
    assert_eq!(emu.registers()[4], 0b0101_0010);
    assert_eq!(emu.registers()[0xF], 1);
    assert_eq!(emu.registers()[9], 0xFF);
    let emu = alu(4, 0b1010_0100, 9, 0xFF, 6);
    assert_eq!(emu.registers()[4], 0b0101_0010);
    assert_eq!(emu.registers()[0xF], 0);
    let emu = alu(4, 0, 9, 1, 6);
    assert_eq!(emu.registers()[4], 0);
    assert_eq!(emu.registers()[0xF], 0);
}

#[test]
fn shift_right_of_the_flag_register_leaves_the_flag() {
    let emu = alu(0xF, 2, 0, 0, 6);
    assert_eq!(emu.registers()[0xF], 0);
    let emu = alu(0xF, 3, 0, 0, 6);
    assert_eq!(emu.registers()[0xF], 1);
}

#[test]
fn shift_left_keeps_the_high_bit_in_the_flag() {
    let emu = alu(4, 0b1010_0101, 9, 0, 0xE);
    assert_eq!(emu.registers()[4], 0b0100_1010);
    assert_eq!(emu.registers()[0xF], 1);
    let emu = alu(4, 0b0110_0101, 9, 0, 0xE);
    assert_eq!(emu.registers()[4], 0b1100_1010);
    assert_eq!(emu.registers()[0xF], 0);
    let emu = alu(4, 0x80, 9, 0, 0xE);
    assert_eq!(emu.registers()[4], 0);
    assert_eq!(emu.registers()[0xF], 1);
}

#[test]
fn move_or_and_xor() {
    let emu = alu(1, 0b1100, 2, 0b1010, 0);
    assert_eq!(emu.registers()[1], 0b1010);
    let emu = alu(1, 0b1100, 2, 0b1010, 1);
    assert_eq!(emu.registers()[1], 0b1110);
    let emu = alu(1, 0b1100, 2, 0b1010, 2);
    assert_eq!(emu.registers()[1], 0b1000);
    let emu = alu(1, 0b1100, 2, 0b1010, 3);
    assert_eq!(emu.registers()[1], 0b0110);
    assert_eq!(emu.registers()[2], 0b1010);
    assert_eq!(emu.registers()[0xF], 0);
}

#[test]
fn add_immediate_wraps_and_leaves_the_flag() {
    let mut emu = machine(&[0x6F, 0x07, 0x63, 0xF0, 0x73, 0x20]);
    step_n(&mut emu, 3);
    assert_eq!(emu.registers()[3], 0x10);
    assert_eq!(emu.registers()[0xF], 7);
}

#[test]
fn skip_if_equal_to_immediate() {
    let mut emu = machine(&[0x64, 0x2A, 0x34, 0x2A]);
    step_n(&mut emu, 2);
    assert_eq!(emu.pc(), 0x206);
    let mut emu = machine(&[0x64, 0x2A, 0x34, 0x2B]);
    step_n(&mut emu, 2);
    assert_eq!(emu.pc(), 0x204);
}

#[test]
fn skip_if_not_equal_to_immediate() {
    let mut emu = machine(&[0x64, 0x2A, 0x44, 0x2B]);
    step_n(&mut emu, 2);
    assert_eq!(emu.pc(), 0x206);
    let mut emu = machine(&[0x64, 0x2A, 0x44, 0x2A]);
    step_n(&mut emu, 2);
    assert_eq!(emu.pc(), 0x204);
}

#[test]
fn skip_if_registers_equal() {
    let mut emu = machine(&[0x61, 0x09, 0x62, 0x09, 0x51, 0x20]);
    step_n(&mut emu, 3);
    assert_eq!(emu.pc(), 0x208);
    let mut emu = machine(&[0x61, 0x09, 0x62, 0x08, 0x51, 0x20]);
    step_n(&mut emu, 3);
    assert_eq!(emu.pc(), 0x206);
}

#[test]
fn skip_if_registers_differ() {
    let mut emu = machine(&[0x61, 0x09, 0x62, 0x08, 0x91, 0x20]);
    step_n(&mut emu, 3);
    assert_eq!(emu.pc(), 0x208);
    let mut emu = machine(&[0x61, 0x09, 0x62, 0x09, 0x91, 0x20]);
    step_n(&mut emu, 3);
    assert_eq!(emu.pc(), 0x206);
}

#[test]
fn a_skipped_instruction_does_not_run() {
    // V0 = 1; skip if V0 == 1; V1 = 0xEE (skipped); V2 = 0x22
    let mut emu = machine(&[0x60, 0x01, 0x30, 0x01, 0x61, 0xEE, 0x62, 0x22]);
    step_n(&mut emu, 3);
    assert_eq!(emu.registers()[1], 0);
    assert_eq!(emu.registers()[2], 0x22);
    assert_eq!(emu.pc(), 0x208);
}

#[test]
fn skip_on_key_down_and_up() {
    let mut emu = machine(&[0x65, 0x0C, 0xE5, 0x9E, 0x00, 0x00, 0xE5, 0xA1]);
    assert_eq!(emu.set_key(0xC, true), Ok(()));
    step_n(&mut emu, 2);
    assert_eq!(emu.pc(), 0x206);
    step_n(&mut emu, 1);
    assert_eq!(emu.pc(), 0x208);

    let mut emu = machine(&[0x65, 0x0C, 0xE5, 0x9E, 0xE5, 0xA1]);
    step_n(&mut emu, 2);
    assert_eq!(emu.pc(), 0x204);
    step_n(&mut emu, 1);
    assert_eq!(emu.pc(), 0x208);
}

#[test]
fn key_test_refuses_a_key_above_fifteen() {
    let mut emu = machine(&[0x65, 0x10, 0xE5, 0x9E]);
    step_n(&mut emu, 1);
    assert_eq!(emu.tick(), Err(EmuError::KeyOutOfRange));
    assert_eq!(emu.pc(), 0x202);
    let mut emu = machine(&[0x65, 0xFF, 0xE5, 0xA1]);
    step_n(&mut emu, 1);
    assert_eq!(emu.tick(), Err(EmuError::KeyOutOfRange));
    assert_eq!(emu.pc(), 0x202);
}

#[test]
fn call_and_return() {
    // 0x200: call 0x206; 0x202: V1 = 1; 0x204: nop; 0x206: V0 = 9; 0x208: return
    let mut emu = machine(&[0x22, 0x06, 0x61, 0x01, 0x00, 0x00, 0x60, 0x09, 0x00, 0xEE]);
    step_n(&mut emu, 1);
    assert_eq!(emu.pc(), 0x206);
    assert_eq!(emu.stack_pointer(), 1);
    assert_eq!(emu.stack()[0], 0x202);
    step_n(&mut emu, 2);
    assert_eq!(emu.pc(), 0x202);
    assert_eq!(emu.stack_pointer(), 0);
    step_n(&mut emu, 1);
    assert_eq!(emu.registers()[0], 9);
    assert_eq!(emu.registers()[1], 1);
}

#[test]
fn return_with_an_empty_stack_is_refused() {
    let mut emu = machine(&[0x00, 0xEE]);
    assert_eq!(emu.tick(), Err(EmuError::StackUnderflow));
    assert_eq!(emu.pc(), 0x200);
    assert_eq!(emu.stack_pointer(), 0);
}

#[test]
fn seventeenth_nested_call_is_refused() {
    // call 0x200, over and over
    let mut emu = machine(&[0x22, 0x00]);
    step_n(&mut emu, 16);
    assert_eq!(emu.stack_pointer(), 16);
    assert_eq!(emu.stack(), &[0x202u16; 16]);
    assert_eq!(emu.tick(), Err(EmuError::StackOverflow));
    assert_eq!(emu.stack_pointer(), 16);
    assert_eq!(emu.pc(), 0x200);
}

#[test]
fn unknown_words_are_refused_and_named() {
    let words: [u16; 10] =
        [0x0001, 0x00E1, 0x0123, 0x5121, 0x8128, 0x812F, 0x9121, 0xE19F, 0xF1FF, 0xF100];
    for word in words {
        let mut emu = machine(&[(word >> 8) as u8, (word & 0xFF) as u8]);
        assert_eq!(emu.tick(), Err(EmuError::UnimplementedOpcode { opcode: word }));
        assert_eq!(emu.pc(), 0x200);
        assert_eq!(emu.execute(word), Err(EmuError::UnimplementedOpcode { opcode: word }));
        assert_eq!(emu.execute_with(word, 7), Err(EmuError::UnimplementedOpcode { opcode: word }));
        assert_eq!(emu.pc(), 0x200);
    }
}

#[test]
fn no_op_only_moves_the_program_counter() {
    let mut emu = machine(&[0x00, 0x00]);
    assert_eq!(emu.tick(), Ok(()));
    assert_eq!(emu.pc(), 0x202);
    assert_eq!(emu.registers(), &[0u8; 16]);
}

#[test]
fn running_off_the_end_of_memory_is_refused() {
    let mut emu = machine(&[0x1F, 0xFF]);
    step_n(&mut emu, 1);
    assert_eq!(emu.tick(), Err(EmuError::ProgramCounterOutOfRange));
    assert_eq!(emu.pc(), 0xFFF);
}

#[test]
fn index_register_load_add_and_glyph() {
    let mut emu = machine(&[0xA1, 0x23, 0x60, 0x10, 0xF0, 0x1E, 0x61, 0x0A, 0xF1, 0x29]);
    step_n(&mut emu, 1);
    assert_eq!(emu.index(), 0x123);
    step_n(&mut emu, 2);
    assert_eq!(emu.index(), 0x133);
    step_n(&mut emu, 2);
    assert_eq!(emu.index(), 50);
    assert_eq!(&emu.memory()[50..55], &[0xF0, 0x90, 0xF0, 0x90, 0x90]);
}

#[test]
fn glyph_address_of_the_largest_byte() {
    let mut emu = machine(&[0x61, 0xFF, 0xF1, 0x29]);
    step_n(&mut emu, 2);
    assert_eq!(emu.index(), 1275);
}

#[test]
fn index_register_wraps_within_sixteen_bits() {
    // I = 0xFFF, V0 = 0xFF; add sixteen times 0xFF, then some more
    let mut program: Vec<u8> = vec![0xAF, 0xFF, 0x60, 0xFF];
    let mut k: usize = 0;
    while k < 241 {
        program.push(0xF0);
        program.push(0x1E);
        k += 1;
    }
    let mut emu = machine(&program);
    step_n(&mut emu, 2 + 240);
    assert_eq!(emu.index(), 0xFFF + 240 * 0xFF);
    assert_eq!(emu.index(), 65295);
    step_n(&mut emu, 1);
    assert_eq!(emu.index(), 14);
}

#[test]
fn jump_with_offset() {
    let mut emu = machine(&[0x60, 0x04, 0xB3, 0x00]);
    step_n(&mut emu, 2);
    assert_eq!(emu.pc(), 0x304);
    let mut emu = machine(&[0x60, 0xFF, 0xBF, 0xFF]);
    step_n(&mut emu, 2);
    assert_eq!(emu.pc(), 0x10FE);
    assert_eq!(emu.tick(), Err(EmuError::ProgramCounterOutOfRange));
}

#[test]
fn delay_timer_is_read_and_written() {
    let mut emu = machine(&[0x60, 0x33, 0xF0, 0x15, 0xF1, 0x07, 0xF0, 0x18]);
    step_n(&mut emu, 2);
    emu.tick_timers();
    step_n(&mut emu, 2);
    assert_eq!(emu.registers()[1], 0x32);
    assert_eq!(emu.delay_timer(), 0x32);
    assert_eq!(emu.sound_timer(), 0x33);
}

#[test]
fn bcd_of_234() {
    let mut emu = machine(&[0x60, 234, 0xA3, 0x00, 0xF0, 0x33]);
    step_n(&mut emu, 3);
    assert_eq!(&emu.memory()[0x300..0x303], &[2, 3, 4]);
    assert_eq!(emu.memory()[0x2FF], 0);
    assert_eq!(emu.memory()[0x303], 0);
    assert_eq!(emu.index(), 0x300);
}

#[test]
fn bcd_of_small_and_large_bytes() {
    let cases: [(u8, [u8; 3]); 6] =
        [(0, [0, 0, 0]), (7, [0, 0, 7]), (10, [0, 1, 0]), (99, [0, 9, 9]), (100, [1, 0, 0]), (255, [2, 5, 5])];
    for (val, digits) in cases {
        let mut emu = machine(&[0x65, val, 0xA4, 0x00, 0xF5, 0x33]);
        step_n(&mut emu, 3);
        assert_eq!(&emu.memory()[0x400..0x403], &digits);
        assert_eq!(chip8_core::bcd_digits(val), (digits[0], digits[1], digits[2]));
    }
}

#[test]
fn bcd_agrees_with_division_for_every_byte() {
    let mut val: u16 = 0;
    while val < 256 {
        let (h, t, o) = chip8_core::bcd_digits(val as u8);
        assert_eq!(100 * h as u16 + 10 * t as u16 + o as u16, val);
        assert!(h < 10 && t < 10 && o < 10);
        val += 1;
    }
}

#[test]
fn bcd_at_the_end_of_memory() {
    let mut emu = machine(&[0x60, 123, 0xAF, 0xFD, 0xF0, 0x33]);
    step_n(&mut emu, 3);
    assert_eq!(&emu.memory()[0xFFD..], &[1, 2, 3]);
    let mut emu = machine(&[0x60, 123, 0xAF, 0xFE, 0xF0, 0x33]);
    step_n(&mut emu, 2);
    assert_eq!(emu.tick(), Err(EmuError::MemoryOutOfRange));
    assert_eq!(&emu.memory()[0xFFE..], &[0, 0]);
    assert_eq!(emu.pc(), 0x204);
}

#[test]
fn store_then_load_gives_the_registers_back() {
    // V0..V3 = 11, 22, 33, 44; I = 0x300; store V0..V2;
    // V0..V3 = 0; load V0..V2
    let mut emu = machine(&[
        0x60, 11, 0x61, 22, 0x62, 33, 0x63, 44, 0xA3, 0x00, 0xF2, 0x55, 0x60, 0, 0x61, 0, 0x62, 0,
        0x63, 0, 0xF2, 0x65,
    ]);
    step_n(&mut emu, 6);
    assert_eq!(&emu.memory()[0x300..0x304], &[11, 22, 33, 0]);
    assert_eq!(emu.index(), 0x300);
    step_n(&mut emu, 4);
    assert_eq!(&emu.registers()[0..4], &[0, 0, 0, 0]);
    step_n(&mut emu, 1);
    assert_eq!(&emu.registers()[0..4], &[11, 22, 33, 0]);
    assert_eq!(emu.index(), 0x300);
}

#[test]
fn store_and_load_of_all_sixteen_registers() {
    let mut program: Vec<u8> = Vec::new();
    let mut k: u8 = 0;
    while k < 16 {
        program.push(0x60 | k);
        program.push(0xA0 + k);
        k += 1;
    }
    program.extend_from_slice(&[0xA5, 0x00, 0xFF, 0x55]);
    k = 0;
    while k < 16 {
        program.push(0x60 | k);
        program.push(0);
        k += 1;
    }
    program.extend_from_slice(&[0xFF, 0x65]);
    let mut emu = machine(&program);
    step_n(&mut emu, 16 + 2 + 16);
    assert_eq!(emu.registers(), &[0u8; 16]);
    step_n(&mut emu, 1);
    let expected: [u8; 16] = [
        0xA0, 0xA1, 0xA2, 0xA3, 0xA4, 0xA5, 0xA6, 0xA7, 0xA8, 0xA9, 0xAA, 0xAB, 0xAC, 0xAD, 0xAE,
        0xAF,
    ];
    assert_eq!(emu.registers(), &expected);
    assert_eq!(&emu.memory()[0x500..0x510], &expected);
    assert_eq!(emu.memory()[0x510], 0);
}

#[test]
fn store_of_register_zero_alone() {
    let mut emu = machine(&[0x60, 0x77, 0x61, 0x88, 0xA3, 0x00, 0xF0, 0x55]);
    step_n(&mut emu, 4);
    assert_eq!(&emu.memory()[0x300..0x302], &[0x77, 0]);
}

#[test]
fn store_and_load_past_the_end_of_memory_are_refused() {
    let mut emu = machine(&[0x60, 0x77, 0xAF, 0xFF, 0xF1, 0x55, 0xF1, 0x65, 0xF0, 0x55]);
    step_n(&mut emu, 2);
    assert_eq!(emu.tick(), Err(EmuError::MemoryOutOfRange));
    assert_eq!(emu.memory()[0xFFF], 0);
    assert_eq!(emu.pc(), 0x204);
    assert_eq!(emu.execute(0xF165), Err(EmuError::MemoryOutOfRange));
    assert_eq!(emu.registers()[0], 0x77);
    assert_eq!(emu.execute(0xF055), Ok(()));
    assert_eq!(emu.memory()[0xFFF], 0x77);
}

#[test]
fn random_is_masked_by_the_immediate() {
    let mut emu = machine(&[0xC3, 0x0F]);
    assert_eq!(emu.tick_with(0xAB), Ok(()));
    assert_eq!(emu.registers()[3], 0x0B);
    assert_eq!(emu.pc(), 0x202);
    let mut emu = machine(&[0xC3, 0xF0]);
    assert_eq!(emu.tick_with(0xAB), Ok(()));
    assert_eq!(emu.registers()[3], 0xA0);
    let mut emu = machine(&[0xC3, 0x00]);
    assert_eq!(emu.tick_with(0xFF), Ok(()));
    assert_eq!(emu.registers()[3], 0);
    let mut emu = machine(&[0xC3, 0xFF]);
    assert_eq!(emu.tick_with(0x5C), Ok(()));
    assert_eq!(emu.registers()[3], 0x5C);
}

#[test]
fn drawn_random_byte_stays_inside_the_mask() {
    let mut round: u16 = 0;
    while round < 200 {
        let mut emu = machine(&[0x63, 0xFF, 0xC3, 0x3C, 0xC4, 0x00]);
        assert_eq!(emu.tick(), Ok(()));
        assert_eq!(emu.tick(), Ok(()));
        assert_eq!(emu.registers()[3] & !0x3C, 0);
        assert_eq!(emu.tick(), Ok(()));
        assert_eq!(emu.registers()[4], 0);
        assert_eq!(emu.pc(), 0x206);
        round += 1;
    }
}

#[test]
fn the_byte_of_chance_matters_to_random_only() {
    let program: [u8; 12] = [0x60, 0x05, 0x61, 0x03, 0x80, 0x14, 0xA2, 0x00, 0xD0, 0x15, 0xF0, 0x33];
    let mut a = machine(&program);
    let mut b = machine(&program);
    let mut k: u8 = 0;
    while k < 6 {
        assert_eq!(a.tick_with(0x00), Ok(()));
        assert_eq!(b.tick_with(0xFF), Ok(()));
        k += 1;
    }
    assert_eq!(a.registers(), b.registers());
    assert_eq!(a.memory(), b.memory());
    assert_eq!(a.get_display(), b.get_display());
    assert_eq!(a.pc(), b.pc());
}

#[test]
fn execute_with_does_not_fetch() {
    let mut emu = Emu::new();
    assert_eq!(emu.execute_with(0x6A42, 0), Ok(()));
    assert_eq!(emu.registers()[0xA], 0x42);
    assert_eq!(emu.pc(), 0x200);
    assert_eq!(emu.execute_with(0x3A42, 0), Ok(()));
    assert_eq!(emu.pc(), 0x202);
    assert_eq!(emu.execute_with(0xCA0F, 0x99), Ok(()));
    assert_eq!(emu.registers()[0xA], 0x09);
}

#[test]
fn failed_tick_leaves_the_machine_as_it_was() {
    let mut emu = machine(&[0x60, 0x21, 0xAF, 0xFF, 0xD0, 0x02]);
    step_n(&mut emu, 2);
    let before = (emu.pc(), *emu.registers(), *emu.memory(), *emu.get_display(), emu.index());
    assert_eq!(emu.tick(), Err(EmuError::MemoryOutOfRange));
    let after = (emu.pc(), *emu.registers(), *emu.memory(), *emu.get_display(), emu.index());
    assert!(before == after);
}
