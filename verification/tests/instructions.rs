use chip8::{Chip8, Chip8Error, Outcome};

fn boot(program: &[u8]) -> Chip8 {
    let mut vm = Chip8::new();
    vm.initialize();
    vm.load_game(program.to_vec()).unwrap();
    vm
}

fn run(vm: &mut Chip8, cycles: usize) {
    for _ in 0..cycles {
        assert_eq!(vm.run_cycle(), Ok(Outcome::Executed));
    }
}

#[test]
fn load_immediate_sets_one_register_and_advances() {
    let mut vm = boot(&[0x6A, 0x05]);
    let memory_before: Vec<Option<u8>> = (0..4096u16).map(|a| vm.memory(a)).collect();
    assert_eq!(vm.run_cycle(), Ok(Outcome::Executed));
    assert_eq!(vm.register(0xA), Some(0x05));
    assert_eq!(vm.program_counter(), 0x202);
    for x in 0..16u8 {
        if x != 0xA {
            assert_eq!(vm.register(x), Some(0));
        }
        assert_eq!(vm.key(x), Some(false));
    }
    assert_eq!(vm.index(), 0);
    assert_eq!(vm.delay_timer(), 0);
    assert_eq!(vm.sound_timer(), 0);
    assert!(vm.call_stack().is_empty());
    assert_eq!(vm.display(), [[false; 64]; 32]);
    let memory_after: Vec<Option<u8>> = (0..4096u16).map(|a| vm.memory(a)).collect();
    assert_eq!(memory_before, memory_after);
}

#[test]
fn nop_only_advances() {
    let mut vm = boot(&[0x00, 0x00]);
    assert_eq!(vm.run_cycle(), Ok(Outcome::Executed));
    assert_eq!(vm.program_counter(), 0x202);
}

#[test]
fn unrecognized_opcode_is_reported_and_skipped() {
    let mut vm = boot(&[0x51, 0x21, 0x6A, 0x05]);
    assert_eq!(vm.run_cycle(), Ok(Outcome::UnrecognizedOpcode(0x5121)));
    assert_eq!(vm.program_counter(), 0x202);
    for x in 0..16u8 {
        assert_eq!(vm.register(x), Some(0));
    }
    assert_eq!(vm.run_cycle(), Ok(Outcome::Executed));
    assert_eq!(vm.register(0xA), Some(5));
}

#[test]
fn call_then_return_continues_after_the_call() {
    let mut program = vec![0u8; 0x102];
    program[0] = 0x23; // 0x200: CALL 0x300
    program[1] = 0x00;
    program[0x100] = 0x00; // 0x300: RETURN
    program[0x101] = 0xEE;
    let mut vm = boot(&program);
    assert_eq!(vm.run_cycle(), Ok(Outcome::Executed));
    assert_eq!(vm.program_counter(), 0x300);
    assert_eq!(vm.call_stack(), vec![0x202]);
    assert_eq!(vm.run_cycle(), Ok(Outcome::Executed));
    assert_eq!(vm.program_counter(), 0x202);
    assert!(vm.call_stack().is_empty());
}

#[test]
fn seventeenth_nested_call_overflows() {
    // 0x200: CALL 0x200, so that every cycle calls again.
    let mut vm = boot(&[0x22, 0x00]);
    for depth in 1..=16usize {
        assert_eq!(vm.run_cycle(), Ok(Outcome::Executed));
        assert_eq!(vm.call_stack().len(), depth);
    }
    assert_eq!(vm.run_cycle(), Err(Chip8Error::CallStackOverflow));
    assert_eq!(vm.call_stack(), vec![0x202; 16]);
    assert_eq!(vm.program_counter(), 0x200);
}

#[test]
fn return_without_call_underflows() {
    let mut vm = boot(&[0x00, 0xEE]);
    assert_eq!(vm.run_cycle(), Err(Chip8Error::CallStackUnderflow));
    assert_eq!(vm.program_counter(), 0x200);
    assert!(vm.call_stack().is_empty());
}

#[test]
fn nested_calls_return_in_reverse_order() {
    let mut program = vec![0u8; 0x204];
    program[0] = 0x23; // 0x200: CALL 0x300
    program[1] = 0x00;
    program[0x100] = 0x24; // 0x300: CALL 0x400
    program[0x101] = 0x00;
    program[0x102] = 0x00; // 0x302: RETURN
    program[0x103] = 0xEE;
    program[0x200] = 0x00; // 0x400: RETURN
    program[0x201] = 0xEE;
    let mut vm = boot(&program);
    run(&mut vm, 2);
    assert_eq!(vm.call_stack(), vec![0x202, 0x302]);
    run(&mut vm, 1);
    assert_eq!(vm.program_counter(), 0x302);
    run(&mut vm, 1);
    assert_eq!(vm.program_counter(), 0x202);
    assert!(vm.call_stack().is_empty());
}

#[test]
fn jump_goes_to_the_address_itself() {
    let mut vm = boot(&[0x1A, 0xBC]);
    run(&mut vm, 1);
    assert_eq!(vm.program_counter(), 0xABC);
}

#[test]
fn jump_to_address_zero_is_allowed() {
    let mut vm = boot(&[0x10, 0x00]);
    run(&mut vm, 1);
    assert_eq!(vm.program_counter(), 0x000);
}

#[test]
fn jump_with_offset_adds_register_zero() {
    let mut vm = boot(&[0x60, 0xFF, 0xB3, 0x01]);
    run(&mut vm, 2);
    assert_eq!(vm.program_counter(), 0x400);
}

#[test]
fn fetch_past_the_end_of_memory_fails() {
    let mut vm = boot(&[0x1F, 0xFF]);
    run(&mut vm, 1);
    assert_eq!(vm.program_counter(), 0xFFF);
    assert_eq!(vm.run_cycle(), Err(Chip8Error::MemoryOutOfBounds));
    assert_eq!(vm.program_counter(), 0xFFF);
}

#[test]
fn running_off_the_end_of_memory_fails() {
    let mut program = vec![0u8; 3584];
    program[0] = 0x1F; // JP 0xFFE
    program[1] = 0xFE;
    program[3582] = 0x61; // LD V1, 7
    program[3583] = 0x07;
    let mut vm = boot(&program);
    run(&mut vm, 2);
    assert_eq!(vm.register(1), Some(7));
    assert_eq!(vm.program_counter(), 0x1000);
    assert_eq!(vm.run_cycle(), Err(Chip8Error::MemoryOutOfBounds));
}

#[test]
fn skip_equal_immediate() {
    let mut vm = boot(&[0x61, 0x2A, 0x31, 0x2A, 0x00, 0x00, 0x31, 0x2B]);
    run(&mut vm, 2);
    assert_eq!(vm.program_counter(), 0x206);
    run(&mut vm, 1);
    assert_eq!(vm.program_counter(), 0x208);
}

#[test]
fn skip_not_equal_immediate() {
    let mut vm = boot(&[0x61, 0x2A, 0x41, 0x2B, 0x00, 0x00, 0x41, 0x2A]);
    run(&mut vm, 2);
    assert_eq!(vm.program_counter(), 0x206);
    run(&mut vm, 1);
    assert_eq!(vm.program_counter(), 0x208);
}

#[test]
fn skip_equal_and_not_equal_registers() {
    let mut vm = boot(&[0x61, 0x07, 0x62, 0x07, 0x51, 0x20, 0x00, 0x00, 0x91, 0x20, 0x63, 0x01, 0x91, 0x30, 0x00, 0x00, 0x51, 0x30]);
    run(&mut vm, 3);
    assert_eq!(vm.program_counter(), 0x208);
    run(&mut vm, 1);
    assert_eq!(vm.program_counter(), 0x20A);
    run(&mut vm, 2);
    assert_eq!(vm.program_counter(), 0x210);
    run(&mut vm, 1);
    assert_eq!(vm.program_counter(), 0x212);
}

#[test]
fn add_immediate_wraps_and_leaves_the_flag() {
    let mut vm = boot(&[0x6F, 0x09, 0x61, 0xF0, 0x71, 0x20, 0x71, 0x05]);
    run(&mut vm, 3);
    assert_eq!(vm.register(1), Some(0x10));
    assert_eq!(vm.register(0xF), Some(0x09));
    run(&mut vm, 1);
    assert_eq!(vm.register(1), Some(0x15));
}

#[test]
fn move_or_and_xor() {
    let mut vm = boot(&[
        0x61, 0b1100_1010, 0x62, 0b1010_0110,
        0x83, 0x10, // V3 = V1
        0x83, 0x21, // V3 |= V2
        0x84, 0x10, 0x84, 0x22, // V4 = V1 & V2
        0x85, 0x10, 0x85, 0x23, // V5 = V1 ^ V2
    ]);
    run(&mut vm, 8);
    assert_eq!(vm.register(3), Some(0b1110_1110));
    assert_eq!(vm.register(4), Some(0b1000_0010));
    assert_eq!(vm.register(5), Some(0b0110_1100));
    assert_eq!(vm.register(1), Some(0b1100_1010));
    assert_eq!(vm.register(2), Some(0b1010_0110));
    assert_eq!(vm.register(0xF), Some(0));
}

fn binary_op(op: u8, x: u8, v: u8, y: u8, w: u8) -> Chip8 {
    let mut vm = boot(&[0x60 | x, v, 0x60 | y, w, 0x80 | x, (y << 4) | op]);
    run(&mut vm, 3);
    vm
}

#[test]
fn add_registers_without_carry() {
    let vm = binary_op(4, 1, 0x12, 2, 0x34);
    assert_eq!(vm.register(1), Some(0x46));
    assert_eq!(vm.register(0xF), Some(0));
}

#[test]
fn add_registers_sum_255_has_no_carry() {
    let vm = binary_op(4, 1, 0xF0, 2, 0x0F);
    assert_eq!(vm.register(1), Some(0xFF));
    assert_eq!(vm.register(0xF), Some(0));
}

#[test]
fn add_registers_sum_256_carries() {
    let vm = binary_op(4, 1, 0x80, 2, 0x80);
    assert_eq!(vm.register(1), Some(0x00));
    assert_eq!(vm.register(0xF), Some(1));
}

#[test]
fn add_registers_with_carry() {
    let vm = binary_op(4, 1, 0xFF, 2, 0xFF);
    assert_eq!(vm.register(1), Some(0xFE));
    assert_eq!(vm.register(0xF), Some(1));
}

#[test]
fn add_for_every_pair_of_values() {
    for v in (0..=255u16).step_by(5) {
        for w in (0..=255u16).step_by(3) {
            let vm = binary_op(4, 3, v as u8, 7, w as u8);
            assert_eq!(vm.register(3), Some(((v + w) % 256) as u8));
            assert_eq!(vm.register(0xF), Some(if v + w > 255 { 1 } else { 0 }));
        }
    }
}

#[test]
fn sub_for_every_pair_of_values() {
    for v in (0..=255i32).step_by(5) {
        for w in (0..=255i32).step_by(3) {
            let vm = binary_op(5, 3, v as u8, 7, w as u8);
            assert_eq!(vm.register(3), Some((v - w).rem_euclid(256) as u8));
            assert_eq!(vm.register(0xF), Some(if v >= w { 1 } else { 0 }));
        }
    }
}

#[test]
fn add_into_the_flag_register_keeps_the_flag() {
    let vm = binary_op(4, 0xF, 0x10, 1, 0x20);
    assert_eq!(vm.register(0xF), Some(0));
    let vm = binary_op(4, 0xF, 0xF0, 1, 0x20);
    assert_eq!(vm.register(0xF), Some(1));
}

#[test]
fn add_with_the_flag_register_as_operand_uses_its_old_value() {
    let vm = binary_op(4, 1, 0xFF, 0xF, 0x03);
    assert_eq!(vm.register(1), Some(0x02));
    assert_eq!(vm.register(0xF), Some(1));
}

#[test]
fn sub_registers_without_borrow() {
    let vm = binary_op(5, 1, 0x34, 2, 0x12);
    assert_eq!(vm.register(1), Some(0x22));
    assert_eq!(vm.register(0xF), Some(1));
}

#[test]
fn sub_registers_equal_values_set_the_flag() {
    let vm = binary_op(5, 1, 0x34, 2, 0x34);
    assert_eq!(vm.register(1), Some(0x00));
    assert_eq!(vm.register(0xF), Some(1));
}

#[test]
fn sub_registers_with_borrow() {
    let vm = binary_op(5, 1, 0x12, 2, 0x34);
    assert_eq!(vm.register(1), Some(0xDE));
    assert_eq!(vm.register(0xF), Some(0));
}

#[test]
fn sub_from_is_the_reverse_difference() {
    let vm = binary_op(7, 1, 0x12, 2, 0x34);
    assert_eq!(vm.register(1), Some(0x22));
    assert_eq!(vm.register(0xF), Some(1));
    let vm = binary_op(7, 1, 0x34, 2, 0x12);
    assert_eq!(vm.register(1), Some(0xDE));
    assert_eq!(vm.register(0xF), Some(0));
    let vm = binary_op(7, 1, 0x34, 2, 0x34);
    assert_eq!(vm.register(1), Some(0x00));
    assert_eq!(vm.register(0xF), Some(1));
}

#[test]
fn shift_right_moves_the_low_bit_to_the_flag() {
    let vm = binary_op(6, 1, 0b1000_0101, 2, 0xFF);
    assert_eq!(vm.register(1), Some(0b0100_0010));
    assert_eq!(vm.register(2), Some(0xFF));
    assert_eq!(vm.register(0xF), Some(1));
    let vm = binary_op(6, 1, 0b1000_0100, 2, 0xFF);
    assert_eq!(vm.register(1), Some(0b0100_0010));
    assert_eq!(vm.register(0xF), Some(0));
}

#[test]
fn shift_left_moves_the_high_bit_to_the_flag() {
    let vm = binary_op(0xE, 1, 0b1000_0101, 2, 0xFF);
    assert_eq!(vm.register(1), Some(0b0000_1010));
    assert_eq!(vm.register(2), Some(0xFF));
    assert_eq!(vm.register(0xF), Some(1));
    let vm = binary_op(0xE, 1, 0b0100_0101, 2, 0xFF);
    assert_eq!(vm.register(1), Some(0b1000_1010));
    assert_eq!(vm.register(0xF), Some(0));
}

#[test]
fn shifting_the_flag_register_leaves_the_flag() {
    let vm = binary_op(6, 0xF, 0b0000_0111, 2, 0);
    assert_eq!(vm.register(0xF), Some(1));
    let vm = binary_op(0xE, 0xF, 0b0100_0000, 2, 0);
    assert_eq!(vm.register(0xF), Some(0));
}

#[test]
fn random_is_masked_by_the_immediate() {
    let mut vm = boot(&[0xC1, 0xF0]);
    assert_eq!(vm.run_cycle_with(0xAB), Ok(Outcome::Executed));
    assert_eq!(vm.register(1), Some(0xA0));
    assert_eq!(vm.program_counter(), 0x202);
}

#[test]
fn random_from_the_generator_stays_within_the_mask() {
    let mut seen = [false; 16];
    for _ in 0..400 {
        let mut vm = boot(&[0x61, 0xFF, 0xC1, 0x0F]);
        run(&mut vm, 2);
        let value = vm.register(1).unwrap();
        assert_eq!(value & 0xF0, 0);
        seen[value as usize] = true;
    }
    assert!(seen.iter().filter(|s| **s).count() > 1);
}

#[test]
fn random_byte_is_ignored_by_other_instructions() {
    let mut first = boot(&[0x6A, 0x05, 0x8A, 0xA4]);
    let mut second = boot(&[0x6A, 0x05, 0x8A, 0xA4]);
    for _ in 0..2 {
        first.run_cycle_with(0x00).unwrap();
        second.run_cycle_with(0xFF).unwrap();
    }
    assert_eq!(first.register(0xA), Some(10));
    assert_eq!(second.register(0xA), Some(10));
    assert_eq!(first.program_counter(), second.program_counter());
}

#[test]
fn load_index_and_add_to_index() {
    let mut vm = boot(&[0xA1, 0x23, 0x61, 0xFF, 0xF1, 0x1E]);
    run(&mut vm, 3);
    assert_eq!(vm.index(), 0x222);
}

#[test]
fn add_to_index_may_leave_memory_but_not_16_bits() {
    // I = 0xFFF, V1 = 0xFF: 240 additions reach 0xFFF + 240 * 0xFF = 0xFF0F,
    // and the next one would pass 0xFFFF.
    let mut vm = boot(&[0xAF, 0xFF, 0x61, 0xFF, 0xF1, 0x1E, 0x12, 0x04]);
    run(&mut vm, 2);
    for _ in 0..240 {
        run(&mut vm, 2);
    }
    assert_eq!(vm.index(), 0xFF0F);
    assert_eq!(vm.run_cycle(), Err(Chip8Error::IndexOverflow));
    assert_eq!(vm.index(), 0xFF0F);
    assert_eq!(vm.program_counter(), 0x204);
}

#[test]
fn load_glyph_points_at_five_times_the_digit() {
    let mut vm = boot(&[0x61, 0x0A, 0xF1, 0x29, 0x62, 0x00, 0xF2, 0x29]);
    run(&mut vm, 2);
    assert_eq!(vm.index(), 50);
    run(&mut vm, 2);
    assert_eq!(vm.index(), 0);
}

#[test]
fn store_bcd_writes_three_digits() {
    let mut vm = boot(&[0x61, 254, 0xA3, 0x00, 0xF1, 0x33]);
    run(&mut vm, 3);
    assert_eq!(vm.memory(0x300), Some(2));
    assert_eq!(vm.memory(0x301), Some(5));
    assert_eq!(vm.memory(0x302), Some(4));
    assert_eq!(vm.memory(0x303), Some(0));
    assert_eq!(vm.memory(0x2FF), Some(0));
}

#[test]
fn store_bcd_of_small_values_pads_with_zero() {
    let mut vm = boot(&[0x61, 7, 0xA3, 0x00, 0xF1, 0x33, 0x61, 40, 0xA3, 0x10, 0xF1, 0x33]);
    run(&mut vm, 6);
    assert_eq!([vm.memory(0x300), vm.memory(0x301), vm.memory(0x302)], [Some(0), Some(0), Some(7)]);
    assert_eq!([vm.memory(0x310), vm.memory(0x311), vm.memory(0x312)], [Some(0), Some(4), Some(0)]);
}

#[test]
fn store_bcd_at_the_end_of_memory() {
    let mut vm = boot(&[0x61, 123, 0xAF, 0xFD, 0xF1, 0x33, 0xAF, 0xFE, 0xF1, 0x33]);
    run(&mut vm, 3);
    assert_eq!([vm.memory(0xFFD), vm.memory(0xFFE), vm.memory(0xFFF)], [Some(1), Some(2), Some(3)]);
    run(&mut vm, 1);
    assert_eq!(vm.run_cycle(), Err(Chip8Error::MemoryOutOfBounds));
    assert_eq!([vm.memory(0xFFD), vm.memory(0xFFE), vm.memory(0xFFF)], [Some(1), Some(2), Some(3)]);
}

#[test]
fn store_registers_writes_v0_to_vx_inclusive() {
    let mut vm = boot(&[0x60, 0x11, 0x61, 0x22, 0x62, 0x33, 0x63, 0x44, 0xA3, 0x00, 0xF2, 0x55]);
    run(&mut vm, 6);
    assert_eq!(vm.memory(0x300), Some(0x11));
    assert_eq!(vm.memory(0x301), Some(0x22));
    assert_eq!(vm.memory(0x302), Some(0x33));
    assert_eq!(vm.memory(0x303), Some(0));
    assert_eq!(vm.index(), 0x300);
}

#[test]
fn load_registers_reads_v0_to_vx_inclusive() {
    let mut vm = boot(&[0x63, 0x44, 0xA2, 0x08, 0xF2, 0x65, 0x00, 0x00, 0xAA, 0xBB, 0xCC, 0xDD]);
    run(&mut vm, 3);
    assert_eq!(vm.register(0), Some(0xAA));
    assert_eq!(vm.register(1), Some(0xBB));
    assert_eq!(vm.register(2), Some(0xCC));
    assert_eq!(vm.register(3), Some(0x44));
    assert_eq!(vm.index(), 0x208);
}

#[test]
fn store_and_load_all_sixteen_registers() {
    let mut program: Vec<u8> = Vec::new();
    for x in 0..16u8 {
        program.push(0x60 | x);
        program.push(0xA0 + x);
    }
    program.extend_from_slice(&[0xA4, 0x00, 0xFF, 0x55]);
    for x in 0..16u8 {
        program.push(0x60 | x);
        program.push(0);
    }
    program.extend_from_slice(&[0xFF, 0x65]);
    let mut vm = boot(&program);
    run(&mut vm, 18);
    for x in 0..16u16 {
        assert_eq!(vm.memory(0x400 + x), Some(0xA0 + x as u8));
    }
    run(&mut vm, 17);
    for x in 0..16u8 {
        assert_eq!(vm.register(x), Some(0xA0 + x));
    }
}

#[test]
fn block_transfer_past_the_end_of_memory_fails() {
    let mut vm = boot(&[0x61, 0x77, 0xAF, 0xFF, 0xF1, 0x55]);
    run(&mut vm, 2);
    assert_eq!(vm.run_cycle(), Err(Chip8Error::MemoryOutOfBounds));
    assert_eq!(vm.memory(0xFFF), Some(0));
    let mut vm = boot(&[0xAF, 0xFF, 0xF1, 0x65]);
    run(&mut vm, 1);
    assert_eq!(vm.run_cycle(), Err(Chip8Error::MemoryOutOfBounds));
    let mut vm = boot(&[0x60, 0x77, 0xAF, 0xFF, 0xF0, 0x55]);
    run(&mut vm, 3);
    assert_eq!(vm.memory(0xFFF), Some(0x77));
}
