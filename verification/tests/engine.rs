use chip8::{EngineState, Fault, Instruction, CHIP8};

fn machine_with(program: &[u8]) -> CHIP8 {
    let mut chip = CHIP8::new();
    chip.load_fonts();
    assert_eq!(chip.load_rom(program), Ok(()));
    chip
}

fn lit_cells(chip: &CHIP8) -> Vec<usize> {
    (0..2048).filter(|&p| chip.display[p] == 1).collect()
}

#[test]
fn load_immediate_sets_register_and_advances() {
    let mut chip = machine_with(&[0x6A, 0x3C]);
    assert_eq!(chip.cycle(), Ok(0x6A3C));
    assert_eq!(chip.vregister[10], 0x3C);
    assert_eq!(chip.program_counter, 0x202);
    assert_eq!(chip.state, EngineState::Running);
}

#[test]
fn clear_screen_zeroes_the_framebuffer() {
    let mut chip = machine_with(&[0x00, 0xE0]);
    for p in 0..2048 {
        chip.display[p] = (p % 2) as u8;
    }
    chip.display[2047] = 1;
    assert_eq!(chip.cycle(), Ok(0x00E0));
    assert!(chip.display.iter().all(|&p| p == 0));
    assert_eq!(chip.program_counter, 0x202);
}

#[test]
fn add_registers_with_carry() {
    let mut chip = CHIP8::new();
    chip.vregister[1] = 0xFF;
    chip.vregister[2] = 0x01;
    assert_eq!(chip.execute(Instruction::Add { x: 1, y: 2 }, 0), Ok(()));
    assert_eq!(chip.vregister[1], 0x00);
    assert_eq!(chip.vregister[0xF], 1);
    assert_eq!(chip.program_counter, 0x202);
}

#[test]
fn add_registers_without_carry() {
    let mut chip = CHIP8::new();
    chip.vregister[1] = 0x01;
    chip.vregister[2] = 0x01;
    chip.vregister[0xF] = 7;
    assert_eq!(chip.execute(Instruction::Add { x: 1, y: 2 }, 0), Ok(()));
    assert_eq!(chip.vregister[1], 0x02);
    assert_eq!(chip.vregister[0xF], 0);
}

#[test]
fn add_into_flag_register_keeps_the_carry() {
    let mut chip = CHIP8::new();
    chip.vregister[0xF] = 0xF0;
    chip.vregister[2] = 0x20;
    assert_eq!(chip.execute(Instruction::Add { x: 0xF, y: 2 }, 0), Ok(()));
    assert_eq!(chip.vregister[0xF], 1);
}

#[test]
fn add_immediate_wraps_without_flag() {
    let mut chip = CHIP8::new();
    chip.vregister[3] = 0xFE;
    chip.vregister[0xF] = 9;
    assert_eq!(chip.execute(Instruction::AddImm { x: 3, kk: 0x05 }, 0), Ok(()));
    assert_eq!(chip.vregister[3], 0x03);
    assert_eq!(chip.vregister[0xF], 9);
}

#[test]
fn sub_registers_without_borrow() {
    let mut chip = CHIP8::new();
    chip.vregister[1] = 0x05;
    chip.vregister[2] = 0x03;
    assert_eq!(chip.execute(Instruction::Sub { x: 1, y: 2 }, 0), Ok(()));
    assert_eq!(chip.vregister[1], 0x02);
    assert_eq!(chip.vregister[0xF], 1);
}

#[test]
fn sub_registers_with_borrow() {
    let mut chip = CHIP8::new();
    chip.vregister[1] = 0x03;
    chip.vregister[2] = 0x05;
    assert_eq!(chip.execute(Instruction::Sub { x: 1, y: 2 }, 0), Ok(()));
    assert_eq!(chip.vregister[1], 0xFE);
    assert_eq!(chip.vregister[0xF], 0);
}

#[test]
fn sub_equal_registers_clears_the_flag() {
    let mut chip = CHIP8::new();
    chip.vregister[1] = 0x07;
    chip.vregister[2] = 0x07;
    chip.vregister[0xF] = 1;
    assert_eq!(chip.execute(Instruction::Sub { x: 1, y: 2 }, 0), Ok(()));
    assert_eq!(chip.vregister[1], 0x00);
    assert_eq!(chip.vregister[0xF], 0);
}

#[test]
fn sub_reads_the_flag_register_after_the_flag_is_written() {
    let mut chip = CHIP8::new();
    chip.vregister[1] = 0x09;
    chip.vregister[0xF] = 0x03;
    assert_eq!(chip.execute(Instruction::Sub { x: 1, y: 0xF }, 0), Ok(()));
    assert_eq!(chip.vregister[0xF], 1);
    assert_eq!(chip.vregister[1], 0x08);
}

#[test]
fn sub_reverse_sets_flag_when_second_is_greater() {
    let mut chip = CHIP8::new();
    chip.vregister[1] = 0x03;
    chip.vregister[2] = 0x05;
    assert_eq!(chip.execute(Instruction::SubReverse { x: 1, y: 2 }, 0), Ok(()));
    assert_eq!(chip.vregister[1], 0x02);
    assert_eq!(chip.vregister[0xF], 1);
    chip.vregister[1] = 0x05;
    chip.vregister[2] = 0x03;
    assert_eq!(chip.execute(Instruction::SubReverse { x: 1, y: 2 }, 0), Ok(()));
    assert_eq!(chip.vregister[1], 0xFE);
    assert_eq!(chip.vregister[0xF], 0);
}

#[test]
fn shift_right_moves_low_bit_to_flag() {
    let mut chip = CHIP8::new();
    chip.vregister[4] = 0x03;
    assert_eq!(chip.execute(Instruction::ShiftRight { x: 4 }, 0), Ok(()));
    assert_eq!(chip.vregister[4], 0x01);
    assert_eq!(chip.vregister[0xF], 1);
    chip.vregister[4] = 0x04;
    assert_eq!(chip.execute(Instruction::ShiftRight { x: 4 }, 0), Ok(()));
    assert_eq!(chip.vregister[4], 0x02);
    assert_eq!(chip.vregister[0xF], 0);
}

#[test]
fn shift_left_moves_high_bit_to_flag() {
    let mut chip = CHIP8::new();
    chip.vregister[4] = 0x81;
    assert_eq!(chip.execute(Instruction::ShiftLeft { x: 4 }, 0), Ok(()));
    assert_eq!(chip.vregister[4], 0x02);
    assert_eq!(chip.vregister[0xF], 1);
    chip.vregister[4] = 0x41;
    assert_eq!(chip.execute(Instruction::ShiftLeft { x: 4 }, 0), Ok(()));
    assert_eq!(chip.vregister[4], 0x82);
    assert_eq!(chip.vregister[0xF], 0);
}

#[test]
fn logic_operations() {
    let mut chip = CHIP8::new();
    chip.vregister[1] = 0b1100;
    chip.vregister[2] = 0b1010;
    assert_eq!(chip.execute(Instruction::Or { x: 1, y: 2 }, 0), Ok(()));
    assert_eq!(chip.vregister[1], 0b1110);
    chip.vregister[1] = 0b1100;
    assert_eq!(chip.execute(Instruction::And { x: 1, y: 2 }, 0), Ok(()));
    assert_eq!(chip.vregister[1], 0b1000);
    chip.vregister[1] = 0b1100;
    assert_eq!(chip.execute(Instruction::Xor { x: 1, y: 2 }, 0), Ok(()));
    assert_eq!(chip.vregister[1], 0b0110);
    assert_eq!(chip.execute(Instruction::Move { x: 1, y: 2 }, 0), Ok(()));
    assert_eq!(chip.vregister[1], 0b1010);
    assert_eq!(chip.program_counter, 0x208);
}

#[test]
fn bcd_store_writes_three_digits() {
    let mut chip = CHIP8::new();
    chip.vregister[5] = 234;
    chip.index_register = 0x300;
    assert_eq!(chip.execute(Instruction::StoreBcd { x: 5 }, 0), Ok(()));
    assert_eq!(&chip.memory[0x300..0x303], &[2, 3, 4]);
    assert_eq!(chip.index_register, 0x300);
    assert_eq!(chip.program_counter, 0x202);
}

#[test]
fn bcd_store_of_small_and_large_values() {
    let mut chip = CHIP8::new();
    chip.index_register = 0x300;
    chip.vregister[0] = 7;
    assert_eq!(chip.execute(Instruction::StoreBcd { x: 0 }, 0), Ok(()));
    assert_eq!(&chip.memory[0x300..0x303], &[0, 0, 7]);
    chip.vregister[0] = 255;
    assert_eq!(chip.execute(Instruction::StoreBcd { x: 0 }, 0), Ok(()));
    assert_eq!(&chip.memory[0x300..0x303], &[2, 5, 5]);
}

#[test]
fn bcd_store_at_the_end_of_memory() {
    let mut chip = CHIP8::new();
    chip.vregister[0] = 123;
    chip.index_register = 4093;
    assert_eq!(chip.execute(Instruction::StoreBcd { x: 0 }, 0), Ok(()));
    assert_eq!(&chip.memory[4093..4096], &[1, 2, 3]);
    chip.index_register = 4094;
    assert_eq!(
        chip.execute(Instruction::StoreBcd { x: 0 }, 0),
        Err(Fault::AddressOutOfBounds)
    );
    assert_eq!(chip.program_counter, 0x202);
    assert_eq!(&chip.memory[4093..4096], &[1, 2, 3]);
}

#[test]
fn draw_digit_sprite_on_blank_framebuffer() {
    // I = glyph "0", then draw five rows at (V0, V1) = (0, 0).
    let mut chip = machine_with(&[0xF0, 0x29, 0xD0, 0x15]);
    assert_eq!(chip.cycle(), Ok(0xF029));
    assert_eq!(chip.index_register, 0x50);
    assert_eq!(chip.cycle(), Ok(0xD015));
    let glyph: [u8; 5] = [0xF0, 0x90, 0x90, 0x90, 0xF0];
    for row in 0..32usize {
        for col in 0..64usize {
            let expected = if row < 5 && col < 8 {
                (glyph[row] >> (7 - col)) & 1
            } else {
                0
            };
            assert_eq!(chip.display[row * 64 + col], expected);
        }
    }
    assert_eq!(
        lit_cells(&chip),
        vec![0, 1, 2, 3, 64, 67, 128, 131, 192, 195, 256, 257, 258, 259]
    );
    assert_eq!(chip.vregister[0xF], 0);
    assert_eq!(chip.program_counter, 0x204);
}

#[test]
fn draw_at_a_position_offsets_the_cells() {
    let mut chip = CHIP8::new();
    chip.memory[0x300] = 0b1010_0000;
    chip.memory[0x301] = 0b0000_0001;
    chip.index_register = 0x300;
    chip.vregister[2] = 10;
    chip.vregister[3] = 4;
    assert_eq!(chip.execute(Instruction::Draw { x: 2, y: 3, n: 2 }, 0), Ok(()));
    assert_eq!(lit_cells(&chip), vec![4 * 64 + 10, 4 * 64 + 12, 5 * 64 + 17]);
}

#[test]
fn draw_twice_restores_the_framebuffer() {
    let mut chip = CHIP8::new();
    chip.load_fonts();
    chip.index_register = 0x50 + 5 * 0xB;
    chip.vregister[0] = 20;
    chip.vregister[1] = 9;
    chip.display[9 * 64 + 20] = 1;
    chip.display[100] = 1;
    let before = chip.display;
    assert_eq!(chip.execute(Instruction::Draw { x: 0, y: 1, n: 5 }, 0), Ok(()));
    assert_ne!(chip.display, before);
    assert_eq!(chip.display[9 * 64 + 20], 0);
    assert_eq!(chip.execute(Instruction::Draw { x: 0, y: 1, n: 5 }, 0), Ok(()));
    assert_eq!(chip.display, before);
}

#[test]
fn draw_resets_the_flag_and_never_sets_it() {
    let mut chip = CHIP8::new();
    chip.memory[0x300] = 0xFF;
    chip.index_register = 0x300;
    chip.vregister[0xF] = 1;
    chip.display[0] = 1;
    assert_eq!(chip.execute(Instruction::Draw { x: 0, y: 0, n: 1 }, 0), Ok(()));
    assert_eq!(chip.vregister[0xF], 0);
    assert_eq!(chip.display[0], 0);
    assert_eq!(chip.display[1], 1);
}

#[test]
fn draw_reads_its_position_before_the_flag_is_reset() {
    let mut chip = CHIP8::new();
    chip.memory[0x300] = 0x80;
    chip.index_register = 0x300;
    chip.vregister[0xF] = 5;
    assert_eq!(chip.execute(Instruction::Draw { x: 0xF, y: 0, n: 1 }, 0), Ok(()));
    assert_eq!(lit_cells(&chip), vec![5]);
    assert_eq!(chip.vregister[0xF], 0);
}

#[test]
fn draw_past_the_right_edge_runs_into_the_next_row() {
    let mut chip = CHIP8::new();
    chip.memory[0x300] = 0xFF;
    chip.index_register = 0x300;
    chip.vregister[0] = 60;
    chip.vregister[1] = 0;
    assert_eq!(chip.execute(Instruction::Draw { x: 0, y: 1, n: 1 }, 0), Ok(()));
    assert_eq!(lit_cells(&chip), vec![60, 61, 62, 63, 64, 65, 66, 67]);
}

#[test]
fn draw_with_no_rows_changes_only_flag_and_counter() {
    let mut chip = CHIP8::new();
    chip.index_register = 0xFFFF;
    chip.vregister[0xF] = 1;
    chip.vregister[0] = 255;
    assert_eq!(chip.execute(Instruction::Draw { x: 0, y: 0, n: 0 }, 0), Ok(()));
    assert!(lit_cells(&chip).is_empty());
    assert_eq!(chip.vregister[0xF], 0);
    assert_eq!(chip.program_counter, 0x202);
}

#[test]
fn draw_beyond_the_framebuffer_is_refused() {
    let mut chip = CHIP8::new();
    chip.memory[0x300] = 0x80;
    chip.memory[0x301] = 0x01;
    chip.index_register = 0x300;
    chip.vregister[0] = 56;
    chip.vregister[1] = 31;
    chip.vregister[0xF] = 1;
    // Row 0 fits (cell 2040); row 1 lights cell 32 * 64 + 63, beyond the last.
    assert_eq!(
        chip.execute(Instruction::Draw { x: 0, y: 1, n: 2 }, 0),
        Err(Fault::PixelOutOfBounds)
    );
    assert!(lit_cells(&chip).is_empty());
    assert_eq!(chip.vregister[0xF], 1);
    assert_eq!(chip.program_counter, 0x200);
}

#[test]
fn draw_with_unlit_pixels_beyond_the_framebuffer_is_accepted() {
    let mut chip = CHIP8::new();
    chip.memory[0x300] = 0x80;
    chip.memory[0x301] = 0x00;
    chip.index_register = 0x300;
    chip.vregister[0] = 63;
    chip.vregister[1] = 31;
    assert_eq!(chip.execute(Instruction::Draw { x: 0, y: 1, n: 2 }, 0), Ok(()));
    assert_eq!(lit_cells(&chip), vec![2047]);
}

#[test]
fn draw_reading_beyond_memory_is_refused() {
    let mut chip = CHIP8::new();
    chip.index_register = 4095;
    assert_eq!(chip.execute(Instruction::Draw { x: 0, y: 0, n: 1 }, 0), Ok(()));
    chip.index_register = 4095;
    assert_eq!(
        chip.execute(Instruction::Draw { x: 0, y: 0, n: 2 }, 0),
        Err(Fault::AddressOutOfBounds)
    );
    assert_eq!(chip.program_counter, 0x202);
}

#[test]
fn call_then_return_resumes_after_the_call() {
    // 0x200: CALL 0x206; 0x206: RET
    let mut chip = machine_with(&[0x22, 0x06, 0x00, 0x00, 0x00, 0x00, 0x00, 0xEE]);
    assert_eq!(chip.cycle(), Ok(0x2206));
    assert_eq!(chip.program_counter, 0x206);
    assert_eq!(chip.stack_pointer, 1);
    assert_eq!(chip.stack[0], 0x200);
    assert_eq!(chip.cycle(), Ok(0x00EE));
    assert_eq!(chip.program_counter, 0x202);
    assert_eq!(chip.stack_pointer, 0);
}

#[test]
fn nested_calls_return_in_reverse_order() {
    let mut chip = CHIP8::new();
    assert_eq!(chip.execute(Instruction::Call { nnn: 0x300 }, 0), Ok(()));
    assert_eq!(chip.execute(Instruction::Call { nnn: 0x400 }, 0), Ok(()));
    assert_eq!(chip.stack_pointer, 2);
    assert_eq!(&chip.stack[0..2], &[0x200, 0x300]);
    assert_eq!(chip.execute(Instruction::Return, 0), Ok(()));
    assert_eq!(chip.program_counter, 0x302);
    assert_eq!(chip.execute(Instruction::Return, 0), Ok(()));
    assert_eq!(chip.program_counter, 0x202);
    assert_eq!(chip.stack_pointer, 0);
}

#[test]
fn return_with_no_call_active_is_refused() {
    let mut chip = machine_with(&[0x00, 0xEE]);
    chip.delay_timer = 5;
    assert_eq!(chip.cycle(), Err(Fault::StackUnderflow));
    assert_eq!(chip.program_counter, 0x200);
    assert_eq!(chip.stack_pointer, 0);
    assert_eq!(chip.delay_timer, 5);
}

#[test]
fn call_with_a_full_stack_is_refused() {
    let mut chip = CHIP8::new();
    for depth in 0..16u8 {
        assert_eq!(chip.stack_pointer, depth);
        assert_eq!(chip.execute(Instruction::Call { nnn: 0x300 }, 0), Ok(()));
    }
    assert_eq!(chip.stack_pointer, 16);
    let stack = chip.stack;
    assert_eq!(
        chip.execute(Instruction::Call { nnn: 0x400 }, 0),
        Err(Fault::StackOverflow)
    );
    assert_eq!(chip.stack_pointer, 16);
    assert_eq!(chip.stack, stack);
    assert_eq!(chip.program_counter, 0x300);
}

#[test]
fn return_with_a_stack_pointer_beyond_the_stack_is_refused() {
    let mut chip = CHIP8::new();
    chip.stack_pointer = 17;
    assert_eq!(chip.execute(Instruction::Return, 0), Err(Fault::StackOverflow));
    assert_eq!(chip.stack_pointer, 17);
}

#[test]
fn return_to_an_address_beyond_memory_is_refused() {
    let mut chip = CHIP8::new();
    chip.stack[0] = 4095;
    chip.stack_pointer = 1;
    assert_eq!(
        chip.execute(Instruction::Return, 0),
        Err(Fault::ProgramCounterOutOfBounds)
    );
    assert_eq!(chip.stack_pointer, 1);
    chip.stack[0] = 4094;
    assert_eq!(chip.execute(Instruction::Return, 0), Ok(()));
    assert_eq!(chip.program_counter, 4096);
}

#[test]
fn key_wait_suspends_until_a_key_is_held() {
    let mut chip = machine_with(&[0xF3, 0x0A]);
    chip.vregister[3] = 0x77;
    for _ in 0..5 {
        assert_eq!(chip.cycle(), Ok(0xF30A));
        assert_eq!(chip.program_counter, 0x200);
        assert_eq!(chip.vregister[3], 0x77);
        assert_eq!(chip.state, EngineState::AwaitingKey);
    }
    chip.keypad[0xB] = true;
    chip.keypad[0x7] = true;
    assert_eq!(chip.cycle(), Ok(0xF30A));
    assert_eq!(chip.program_counter, 0x202);
    assert_eq!(chip.vregister[3], 0x7);
    assert_eq!(chip.state, EngineState::Running);
}

#[test]
fn key_wait_takes_key_zero_first() {
    let mut chip = CHIP8::new();
    chip.vregister[1] = 9;
    chip.keypad = [true; 16];
    assert_eq!(chip.execute(Instruction::WaitKey { x: 1 }, 0), Ok(()));
    assert_eq!(chip.vregister[1], 0);
    assert_eq!(chip.program_counter, 0x202);
}

#[test]
fn key_wait_lets_the_timers_run() {
    let mut chip = machine_with(&[0xF3, 0x0A]);
    chip.delay_timer = 2;
    chip.sound_timer = 1;
    assert_eq!(chip.cycle(), Ok(0xF30A));
    assert_eq!((chip.delay_timer, chip.sound_timer), (1, 0));
    assert_eq!(chip.cycle(), Ok(0xF30A));
    assert_eq!((chip.delay_timer, chip.sound_timer), (0, 0));
    assert_eq!(chip.program_counter, 0x200);
}

#[test]
fn first_pressed_key_finds_the_lowest_key() {
    let mut chip = CHIP8::new();
    assert_eq!(chip.first_pressed_key(), None);
    chip.keypad[0xF] = true;
    assert_eq!(chip.first_pressed_key(), Some(0xF));
    chip.keypad[0x4] = true;
    assert_eq!(chip.first_pressed_key(), Some(0x4));
}

#[test]
fn skip_if_key_pressed() {
    let mut chip = CHIP8::new();
    chip.vregister[2] = 0xA;
    assert_eq!(chip.execute(Instruction::SkipKeyPressed { x: 2 }, 0), Ok(()));
    assert_eq!(chip.program_counter, 0x202);
    chip.keypad[0xA] = true;
    assert_eq!(chip.execute(Instruction::SkipKeyPressed { x: 2 }, 0), Ok(()));
    assert_eq!(chip.program_counter, 0x206);
}

#[test]
fn skip_if_key_not_pressed() {
    let mut chip = CHIP8::new();
    chip.vregister[2] = 0xA;
    assert_eq!(chip.execute(Instruction::SkipKeyNotPressed { x: 2 }, 0), Ok(()));
    assert_eq!(chip.program_counter, 0x204);
    chip.keypad[0xA] = true;
    assert_eq!(chip.execute(Instruction::SkipKeyNotPressed { x: 2 }, 0), Ok(()));
    assert_eq!(chip.program_counter, 0x206);
}

#[test]
fn key_test_on_a_value_that_is_no_key_is_refused() {
    let mut chip = CHIP8::new();
    chip.vregister[2] = 16;
    assert_eq!(
        chip.execute(Instruction::SkipKeyPressed { x: 2 }, 0),
        Err(Fault::KeyOutOfRange)
    );
    assert_eq!(
        chip.execute(Instruction::SkipKeyNotPressed { x: 2 }, 0),
        Err(Fault::KeyOutOfRange)
    );
    assert_eq!(chip.program_counter, 0x200);
}

#[test]
fn skips_on_immediates_and_registers() {
    let mut chip = CHIP8::new();
    chip.vregister[1] = 0x42;
    chip.vregister[2] = 0x42;
    chip.vregister[3] = 0x43;
    assert_eq!(chip.execute(Instruction::SkipEqImm { x: 1, kk: 0x42 }, 0), Ok(()));
    assert_eq!(chip.program_counter, 0x204);
    assert_eq!(chip.execute(Instruction::SkipEqImm { x: 1, kk: 0x41 }, 0), Ok(()));
    assert_eq!(chip.program_counter, 0x206);
    assert_eq!(chip.execute(Instruction::SkipNeImm { x: 1, kk: 0x41 }, 0), Ok(()));
    assert_eq!(chip.program_counter, 0x20A);
    assert_eq!(chip.execute(Instruction::SkipNeImm { x: 1, kk: 0x42 }, 0), Ok(()));
    assert_eq!(chip.program_counter, 0x20C);
    assert_eq!(chip.execute(Instruction::SkipEqReg { x: 1, y: 2 }, 0), Ok(()));
    assert_eq!(chip.program_counter, 0x210);
    assert_eq!(chip.execute(Instruction::SkipEqReg { x: 1, y: 3 }, 0), Ok(()));
    assert_eq!(chip.program_counter, 0x212);
    assert_eq!(chip.execute(Instruction::SkipNeReg { x: 1, y: 3 }, 0), Ok(()));
    assert_eq!(chip.program_counter, 0x216);
    assert_eq!(chip.execute(Instruction::SkipNeReg { x: 1, y: 2 }, 0), Ok(()));
    assert_eq!(chip.program_counter, 0x218);
}

#[test]
fn jumps_set_the_counter_without_advancing() {
    let mut chip = CHIP8::new();
    assert_eq!(chip.execute(Instruction::Jump { nnn: 0xABC }, 0), Ok(()));
    assert_eq!(chip.program_counter, 0xABC);
    chip.vregister[0] = 0xFF;
    assert_eq!(chip.execute(Instruction::JumpOffset { nnn: 0x300 }, 0), Ok(()));
    assert_eq!(chip.program_counter, 0x3FF);
}

#[test]
fn index_register_operations() {
    let mut chip = CHIP8::new();
    assert_eq!(chip.execute(Instruction::LoadIndex { nnn: 0x123 }, 0), Ok(()));
    assert_eq!(chip.index_register, 0x123);
    chip.vregister[4] = 0x10;
    assert_eq!(chip.execute(Instruction::AddIndex { x: 4 }, 0), Ok(()));
    assert_eq!(chip.index_register, 0x133);
    chip.vregister[4] = 0xB;
    assert_eq!(chip.execute(Instruction::FontAddress { x: 4 }, 0), Ok(()));
    assert_eq!(chip.index_register, 0x50 + 55);
    assert_eq!(chip.program_counter, 0x206);
}

#[test]
fn index_add_that_leaves_sixteen_bits_is_refused() {
    let mut chip = CHIP8::new();
    chip.index_register = 0xFFF0;
    chip.vregister[4] = 0x0F;
    assert_eq!(chip.execute(Instruction::AddIndex { x: 4 }, 0), Ok(()));
    assert_eq!(chip.index_register, 0xFFFF);
    chip.vregister[4] = 0x01;
    assert_eq!(
        chip.execute(Instruction::AddIndex { x: 4 }, 0),
        Err(Fault::AddressOutOfBounds)
    );
    assert_eq!(chip.index_register, 0xFFFF);
    assert_eq!(chip.program_counter, 0x202);
}

#[test]
fn timer_instructions() {
    let mut chip = machine_with(&[0xF1, 0x15, 0xF2, 0x07, 0xF1, 0x18]);
    chip.vregister[1] = 10;
    assert_eq!(chip.cycle(), Ok(0xF115));
    assert_eq!(chip.delay_timer, 9);
    assert_eq!(chip.cycle(), Ok(0xF207));
    assert_eq!(chip.vregister[2], 9);
    assert_eq!(chip.delay_timer, 8);
    assert_eq!(chip.cycle(), Ok(0xF118));
    assert_eq!(chip.sound_timer, 9);
    assert_eq!(chip.delay_timer, 7);
}

#[test]
fn timers_stop_at_zero() {
    let mut chip = CHIP8::new();
    chip.delay_timer = 1;
    chip.sound_timer = 0;
    chip.tick_timers();
    assert_eq!((chip.delay_timer, chip.sound_timer), (0, 0));
    chip.tick_timers();
    assert_eq!((chip.delay_timer, chip.sound_timer), (0, 0));
    chip.sound_timer = 255;
    chip.tick_timers();
    assert_eq!(chip.sound_timer, 254);
}

#[test]
fn store_and_load_register_blocks() {
    let mut chip = CHIP8::new();
    for r in 0..16 {
        chip.vregister[r] = 0x10 + r as u8;
    }
    chip.index_register = 0x300;
    chip.memory[0x304] = 0xEE;
    assert_eq!(chip.execute(Instruction::StoreRegisters { x: 3 }, 0), Ok(()));
    assert_eq!(&chip.memory[0x300..0x305], &[0x10, 0x11, 0x12, 0x13, 0xEE]);
    assert_eq!(chip.index_register, 0x300);
    chip.vregister = [0; 16];
    chip.vregister[3] = 0x99;
    assert_eq!(chip.execute(Instruction::LoadRegisters { x: 2 }, 0), Ok(()));
    assert_eq!(&chip.vregister[0..4], &[0x10, 0x11, 0x12, 0x99]);
    assert_eq!(chip.index_register, 0x300);
    assert_eq!(chip.program_counter, 0x204);
}

#[test]
fn register_blocks_include_the_last_register_and_memory_cell() {
    let mut chip = CHIP8::new();
    chip.vregister = [7; 16];
    chip.index_register = 4080;
    assert_eq!(chip.execute(Instruction::StoreRegisters { x: 0xF }, 0), Ok(()));
    assert_eq!(&chip.memory[4080..4096], &[7; 16]);
    assert_eq!(chip.memory[4079], 0);
    chip.index_register = 4081;
    assert_eq!(
        chip.execute(Instruction::StoreRegisters { x: 0xF }, 0),
        Err(Fault::AddressOutOfBounds)
    );
    assert_eq!(
        chip.execute(Instruction::LoadRegisters { x: 0xF }, 0),
        Err(Fault::AddressOutOfBounds)
    );
    assert_eq!(chip.execute(Instruction::LoadRegisters { x: 0xE }, 0), Ok(()));
}

#[test]
fn unknown_words_only_advance_the_counter() {
    let mut chip = machine_with(&[0x01, 0x23, 0x81, 0x2F, 0xE1, 0x00, 0xF1, 0xFF]);
    chip.vregister = [3; 16];
    for opcode in [0x0123u16, 0x812F, 0xE100, 0xF1FF] {
        let counter = chip.program_counter;
        assert_eq!(chip.cycle(), Ok(opcode));
        assert_eq!(chip.program_counter, counter + 2);
        assert_eq!(chip.vregister, [3; 16]);
        assert_eq!(chip.index_register, 0);
        assert_eq!(chip.stack_pointer, 0);
        assert!(lit_cells(&chip).is_empty());
    }
}

#[test]
fn random_load_is_masked_by_the_immediate() {
    for _ in 0..64 {
        let mut chip = machine_with(&[0xC1, 0x0F, 0xC2, 0x00]);
        chip.vregister[1] = 0xFF;
        chip.vregister[2] = 0xFF;
        assert_eq!(chip.cycle(), Ok(0xC10F));
        assert_eq!(chip.vregister[1] & 0xF0, 0);
        assert_eq!(chip.cycle(), Ok(0xC200));
        assert_eq!(chip.vregister[2], 0);
        assert_eq!(chip.program_counter, 0x204);
    }
}

#[test]
fn random_load_draws_different_bytes() {
    let mut seen = [false; 256];
    for _ in 0..4096 {
        let mut chip = machine_with(&[0xC1, 0xFF]);
        assert_eq!(chip.cycle(), Ok(0xC1FF));
        seen[chip.vregister[1] as usize] = true;
    }
    assert!(seen.iter().filter(|&&s| s).count() > 1);
}

#[test]
fn cycle_with_uses_the_given_byte_for_a_random_load() {
    let mut chip = machine_with(&[0xC1, 0x3C]);
    assert_eq!(chip.cycle_with(0xA5), Ok(0xC13C));
    assert_eq!(chip.vregister[1], 0xA5 & 0x3C);
}

#[test]
fn fetch_composes_the_word_most_significant_byte_first() {
    let mut chip = machine_with(&[0x12, 0x34]);
    assert_eq!(chip.fetch(), Ok(0x1234));
    chip.program_counter = 4094;
    chip.memory[4094] = 0xAB;
    chip.memory[4095] = 0xCD;
    assert_eq!(chip.fetch(), Ok(0xABCD));
}

#[test]
fn counter_beyond_memory_is_refused() {
    let mut chip = CHIP8::new();
    chip.program_counter = 4095;
    chip.delay_timer = 3;
    assert_eq!(chip.fetch(), Err(Fault::ProgramCounterOutOfBounds));
    assert_eq!(chip.cycle(), Err(Fault::ProgramCounterOutOfBounds));
    assert_eq!(
        chip.execute(Instruction::Jump { nnn: 0x200 }, 0),
        Err(Fault::ProgramCounterOutOfBounds)
    );
    assert_eq!(chip.program_counter, 4095);
    assert_eq!(chip.delay_timer, 3);
    chip.program_counter = 0xFFFF;
    assert_eq!(chip.cycle(), Err(Fault::ProgramCounterOutOfBounds));
}

#[test]
fn last_instruction_in_memory_runs() {
    let mut chip = CHIP8::new();
    chip.program_counter = 4094;
    chip.memory[4094] = 0x61;
    chip.memory[4095] = 0x2A;
    assert_eq!(chip.cycle(), Ok(0x612A));
    assert_eq!(chip.vregister[1], 0x2A);
    assert_eq!(chip.program_counter, 4096);
    assert_eq!(chip.cycle(), Err(Fault::ProgramCounterOutOfBounds));
}

#[test]
fn a_small_program_runs_to_its_loop() {
    // V0 = 3; loop: V0 += 0xFF (that is, -1); skip if V0 == 0; jump loop; jump self
    let mut chip = machine_with(&[
        0x60, 0x03, 0x70, 0xFF, 0x30, 0x00, 0x12, 0x02, 0x12, 0x08,
    ]);
    let mut cycles = 0;
    while chip.program_counter != 0x208 {
        assert!(chip.cycle().is_ok());
        cycles += 1;
        assert!(cycles < 100);
    }
    assert_eq!(chip.vregister[0], 0);
    assert_eq!(cycles, 1 + 3 * 2 + 2);
}

#[test]
fn debug_flag_is_kept_by_cycles() {
    let mut chip = machine_with(&[0x60, 0x03, 0x00, 0xE0]);
    chip.debug = true;
    assert_eq!(chip.cycle(), Ok(0x6003));
    assert_eq!(chip.cycle(), Ok(0x00E0));
    assert!(chip.debug);
}

#[test]
fn cycle_with_ignores_the_byte_for_other_instructions() {
    let program = [0x61, 0x07, 0x71, 0x05, 0x81, 0x14, 0xA3, 0x00, 0xF1, 0x33];
    let mut first = machine_with(&program);
    let mut second = machine_with(&program);
    for _ in 0..5 {
        assert_eq!(first.cycle_with(0x00), second.cycle_with(0xFF));
    }
    assert_eq!(first.memory, second.memory);
    assert_eq!(first.vregister, second.vregister);
    assert_eq!(first.index_register, second.index_register);
    assert_eq!(first.program_counter, second.program_counter);
    assert_eq!(&first.memory[0x300..0x303], &[0, 2, 4]);
}

#[test]
fn state_returns_to_running_after_any_other_instruction() {
    let mut chip = machine_with(&[0xF3, 0x0A, 0x60, 0x01]);
    assert_eq!(chip.cycle(), Ok(0xF30A));
    assert_eq!(chip.state, EngineState::AwaitingKey);
    chip.keypad[2] = true;
    assert_eq!(chip.cycle(), Ok(0xF30A));
    assert_eq!(chip.state, EngineState::Running);
    assert_eq!(chip.vregister[3], 2);
    chip.keypad[2] = false;
    assert_eq!(chip.cycle(), Ok(0x6001));
    assert_eq!(chip.state, EngineState::Running);
}

#[test]
fn a_refused_cycle_changes_nothing() {
    let mut chip = machine_with(&[0xD0, 0x12]);
    chip.memory[0x300] = 0xFF;
    chip.memory[0x301] = 0xFF;
    chip.index_register = 0x300;
    chip.vregister[0] = 60;
    chip.vregister[1] = 31;
    chip.delay_timer = 9;
    chip.sound_timer = 4;
    chip.display[2044] = 1;
    let (memory, registers, display) = (chip.memory, chip.vregister, chip.display);
    assert_eq!(chip.cycle(), Err(Fault::PixelOutOfBounds));
    assert_eq!(chip.memory, memory);
    assert_eq!(chip.vregister, registers);
    assert_eq!(chip.display, display);
    assert_eq!((chip.delay_timer, chip.sound_timer), (9, 4));
    assert_eq!(chip.program_counter, 0x200);
    assert_eq!(chip.state, EngineState::Running);
}
