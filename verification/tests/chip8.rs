use chip8::decode::Fault;
use chip8::interp::{Interpreter, Quirks};
use chip8::keypad::{get_key, KeyState};

fn quirks() -> Quirks {
    Quirks { vf_reset: true, amiga_behaviour: false, modern_shift: false, modern_str_ld: false }
}

fn machine() -> Interpreter {
    Interpreter::new(quirks())
}

/// Put one opcode at `addr`.
fn poke_op(it: &mut Interpreter, addr: usize, op: u16) {
    it.memory[addr] = (op >> 8) as u8;
    it.memory[addr + 1] = (op & 0xFF) as u8;
}

#[test]
fn add_with_carry_wraps_and_sets_vf() {
    let mut it = machine();
    it.registers[0] = 250;
    it.registers[1] = 10;
    poke_op(&mut it, 0x200, 0x8014);
    assert_eq!(it.exe_with(0), Ok(()));
    assert_eq!(it.registers[0], 4);
    assert_eq!(it.registers[0xF], 1);
}

#[test]
fn add_without_carry_clears_vf() {
    let mut it = machine();
    it.registers[0] = 10;
    it.registers[1] = 20;
    it.registers[0xF] = 7;
    poke_op(&mut it, 0x200, 0x8014);
    assert_eq!(it.exe_with(0), Ok(()));
    assert_eq!(it.registers[0], 30);
    assert_eq!(it.registers[0xF], 0);
}

#[test]
fn sub_with_borrow_wraps_and_clears_vf() {
    let mut it = machine();
    it.registers[0] = 5;
    it.registers[1] = 10;
    poke_op(&mut it, 0x200, 0x8015);
    assert_eq!(it.exe_with(0), Ok(()));
    assert_eq!(it.registers[0], 251);
    assert_eq!(it.registers[0xF], 0);
}

#[test]
fn sub_without_borrow_sets_vf() {
    let mut it = machine();
    it.registers[0] = 10;
    it.registers[1] = 5;
    poke_op(&mut it, 0x200, 0x8015);
    assert_eq!(it.exe_with(0), Ok(()));
    assert_eq!(it.registers[0], 5);
    assert_eq!(it.registers[0xF], 1);
}

#[test]
fn sub_reversed_uses_vy_minus_vx() {
    let mut it = machine();
    it.registers[2] = 3;
    it.registers[3] = 10;
    poke_op(&mut it, 0x200, 0x8237);
    assert_eq!(it.exe_with(0), Ok(()));
    assert_eq!(it.registers[2], 7);
    assert_eq!(it.registers[0xF], 1);
}

#[test]
fn call_then_return_restores_pc_and_stack() {
    let mut it = machine();
    poke_op(&mut it, 0x200, 0x2300);
    poke_op(&mut it, 0x300, 0x00EE);
    assert_eq!(it.exe_with(0), Ok(()));
    assert_eq!(it.program_counter, 0x300);
    assert_eq!(it.stack.len(), 1);
    assert_eq!(it.exe_with(0), Ok(()));
    assert_eq!(it.program_counter, 0x202);
    assert_eq!(it.stack.len(), 0);
}

#[test]
fn seventeenth_nested_call_overflows_stack() {
    let mut it = machine();
    poke_op(&mut it, 0x200, 0x2300);
    poke_op(&mut it, 0x300, 0x2300);
    for _ in 0..16 {
        assert_eq!(it.exe_with(0), Ok(()));
    }
    assert_eq!(it.stack.len(), 16);
    assert_eq!(it.exe_with(0), Err(Fault::StackOverflow));
}

#[test]
fn return_on_empty_stack_underflows() {
    let mut it = machine();
    poke_op(&mut it, 0x200, 0x00EE);
    assert_eq!(it.exe_with(0), Err(Fault::StackUnderflow));
}

#[test]
fn unknown_opcode_faults() {
    let mut it = machine();
    poke_op(&mut it, 0x200, 0x0123);
    assert_eq!(it.exe_with(0), Err(Fault::UnknownOpcode));
}

#[test]
fn pc_past_memory_end_faults() {
    let mut it = machine();
    it.program_counter = 0xFFF;
    assert_eq!(it.exe_with(0), Err(Fault::AddressOutOfRange));
}

#[test]
fn bcd_past_memory_end_faults() {
    let mut it = machine();
    it.index = 0xFFE;
    poke_op(&mut it, 0x200, 0xF033);
    assert_eq!(it.exe_with(0), Err(Fault::AddressOutOfRange));
}

#[test]
fn bcd_stores_decimal_digits() {
    let mut it = machine();
    it.registers[3] = 137;
    it.index = 0x400;
    poke_op(&mut it, 0x200, 0xF333);
    assert_eq!(it.exe_with(0), Ok(()));
    assert_eq!(it.memory[0x400], 1);
    assert_eq!(it.memory[0x401], 3);
    assert_eq!(it.memory[0x402], 7);
}

#[test]
fn draw_twice_clears_and_reports_collision() {
    let mut it = machine();
    it.memory[0] = 0b1010_0101;
    it.index = 0;
    it.registers[0] = 3;
    it.registers[1] = 5;
    poke_op(&mut it, 0x200, 0xD011);
    poke_op(&mut it, 0x202, 0xD011);
    poke_op(&mut it, 0x204, 0xD011);
    assert_eq!(it.exe_with(0), Ok(()));
    assert_eq!(it.registers[0xF], 0);
    assert!(it.screen[5 * 64 + 3]);
    assert!(!it.screen[5 * 64 + 4]);
    assert!(it.screen[5 * 64 + 5]);
    assert_eq!(it.exe_with(0), Ok(()));
    assert_eq!(it.registers[0xF], 1);
    assert!(it.screen.iter().all(|p| !p));
    assert_eq!(it.exe_with(0), Ok(()));
    assert_eq!(it.registers[0xF], 0);
    assert!(it.screen[5 * 64 + 3]);
}

#[test]
fn draw_clips_at_right_and_bottom_edges() {
    let mut it = machine();
    it.memory[0] = 0xFF;
    it.memory[1] = 0xFF;
    it.index = 0;
    it.registers[0] = 62;
    it.registers[1] = 31;
    poke_op(&mut it, 0x200, 0xD012);
    assert_eq!(it.exe_with(0), Ok(()));
    assert!(it.screen[31 * 64 + 62]);
    assert!(it.screen[31 * 64 + 63]);
    // Nothing wrapped to the left column or the top row.
    assert!(!it.screen[31 * 64]);
    assert!(!it.screen[0]);
    let lit = it.screen.iter().filter(|p| **p).count();
    assert_eq!(lit, 2);
}

#[test]
fn draw_origin_wraps_modulo_grid() {
    let mut it = machine();
    it.memory[0] = 0x80;
    it.index = 0;
    it.registers[0] = 64;
    it.registers[1] = 32;
    poke_op(&mut it, 0x200, 0xD011);
    assert_eq!(it.exe_with(0), Ok(()));
    assert!(it.screen[0]);
}

#[test]
fn keypad_debounce_window_is_four_ticks() {
    let mut it = machine();
    assert_eq!(it.update(&vec![(5, true)], 0), Ok(()));
    assert!(it.is_key_pressed(5));
    for tick in 1..=3 {
        assert_eq!(it.update(&vec![], 0), Ok(()));
        assert!(it.is_key_pressed(5), "tick {tick}");
    }
    assert_eq!(it.update(&vec![], 0), Ok(()));
    assert!(!it.is_key_pressed(5));
}

#[test]
fn key_release_debounce() {
    let mut it = machine();
    assert_eq!(it.update(&vec![(9, false)], 0), Ok(()));
    assert!(it.is_key_released(9));
    for _ in 0..3 {
        assert_eq!(it.update(&vec![], 0), Ok(()));
        assert!(it.is_key_released(9));
    }
    assert_eq!(it.update(&vec![], 0), Ok(()));
    assert!(!it.is_key_released(9));
}

#[test]
fn key_wait_blocks_until_fresh_press() {
    let mut it = machine();
    poke_op(&mut it, 0x200, 0xF10A);
    for _ in 0..5 {
        assert_eq!(it.update(&vec![], 10), Ok(()));
        assert_eq!(it.program_counter, 0x200);
    }
    assert_eq!(it.update(&vec![(7, true)], 1), Ok(()));
    assert_eq!(it.registers[1], 7);
    assert_eq!(it.program_counter, 0x202);
}

#[test]
fn key_wait_ignores_stale_press() {
    let mut it = machine();
    poke_op(&mut it, 0x200, 0xF10A);
    // The press arrives while no instruction runs; by the next tick it is a
    // tick old and no longer completes the wait.
    assert_eq!(it.update(&vec![(7, true)], 0), Ok(()));
    assert_eq!(it.update(&vec![], 10), Ok(()));
    assert_eq!(it.program_counter, 0x200);
    assert_eq!(it.registers[1], 0);
}

#[test]
fn end_to_end_loop_program() {
    let mut it = machine();
    it.load(&vec![0x00, 0xE0, 0x60, 0x05, 0x70, 0x05, 0x12, 0x00]);
    assert_eq!(it.update(&vec![], 4), Ok(()));
    assert_eq!(it.registers[0], 10);
    assert_eq!(it.program_counter, 0x200);
    for _ in 0..3 {
        assert_eq!(it.update(&vec![], 4), Ok(()));
        assert_eq!(it.registers[0], 10);
        assert_eq!(it.program_counter, 0x200);
    }
}

#[test]
fn logic_ops_clear_vf_under_quirk() {
    let mut it = machine();
    it.registers[0] = 0b1010;
    it.registers[1] = 0b0110;
    it.registers[0xF] = 9;
    poke_op(&mut it, 0x200, 0x8011);
    assert_eq!(it.exe_with(0), Ok(()));
    assert_eq!(it.registers[0], 0b1110);
    assert_eq!(it.registers[0xF], 0);
}

#[test]
fn logic_ops_keep_vf_without_quirk() {
    let mut it = Interpreter::new(Quirks { vf_reset: false, ..quirks() });
    it.registers[0] = 0b1010;
    it.registers[1] = 0b0110;
    it.registers[0xF] = 9;
    poke_op(&mut it, 0x200, 0x8013);
    assert_eq!(it.exe_with(0), Ok(()));
    assert_eq!(it.registers[0], 0b1100);
    assert_eq!(it.registers[0xF], 9);
}

#[test]
fn shift_right_reads_vy_without_quirk() {
    let mut it = machine();
    it.registers[0] = 0xFF;
    it.registers[1] = 5;
    poke_op(&mut it, 0x200, 0x8016);
    assert_eq!(it.exe_with(0), Ok(()));
    assert_eq!(it.registers[0], 2);
    assert_eq!(it.registers[0xF], 1);
}

#[test]
fn shift_right_reads_vx_under_quirk() {
    let mut it = Interpreter::new(Quirks { modern_shift: true, ..quirks() });
    it.registers[0] = 4;
    it.registers[1] = 5;
    poke_op(&mut it, 0x200, 0x8016);
    assert_eq!(it.exe_with(0), Ok(()));
    assert_eq!(it.registers[0], 2);
    assert_eq!(it.registers[0xF], 0);
}

#[test]
fn shift_left_sets_vf_to_high_bit() {
    let mut it = machine();
    it.registers[1] = 0b1000_0001;
    poke_op(&mut it, 0x200, 0x801E);
    assert_eq!(it.exe_with(0), Ok(()));
    assert_eq!(it.registers[0], 0b0000_0010);
    assert_eq!(it.registers[0xF], 1);
}

#[test]
fn add_index_sets_vf_only_under_amiga_quirk() {
    let mut it = Interpreter::new(Quirks { amiga_behaviour: true, ..quirks() });
    it.index = 0xFFE;
    it.registers[0] = 2;
    poke_op(&mut it, 0x200, 0xF01E);
    assert_eq!(it.exe_with(0), Ok(()));
    assert_eq!(it.index, 0x1000);
    assert_eq!(it.registers[0xF], 1);

    let mut it2 = machine();
    it2.index = 0xFFE;
    it2.registers[0] = 2;
    it2.registers[0xF] = 3;
    poke_op(&mut it2, 0x200, 0xF01E);
    assert_eq!(it2.exe_with(0), Ok(()));
    assert_eq!(it2.index, 0x1000);
    assert_eq!(it2.registers[0xF], 3);
}

#[test]
fn store_regs_moves_index_without_quirk() {
    let mut it = machine();
    it.registers[0] = 0xAA;
    it.registers[1] = 0xBB;
    it.registers[2] = 0xCC;
    it.index = 0x400;
    poke_op(&mut it, 0x200, 0xF255);
    assert_eq!(it.exe_with(0), Ok(()));
    assert_eq!(it.memory[0x400], 0xAA);
    assert_eq!(it.memory[0x401], 0xBB);
    assert_eq!(it.memory[0x402], 0xCC);
    assert_eq!(it.index, 0x403);
}

#[test]
fn load_regs_keeps_index_under_quirk() {
    let mut it = Interpreter::new(Quirks { modern_str_ld: true, ..quirks() });
    it.memory[0x400] = 0x11;
    it.memory[0x401] = 0x22;
    it.index = 0x400;
    poke_op(&mut it, 0x200, 0xF165);
    assert_eq!(it.exe_with(0), Ok(()));
    assert_eq!(it.registers[0], 0x11);
    assert_eq!(it.registers[1], 0x22);
    assert_eq!(it.registers[2], 0);
    assert_eq!(it.index, 0x400);
}

#[test]
fn store_regs_past_memory_end_faults() {
    let mut it = machine();
    it.index = 0xFFF;
    poke_op(&mut it, 0x200, 0xF155);
    assert_eq!(it.exe_with(0), Err(Fault::AddressOutOfRange));
}

#[test]
fn sprite_char_points_into_font() {
    let mut it = machine();
    it.load(&vec![]);
    it.registers[4] = 0xA;
    poke_op(&mut it, 0x200, 0xF429);
    assert_eq!(it.exe_with(0), Ok(()));
    assert_eq!(it.index, 50);
    assert_eq!(it.memory[it.index as usize], 0xF0);
}

#[test]
fn load_places_font_and_program() {
    let mut it = machine();
    it.load(&vec![0xAB, 0xCD]);
    assert_eq!(it.memory[0], 0xF0);
    assert_eq!(it.memory[4], 0xF0);
    assert_eq!(it.memory[79], 0x80);
    assert_eq!(it.memory[80], 0);
    assert_eq!(it.memory[0x200], 0xAB);
    assert_eq!(it.memory[0x201], 0xCD);
    assert_eq!(it.memory[0x202], 0);
}

#[test]
fn random_result_is_masked() {
    let mut it = machine();
    poke_op(&mut it, 0x200, 0xC0F0);
    assert_eq!(it.exe(), Ok(()));
    assert_eq!(it.registers[0] & 0x0F, 0);
}

#[test]
fn random_with_seeded_byte() {
    let mut it = machine();
    poke_op(&mut it, 0x200, 0xC3FF);
    assert_eq!(it.exe_with(0xA5), Ok(()));
    assert_eq!(it.registers[3], 0xA5);
}

#[test]
fn timers_decay_once_per_tick_and_saturate() {
    let mut it = machine();
    it.registers[0] = 2;
    poke_op(&mut it, 0x200, 0xF015);
    poke_op(&mut it, 0x202, 0xF018);
    assert_eq!(it.update(&vec![], 2), Ok(()));
    assert_eq!(it.delay_timer, 1);
    assert_eq!(it.sound_timer, 1);
    assert_eq!(it.update(&vec![], 0), Ok(()));
    assert_eq!(it.delay_timer, 0);
    assert_eq!(it.update(&vec![], 0), Ok(()));
    assert_eq!(it.delay_timer, 0);
    assert_eq!(it.sound_timer, 0);
}

#[test]
fn read_delay_into_register() {
    let mut it = machine();
    it.delay_timer = 42;
    poke_op(&mut it, 0x200, 0xF607);
    assert_eq!(it.exe_with(0), Ok(()));
    assert_eq!(it.registers[6], 42);
}

#[test]
fn skip_instructions_take_both_branches() {
    let mut it = machine();
    it.registers[0] = 5;
    poke_op(&mut it, 0x200, 0x3005);
    assert_eq!(it.exe_with(0), Ok(()));
    assert_eq!(it.program_counter, 0x204);
    poke_op(&mut it, 0x204, 0x3006);
    assert_eq!(it.exe_with(0), Ok(()));
    assert_eq!(it.program_counter, 0x206);
    poke_op(&mut it, 0x206, 0x4006);
    assert_eq!(it.exe_with(0), Ok(()));
    assert_eq!(it.program_counter, 0x20A);
    it.registers[1] = 5;
    poke_op(&mut it, 0x20A, 0x5010);
    assert_eq!(it.exe_with(0), Ok(()));
    assert_eq!(it.program_counter, 0x20E);
    poke_op(&mut it, 0x20E, 0x9010);
    assert_eq!(it.exe_with(0), Ok(()));
    assert_eq!(it.program_counter, 0x210);
}

#[test]
fn jump_with_v0_offset() {
    let mut it = machine();
    it.registers[0] = 0x10;
    poke_op(&mut it, 0x200, 0xB300);
    assert_eq!(it.exe_with(0), Ok(()));
    assert_eq!(it.program_counter, 0x310);
}

#[test]
fn skip_if_key_pressed_and_not_pressed() {
    let mut it = machine();
    it.registers[0] = 5;
    assert_eq!(it.update(&vec![(5, true)], 0), Ok(()));
    poke_op(&mut it, 0x200, 0xE09E);
    assert_eq!(it.exe_with(0), Ok(()));
    assert_eq!(it.program_counter, 0x204);
    poke_op(&mut it, 0x204, 0xE0A1);
    assert_eq!(it.exe_with(0), Ok(()));
    assert_eq!(it.program_counter, 0x206);
}

#[test]
fn clear_screen_blanks_every_cell() {
    let mut it = machine();
    it.screen[100] = true;
    it.screen[2047] = true;
    poke_op(&mut it, 0x200, 0x00E0);
    assert_eq!(it.exe_with(0), Ok(()));
    assert!(it.screen.iter().all(|p| !p));
}

#[test]
fn rasterized_frame_maps_cells_to_rgba() {
    let mut it = machine();
    it.screen[0] = true;
    let mut frame = vec![0u8; 8192];
    it.draw(&mut frame);
    assert_eq!(&frame[0..4], &[0x00, 0x00, 0x00, 0xFF]);
    assert_eq!(&frame[4..8], &[0xFF, 0xFF, 0xFF, 0xFF]);
}

#[test]
fn get_key_maps_the_hex_layout() {
    assert_eq!(get_key("1"), Some(0x1));
    assert_eq!(get_key("4"), Some(0xC));
    assert_eq!(get_key("q"), Some(0x4));
    assert_eq!(get_key("r"), Some(0xD));
    assert_eq!(get_key("a"), Some(0x7));
    assert_eq!(get_key("f"), Some(0xE));
    assert_eq!(get_key("z"), Some(0xA));
    assert_eq!(get_key("x"), Some(0x0));
    assert_eq!(get_key("c"), Some(0xB));
    assert_eq!(get_key("v"), Some(0xF));
    assert_eq!(get_key("p"), None);
    assert_eq!(get_key(""), None);
    assert_eq!(get_key("ab"), None);
}

#[test]
fn key_state_counters_age_and_clamp() {
    let mut k = KeyState::new();
    assert!(!k.is_pressed());
    k.press();
    assert!(k.is_pressed());
    for _ in 0..3 {
        k.update_pressed();
    }
    assert!(k.is_pressed());
    k.update_pressed();
    assert!(!k.is_pressed());
    for _ in 0..100 {
        k.update_pressed();
    }
    assert_eq!(k.pressed_frames_ago, 60);
}

#[test]
fn load_and_add_immediates_wrap() {
    let mut it = machine();
    poke_op(&mut it, 0x200, 0x60FE);
    poke_op(&mut it, 0x202, 0x7005);
    assert_eq!(it.exe_with(0), Ok(()));
    assert_eq!(it.registers[0], 0xFE);
    assert_eq!(it.exe_with(0), Ok(()));
    assert_eq!(it.registers[0], 0x03);
}
