use ::chip8::{chip8, StepError};

fn boot(program: &[u8]) -> chip8 {
    let mut m = chip8::new();
    let rom: Vec<u8> = program.to_vec();
    m.load_rom(&rom);
    m
}

fn run(m: &mut chip8, cycles: usize) {
    for _ in 0..cycles {
        m.emulate_cycle().expect("cycle faulted");
    }
}

#[test]
fn new_machine_is_zeroed_with_font() {
    let m = chip8::new();
    assert_eq!(m.get_pc(), 0x200);
    assert_eq!(m.get_sp(), 0);
    assert_eq!(m.get_index(), 0);
    assert_eq!(m.get_delay_timer(), 0);
    assert_eq!(m.get_sound_timer(), 0);
    for i in 0..16 {
        assert_eq!(m.get_register(i), 0);
    }
    // font glyph for 0 starts at 0x50
    assert_eq!(m.get_memory_byte(0x50), 0xF0);
    assert_eq!(m.get_memory_byte(0x51), 0x90);
    assert_eq!(m.get_memory_byte(0x9F), 0x80);
    assert_eq!(m.get_memory_byte(0x4F), 0);
    assert_eq!(m.get_memory_byte(0xA0), 0);
    assert!(m.get_display().iter().all(|p| !*p));
}

#[test]
fn reset_restores_initial_state() {
    let mut m = boot(&[0x60, 0x2A, 0xA3, 0x00, 0x61, 0x07]);
    run(&mut m, 3);
    m.keypress(3, true);
    m.reset();
    let fresh = chip8::new();
    for i in 0..16 {
        assert_eq!(m.get_register(i), fresh.get_register(i));
    }
    assert_eq!(m.get_pc(), fresh.get_pc());
    assert_eq!(m.get_sp(), fresh.get_sp());
    assert_eq!(m.get_index(), fresh.get_index());
    assert_eq!(m.get_delay_timer(), fresh.get_delay_timer());
    assert_eq!(m.get_sound_timer(), fresh.get_sound_timer());
    for a in 0..4096 {
        assert_eq!(m.get_memory_byte(a), fresh.get_memory_byte(a));
    }
    assert_eq!(m.get_display(), fresh.get_display());
}

#[test]
fn load_rom_places_bytes_at_load_address() {
    let m = boot(&[0xDE, 0xAD, 0xBE, 0xEF]);
    assert_eq!(m.get_memory_byte(0x200), 0xDE);
    assert_eq!(m.get_memory_byte(0x201), 0xAD);
    assert_eq!(m.get_memory_byte(0x202), 0xBE);
    assert_eq!(m.get_memory_byte(0x203), 0xEF);
    assert_eq!(m.get_memory_byte(0x204), 0x00);
}

#[test]
fn largest_rom_fills_memory_to_the_end() {
    let rom: Vec<u8> = vec![0xAB; 4096 - 0x200];
    let mut m = chip8::new();
    m.load_rom(&rom);
    assert_eq!(m.get_memory_byte(0x200), 0xAB);
    assert_eq!(m.get_memory_byte(0xFFF), 0xAB);
    assert_eq!(m.get_memory_byte(0x1FF), 0);
}

#[test]
fn add_with_carry_sets_flag_and_wraps() {
    // 200 + 100 = 300: result 44, carry flag 1
    let mut m = boot(&[0x60, 0xC8, 0x61, 0x64, 0x80, 0x14]);
    run(&mut m, 3);
    assert_eq!(m.get_register(0), 44);
    assert_eq!(m.get_register(15), 1);
}

#[test]
fn add_without_carry_clears_flag() {
    // the flag register starts at 1 so the outcome shows independence
    // of its prior value: 10 + 20 = 30, flag 0
    let mut m = boot(&[0x6F, 0x01, 0x60, 0x0A, 0x61, 0x14, 0x80, 0x14]);
    run(&mut m, 4);
    assert_eq!(m.get_register(0), 30);
    assert_eq!(m.get_register(15), 0);
}

#[test]
fn immediate_add_wraps_without_flag() {
    let mut m = boot(&[0x60, 0xFF, 0x70, 0x02]);
    run(&mut m, 2);
    assert_eq!(m.get_register(0), 1);
    assert_eq!(m.get_register(15), 0);
}

#[test]
fn subtract_sets_not_borrow_flag() {
    // 10 - 3 = 7, flag 1 (no borrow)
    let mut m = boot(&[0x60, 0x0A, 0x61, 0x03, 0x80, 0x15]);
    run(&mut m, 3);
    assert_eq!(m.get_register(0), 7);
    assert_eq!(m.get_register(15), 1);
}

#[test]
fn subtract_with_borrow_wraps() {
    // 3 - 10 wraps to 249, flag 0 (borrow)
    let mut m = boot(&[0x60, 0x03, 0x61, 0x0A, 0x80, 0x15]);
    run(&mut m, 3);
    assert_eq!(m.get_register(0), 249);
    assert_eq!(m.get_register(15), 0);
}

#[test]
fn subtract_reversed_order() {
    // V0 = V1 - V0 = 10 - 3 = 7, flag 1
    let mut m = boot(&[0x60, 0x03, 0x61, 0x0A, 0x80, 0x17]);
    run(&mut m, 3);
    assert_eq!(m.get_register(0), 7);
    assert_eq!(m.get_register(15), 1);
}

#[test]
fn shift_right_keeps_low_bit_in_flag() {
    let mut m = boot(&[0x60, 0x05, 0x80, 0x06]);
    run(&mut m, 2);
    assert_eq!(m.get_register(0), 2);
    assert_eq!(m.get_register(15), 1);
}

#[test]
fn shift_left_keeps_high_bit_in_flag() {
    let mut m = boot(&[0x60, 0x81, 0x80, 0x0E]);
    run(&mut m, 2);
    assert_eq!(m.get_register(0), 2);
    assert_eq!(m.get_register(15), 1);
}

#[test]
fn bitwise_or_and_xor_and_move() {
    let mut m = boot(&[
        0x60, 0x0C, 0x61, 0x0A, 0x80, 0x11, // V0 |= V1 -> 0x0E
        0x62, 0x0C, 0x63, 0x0A, 0x82, 0x32, // V2 &= V3 -> 0x08
        0x64, 0x0C, 0x65, 0x0A, 0x84, 0x53, // V4 ^= V5 -> 0x06
        0x86, 0x50, // V6 = V5 -> 0x0A
    ]);
    run(&mut m, 10);
    assert_eq!(m.get_register(0), 0x0E);
    assert_eq!(m.get_register(2), 0x08);
    assert_eq!(m.get_register(4), 0x06);
    assert_eq!(m.get_register(6), 0x0A);
}

#[test]
fn jump_sets_counter() {
    let mut m = boot(&[0x12, 0x34]);
    run(&mut m, 1);
    assert_eq!(m.get_pc(), 0x234);
}

#[test]
fn indexed_jump_adds_first_register() {
    let mut m = boot(&[0x60, 0x04, 0xB2, 0x08]);
    run(&mut m, 2);
    assert_eq!(m.get_pc(), 0x20C);
}

#[test]
fn set_index_register() {
    let mut m = boot(&[0xA1, 0x23]);
    run(&mut m, 1);
    assert_eq!(m.get_index(), 0x123);
}

#[test]
fn add_register_to_index() {
    let mut m = boot(&[0x60, 0x05, 0xA1, 0x00, 0xF0, 0x1E]);
    run(&mut m, 3);
    assert_eq!(m.get_index(), 0x105);
}

#[test]
fn glyph_address_is_five_bytes_per_digit() {
    let mut m = boot(&[0x60, 0x02, 0xF0, 0x29]);
    run(&mut m, 2);
    assert_eq!(m.get_index(), 0x50 + 10);
}

#[test]
fn call_then_return_round_trip() {
    let mut m = boot(&[0x22, 0x08, 0, 0, 0, 0, 0, 0, 0x00, 0xEE]);
    run(&mut m, 1);
    assert_eq!(m.get_pc(), 0x208);
    assert_eq!(m.get_sp(), 1);
    run(&mut m, 1);
    assert_eq!(m.get_pc(), 0x202);
    assert_eq!(m.get_sp(), 0);
}

#[test]
fn skip_equal_immediate_advances_four_on_match() {
    let mut m = boot(&[0x60, 0x07, 0x30, 0x07]);
    run(&mut m, 2);
    assert_eq!(m.get_pc(), 0x206);
}

#[test]
fn skip_equal_immediate_advances_two_otherwise() {
    let mut m = boot(&[0x60, 0x07, 0x30, 0x08]);
    run(&mut m, 2);
    assert_eq!(m.get_pc(), 0x204);
}

#[test]
fn skip_not_equal_immediate() {
    let mut m = boot(&[0x60, 0x07, 0x40, 0x08]);
    run(&mut m, 2);
    assert_eq!(m.get_pc(), 0x206);
    let mut m2 = boot(&[0x60, 0x07, 0x40, 0x07]);
    run(&mut m2, 2);
    assert_eq!(m2.get_pc(), 0x204);
}

#[test]
fn skip_equal_registers() {
    let mut m = boot(&[0x60, 0x05, 0x61, 0x05, 0x50, 0x10]);
    run(&mut m, 3);
    assert_eq!(m.get_pc(), 0x208);
}

#[test]
fn skip_not_equal_registers() {
    let mut m = boot(&[0x60, 0x05, 0x61, 0x06, 0x90, 0x10]);
    run(&mut m, 3);
    assert_eq!(m.get_pc(), 0x208);
}

#[test]
fn skip_if_key_pressed() {
    let mut m = boot(&[0x64, 0x04, 0xE4, 0x9E]);
    m.keypress(4, true);
    run(&mut m, 2);
    assert_eq!(m.get_pc(), 0x206);
}

#[test]
fn skip_if_key_not_pressed() {
    let mut m = boot(&[0x64, 0x04, 0xE4, 0xA1]);
    run(&mut m, 2);
    assert_eq!(m.get_pc(), 0x206);
    let mut m2 = boot(&[0x64, 0x04, 0xE4, 0xA1]);
    m2.keypress(4, true);
    run(&mut m2, 2);
    assert_eq!(m2.get_pc(), 0x204);
}

#[test]
fn key_wait_repeats_until_key_pressed() {
    let mut m = boot(&[0xF5, 0x0A]);
    for _ in 0..5 {
        m.emulate_cycle().expect("wait cycle faulted");
        assert_eq!(m.get_pc(), 0x200);
    }
    m.keypress(7, true);
    m.emulate_cycle().expect("wait cycle faulted");
    assert_eq!(m.get_pc(), 0x202);
    assert_eq!(m.get_register(5), 7);
}

#[test]
fn key_wait_stores_lowest_pressed_index() {
    let mut m = boot(&[0xF5, 0x0A]);
    m.keypress(7, true);
    m.keypress(3, true);
    m.emulate_cycle().expect("wait cycle faulted");
    assert_eq!(m.get_register(5), 3);
}

#[test]
fn bcd_store_writes_three_digits() {
    let mut m = boot(&[0x60, 0xCD, 0xA3, 0x00, 0xF0, 0x33]);
    run(&mut m, 3);
    assert_eq!(m.get_memory_byte(0x300), 2);
    assert_eq!(m.get_memory_byte(0x301), 0);
    assert_eq!(m.get_memory_byte(0x302), 5);
    assert_eq!(m.get_index(), 0x300);
}

#[test]
fn register_block_store_and_load() {
    let mut m = boot(&[
        0x60, 0x11, 0x61, 0x22, 0x62, 0x33, // V0..V2
        0xA3, 0x00, 0xF2, 0x55, // store V0..V2 at 0x300
        0x60, 0x00, 0x61, 0x00, 0x62, 0x00, // clobber
        0xF2, 0x65, // load back
    ]);
    run(&mut m, 5);
    assert_eq!(m.get_memory_byte(0x300), 0x11);
    assert_eq!(m.get_memory_byte(0x301), 0x22);
    assert_eq!(m.get_memory_byte(0x302), 0x33);
    assert_eq!(m.get_memory_byte(0x303), 0x00);
    run(&mut m, 4);
    assert_eq!(m.get_register(0), 0x11);
    assert_eq!(m.get_register(1), 0x22);
    assert_eq!(m.get_register(2), 0x33);
    assert_eq!(m.get_index(), 0x300);
}

#[test]
fn timers_transfer_and_decay() {
    let mut m = boot(&[0x60, 0x2A, 0xF0, 0x15, 0x61, 0x02, 0xF1, 0x18, 0xF2, 0x07]);
    run(&mut m, 5);
    assert_eq!(m.get_delay_timer(), 42);
    assert_eq!(m.get_sound_timer(), 2);
    assert_eq!(m.get_register(2), 42);
    m.decay_timers();
    assert_eq!(m.get_delay_timer(), 41);
    assert_eq!(m.get_sound_timer(), 1);
    m.decay_timers();
    m.decay_timers();
    assert_eq!(m.get_delay_timer(), 39);
    assert_eq!(m.get_sound_timer(), 0);
    m.decay_timers();
    assert_eq!(m.get_sound_timer(), 0);
}

#[test]
fn random_byte_is_masked() {
    let mut m = boot(&[0xC0, 0x00, 0xC1, 0x0F]);
    run(&mut m, 2);
    assert_eq!(m.get_register(0), 0);
    assert!(m.get_register(1) < 16);
}

#[test]
fn unknown_opcode_is_reported_and_skipped() {
    let mut m = boot(&[0x00, 0x00, 0x60, 0x07]);
    let r = m.emulate_cycle();
    assert_eq!(
        r,
        Err(StepError::UnknownOpcode { higher_byte: 0x00, lower_byte: 0x00 })
    );
    assert_eq!(m.get_pc(), 0x202);
    // execution can simply continue past it
    run(&mut m, 1);
    assert_eq!(m.get_register(0), 7);
}

#[test]
fn unknown_alu_opcode_is_reported() {
    let mut m = boot(&[0x80, 0x18]);
    let r = m.emulate_cycle();
    assert_eq!(
        r,
        Err(StepError::UnknownOpcode { higher_byte: 0x80, lower_byte: 0x18 })
    );
}

#[test]
fn return_with_empty_stack_underflows() {
    let mut m = boot(&[0x00, 0xEE]);
    let r = m.emulate_cycle();
    assert_eq!(r, Err(StepError::StackUnderflow));
    assert_eq!(m.get_pc(), 0x202);
    assert_eq!(m.get_sp(), 0);
}

#[test]
fn seventeenth_nested_call_overflows() {
    // the instruction at 0x200 calls 0x200 again
    let mut m = boot(&[0x22, 0x00]);
    for _ in 0..16 {
        m.emulate_cycle().expect("call cycle faulted");
    }
    assert_eq!(m.get_sp(), 16);
    let r = m.emulate_cycle();
    assert_eq!(r, Err(StepError::StackOverflow));
    assert_eq!(m.get_sp(), 16);
}

#[test]
fn bcd_past_memory_end_is_reported() {
    let mut m = boot(&[0xAF, 0xFF, 0xF0, 0x33]);
    run(&mut m, 1);
    let r = m.emulate_cycle();
    assert_eq!(r, Err(StepError::MemoryOutOfBounds));
    assert_eq!(m.get_memory_byte(0xFFF), 0);
}

#[test]
fn fetch_past_memory_end_is_reported() {
    let mut m = boot(&[0x1F, 0xFF]);
    run(&mut m, 1);
    assert_eq!(m.get_pc(), 0xFFF);
    let r = m.emulate_cycle();
    assert_eq!(r, Err(StepError::MemoryOutOfBounds));
    assert_eq!(m.get_pc(), 0xFFF);
}

#[test]
fn key_sense_with_out_of_range_register_is_reported() {
    let mut m = boot(&[0x60, 0x10, 0xE0, 0x9E]);
    run(&mut m, 1);
    let r = m.emulate_cycle();
    assert_eq!(r, Err(StepError::KeyOutOfRange));
}
