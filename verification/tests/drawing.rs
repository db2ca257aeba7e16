use ::chip8::{chip8, StepError};

fn boot(program: &[u8]) -> chip8 {
    let mut m = chip8::new();
    let rom: Vec<u8> = program.to_vec();
    m.load_rom(&rom);
    m
}

fn run(m: &mut chip8, cycles: usize) {
    for _ in 0..cycles {
        m.emulate_cycle().expect("cycle faulted");
    }
}

fn lit(m: &chip8, row: usize, col: usize) -> bool {
    m.get_display()[row * 64 + col]
}

#[test]
fn draw_glyph_zero_lights_its_pixels() {
    // index at the font glyph for 0 (rows F0 90 90 90 F0), drawn at (0, 0)
    let mut m = boot(&[0xA0, 0x50, 0xD0, 0x05]);
    run(&mut m, 2);
    // top row: F0 = 11110000
    for col in 0..4 {
        assert!(lit(&m, 0, col));
    }
    for col in 4..8 {
        assert!(!lit(&m, 0, col));
    }
    // middle row: 90 = 10010000
    assert!(lit(&m, 1, 0));
    assert!(!lit(&m, 1, 1));
    assert!(!lit(&m, 1, 2));
    assert!(lit(&m, 1, 3));
    assert_eq!(m.get_register(15), 0);
}

#[test]
fn draw_wraps_past_right_edge() {
    // an all-set 8x1 sprite at x = 60 touches columns 60..63 and 0..3
    let mut m = boot(&[0x6A, 0x3C, 0xA2, 0x06, 0xDA, 0x01, 0xFF]);
    run(&mut m, 3);
    let touched = [60, 61, 62, 63, 0, 1, 2, 3];
    for col in 0..64 {
        assert_eq!(lit(&m, 0, col), touched.contains(&col));
    }
    for row in 1..32 {
        for col in 0..64 {
            assert!(!lit(&m, row, col));
        }
    }
    assert_eq!(m.get_register(15), 0);
}

#[test]
fn draw_wraps_past_bottom_edge() {
    // a 2-row sprite at y = 31 touches rows 31 and 0
    let mut m = boot(&[0x6B, 0x1F, 0xA2, 0x06, 0xD0, 0xB2, 0x80, 0x80]);
    run(&mut m, 3);
    assert!(lit(&m, 31, 0));
    assert!(lit(&m, 0, 0));
    assert!(!lit(&m, 1, 0));
    assert!(!lit(&m, 30, 0));
}

#[test]
fn draw_origin_wraps_modulo_grid() {
    // origin (64, 32) reduces to (0, 0)
    let mut m = boot(&[0x6A, 0x40, 0x6B, 0x20, 0xA2, 0x08, 0xDA, 0xB1, 0x80, 0x00]);
    run(&mut m, 4);
    assert!(lit(&m, 0, 0));
    assert_eq!(m.get_register(15), 0);
}

#[test]
fn drawing_twice_restores_and_reports_collision() {
    let mut m = boot(&[0xA0, 0x50, 0xD0, 0x05, 0xD0, 0x05]);
    run(&mut m, 2);
    assert!(lit(&m, 0, 0));
    assert_eq!(m.get_register(15), 0);
    run(&mut m, 1);
    assert!(m.get_display().iter().all(|p| !*p));
    assert_eq!(m.get_register(15), 1);
}

#[test]
fn clear_screen_then_draw_equals_single_draw() {
    // draw one glyph, clear, draw another: the screen equals a fresh
    // machine's screen after only the second draw
    let mut m = boot(&[0xA0, 0x50, 0xD0, 0x05, 0x00, 0xE0, 0xA0, 0x55, 0xD0, 0x05]);
    run(&mut m, 5);
    let mut single = boot(&[0xA0, 0x55, 0xD0, 0x05]);
    run(&mut single, 2);
    assert_eq!(m.get_display(), single.get_display());
    assert_eq!(m.get_register(15), single.get_register(15));
}

#[test]
fn clear_screen_turns_every_pixel_off() {
    let mut m = boot(&[0xA0, 0x50, 0xD0, 0x05, 0x00, 0xE0]);
    run(&mut m, 3);
    assert!(m.get_display().iter().all(|p| !*p));
}

#[test]
fn partial_overlap_collides_and_toggles() {
    // two single-row draws one pixel apart; the sprite row is C0
    let mut m = boot(&[
        0x6A, 0x00, 0xA2, 0x0C, 0xDA, 0xB1, // draw C0 at (0,0): cols 0,1
        0x6A, 0x01, 0xDA, 0xB1, // draw C0 at (1,0): cols 1,2
        0x00, 0x00, 0xC0, // sprite row: 11000000
    ]);
    run(&mut m, 5);
    assert!(lit(&m, 0, 0));
    assert!(!lit(&m, 0, 1)); // toggled twice
    assert!(lit(&m, 0, 2));
    assert_eq!(m.get_register(15), 1);
}

#[test]
fn fifteen_row_draw_spans_fifteen_rows() {
    // the tallest sprite: 15 rows read from the font table
    let mut m = boot(&[0xA0, 0x50, 0xD0, 0x0F]);
    run(&mut m, 2);
    // the fifteenth row read is 0xF0
    for col in 0..4 {
        assert!(lit(&m, 14, col));
    }
    for col in 0..64 {
        assert!(!lit(&m, 15, col));
    }
}

#[test]
fn draw_with_index_past_memory_end_is_reported() {
    let mut m = boot(&[0xAF, 0xFF, 0xD0, 0x02]);
    run(&mut m, 1);
    let r = m.emulate_cycle();
    assert_eq!(r, Err(StepError::MemoryOutOfBounds));
    assert!(m.get_display().iter().all(|p| !*p));
}

#[test]
fn zero_height_draw_only_clears_flag() {
    let mut m = boot(&[0x6F, 0x01, 0xA0, 0x50, 0xD0, 0x00]);
    run(&mut m, 3);
    assert!(m.get_display().iter().all(|p| !*p));
    assert_eq!(m.get_register(15), 0);
}
