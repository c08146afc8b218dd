use chip8::display::Display;
use chip8::display::DisplayIterator;
use chip8::error::Chip8Error;
use chip8::kbd::Keyboard;
use chip8::memory::Memory;
use chip8::Chip8;

#[test]
fn draw_twice_restores_and_collides() {
    let mut d = Display::new();
    let sprite = vec![0x3C, 0x42, 0x81];
    let first = d.draw_sprite(10, 4, sprite.clone());
    assert!(!first);
    // something was drawn
    assert!(d.pixel(4 * 64 + 12));
    let second = d.draw_sprite(10, 4, sprite);
    assert!(second);
    for idx in 0..2048 {
        assert!(!d.pixel(idx));
    }
}

#[test]
fn draw_wraps_around_the_right_edge() {
    let mut d = Display::new();
    let collision = d.draw_sprite(60, 0, vec![0xFF]);
    assert!(!collision);
    let lit: Vec<usize> = (0..64).filter(|&px| d.pixel(px)).collect();
    assert_eq!(lit, vec![0, 1, 2, 3, 60, 61, 62, 63]);
    // no other row was touched
    for idx in 64..2048 {
        assert!(!d.pixel(idx));
    }
}

#[test]
fn draw_wraps_around_the_bottom_edge() {
    let mut d = Display::new();
    d.draw_sprite(0, 30, vec![0x80, 0x80, 0x80]);
    assert!(d.pixel(30 * 64));
    assert!(d.pixel(31 * 64));
    assert!(d.pixel(0));
}

#[test]
fn collision_is_reported_per_overlap() {
    let mut d = Display::new();
    assert!(!d.draw_sprite(0, 0, vec![0xF0]));
    // disjoint columns of the same row: no collision
    assert!(!d.draw_sprite(4, 0, vec![0xF0]));
    // overlapping draw collides and erases the overlap
    assert!(d.draw_sprite(2, 0, vec![0xF0]));
    assert!(d.pixel(0));
    assert!(d.pixel(1));
    assert!(!d.pixel(2));
    assert!(!d.pixel(3));
}

#[test]
fn clear_resets_every_pixel() {
    let mut d = Display::new();
    d.draw_sprite(3, 7, vec![0xFF, 0xFF]);
    d.clear();
    for idx in 0..2048 {
        assert!(!d.pixel(idx));
    }
}

#[test]
fn display_iterator_walks_row_major() {
    let mut d = Display::new();
    d.draw_sprite(0, 0, vec![0x80]);
    let mut it = DisplayIterator::new();
    assert_eq!(it.next(&d), Some(true));
    let mut produced = 1;
    while let Some(pixel) = it.next(&d) {
        assert!(!pixel);
        produced += 1;
    }
    assert_eq!(produced, 2048);
    assert_eq!(it.next(&d), None);
}

#[test]
fn rejected_key_codes_leave_states_unchanged() {
    let mut k = Keyboard::new();
    k.key_press(3);
    k.key_press(16);
    k.key_press(17);
    for code in 0..16u8 {
        assert_eq!(k.key_pressed(code), code == 3);
    }
    k.key_release(16);
    k.key_release(17);
    for code in 0..16u8 {
        assert_eq!(k.key_pressed(code), code == 3);
    }
    assert!(!k.key_pressed(16));
    assert!(!k.key_pressed(17));
}

#[test]
fn key_press_and_release_track_state() {
    let mut k = Keyboard::new();
    assert!(!k.key_pressed(0xF));
    k.key_press(0xF);
    assert!(k.key_pressed(0xF));
    k.key_release(0xF);
    assert!(!k.key_pressed(0xF));
}

#[test]
fn memory_holds_font_glyphs_at_the_bottom() {
    let m = Memory::new();
    assert_eq!(m.read(0), Ok(0xF0));
    assert_eq!(m.read(4), Ok(0xF0));
    // glyph for 1
    assert_eq!(m.read(5), Ok(0x20));
    assert_eq!(m.read(79), Ok(0x80));
    assert_eq!(m.read(80), Ok(0x00));
}

#[test]
fn memory_access_is_bounds_checked() {
    let mut m = Memory::new();
    assert_eq!(m.read(4096), Err(Chip8Error::MemoryOutOfBounds));
    assert_eq!(m.write(4096, 1), Err(Chip8Error::MemoryOutOfBounds));
    assert_eq!(m.read_word(4095), Err(Chip8Error::MemoryOutOfBounds));
    assert_eq!(m.read_range(10, 4097), Err(Chip8Error::MemoryOutOfBounds));
    assert_eq!(m.read_range(20, 10), Err(Chip8Error::MemoryOutOfBounds));
    assert_eq!(m.write(0x400, 0xAB), Ok(()));
    assert_eq!(m.read(0x400), Ok(0xAB));
}

#[test]
fn read_word_is_big_endian() {
    let mut m = Memory::new();
    m.write(0x300, 0x12).unwrap();
    m.write(0x301, 0x34).unwrap();
    assert_eq!(m.read_word(0x300), Ok(0x1234));
}

#[test]
fn read_range_returns_the_half_open_window() {
    let m = Memory::new();
    let glyph = m.read_range(0, 5).unwrap();
    assert_eq!(glyph, vec![0xF0, 0x90, 0x90, 0x90, 0xF0]);
    let empty = m.read_range(7, 7).unwrap();
    assert!(empty.is_empty());
}

#[test]
fn load_copies_program_at_0x200() {
    let mut m = Chip8::new();
    m.load(&[0xAA, 0xBB, 0xCC]).unwrap();
    assert_eq!(m.memory.read(0x200), Ok(0xAA));
    assert_eq!(m.memory.read(0x202), Ok(0xCC));
    assert_eq!(m.memory.read(0x203), Ok(0x00));
    // the font below 0x200 is untouched
    assert_eq!(m.memory.read(0), Ok(0xF0));
}

#[test]
fn oversized_program_is_refused() {
    let mut m = Chip8::new();
    let big = vec![0u8; 0xE01];
    assert_eq!(m.load(&big), Err(Chip8Error::ProgramTooLarge));
    assert_eq!(m.memory.read(0x200), Ok(0x00));
    let exact = vec![0x55u8; 0xE00];
    assert_eq!(m.load(&exact), Ok(()));
    assert_eq!(m.memory.read(0xFFF), Ok(0x55));
}
