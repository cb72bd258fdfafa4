use chip8::{DebugDisplay, Display, DisplayBuffer, DEFAULT_FONT};

fn lit(buffer: &DisplayBuffer) -> Vec<(usize, usize)> {
    let mut on = Vec::new();
    for y in 0..32 {
        for x in 0..64 {
            if buffer.pixel(x, y) == Some(true) {
                on.push((x, y));
            }
        }
    }
    on
}

#[test]
fn a_new_screen_is_dark_and_64_by_32() {
    let buffer = DisplayBuffer::new();
    assert_eq!(buffer.get_width(), 64);
    assert_eq!(buffer.get_height(), 32);
    assert_eq!(buffer.width(), 64);
    assert_eq!(buffer.height(), 32);
    assert_eq!(buffer.pixels().len(), 64 * 32);
    assert!(buffer.pixels().iter().all(|p| !*p));
}

#[test]
fn pixels_off_screen_are_none() {
    let buffer = DisplayBuffer::new();
    assert_eq!(buffer.pixel(0, 0), Some(false));
    assert_eq!(buffer.pixel(63, 31), Some(false));
    assert_eq!(buffer.pixel(64, 0), None);
    assert_eq!(buffer.pixel(0, 32), None);
}

#[test]
fn a_sprite_row_is_drawn_most_significant_bit_left() {
    let mut buffer = DisplayBuffer::new();
    let collision = buffer.modify(&[0b1010_0001], 1, 3, 2);
    assert!(!collision);
    assert_eq!(lit(&buffer), vec![(3, 2), (5, 2), (10, 2)]);
    assert_eq!(buffer.pixels().len(), 2048);
    assert!(buffer.pixels()[3 + 64 * 2]);
}

#[test]
fn drawing_twice_clears_and_collides() {
    let mut buffer = DisplayBuffer::new();
    let glyph = &DEFAULT_FONT[0..5];
    assert!(!buffer.modify(glyph, 5, 0, 0));
    assert_eq!(lit(&buffer).len(), 14);
    assert!(buffer.modify(glyph, 5, 0, 0));
    assert!(lit(&buffer).is_empty());
}

#[test]
fn a_collision_needs_a_lit_pixel_under_a_set_bit() {
    let mut buffer = DisplayBuffer::new();
    assert!(!buffer.modify(&[0xF0], 1, 0, 0));
    // the set bits lie beside the lit pixels
    assert!(!buffer.modify(&[0x0F], 1, 0, 0));
    assert_eq!(lit(&buffer).len(), 8);
    // one bit over a lit pixel
    assert!(buffer.modify(&[0x01], 1, 0, 0));
    assert_eq!(lit(&buffer).len(), 7);
    assert_eq!(buffer.pixel(7, 0), Some(false));
}

#[test]
fn the_start_position_wraps() {
    let mut wrapped = DisplayBuffer::new();
    let mut plain = DisplayBuffer::new();
    wrapped.modify(&[0xFF, 0x81], 2, 68, 35);
    plain.modify(&[0xFF, 0x81], 2, 4, 3);
    assert_eq!(wrapped.pixels(), plain.pixels());
    assert_eq!(lit(&plain).len(), 10);
}

#[test]
fn a_sprite_is_cut_off_at_the_right_and_bottom_edge() {
    let mut buffer = DisplayBuffer::new();
    let collision = buffer.modify(&[0xFF, 0xFF, 0xFF, 0xFF, 0xFF], 5, 62, 30);
    assert!(!collision);
    assert_eq!(lit(&buffer), vec![(62, 30), (63, 30), (62, 31), (63, 31)]);
}

#[test]
fn what_is_cut_off_cannot_collide() {
    let mut buffer = DisplayBuffer::new();
    // light the left edge of the two bottom rows and the top row
    buffer.modify(&[0x80, 0x80], 2, 0, 30);
    buffer.modify(&[0xFF], 1, 0, 0);
    // the sprite's columns 2..8 would wrap onto x = 0..6, its rows 2..5
    // onto y = 0..3; neither does
    let collision = buffer.modify(&[0xFF, 0xFF, 0xFF, 0xFF, 0xFF], 5, 62, 30);
    assert!(!collision);
    assert_eq!(buffer.pixel(0, 30), Some(true));
    assert_eq!(buffer.pixel(0, 0), Some(true));
    // within what is drawn a collision counts
    let collision = buffer.modify(&[0x40], 1, 62, 31);
    assert!(collision);
    assert_eq!(buffer.pixel(63, 31), Some(false));
}

#[test]
fn only_the_first_n_rows_are_drawn() {
    let mut buffer = DisplayBuffer::new();
    buffer.modify(&[0x80, 0x80, 0x80], 2, 0, 0);
    assert_eq!(lit(&buffer), vec![(0, 0), (0, 1)]);
    buffer.modify(&[0x80, 0x80, 0x80], 0, 10, 10);
    assert_eq!(lit(&buffer), vec![(0, 0), (0, 1)]);
}

#[test]
fn clear_turns_every_pixel_off() {
    let mut buffer = DisplayBuffer::new();
    buffer.modify(&DEFAULT_FONT[5..10], 5, 20, 20);
    assert!(!lit(&buffer).is_empty());
    buffer.clear();
    assert!(lit(&buffer).is_empty());
    assert_eq!(buffer.pixels().len(), 2048);
}

#[test]
fn the_debug_display_answers_with_its_flag() {
    let mut display = DebugDisplay { ret: true, width: 10, height: 20 };
    assert!(display.modify(&[0xFF], 1, 0, 0));
    assert_eq!(display.width(), 10);
    assert_eq!(display.height(), 20);
    display.clear();
    display.ret = false;
    assert!(!display.modify(&[0xFF], 1, 0, 0));
}

#[test]
fn the_default_font_has_sixteen_glyphs_in_the_high_nibble() {
    assert_eq!(DEFAULT_FONT.len(), 80);
    assert!(DEFAULT_FONT.iter().all(|row| row & 0x0F == 0));
    assert_eq!(&DEFAULT_FONT[0..5], &[0xF0, 0x90, 0x90, 0x90, 0xF0]);
    assert_eq!(&DEFAULT_FONT[75..80], &[0xF0, 0x80, 0xF0, 0x80, 0x80]);
}
