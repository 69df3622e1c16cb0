use ws_esp32_s3_touch_lcd_2_8c::framebuffer::{
    Buffer, Flush, Framebuffer, BYTES, HEIGHT, PIXELS, PSRAM_BYTES_REQUIRED, WIDTH,
};

const SPARE: usize = 16;

fn memory() -> Vec<u8> {
    vec![0xEE; PSRAM_BYTES_REQUIRED + SPARE]
}

fn pixel(framebuffer: &Framebuffer<'_>, buffer: Buffer, x: usize, y: usize) -> u16 {
    let bytes = framebuffer.buffer(buffer);
    let at = 2 * (y * WIDTH + x);
    u16::from_le_bytes([bytes[at], bytes[at + 1]])
}

#[test]
fn sizes() {
    assert_eq!(PIXELS, WIDTH * HEIGHT);
    assert_eq!(BYTES, 460_800);
    assert_eq!(PSRAM_BYTES_REQUIRED, 2 * BYTES);
    assert_eq!(Buffer::A.offset(), 0);
    assert_eq!(Buffer::B.offset(), BYTES);
    assert_eq!(Buffer::A.other(), Buffer::B);
    assert_eq!(Buffer::B.other(), Buffer::A);
}

#[test]
fn split_blackens_both_buffers_only() {
    let mut memory = memory();
    {
        let (front, framebuffer, flush) = Framebuffer::split_from_psram(&mut memory).unwrap();
        assert_eq!(front, Buffer::A);
        assert_eq!(flush, Flush { start: 0, len: PSRAM_BYTES_REQUIRED });
        assert!(framebuffer.buffer(Buffer::A).iter().all(|&b| b == 0));
        assert!(framebuffer.buffer(Buffer::B).iter().all(|&b| b == 0));
        assert_eq!(framebuffer.buffer(Buffer::A).len(), BYTES);
    }
    assert!(memory[PSRAM_BYTES_REQUIRED..].iter().all(|&b| b == 0xEE));
}

#[test]
fn split_wants_room_for_two_buffers() {
    let mut exact = vec![1u8; PSRAM_BYTES_REQUIRED];
    assert!(Framebuffer::split_from_psram(&mut exact).is_some());
    let mut short = vec![1u8; PSRAM_BYTES_REQUIRED - 1];
    assert!(Framebuffer::split_from_psram(&mut short).is_none());
    assert!(short.iter().all(|&b| b == 1));
}

#[test]
fn fill_paints_the_back_buffer() {
    let mut memory = memory();
    let (_, mut framebuffer, _) = Framebuffer::split_from_psram(&mut memory).unwrap();
    // Two different bytes, then two equal ones.
    for colour in [0xF81Fu16, 0xABAB] {
        assert_eq!(framebuffer.fill(colour), Flush { start: BYTES, len: BYTES });
        for chunk in framebuffer.buffer(Buffer::B).chunks(2) {
            assert_eq!(chunk, colour.to_le_bytes());
        }
        assert!(framebuffer.buffer(Buffer::A).iter().all(|&b| b == 0));
    }
}

#[test]
fn write_row_lays_down_pixels() {
    let mut memory = memory();
    let (_, mut framebuffer, _) = Framebuffer::split_from_psram(&mut memory).unwrap();
    let flush = framebuffer.write_row(2, 10..13, &[0x1234, 0xF800, 0x07E0, 0x001F]);
    assert_eq!(flush, Some(Flush { start: BYTES + 2 * (2 * WIDTH + 10), len: 6 }));
    assert_eq!(pixel(&framebuffer, Buffer::B, 9, 2), 0);
    assert_eq!(pixel(&framebuffer, Buffer::B, 10, 2), 0x1234);
    assert_eq!(pixel(&framebuffer, Buffer::B, 11, 2), 0xF800);
    assert_eq!(pixel(&framebuffer, Buffer::B, 12, 2), 0x07E0);
    assert_eq!(pixel(&framebuffer, Buffer::B, 13, 2), 0);
    assert_eq!(pixel(&framebuffer, Buffer::B, 10, 1), 0);
    assert_eq!(pixel(&framebuffer, Buffer::A, 10, 2), 0);
    let at = 2 * (2 * WIDTH + 10);
    assert_eq!(framebuffer.buffer(Buffer::B)[at..at + 2], [0x34, 0x12]);
}

#[test]
fn write_row_stops_with_the_pixels() {
    let mut memory = memory();
    let (_, mut framebuffer, _) = Framebuffer::split_from_psram(&mut memory).unwrap();
    let flush = framebuffer.write_row(0, 0..WIDTH, &[7, 8]);
    assert_eq!(flush, Some(Flush { start: BYTES, len: 4 }));
    assert_eq!(pixel(&framebuffer, Buffer::B, 1, 0), 8);
    assert_eq!(pixel(&framebuffer, Buffer::B, 2, 0), 0);
    let flush = framebuffer.write_row(1, 5..9, &[]);
    assert_eq!(flush, Some(Flush { start: BYTES + 2 * (WIDTH + 5), len: 0 }));
}

#[test]
fn write_row_is_clipped() {
    let mut memory = memory();
    let (_, mut framebuffer, _) = Framebuffer::split_from_psram(&mut memory).unwrap();
    let flush = framebuffer.write_row(HEIGHT - 1, WIDTH - 2..WIDTH + 50, &[9; 60]);
    assert_eq!(flush, Some(Flush { start: 2 * BYTES - 4, len: 4 }));
    assert_eq!(pixel(&framebuffer, Buffer::B, WIDTH - 1, HEIGHT - 1), 9);
    assert_eq!(pixel(&framebuffer, Buffer::B, WIDTH - 3, HEIGHT - 1), 0);
    drop(framebuffer);
    assert!(memory[PSRAM_BYTES_REQUIRED..].iter().all(|&b| b == 0xEE));
}

#[test]
fn drawing_outside_is_dropped() {
    let mut memory = memory();
    let (_, mut framebuffer, _) = Framebuffer::split_from_psram(&mut memory).unwrap();
    assert_eq!(framebuffer.write_row(HEIGHT, 0..10, &[1; 10]), None);
    assert_eq!(framebuffer.write_row(usize::MAX, 0..10, &[1; 10]), None);
    assert_eq!(framebuffer.write_row(0, 10..10, &[1; 10]), None);
    assert_eq!(framebuffer.write_row(0, WIDTH..WIDTH + 10, &[1; 10]), None);
    assert_eq!(framebuffer.draw_row_solid(HEIGHT, 0..10, 1), None);
    assert_eq!(framebuffer.draw_row_solid(0, 480..usize::MAX, 1), None);
    assert_eq!(framebuffer.draw_column(WIDTH, 0..10, 1), None);
    assert_eq!(framebuffer.draw_column(0, HEIGHT..HEIGHT + 1, 1), None);
    assert!(framebuffer.buffer(Buffer::B).iter().all(|&b| b == 0));
}

#[test]
fn solid_row_is_a_uniform_row() {
    let mut one = memory();
    let mut two = memory();
    let (_, mut solid, _) = Framebuffer::split_from_psram(&mut one).unwrap();
    let (_, mut uniform, _) = Framebuffer::split_from_psram(&mut two).unwrap();
    let flush = solid.draw_row_solid(240, 100..700, 0xFFE0);
    assert_eq!(flush, Some(Flush { start: BYTES + 2 * (240 * WIDTH + 100), len: 760 }));
    assert_eq!(uniform.write_row(240, 100..700, &[0xFFE0; 600]), flush);
    assert!(solid.buffer(Buffer::B) == uniform.buffer(Buffer::B));
    assert_eq!(pixel(&solid, Buffer::B, 479, 240), 0xFFE0);
    assert_eq!(pixel(&solid, Buffer::B, 99, 240), 0);
    assert_eq!(pixel(&solid, Buffer::B, 0, 241), 0);
}

#[test]
fn column_is_painted_and_flushed_at_once() {
    let mut memory = memory();
    let (_, mut framebuffer, _) = Framebuffer::split_from_psram(&mut memory).unwrap();
    let flush = framebuffer.draw_column(7, 3..6, 0x8410).unwrap();
    assert_eq!(flush, Flush { start: BYTES + 2 * (3 * WIDTH + 7), len: 2 * (2 * WIDTH + 1) });
    for y in 0..HEIGHT {
        let expected = if (3..6).contains(&y) { 0x8410 } else { 0 };
        assert_eq!(pixel(&framebuffer, Buffer::B, 7, y), expected);
        assert_eq!(pixel(&framebuffer, Buffer::B, 8, y), 0);
    }
    let flush = framebuffer.draw_column(0, 0..1000, 1).unwrap();
    assert_eq!(flush, Flush { start: BYTES, len: 2 * ((HEIGHT - 1) * WIDTH + 1) });
}

#[test]
fn changes_are_flushed() {
    let mut memory = memory();
    let (_, mut framebuffer, _) = Framebuffer::split_from_psram(&mut memory).unwrap();
    let before = framebuffer.buffer(Buffer::B).to_vec();
    let flush = framebuffer.draw_column(479, 100..103, 0x0101).unwrap();
    for (i, (old, new)) in before.iter().zip(framebuffer.buffer(Buffer::B)).enumerate() {
        if old != new {
            assert!((flush.start..flush.start + flush.len).contains(&(BYTES + i)));
        }
    }
}

#[test]
fn filling_is_drawing_every_row() {
    let mut one = memory();
    let mut two = memory();
    let (_, mut filled, _) = Framebuffer::split_from_psram(&mut one).unwrap();
    let (_, mut drawn, _) = Framebuffer::split_from_psram(&mut two).unwrap();
    drawn.draw_column(17, 0..HEIGHT, 0x5555);
    filled.fill(0x1234);
    for y in 0..HEIGHT {
        let flush = drawn.draw_row_solid(y, 0..WIDTH, 0x1234).unwrap();
        assert_eq!(flush, Flush { start: BYTES + 2 * WIDTH * y, len: 2 * WIDTH });
    }
    assert!(filled.buffer(Buffer::B) == drawn.buffer(Buffer::B));
}
