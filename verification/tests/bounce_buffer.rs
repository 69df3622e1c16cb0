use ws_esp32_s3_touch_lcd_2_8c::bounce_buffer::{
    is_flip_pending, psram_copy_wrapping, request_flip, BounceRing, EofReport, Half, Owner,
    Preparation, CHUNK, DESC_PER_HALF, HALF_BYTES, HALVES_PER_FRAME, N_DESC, STARTUP_OFFSET_BYTES,
};
use ws_esp32_s3_touch_lcd_2_8c::framebuffer::{
    Buffer, FlipPhase, Framebuffer, BYTES, HEIGHT, PSRAM_BYTES_REQUIRED, WIDTH,
};

const BASE: usize = 0x3FC8_0000;
const SIZE: usize = 12;

fn report(desc: usize) -> EofReport {
    EofReport {
        out_eof: true,
        eof_des_addr: BASE + desc * SIZE,
        descs_base: BASE,
        desc_size: SIZE,
    }
}

/// The interrupt that follows half `half`.
fn eof(half: usize) -> EofReport {
    report(half * DESC_PER_HALF + DESC_PER_HALF - 1)
}

/// Chunk `index` of an image as the panel gets it.
fn chunk(image: &[u8], index: usize) -> Vec<u8> {
    (0..HALF_BYTES)
        .map(|i| image[(index * HALF_BYTES + i + BYTES - STARTUP_OFFSET_BYTES) % BYTES])
        .collect()
}

fn half_of(index: usize) -> Half {
    if index % 2 == 0 {
        Half::A
    } else {
        Half::B
    }
}

/// Draw something that differs in every row and column.
fn pattern(framebuffer: &mut Framebuffer<'_>, seed: u16) {
    for y in 0..HEIGHT {
        let row: Vec<u16> = (0..WIDTH)
            .map(|x| (y as u16).wrapping_mul(481).wrapping_add(x as u16).wrapping_add(seed))
            .collect();
        framebuffer.write_row(y, 0..WIDTH, &row);
    }
}

/// Read one frame off the ring, handling every interrupt.
fn frame(ring: &mut BounceRing<'_>, framebuffer: &Framebuffer<'_>) -> Vec<u8> {
    let mut bytes = Vec::new();
    for half in 0..HALVES_PER_FRAME {
        bytes.extend_from_slice(ring.bounce(half_of(half)));
        assert!(ring.eof_isr(framebuffer, eof(half)));
    }
    bytes
}

fn on_panel(image: &[u8]) -> Vec<u8> {
    (0..BYTES).map(|i| image[(i + BYTES - STARTUP_OFFSET_BYTES) % BYTES]).collect()
}

#[test]
fn ring_dimensions() {
    assert_eq!(BounceRing::dimensions(), (15_360, 4, 30));
    assert_eq!(N_DESC, 120);
    assert_eq!(STARTUP_OFFSET_BYTES, 6 * WIDTH * 2);
    assert_eq!(BYTES % HALF_BYTES, 0);
    assert_eq!(HALVES_PER_FRAME % 2, 0);
}

#[test]
fn descriptor_ring() {
    let mut psram = vec![0; PSRAM_BYTES_REQUIRED];
    let (front, framebuffer, _) = Framebuffer::split_from_psram(&mut psram).unwrap();
    let (mut a, mut b) = (vec![1; HALF_BYTES], vec![1; HALF_BYTES]);
    let ring = BounceRing::new(&framebuffer, front, &mut a, &mut b);
    let descriptors = ring.descriptors();
    assert_eq!(descriptors.len(), N_DESC);
    let mut at = 0;
    for half in 0..HALVES_PER_FRAME {
        let mut covered = 0;
        for i in 0..DESC_PER_HALF {
            let d = descriptors[at];
            assert_eq!(d.half, half_of(half));
            assert_eq!(d.start, covered);
            assert_eq!(d.size, d.length);
            assert_eq!(d.length, if i < 3 { CHUNK } else { 3264 });
            assert_eq!(d.owner, Owner::Dma);
            assert_eq!(d.suc_eof, i == 3);
            covered += d.length;
            at = d.next;
        }
        assert_eq!(covered, HALF_BYTES);
    }
    assert_eq!(at, 0);
    assert_eq!(
        ring.prepare(),
        Preparation {
            start: 0,
            accesses_psram: false,
            outgoing: true,
            check_owner: Some(false),
            auto_write_back: false,
        }
    );
}

#[test]
fn copy_wraps_around() {
    let image: Vec<u8> = (0..BYTES).map(|i| (i / 251) as u8 ^ i as u8).collect();
    for index in [0, 1, 2, 15, 29, 30, 31] {
        let mut dest = vec![0xCC; HALF_BYTES + 3];
        psram_copy_wrapping(&image, index, &mut dest);
        assert!(dest[..HALF_BYTES] == chunk(&image, index)[..]);
        assert_eq!(dest[HALF_BYTES..], [0xCC; 3]);
    }
    // Chunk 0 begins with the last six rows of the image.
    let mut dest = vec![0; HALF_BYTES];
    psram_copy_wrapping(&image, 0, &mut dest);
    assert!(dest[..5760] == image[BYTES - 5760..]);
    assert!(dest[5760..] == image[..HALF_BYTES - 5760]);
}

#[test]
fn ring_is_primed_with_the_first_two_chunks() {
    let mut psram = vec![0; PSRAM_BYTES_REQUIRED];
    let (_, mut framebuffer, _) = Framebuffer::split_from_psram(&mut psram).unwrap();
    pattern(&mut framebuffer, 3);
    let (mut a, mut b) = (vec![1; HALF_BYTES], vec![1; HALF_BYTES]);
    let ring = BounceRing::new(&framebuffer, Buffer::B, &mut a, &mut b);
    let image = framebuffer.buffer(Buffer::B);
    assert!(ring.bounce(Half::A) == &chunk(image, 0)[..]);
    assert!(ring.bounce(Half::B) == &chunk(image, 1)[..]);
    assert_eq!(ring.isr_fires(), 0);
    assert!(!is_flip_pending(&ring));
}

#[test]
fn first_frame_is_black() {
    let mut psram = vec![0xAA; PSRAM_BYTES_REQUIRED];
    let (front, mut framebuffer, _) = Framebuffer::split_from_psram(&mut psram).unwrap();
    let (mut a, mut b) = (vec![1; HALF_BYTES], vec![1; HALF_BYTES]);
    let mut ring = BounceRing::new(&framebuffer, front, &mut a, &mut b);
    pattern(&mut framebuffer, 0);
    assert!(frame(&mut ring, &framebuffer).iter().all(|&b| b == 0));
    assert_eq!(ring.isr_fires(), HALVES_PER_FRAME as u32);
}

#[test]
fn flip_shows_the_drawing_whole() {
    let mut psram = vec![0; PSRAM_BYTES_REQUIRED];
    let (front, mut framebuffer, _) = Framebuffer::split_from_psram(&mut psram).unwrap();
    let (mut a, mut b) = (vec![1; HALF_BYTES], vec![1; HALF_BYTES]);
    let mut ring = BounceRing::new(&framebuffer, front, &mut a, &mut b);
    pattern(&mut framebuffer, 77);
    let drawn = framebuffer.buffer(Buffer::B).to_vec();

    let phase = framebuffer.flip(&mut ring, FlipPhase::Start);
    assert_eq!(phase, FlipPhase::Apply);
    assert!(is_flip_pending(&ring));
    assert_eq!(framebuffer.flip(&mut ring, phase), FlipPhase::Apply);

    // The frame under way stays old to its end; the next one is all new.
    assert!(frame(&mut ring, &framebuffer).iter().all(|&b| b == 0));
    assert!(!is_flip_pending(&ring));
    assert_eq!(framebuffer.flip(&mut ring, phase), FlipPhase::Done);
    assert_eq!(framebuffer.flip(&mut ring, FlipPhase::Done), FlipPhase::Done);
    // Drawing now goes to the other buffer.
    framebuffer.fill(0xFFFF);
    assert!(framebuffer.buffer(Buffer::A).iter().all(|&b| b == 0xFF));
    let shown = frame(&mut ring, &framebuffer);
    assert!(shown == on_panel(&drawn));
    // Row 0 of the drawing is row 6 of the panel.
    assert!(shown[6 * WIDTH * 2..7 * WIDTH * 2] == drawn[..WIDTH * 2]);
}

#[test]
fn swap_waits_for_the_start_of_a_frame() {
    let mut psram = vec![0; PSRAM_BYTES_REQUIRED];
    let (front, mut framebuffer, _) = Framebuffer::split_from_psram(&mut psram).unwrap();
    let (mut a, mut b) = (vec![1; HALF_BYTES], vec![1; HALF_BYTES]);
    let mut ring = BounceRing::new(&framebuffer, front, &mut a, &mut b);
    framebuffer.fill(0x5A5A);
    for half in 0..10 {
        ring.eof_isr(&framebuffer, eof(half));
    }
    request_flip(&mut ring, Buffer::B);
    for half in 10..HALVES_PER_FRAME {
        ring.eof_isr(&framebuffer, eof(half));
        assert_eq!(is_flip_pending(&ring), half < 28);
        let expected = if half < 28 { 0 } else { 0x5A };
        assert!(ring.bounce(half_of(half)).iter().all(|&b| b == expected));
    }
}

#[test]
fn later_request_replaces_earlier_one() {
    let mut psram = vec![0; PSRAM_BYTES_REQUIRED];
    let (front, mut framebuffer, _) = Framebuffer::split_from_psram(&mut psram).unwrap();
    let (mut a, mut b) = (vec![1; HALF_BYTES], vec![1; HALF_BYTES]);
    let mut ring = BounceRing::new(&framebuffer, front, &mut a, &mut b);
    framebuffer.fill(0x5A5A);
    request_flip(&mut ring, Buffer::B);
    request_flip(&mut ring, Buffer::A);
    ring.eof_isr(&framebuffer, eof(28));
    assert!(!is_flip_pending(&ring));
    assert!(ring.bounce(Half::A).iter().all(|&b| b == 0));
}

#[test]
fn flip_waits_for_an_earlier_swap() {
    let mut psram = vec![0; PSRAM_BYTES_REQUIRED];
    let (front, mut framebuffer, _) = Framebuffer::split_from_psram(&mut psram).unwrap();
    let (mut a, mut b) = (vec![1; HALF_BYTES], vec![1; HALF_BYTES]);
    let mut ring = BounceRing::new(&framebuffer, front, &mut a, &mut b);
    framebuffer.fill(0x1111);
    framebuffer.flip_no_sync(&mut ring);
    assert!(is_flip_pending(&ring));
    let phase = framebuffer.flip(&mut ring, FlipPhase::Start);
    assert_eq!(phase, FlipPhase::Drain { new_front: Buffer::A });
    assert_eq!(framebuffer.flip(&mut ring, phase), phase);
    ring.eof_isr(&framebuffer, eof(28));
    assert!(ring.bounce(Half::A).iter().all(|&b| b == 0x11));
    // The unwaited swap is in; A is the back buffer now.
    framebuffer.fill(0x2222);
    assert_eq!(framebuffer.flip(&mut ring, phase), FlipPhase::Apply);
    ring.eof_isr(&framebuffer, eof(28));
    assert!(ring.bounce(Half::A).iter().all(|&b| b == 0x22));
    assert_eq!(framebuffer.flip(&mut ring, FlipPhase::Apply), FlipPhase::Done);
    // Two swaps: B is the back buffer again.
    framebuffer.fill(0x3333);
    assert!(framebuffer.buffer(Buffer::B).iter().all(|&b| b == 0x33));
}

#[test]
fn flips_toggle_the_back_buffer() {
    let mut psram = vec![0; PSRAM_BYTES_REQUIRED];
    let (front, mut framebuffer, _) = Framebuffer::split_from_psram(&mut psram).unwrap();
    let (mut a, mut b) = (vec![1; HALF_BYTES], vec![1; HALF_BYTES]);
    let mut ring = BounceRing::new(&framebuffer, front, &mut a, &mut b);
    for colour in [0xF800u16, 0x07E0, 0x001F] {
        framebuffer.fill(colour);
        let phase = framebuffer.flip(&mut ring, FlipPhase::Start);
        ring.eof_isr(&framebuffer, eof(28));
        assert_eq!(framebuffer.flip(&mut ring, phase), FlipPhase::Done);
    }
    assert_eq!(framebuffer.buffer(Buffer::A)[..2], 0x07E0u16.to_le_bytes());
    assert_eq!(framebuffer.buffer(Buffer::B)[..2], 0x001Fu16.to_le_bytes());
}

#[test]
fn interrupt_that_did_not_fire_is_ignored() {
    let mut psram = vec![0; PSRAM_BYTES_REQUIRED];
    let (front, framebuffer, _) = Framebuffer::split_from_psram(&mut psram).unwrap();
    let (mut a, mut b) = (vec![1; HALF_BYTES], vec![1; HALF_BYTES]);
    let mut ring = BounceRing::new(&framebuffer, front, &mut a, &mut b);
    let quiet = EofReport { out_eof: false, ..eof(0) };
    assert!(!ring.eof_isr(&framebuffer, quiet));
    assert_eq!(ring.isr_fires(), 0);
}

#[test]
fn address_outside_the_ring_is_only_counted() {
    let mut psram = vec![0; PSRAM_BYTES_REQUIRED];
    let (front, mut framebuffer, _) = Framebuffer::split_from_psram(&mut psram).unwrap();
    let (mut a, mut b) = (vec![1; HALF_BYTES], vec![1; HALF_BYTES]);
    let mut ring = BounceRing::new(&framebuffer, front, &mut a, &mut b);
    framebuffer.fill(0x4444);
    request_flip(&mut ring, Buffer::B);
    let below = EofReport { eof_des_addr: BASE - 1, ..eof(0) };
    assert!(ring.eof_isr(&framebuffer, below));
    assert!(ring.eof_isr(&framebuffer, report(N_DESC)));
    assert_eq!(ring.isr_fires(), 2);
    assert!(is_flip_pending(&ring));
    assert!(ring.bounce(Half::A).iter().all(|&b| b == 0));
    assert!(ring.bounce(Half::B).iter().all(|&b| b == 0));
}

#[test]
fn missed_interrupt_costs_one_refill() {
    let mut psram = vec![0; PSRAM_BYTES_REQUIRED];
    let (_, mut framebuffer, _) = Framebuffer::split_from_psram(&mut psram).unwrap();
    pattern(&mut framebuffer, 9);
    let (mut a, mut b) = (vec![1; HALF_BYTES], vec![1; HALF_BYTES]);
    let mut ring = BounceRing::new(&framebuffer, Buffer::B, &mut a, &mut b);
    let image = framebuffer.buffer(Buffer::B).to_vec();
    for half in 0..2 * HALVES_PER_FRAME {
        let index = half % HALVES_PER_FRAME;
        // Interrupt 11 is missed, so half 13 shows half 11 once more.
        let shown = if half == 13 { 11 } else { index };
        assert!(ring.bounce(half_of(index)) == &chunk(&image, shown)[..]);
        if half != 11 {
            assert!(ring.eof_isr(&framebuffer, eof(index)));
        }
    }
}

#[test]
fn two_flips_at_once_after_the_swap() {
    let mut psram = vec![0; PSRAM_BYTES_REQUIRED];
    let (front, mut framebuffer, _) = Framebuffer::split_from_psram(&mut psram).unwrap();
    let (mut a, mut b) = (vec![1; HALF_BYTES], vec![1; HALF_BYTES]);
    let mut ring = BounceRing::new(&framebuffer, front, &mut a, &mut b);
    let one = framebuffer.flip(&mut ring, FlipPhase::Start);
    ring.eof_isr(&framebuffer, eof(28));
    let two = framebuffer.flip(&mut ring, FlipPhase::Start);
    assert_eq!((one, two), (FlipPhase::Apply, FlipPhase::Apply));
    ring.eof_isr(&framebuffer, eof(28));
    assert_eq!(framebuffer.flip(&mut ring, one), FlipPhase::Done);
    assert_eq!(framebuffer.flip(&mut ring, two), FlipPhase::Done);
    // B is on the panel, so drawing goes to A.
    assert_eq!(ring.front(), Buffer::B);
    framebuffer.fill(0x7777);
    assert!(framebuffer.buffer(Buffer::A).iter().all(|&b| b == 0x77));
    assert!(framebuffer.buffer(Buffer::B).iter().all(|&b| b == 0));
}

#[test]
fn two_flips_at_once_before_the_swap() {
    let mut psram = vec![0; PSRAM_BYTES_REQUIRED];
    let (front, mut framebuffer, _) = Framebuffer::split_from_psram(&mut psram).unwrap();
    let (mut a, mut b) = (vec![1; HALF_BYTES], vec![1; HALF_BYTES]);
    let mut ring = BounceRing::new(&framebuffer, front, &mut a, &mut b);
    let one = framebuffer.flip(&mut ring, FlipPhase::Start);
    let two = framebuffer.flip(&mut ring, FlipPhase::Start);
    assert_eq!(two, FlipPhase::Drain { new_front: Buffer::B });
    ring.eof_isr(&framebuffer, eof(28));
    assert_eq!(framebuffer.flip(&mut ring, one), FlipPhase::Done);
    // Whoever waited for the first flip may draw while the second goes on.
    framebuffer.fill(0x6666);
    let two = framebuffer.flip(&mut ring, two);
    assert_eq!(two, FlipPhase::Apply);
    ring.eof_isr(&framebuffer, eof(28));
    assert!(ring.bounce(Half::A).iter().all(|&b| b == 0));
    assert_eq!(framebuffer.flip(&mut ring, two), FlipPhase::Done);
    assert_eq!(ring.front(), Buffer::B);
    framebuffer.fill(0x7777);
    assert!(framebuffer.buffer(Buffer::A).iter().all(|&b| b == 0x77));
}

#[test]
fn late_flip_keeps_sides_apart() {
    let mut psram = vec![0; PSRAM_BYTES_REQUIRED];
    let (front, mut framebuffer, _) = Framebuffer::split_from_psram(&mut psram).unwrap();
    let (mut a, mut b) = (vec![1; HALF_BYTES], vec![1; HALF_BYTES]);
    let mut ring = BounceRing::new(&framebuffer, front, &mut a, &mut b);
    let one = framebuffer.flip(&mut ring, FlipPhase::Start);
    let two = framebuffer.flip(&mut ring, FlipPhase::Start);
    ring.eof_isr(&framebuffer, eof(28));
    assert_eq!(framebuffer.flip(&mut ring, one), FlipPhase::Done);
    let three = framebuffer.flip(&mut ring, FlipPhase::Start);
    ring.eof_isr(&framebuffer, eof(28));
    assert_eq!(ring.front(), Buffer::A);
    let two = framebuffer.flip(&mut ring, two);
    assert_eq!(framebuffer.flip(&mut ring, three), FlipPhase::Apply);
    ring.eof_isr(&framebuffer, eof(28));
    assert_eq!(framebuffer.flip(&mut ring, two), FlipPhase::Done);
    assert_eq!(framebuffer.flip(&mut ring, three), FlipPhase::Done);
    assert_eq!(ring.front(), Buffer::B);
    framebuffer.fill(0x7777);
    assert!(framebuffer.buffer(Buffer::A).iter().all(|&b| b == 0x77));
    assert!(framebuffer.buffer(Buffer::B).iter().all(|&b| b == 0));
}

#[test]
fn handler_reads_one_buffer_only() {
    let mut psram = vec![0; PSRAM_BYTES_REQUIRED];
    let (front, mut framebuffer, _) = Framebuffer::split_from_psram(&mut psram).unwrap();
    let (mut a, mut b) = (vec![1; HALF_BYTES], vec![1; HALF_BYTES]);
    let mut ring = BounceRing::new(&framebuffer, front, &mut a, &mut b);
    pattern(&mut framebuffer, 5);
    let drawn = framebuffer.buffer(Buffer::B).to_vec();
    request_flip(&mut ring, Buffer::B);
    // The queued buffer is read as soon as the refill is a frame's first.
    let outside = report(N_DESC);
    let quiet = EofReport { out_eof: false, ..eof(28) };
    assert_eq!(ring.eof_source(eof(27)), Buffer::A);
    assert_eq!(ring.eof_source(eof(29)), Buffer::A);
    assert_eq!(ring.eof_source(outside), Buffer::A);
    assert_eq!(ring.eof_source(quiet), Buffer::A);
    assert_eq!(ring.eof_source(eof(28)), Buffer::B);
    assert!(ring.eof_isr_from(&drawn, eof(28)));
    assert!(ring.bounce(Half::A) == &chunk(&drawn, 0)[..]);
    assert_eq!(ring.front(), Buffer::B);
    assert!(!is_flip_pending(&ring));
    assert_eq!(ring.eof_source(eof(29)), Buffer::B);
}

#[test]
fn swap_survives_missed_interrupts_before_it_is_due() {
    let mut psram = vec![0; PSRAM_BYTES_REQUIRED];
    let (front, mut framebuffer, _) = Framebuffer::split_from_psram(&mut psram).unwrap();
    let (mut a, mut b) = (vec![1; HALF_BYTES], vec![1; HALF_BYTES]);
    let mut ring = BounceRing::new(&framebuffer, front, &mut a, &mut b);
    pattern(&mut framebuffer, 11);
    let drawn = framebuffer.buffer(Buffer::B).to_vec();
    request_flip(&mut ring, Buffer::B);
    // Only the last two interrupts of the frame are handled.
    for half in [28, 29] {
        assert!(ring.eof_isr(&framebuffer, eof(half)));
    }
    assert!(frame(&mut ring, &framebuffer) == on_panel(&drawn));
}
