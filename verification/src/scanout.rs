//! What the panel gets to see.
//!
//! The DMA engine reads the halves of the ring one after the other,
//! frame after frame, and an interrupt follows each of them. This module
//! follows such a run from the moment the ring is built, with drawing
//! and swap requests happening in between, and states what reaches the
//! panel.

use crate::bounce_buffer::{
    chunk_for, chunk_of, descriptor_at, primed, EofReport, Half, Owner, RingState, DESC_PER_HALF,
    HALF_BYTES, HALVES_PER_FRAME, N_DESC, STARTUP_OFFSET_BYTES, STARTUP_OFFSET_LINES,
};
use crate::framebuffer::{
    flip_step, law_pixels_determine_bytes, pixels_of, solid, Buffer, FlipPhase, Images, BYTES,
    HEIGHT, WIDTH,
};
use vstd::prelude::*;

verus! {

/// A run of the ring. Halves are numbered from 0 on, across frames, and
/// interrupt `k` follows half `k`.
pub struct Run {
    /// The framebuffers when the ring is built.
    pub initial: Images,
    /// The front buffer that the ring is built with.
    pub front: Buffer,
    /// The framebuffers at interrupt `k`.
    pub images: spec_fn(int) -> Images,
    /// The last swap requested between interrupts `k - 1` and `k`.
    pub requests: spec_fn(int) -> Option<Buffer>,
    /// Whether interrupt `k` is handled. It may be missed: when it is
    /// held off until the next one, the hardware reports only that.
    pub handled: spec_fn(int) -> bool,
}

/// `ring` once `request` has been queued.
pub open spec fn requested(ring: RingState, request: Option<Buffer>) -> RingState {
    match request {
        Some(front) => RingState { pending: Some(front), ..ring },
        None => ring,
    }
}

impl Run {
    /// The ring after `n` interrupts.
    pub open spec fn state(self, n: nat) -> RingState
        decreases n,
    {
        if n == 0 {
            primed(self.initial, self.front)
        } else {
            let k = n - 1;
            let found = requested(self.state(k as nat), (self.requests)(k));
            if (self.handled)(k) {
                found.after_eof((self.images)(k), k % (HALVES_PER_FRAME as int))
            } else {
                found
            }
        }
    }

    /// The ring as interrupt `k` finds it.
    pub open spec fn found(self, k: nat) -> RingState {
        requested(self.state(k), (self.requests)(k as int))
    }

    /// What the panel gets in half `k`: the bounce buffer behind it.
    pub open spec fn shown(self, k: nat) -> Seq<u8> {
        self.state(k).bounce(Half::of(k as int))
    }

    /// What the panel gets in frame `f`.
    pub open spec fn frame(self, f: nat) -> Seq<u8> {
        Seq::new(
            BYTES as nat,
            |i: int|
                self.shown((f * HALVES_PER_FRAME + i / (HALF_BYTES as int)) as nat)[i % (
                HALF_BYTES as int)],
        )
    }

    /// The front buffer in force when the refill for half `k` comes
    /// round. It is what half `k` is copied from, unless that refill is
    /// missed.
    pub open spec fn source(self, k: nat) -> Buffer {
        if k < 2 {
            self.front
        } else {
            self.state((k - 1) as nat).front
        }
    }

    /// The framebuffers when the refill for half `k` comes round.
    pub open spec fn copied(self, k: nat) -> Images {
        if k < 2 {
            self.initial
        } else {
            (self.images)(k - 2)
        }
    }
}

/// An interrupt refills the bounce buffer behind the half it follows and
/// leaves the other one alone.
proof fn lemma_eof_refills(ring: RingState, images: Images, index: int)
    ensures
        ring.after_eof(images, index).bounce(Half::of(index)) == chunk_of(
            images.of(ring.after_eof(images, index).front),
            chunk_for(index + 2),
        ),
        forall|other: Half|
            other != Half::of(index) ==> #[trigger] ring.after_eof(images, index).bounce(other)
                == ring.bounce(other),
{
}

/// The front buffer changes only where a frame starts.
proof fn lemma_eof_front(ring: RingState, images: Images, index: int)
    ensures
        chunk_for(index + 2) != 0 ==> ring.after_eof(images, index).front == ring.front,
        chunk_for(index + 2) != 0 ==> ring.after_eof(images, index).pending == ring.pending,
        chunk_for(index + 2) == 0 ==> ring.after_eof(images, index).pending is None,
        chunk_for(index + 2) == 0 ==> ring.after_eof(images, index).front == (match ring.pending {
            Some(front) => front,
            None => ring.front,
        }),
{
}

/// Numbering halves across frames changes neither the bounce buffer nor
/// the chunk.
proof fn lemma_numbering(k: int)
    requires
        k >= 0,
    ensures
        Half::of(k % (HALVES_PER_FRAME as int)) == Half::of(k),
        Half::of(k + 2) == Half::of(k),
        Half::of(k + 1) != Half::of(k),
        chunk_for(k % (HALVES_PER_FRAME as int) + 2) == chunk_for(k + 2),
{
}

/// Every half shows its own chunk of the frame: the one bounce buffer is
/// refilled in time while the other is being read, however many frames
/// have gone by and whatever other interrupts were missed.
pub proof fn law_halves_in_step(run: Run, k: nat)
    requires
        k >= 2 ==> (run.handled)(k - 2),
    ensures
        run.shown(k) == chunk_of(run.copied(k).of(run.source(k)), chunk_for(k as int)),
{
    if k >= 2 {
        let e = k - 2;
        lemma_numbering(e);
        lemma_eof_refills(run.found(e as nat), (run.images)(e), e % (HALVES_PER_FRAME as int));
        assert(run.state((k - 1) as nat).bounce(Half::of(k as int)) == chunk_of(
            run.copied(k).of(run.source(k)),
            chunk_for(k as int),
        ));
    }
    if k >= 1 {
        let e = k - 1;
        lemma_numbering(e);
        lemma_eof_refills(run.found(e as nat), (run.images)(e), e % (HALVES_PER_FRAME as int));
        assert(run.shown(k) == run.state(e as nat).bounce(Half::of(k as int)));
    }
}

/// A missed interrupt costs one refill: the half that it would have
/// served shows once more what its bounce buffer showed before.
pub proof fn law_missed_refill(run: Run, k: nat)
    requires
        k >= 2,
        !(run.handled)(k - 2),
    ensures
        run.shown(k) == run.shown((k - 2) as nat),
{
    let e = k - 1;
    lemma_numbering(e);
    lemma_numbering(k - 2);
    lemma_eof_refills(run.found(e as nat), (run.images)(e), e % (HALVES_PER_FRAME as int));
    assert(run.state(e as nat) == run.found((k - 2) as nat));
    assert(run.shown(k) == run.state(e as nat).bounce(Half::of(k as int)));
}

/// The front buffer never changes between the refills for one frame: all
/// halves of frame `f` whose refill is not missed are copied from the
/// same one.
pub proof fn law_tear_free(run: Run, f: nat, h: nat)
    requires
        h < HALVES_PER_FRAME,
    ensures
        run.source((f * HALVES_PER_FRAME + h) as nat) == run.source((f * HALVES_PER_FRAME) as nat),
    decreases h,
{
    let k = (f * HALVES_PER_FRAME + h) as nat;
    if h > 0 {
        law_tear_free(run, f, (h - 1) as nat);
        if k >= 2 {
            let e = k - 2;
            lemma_numbering(e);
            lemma_eof_front(run.found(e as nat), (run.images)(e), e % (HALVES_PER_FRAME as int));
            lemma_chunk_number(f, h as int);
            assert(run.source(k) == run.state(e as nat).front);
        }
    }
}

/// An image as it appears on the panel: moved down by the start-up
/// offset, with what falls off the bottom coming back in at the top.
pub open spec fn on_panel(image: Seq<u8>) -> Seq<u8> {
    Seq::new(
        BYTES as nat,
        |i: int| image[(i + BYTES - STARTUP_OFFSET_BYTES) % (BYTES as int)],
    )
}

/// A frame whose front buffer keeps still while it is copied, with no
/// interrupt missed, shows that buffer and nothing else.
pub proof fn law_frame_shows_front(run: Run, f: nat, image: Seq<u8>)
    requires
        forall|k: int|
            f * HALVES_PER_FRAME - 2 <= k < (f + 1) * HALVES_PER_FRAME - 2 && k >= 0
                ==> #[trigger] (run.handled)(k),
        forall|h: int|
            0 <= h < HALVES_PER_FRAME ==> (#[trigger] run.copied(
                (f * HALVES_PER_FRAME + h) as nat,
            )).of(run.source((f * HALVES_PER_FRAME) as nat)) == image,
    ensures
        run.frame(f) == on_panel(image),
{
    assert forall|i: int| 0 <= i < BYTES implies #[trigger] run.frame(f)[i] == on_panel(
        image,
    )[i] by {
        let h = i / (HALF_BYTES as int);
        let k = (f * HALVES_PER_FRAME + h) as nat;
        assert(k >= 2 ==> (run.handled)(k - 2));
        assert(run.copied(k).of(run.source((f * HALVES_PER_FRAME) as nat)) == image);
        lemma_frame_byte(run, f, image, i);
    }
    assert(run.frame(f) =~= on_panel(image));
}

/// One byte of a frame whose half was copied from `image`.
proof fn lemma_frame_byte(run: Run, f: nat, image: Seq<u8>, i: int)
    requires
        0 <= i < BYTES,
        ({
            let k = (f * HALVES_PER_FRAME + i / (HALF_BYTES as int)) as nat;
            &&& k >= 2 ==> (run.handled)(k - 2)
            &&& run.copied(k).of(run.source((f * HALVES_PER_FRAME) as nat)) == image
        }),
    ensures
        run.frame(f)[i] == on_panel(image)[i],
{
    let h = i / (HALF_BYTES as int);
    let k = (f * HALVES_PER_FRAME + h) as nat;
    law_halves_in_step(run, k);
    law_tear_free(run, f, h as nat);
    lemma_chunk_number(f, h);
    lemma_chunk_byte(image, i);
}

/// Half `h` of any frame shows chunk `h`.
proof fn lemma_chunk_number(f: nat, h: int)
    requires
        0 <= h < HALVES_PER_FRAME,
    ensures
        chunk_for(f * HALVES_PER_FRAME + h) == h,
{
}

/// The chunks of an image, one after the other, are the image as it
/// appears on the panel.
proof fn lemma_chunk_byte(image: Seq<u8>, i: int)
    requires
        0 <= i < BYTES,
    ensures
        chunk_of(image, i / (HALF_BYTES as int))[i % (HALF_BYTES as int)] == on_panel(image)[i],
{
    reveal(chunk_of);
}

/// A swap that is queued when the first refill for a frame comes round
/// is in effect for the whole of that frame; without one, the front
/// buffer stays.
pub proof fn law_swap_starts_a_frame(run: Run, f: nat)
    requires
        f >= 1,
        (run.handled)(f * HALVES_PER_FRAME - 2),
    ensures
        run.source((f * HALVES_PER_FRAME) as nat) == (match run.found(
            (f * HALVES_PER_FRAME - 2) as nat,
        ).pending {
            Some(front) => front,
            None => run.found((f * HALVES_PER_FRAME - 2) as nat).front,
        }),
{
    let e = f * HALVES_PER_FRAME - 2;
    lemma_numbering(e);
    lemma_eof_front(run.found(e as nat), (run.images)(e), e % (HALVES_PER_FRAME as int));
}

/// The first interrupt from `k` on that refills for the start of a frame.
pub open spec fn swap_point(k: int) -> int {
    k + (2 * HALVES_PER_FRAME - 2 - k % (HALVES_PER_FRAME as int)) % (HALVES_PER_FRAME as int)
}

/// A queued swap that is not replaced before it is due is applied within
/// one frame, by the one interrupt in it that refills for the start of a
/// frame. Only that one must not be missed. The swap stays in effect for
/// the rest of that time, and nothing is queued at the end unless it was
/// requested since.
pub proof fn law_swap_within_a_frame(run: Run, k: nat, front: Buffer)
    requires
        run.found(k).pending == Some(front),
        forall|j: int| k < j <= swap_point(k as int) ==> #[trigger] (run.requests)(j) is None,
        (run.handled)(swap_point(k as int)),
    ensures
        k <= swap_point(k as int) < k + HALVES_PER_FRAME,
        forall|j: int|
            k <= j < k + HALVES_PER_FRAME ==> (#[trigger] chunk_for(j + 2) == 0 <==> j
                == swap_point(k as int)),
        run.state((swap_point(k as int) + 1) as nat).pending is None,
        run.state((swap_point(k as int) + 1) as nat).front == front,
        run.state(k + HALVES_PER_FRAME as nat).front == front,
        (forall|j: int|
            swap_point(k as int) < j < k + HALVES_PER_FRAME ==> #[trigger] (run.requests)(
                j,
            ) is None) ==> run.state(k + HALVES_PER_FRAME as nat).pending is None,
{
    lemma_next_frame(k);
    lemma_swap_progress(run, k, front, (swap_point(k as int) + 1) as nat);
    lemma_swap_progress(run, k, front, k + HALVES_PER_FRAME as nat);
    assert forall|j: int| k <= j < k + HALVES_PER_FRAME implies (#[trigger] chunk_for(j + 2) == 0
        <==> j == swap_point(k as int)) by {
        lemma_swap_point(k as int, j);
    }
}

/// A swap that is queued at interrupt `k` is still queued up to its swap
/// point and in effect after it.
proof fn lemma_swap_progress(run: Run, k: nat, front: Buffer, n: nat)
    requires
        run.found(k).pending == Some(front),
        forall|j: int| k < j <= swap_point(k as int) ==> #[trigger] (run.requests)(j) is None,
        n > swap_point(k as int) ==> (run.handled)(swap_point(k as int)),
        k < n <= k + HALVES_PER_FRAME,
    ensures
        n <= swap_point(k as int) ==> run.state(n).pending == Some(front),
        n > swap_point(k as int) ==> run.state(n).front == front,
        n > swap_point(k as int) && (forall|j: int|
            swap_point(k as int) < j < n ==> #[trigger] (run.requests)(j) is None) ==> run.state(
            n,
        ).pending is None,
    decreases n - k,
{
    let e = n - 1;
    lemma_next_frame(k);
    if e > k {
        lemma_swap_progress(run, k, front, e as nat);
        assert(e <= swap_point(k as int) ==> (run.requests)(e) is None);
    }
    lemma_numbering(e);
    lemma_eof_front(run.found(e as nat), (run.images)(e), e % (HALVES_PER_FRAME as int));
    lemma_swap_point(k as int, e);
}

/// Among a frame's worth of interrupts, exactly one is the swap point.
proof fn lemma_swap_point(k: int, e: int)
    requires
        0 <= k <= e < k + HALVES_PER_FRAME,
    ensures
        chunk_for(e + 2) == 0 <==> e == swap_point(k),
{
}

/// The next frame begins two halves after the swap point.
proof fn lemma_next_frame(k: nat)
    ensures
        next_frame(k) * HALVES_PER_FRAME - 2 == swap_point(k as int),
        k <= swap_point(k as int) < k + HALVES_PER_FRAME,
        next_frame(k) >= 1,
{
}

/// The first frame that begins once a swap queued at interrupt `k` can
/// have been applied.
pub open spec fn next_frame(k: nat) -> nat {
    ((k + 1 + HALVES_PER_FRAME) / (HALVES_PER_FRAME as int)) as nat
}

/// What was drawn into a buffer is on the panel in the next frame after
/// its swap was queued, complete and alone, provided that the swap is not
/// replaced before it is due, and that the buffer is left alone and no
/// interrupt missed while that frame is refilled.
pub proof fn law_drawing_becomes_visible(run: Run, k: nat, front: Buffer, image: Seq<u8>)
    requires
        run.found(k).pending == Some(front),
        forall|j: int|
            k < j <= next_frame(k) * HALVES_PER_FRAME - 2 ==> #[trigger] (run.requests)(j) is None,
        forall|j: int|
            next_frame(k) * HALVES_PER_FRAME - 2 <= j < (next_frame(k) + 1) * HALVES_PER_FRAME - 2
                ==> #[trigger] (run.handled)(j),
        forall|j: int|
            next_frame(k) * HALVES_PER_FRAME - 2 <= j < (next_frame(k) + 1) * HALVES_PER_FRAME - 2
                ==> (#[trigger] (run.images)(j)).of(front) == image,
    ensures
        k < next_frame(k) * HALVES_PER_FRAME <= k + 1 + HALVES_PER_FRAME,
        run.frame(next_frame(k)) == on_panel(image),
{
    let f = next_frame(k);
    let e = f * HALVES_PER_FRAME - 2;
    lemma_next_frame(k);
    if e > k {
        lemma_swap_progress(run, k, front, e as nat);
        assert((run.requests)(e) is None);
    }
    assert((run.handled)(e));
    law_swap_starts_a_frame(run, f);
    assert forall|h: int| 0 <= h < HALVES_PER_FRAME implies (#[trigger] run.copied(
        (f * HALVES_PER_FRAME + h) as nat,
    )).of(run.source((f * HALVES_PER_FRAME) as nat)) == image by {
        assert((run.images)(e + h).of(front) == image);
    }
    law_frame_shows_front(run, f, image);
}

/// A ring built on a black front buffer shows a black frame first, as
/// long as that buffer is left alone and no refill for the frame is
/// missed. A swap that is queued meanwhile does not change that.
pub proof fn law_first_frame_is_black(run: Run)
    requires
        run.initial.of(run.front).len() == BYTES,
        pixels_of(run.initial.of(run.front)) == solid(0),
        forall|k: int|
            0 <= k < HALVES_PER_FRAME - 2 ==> (#[trigger] (run.images)(k)).of(run.front)
                == run.initial.of(run.front),
        forall|k: int| 0 <= k < HALVES_PER_FRAME - 2 ==> #[trigger] (run.handled)(k),
    ensures
        pixels_of(run.frame(0)) == solid(0),
{
    let image = run.initial.of(run.front);
    let black = Seq::new(BYTES as nat, |i: int| 0u8);
    assert(pixels_of(black) =~= solid(0));
    law_pixels_determine_bytes(image, black);
    assert forall|h: int| 0 <= h < HALVES_PER_FRAME implies (#[trigger] run.copied(
        (0 * HALVES_PER_FRAME + h) as nat,
    )).of(run.source((0 * HALVES_PER_FRAME) as nat)) == image by {
        if h >= 2 {
            assert((run.images)(h - 2).of(run.front) == image);
        }
    }
    law_frame_shows_front(run, 0, image);
    assert(on_panel(image) =~= black);
}

/// Where the panel puts an image: row `y` of it ends up
/// [`STARTUP_OFFSET_LINES`] rows further down, in the same column.
pub proof fn law_panel_offset(image: Seq<u8>, x: int, y: int)
    requires
        image.len() == BYTES,
        0 <= x < WIDTH,
        0 <= y < HEIGHT,
    ensures
        pixels_of(on_panel(image))[(y + STARTUP_OFFSET_LINES) % (HEIGHT as int) * WIDTH + x]
            == pixels_of(image)[y * WIDTH + x],
{
    let i = (y + STARTUP_OFFSET_LINES) % (HEIGHT as int) * WIDTH + x;
    let j = y * WIDTH + x;
    assert((2 * i + BYTES - STARTUP_OFFSET_BYTES) % (BYTES as int) == 2 * j);
    assert((2 * i + 1 + BYTES - STARTUP_OFFSET_BYTES) % (BYTES as int) == 2 * j + 1);
}

/// The bytes that the DMA engine reads for one descriptor.
pub open spec fn read_for(ring: RingState, k: int) -> Seq<u8> {
    let d = descriptor_at(k);
    ring.bounce(d.half).subrange(d.start as int, d.start + d.length)
}

/// The bytes that the DMA engine reads for `n` descriptors in a row.
pub open spec fn read_from(ring: RingState, k: int, n: nat) -> Seq<u8>
    decreases n,
{
    if n == 0 {
        Seq::empty()
    } else {
        read_from(ring, k, (n - 1) as nat) + read_for(ring, k + n - 1)
    }
}

/// The descriptors of half `h` read its bounce buffer from end to end,
/// each byte once.
pub proof fn law_half_is_read_whole(ring: RingState, h: int)
    requires
        0 <= h < HALVES_PER_FRAME,
        ring.a.len() == HALF_BYTES,
        ring.b.len() == HALF_BYTES,
    ensures
        read_from(ring, h * DESC_PER_HALF, DESC_PER_HALF as nat) == ring.bounce(Half::of(h)),
{
    reveal_with_fuel(read_from, 5);
    assert(read_from(ring, h * DESC_PER_HALF, DESC_PER_HALF as nat) =~= ring.bounce(Half::of(h)));
}

/// The ring is closed, every transfer is one that the hardware can do,
/// and an interrupt follows the last descriptor of each half and no
/// other.
pub proof fn law_ring_is_closed(k: int)
    requires
        0 <= k < N_DESC,
    ensures
        descriptor_at(k).next == (if k == N_DESC - 1 {
            0
        } else {
            k + 1
        }),
        0 < descriptor_at(k).length <= 4095,
        descriptor_at(k).start + descriptor_at(k).length <= HALF_BYTES,
        descriptor_at(k).size == descriptor_at(k).length,
        descriptor_at(k).owner == Owner::Dma,
        descriptor_at(k).suc_eof <==> (k + 1) % (DESC_PER_HALF as int) == 0,
{
}

/// The address of any descriptor in the ring names the half it is in.
pub proof fn law_report_names_half(report: EofReport, k: int)
    requires
        report.wf(),
        0 <= k < N_DESC,
        report.eof_des_addr == report.descs_base + k * report.desc_size,
    ensures
        report.in_ring(),
        report.half() == k / (DESC_PER_HALF as int),
        0 <= report.half() < HALVES_PER_FRAME,
{
    let size = report.desc_size as int;
    assert(0 <= k * size < N_DESC * size) by (nonlinear_arith)
        requires
            0 <= k < N_DESC,
            size > 0,
    ;
    vstd::arithmetic::div_mod::lemma_div_by_multiple(k, size);
}

/// An address anywhere inside a descriptor names that descriptor's half,
/// and one outside of all of them names none.
pub proof fn law_report_covers_ring(report: EofReport, k: int, r: int)
    requires
        report.wf(),
        0 <= r < report.desc_size,
        report.eof_des_addr == report.descs_base + k * report.desc_size + r,
    ensures
        report.in_ring() <==> 0 <= k < N_DESC,
        0 <= k < N_DESC ==> report.half() == k / (DESC_PER_HALF as int),
{
    let size = report.desc_size as int;
    if k < 0 {
        assert(k * size + r < 0) by (nonlinear_arith)
            requires
                k < 0,
                0 <= r < size,
        ;
    } else if k < N_DESC {
        assert(0 <= k * size && k * size + r < N_DESC * size) by (nonlinear_arith)
            requires
                0 <= k < N_DESC,
                0 <= r < size,
        ;
        vstd::arithmetic::div_mod::lemma_fundamental_div_mod_converse(k * size + r, size, k, r);
    } else {
        assert(k * size + r >= N_DESC * size) by (nonlinear_arith)
            requires
                k >= N_DESC,
                0 <= r < size,
        ;
    }
}

/// Byte `i` of the chunk for half `index` is the byte of the image that
/// lies [`STARTUP_OFFSET_LINES`] rows before that position of the frame,
/// both counted around the frame.
pub proof fn law_chunk_is_shifted_image(image: Seq<u8>, index: int, i: int, j: int)
    requires
        index >= 0,
        0 <= i < HALF_BYTES,
        0 <= j < BYTES,
        (j + STARTUP_OFFSET_LINES * WIDTH * 2) % (BYTES as int) == (index * HALF_BYTES + i) % (
        BYTES as int),
    ensures
        chunk_of(image, index).len() == HALF_BYTES,
        chunk_of(image, index)[i] == image[j],
{
    reveal(chunk_of);
}

/// Every interrupt is counted, around the end of the counter. One that
/// reports an address outside the ring is counted and does nothing else.
pub proof fn law_interrupts_are_counted(ring: RingState, images: Images, index: int)
    ensures
        ring.counted().fires == (if ring.fires == u32::MAX {
            0
        } else {
            ring.fires + 1
        }),
        ring.counted() == (RingState { fires: ring.counted().fires, ..ring }),
        ring.after_eof(images, index).fires == ring.counted().fires,
{
}

/// The buffer that a refill is taken from is the one that is in front
/// once the interrupt has been handled, and none of its bytes but those
/// of that buffer matter.
pub proof fn law_refill_reads_front(ring: RingState, one: Images, two: Images, index: int)
    requires
        one.of(ring.source(index)) == two.of(ring.source(index)),
    ensures
        ring.source(index) == ring.after_eof(one, index).front,
        ring.after_eof(one, index) == ring.after_eof(two, index),
        ring.after_eof_from(one.of(ring.source(index)), index) == ring.after_eof(one, index),
{
}

/// What a refill puts in place depends on the half that the hardware
/// reports and on the front buffer alone. Interrupts that were missed,
/// and whatever they left in the bounce buffers, leave no trace in it.
pub proof fn law_refill_forgets(one: RingState, two: RingState, images: Images, index: int)
    requires
        one.front == two.front,
        one.pending == two.pending,
    ensures
        one.after_eof(images, index).bounce(Half::of(index)) == two.after_eof(
            images,
            index,
        ).bounce(Half::of(index)),
        one.after_eof(images, index).front == two.after_eof(images, index).front,
        one.after_eof(images, index).pending == two.after_eof(images, index).pending,
{
}

/// Neither side touches the other's buffer: the CPU draws into `back`
/// and nothing is queued to change that.
pub open spec fn at_rest(back: Buffer, ring: RingState) -> bool {
    ring.pending is None && ring.front == back.other()
}

/// At rest, or about to be as soon as a swap is applied that nobody
/// waits for.
pub open spec fn settling(back: Buffer, ring: RingState) -> bool {
    at_rest(back, ring) || ring.pending == Some(back.other())
}

/// Something that happens to the buffers.
pub enum Event {
    /// Flip `flip` is polled.
    Poll {
        /// Which of the flips.
        flip: int,
    },
    /// A swap is queued without waiting.
    FlipNoSync,
    /// An interrupt is handled.
    Eof {
        /// The framebuffers at that time.
        images: Images,
        /// The half that it follows.
        index: int,
    },
}

/// The buffers, shared by the interrupt handler and any number of flips,
/// each of them somewhere between its start and its end.
pub struct Sharing {
    /// The buffer that the CPU draws into.
    pub back: Buffer,
    /// The ring.
    pub ring: RingState,
    /// How far each flip has come.
    pub flips: Seq<FlipPhase>,
}

impl Sharing {
    /// Whether some flip is in the given phase.
    pub open spec fn some(self, phase: FlipPhase) -> bool {
        exists|i: int| 0 <= i < self.flips.len() && #[trigger] self.flips[i] == phase
    }

    /// What one event brings.
    pub open spec fn after(self, event: Event) -> Sharing {
        match event {
            Event::Poll { flip } => if 0 <= flip < self.flips.len() {
                let (next, back, ring) = flip_step(self.flips[flip], self.back, self.ring);
                Sharing { back, ring, flips: self.flips.update(flip, next) }
            } else {
                self
            },
            Event::FlipNoSync => Sharing {
                back: self.back.other(),
                ring: RingState { pending: Some(self.back), ..self.ring },
                ..self
            },
            Event::Eof { images, index } => Sharing {
                ring: self.ring.after_eof(images, index),
                ..self
            },
        }
    }

    /// What a succession of events brings.
    pub open spec fn after_all(self, events: Seq<Event>) -> Sharing
        decreases events.len(),
    {
        if events.len() == 0 {
            self
        } else {
            self.after_all(events.drop_last()).after(events.last())
        }
    }

    /// Unless a flip is waiting for its swap, the buffers are at rest or
    /// about to be.
    pub open spec fn consistent(self) -> bool {
        self.some(FlipPhase::Apply) || settling(self.back, self.ring)
    }
}

/// One event keeps the sharing consistent.
proof fn lemma_event_keeps_consistent(sharing: Sharing, event: Event)
    requires
        sharing.consistent(),
    ensures
        sharing.after(event).consistent(),
{
    let after = sharing.after(event);
    match event {
        Event::Poll { flip } => {
            if 0 <= flip < sharing.flips.len() {
                let next = flip_step(sharing.flips[flip], sharing.back, sharing.ring).0;
                assert(after.flips[flip] == next);
                if next != FlipPhase::Apply && sharing.flips[flip] != FlipPhase::Apply
                    && sharing.some(FlipPhase::Apply) {
                    let i = choose|i: int|
                        0 <= i < sharing.flips.len() && #[trigger] sharing.flips[i]
                            == FlipPhase::Apply;
                    assert(after.flips[i] == FlipPhase::Apply);
                }
            }
        },
        Event::FlipNoSync => {},
        Event::Eof { images, index } => {
            lemma_eof_front(sharing.ring, images, index);
        },
    }
}

/// However many flips are under way at once, and however their polls,
/// swaps that are not waited for, and interrupts fall in between each
/// other: as soon as no swap is queued and no flip waits for one, the
/// interrupt handler reads the one buffer and the CPU draws into the
/// other.
pub proof fn law_flips_keep_sides_apart(start: Sharing, events: Seq<Event>)
    requires
        start.consistent(),
    ensures
        start.after_all(events).consistent(),
        ({
            let end = start.after_all(events);
            end.ring.pending is None && !end.some(FlipPhase::Apply) ==> at_rest(end.back, end.ring)
        }),
    decreases events.len(),
{
    if events.len() > 0 {
        law_flips_keep_sides_apart(start, events.drop_last());
        lemma_event_keeps_consistent(start.after_all(events.drop_last()), events.last());
    }
}

/// The poll that completes a flip leaves nothing queued and both sides
/// apart, whatever has happened before it.
pub proof fn law_completed_flip_is_at_rest(sharing: Sharing, flip: int)
    requires
        0 <= flip < sharing.flips.len(),
        sharing.flips[flip] != FlipPhase::Done,
        sharing.after(Event::Poll { flip }).flips[flip] == FlipPhase::Done,
    ensures
        at_rest(
            sharing.after(Event::Poll { flip }).back,
            sharing.after(Event::Poll { flip }).ring,
        ),
{
}

/// How flips stand that all have begun with `new_front` as the back
/// buffer: as long as none is done it still is, and afterwards it is the
/// front one.
spec fn overlapping(sharing: Sharing, new_front: Buffer) -> bool {
    &&& forall|i: int|
        0 <= i < sharing.flips.len() ==> (#[trigger] sharing.flips[i] matches FlipPhase::Drain {
            new_front: queued,
        } ==> queued == new_front)
    &&& sharing.ring.pending matches Some(queued) ==> queued == new_front
    &&& sharing.some(FlipPhase::Apply) && sharing.ring.pending is None ==> sharing.ring.front
        == new_front
    &&& sharing.some(FlipPhase::Done) ==> sharing.ring.front == new_front && sharing.back
        == new_front.other()
    &&& !sharing.some(FlipPhase::Done) ==> sharing.back == new_front
}

/// One event keeps overlapping flips in step. A flip that has not begun
/// yet may only begin while none is done.
proof fn lemma_event_keeps_overlapping(sharing: Sharing, event: Event, new_front: Buffer)
    requires
        overlapping(sharing, new_front),
        sharing.some(FlipPhase::Done) ==> !sharing.some(FlipPhase::Start),
        event !is FlipNoSync,
    ensures
        overlapping(sharing.after(event), new_front),
{
    let after = sharing.after(event);
    match event {
        Event::Poll { flip } => {
            if 0 <= flip < sharing.flips.len() {
                let phase = sharing.flips[flip];
                let next = flip_step(phase, sharing.back, sharing.ring).0;
                assert(after.flips[flip] == next);
                assert(phase == FlipPhase::Start ==> sharing.some(FlipPhase::Start));
                assert(phase == FlipPhase::Apply ==> sharing.some(FlipPhase::Apply));
                assert(sharing.some(FlipPhase::Done) ==> after.some(FlipPhase::Done)) by {
                    if sharing.some(FlipPhase::Done) {
                        let i = choose|i: int|
                            0 <= i < sharing.flips.len() && #[trigger] sharing.flips[i]
                                == FlipPhase::Done;
                        assert(after.flips[i] == FlipPhase::Done);
                    }
                }
                if after.some(FlipPhase::Done) && next != FlipPhase::Done {
                    let i = choose|i: int|
                        0 <= i < after.flips.len() && #[trigger] after.flips[i] == FlipPhase::Done;
                    assert(sharing.flips[i] == FlipPhase::Done);
                }
                if after.some(FlipPhase::Apply) && next != FlipPhase::Apply {
                    let i = choose|i: int|
                        0 <= i < after.flips.len() && #[trigger] after.flips[i] == FlipPhase::Apply;
                    assert(sharing.flips[i] == FlipPhase::Apply);
                }
            }
        },
        Event::FlipNoSync => {},
        Event::Eof { images, index } => {
            lemma_eof_front(sharing.ring, images, index);
        },
    }
}

/// Flips that overlap, each of them begun before any is done, swap the
/// buffers once between them. From the moment that the first is done,
/// and for as long as the others go on, the interrupt handler reads what
/// was drawn and leaves the new back buffer alone.
pub proof fn law_overlapping_flips_swap_once(start: Sharing, events: Seq<Event>)
    requires
        at_rest(start.back, start.ring),
        forall|i: int| 0 <= i < start.flips.len() ==> start.flips[i] == FlipPhase::Start,
        forall|i: int| 0 <= i < events.len() ==> events[i] !is FlipNoSync,
        forall|n: int|
            0 <= n < events.len() && start.after_all(#[trigger] events.take(n)).some(
                FlipPhase::Done,
            ) ==> !start.after_all(events.take(n)).some(FlipPhase::Start),
    ensures
        ({
            let end = start.after_all(events);
            &&& end.some(FlipPhase::Done) ==> end.ring.front == start.back && end.back
                == start.ring.front
            &&& !end.some(FlipPhase::Done) ==> end.back == start.back
        }),
{
    lemma_overlapping_flips(start, events);
}

/// Overlapping flips stay in step from their start on.
proof fn lemma_overlapping_flips(start: Sharing, events: Seq<Event>)
    requires
        at_rest(start.back, start.ring),
        forall|i: int| 0 <= i < start.flips.len() ==> start.flips[i] == FlipPhase::Start,
        forall|i: int| 0 <= i < events.len() ==> events[i] !is FlipNoSync,
        forall|n: int|
            0 <= n < events.len() && start.after_all(#[trigger] events.take(n)).some(
                FlipPhase::Done,
            ) ==> !start.after_all(events.take(n)).some(FlipPhase::Start),
    ensures
        overlapping(start.after_all(events), start.back),
    decreases events.len(),
{
    if events.len() > 0 {
        let before = events.drop_last();
        assert forall|n: int|
            0 <= n < before.len() && start.after_all(#[trigger] before.take(n)).some(
                FlipPhase::Done,
            ) implies !start.after_all(before.take(n)).some(FlipPhase::Start) by {
            assert(before.take(n) =~= events.take(n));
        }
        lemma_overlapping_flips(start, before);
        assert(events.take(events.len() - 1) =~= before);
        lemma_event_keeps_overlapping(start.after_all(before), events.last(), start.back);
    }
}

/// The ring after a succession of interrupts, each with the framebuffers
/// and the half that it finds.
pub open spec fn after_eofs(ring: RingState, eofs: Seq<(Images, int)>) -> RingState
    decreases eofs.len(),
{
    if eofs.len() == 0 {
        ring
    } else {
        after_eofs(ring, eofs.drop_last()).after_eof(eofs.last().0, eofs.last().1)
    }
}

/// Whether one of the interrupts refills for the start of a frame.
pub open spec fn reaches_swap(eofs: Seq<(Images, int)>) -> bool {
    exists|i: int| 0 <= i < eofs.len() && chunk_for((#[trigger] eofs[i]).1 + 2) == 0
}

/// A whole flip, with the interrupts that come while its swap is queued:
/// the last phase, the back buffer and the ring.
pub open spec fn flipped(back: Buffer, ring: RingState, eofs: Seq<(Images, int)>) -> (
    FlipPhase,
    Buffer,
    RingState,
) {
    let (phase, queued_back, queued) = flip_step(FlipPhase::Start, back, ring);
    flip_step(phase, queued_back, after_eofs(queued, eofs))
}

/// A queued swap stays queued until an interrupt that refills for the
/// start of a frame, and is in effect from then on.
proof fn lemma_eofs_apply_swap(ring: RingState, eofs: Seq<(Images, int)>)
    ensures
        reaches_swap(eofs) ==> after_eofs(ring, eofs).pending is None,
        reaches_swap(eofs) ==> after_eofs(ring, eofs).front == ring.swapped().front,
        !reaches_swap(eofs) ==> after_eofs(ring, eofs).pending == ring.pending,
        !reaches_swap(eofs) ==> after_eofs(ring, eofs).front == ring.front,
    decreases eofs.len(),
{
    if eofs.len() > 0 {
        let before = eofs.drop_last();
        lemma_eofs_apply_swap(ring, before);
        lemma_eof_front(after_eofs(ring, before), eofs.last().0, eofs.last().1);
        assert(reaches_swap(before) ==> reaches_swap(eofs)) by {
            if reaches_swap(before) {
                let i = choose|i: int|
                    0 <= i < before.len() && chunk_for((#[trigger] before[i]).1 + 2) == 0;
                assert(eofs[i] == before[i]);
            }
        }
        assert(chunk_for(eofs.last().1 + 2) == 0 ==> reaches_swap(eofs));
        assert(chunk_for(eofs.last().1 + 2) != 0 && reaches_swap(eofs) ==> reaches_swap(
            before,
        )) by {
            if chunk_for(eofs.last().1 + 2) != 0 && reaches_swap(eofs) {
                let i = choose|i: int|
                    0 <= i < eofs.len() && chunk_for((#[trigger] eofs[i]).1 + 2) == 0;
                assert(before[i] == eofs[i]);
            }
        }
    }
}

/// A flip from rest is done as soon as an interrupt has refilled for the
/// start of a frame, and not before. The back buffer is the front one
/// then and the front buffer the back one.
pub proof fn law_flip_swaps_roles(back: Buffer, ring: RingState, eofs: Seq<(Images, int)>)
    requires
        at_rest(back, ring),
    ensures
        flipped(back, ring, eofs).0 == FlipPhase::Done <==> reaches_swap(eofs),
        reaches_swap(eofs) ==> flipped(back, ring, eofs).1 == ring.front,
        reaches_swap(eofs) ==> flipped(back, ring, eofs).2.front == back,
        reaches_swap(eofs) ==> at_rest(
            flipped(back, ring, eofs).1,
            flipped(back, ring, eofs).2,
        ),
{
    lemma_eofs_apply_swap(RingState { pending: Some(back), ..ring }, eofs);
}

/// Two flips in a row leave the buffers in the roles they had.
pub proof fn law_two_flips_net_zero(
    back: Buffer,
    ring: RingState,
    first: Seq<(Images, int)>,
    second: Seq<(Images, int)>,
)
    requires
        at_rest(back, ring),
        reaches_swap(first),
        reaches_swap(second),
    ensures
        ({
            let (_, back_once, ring_once) = flipped(back, ring, first);
            let (phase, back_twice, ring_twice) = flipped(back_once, ring_once, second);
            &&& phase == FlipPhase::Done
            &&& back_twice == back
            &&& ring_twice.front == ring.front
            &&& ring_twice.pending is None
        }),
{
    let (_, back_once, ring_once) = flipped(back, ring, first);
    law_flip_swaps_roles(back, ring, first);
    law_flip_swaps_roles(back_once, ring_once, second);
}

/// A swap that is queued without waiting settles: as soon as it is
/// applied, both sides are apart.
pub proof fn law_unwaited_swap_settles(back: Buffer, ring: RingState, images: Images, index: int)
    ensures
        ({
            let queued = RingState { pending: Some(back), ..ring };
            let after = queued.after_eof(images, index);
            &&& settling(back.other(), queued)
            &&& after.pending is None ==> at_rest(back.other(), after)
        }),
{
    lemma_eof_front(RingState { pending: Some(back), ..ring }, images, index);
}

/// A new ring is fed from the buffer it is built with. Nothing is queued
/// and no interrupt has been counted.
pub proof fn law_ring_starts_clean(images: Images, front: Buffer)
    ensures
        primed(images, front).front == front,
        primed(images, front).pending is None,
        primed(images, front).fires == 0,
{
}

/// The state of the buffers when the ring has been built from a fresh
/// pair: both sides are apart.
pub proof fn law_starts_at_rest(images: Images)
    ensures
        at_rest(Buffer::B, primed(images, Buffer::A)),
{
}

} // verus!
