//! Double-buffered RGB565 framebuffer in PSRAM.
//!
//! Two complete images live back to back at the start of the PSRAM
//! region: buffer A, then buffer B. The CPU draws into whichever is
//! currently the *back* buffer; the bounce-buffer interrupt reads
//! whichever is currently the *front* one.
//!
//! Every drawing call reports the byte range that has to be written
//! back from the data cache, as an offset into the PSRAM region: until
//! that happens the interrupt may still read what was there before.

use crate::bounce_buffer::{is_flip_pending, request_flip, BounceRing, RingState};
use core::ops::Range;
use vstd::prelude::*;

verus! {

/// Logical width of the visible framebuffer, in pixels.
pub const WIDTH: usize = 480;

/// Logical height of the visible framebuffer, in pixels.
pub const HEIGHT: usize = 480;

/// Pixels in one framebuffer.
pub const PIXELS: usize = 230_400;

/// Bytes in one framebuffer (RGB565 = 2 bytes per pixel).
pub const BYTES: usize = 460_800;

/// Total PSRAM bytes required (two buffers, back to back).
pub const PSRAM_BYTES_REQUIRED: usize = 921_600;

/// The sizes fit together: a buffer holds one 16-bit pixel for every
/// position, and the region holds two buffers.
pub proof fn law_sizes()
    ensures
        PIXELS == WIDTH * HEIGHT,
        BYTES == PIXELS * 2,
        PSRAM_BYTES_REQUIRED == BYTES * 2,
{
}

/// One of the two physical framebuffers.
#[derive(Debug, Clone, Copy, PartialEq, Eq, Structural)]
pub enum Buffer {
    /// The buffer at the start of the PSRAM region.
    A,
    /// The buffer that follows it.
    B,
}

impl Buffer {
    /// Byte offset of the buffer in the PSRAM region.
    pub open spec fn spec_offset(self) -> usize {
        match self {
            Buffer::A => 0,
            Buffer::B => BYTES,
        }
    }

    /// Byte offset of the buffer in the PSRAM region.
    #[verifier::when_used_as_spec(spec_offset)]
    pub fn offset(self) -> (offset: usize)
        ensures
            offset == self.spec_offset(),
    {
        match self {
            Buffer::A => 0,
            Buffer::B => BYTES,
        }
    }

    /// The buffer that is not this one.
    pub open spec fn spec_other(self) -> Buffer {
        match self {
            Buffer::A => Buffer::B,
            Buffer::B => Buffer::A,
        }
    }

    /// The buffer that is not this one.
    #[verifier::when_used_as_spec(spec_other)]
    pub fn other(self) -> (other: Buffer)
        ensures
            other == self.spec_other(),
    {
        match self {
            Buffer::A => Buffer::B,
            Buffer::B => Buffer::A,
        }
    }

    /// Whether byte `i` of the PSRAM region belongs to this buffer.
    pub open spec fn covers(self, i: int) -> bool {
        self.offset() <= i < self.offset() + BYTES
    }
}

/// A byte range of the PSRAM region that has to be written back from
/// the data cache before anything but the CPU may read it.
#[derive(Debug, Clone, Copy, PartialEq, Eq, Structural)]
pub struct Flush {
    /// Offset of the first byte.
    pub start: usize,
    /// Number of bytes.
    pub len: usize,
}

/// The pixel whose low byte is byte `2 * i`.
pub open spec fn pixel_at(bytes: Seq<u8>, i: int) -> u16 {
    (bytes[2 * i] + 256 * bytes[2 * i + 1]) as u16
}

/// A buffer's bytes read as little-endian RGB565 pixels, row by row.
pub open spec fn pixels_of(bytes: Seq<u8>) -> Seq<u16> {
    Seq::new((bytes.len() / 2) as nat, |i: int| pixel_at(bytes, i))
}

/// Where a range ends once it is cut off at `limit`.
pub open spec fn clipped_end(range: Range<usize>, limit: usize) -> usize {
    if range.end < limit {
        range.end
    } else {
        limit
    }
}

/// `image` with `px` laid over the columns `columns` of row `y`. What
/// lies outside the image, and what `px` is too short for, is left out.
pub open spec fn with_row(image: Seq<u16>, y: usize, columns: Range<usize>, px: Seq<u16>) -> Seq<
    u16,
> {
    Seq::new(
        image.len(),
        |i: int|
            {
                let x = i % (WIDTH as int);
                if i / (WIDTH as int) == y && columns.start <= x < clipped_end(columns, WIDTH) && x
                    - columns.start < px.len() {
                    px[x - columns.start]
                } else {
                    image[i]
                }
            },
    )
}

/// `image` with the columns `columns` of row `y` in one colour.
pub open spec fn with_solid_row(
    image: Seq<u16>,
    y: usize,
    columns: Range<usize>,
    colour: u16,
) -> Seq<u16> {
    Seq::new(
        image.len(),
        |i: int|
            if i / (WIDTH as int) == y && columns.start <= i % (WIDTH as int) < clipped_end(
                columns,
                WIDTH,
            ) {
                colour
            } else {
                image[i]
            },
    )
}

/// `image` with the rows `rows` of column `x` in one colour.
pub open spec fn with_solid_column(
    image: Seq<u16>,
    x: usize,
    rows: Range<usize>,
    colour: u16,
) -> Seq<u16> {
    Seq::new(
        image.len(),
        |i: int|
            if i % (WIDTH as int) == x && rows.start <= i / (WIDTH as int) < clipped_end(
                rows,
                HEIGHT,
            ) {
                colour
            } else {
                image[i]
            },
    )
}

/// The image in which every pixel has one colour.
pub open spec fn solid(colour: u16) -> Seq<u16> {
    Seq::new(PIXELS as nat, |i: int| colour)
}

/// What has to be flushed after a run on row `y` that has `available`
/// pixels to show: exactly the written pixels, or nothing where the run
/// misses the image.
pub open spec fn row_flush(
    buffer: Buffer,
    y: usize,
    columns: Range<usize>,
    available: int,
) -> Option<Flush> {
    let end = clipped_end(columns, WIDTH);
    if y >= HEIGHT || columns.start >= end {
        None
    } else {
        let n = if end - columns.start < available {
            end - columns.start
        } else {
            available
        };
        Some(
            Flush {
                start: (buffer.offset() + 2 * (y * WIDTH + columns.start)) as usize,
                len: (2 * n) as usize,
            },
        )
    }
}

/// What has to be flushed after a run at column `x`: everything from
/// the first to the last written pixel, or nothing where the run misses
/// the image.
pub open spec fn column_flush(buffer: Buffer, x: usize, rows: Range<usize>) -> Option<Flush> {
    let end = clipped_end(rows, HEIGHT);
    if x >= WIDTH || rows.start >= end {
        None
    } else {
        Some(
            Flush {
                start: (buffer.offset() + 2 * (rows.start * WIDTH + x)) as usize,
                len: (2 * ((end - 1 - rows.start) * WIDTH + 1)) as usize,
            },
        )
    }
}

/// How far a [`Framebuffer::flip`] has come.
#[derive(Debug, Clone, Copy, PartialEq, Eq, Structural)]
pub enum FlipPhase {
    /// Not begun.
    Start,
    /// Waiting for an earlier swap to be applied.
    Drain {
        /// The buffer to be shown: the back one when the flip began.
        new_front: Buffer,
    },
    /// Queued, waiting to be applied.
    Apply,
    /// Applied: the buffers have changed roles.
    Done,
}

/// One poll of a flip that is to show `new_front` and has not queued it
/// yet.
pub open spec fn queue_step(new_front: Buffer, back: Buffer, ring: RingState) -> (
    FlipPhase,
    Buffer,
    RingState,
) {
    if ring.pending is Some {
        (FlipPhase::Drain { new_front }, back, ring)
    } else {
        (FlipPhase::Apply, back, RingState { pending: Some(new_front), ..ring })
    }
}

/// One poll of a flip, with the back buffer and the ring it runs on: the
/// next phase, the back buffer and the ring after it.
pub open spec fn flip_step(phase: FlipPhase, back: Buffer, ring: RingState) -> (
    FlipPhase,
    Buffer,
    RingState,
) {
    match phase {
        FlipPhase::Start => queue_step(back, back, ring),
        FlipPhase::Drain { new_front } => queue_step(new_front, back, ring),
        FlipPhase::Apply => if ring.pending is Some {
            (FlipPhase::Apply, back, ring)
        } else {
            (FlipPhase::Done, ring.front.other(), ring)
        },
        FlipPhase::Done => (FlipPhase::Done, back, ring),
    }
}

/// The bytes of both buffers.
#[verifier::ext_equal]
pub struct Images {
    /// The bytes of buffer A.
    pub a: Seq<u8>,
    /// The bytes of buffer B.
    pub b: Seq<u8>,
}

impl Images {
    /// The bytes of one buffer.
    pub open spec fn of(self, buffer: Buffer) -> Seq<u8> {
        match buffer {
            Buffer::A => self.a,
            Buffer::B => self.b,
        }
    }
}

/// CPU-side handle to the PSRAM framebuffer pair.
///
/// Writes go to the back buffer; [`Framebuffer::flip`] makes them
/// visible.
pub struct Framebuffer<'a> {
    psram: &'a mut [u8],
    back_is_a: bool,
}

impl<'a> Framebuffer<'a> {
    /// The whole PSRAM region, both buffers and what follows them.
    pub closed spec fn memory(&self) -> Seq<u8> {
        self.psram@
    }

    /// The buffer that the CPU draws into.
    pub closed spec fn back(&self) -> Buffer {
        if self.back_is_a {
            Buffer::A
        } else {
            Buffer::B
        }
    }

    /// The region is large enough for both buffers.
    pub open spec fn wf(&self) -> bool {
        self.memory().len() >= PSRAM_BYTES_REQUIRED
    }

    /// The bytes of one buffer.
    pub open spec fn bytes(&self, buffer: Buffer) -> Seq<u8> {
        self.memory().subrange(buffer.offset() as int, buffer.offset() + BYTES)
    }

    /// The bytes of both buffers.
    pub open spec fn images(&self) -> Images {
        Images { a: self.bytes(Buffer::A), b: self.bytes(Buffer::B) }
    }

    /// The pixels of one buffer, row by row.
    pub open spec fn image(&self, buffer: Buffer) -> Seq<u16> {
        pixels_of(self.bytes(buffer))
    }

    /// Same region as `before`, with only bytes of `buffer` written.
    pub open spec fn touches_only(&self, before: &Self, buffer: Buffer) -> bool {
        &&& self.memory().len() == before.memory().len()
        &&& self.back() == before.back()
        &&& forall|i: int|
            0 <= i < self.memory().len() && !buffer.covers(i) ==> #[trigger] self.memory()[i]
                == before.memory()[i]
    }

    /// Store one pixel of `buffer`.
    fn store(&mut self, buffer: Buffer, index: usize, colour: u16)
        requires
            old(self).wf(),
            index < PIXELS,
        ensures
            final(self).wf(),
            final(self).touches_only(old(self), buffer),
            final(self).image(buffer) == old(self).image(buffer).update(index as int, colour),
    {
        let at: usize = buffer.offset() + 2 * index;
        let lo: u8 = (colour & 0xFF) as u8;
        let hi: u8 = (colour >> 8) as u8;
        assert(lo + 256 * hi == colour) by {
            assert((colour & 0xFF) + 256 * (colour >> 8) == colour && (colour & 0xFF) < 256 && (
            colour >> 8) < 256) by (bit_vector);
        }
        self.psram[at] = lo;
        self.psram[at + 1] = hi;
        assert(self.image(buffer) =~= old(self).image(buffer).update(index as int, colour));
    }

    /// Paint one buffer in a single colour.
    ///
    /// A colour whose two bytes are equal (black and white among them)
    /// is laid down byte by byte, any other one pixel by pixel.
    fn fill_buffer(&mut self, buffer: Buffer, colour: u16) -> (flush: Flush)
        requires
            old(self).wf(),
        ensures
            final(self).wf(),
            final(self).touches_only(old(self), buffer),
            final(self).image(buffer) == solid(colour),
            flush == (Flush { start: buffer.offset(), len: BYTES }),
    {
        let lo: u8 = (colour & 0xFF) as u8;
        let hi: u8 = (colour >> 8) as u8;
        if lo == hi {
            assert(lo + 256 * lo == colour) by {
                assert((colour & 0xFF) + 256 * (colour >> 8) == colour && (colour & 0xFF) < 256 && (
                colour >> 8) < 256) by (bit_vector);
            }
            let base: usize = buffer.offset();
            let mut i: usize = 0;
            while i < BYTES
                invariant
                    i <= BYTES,
                    base == buffer.offset(),
                    self.wf(),
                    self.touches_only(old(self), buffer),
                    forall|j: int| base <= j < base + i ==> self.memory()[j] == lo,
                decreases BYTES - i,
            {
                self.psram[base + i] = lo;
                i = i + 1;
            }
            assert(self.image(buffer) =~= solid(colour));
        } else {
            let mut i: usize = 0;
            while i < PIXELS
                invariant
                    i <= PIXELS,
                    self.wf(),
                    self.touches_only(old(self), buffer),
                    forall|j: int| 0 <= j < i ==> self.image(buffer)[j] == colour,
                decreases PIXELS - i,
            {
                self.store(buffer, i, colour);
                i = i + 1;
            }
            assert(self.image(buffer) =~= solid(colour));
        }
        Flush { start: buffer.offset(), len: BYTES }
    }

    /// Carve a pair of framebuffers off the start of the PSRAM region.
    ///
    /// Returns `Some((front, framebuffer, flush))` if the region holds at
    /// least [`PSRAM_BYTES_REQUIRED`] bytes; `front` is the buffer that
    /// the bounce-buffer ring has to be primed with. Both buffers are
    /// black, so that the first frame on the panel is black too, and
    /// `flush` takes in all of them.
    pub fn split_from_psram(psram: &'a mut [u8]) -> (split: Option<
        (Buffer, Framebuffer<'a>, Flush),
    >)
        ensures
            split is None <==> old(psram)@.len() < PSRAM_BYTES_REQUIRED,
            split is None ==> final(psram)@ == old(psram)@,
            split matches Some((front, framebuffer, flush)) ==> {
                &&& framebuffer.wf()
                &&& front == Buffer::A
                &&& framebuffer.back() == Buffer::B
                &&& framebuffer.image(Buffer::A) == solid(0)
                &&& framebuffer.image(Buffer::B) == solid(0)
                &&& framebuffer.memory().len() == old(psram)@.len()
                &&& framebuffer.memory().skip(PSRAM_BYTES_REQUIRED as int) == old(psram)@.skip(
                    PSRAM_BYTES_REQUIRED as int,
                )
                &&& flush == (Flush { start: 0, len: PSRAM_BYTES_REQUIRED })
                &&& forall|i: int|
                    0 <= i < old(psram)@.len() && #[trigger] framebuffer.memory()[i] != old(
                        psram,
                    )@[i] ==> flush.start <= i < flush.start + flush.len
            },
    {
        if psram.len() < PSRAM_BYTES_REQUIRED {
            return None;
        }
        let ghost before = psram@;
        let mut framebuffer = Framebuffer { psram, back_is_a: false };
        let flush_a = framebuffer.fill_buffer(Buffer::A, 0x0000);
        let ghost black_a = framebuffer.memory();
        let flush_b = framebuffer.fill_buffer(Buffer::B, 0x0000);
        assert(framebuffer.bytes(Buffer::A) =~= black_a.subrange(0, BYTES as int));
        assert(framebuffer.memory().skip(PSRAM_BYTES_REQUIRED as int) =~= before.skip(
            PSRAM_BYTES_REQUIRED as int,
        ));
        let flush = Flush { start: flush_a.start, len: flush_a.len + flush_b.len };
        Some((Buffer::A, framebuffer, flush))
    }

    /// Read one buffer.
    pub fn buffer(&self, buffer: Buffer) -> (bytes: &[u8])
        requires
            self.wf(),
        ensures
            bytes@ == self.bytes(buffer),
    {
        vstd::slice::slice_subrange(self.psram, buffer.offset(), buffer.offset() + BYTES)
    }

    /// The buffer that the CPU draws into.
    fn back_buffer(&self) -> (buffer: Buffer)
        ensures
            buffer == self.back(),
    {
        if self.back_is_a {
            Buffer::A
        } else {
            Buffer::B
        }
    }

    /// Fill the back buffer with a single RGB565 colour.
    pub fn fill(&mut self, colour: u16) -> (flush: Flush)
        requires
            old(self).wf(),
        ensures
            final(self).wf(),
            final(self).touches_only(old(self), old(self).back()),
            final(self).image(old(self).back()) == solid(colour),
            flush == (Flush { start: old(self).back().offset(), len: BYTES }),
    {
        let back = self.back_buffer();
        self.fill_buffer(back, colour)
    }

    /// Write a span of RGB565 pixels into row `y` of the back buffer.
    ///
    /// Bounds-checked: coordinates outside the image are dropped rather
    /// than refused, so a renderer may pass partial lines.
    pub fn write_row(&mut self, y: usize, range: Range<usize>, pixels: &[u16]) -> (flush: Option<
        Flush,
    >)
        requires
            old(self).wf(),
        ensures
            final(self).wf(),
            final(self).touches_only(old(self), old(self).back()),
            final(self).image(old(self).back()) == with_row(
                old(self).image(old(self).back()),
                y,
                range,
                pixels@,
            ),
            flush == row_flush(old(self).back(), y, range, pixels@.len() as int),
    {
        let ghost image = self.image(self.back());
        if y >= HEIGHT {
            assert(self.image(self.back()) =~= with_row(image, y, range, pixels@));
            return None;
        }
        let end: usize = if range.end < WIDTH {
            range.end
        } else {
            WIDTH
        };
        if range.start >= end {
            assert(self.image(self.back()) =~= with_row(image, y, range, pixels@));
            return None;
        }
        let span: usize = end - range.start;
        let n: usize = if span < pixels.len() {
            span
        } else {
            pixels.len()
        };
        let back = self.back_buffer();
        let first: usize = y * WIDTH + range.start;
        let mut i: usize = 0;
        while i < n
            invariant
                i <= n <= pixels.len(),
                first + n <= PIXELS,
                self.wf(),
                self.touches_only(old(self), back),
                back == old(self).back(),
                image == old(self).image(back),
                forall|j: int|
                    0 <= j < PIXELS ==> self.image(back)[j] == (if first <= j < first + i {
                        pixels@[j - first]
                    } else {
                        image[j]
                    }),
            decreases n - i,
        {
            self.store(back, first + i, pixels[i]);
            i = i + 1;
        }
        assert(self.image(back) =~= with_row(image, y, range, pixels@));
        Some(Flush { start: back.offset() + 2 * first, len: 2 * n })
    }

    /// Paint a horizontal solid-colour run on row `y` of the back buffer.
    pub fn draw_row_solid(&mut self, y: usize, x_range: Range<usize>, colour: u16) -> (flush:
        Option<Flush>)
        requires
            old(self).wf(),
        ensures
            final(self).wf(),
            final(self).touches_only(old(self), old(self).back()),
            final(self).image(old(self).back()) == with_solid_row(
                old(self).image(old(self).back()),
                y,
                x_range,
                colour,
            ),
            flush == row_flush(old(self).back(), y, x_range, WIDTH as int),
    {
        let ghost image = self.image(self.back());
        if y >= HEIGHT {
            assert(self.image(self.back()) =~= with_solid_row(image, y, x_range, colour));
            return None;
        }
        let end: usize = if x_range.end < WIDTH {
            x_range.end
        } else {
            WIDTH
        };
        if x_range.start >= end {
            assert(self.image(self.back()) =~= with_solid_row(image, y, x_range, colour));
            return None;
        }
        let n: usize = end - x_range.start;
        let back = self.back_buffer();
        let first: usize = y * WIDTH + x_range.start;
        let mut i: usize = 0;
        while i < n
            invariant
                i <= n,
                first + n <= PIXELS,
                self.wf(),
                self.touches_only(old(self), back),
                back == old(self).back(),
                image == old(self).image(back),
                forall|j: int|
                    0 <= j < PIXELS ==> self.image(back)[j] == (if first <= j < first + i {
                        colour
                    } else {
                        image[j]
                    }),
            decreases n - i,
        {
            self.store(back, first + i, colour);
            i = i + 1;
        }
        assert(self.image(back) =~= with_solid_row(image, y, x_range, colour));
        Some(Flush { start: back.offset() + 2 * first, len: 2 * n })
    }

    /// Paint a vertical solid-colour run at column `x` of the back
    /// buffer, with one flush from the first to the last written pixel.
    pub fn draw_column(&mut self, x: usize, y_range: Range<usize>, colour: u16) -> (flush: Option<
        Flush,
    >)
        requires
            old(self).wf(),
        ensures
            final(self).wf(),
            final(self).touches_only(old(self), old(self).back()),
            final(self).image(old(self).back()) == with_solid_column(
                old(self).image(old(self).back()),
                x,
                y_range,
                colour,
            ),
            flush == column_flush(old(self).back(), x, y_range),
    {
        let ghost image = self.image(self.back());
        if x >= WIDTH {
            assert(self.image(self.back()) =~= with_solid_column(image, x, y_range, colour));
            return None;
        }
        let end: usize = if y_range.end < HEIGHT {
            y_range.end
        } else {
            HEIGHT
        };
        if y_range.start >= end {
            assert(self.image(self.back()) =~= with_solid_column(image, x, y_range, colour));
            return None;
        }
        let back = self.back_buffer();
        let mut y: usize = y_range.start;
        while y < end
            invariant
                y_range.start <= y <= end <= HEIGHT,
                x < WIDTH,
                self.wf(),
                self.touches_only(old(self), back),
                back == old(self).back(),
                image == old(self).image(back),
                forall|j: int|
                    0 <= j < PIXELS ==> self.image(back)[j] == (if j % (WIDTH as int) == x
                        && y_range.start <= j / (WIDTH as int) < y {
                        colour
                    } else {
                        image[j]
                    }),
            decreases end - y,
        {
            self.store(back, y * WIDTH + x, colour);
            y = y + 1;
        }
        assert(self.image(back) =~= with_solid_column(image, x, y_range, colour));
        let start: usize = back.offset() + 2 * (y_range.start * WIDTH + x);
        let stop: usize = back.offset() + 2 * ((end - 1) * WIDTH + x + 1);
        Some(Flush { start, len: stop - start })
    }

    /// Poll a flip that has not queued its swap yet.
    fn queue(&self, ring: &mut BounceRing, new_front: Buffer) -> (next: FlipPhase)
        ensures
            (next, self.back(), final(ring)@) == queue_step(new_front, self.back(), old(ring)@),
            old(ring).wf() ==> final(ring).wf(),
    {
        if is_flip_pending(ring) {
            FlipPhase::Drain { new_front }
        } else {
            request_flip(ring, new_front);
            FlipPhase::Apply
        }
    }

    /// Tear-free swap of front and back buffers, one poll of it.
    ///
    /// Start with [`FlipPhase::Start`] and call again with what came
    /// back until that is [`FlipPhase::Done`]. The swap is one of the
    /// back buffer at the first poll. It waits for an earlier one to be
    /// applied, so as not to overwrite it, then queues its own and waits
    /// for the interrupt handler to apply it.
    ///
    /// When the poll that completes it returns, nothing is queued, and
    /// drawing goes to the buffer that the interrupt handler does not
    /// read, whatever other flips have been under way meanwhile. That
    /// buffer's contents are left as they are.
    pub fn flip(&mut self, ring: &mut BounceRing, phase: FlipPhase) -> (next: FlipPhase)
        ensures
            final(self).memory() == old(self).memory(),
            (next, final(self).back(), final(ring)@) == flip_step(
                phase,
                old(self).back(),
                old(ring)@,
            ),
            phase == FlipPhase::Apply && next == FlipPhase::Done ==> final(ring)@.pending is None
                && final(self).back() == final(ring)@.front.other(),
            old(ring).wf() ==> final(ring).wf(),
    {
        match phase {
            FlipPhase::Start => self.queue(ring, self.back_buffer()),
            FlipPhase::Drain { new_front } => self.queue(ring, new_front),
            FlipPhase::Apply => {
                if is_flip_pending(ring) {
                    FlipPhase::Apply
                } else {
                    self.back_is_a = match ring.front() {
                        Buffer::A => false,
                        Buffer::B => true,
                    };
                    FlipPhase::Done
                }
            },
            FlipPhase::Done => FlipPhase::Done,
        }
    }

    /// Queue a swap without waiting for it to be applied.
    ///
    /// Until the interrupt handler applies it, the new back buffer is
    /// still the one that the panel is fed from: drawing into it before
    /// then tears the picture.
    pub fn flip_no_sync(&mut self, ring: &mut BounceRing)
        ensures
            final(self).memory() == old(self).memory(),
            final(self).back() == old(self).back().other(),
            final(ring)@ == (RingState { pending: Some(old(self).back()), ..old(ring)@ }),
            old(ring).wf() ==> final(ring).wf(),
    {
        request_flip(ring, self.back_buffer());
        self.back_is_a = !self.back_is_a;
    }
}

/// The pixels of a buffer lie in memory row by row, two bytes each, the
/// low one first: buffer A from byte 0 on, buffer B right behind it.
pub proof fn law_pixels_in_memory(framebuffer: &Framebuffer, buffer: Buffer, x: int, y: int)
    requires
        framebuffer.wf(),
        0 <= x < WIDTH,
        0 <= y < HEIGHT,
    ensures
        ({
            let base = if buffer == Buffer::A {
                0
            } else {
                WIDTH * HEIGHT * 2
            };
            let at = base + (y * WIDTH + x) * 2;
            &&& framebuffer.image(buffer).len() == WIDTH * HEIGHT
            &&& framebuffer.image(buffer)[y * WIDTH + x] as int == framebuffer.memory()[at]
                + framebuffer.memory()[at + 1] * 256
        }),
{
    let i = y * WIDTH + x;
    assert(framebuffer.image(buffer)[i] == pixel_at(framebuffer.bytes(buffer), i));
}

/// To write one buffer only is to leave alone the other one, whatever
/// follows them in memory, and which of them is the back one.
pub proof fn law_other_buffer_is_left_alone(
    before: &Framebuffer,
    after: &Framebuffer,
    buffer: Buffer,
    i: int,
)
    requires
        before.wf(),
        after.touches_only(before, buffer),
    ensures
        after.memory().len() == before.memory().len(),
        after.back() == before.back(),
        buffer == Buffer::A && WIDTH * HEIGHT * 2 <= i < before.memory().len()
            ==> after.memory()[i] == before.memory()[i],
        buffer == Buffer::B && 0 <= i < WIDTH * HEIGHT * 2 ==> after.memory()[i]
            == before.memory()[i],
        WIDTH * HEIGHT * 4 <= i < before.memory().len() ==> after.memory()[i]
            == before.memory()[i],
{
}

/// Writing a row puts pixel `k` of the given ones at column
/// `range.start + k` of the row, as far as the range and the image go,
/// and leaves every other pixel of the image as it was.
pub proof fn law_row_is_written(
    image: Seq<u16>,
    y: usize,
    range: Range<usize>,
    px: Seq<u16>,
    k: int,
    row: int,
    x: int,
)
    requires
        image.len() == PIXELS,
        0 <= row < HEIGHT,
        0 <= x < WIDTH,
    ensures
        with_row(image, y, range, px).len() == PIXELS,
        y < HEIGHT && 0 <= k < px.len() && range.start + k < range.end && range.start + k < WIDTH
            ==> with_row(image, y, range, px)[y * WIDTH + range.start + k] == px[k],
        row != y || x < range.start || x >= range.end || x >= range.start + px.len() ==> with_row(
            image,
            y,
            range,
            px,
        )[row * WIDTH + x] == image[row * WIDTH + x],
{
}

/// Drawing a solid row gives every pixel of the range that lies in the
/// image the colour, and leaves every other pixel as it was.
pub proof fn law_solid_row_is_drawn(
    image: Seq<u16>,
    y: usize,
    range: Range<usize>,
    colour: u16,
    row: int,
    x: int,
)
    requires
        image.len() == PIXELS,
        0 <= row < HEIGHT,
        0 <= x < WIDTH,
    ensures
        with_solid_row(image, y, range, colour).len() == PIXELS,
        row == y && range.start <= x < range.end ==> with_solid_row(
            image,
            y,
            range,
            colour,
        )[row * WIDTH + x] == colour,
        row != y || x < range.start || x >= range.end ==> with_solid_row(
            image,
            y,
            range,
            colour,
        )[row * WIDTH + x] == image[row * WIDTH + x],
{
}

/// Drawing a solid column gives every pixel of the range that lies in
/// the image the colour, and leaves every other pixel as it was.
pub proof fn law_solid_column_is_drawn(
    image: Seq<u16>,
    x: usize,
    range: Range<usize>,
    colour: u16,
    column: int,
    y: int,
)
    requires
        image.len() == PIXELS,
        0 <= column < WIDTH,
        0 <= y < HEIGHT,
    ensures
        with_solid_column(image, x, range, colour).len() == PIXELS,
        column == x && range.start <= y < range.end ==> with_solid_column(
            image,
            x,
            range,
            colour,
        )[y * WIDTH + column] == colour,
        column != x || y < range.start || y >= range.end ==> with_solid_column(
            image,
            x,
            range,
            colour,
        )[y * WIDTH + column] == image[y * WIDTH + column],
{
}

/// A filled image has its colour everywhere.
pub proof fn law_fill_reaches_every_pixel(colour: u16, x: int, y: int)
    requires
        0 <= x < WIDTH,
        0 <= y < HEIGHT,
    ensures
        solid(colour).len() == WIDTH * HEIGHT,
        solid(colour)[y * WIDTH + x] == colour,
{
}

/// A run may be drawn in parts, and a run of one pixel is the same along
/// a row and along a column.
pub proof fn law_runs_add_up(
    image: Seq<u16>,
    at: usize,
    a: usize,
    b: usize,
    c: usize,
    x: usize,
    y: usize,
    colour: u16,
)
    requires
        image.len() == PIXELS,
        a <= b <= c,
        x < WIDTH,
        y < HEIGHT,
    ensures
        with_solid_row(
            with_solid_row(image, at, Range { start: a, end: b }, colour),
            at,
            Range { start: b, end: c },
            colour,
        ) == with_solid_row(image, at, Range { start: a, end: c }, colour),
        with_solid_column(
            with_solid_column(image, at, Range { start: a, end: b }, colour),
            at,
            Range { start: b, end: c },
            colour,
        ) == with_solid_column(image, at, Range { start: a, end: c }, colour),
        with_solid_row(image, y, Range { start: x, end: (x + 1) as usize }, colour)
            == with_solid_column(image, x, Range { start: y, end: (y + 1) as usize }, colour),
        with_solid_row(image, y, Range { start: x, end: (x + 1) as usize }, colour)
            == image.update(y * WIDTH + x, colour),
{
    assert(with_solid_row(
        with_solid_row(image, at, Range { start: a, end: b }, colour),
        at,
        Range { start: b, end: c },
        colour,
    ) =~= with_solid_row(image, at, Range { start: a, end: c }, colour));
    assert(with_solid_column(
        with_solid_column(image, at, Range { start: a, end: b }, colour),
        at,
        Range { start: b, end: c },
        colour,
    ) =~= with_solid_column(image, at, Range { start: a, end: c }, colour));
    let dot = image.update(y * WIDTH + x, colour);
    let across = Range { start: x, end: (x + 1) as usize };
    let down = Range { start: y, end: (y + 1) as usize };
    assert(with_solid_row(image, y, across, colour) =~= dot);
    assert(with_solid_column(image, x, down, colour) =~= dot);
}

/// What a drawing call flushes, to the byte. A row flushes what it writes
/// and nothing else; a column flushes all from its first pixel to its
/// last. Nothing is flushed just where a run misses the image.
pub proof fn law_flushes_are_exact(
    buffer: Buffer,
    at: usize,
    range: Range<usize>,
    available: int,
)
    requires
        available >= 0,
    ensures
        ({
            let base = if buffer == Buffer::A {
                0
            } else {
                WIDTH * HEIGHT * 2
            };
            let row = row_flush(buffer, at, range, available);
            let column = column_flush(buffer, at, range);
            &&& row is Some <==> at < HEIGHT && range.start < range.end && range.start < WIDTH
            &&& row matches Some(flush) ==> {
                let n = flush.len as int / 2;
                &&& flush.start == base + (at * WIDTH + range.start) * 2
                &&& flush.len == 2 * n
                &&& n <= available && range.start + n <= range.end && range.start + n <= WIDTH
                &&& n == available || range.start + n == range.end || range.start + n == WIDTH
            }
            &&& column is Some <==> at < WIDTH && range.start < range.end && range.start < HEIGHT
            &&& column matches Some(flush) ==> {
                let last = if range.end < HEIGHT {
                    range.end - 1
                } else {
                    HEIGHT - 1
                };
                &&& flush.start == base + (range.start * WIDTH + at) * 2
                &&& flush.start + flush.len == base + (last * WIDTH + at) * 2 + 2
            }
        }),
{
}

/// A poll of a flip changes nothing but what is queued, never replaces a
/// swap that is queued, and queues the buffer that was the back one when
/// the flip began. Once nothing is queued any more, the flip is done, and
/// the back buffer is the one that is not in front.
pub proof fn law_flip_queues_politely(phase: FlipPhase, back: Buffer, ring: RingState)
    ensures
        ({
            let (next, new_back, new_ring) = flip_step(phase, back, ring);
            &&& new_ring == RingState { pending: new_ring.pending, ..ring }
            &&& ring.pending is Some ==> new_ring == ring && new_back == back
            &&& ring.pending is Some && phase == FlipPhase::Start ==> next == FlipPhase::Drain {
                new_front: back,
            }
            &&& ring.pending is Some && phase != FlipPhase::Start ==> next == phase
            &&& ring.pending is None && phase == FlipPhase::Start ==> next == FlipPhase::Apply
                && new_ring.pending == Some(back)
            &&& ring.pending is None ==> (phase matches FlipPhase::Drain { new_front } ==> next
                == FlipPhase::Apply && new_ring.pending == Some(new_front))
            &&& phase == FlipPhase::Apply || phase == FlipPhase::Done ==> new_ring == ring
            &&& ring.pending is None && phase == FlipPhase::Apply ==> next == FlipPhase::Done
                && new_back != ring.front
            &&& phase == FlipPhase::Done ==> next == FlipPhase::Done
            &&& next != FlipPhase::Done || phase == FlipPhase::Done ==> new_back == back
        }),
{
}

/// A solid run is a row of pixels that all have its colour.
pub proof fn law_solid_row_is_uniform_row(
    image: Seq<u16>,
    y: usize,
    columns: Range<usize>,
    colour: u16,
    px: Seq<u16>,
)
    requires
        columns.start + px.len() >= clipped_end(columns, WIDTH),
        forall|i: int| 0 <= i < px.len() ==> px[i] == colour,
    ensures
        with_solid_row(image, y, columns, colour) == with_row(image, y, columns, px),
{
    assert(with_solid_row(image, y, columns, colour) =~= with_row(image, y, columns, px));
}

/// `image` with its first `n` rows in one colour, drawn row by row.
pub open spec fn with_solid_rows(image: Seq<u16>, n: nat, colour: u16) -> Seq<u16>
    decreases n,
{
    if n == 0 {
        image
    } else {
        let above = with_solid_rows(image, (n - 1) as nat, colour);
        with_solid_row(above, (n - 1) as usize, Range { start: 0, end: WIDTH }, colour)
    }
}

/// Rows drawn one by one cover what lies above, and nothing else.
proof fn lemma_solid_rows(image: Seq<u16>, n: nat, colour: u16)
    requires
        image.len() == PIXELS,
        n <= HEIGHT,
    ensures
        with_solid_rows(image, n, colour).len() == PIXELS,
        forall|i: int|
            0 <= i < PIXELS ==> #[trigger] with_solid_rows(image, n, colour)[i] == (if i / (
            WIDTH as int) < n {
                colour
            } else {
                image[i]
            }),
    decreases n,
{
    if n > 0 {
        lemma_solid_rows(image, (n - 1) as nat, colour);
    }
}

/// To fill an image is to draw each of its rows in the colour, whatever
/// it showed before.
pub proof fn law_fill_is_every_row(image: Seq<u16>, colour: u16)
    requires
        image.len() == PIXELS,
    ensures
        with_solid_rows(image, HEIGHT as nat, colour) == solid(colour),
{
    lemma_solid_rows(image, HEIGHT as nat, colour);
    assert(with_solid_rows(image, HEIGHT as nat, colour) =~= solid(colour));
}

/// Coordinates outside the image change nothing.
pub proof fn law_outside_is_dropped(
    image: Seq<u16>,
    at: usize,
    range: Range<usize>,
    px: Seq<u16>,
    colour: u16,
)
    requires
        image.len() == PIXELS,
    ensures
        at >= HEIGHT || range.start >= clipped_end(range, WIDTH) ==> with_row(image, at, range, px)
            == image,
        at >= HEIGHT || range.start >= clipped_end(range, WIDTH) ==> with_solid_row(
            image,
            at,
            range,
            colour,
        ) == image,
        at >= WIDTH || range.start >= clipped_end(range, HEIGHT) ==> with_solid_column(
            image,
            at,
            range,
            colour,
        ) == image,
{
    if at >= HEIGHT || range.start >= clipped_end(range, WIDTH) {
        assert(with_row(image, at, range, px) =~= image);
        assert(with_solid_row(image, at, range, colour) =~= image);
    }
    if at >= WIDTH || range.start >= clipped_end(range, HEIGHT) {
        assert(with_solid_column(image, at, range, colour) =~= image);
    }
}

/// Whether a flush takes in both bytes of pixel `i` of `buffer`.
pub open spec fn flushes(flush: Option<Flush>, buffer: Buffer, i: int) -> bool {
    match flush {
        Some(flush) => flush.start <= buffer.offset() + 2 * i && buffer.offset() + 2 * i + 2
            <= flush.start + flush.len,
        None => false,
    }
}

/// Whatever a drawing call changes, it also flushes.
pub proof fn law_changes_are_flushed(
    image: Seq<u16>,
    buffer: Buffer,
    at: usize,
    range: Range<usize>,
    px: Seq<u16>,
    colour: u16,
    i: int,
)
    requires
        image.len() == PIXELS,
        0 <= i < PIXELS,
    ensures
        with_row(image, at, range, px)[i] != image[i] ==> flushes(
            row_flush(buffer, at, range, px.len() as int),
            buffer,
            i,
        ),
        with_solid_row(image, at, range, colour)[i] != image[i] ==> flushes(
            row_flush(buffer, at, range, WIDTH as int),
            buffer,
            i,
        ),
        with_solid_column(image, at, range, colour)[i] != image[i] ==> flushes(
            column_flush(buffer, at, range),
            buffer,
            i,
        ),
        flushes(Some(Flush { start: buffer.offset(), len: BYTES }), buffer, i),
{
}

/// Flushes stay inside the buffer that was drawn into.
pub proof fn law_flushes_stay_inside(
    buffer: Buffer,
    at: usize,
    range: Range<usize>,
    available: int,
)
    requires
        available >= 0,
    ensures
        row_flush(buffer, at, range, available) matches Some(flush) ==> buffer.offset()
            <= flush.start && flush.start + flush.len <= buffer.offset() + BYTES,
        column_flush(buffer, at, range) matches Some(flush) ==> buffer.offset() <= flush.start
            && flush.start + flush.len <= buffer.offset() + BYTES,
{
}

/// Pixels tell all about the bytes behind them: two buffers that show
/// the same image hold the same bytes.
pub proof fn law_pixels_determine_bytes(one: Seq<u8>, two: Seq<u8>)
    requires
        one.len() == BYTES,
        two.len() == BYTES,
        pixels_of(one) == pixels_of(two),
    ensures
        one == two,
{
    assert forall|i: int| 0 <= i < BYTES implies one[i] == two[i] by {
        let k = i / 2;
        assert(pixels_of(one)[k] == pixel_at(one, k));
        assert(pixels_of(two)[k] == pixel_at(two, k));
        assert(one[2 * k] + 256 * one[2 * k + 1] == two[2 * k] + 256 * two[2 * k + 1]);
    }
    assert(one =~= two);
}

} // verus!
