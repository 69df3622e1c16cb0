//! Bounce-buffer mode for the DPI panel.
//!
//! DMA straight out of PSRAM makes the picture drift on this chip, so
//! the DMA engine only ever reads two small DRAM *halves*, each holding
//! [`N_LINES_PER_HALF`] scanlines. A closed descriptor ring that covers
//! exactly one frame alternates between them: even-numbered halves of
//! the frame are read from bounce buffer A, odd-numbered ones from B.
//!
//! The last descriptor of each half raises an end-of-frame (EOF)
//! interrupt. Its handler looks up which half the hardware has just
//! finished and refills that bounce buffer with what the DMA engine will
//! want the next time it comes by, two halves later.

use crate::framebuffer::{Buffer, Framebuffer, Images, BYTES, WIDTH};
use vstd::prelude::*;

verus! {

/// How many scanlines each bounce buffer holds. Chosen so that
/// [`HALVES_PER_FRAME`] comes out even.
pub const N_LINES_PER_HALF: usize = 16;

/// Bytes per bounce-buffer half: [`N_LINES_PER_HALF`] rows of pixels.
pub const HALF_BYTES: usize = 15_360;

/// Most bytes that one descriptor transfers. The hardware limit is
/// 4095; 4032 is a multiple of the preferred 64-byte burst.
pub const CHUNK: usize = 4032;

/// Descriptors per half: as many as it takes to cover [`HALF_BYTES`] in
/// steps of [`CHUNK`]. The last one is shorter.
pub const DESC_PER_HALF: usize = 4;

/// Halves per frame: as often as [`HALF_BYTES`] goes into a framebuffer.
pub const HALVES_PER_FRAME: usize = 30;

/// Offset, in halves, that makes up for the fixed start-up race between
/// the DMA engine and the LCD peripheral.
pub const STARTUP_OFFSET_HALVES: usize = 0;

/// Further offset in scanlines; it moves the image down on the panel.
pub const STARTUP_OFFSET_LINES: usize = 6;

/// Byte count of [`STARTUP_OFFSET_LINES`].
pub const STARTUP_OFFSET_BYTES: usize = 5_760;

/// Descriptors in the frame-sized ring: [`DESC_PER_HALF`] for each of
/// its [`HALVES_PER_FRAME`] halves.
pub const N_DESC: usize = 120;

/// The sizes fit together: a frame is a whole, even number of halves,
/// and the descriptors of a half cover it with none to spare.
pub proof fn law_dimensions()
    ensures
        HALF_BYTES == N_LINES_PER_HALF * WIDTH * 2,
        STARTUP_OFFSET_BYTES == STARTUP_OFFSET_LINES * WIDTH * 2,
        (DESC_PER_HALF - 1) * CHUNK < HALF_BYTES <= DESC_PER_HALF * CHUNK,
        HALVES_PER_FRAME * HALF_BYTES == BYTES,
        HALVES_PER_FRAME % 2 == 0,
        N_DESC == DESC_PER_HALF * HALVES_PER_FRAME,
        CHUNK <= 4095,
        CHUNK % 64 == 0,
{
}

/// One of the two DRAM bounce buffers.
#[derive(Debug, Clone, Copy, PartialEq, Eq, Structural)]
pub enum Half {
    /// Read for the even-numbered halves of a frame.
    A,
    /// Read for the odd-numbered halves of a frame.
    B,
}

impl Half {
    /// The bounce buffer behind half `index` of the ring.
    pub open spec fn of(index: int) -> Half {
        if index % 2 == 0 {
            Half::A
        } else {
            Half::B
        }
    }
}

/// Who may touch what a descriptor describes.
#[derive(Debug, Clone, Copy, PartialEq, Eq, Structural)]
pub enum Owner {
    /// The CPU.
    Cpu,
    /// The DMA engine.
    Dma,
}

/// One DMA descriptor of the ring, with positions in place of addresses.
#[derive(Debug, Clone, Copy, PartialEq, Eq, Structural)]
pub struct Descriptor {
    /// Size of the described memory, in bytes.
    pub size: usize,
    /// Bytes of it to transfer.
    pub length: usize,
    /// The bounce buffer that is read.
    pub half: Half,
    /// Offset of the first byte in that bounce buffer.
    pub start: usize,
    /// Who owns the described memory.
    pub owner: Owner,
    /// Whether an EOF interrupt follows this descriptor.
    pub suc_eof: bool,
    /// The descriptor that comes next.
    pub next: usize,
}

/// Bytes that descriptor `i` of a half transfers: all of them full
/// except the last, which takes what is left.
pub open spec fn piece_len(i: int) -> usize {
    if (i + 1) * CHUNK <= HALF_BYTES {
        CHUNK
    } else {
        (HALF_BYTES - i * CHUNK) as usize
    }
}

/// Descriptor `k` of the ring.
pub open spec fn descriptor_at(k: int) -> Descriptor {
    let half = k / (DESC_PER_HALF as int);
    let i = k % (DESC_PER_HALF as int);
    Descriptor {
        size: piece_len(i),
        length: piece_len(i),
        half: Half::of(half),
        start: (i * CHUNK) as usize,
        owner: Owner::Dma,
        suc_eof: i == DESC_PER_HALF - 1,
        next: ((k + 1) % (N_DESC as int)) as usize,
    }
}

/// The whole descriptor ring.
pub open spec fn ring_of_descriptors() -> Seq<Descriptor> {
    Seq::new(N_DESC as nat, |k: int| descriptor_at(k))
}

/// Build the descriptor ring.
fn build_descriptors() -> (descriptors: [Descriptor; N_DESC])
    ensures
        descriptors@ == ring_of_descriptors(),
{
    let blank = Descriptor {
        size: 0,
        length: 0,
        half: Half::A,
        start: 0,
        owner: Owner::Cpu,
        suc_eof: false,
        next: 0,
    };
    let mut descriptors: [Descriptor; N_DESC] = [blank; N_DESC];
    let mut index: usize = 0;
    while index < HALVES_PER_FRAME
        invariant
            index <= HALVES_PER_FRAME,
            forall|k: int|
                0 <= k < index * DESC_PER_HALF ==> descriptors@[k] == descriptor_at(k),
        decreases HALVES_PER_FRAME - index,
    {
        let half = if index % 2 == 0 {
            Half::A
        } else {
            Half::B
        };
        let offset: usize = index * DESC_PER_HALF;
        let mut i: usize = 0;
        while i < DESC_PER_HALF
            invariant
                index < HALVES_PER_FRAME,
                i <= DESC_PER_HALF,
                half == Half::of(index as int),
                offset == index * DESC_PER_HALF,
                forall|k: int| 0 <= k < offset + i ==> descriptors@[k] == descriptor_at(k),
            decreases DESC_PER_HALF - i,
        {
            let byte_start: usize = i * CHUNK;
            let full_end: usize = (i + 1) * CHUNK;
            let byte_end: usize = if full_end < HALF_BYTES {
                full_end
            } else {
                HALF_BYTES
            };
            let chunk_len: usize = byte_end - byte_start;
            let is_last_in_half: bool = i == DESC_PER_HALF - 1;
            let next: usize = if is_last_in_half && index == HALVES_PER_FRAME - 1 {
                0
            } else {
                offset + i + 1
            };
            let descriptor = Descriptor {
                size: chunk_len,
                length: chunk_len,
                half,
                start: byte_start,
                owner: Owner::Dma,
                suc_eof: is_last_in_half,
                next,
            };
            assert(descriptor == descriptor_at(offset + i));
            descriptors[offset + i] = descriptor;
            i = i + 1;
        }
        index = index + 1;
    }
    assert(descriptors@ =~= ring_of_descriptors());
    descriptors
}

/// The pixel bytes that a bounce buffer holds for half `index` of a
/// frame of `image`: [`HALF_BYTES`] bytes of the image, shifted down by
/// the start-up offset and wrapping around at its end.
#[verifier::opaque]
pub open spec fn chunk_of(image: Seq<u8>, index: int) -> Seq<u8> {
    Seq::new(
        HALF_BYTES as nat,
        |i: int|
            image[(index * HALF_BYTES + i + BYTES - STARTUP_OFFSET_BYTES) % (BYTES as int)],
    )
}

/// Copy one bounce-half's worth of pixels out of a framebuffer, shifted
/// by [`STARTUP_OFFSET_BYTES`] and wrapping around at its end.
pub fn psram_copy_wrapping(psram: &[u8], chunk_idx: usize, dest: &mut [u8])
    requires
        psram@.len() >= BYTES,
        old(dest)@.len() >= HALF_BYTES,
        chunk_idx * HALF_BYTES + BYTES <= usize::MAX,
    ensures
        final(dest)@.len() == old(dest)@.len(),
        final(dest)@ == chunk_of(psram@, chunk_idx as int) + old(dest)@.skip(HALF_BYTES as int),
{
    let natural: usize = chunk_idx * HALF_BYTES;
    let start: usize = (natural + BYTES - STARTUP_OFFSET_BYTES) % BYTES;
    let end: usize = start + HALF_BYTES;
    if end <= BYTES {
        copy_bytes(psram, start, dest, 0, HALF_BYTES);
    } else {
        let first: usize = BYTES - start;
        let second: usize = HALF_BYTES - first;
        copy_bytes(psram, start, dest, 0, first);
        copy_bytes(psram, 0, dest, first, second);
    }
    assert(dest@ =~= chunk_of(psram@, chunk_idx as int) + old(dest)@.skip(HALF_BYTES as int)) by {
        reveal(chunk_of);
        assert forall|i: int| 0 <= i < HALF_BYTES implies #[trigger] chunk_of(
            psram@,
            chunk_idx as int,
        )[i] == psram@[if start + i < BYTES {
            start + i
        } else {
            start + i - BYTES
        }] by {
            let shifted = natural + BYTES - STARTUP_OFFSET_BYTES;
            assert(chunk_idx * HALF_BYTES + i + BYTES - STARTUP_OFFSET_BYTES == shifted + i);
        }
    }
}

/// Copy `n` bytes of `src`, from `from` on, to `dest`, from `to` on.
fn copy_bytes(src: &[u8], from: usize, dest: &mut [u8], to: usize, n: usize)
    requires
        from + n <= src@.len(),
        to + n <= old(dest)@.len(),
    ensures
        final(dest)@.len() == old(dest)@.len(),
        forall|i: int|
            0 <= i < final(dest)@.len() ==> #[trigger] final(dest)@[i] == (if to <= i < to + n {
                src@[i - to + from]
            } else {
                old(dest)@[i]
            }),
{
    let mut k: usize = 0;
    while k < n
        invariant
            k <= n,
            from + n <= src.len(),
            to + n <= dest.len(),
            dest@.len() == old(dest)@.len(),
            forall|i: int|
                0 <= i < dest@.len() ==> #[trigger] dest@[i] == (if to <= i < to + k {
                    src@[i - to + from]
                } else {
                    old(dest)@[i]
                }),
        decreases n - k,
    {
        dest[to + k] = src[from + k];
        k = k + 1;
    }
}

/// What the EOF interrupt handler reads from the DMA controller.
#[derive(Debug, Clone, Copy, PartialEq, Eq, Structural)]
pub struct EofReport {
    /// Whether the EOF interrupt is really pending.
    pub out_eof: bool,
    /// Address of the descriptor that raised the most recent EOF.
    pub eof_des_addr: usize,
    /// Address of descriptor 0 of the ring.
    pub descs_base: usize,
    /// Size of one descriptor, in bytes.
    pub desc_size: usize,
}

impl EofReport {
    /// Descriptors take up space, and the ring lies inside the address
    /// space.
    pub open spec fn wf(self) -> bool {
        &&& self.desc_size > 0
        &&& self.descs_base + N_DESC * self.desc_size <= usize::MAX
    }

    /// Whether the reported address lies inside the ring.
    pub open spec fn in_ring(self) -> bool {
        self.descs_base <= self.eof_des_addr < self.descs_base + N_DESC * self.desc_size
    }

    /// The half of the frame that the reported descriptor belongs to.
    pub open spec fn half(self) -> int {
        ((self.eof_des_addr - self.descs_base) / (self.desc_size as int)) / (DESC_PER_HALF as int)
    }
}

/// What the ring and its interrupt handler keep between interrupts.
#[verifier::ext_equal]
pub struct RingState {
    /// Contents of bounce buffer A.
    pub a: Seq<u8>,
    /// Contents of bounce buffer B.
    pub b: Seq<u8>,
    /// The framebuffer that refills are taken from.
    pub front: Buffer,
    /// The framebuffer that is to become the front one, if any.
    pub pending: Option<Buffer>,
    /// EOF interrupts handled so far, modulo 2^32.
    pub fires: u32,
}

impl RingState {
    /// Contents of one bounce buffer.
    pub open spec fn bounce(self, half: Half) -> Seq<u8> {
        match half {
            Half::A => self.a,
            Half::B => self.b,
        }
    }

    /// One more interrupt counted.
    pub open spec fn counted(self) -> RingState {
        RingState { fires: ((self.fires + 1) % 0x1_0000_0000) as u32, ..self }
    }

    /// A queued swap taken, if there is one.
    pub open spec fn swapped(self) -> RingState {
        match self.pending {
            Some(front) => RingState { front, pending: None, ..self },
            None => self,
        }
    }

    /// A queued swap taken if the refill after half `index` is the first
    /// one for a frame.
    pub open spec fn settled(self, index: int) -> RingState {
        if chunk_for(index + 2) == 0 {
            self.swapped()
        } else {
            self
        }
    }

    /// The framebuffer that the refill after half `index` is taken from.
    pub open spec fn source(self, index: int) -> Buffer {
        self.settled(index).front
    }

    /// The bounce buffer behind half `index` refilled with chunk
    /// `chunk` of `image`.
    pub open spec fn refilled(self, image: Seq<u8>, index: int, chunk: int) -> RingState {
        let bytes = chunk_of(image, chunk);
        match Half::of(index) {
            Half::A => RingState { a: bytes, ..self },
            Half::B => RingState { b: bytes, ..self },
        }
    }

    /// What is left after half `index` has been read to its end, with the
    /// refill taken from `image`: its bounce buffer holds what comes two
    /// halves later, and a queued swap has been taken if that is the
    /// start of a frame.
    pub open spec fn after_eof_from(self, image: Seq<u8>, index: int) -> RingState {
        self.settled(index).refilled(image, index, chunk_for(index + 2)).counted()
    }

    /// What is left after half `index` has been read to its end, with the
    /// refill taken from the front framebuffer.
    pub open spec fn after_eof(self, images: Images, index: int) -> RingState {
        self.after_eof_from(images.of(self.source(index)), index)
    }
}

/// The chunk that is shown in half `index`. The count of halves may run
/// on past the end of a frame.
pub open spec fn chunk_for(index: int) -> int {
    (index + STARTUP_OFFSET_HALVES) % (HALVES_PER_FRAME as int)
}

/// How the DMA engine has to be set up to run the ring.
#[derive(Debug, Clone, Copy, PartialEq, Eq, Structural)]
pub struct Preparation {
    /// The descriptor to start with.
    pub start: usize,
    /// Whether the transfer reads PSRAM.
    pub accesses_psram: bool,
    /// Whether the transfer goes from memory to the peripheral.
    pub outgoing: bool,
    /// Whether to check the owner of each descriptor.
    pub check_owner: Option<bool>,
    /// Whether to write descriptors back after use.
    pub auto_write_back: bool,
}

/// The bounce-buffer descriptor ring and the state of its interrupt
/// handler.
pub struct BounceRing<'b> {
    descriptors: [Descriptor; N_DESC],
    bounce_a: &'b mut [u8],
    bounce_b: &'b mut [u8],
    front: Buffer,
    pending: Option<Buffer>,
    eof_count: u32,
}

impl<'b> View for BounceRing<'b> {
    type V = RingState;

    closed spec fn view(&self) -> RingState {
        RingState {
            a: self.bounce_a@,
            b: self.bounce_b@,
            front: self.front,
            pending: self.pending,
            fires: self.eof_count,
        }
    }
}

impl<'b> BounceRing<'b> {
    /// The descriptors, in ring order.
    pub closed spec fn spec_descriptors(&self) -> Seq<Descriptor> {
        self.descriptors@
    }

    /// The descriptors are those of the ring, and both bounce buffers
    /// have the size of a half.
    pub open spec fn wf(&self) -> bool {
        &&& self.spec_descriptors() == ring_of_descriptors()
        &&& self@.a.len() == HALF_BYTES
        &&& self@.b.len() == HALF_BYTES
    }

    /// Build the descriptor ring and prime both bounce buffers with the
    /// first two chunks of the front framebuffer.
    pub fn new(
        framebuffer: &Framebuffer,
        front: Buffer,
        bounce_a: &'b mut [u8],
        bounce_b: &'b mut [u8],
    ) -> (ring: BounceRing<'b>)
        requires
            framebuffer.wf(),
            old(bounce_a)@.len() == HALF_BYTES,
            old(bounce_b)@.len() == HALF_BYTES,
        ensures
            ring.wf(),
            ring@ == primed(framebuffer.images(), front),
    {
        let descriptors = build_descriptors();
        let init_a_chunk: usize = STARTUP_OFFSET_HALVES % HALVES_PER_FRAME;
        let init_b_chunk: usize = (STARTUP_OFFSET_HALVES + 1) % HALVES_PER_FRAME;
        psram_copy_wrapping(framebuffer.buffer(front), init_a_chunk, bounce_a);
        psram_copy_wrapping(framebuffer.buffer(front), init_b_chunk, bounce_b);
        let ring = BounceRing {
            descriptors,
            bounce_a,
            bounce_b,
            front,
            pending: None,
            eof_count: 0,
        };
        assert(ring@ =~= primed(framebuffer.images(), front));
        ring
    }

    /// `(half-bytes, descriptors-per-half, halves-per-frame)`, for
    /// boot-time logging.
    pub fn dimensions() -> (dimensions: (usize, usize, usize))
        ensures
            dimensions == (HALF_BYTES, DESC_PER_HALF, HALVES_PER_FRAME),
    {
        (HALF_BYTES, DESC_PER_HALF, HALVES_PER_FRAME)
    }

    /// EOF interrupts handled since the ring was built, for diagnostics.
    pub fn isr_fires(&self) -> (fires: u32)
        ensures
            fires == self@.fires,
    {
        self.eof_count
    }

    /// The framebuffer that refills are taken from.
    pub fn front(&self) -> (front: Buffer)
        ensures
            front == self@.front,
    {
        self.front
    }

    /// The descriptors, in ring order.
    pub fn descriptors(&self) -> (descriptors: &[Descriptor])
        ensures
            descriptors@ == self.spec_descriptors(),
    {
        self.descriptors.as_slice()
    }

    /// Read one bounce buffer.
    pub fn bounce(&self, half: Half) -> (bytes: &[u8])
        ensures
            bytes@ == self@.bounce(half),
    {
        match half {
            Half::A => self.bounce_a,
            Half::B => self.bounce_b,
        }
    }

    /// How the DMA engine has to be set up: it starts at descriptor 0
    /// and reads DRAM only. Every descriptor is handed to the DMA engine
    /// once and for all, so ownership is neither checked nor returned.
    pub fn prepare(&self) -> (preparation: Preparation)
        ensures
            preparation == (Preparation {
                start: 0,
                accesses_psram: false,
                outgoing: true,
                check_owner: Some(false),
                auto_write_back: false,
            }),
    {
        Preparation {
            start: 0,
            accesses_psram: false,
            outgoing: true,
            check_owner: Some(false),
            auto_write_back: false,
        }
    }

    /// The half that has just finished, if the report is one of the
    /// ring's.
    fn finished_half(report: EofReport) -> (half: Option<usize>)
        requires
            report.wf(),
        ensures
            half is Some <==> report.out_eof && report.in_ring(),
            half matches Some(half) ==> half == report.half() && half < HALVES_PER_FRAME,
    {
        let ring_bytes: usize = N_DESC * report.desc_size;
        if !report.out_eof || report.eof_des_addr < report.descs_base || report.eof_des_addr
            >= report.descs_base + ring_bytes {
            return None;
        }
        let desc_idx: usize = (report.eof_des_addr - report.descs_base) / report.desc_size;
        proof {
            vstd::arithmetic::div_mod::lemma_multiply_divide_lt(
                report.eof_des_addr - report.descs_base,
                report.desc_size as int,
                N_DESC as int,
            );
        }
        Some(desc_idx / DESC_PER_HALF)
    }

    /// The framebuffer that [`BounceRing::eof_isr_from`] has to be given
    /// for a report: the front one, once a swap has been taken that is
    /// due.
    pub fn eof_source(&self, report: EofReport) -> (source: Buffer)
        requires
            report.wf(),
        ensures
            source == (if report.out_eof && report.in_ring() {
                self@.source(report.half())
            } else {
                self@.front
            }),
    {
        if let Some(half) = Self::finished_half(report) {
            if (half + 2 + STARTUP_OFFSET_HALVES) % HALVES_PER_FRAME == 0 {
                if let Some(front) = self.pending {
                    return front;
                }
            }
        }
        self.front
    }

    /// EOF interrupt body. Tells whether the interrupt has to be
    /// acknowledged.
    ///
    /// Which half has just finished is taken from the descriptor address
    /// that the hardware reports, never from a count of interrupts: a
    /// count would be off for good as soon as two interrupts coalesce.
    pub fn eof_isr(&mut self, framebuffer: &Framebuffer, report: EofReport) -> (acknowledge: bool)
        requires
            old(self).wf(),
            framebuffer.wf(),
            report.wf(),
        ensures
            final(self).wf(),
            acknowledge == report.out_eof,
            final(self)@ == (if !report.out_eof {
                old(self)@
            } else if !report.in_ring() {
                old(self)@.counted()
            } else {
                old(self)@.after_eof(framebuffer.images(), report.half())
            }),
    {
        let source = self.eof_source(report);
        self.eof_isr_from(framebuffer.buffer(source), report)
    }

    /// EOF interrupt body, given the bytes of the one framebuffer that it
    /// reads, which is that of [`BounceRing::eof_source`]. The handler
    /// then needs no hold on the buffer that is being drawn into.
    pub fn eof_isr_from(&mut self, image: &[u8], report: EofReport) -> (acknowledge: bool)
        requires
            old(self).wf(),
            image@.len() >= BYTES,
            report.wf(),
        ensures
            final(self).wf(),
            acknowledge == report.out_eof,
            final(self)@ == (if !report.out_eof {
                old(self)@
            } else if !report.in_ring() {
                old(self)@.counted()
            } else {
                old(self)@.after_eof_from(image@, report.half())
            }),
    {
        if !report.out_eof {
            return false;
        }
        let just_finished_half: usize = match Self::finished_half(report) {
            Some(half) => half,
            None => {
                self.eof_count = self.eof_count.wrapping_add(1);
                assert(self@ =~= old(self)@.counted());
                return true;
            },
        };
        let next_chunk: usize = (just_finished_half + 2 + STARTUP_OFFSET_HALVES) % HALVES_PER_FRAME;
        if next_chunk == 0 {
            if let Some(front) = self.pending {
                self.front = front;
            }
            self.pending = None;
        }
        if just_finished_half % 2 == 0 {
            psram_copy_wrapping(image, next_chunk, self.bounce_a);
        } else {
            psram_copy_wrapping(image, next_chunk, self.bounce_b);
        }
        self.eof_count = self.eof_count.wrapping_add(1);
        assert(self@ =~= old(self)@.after_eof_from(image@, report.half()));
        true
    }
}

/// The state of a ring that has just been built: the first two chunks of
/// the front framebuffer are in place and nothing is queued.
pub open spec fn primed(images: Images, front: Buffer) -> RingState {
    RingState {
        a: chunk_of(images.of(front), chunk_for(0)),
        b: chunk_of(images.of(front), chunk_for(1)),
        front,
        pending: None,
        fires: 0,
    }
}

/// Queue a front-buffer swap. The interrupt handler applies it where
/// doing so yields a tear-free next frame.
///
/// A request that has not been applied yet is overwritten: only the most
/// recent one ever takes effect.
pub fn request_flip(ring: &mut BounceRing, new_front: Buffer)
    ensures
        final(ring)@ == (RingState { pending: Some(new_front), ..old(ring)@ }),
        old(ring).wf() ==> final(ring).wf(),
{
    ring.pending = Some(new_front);
}

/// True if a [`request_flip`] is queued and has not been applied yet.
pub fn is_flip_pending(ring: &BounceRing) -> (pending: bool)
    ensures
        pending == (ring@.pending is Some),
{
    ring.pending.is_some()
}

} // verus!
