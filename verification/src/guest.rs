//! The guest animation module, modelled over its own linear memory.
//!
//! The guest owns a private pixel buffer at the bottom of memory, followed
//! by its pre-rendered frame assets; the host reserves a further region at
//! the top for the host-provided buffer variant. `update` is the exported
//! entry point: it deterministically selects a pattern from the tick count
//! alone, renders it, and returns the offset of a valid pixel buffer.
//!
//! Memory layout, all offsets in bytes:
//!   - `[0, 768)`: the guest's private pixel buffer,
//!   - `[768, 768 + count * 768)`: the pre-rendered frame sequence,
//!   - following it: the sprite-sheet asset,
//!   - anything above (for instance the host's reserved region) is never
//!     read by the guest and written only through a host-provided offset.

use vstd::prelude::*;
use crate::error::FatalError;
use crate::mem::GuestMemory;
use crate::mem::MEMORY_LIMIT;
use crate::patterns::proc0001;
use crate::patterns::rainbow_cycle;
use crate::patterns::spec_checker_frame;
use crate::patterns::spec_corners_frame;
use crate::patterns::spec_rainbow_frame;
use crate::patterns::spec_white_frame;
use crate::patterns::white;
use crate::patterns::corners;
use crate::pixel::PIXEL_BUFFER_SIZE;
use crate::pixel::spec_overlay;
use crate::segments::PatternId;
use crate::segments::Segment;
use crate::segments::SegmentTable;
use crate::timing::derived_frame;
use crate::timing::spec_derived_frame;

verus! {

use vstd::arithmetic::div_mod::lemma_mod_bound;
use vstd::arithmetic::div_mod::lemma_mod_decreases;
use vstd::arithmetic::mul::lemma_mul_inequality;
use vstd::arithmetic::div_mod::lemma_fundamental_div_mod;

/// Offset of the guest's private pixel buffer.
pub const BUF_BASE: usize = 0;

/// Offset of the pre-rendered frame sequence.
pub const ANIM1_BASE: usize = PIXEL_BUFFER_SIZE;

/// Ticks reserved for the boot phase: white flash, then the corner test.
pub const BOOT_TICKS: u64 = 512;

/// First boot tick of the corner test.
pub const CORNERS_START: u64 = 256;

/// Length in ticks of the repeating steady-state cycle.
pub const CYCLE_LENGTH: u64 = 4096;

/// One frame of the sprite-sheet sequence: the slice of the asset starting
/// at `start` is shown until cycle tick `end_ticks` (exclusive); the spans'
/// cumulative end ticks are strictly increasing.
#[derive(Clone, Copy, Debug, PartialEq, Eq, Structural)]
pub struct FrameSpan {
    /// Byte offset of the frame's pixel data within the sprite-sheet asset.
    pub start: usize,
    /// Cumulative end tick of the frame.
    pub end_ticks: u64,
}

/// Index of the first span whose cumulative end tick exceeds `tt`, if any.
pub open spec fn spec_scan_spans(spans: Seq<FrameSpan>, tt: u64) -> Option<int>
    decreases spans.len(),
{
    if spans.len() == 0 {
        None
    } else if tt < spans[0].end_ticks {
        Some(0)
    } else {
        match spec_scan_spans(spans.drop_first(), tt) {
            Some(i) => Some(i + 1),
            None => None,
        }
    }
}

/// If every span ends at or before `tt`, the scan finds nothing.
proof fn lemma_scan_none(spans: Seq<FrameSpan>, tt: u64)
    requires
        forall|j: int| 0 <= j < spans.len() ==> (#[trigger] spans[j]).end_ticks <= tt,
    ensures
        spec_scan_spans(spans, tt) is None,
    decreases spans.len(),
{
    if spans.len() > 0 {
        assert(spans[0].end_ticks <= tt);
        lemma_scan_none(spans.drop_first(), tt);
    }
}

/// If `tt` falls before the end of span `k` and at or after the ends of all
/// earlier spans, the scan finds exactly `k`.
proof fn lemma_scan_found(spans: Seq<FrameSpan>, tt: u64, k: int)
    requires
        0 <= k < spans.len(),
        forall|j: int| 0 <= j < k ==> (#[trigger] spans[j]).end_ticks <= tt,
        tt < spans[k].end_ticks,
    ensures
        spec_scan_spans(spans, tt) == Some(k),
    decreases k,
{
    if k > 0 {
        lemma_scan_found(spans.drop_first(), tt, k - 1);
    }
}

/// Finds the first span whose cumulative end tick exceeds `tt`.
fn scan_spans(spans: &Vec<FrameSpan>, tt: u64) -> (r: Option<usize>)
    ensures
        match r {
            Some(k) => k < spans@.len() && spec_scan_spans(spans@, tt) == Some(k as int),
            None => spec_scan_spans(spans@, tt) is None,
        },
{
    let n = spans.len();
    let mut k: usize = 0;
    while k < n
        invariant
            n == spans@.len(),
            k <= n,
            forall|j: int| 0 <= j < k ==> (#[trigger] spans@[j]).end_ticks <= tt,
        decreases n - k,
    {
        if tt < spans[k].end_ticks {
            proof {
                lemma_scan_found(spans@, tt, k as int);
            }
            return Some(k);
        }
        k = k + 1;
    }
    proof {
        lemma_scan_none(spans@, tt);
    }
    None
}

/// The assets a guest is built from: at least one pre-rendered frame, each
/// exactly one pixel buffer; a sprite-sheet span table with positive,
/// strictly increasing cumulative end ticks, every span's data lying within
/// the sprite-sheet asset; and everything fitting below the memory limit.
pub open spec fn spec_assets_valid(frames: Seq<Seq<u8>>, data: Seq<u8>, table: Seq<
    FrameSpan,
>) -> bool {
    &&& 1 <= frames.len()
    &&& forall|k: int| 0 <= k < frames.len() ==> (#[trigger] frames[k]).len() == 768
    &&& 1 <= table.len()
    &&& forall|i: int| 0 <= i < table.len() ==> 0 < (#[trigger] table[i]).end_ticks
    &&& forall|i: int|
        0 <= i < table.len() - 1 ==> (#[trigger] table[i]).end_ticks < table[i + 1].end_ticks
    &&& forall|i: int| 0 <= i < table.len() ==> (#[trigger] table[i]).start + 768 <= data.len()
    &&& 768 + frames.len() * 768 + data.len() <= MEMORY_LIMIT
}

/// Index into the pre-rendered sequence that `t` segment ticks select
/// among `count` stored frames: the derived animation frame number, slowed
/// by a factor of 16, cycling over the stored frames.
pub open spec fn spec_anim1_index(count: int, t: u64) -> int {
    (spec_derived_frame(t) / 16) % count
}

/// The sprite-sheet cycle tick that `t` segment ticks reach: `t` reduced by
/// the total duration of the span table.
pub open spec fn spec_anim2_tick(spans: Seq<FrameSpan>, t: u64) -> u64 {
    (t % spans.last().end_ticks) as u64
}

/// The animation state machine as a pure function of the machine's state:
/// the memory contents `m` after `update(ticks, _, host)` of a guest with
/// `count` pre-rendered frames and the sprite-sheet span table `spans`. The
/// boot phase renders the white flash (first `CORNERS_START` ticks) then
/// the corner test into the host buffer; afterwards the steady-state cycle
/// of length `CYCLE_LENGTH` renders, in order, the hue sweep and the
/// checkerboard, while the two pre-rendered sequences only select a stored
/// frame and leave memory untouched — unless the sprite-sheet table has no
/// matching span, in which case the safe fallback renders white.
pub open spec fn spec_machine_mem(
    m: Seq<u8>,
    count: int,
    spans: Seq<FrameSpan>,
    ticks: u64,
    host: int,
) -> Seq<u8> {
    if ticks < CORNERS_START {
        spec_overlay(m, host, spec_white_frame())
    } else if ticks < BOOT_TICKS {
        spec_overlay(m, host, spec_corners_frame())
    } else {
        spec_steady_mem(m, count, spans, (ticks - BOOT_TICKS) as u64, host)
    }
}

/// The steady-state cycle's effect on memory at cycle tick `t`
/// (`ticks - BOOT_TICKS` of the machine).
pub open spec fn spec_steady_mem(
    m: Seq<u8>,
    count: int,
    spans: Seq<FrameSpan>,
    t: u64,
    host: int,
) -> Seq<u8> {
    let r = (t as int) % (CYCLE_LENGTH as int);
    if r < 1024 {
        spec_overlay(m, host, spec_rainbow_frame(t))
    } else if r < 2048 {
        spec_overlay(m, 0, spec_checker_frame((t - 1024) as u64, m.subrange(0, 768)))
    } else if r < 3072 {
        m
    } else {
        match spec_scan_spans(spans, spec_anim2_tick(spans, (t - 3072) as u64)) {
            Some(i) => m,
            None => spec_overlay(m, host, spec_white_frame()),
        }
    }
}

/// The buffer offset `update(ticks, _, host)` returns for a machine with
/// `count` pre-rendered frames and span table `spans`: the host buffer for
/// the patterns that render in place, the private buffer for the
/// checkerboard, and the address of the stored frame for the pre-rendered
/// sequences.
pub open spec fn spec_machine_ret(
    count: int,
    spans: Seq<FrameSpan>,
    ticks: u64,
    host: int,
) -> int {
    if ticks < BOOT_TICKS {
        host
    } else {
        spec_steady_ret(count, spans, (ticks - BOOT_TICKS) as u64, host)
    }
}

/// The buffer offset the steady-state cycle returns at cycle tick `t`.
pub open spec fn spec_steady_ret(count: int, spans: Seq<FrameSpan>, t: u64, host: int) -> int {
    let r = (t as int) % (CYCLE_LENGTH as int);
    if r < 1024 {
        host
    } else if r < 2048 {
        0
    } else if r < 3072 {
        768 + spec_anim1_index(count, (t - 2048) as u64) * 768
    } else {
        match spec_scan_spans(spans, spec_anim2_tick(spans, (t - 3072) as u64)) {
            Some(i) => 768 + count * 768 + spans[i].start,
            None => host,
        }
    }
}

/// The pixel buffer the machine leaves at the returned offset.
pub open spec fn spec_machine_frame(
    m: Seq<u8>,
    count: int,
    spans: Seq<FrameSpan>,
    ticks: u64,
    host: int,
) -> Seq<u8> {
    let ret = spec_machine_ret(count, spans, ticks, host);
    spec_machine_mem(m, count, spans, ticks, host).subrange(ret, ret + 768)
}

/// The machine's memory after one `update` per entry of `ticks_seq`, in
/// order, each passed the same host buffer offset.
pub open spec fn spec_run_mem(
    m: Seq<u8>,
    count: int,
    spans: Seq<FrameSpan>,
    ticks_seq: Seq<u64>,
    host: int,
) -> Seq<u8>
    decreases ticks_seq.len(),
{
    if ticks_seq.len() == 0 {
        m
    } else {
        spec_run_mem(
            spec_machine_mem(m, count, spans, ticks_seq[0], host),
            count,
            spans,
            ticks_seq.drop_first(),
            host,
        )
    }
}

/// The sequence of pixel buffers a run over `ticks_seq` produces: a pure
/// function of the initial memory, the asset shape and the tick sequence,
/// so two runs seeded alike render byte-identical frame sequences.
pub open spec fn spec_run_frames(
    m: Seq<u8>,
    count: int,
    spans: Seq<FrameSpan>,
    ticks_seq: Seq<u64>,
    host: int,
) -> Seq<Seq<u8>>
    decreases ticks_seq.len(),
{
    if ticks_seq.len() == 0 {
        Seq::empty()
    } else {
        seq![spec_machine_frame(m, count, spans, ticks_seq[0], host)] + spec_run_frames(
            spec_machine_mem(m, count, spans, ticks_seq[0], host),
            count,
            spans,
            ticks_seq.drop_first(),
            host,
        )
    }
}

/// `spec_machine_mem` applied to a guest's own state.
pub open spec fn spec_update_mem(g: Guest, ticks: u64, host: int) -> Seq<u8> {
    spec_machine_mem(g.mem_view(), g.anim1_count(), g.anim2_spans(), ticks, host)
}

/// `spec_machine_ret` applied to a guest's own state.
pub open spec fn spec_update_ret(g: Guest, ticks: u64, host: int) -> int {
    spec_machine_ret(g.anim1_count(), g.anim2_spans(), ticks, host)
}

/// A guest module instance: its linear memory, the two segment tables of
/// the animation state machine, and the shape of its frame assets.
pub struct Guest {
    mem: GuestMemory,
    boot_segments: SegmentTable,
    cycle_segments: SegmentTable,
    anim1_count: usize,
    anim2_table: Vec<FrameSpan>,
    anim2_len: usize,
}

impl Guest {
    /// The guest's linear memory contents.
    pub closed spec fn mem_view(self) -> Seq<u8> {
        self.mem@
    }

    /// Number of pre-rendered frames.
    pub closed spec fn anim1_count(self) -> int {
        self.anim1_count as int
    }

    /// The sprite-sheet span table.
    pub closed spec fn anim2_spans(self) -> Seq<FrameSpan> {
        self.anim2_table@
    }

    /// Length in bytes of the sprite-sheet asset.
    pub closed spec fn anim2_len(self) -> int {
        self.anim2_len as int
    }

    /// Offset of the sprite-sheet asset.
    pub open spec fn anim2_base(self) -> int {
        768 + self.anim1_count() * 768
    }

    /// Pre-rendered frame `k` as stored in guest memory.
    pub open spec fn anim1_frame(self, k: int) -> Seq<u8> {
        self.mem_view().subrange(768 + k * 768, 768 + k * 768 + 768)
    }

    /// The sprite-sheet frame stored at offset `start` of the asset.
    pub open spec fn anim2_frame(self, start: int) -> Seq<u8> {
        self.mem_view().subrange(self.anim2_base() + start, self.anim2_base() + start + 768)
    }

    /// Total duration in ticks of the sprite-sheet sequence.
    pub open spec fn anim2_total(self) -> u64 {
        self.anim2_spans().last().end_ticks
    }

    /// Well-formedness: the memory holds the private buffer and the assets
    /// below the memory limit, the span table is valid, and the two segment
    /// tables are exactly the boot and steady-state programmes.
    pub closed spec fn wf(self) -> bool {
        &&& self.mem@.len() <= MEMORY_LIMIT
        &&& 1 <= self.anim1_count
        &&& 768 + self.anim1_count * 768 + self.anim2_len <= self.mem@.len()
        &&& 1 <= self.anim2_table@.len()
        &&& forall|i: int|
            0 <= i < self.anim2_table@.len() ==> 0 < (#[trigger] self.anim2_table@[i]).end_ticks
        &&& forall|i: int|
            0 <= i < self.anim2_table@.len() - 1 ==> (#[trigger] self.anim2_table@[i]).end_ticks
                < self.anim2_table@[i + 1].end_ticks
        &&& forall|i: int|
            0 <= i < self.anim2_table@.len() ==> (#[trigger] self.anim2_table@[i]).start + 768
                <= self.anim2_len
        &&& self.boot_segments.wf()
        &&& self.boot_segments.entries@.len() == 2
        &&& self.boot_segments.entries@[0] == (Segment {
            start: 0,
            pattern: PatternId::White,
        })
        &&& self.boot_segments.entries@[1] == (Segment {
            start: CORNERS_START,
            pattern: PatternId::Corners,
        })
        &&& self.cycle_segments.wf()
        &&& self.cycle_segments.entries@.len() == 4
        &&& self.cycle_segments.entries@[0] == (Segment {
            start: 0,
            pattern: PatternId::Rainbow,
        })
        &&& self.cycle_segments.entries@[1] == (Segment {
            start: 1024,
            pattern: PatternId::Checker,
        })
        &&& self.cycle_segments.entries@[2] == (Segment {
            start: 2048,
            pattern: PatternId::PreRendered,
        })
        &&& self.cycle_segments.entries@[3] == (Segment {
            start: 3072,
            pattern: PatternId::SpriteSheet,
        })
    }

    /// Builds a guest instance from its frame assets, validating them and
    /// laying out the guest's memory: the zeroed private buffer, then the
    /// pre-rendered frames, then the sprite-sheet asset.
    #[verifier::rlimit(50)]
    pub fn new(anim1_frames: &Vec<Vec<u8>>, anim2_data: &Vec<u8>, anim2_table: &Vec<
        FrameSpan,
    >) -> (r: Result<Guest, FatalError>)
        ensures
            r is Ok <==> spec_assets_valid(
                anim1_frames.deep_view(),
                anim2_data@,
                anim2_table@,
            ),
            r is Err ==> r == Err::<Guest, FatalError>(FatalError::Configuration),
            r is Ok ==> {
                let g = r->Ok_0;
                &&& g.wf()
                &&& g.anim1_count() == anim1_frames@.len()
                &&& g.anim2_spans() == anim2_table@
                &&& g.anim2_len() == anim2_data@.len()
                &&& g.mem_view().len() == 768 + anim1_frames@.len() * 768 + anim2_data@.len()
                &&& forall|i: int| 0 <= i < 768 ==> g.mem_view()[i] == 0u8
                &&& forall|k: int|
                    0 <= k < anim1_frames@.len() ==> g.anim1_frame(k)
                        == anim1_frames.deep_view()[k]
                &&& g.mem_view().subrange(
                    g.anim2_base(),
                    g.anim2_base() + anim2_data@.len(),
                ) == anim2_data@
            },
    {
        let nf = anim1_frames.len();
        if nf == 0 {
            return Err(FatalError::Configuration);
        }
        if nf > (MEMORY_LIMIT - 768) / 768 {
            proof {
                let q = (MEMORY_LIMIT - 768) as int / 768;
                lemma_mul_inequality(q + 1, nf as int, 768);
                lemma_fundamental_div_mod((MEMORY_LIMIT - 768) as int, 768);
                lemma_mod_bound((MEMORY_LIMIT - 768) as int, 768);
                assert((q + 1) * 768 == q * 768 + 768) by (nonlinear_arith);
                assert(q * 768 == 768 * q) by (nonlinear_arith);
            }
            return Err(FatalError::Configuration);
        }
        proof {
            let q = (MEMORY_LIMIT - 768) as int / 768;
            lemma_mul_inequality(nf as int, q, 768);
            lemma_fundamental_div_mod((MEMORY_LIMIT - 768) as int, 768);
            lemma_mod_bound((MEMORY_LIMIT - 768) as int, 768);
            assert(q * 768 == 768 * q) by (nonlinear_arith);
        }
        let assets_end: usize = 768 + nf * 768;
        if anim2_data.len() > MEMORY_LIMIT - assets_end {
            return Err(FatalError::Configuration);
        }
        let total_size: usize = assets_end + anim2_data.len();

        let mut k: usize = 0;
        while k < nf
            invariant
                nf == anim1_frames@.len(),
                k <= nf,
                forall|j: int|
                    0 <= j < k ==> (#[trigger] anim1_frames.deep_view()[j]).len() == 768,
            decreases nf - k,
        {
            proof {
                assert(anim1_frames.deep_view()[k as int] == anim1_frames@[k as int]@);
            }
            if anim1_frames[k].len() != 768 {
                return Err(FatalError::Configuration);
            }
            k = k + 1;
        }

        let nt = anim2_table.len();
        if nt == 0 {
            return Err(FatalError::Configuration);
        }
        let mut i: usize = 0;
        while i < nt
            invariant
                nt == anim2_table@.len(),
                i <= nt,
                forall|j: int| 0 <= j < i ==> 0 < (#[trigger] anim2_table@[j]).end_ticks,
                forall|j: int|
                    0 <= j < i && j < nt - 1 ==> (#[trigger] anim2_table@[j]).end_ticks
                        < anim2_table@[j + 1].end_ticks,
                forall|j: int|
                    0 <= j < i ==> (#[trigger] anim2_table@[j]).start + 768
                        <= anim2_data@.len(),
            decreases nt - i,
        {
            let span = anim2_table[i];
            if span.end_ticks == 0 {
                return Err(FatalError::Configuration);
            }
            if i + 1 < nt && span.end_ticks >= anim2_table[i + 1].end_ticks {
                return Err(FatalError::Configuration);
            }
            if span.start > anim2_data.len() || anim2_data.len() - span.start < 768 {
                return Err(FatalError::Configuration);
            }
            i = i + 1;
        }

        let mut mem = GuestMemory::new(total_size);
        let mut k: usize = 0;
        while k < nf
            invariant
                nf == anim1_frames@.len(),
                k <= nf,
                forall|j: int|
                    0 <= j < nf ==> (#[trigger] anim1_frames.deep_view()[j]).len() == 768,
                mem@.len() == total_size,
                total_size == 768 + nf * 768 + anim2_data@.len(),
                forall|i: int| 0 <= i < 768 ==> mem@[i] == 0u8,
                forall|j: int, b: int|
                    0 <= j < k && 0 <= b < 768 ==> mem@[768 + j * 768 + b] == (
                    #[trigger] anim1_frames.deep_view()[j][b]),
                forall|i: int| 768 + k * 768 <= i < total_size ==> mem@[i] == 0u8,
            decreases nf - k,
        {
            let ghost pre = mem@;
            proof {
                assert(anim1_frames.deep_view()[k as int] == anim1_frames@[k as int]@);
                lemma_mul_inequality(k as int + 1, nf as int, 768);
            }
            mem.write_region(768 + k * 768, &anim1_frames[k]);
            proof {
                assert forall|j: int, b: int|
                    0 <= j < k + 1 && 0 <= b < 768 implies mem@[768 + j * 768 + b] == (
                    #[trigger] anim1_frames.deep_view()[j][b]) by {
                    if j < k {
                        assert(768 + j * 768 + b < 768 + k * 768) by {
                            lemma_mul_inequality(j + 1, k as int, 768);
                        }
                        assert(pre[768 + j * 768 + b] == anim1_frames.deep_view()[j][b]);
                    }
                }
            }
            k = k + 1;
        }
        let anim2_base: usize = 768 + nf * 768;
        let ghost pre = mem@;
        mem.write_region(anim2_base, anim2_data);

        let mut boot_entries: Vec<Segment> = Vec::new();
        boot_entries.push(Segment { start: 0, pattern: PatternId::White });
        boot_entries.push(Segment { start: CORNERS_START, pattern: PatternId::Corners });
        let boot_segments = SegmentTable { entries: boot_entries };

        let mut cycle_entries: Vec<Segment> = Vec::new();
        cycle_entries.push(Segment { start: 0, pattern: PatternId::Rainbow });
        cycle_entries.push(Segment { start: 1024, pattern: PatternId::Checker });
        cycle_entries.push(Segment { start: 2048, pattern: PatternId::PreRendered });
        cycle_entries.push(Segment { start: 3072, pattern: PatternId::SpriteSheet });
        let cycle_segments = SegmentTable { entries: cycle_entries };

        let g = Guest {
            mem,
            boot_segments,
            cycle_segments,
            anim1_count: nf,
            anim2_table: anim2_table.clone(),
            anim2_len: anim2_data.len(),
        };
        proof {
            assert(g.anim2_table@ =~= anim2_table@);
            assert forall|kk: int| 0 <= kk < nf implies g.anim1_frame(kk)
                == anim1_frames.deep_view()[kk] by {
                assert(anim1_frames.deep_view()[kk].len() == 768);
                assert(768 + kk * 768 + 768 <= 768 + nf as int * 768) by {
                    lemma_mul_inequality(kk + 1, nf as int, 768);
                }
                assert forall|b: int| 0 <= b < 768 implies g.anim1_frame(kk)[b]
                    == anim1_frames.deep_view()[kk][b] by {
                    assert(pre[768 + kk * 768 + b] == anim1_frames.deep_view()[kk][b]);
                    assert(768 + kk * 768 + b < anim2_base);
                }
                assert(g.anim1_frame(kk) =~= anim1_frames.deep_view()[kk]);
            }
            assert(g.mem_view().subrange(
                g.anim2_base(),
                g.anim2_base() + anim2_data@.len(),
            ) =~= anim2_data@);
        }
        Ok(g)
    }

    /// Offset of the guest's private pixel buffer, as the guest ABI exposes
    /// it.
    pub fn buffer_ptr(&self) -> (o: usize)
        ensures
            o == BUF_BASE,
    {
        BUF_BASE
    }

    /// Writes one byte of the private pixel buffer; the offset must lie
    /// within it.
    pub fn mem_write(&mut self, offset: u32, value: u32)
        requires
            old(self).wf(),
            offset < 768,
        ensures
            final(self).wf(),
            final(self).mem_view() == old(self).mem_view().update(
                offset as int,
                (value as u8),
            ),
            final(self).anim1_count() == old(self).anim1_count(),
            final(self).anim2_spans() == old(self).anim2_spans(),
            final(self).anim2_len() == old(self).anim2_len(),
    {
        proof {
            lemma_mul_inequality(1, old(self).anim1_count as int, 768);
        }
        self.mem.write_byte(offset as usize, value as u8);
    }

    /// Reads one byte of the private pixel buffer; the offset must lie
    /// within it.
    pub fn mem_read(&self, offset: u32) -> (v: u32)
        requires
            self.wf(),
            offset < 768,
        ensures
            v == self.mem_view()[offset as int] as u32,
    {
        proof {
            lemma_mul_inequality(1, self.anim1_count as int, 768);
        }
        self.mem.read_byte(offset as usize) as u32
    }

    /// One-time setup after instantiation: zeroes the private pixel buffer.
    pub fn init(&mut self)
        requires
            old(self).wf(),
        ensures
            final(self).wf(),
            final(self).mem_view().len() == old(self).mem_view().len(),
            forall|i: int|
                0 <= i < final(self).mem_view().len() ==> final(self).mem_view()[i] == if i
                    < 768 {
                    0u8
                } else {
                    old(self).mem_view()[i]
                },
            final(self).anim1_count() == old(self).anim1_count(),
            final(self).anim2_spans() == old(self).anim2_spans(),
            final(self).anim2_len() == old(self).anim2_len(),
    {
        proof {
            lemma_mul_inequality(1, old(self).anim1_count as int, 768);
        }
        self.mem.fill_region(BUF_BASE, PIXEL_BUFFER_SIZE, 0);
    }

    /// Grows the guest's memory by whole pages, as the host's setup
    /// protocol does to reserve its buffer region.
    pub fn grow_memory(&mut self, pages: usize) -> (r: Result<(), FatalError>)
        requires
            old(self).wf(),
        ensures
            r is Ok <==> old(self).mem_view().len() + pages * crate::mem::PAGE_SIZE
                <= MEMORY_LIMIT,
            r is Err ==> {
                &&& final(self).wf()
                &&& final(self).mem_view() == old(self).mem_view()
                &&& final(self).anim1_count() == old(self).anim1_count()
                &&& final(self).anim2_spans() == old(self).anim2_spans()
                &&& final(self).anim2_len() == old(self).anim2_len()
                &&& r == Err::<(), FatalError>(FatalError::ResourceExhaustion)
            },
            r is Ok ==> {
                &&& final(self).wf()
                &&& final(self).mem_view().len() == old(self).mem_view().len() + pages
                    * crate::mem::PAGE_SIZE
                &&& forall|i: int|
                    0 <= i < old(self).mem_view().len() ==> final(self).mem_view()[i]
                        == old(self).mem_view()[i]
                &&& forall|i: int|
                    old(self).mem_view().len() <= i < final(self).mem_view().len()
                        ==> final(self).mem_view()[i] == 0u8
                &&& final(self).anim1_count() == old(self).anim1_count()
                &&& final(self).anim2_spans() == old(self).anim2_spans()
                &&& final(self).anim2_len() == old(self).anim2_len()
            },
    {
        self.mem.grow_pages(pages)
    }

    /// Current size of the guest's memory in bytes.
    pub fn memory_size(&self) -> (n: usize)
        ensures
            n == self.mem_view().len(),
    {
        self.mem.size()
    }

    /// Renders the frame for `ticks` and returns the offset of a valid
    /// pixel buffer inside guest memory: `host_base` for the patterns that
    /// write the host-provided buffer, the private buffer for the
    /// checkerboard, and the address of a stored asset frame for the
    /// pre-rendered sequences. The result is exactly
    /// `spec_update_mem` / `spec_update_ret`: a function of the tick count
    /// and the prior memory contents alone. The `frame` counter is
    /// bookkeeping and does not influence selection or rendering.
    #[allow(unused_variables)]
    #[verifier::rlimit(100)]
    pub fn update(&mut self, ticks: u64, frame: u64, host_base: usize) -> (ret: usize)
        requires
            old(self).wf(),
            host_base + PIXEL_BUFFER_SIZE <= old(self).mem_view().len(),
        ensures
            final(self).wf(),
            final(self).anim1_count() == old(self).anim1_count(),
            final(self).anim2_spans() == old(self).anim2_spans(),
            final(self).anim2_len() == old(self).anim2_len(),
            final(self).mem_view() == spec_update_mem(*old(self), ticks, host_base as int),
            ret == spec_update_ret(*old(self), ticks, host_base as int),
            ret + PIXEL_BUFFER_SIZE <= final(self).mem_view().len(),
    {
        proof {
            lemma_mul_inequality(1, old(self).anim1_count as int, 768);
        }
        if ticks < BOOT_TICKS {
            let r = ticks % BOOT_TICKS;
            proof {
                vstd::arithmetic::div_mod::lemma_small_mod(ticks as nat, BOOT_TICKS as nat);
            }
            let k = self.boot_segments.select(r);
            match self.boot_segments.entries[k].pattern {
                PatternId::White => {
                    white(&mut self.mem, host_base);
                    host_base
                },
                PatternId::Corners => {
                    corners(&mut self.mem, host_base);
                    host_base
                },
                _ => {
                    proof {
                        assert(false);
                    }
                    host_base
                },
            }
        } else {
            let t = ticks - BOOT_TICKS;
            let r = t % CYCLE_LENGTH;
            proof {
                lemma_mod_bound(t as int, CYCLE_LENGTH as int);
                lemma_mod_decreases(t as nat, CYCLE_LENGTH as nat);
            }
            let k = self.cycle_segments.select(r);
            match self.cycle_segments.entries[k].pattern {
                PatternId::Rainbow => {
                    rainbow_cycle(&mut self.mem, host_base, t);
                    host_base
                },
                PatternId::Checker => {
                    proc0001(&mut self.mem, BUF_BASE, t - 1024);
                    BUF_BASE
                },
                PatternId::PreRendered => {
                    self.anim0001(t - 2048)
                },
                PatternId::SpriteSheet => {
                    self.anim0002(t - 3072, host_base)
                },
                _ => {
                    proof {
                        assert(false);
                    }
                    host_base
                },
            }
        }
    }

    /// Selects the active frame of the pre-rendered sequence for segment
    /// tick `ticks` and returns the offset of its stored pixel data: pure
    /// address selection into the guest-owned assets, no pixel is written.
    pub fn anim0001(&self, ticks: u64) -> (ret: usize)
        requires
            self.wf(),
        ensures
            ret == 768 + spec_anim1_index(self.anim1_count(), ticks) * 768,
            ret + PIXEL_BUFFER_SIZE <= self.mem_view().len(),
    {
        let f = derived_frame(ticks);
        let af = (f / 16) % (self.anim1_count as u64);
        proof {
            lemma_mod_bound((f / 16) as int, self.anim1_count as int);
            lemma_mul_inequality(af as int + 1, self.anim1_count as int, 768);
        }
        ANIM1_BASE + (af as usize) * PIXEL_BUFFER_SIZE
    }

    /// Looks the segment tick up in the sprite-sheet span table and
    /// returns the offset of the stored frame whose cumulative end tick is
    /// the first to exceed it. Should the table match nothing, the safe
    /// fallback renders the white frame into the host buffer rather than
    /// reading out of bounds.
    pub fn anim0002(&mut self, ticks: u64, host_base: usize) -> (ret: usize)
        requires
            old(self).wf(),
            host_base + PIXEL_BUFFER_SIZE <= old(self).mem_view().len(),
        ensures
            final(self).wf(),
            final(self).anim1_count() == old(self).anim1_count(),
            final(self).anim2_spans() == old(self).anim2_spans(),
            final(self).anim2_len() == old(self).anim2_len(),
            ({
                let tt = spec_anim2_tick(old(self).anim2_spans(), ticks);
                match spec_scan_spans(old(self).anim2_spans(), tt) {
                    Some(i) => final(self).mem_view() == old(self).mem_view() && ret == old(
                        self,
                    ).anim2_base() + old(self).anim2_spans()[i].start,
                    None => final(self).mem_view() == spec_overlay(
                        old(self).mem_view(),
                        host_base as int,
                        spec_white_frame(),
                    ) && ret == host_base,
                }
            }),
            ret + PIXEL_BUFFER_SIZE <= final(self).mem_view().len(),
    {
        proof {
            lemma_mul_inequality(1, old(self).anim1_count as int, 768);
        }
        let total = self.anim2_table[self.anim2_table.len() - 1].end_ticks;
        let tt = ticks % total;
        match scan_spans(&self.anim2_table, tt) {
            Some(kk) => {
                let base = ANIM1_BASE + self.anim1_count * PIXEL_BUFFER_SIZE;
                base + self.anim2_table[kk].start
            },
            None => {
                white(&mut self.mem, host_base);
                host_base
            },
        }
    }

    /// Copies a whole pixel buffer out of guest memory, validating the
    /// offset first, as the host's copy-out step.
    pub fn copy_frame(&self, offset: usize) -> (r: Result<Vec<u8>, FatalError>)
        ensures
            r is Ok <==> offset + PIXEL_BUFFER_SIZE <= self.mem_view().len(),
            r is Err ==> r == Err::<Vec<u8>, FatalError>(FatalError::BoundsViolation),
            r is Ok ==> r->Ok_0@ == self.mem_view().subrange(
                offset as int,
                offset as int + 768,
            ),
    {
        self.mem.copy_out(offset, PIXEL_BUFFER_SIZE)
    }
}

} // verus!
