//! The host render loop over a guest instance.
//!
//! Per cycle the host computes the elapsed ticks, calls the guest's
//! `update`, copies the returned pixel buffer out of guest memory under the
//! bounds check, and reorders it with the serpentine mapping for the
//! physical strip. Setup reserves the host-provided buffer region by
//! growing guest memory and records its base offset.

use vstd::prelude::*;
use crate::error::FatalError;
use crate::guest::Guest;
use crate::guest::spec_update_mem;
use crate::pixel::PIXEL_BUFFER_SIZE;
use crate::pixel::PIXEL_HEIGHT;
use crate::pixel::PIXEL_WIDTH;
use crate::pixel::offset;
use crate::pixel::spec_offset;
use crate::serpentine::lemma_serpentine_injective;
use crate::serpentine::lemma_serpentine_invertible;
use crate::serpentine::serpentine_index;
use crate::serpentine::spec_serpentine;
use crate::timing::TICKS_PER_SECOND;

verus! {

/// Physical byte index that channel `c` of logical pixel `(x, y)` maps to.
pub open spec fn spec_mapped_byte(x: int, y: int, c: int) -> int {
    spec_serpentine(x, y, 16, 16) * 3 + c
}

/// Byte index of channel `c` of pixel `(x, y)` in a logical frame.
pub open spec fn spec_source_byte(x: int, y: int, c: int) -> int {
    spec_offset(x, y) + c
}

/// The frame `update(ticks, _, host)` leaves at the returned offset.
pub open spec fn spec_update_frame(g: Guest, ticks: u64, host: int) -> Seq<u8> {
    crate::guest::spec_machine_frame(
        g.mem_view(),
        g.anim1_count(),
        g.anim2_spans(),
        ticks,
        host,
    )
}

/// Ticks elapsed after `elapsed_ms` milliseconds:
/// `elapsed_ms * TICKS_PER_SECOND / 1000`.
pub open spec fn spec_ticks_from_millis(elapsed_ms: u64) -> int {
    (elapsed_ms * TICKS_PER_SECOND) / 1000
}

/// Derives the tick count from a monotonic millisecond clock reading.
pub fn ticks_from_millis(elapsed_ms: u64) -> (t: u64)
    ensures
        t == spec_ticks_from_millis(elapsed_ms),
{
    let e128: u128 = elapsed_ms as u128;
    proof {
        assert(e128 * 256 <= 0xFFFF_FFFF_FFFF_FFFFu128 * 256) by (nonlinear_arith)
            requires
                e128 <= 0xFFFF_FFFF_FFFF_FFFFu128,
        ;
    }
    let wide: u128 = e128 * (TICKS_PER_SECOND as u128) / 1000;
    proof {
        let e = elapsed_ms as int;
        assert((e * 256) / 1000 <= (e * 256) / 256 < 0x1_0000_0000_0000_0000) by {
            vstd::arithmetic::div_mod::lemma_div_is_ordered_by_denominator(e * 256, 256, 1000);
            vstd::arithmetic::div_mod::lemma_div_multiples_vanish(e, 256);
            vstd::arithmetic::mul::lemma_mul_is_commutative(e, 256);
            vstd::arithmetic::mul::lemma_mul_nonnegative(e, 256);
        }
    }
    wide as u64
}

/// Reorders a logical pixel frame into physical strip order: the three
/// bytes of logical pixel `(x, y)` land at the serpentine index of that
/// coordinate.
pub fn map_frame(frame: &Vec<u8>) -> (out: Vec<u8>)
    requires
        frame@.len() == PIXEL_BUFFER_SIZE,
    ensures
        out@.len() == PIXEL_BUFFER_SIZE,
        forall|x: int, y: int, c: int|
            0 <= x < 16 && 0 <= y < 16 && 0 <= c < 3 ==> out@[#[trigger] spec_mapped_byte(
                x,
                y,
                c,
            )] == frame@[spec_source_byte(x, y, c)],
{
    let mut out: Vec<u8> = Vec::new();
    let mut k: usize = 0;
    while k < PIXEL_BUFFER_SIZE
        invariant
            k <= PIXEL_BUFFER_SIZE,
            out@.len() == k,
        decreases PIXEL_BUFFER_SIZE - k,
    {
        out.push(0);
        k = k + 1;
    }
    let mut y: usize = 0;
    while y < PIXEL_HEIGHT
        invariant
            y <= PIXEL_HEIGHT,
            out@.len() == PIXEL_BUFFER_SIZE,
            frame@.len() == PIXEL_BUFFER_SIZE,
            forall|xq: int, yq: int, c: int|
                0 <= xq < 16 && 0 <= yq < y && 0 <= c < 3 ==> out@[#[trigger] spec_mapped_byte(
                    xq,
                    yq,
                    c,
                )] == frame@[spec_source_byte(xq, yq, c)],
        decreases PIXEL_HEIGHT - y,
    {
        let mut x: usize = 0;
        while x < PIXEL_WIDTH
            invariant
                x <= PIXEL_WIDTH,
                y < PIXEL_HEIGHT,
                out@.len() == PIXEL_BUFFER_SIZE,
                frame@.len() == PIXEL_BUFFER_SIZE,
                forall|xq: int, yq: int, c: int|
                    0 <= xq < 16 && 0 <= yq < 16 && 0 <= c < 3 && (yq < y || (yq == y && xq
                        < x)) ==> out@[#[trigger] spec_mapped_byte(xq, yq, c)] == frame@[
                        spec_source_byte(xq, yq, c)],
            decreases PIXEL_WIDTH - x,
        {
            let idx = serpentine_index(x, y, PIXEL_WIDTH, PIXEL_HEIGHT);
            let src = offset(x, y);
            let ghost pre = out@;
            proof {
                lemma_serpentine_invertible(x as int, y as int, 16, 16);
            }
            let b0 = frame[src];
            let b1 = frame[src + 1];
            let b2 = frame[src + 2];
            out.set(idx * 3, b0);
            out.set(idx * 3 + 1, b1);
            out.set(idx * 3 + 2, b2);
            proof {
                assert forall|xq: int, yq: int, c: int|
                    0 <= xq < 16 && 0 <= yq < 16 && 0 <= c < 3 && (yq < y || (yq == y && xq
                        <= x)) implies out@[#[trigger] spec_mapped_byte(xq, yq, c)] == frame@[
                    spec_source_byte(xq, yq, c)] by {
                    lemma_serpentine_invertible(xq, yq, 16, 16);
                    if xq == x && yq == y {
                    } else {
                        if spec_serpentine(xq, yq, 16, 16) == spec_serpentine(
                            x as int,
                            y as int,
                            16,
                            16,
                        ) {
                            lemma_serpentine_injective(xq, yq, x as int, y as int, 16, 16);
                        }
                        assert(pre[spec_mapped_byte(xq, yq, c)] == frame@[spec_source_byte(
                            xq,
                            yq,
                            c,
                        )]);
                    }
                }
            }
            x = x + 1;
        }
        y = y + 1;
    }
    out
}

/// Renders one frame per entry of `ticks_list`, in order, and collects the
/// copied-out pixel buffers. The result is exactly `spec_run_frames` of the
/// guest's initial state: a pure function of the initial memory, the asset
/// shape and the tick sequence, so two runs seeded alike produce identical
/// frame sequences.
pub fn run_frames(g: &mut Guest, ticks_list: &Vec<u64>, host_base: usize) -> (out: Vec<
    Vec<u8>,
>)
    requires
        old(g).wf(),
        host_base + PIXEL_BUFFER_SIZE <= old(g).mem_view().len(),
    ensures
        final(g).wf(),
        final(g).mem_view().len() == old(g).mem_view().len(),
        out.deep_view() == crate::guest::spec_run_frames(
            old(g).mem_view(),
            old(g).anim1_count(),
            old(g).anim2_spans(),
            ticks_list@,
            host_base as int,
        ),
{
    let ghost m0 = old(g).mem_view();
    let ghost count = old(g).anim1_count();
    let ghost spans = old(g).anim2_spans();
    let mut out: Vec<Vec<u8>> = Vec::new();
    let n = ticks_list.len();
    let mut i: usize = 0;
    while i < n
        invariant
            n == ticks_list@.len(),
            i <= n,
            g.wf(),
            g.anim1_count() == count,
            g.anim2_spans() == spans,
            g.mem_view().len() == m0.len(),
            host_base + PIXEL_BUFFER_SIZE <= m0.len(),
            g.mem_view() == crate::guest::spec_run_mem(
                m0,
                count,
                spans,
                ticks_list@.take(i as int),
                host_base as int,
            ),
            out.deep_view() == crate::guest::spec_run_frames(
                m0,
                count,
                spans,
                ticks_list@.take(i as int),
                host_base as int,
            ),
        decreases n - i,
    {
        let ghost pre = *g;
        let ghost out_pre = out.deep_view();
        let t = ticks_list[i];
        let ret = g.update(t, i as u64, host_base);
        let fr = match g.copy_frame(ret) {
            Ok(fr) => fr,
            Err(_) => {
                // The verified guest cannot return an out-of-range offset.
                proof {
                    assert(false);
                }
                Vec::new()
            },
        };
        out.push(fr);
        proof {
            assert(ticks_list@.take(i + 1) =~= ticks_list@.take(i as int).push(t));
            crate::laws::lemma_run_push(
                m0,
                count,
                spans,
                ticks_list@.take(i as int),
                t,
                host_base as int,
            );
            assert(fr@ == crate::guest::spec_machine_frame(
                pre.mem_view(),
                count,
                spans,
                t,
                host_base as int,
            ));
            assert(out.deep_view() =~~= out_pre.push(fr@));
        }
        i = i + 1;
    }
    proof {
        assert(ticks_list@.take(n as int) =~= ticks_list@);
    }
    out
}

/// Host-side state of the render loop: the reserved buffer region's base
/// offset, the cycle bookkeeping counter, and the last tick driven, which
/// never decreases across a run.
pub struct HostRunner {
    /// Base offset of the host-provided buffer region in guest memory.
    pub host_base: usize,
    /// Completed render cycles, incremented once per cycle.
    pub frame_count: u64,
    /// The tick count of the most recent cycle.
    pub last_ticks: u64,
}

impl HostRunner {
    /// The runner fits the guest: its reserved region lies inside the
    /// guest's memory.
    pub open spec fn matches(self, g: Guest) -> bool {
        &&& g.wf()
        &&& self.host_base + PIXEL_BUFFER_SIZE <= g.mem_view().len()
    }

    /// Sets a guest up for rendering: reserves one page of guest memory
    /// above the current top as the host-provided buffer region, checks the
    /// reservation fits, and calls the guest's one-time `init`. Fails
    /// exactly when memory cannot grow by a page.
    pub fn setup(g: &mut Guest) -> (r: Result<HostRunner, FatalError>)
        requires
            old(g).wf(),
        ensures
            r is Ok <==> old(g).mem_view().len() + crate::mem::PAGE_SIZE
                <= crate::mem::MEMORY_LIMIT,
            r is Err ==> r == Err::<HostRunner, FatalError>(FatalError::ResourceExhaustion)
                && final(g).wf() && final(g).mem_view() == old(g).mem_view(),
            r is Ok ==> {
                let runner = r->Ok_0;
                &&& runner.matches(*final(g))
                &&& runner.host_base == old(g).mem_view().len()
                &&& runner.frame_count == 0
                &&& runner.last_ticks == 0
                &&& final(g).mem_view().len() == old(g).mem_view().len()
                    + crate::mem::PAGE_SIZE
                &&& final(g).anim1_count() == old(g).anim1_count()
                &&& final(g).anim2_spans() == old(g).anim2_spans()
                &&& forall|i: int|
                    0 <= i < final(g).mem_view().len() ==> final(g).mem_view()[i] == if i
                        < 768 {
                        0u8
                    } else if i < old(g).mem_view().len() {
                        old(g).mem_view()[i]
                    } else {
                        0u8
                    }
            },
    {
        let host_base = g.memory_size();
        match g.grow_memory(1) {
            Ok(()) => {},
            Err(e) => {
                return Err(e);
            },
        }
        if host_base > g.memory_size() || g.memory_size() - host_base < PIXEL_BUFFER_SIZE {
            // One page always covers a pixel buffer, but the reservation is
            // asserted rather than assumed.
            return Err(FatalError::ResourceExhaustion);
        }
        g.init();
        Ok(HostRunner { host_base, frame_count: 0, last_ticks: 0 })
    }

    /// Drives one render cycle at `ticks`: calls the guest's `update`,
    /// validates the returned offset and copies the frame out, reorders it
    /// for the strip, and advances the cycle counter. Ticks never move
    /// backward across cycles.
    pub fn cycle(&mut self, g: &mut Guest, ticks: u64) -> (out: Vec<u8>)
        requires
            old(self).matches(*old(g)),
            ticks >= old(self).last_ticks,
            old(self).frame_count < u64::MAX,
        ensures
            final(self).matches(*final(g)),
            final(self).host_base == old(self).host_base,
            final(self).frame_count == old(self).frame_count + 1,
            final(self).last_ticks == ticks,
            final(g).mem_view() == spec_update_mem(*old(g), ticks, old(self).host_base as int),
            final(g).anim1_count() == old(g).anim1_count(),
            final(g).anim2_spans() == old(g).anim2_spans(),
            out@.len() == PIXEL_BUFFER_SIZE,
            forall|x: int, y: int, c: int|
                0 <= x < 16 && 0 <= y < 16 && 0 <= c < 3 ==> out@[#[trigger] spec_mapped_byte(
                    x,
                    y,
                    c,
                )] == spec_update_frame(*old(g), ticks, old(self).host_base as int)[
                    spec_source_byte(x, y, c)],
    {
        let ret = g.update(ticks, self.frame_count, self.host_base);
        let frame = match g.copy_frame(ret) {
            Ok(frame) => frame,
            Err(_) => {
                // The verified guest cannot return an out-of-range offset.
                proof {
                    assert(false);
                }
                Vec::new()
            },
        };
        let out = map_frame(&frame);
        self.frame_count = self.frame_count + 1;
        self.last_ticks = ticks;
        out
    }
}

} // verus!
