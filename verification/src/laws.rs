//! The stated laws of the rendering contract.
//!
//! These proof functions record, as verified statements, the properties the
//! library promises beyond the individual function contracts: determinism
//! of rendering, the boot-phase selection windows, the shape of the frame
//! each segment produces, and the reproducibility of whole runs.

use vstd::prelude::*;
use crate::guest::BOOT_TICKS;
use crate::guest::CORNERS_START;
use crate::guest::CYCLE_LENGTH;
use crate::guest::FrameSpan;
use crate::guest::Guest;
use crate::guest::spec_anim1_index;
use crate::guest::spec_anim2_tick;
use crate::guest::spec_machine_frame;
use crate::guest::spec_machine_mem;
use crate::guest::spec_machine_ret;
use crate::guest::spec_run_frames;
use crate::guest::spec_run_mem;
use crate::guest::spec_scan_spans;
use crate::guest::spec_steady_mem;
use crate::guest::spec_steady_ret;
use crate::guest::spec_update_mem;
use crate::guest::spec_update_ret;
use crate::host::spec_update_frame;
use crate::patterns::spec_checker_frame;
use crate::patterns::spec_corners_frame;
use crate::patterns::spec_rainbow_frame;
use crate::patterns::spec_white_frame;
use crate::pixel::spec_overlay;

verus! {

use vstd::arithmetic::div_mod::lemma_mod_bound;
use vstd::arithmetic::mul::lemma_mul_inequality;

/// Rendering is a deterministic function of its inputs: two guests whose
/// memory and asset shape agree produce byte-identical memory, offsets and
/// pixel buffers for the same tick.
pub proof fn lemma_update_deterministic(g1: Guest, g2: Guest, ticks: u64, host: int)
    requires
        g1.mem_view() == g2.mem_view(),
        g1.anim1_count() == g2.anim1_count(),
        g1.anim2_spans() == g2.anim2_spans(),
    ensures
        spec_update_mem(g1, ticks, host) == spec_update_mem(g2, ticks, host),
        spec_update_ret(g1, ticks, host) == spec_update_ret(g2, ticks, host),
        spec_update_frame(g1, ticks, host) == spec_update_frame(g2, ticks, host),
{
}

/// The boot-phase windows: the white flash owns the first `CORNERS_START`
/// ticks, the corner test the rest of the boot phase, and from `BOOT_TICKS`
/// on the steady-state cycle applies to `ticks - BOOT_TICKS`.
pub proof fn lemma_boot_phase(
    m: Seq<u8>,
    count: int,
    spans: Seq<FrameSpan>,
    ticks: u64,
    host: int,
)
    ensures
        ticks < CORNERS_START ==> spec_machine_mem(m, count, spans, ticks, host)
            == spec_overlay(m, host, spec_white_frame()) && spec_machine_ret(
            count,
            spans,
            ticks,
            host,
        ) == host,
        CORNERS_START <= ticks < BOOT_TICKS ==> spec_machine_mem(m, count, spans, ticks, host)
            == spec_overlay(m, host, spec_corners_frame()) && spec_machine_ret(
            count,
            spans,
            ticks,
            host,
        ) == host,
        BOOT_TICKS <= ticks ==> spec_machine_mem(m, count, spans, ticks, host)
            == spec_steady_mem(m, count, spans, (ticks - BOOT_TICKS) as u64, host)
            && spec_machine_ret(count, spans, ticks, host) == spec_steady_ret(
            count,
            spans,
            (ticks - BOOT_TICKS) as u64,
            host,
        ),
{
}

/// A scan that finds a span returns an index into the table.
pub proof fn lemma_scan_spans_bounds(spans: Seq<FrameSpan>, tt: u64)
    ensures
        spec_scan_spans(spans, tt) matches Some(i) ==> 0 <= i < spans.len(),
    decreases spans.len(),
{
    if spans.len() > 0 && tt >= spans[0].end_ticks {
        lemma_scan_spans_bounds(spans.drop_first(), tt);
    }
}

/// The pixel buffer each segment leaves at the returned offset: the flat
/// frames of the boot phase, the hue sweep, the checkerboard over the
/// private buffer's prior contents, the stored pre-rendered frame, and the
/// stored sprite-sheet frame — or the white fallback where the span table
/// matches nothing.
pub proof fn lemma_machine_frame(
    m: Seq<u8>,
    count: int,
    spans: Seq<FrameSpan>,
    ticks: u64,
    host: int,
)
    requires
        0 <= host,
        host + 768 <= m.len(),
        1 <= count,
        768 + count * 768 <= m.len(),
        1 <= spans.len(),
        forall|i: int|
            0 <= i < spans.len() ==> 768 + count * 768 + (#[trigger] spans[i]).start + 768
                <= m.len(),
    ensures
        ticks < CORNERS_START ==> spec_machine_frame(m, count, spans, ticks, host)
            == spec_white_frame(),
        CORNERS_START <= ticks < BOOT_TICKS ==> spec_machine_frame(m, count, spans, ticks, host)
            == spec_corners_frame(),
        BOOT_TICKS <= ticks ==> {
            let t = (ticks - BOOT_TICKS) as u64;
            let r = (t as int) % (CYCLE_LENGTH as int);
            &&& r < 1024 ==> spec_machine_frame(m, count, spans, ticks, host)
                == spec_rainbow_frame(t)
            &&& 1024 <= r < 2048 ==> spec_machine_frame(m, count, spans, ticks, host)
                == spec_checker_frame((t - 1024) as u64, m.subrange(0, 768))
            &&& 2048 <= r < 3072 ==> {
                let idx = spec_anim1_index(count, (t - 2048) as u64);
                spec_machine_frame(m, count, spans, ticks, host) == m.subrange(
                    768 + idx * 768,
                    768 + idx * 768 + 768,
                )
            }
            &&& 3072 <= r ==> match spec_scan_spans(spans, spec_anim2_tick(spans, (t
                - 3072) as u64)) {
                Some(i) => spec_machine_frame(m, count, spans, ticks, host) == m.subrange(
                    768 + count * 768 + spans[i].start,
                    768 + count * 768 + spans[i].start + 768,
                ),
                None => spec_machine_frame(m, count, spans, ticks, host)
                    == spec_white_frame(),
            }
        },
{
    let ret = spec_machine_ret(count, spans, ticks, host);
    let mm = spec_machine_mem(m, count, spans, ticks, host);
    if ticks < BOOT_TICKS {
        lemma_overlay_extract(m, host, if ticks < CORNERS_START {
            spec_white_frame()
        } else {
            spec_corners_frame()
        });
    } else {
        let t = (ticks - BOOT_TICKS) as u64;
        let r = (t as int) % (CYCLE_LENGTH as int);
        lemma_mod_bound(t as int, CYCLE_LENGTH as int);
        if r < 1024 {
            lemma_overlay_extract(m, host, spec_rainbow_frame(t));
        } else if r < 2048 {
            lemma_overlay_extract(m, 0, spec_checker_frame((t - 1024) as u64, m.subrange(0, 768)));
        } else if r < 3072 {
            let idx = spec_anim1_index(count, (t - 2048) as u64);
            lemma_mod_bound(crate::timing::spec_derived_frame((t - 2048) as u64) / 16, count);
            lemma_mul_inequality(idx + 1, count, 768);
        } else {
            match spec_scan_spans(spans, spec_anim2_tick(spans, (t - 3072) as u64)) {
                Some(i) => {
                    lemma_scan_spans_bounds(spans, spec_anim2_tick(spans, (t - 3072) as u64));
                },
                None => {
                    lemma_overlay_extract(m, host, spec_white_frame());
                },
            }
        }
    }
}

/// Reading a written-over region back out of memory yields the frame that
/// was written.
pub proof fn lemma_overlay_extract(m: Seq<u8>, base: int, f: Seq<u8>)
    requires
        0 <= base,
        f.len() == 768,
        base + 768 <= m.len(),
    ensures
        spec_overlay(m, base, f).subrange(base, base + 768) == f,
{
    assert(spec_overlay(m, base, f).subrange(base, base + 768) =~= f);
}

/// Appending one tick to a run renders one more frame from the memory the
/// run has reached.
pub proof fn lemma_run_push(
    m: Seq<u8>,
    count: int,
    spans: Seq<FrameSpan>,
    ticks_seq: Seq<u64>,
    t: u64,
    host: int,
)
    ensures
        spec_run_mem(m, count, spans, ticks_seq.push(t), host) == spec_machine_mem(
            spec_run_mem(m, count, spans, ticks_seq, host),
            count,
            spans,
            t,
            host,
        ),
        spec_run_frames(m, count, spans, ticks_seq.push(t), host) == spec_run_frames(
            m,
            count,
            spans,
            ticks_seq,
            host,
        ).push(
            spec_machine_frame(spec_run_mem(m, count, spans, ticks_seq, host), count, spans, t, host),
        ),
    decreases ticks_seq.len(),
{
    reveal_with_fuel(spec_run_mem, 3);
    reveal_with_fuel(spec_run_frames, 3);
    if ticks_seq.len() == 0 {
        assert(ticks_seq.push(t)[0] == t);
        assert(ticks_seq.push(t).drop_first() =~= Seq::<u64>::empty());
        assert(spec_run_mem(m, count, spans, ticks_seq.push(t), host) == spec_machine_mem(
            m,
            count,
            spans,
            t,
            host,
        ));
        assert(spec_run_frames(m, count, spans, ticks_seq.push(t), host) =~~= spec_run_frames(
            m,
            count,
            spans,
            ticks_seq,
            host,
        ).push(
            spec_machine_frame(spec_run_mem(m, count, spans, ticks_seq, host), count, spans, t, host),
        ));
    } else {
        let m1 = spec_machine_mem(m, count, spans, ticks_seq[0], host);
        assert(ticks_seq.push(t)[0] == ticks_seq[0]);
        assert(ticks_seq.push(t).drop_first() =~= ticks_seq.drop_first().push(t));
        lemma_run_push(m1, count, spans, ticks_seq.drop_first(), t, host);
        assert(spec_run_frames(m, count, spans, ticks_seq.push(t), host) =~~= spec_run_frames(
            m,
            count,
            spans,
            ticks_seq,
            host,
        ).push(
            spec_machine_frame(spec_run_mem(m, count, spans, ticks_seq, host), count, spans, t, host),
        ));
    }
}

/// Reproducibility of whole runs: two guests whose memory and asset shape
/// agree, driven by the same tick sequence, render byte-identical frame
/// sequences.
pub proof fn lemma_run_reproducible(g1: Guest, g2: Guest, ticks_seq: Seq<u64>, host: int)
    requires
        g1.mem_view() == g2.mem_view(),
        g1.anim1_count() == g2.anim1_count(),
        g1.anim2_spans() == g2.anim2_spans(),
    ensures
        spec_run_frames(g1.mem_view(), g1.anim1_count(), g1.anim2_spans(), ticks_seq, host)
            == spec_run_frames(
            g2.mem_view(),
            g2.anim1_count(),
            g2.anim2_spans(),
            ticks_seq,
            host,
        ),
{
}

} // verus!
