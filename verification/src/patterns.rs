//! The patterns of the animation state machine.
//!
//! Each pattern is a pure function of the ticks elapsed inside its own
//! segment: it writes one whole pixel buffer (or, for the checkerboard, the
//! odd cells of one) into a region of guest memory. The exact bytes each
//! pattern produces are given by the `spec_*_frame` functions.

use vstd::prelude::*;
use crate::color::hsv_to_rgb;
use crate::color::spec_hue_to_rgb;
use crate::mem::GuestMemory;
use crate::pixel::PIXEL_BUFFER_SIZE;
use crate::pixel::PIXEL_HEIGHT;
use crate::pixel::PIXEL_WIDTH;
use crate::pixel::clear;
use crate::pixel::lemma_byte_index;
use crate::pixel::lemma_pixel_index;
use crate::pixel::set_color;
use crate::pixel::spec_channel;
use crate::pixel::spec_frame;
use crate::pixel::spec_offset;
use crate::pixel::spec_overlay;
use crate::timing::derived_frame;
use crate::timing::spec_derived_frame;

verus! {

/// The all-white frame of the startup flash.
pub open spec fn spec_white_frame() -> Seq<u8> {
    spec_frame(|x: int, y: int| (255u8, 255u8, 255u8))
}

/// The four-corner test frame: top-left red, top-right green, bottom-left
/// blue, bottom-right yellow, everything else black.
pub open spec fn spec_corner_pixel(x: int, y: int) -> (u8, u8, u8) {
    if x == 0 && y == 0 {
        (255u8, 0u8, 0u8)
    } else if x == 15 && y == 0 {
        (0u8, 255u8, 0u8)
    } else if x == 0 && y == 15 {
        (0u8, 0u8, 255u8)
    } else if x == 15 && y == 15 {
        (200u8, 200u8, 0u8)
    } else {
        (0u8, 0u8, 0u8)
    }
}

/// The corner-test frame.
pub open spec fn spec_corners_frame() -> Seq<u8> {
    spec_frame(|x: int, y: int| spec_corner_pixel(x, y))
}

/// Hue of pixel `(x, y)` of the diagonal hue sweep at `ticks`.
pub open spec fn spec_rainbow_hue(ticks: u64, x: int, y: int) -> u8 {
    ((((x + y) * 8) + spec_derived_frame(ticks) * 2) % 256) as u8
}

/// The diagonal hue-sweep frame at `ticks`.
pub open spec fn spec_rainbow_frame(ticks: u64) -> Seq<u8> {
    spec_frame(|x: int, y: int| spec_hue_to_rgb(spec_rainbow_hue(ticks, x, y)))
}

/// Hue of column `x` of the checkerboard at `ticks`.
pub open spec fn spec_checker_hue(ticks: u64, x: int) -> u8 {
    ((x + spec_derived_frame(ticks)) % 256) as u8
}

/// The checkerboard frame at `ticks` over the prior buffer contents
/// `prior`: pixels whose coordinates are both odd are coloured, all other
/// bytes keep their prior value (this pattern does not clear first).
pub open spec fn spec_checker_frame(ticks: u64, prior: Seq<u8>) -> Seq<u8> {
    Seq::new(
        768,
        |i: int|
            {
                let x = (i / 3) % 16;
                let y = (i / 3) / 16;
                if x % 2 == 1 && y % 2 == 1 {
                    spec_channel(spec_hue_to_rgb(spec_checker_hue(ticks, x)), i % 3)
                } else {
                    prior[i]
                }
            },
    )
}

/// Renders the all-white startup flash into the buffer region at `dst`.
pub fn white(mem: &mut GuestMemory, dst: usize)
    requires
        dst + PIXEL_BUFFER_SIZE <= old(mem)@.len(),
    ensures
        final(mem)@ == spec_overlay(old(mem)@, dst as int, spec_white_frame()),
{
    mem.fill_region(dst, PIXEL_BUFFER_SIZE, 255);
    proof {
        assert(mem@ =~= spec_overlay(old(mem)@, dst as int, spec_white_frame()));
    }
}

/// Renders the four-corner test frame into the buffer region at `dst`.
pub fn corners(mem: &mut GuestMemory, dst: usize)
    requires
        dst + PIXEL_BUFFER_SIZE <= old(mem)@.len(),
    ensures
        final(mem)@ == spec_overlay(old(mem)@, dst as int, spec_corners_frame()),
{
    clear(mem, dst, (0, 0, 0));
    set_color(mem, dst, 0, 0, (255, 0, 0));
    set_color(mem, dst, PIXEL_WIDTH - 1, 0, (0, 255, 0));
    set_color(mem, dst, 0, PIXEL_HEIGHT - 1, (0, 0, 255));
    set_color(mem, dst, PIXEL_WIDTH - 1, PIXEL_HEIGHT - 1, (200, 200, 0));
    proof {
        assert forall|i: int| 0 <= i < mem@.len() implies mem@[i] == spec_overlay(
            old(mem)@,
            dst as int,
            spec_corners_frame(),
        )[i] by {
            if dst <= i < dst + 768 {
                let j = i - dst;
                lemma_byte_index(j);
                let q = j / 3;
                let x = q % 16;
                let y = q / 16;
                lemma_pixel_index(x, y, j % 3);
                assert(spec_offset(0, 0) == 0);
                assert(spec_offset(15, 0) == 45);
                assert(spec_offset(0, 15) == 720);
                assert(spec_offset(15, 15) == 765);
            }
        }
        assert(mem@ =~= spec_overlay(old(mem)@, dst as int, spec_corners_frame()));
    }
}

/// Renders the diagonal hue sweep at `ticks` into the buffer region at
/// `dst`: pixel `(x, y)` gets hue `((x + y) * 8 + frame * 2) mod 256` for
/// the derived animation frame number.
pub fn rainbow_cycle(mem: &mut GuestMemory, dst: usize, ticks: u64)
    requires
        dst + PIXEL_BUFFER_SIZE <= old(mem)@.len(),
    ensures
        final(mem)@ == spec_overlay(old(mem)@, dst as int, spec_rainbow_frame(ticks)),
{
    let frame: u64 = derived_frame(ticks);
    let mut y: usize = 0;
    while y < PIXEL_HEIGHT
        invariant
            y <= PIXEL_HEIGHT,
            frame == spec_derived_frame(ticks),
            frame <= 0x4000_0000_0000_0000u64,
            dst + PIXEL_BUFFER_SIZE <= mem@.len(),
            mem@.len() == old(mem)@.len(),
            forall|i: int|
                0 <= i < mem@.len() ==> mem@[i] == if dst <= i < dst + y * 48 {
                    spec_rainbow_frame(ticks)[i - dst]
                } else {
                    old(mem)@[i]
                },
        decreases PIXEL_HEIGHT - y,
    {
        let mut x: usize = 0;
        while x < PIXEL_WIDTH
            invariant
                x <= PIXEL_WIDTH,
                y < PIXEL_HEIGHT,
                frame == spec_derived_frame(ticks),
                frame <= 0x4000_0000_0000_0000u64,
                dst + PIXEL_BUFFER_SIZE <= mem@.len(),
                mem@.len() == old(mem)@.len(),
                forall|i: int|
                    0 <= i < mem@.len() ==> mem@[i] == if dst <= i < dst + y * 48 + x * 3 {
                        spec_rainbow_frame(ticks)[i - dst]
                    } else {
                        old(mem)@[i]
                    },
            decreases PIXEL_WIDTH - x,
        {
            let hue: u64 = ((x + y) as u64 * 8 + frame * 2) % 256;
            let rgb = hsv_to_rgb(hue as u8);
            set_color(mem, dst, x, y, rgb);
            proof {
                lemma_pixel_index(x as int, y as int, 0);
                assert(hue as u8 == spec_rainbow_hue(ticks, x as int, y as int));
                assert forall|i: int| 0 <= i < mem@.len() implies mem@[i] == if dst <= i < dst
                    + y * 48 + x * 3 + 3 {
                    spec_rainbow_frame(ticks)[i - dst]
                } else {
                    old(mem)@[i]
                } by {
                    let o = dst + spec_offset(x as int, y as int);
                    assert(spec_offset(x as int, y as int) == y * 48 + x * 3);
                    if o <= i < o + 3 {
                        let j = i - dst;
                        lemma_pixel_index(x as int, y as int, i - o);
                        assert(j == (y * 16 + x) * 3 + (i - o));
                        assert(spec_rainbow_frame(ticks)[j] == spec_channel(
                            spec_hue_to_rgb(spec_rainbow_hue(ticks, x as int, y as int)),
                            i - o,
                        ));
                    }
                }
            }
            x = x + 1;
        }
        y = y + 1;
    }
    proof {
        assert(mem@ =~= spec_overlay(old(mem)@, dst as int, spec_rainbow_frame(ticks)));
    }
}

/// The checkerboard with the first `p` pixels (row-major) processed: of
/// those, the pixels with both coordinates odd have been coloured.
pub open spec fn spec_checker_partial(m: Seq<u8>, dst: int, ticks: u64, p: int) -> Seq<u8> {
    Seq::new(
        m.len(),
        |i: int|
            {
                let j = i - dst;
                let q = j / 3;
                let x = q % 16;
                let y = q / 16;
                if dst <= i < dst + 768 && q < p && x % 2 == 1 && y % 2 == 1 {
                    spec_channel(spec_hue_to_rgb(spec_checker_hue(ticks, x)), j % 3)
                } else {
                    m[i]
                }
            },
    )
}

/// Renders the procedural checkerboard at `ticks` into the buffer region at
/// `dst`: pixels with both coordinates odd get hue `(x + frame) mod 256`,
/// even cells retain the buffer's prior contents.
pub fn proc0001(mem: &mut GuestMemory, dst: usize, ticks: u64)
    requires
        dst + PIXEL_BUFFER_SIZE <= old(mem)@.len(),
    ensures
        final(mem)@ == spec_overlay(
            old(mem)@,
            dst as int,
            spec_checker_frame(ticks, old(mem)@.subrange(dst as int, dst as int + 768)),
        ),
{
    let frame: u64 = derived_frame(ticks);
    let mut y: usize = 0;
    while y < PIXEL_HEIGHT
        invariant
            y <= PIXEL_HEIGHT,
            frame == spec_derived_frame(ticks),
            frame <= 0x4000_0000_0000_0000u64,
            dst + PIXEL_BUFFER_SIZE <= mem@.len(),
            mem@.len() == old(mem)@.len(),
            mem@ == spec_checker_partial(old(mem)@, dst as int, ticks, y * 16),
        decreases PIXEL_HEIGHT - y,
    {
        if y % 2 == 1 {
            let mut x: usize = 0;
            while x < PIXEL_WIDTH
                invariant
                    x <= PIXEL_WIDTH,
                    y < PIXEL_HEIGHT,
                    y % 2 == 1,
                    frame == spec_derived_frame(ticks),
                    frame <= 0x4000_0000_0000_0000u64,
                    dst + PIXEL_BUFFER_SIZE <= mem@.len(),
                    mem@.len() == old(mem)@.len(),
                    mem@ == spec_checker_partial(old(mem)@, dst as int, ticks, y * 16 + x),
                decreases PIXEL_WIDTH - x,
            {
                if x % 2 == 1 {
                    let hue: u64 = (x as u64 + frame) % 256;
                    let rgb = hsv_to_rgb(hue as u8);
                    let ghost pre = mem@;
                    set_color(mem, dst, x, y, rgb);
                    proof {
                        lemma_pixel_index(x as int, y as int, 0);
                        assert(hue as u8 == spec_checker_hue(ticks, x as int));
                        lemma_checker_partial_step(
                            old(mem)@,
                            pre,
                            mem@,
                            dst as int,
                            ticks,
                            x as int,
                            y as int,
                            rgb,
                        );
                    }
                } else {
                    proof {
                        lemma_checker_partial_skip(
                            old(mem)@,
                            mem@,
                            dst as int,
                            ticks,
                            y * 16 + x,
                            1,
                        );
                    }
                }
                x = x + 1;
            }
        } else {
            proof {
                lemma_checker_partial_skip(old(mem)@, mem@, dst as int, ticks, y * 16, 16);
            }
        }
        y = y + 1;
    }
    proof {
        let prior = old(mem)@.subrange(dst as int, dst as int + 768);
        assert forall|i: int| 0 <= i < mem@.len() implies mem@[i] == spec_overlay(
            old(mem)@,
            dst as int,
            spec_checker_frame(ticks, prior),
        )[i] by {
            if dst <= i < dst + 768 {
                lemma_byte_index(i - dst);
            }
        }
        assert(mem@ =~= spec_overlay(
            old(mem)@,
            dst as int,
            spec_checker_frame(ticks, prior),
        ));
    }
}

/// Advancing the checkerboard progress counter past pixels that are not
/// both-odd leaves the partially rendered buffer unchanged.
proof fn lemma_checker_partial_skip(m: Seq<u8>, cur: Seq<u8>, dst: int, ticks: u64, p: int, n: int)
    requires
        0 <= p,
        0 < n,
        p + n <= 256,
        cur == spec_checker_partial(m, dst, ticks, p),
        forall|q: int|
            p <= q < p + n ==> !((#[trigger] (q % 16)) % 2 == 1 && (q / 16) % 2 == 1),
    ensures
        cur == spec_checker_partial(m, dst, ticks, p + n),
{
    assert forall|i: int| 0 <= i < m.len() implies spec_checker_partial(m, dst, ticks, p)[i]
        == spec_checker_partial(m, dst, ticks, p + n)[i] by {
        if dst <= i < dst + 768 {
            lemma_byte_index(i - dst);
        }
    }
    assert(spec_checker_partial(m, dst, ticks, p) =~= spec_checker_partial(
        m,
        dst,
        ticks,
        p + n,
    ));
}

/// Writing the coloured pixel `(x, y)` (both odd) advances the checkerboard
/// progress counter by one.
proof fn lemma_checker_partial_step(
    m: Seq<u8>,
    pre: Seq<u8>,
    post: Seq<u8>,
    dst: int,
    ticks: u64,
    x: int,
    y: int,
    rgb: (u8, u8, u8),
)
    requires
        0 <= x < 16,
        0 <= y < 16,
        x % 2 == 1,
        y % 2 == 1,
        dst + 768 <= m.len(),
        pre == spec_checker_partial(m, dst, ticks, y * 16 + x),
        rgb == spec_hue_to_rgb(spec_checker_hue(ticks, x)),
        post.len() == pre.len(),
        forall|i: int|
            0 <= i < post.len() ==> post[i] == {
                let o = dst + spec_offset(x, y);
                if o <= i < o + 3 {
                    spec_channel(rgb, i - o)
                } else {
                    pre[i]
                }
            },
    ensures
        post == spec_checker_partial(m, dst, ticks, y * 16 + x + 1),
{
    let p = y * 16 + x;
    let o = dst + spec_offset(x, y);
    assert forall|i: int| 0 <= i < m.len() implies post[i] == spec_checker_partial(
        m,
        dst,
        ticks,
        p + 1,
    )[i] by {
        if dst <= i < dst + 768 {
            let j = i - dst;
            lemma_byte_index(j);
            lemma_pixel_index(x, y, 0);
            if o <= i < o + 3 {
                lemma_pixel_index(x, y, i - o);
            }
        }
    }
    assert(post =~= spec_checker_partial(m, dst, ticks, p + 1));
}

} // verus!
