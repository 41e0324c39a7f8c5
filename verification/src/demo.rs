//! Logic of the benchmark guest modules and of the host functions they
//! import.
//!
//! The host exposes a pixel-sink to these guests: `set_pixel` and `fill`
//! write into the host's strip buffer, whose channel order is G, R, B as
//! the transport expects. The guests' own logic — the capped Fibonacci
//! iteration and the bouncing colour ramp — is pure and verified here;
//! emitting values and flushing the buffer to the LED driver are the
//! embedding's concern.

use vstd::prelude::*;
use crate::pixel::PIXEL_BUFFER_SIZE;
use crate::pixel::PIXEL_WIDTH;

verus! {

/// Cap above which the Fibonacci iteration resets to avoid overflow.
pub const FIB_RESET_LIMIT: u64 = 1_000_000_000_000_000_000;

/// The pair `(a, b)` after one Fibonacci iteration: advance with wrapping
/// addition, then reset to the seed pair once the new value passes
/// `FIB_RESET_LIMIT`.
pub open spec fn spec_fib_step(p: (u64, u64)) -> (u64, u64) {
    let next = ((p.0 + p.1) % 0x1_0000_0000_0000_0000) as u64;
    if next > FIB_RESET_LIMIT {
        (0u64, 1u64)
    } else {
        (p.1, next)
    }
}

/// The pair `(a, b)` after `n` Fibonacci iterations from the seed `(0, 1)`.
pub open spec fn spec_fib_pair(n: u64) -> (u64, u64)
    decreases n,
{
    if n == 0 {
        (0u64, 1u64)
    } else {
        spec_fib_step(spec_fib_pair((n - 1) as u64))
    }
}

/// Runs `count` capped Fibonacci iterations and returns the latest value.
pub fn fib(count: u64) -> (r: u64)
    ensures
        r == spec_fib_pair(count).1,
{
    let mut a: u64 = 0;
    let mut b: u64 = 1;
    let mut remaining: u64 = count;
    while remaining > 0
        invariant
            remaining <= count,
            (a, b) == spec_fib_pair((count - remaining) as u64),
        decreases remaining,
    {
        let next = a.wrapping_add(b);
        a = b;
        b = next;
        if next > FIB_RESET_LIMIT {
            a = 0;
            b = 1;
        }
        remaining = remaining - 1;
    }
    b
}

/// Adds two machine integers; the sum must not overflow.
pub fn add(x: i32, y: i32) -> (r: i32)
    requires
        i32::MIN <= x + y <= i32::MAX,
    ensures
        r == x + y,
{
    x + y
}

/// Writes pixel `(x, y)` of the host's strip buffer, in the transport's
/// G, R, B channel order, as the `set_pixel` host import does.
pub fn host_set_pixel(pixels: &mut Vec<u8>, x: u32, y: u32, r: u32, g: u32, b: u32)
    requires
        old(pixels)@.len() == PIXEL_BUFFER_SIZE,
        x < 16,
        y < 16,
    ensures
        final(pixels)@.len() == PIXEL_BUFFER_SIZE,
        forall|i: int|
            0 <= i < final(pixels)@.len() ==> final(pixels)@[i] == {
                let o = 3 * (y * 16 + x);
                if i == o {
                    (g as u8)
                } else if i == o + 1 {
                    (r as u8)
                } else if i == o + 2 {
                    (b as u8)
                } else {
                    old(pixels)@[i]
                }
            },
{
    let i: usize = 3 * ((y as usize) * PIXEL_WIDTH + (x as usize));
    pixels.set(i, g as u8);
    pixels.set(i + 1, r as u8);
    pixels.set(i + 2, b as u8);
}

/// Fills the host's strip buffer with one colour in G, R, B channel order,
/// as the `fill` host import does.
pub fn host_fill(pixels: &mut Vec<u8>, r: u32, g: u32, b: u32)
    requires
        old(pixels)@.len() == PIXEL_BUFFER_SIZE,
    ensures
        final(pixels)@.len() == PIXEL_BUFFER_SIZE,
        forall|i: int|
            0 <= i < final(pixels)@.len() ==> final(pixels)@[i] == {
                if i % 3 == 0 {
                    (g as u8)
                } else if i % 3 == 1 {
                    (r as u8)
                } else {
                    (b as u8)
                }
            },
{
    let mut p: usize = 0;
    while p < PIXEL_BUFFER_SIZE
        invariant
            p <= PIXEL_BUFFER_SIZE,
            p % 3 == 0,
            pixels@.len() == PIXEL_BUFFER_SIZE,
            forall|i: int|
                0 <= i < pixels@.len() ==> pixels@[i] == if i < p {
                    if i % 3 == 0 {
                        (g as u8)
                    } else if i % 3 == 1 {
                        (r as u8)
                    } else {
                        (b as u8)
                    }
                } else {
                    old(pixels)@[i]
                },
        decreases PIXEL_BUFFER_SIZE - p,
    {
        pixels.set(p, g as u8);
        pixels.set(p + 1, r as u8);
        pixels.set(p + 2, b as u8);
        proof {
            assert forall|i: int| p <= i < p + 3 implies #[trigger] (i % 3) == i - p by {
                vstd::arithmetic::div_mod::lemma_fundamental_div_mod_converse_mod(
                    i,
                    3,
                    (p as int) / 3,
                    i - p,
                );
                vstd::arithmetic::div_mod::lemma_fundamental_div_mod(p as int, 3);
            }
        }
        p = p + 3;
    }
}

/// Writes one colour to every pixel of the `max_x` by `max_y` rectangle,
/// one `set_pixel` call each, as the slow-fill guest export does. The
/// rectangle must lie within the grid, as the host's `set_pixel` accepts
/// no coordinate outside it.
pub fn fill_slow(pixels: &mut Vec<u8>, max_x: u32, max_y: u32, r: u32, g: u32, b: u32)
    requires
        old(pixels)@.len() == PIXEL_BUFFER_SIZE,
        max_x <= 16,
        max_y <= 16,
    ensures
        final(pixels)@.len() == PIXEL_BUFFER_SIZE,
        forall|i: int|
            0 <= i < final(pixels)@.len() ==> final(pixels)@[i] == {
                let q = i / 3;
                if q % 16 < max_x && q / 16 < max_y {
                    if i % 3 == 0 {
                        (g as u8)
                    } else if i % 3 == 1 {
                        (r as u8)
                    } else {
                        (b as u8)
                    }
                } else {
                    old(pixels)@[i]
                }
            },
{
    let mut x: u32 = 0;
    while x < max_x
        invariant
            x <= max_x,
            max_x <= 16,
            max_y <= 16,
            pixels@.len() == PIXEL_BUFFER_SIZE,
            forall|i: int|
                0 <= i < pixels@.len() ==> pixels@[i] == {
                    let q = i / 3;
                    if q % 16 < x && q / 16 < max_y {
                        if i % 3 == 0 {
                            (g as u8)
                        } else if i % 3 == 1 {
                            (r as u8)
                        } else {
                            (b as u8)
                        }
                    } else {
                        old(pixels)@[i]
                    }
                },
        decreases max_x - x,
    {
        let mut y: u32 = 0;
        while y < max_y
            invariant
                x < max_x,
                max_x <= 16,
                y <= max_y,
                max_y <= 16,
                pixels@.len() == PIXEL_BUFFER_SIZE,
                forall|i: int|
                    0 <= i < pixels@.len() ==> pixels@[i] == {
                        let q = i / 3;
                        if (q % 16 < x && q / 16 < max_y) || (q % 16 == x && q / 16 < y) {
                            if i % 3 == 0 {
                                (g as u8)
                            } else if i % 3 == 1 {
                                (r as u8)
                            } else {
                                (b as u8)
                            }
                        } else {
                            old(pixels)@[i]
                        }
                    },
            decreases max_y - y,
        {
            let ghost pre = pixels@;
            host_set_pixel(pixels, x, y, r, g, b);
            proof {
                crate::pixel::lemma_pixel_index(x as int, y as int, 0);
                assert forall|i: int| 0 <= i < pixels@.len() implies pixels@[i] == {
                    let q = i / 3;
                    if (q % 16 < x && q / 16 < max_y) || (q % 16 == x && q / 16 < y + 1) {
                        if i % 3 == 0 {
                            (g as u8)
                        } else if i % 3 == 1 {
                            (r as u8)
                        } else {
                            (b as u8)
                        }
                    } else {
                        old(pixels)@[i]
                    }
                } by {
                    let o = 3 * (y * 16 + x) as int;
                    crate::pixel::lemma_byte_index(i);
                    if o <= i < o + 3 {
                        crate::pixel::lemma_pixel_index(x as int, y as int, i - o);
                    }
                }
            }
            y = y + 1;
        }
        y = 0;
        x = x + 1;
    }
}

/// One step of the bouncing colour ramp: each channel advances by its own
/// delta and reflects off 0 and 255, staying clamped to the byte range.
pub open spec fn spec_ramp_step(s: (i32, i32, i32, i32, i32, i32)) -> (
    i32,
    i32,
    i32,
    i32,
    i32,
    i32,
) {
    let (r0, g0, b0, dr0, dg0, db0) = s;
    let r1: int = r0 + dr0;
    let g1: int = g0 + dg0;
    let b1: int = b0 + db0;
    let (r2, dr2): (int, int) = if r1 > 255 {
        (255int, -(dr0 as int))
    } else if r1 < 0 {
        (0int, -(dr0 as int))
    } else {
        (r1, dr0 as int)
    };
    let (g2, dg2): (int, int) = if g1 > 255 {
        (255int, -(dg0 as int))
    } else if g1 < 0 {
        (0int, -(dg0 as int))
    } else {
        (g1, dg0 as int)
    };
    let (b2, db2): (int, int) = if b1 > 255 {
        (255int, -(db0 as int))
    } else if b1 < 0 {
        (0int, -(db0 as int))
    } else {
        (b1, db0 as int)
    };
    (r2 as i32, g2 as i32, b2 as i32, dr2 as i32, dg2 as i32, db2 as i32)
}

/// The ramp state after `n` steps from the all-zero colour with the seed
/// deltas 2, 3 and 5.
pub open spec fn spec_ramp_state(n: u32) -> (i32, i32, i32, i32, i32, i32)
    decreases n,
{
    if n == 0 {
        (0i32, 0i32, 0i32, 2i32, 3i32, 5i32)
    } else {
        spec_ramp_step(spec_ramp_state((n - 1) as u32))
    }
}

/// The ramp state stays within bounds: channels in the byte range, deltas
/// at their seed magnitudes.
pub open spec fn spec_ramp_wf(s: (i32, i32, i32, i32, i32, i32)) -> bool {
    &&& 0 <= s.0 <= 255
    &&& 0 <= s.1 <= 255
    &&& 0 <= s.2 <= 255
    &&& (s.3 == 2 || s.3 == -2)
    &&& (s.4 == 3 || s.4 == -3)
    &&& (s.5 == 5 || s.5 == -5)
}

/// Every reachable ramp state is within bounds.
pub proof fn lemma_ramp_wf(n: u32)
    ensures
        spec_ramp_wf(spec_ramp_state(n)),
    decreases n,
{
    if n > 0 {
        lemma_ramp_wf((n - 1) as u32);
    }
}

/// Renders `frames` steps of the bouncing colour ramp, filling the host's
/// strip buffer once per step; the buffer is left holding the colour of the
/// final step. Flushing each intermediate frame to the LED driver is the
/// embedding's concern.
pub fn render(pixels: &mut Vec<u8>, frames: u32)
    requires
        old(pixels)@.len() == PIXEL_BUFFER_SIZE,
    ensures
        final(pixels)@.len() == PIXEL_BUFFER_SIZE,
        frames == 0 ==> final(pixels)@ == old(pixels)@,
        frames > 0 ==> forall|i: int|
            0 <= i < final(pixels)@.len() ==> final(pixels)@[i] == {
                let s = spec_ramp_state(frames);
                if i % 3 == 0 {
                    (s.1 as u8)
                } else if i % 3 == 1 {
                    (s.0 as u8)
                } else {
                    (s.2 as u8)
                }
            },
{
    let mut r: i32 = 0;
    let mut g: i32 = 0;
    let mut b: i32 = 0;
    let mut dr: i32 = 2;
    let mut dg: i32 = 3;
    let mut db: i32 = 5;
    let mut f: u32 = 0;
    while f < frames
        invariant
            f <= frames,
            (r, g, b, dr, dg, db) == spec_ramp_state(f),
            spec_ramp_wf((r, g, b, dr, dg, db)),
            pixels@.len() == PIXEL_BUFFER_SIZE,
            f == 0 ==> pixels@ == old(pixels)@,
            f > 0 ==> forall|i: int|
                0 <= i < pixels@.len() ==> pixels@[i] == {
                    let s = spec_ramp_state(f);
                    if i % 3 == 0 {
                        (s.1 as u8)
                    } else if i % 3 == 1 {
                        (s.0 as u8)
                    } else {
                        (s.2 as u8)
                    }
                },
        decreases frames - f,
    {
        r = r + dr;
        g = g + dg;
        b = b + db;
        if r > 255 {
            r = 255;
            dr = -dr;
        }
        if r < 0 {
            r = 0;
            dr = -dr;
        }
        if g > 255 {
            g = 255;
            dg = -dg;
        }
        if g < 0 {
            g = 0;
            dg = -dg;
        }
        if b > 255 {
            b = 255;
            db = -db;
        }
        if b < 0 {
            b = 0;
            db = -db;
        }
        host_fill(pixels, r as u32, g as u32, b as u32);
        f = f + 1;
    }
}

} // verus!
