//! Pixel-buffer layout and pixel-level writes.
//!
//! A pixel buffer is `PIXEL_WIDTH x PIXEL_HEIGHT` pixels of three bytes each
//! (channel order R, G, B), row-major with the logical origin at the top
//! left. Patterns write pixels into a buffer region of guest memory through
//! `set_color` and `clear`.

use vstd::prelude::*;
use crate::mem::GuestMemory;

verus! {

use vstd::arithmetic::div_mod::lemma_fundamental_div_mod;
use vstd::arithmetic::div_mod::lemma_fundamental_div_mod_converse_div;
use vstd::arithmetic::div_mod::lemma_fundamental_div_mod_converse_mod;

/// Grid width in pixels.
pub const PIXEL_WIDTH: usize = 16;

/// Grid height in pixels.
pub const PIXEL_HEIGHT: usize = 16;

/// Bytes per pixel: R, G, B.
pub const PIXEL_CHANNELS: usize = 3;

/// Size in bytes of one whole pixel buffer.
pub const PIXEL_BUFFER_SIZE: usize = PIXEL_WIDTH * PIXEL_HEIGHT * PIXEL_CHANNELS;

/// Byte offset of pixel `(x, y)` within a pixel buffer.
pub open spec fn spec_offset(x: int, y: int) -> int {
    (y * 16 + x) * 3
}

/// Channel `c` (0 = red, 1 = green, 2 = blue) of an RGB triple.
pub open spec fn spec_channel(rgb: (u8, u8, u8), c: int) -> u8 {
    if c == 0 {
        rgb.0
    } else if c == 1 {
        rgb.1
    } else {
        rgb.2
    }
}

/// The pixel buffer whose pixel `(x, y)` is `pix(x, y)`, laid out row-major
/// with three bytes per pixel.
pub open spec fn spec_frame(pix: spec_fn(int, int) -> (u8, u8, u8)) -> Seq<u8> {
    Seq::new(768, |i: int| spec_channel(pix((i / 3) % 16, (i / 3) / 16), i % 3))
}

/// `m` with the frame `f` written over the region starting at `base`.
pub open spec fn spec_overlay(m: Seq<u8>, base: int, f: Seq<u8>) -> Seq<u8> {
    Seq::new(
        m.len(),
        |i: int|
            if base <= i < base + f.len() {
                f[i - base]
            } else {
                m[i]
            },
    )
}

/// A pixel coordinate with its channel determines the byte index within a
/// buffer, and is recovered from it.
pub proof fn lemma_pixel_index(x: int, y: int, c: int)
    requires
        0 <= x < 16,
        0 <= y < 16,
        0 <= c < 3,
    ensures
        ({
            let k = (y * 16 + x) * 3 + c;
            &&& 0 <= k < 768
            &&& k / 3 == y * 16 + x
            &&& k % 3 == c
            &&& (y * 16 + x) % 16 == x
            &&& (y * 16 + x) / 16 == y
        }),
{
    let q = y * 16 + x;
    lemma_fundamental_div_mod_converse_div(q * 3 + c, 3, q, c);
    lemma_fundamental_div_mod_converse_mod(q * 3 + c, 3, q, c);
    lemma_fundamental_div_mod_converse_div(q, 16, y, x);
    lemma_fundamental_div_mod_converse_mod(q, 16, y, x);
}

/// Every byte index within a buffer decomposes into a pixel coordinate and a
/// channel.
pub proof fn lemma_byte_index(k: int)
    requires
        0 <= k < 768,
    ensures
        ({
            let x = (k / 3) % 16;
            let y = (k / 3) / 16;
            let c = k % 3;
            &&& 0 <= x < 16
            &&& 0 <= y < 16
            &&& 0 <= c < 3
            &&& k == (y * 16 + x) * 3 + c
        }),
{
    lemma_fundamental_div_mod(k, 3);
    lemma_fundamental_div_mod(k / 3, 16);
    let q = k / 3;
    assert(0 <= q < 256);
    assert(0 <= k % 3 < 3);
    assert(0 <= q % 16 < 16);
    assert(0 <= q / 16 < 16);
    assert(((q / 16) * 16 + q % 16) * 3 + k % 3 == (16 * (q / 16) + q % 16) * 3 + k % 3);
    assert((16 * (q / 16) + q % 16) * 3 == q * 3);
    assert(q * 3 + k % 3 == 3 * q + k % 3);
}

/// Byte offset of pixel `(x, y)`.
pub fn offset(x: usize, y: usize) -> (o: usize)
    requires
        x < PIXEL_WIDTH,
        y < PIXEL_HEIGHT,
    ensures
        o == spec_offset(x as int, y as int),
        o + PIXEL_CHANNELS <= PIXEL_BUFFER_SIZE,
{
    (y * PIXEL_WIDTH + x) * PIXEL_CHANNELS
}

/// Writes pixel `(x, y)` of the buffer region starting at `base` to `rgb`.
/// Out-of-range coordinates are ignored, leaving memory unchanged.
pub fn set_color(mem: &mut GuestMemory, base: usize, x: usize, y: usize, rgb: (u8, u8, u8))
    requires
        base + PIXEL_BUFFER_SIZE <= old(mem)@.len(),
    ensures
        final(mem)@.len() == old(mem)@.len(),
        x < 16 && y < 16 ==> forall|i: int|
            0 <= i < final(mem)@.len() ==> final(mem)@[i] == {
                let o = base + spec_offset(x as int, y as int);
                if o <= i < o + 3 {
                    spec_channel(rgb, i - o)
                } else {
                    old(mem)@[i]
                }
            },
        !(x < 16 && y < 16) ==> final(mem)@ == old(mem)@,
{
    if x >= PIXEL_WIDTH || y >= PIXEL_HEIGHT {
        return ;
    }
    let n: usize = mem.size();
    let o = base + offset(x, y);
    mem.write_byte(o, rgb.0);
    mem.write_byte(o + 1, rgb.1);
    mem.write_byte(o + 2, rgb.2);
}

/// Fills the whole buffer region starting at `base` with one colour.
pub fn clear(mem: &mut GuestMemory, base: usize, color: (u8, u8, u8))
    requires
        base + PIXEL_BUFFER_SIZE <= old(mem)@.len(),
    ensures
        final(mem)@.len() == old(mem)@.len(),
        forall|i: int|
            0 <= i < final(mem)@.len() ==> final(mem)@[i] == if base <= i < base
                + PIXEL_BUFFER_SIZE {
                spec_channel(color, (i - base) % 3)
            } else {
                old(mem)@[i]
            },
{
    let mut y: usize = 0;
    while y < PIXEL_HEIGHT
        invariant
            y <= PIXEL_HEIGHT,
            base + PIXEL_BUFFER_SIZE <= mem@.len(),
            mem@.len() == old(mem)@.len(),
            forall|i: int|
                0 <= i < mem@.len() ==> mem@[i] == if base <= i < base + y * 48 {
                    spec_channel(color, (i - base) % 3)
                } else {
                    old(mem)@[i]
                },
        decreases PIXEL_HEIGHT - y,
    {
        let mut x: usize = 0;
        while x < PIXEL_WIDTH
            invariant
                x <= PIXEL_WIDTH,
                y < PIXEL_HEIGHT,
                base + PIXEL_BUFFER_SIZE <= mem@.len(),
                mem@.len() == old(mem)@.len(),
                forall|i: int|
                    0 <= i < mem@.len() ==> mem@[i] == if base <= i < base + y * 48 + x * 3 {
                        spec_channel(color, (i - base) % 3)
                    } else {
                        old(mem)@[i]
                    },
            decreases PIXEL_WIDTH - x,
        {
            let ghost pre = mem@;
            set_color(mem, base, x, y, color);
            proof {
                lemma_pixel_index(x as int, y as int, 0);
                assert forall|i: int| 0 <= i < mem@.len() implies mem@[i] == if base <= i < base
                    + y * 48 + x * 3 + 3 {
                    spec_channel(color, (i - base) % 3)
                } else {
                    old(mem)@[i]
                } by {
                    let o = base + spec_offset(x as int, y as int);
                    assert(spec_offset(x as int, y as int) == y * 48 + x * 3);
                    if o <= i < o + 3 {
                        lemma_fundamental_div_mod_converse_mod(
                            i - base,
                            3,
                            y * 16 + x,
                            i - o,
                        );
                    }
                }
            }
            x = x + 1;
        }
        y = y + 1;
    }
}

} // verus!
