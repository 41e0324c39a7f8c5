//! Logical-to-physical coordinate mapping for a serpentine-wired LED strip.
//!
//! Patterns address pixels row-major with the origin at the top left; the
//! strip is wired starting at the bottom left, alternating scan direction on
//! every physical row. The mapping is a bijection between the valid logical
//! coordinates and the physical indices `[0, width * height)`, proved below.

use vstd::prelude::*;

verus! {

use vstd::arithmetic::div_mod::lemma_fundamental_div_mod_converse_div;
use vstd::arithmetic::div_mod::lemma_fundamental_div_mod_converse_mod;
use vstd::arithmetic::mul::lemma_mul_inequality;

/// Physical strip index of the logical coordinate `(x, y)` on a
/// `width` x `height` grid: flip vertically, then scan even physical rows
/// left to right and odd physical rows right to left.
pub open spec fn spec_serpentine(x: int, y: int, width: int, height: int) -> int {
    let py = height - 1 - y;
    if py % 2 == 0 {
        py * width + x
    } else {
        py * width + (width - 1 - x)
    }
}

/// Logical coordinate `(x, y)` that the physical index `i` maps from; the
/// inverse of `spec_serpentine`.
pub open spec fn spec_serpentine_inv(i: int, width: int, height: int) -> (int, int) {
    let py = i / width;
    let x = if py % 2 == 0 {
        i % width
    } else {
        width - 1 - i % width
    };
    (x, height - 1 - py)
}

/// Maps a logical row-major coordinate (origin top left) to the physical
/// index of the serpentine-wired strip (origin bottom left).
pub fn serpentine_index(x: usize, y: usize, width: usize, height: usize) -> (i: usize)
    requires
        x < width,
        y < height,
        width * height <= usize::MAX,
    ensures
        i == spec_serpentine(x as int, y as int, width as int, height as int),
        i < width * height,
{
    let py: usize = height - 1 - y;
    proof {
        lemma_mul_inequality(py as int + 1, height as int, width as int);
        assert((py + 1) * width == py * width + width) by (nonlinear_arith);
    }
    if py % 2 == 0 {
        py * width + x
    } else {
        py * width + (width - 1 - x)
    }
}

/// Each physical row holds `width` indices, so the mapped index determines
/// the physical row and the position within it again: the inverse recovers
/// the coordinate, hence the mapping is injective on the valid coordinates.
pub proof fn lemma_serpentine_invertible(x: int, y: int, width: int, height: int)
    requires
        0 <= x < width,
        0 <= y < height,
    ensures
        spec_serpentine_inv(spec_serpentine(x, y, width, height), width, height) == (x, y),
        0 <= spec_serpentine(x, y, width, height) < width * height,
{
    let py = height - 1 - y;
    let k = if py % 2 == 0 {
        x
    } else {
        width - 1 - x
    };
    let i = py * width + k;
    lemma_fundamental_div_mod_converse_div(i, width, py, k);
    lemma_fundamental_div_mod_converse_mod(i, width, py, k);
    lemma_mul_inequality(py + 1, height, width);
    assert((py + 1) * width == py * width + width) by (nonlinear_arith);
    assert(py * width >= 0) by (nonlinear_arith)
        requires
            py >= 0 && width > 0,
    ;
    assert(height * width == width * height) by (nonlinear_arith);
}

/// Distinct valid coordinates map to distinct physical indices.
pub proof fn lemma_serpentine_injective(
    x1: int,
    y1: int,
    x2: int,
    y2: int,
    width: int,
    height: int,
)
    requires
        0 <= x1 < width,
        0 <= y1 < height,
        0 <= x2 < width,
        0 <= y2 < height,
        spec_serpentine(x1, y1, width, height) == spec_serpentine(x2, y2, width, height),
    ensures
        x1 == x2 && y1 == y2,
{
    lemma_serpentine_invertible(x1, y1, width, height);
    lemma_serpentine_invertible(x2, y2, width, height);
}

/// Every physical index below `width * height` is reached from a valid
/// logical coordinate: together with injectivity, the mapping is a bijection
/// onto `[0, width * height)`.
pub proof fn lemma_serpentine_surjective(i: int, width: int, height: int)
    requires
        0 < width,
        0 < height,
        0 <= i < width * height,
    ensures
        ({
            let (x, y) = spec_serpentine_inv(i, width, height);
            &&& 0 <= x < width
            &&& 0 <= y < height
            &&& spec_serpentine(x, y, width, height) == i
        }),
{
    let py = i / width;
    let k = i % width;
    vstd::arithmetic::div_mod::lemma_fundamental_div_mod(i, width);
    assert(0 <= k < width) by {
        vstd::arithmetic::div_mod::lemma_mod_bound(i, width);
    }
    assert(0 <= py < height) by {
        vstd::arithmetic::div_mod::lemma_div_pos_is_pos(i, width);
        if py >= height {
            lemma_mul_inequality(height, py, width);
            assert(height * width == width * height) by (nonlinear_arith);
        }
    }
    assert(py * width == width * py) by (nonlinear_arith);
}

} // verus!
