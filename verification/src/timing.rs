//! The fixed time base and the animation frame divisor.
//!
//! Ticks advance at `TICKS_PER_SECOND` and drive pattern selection; the
//! animation speed is decoupled from the tick rate by deriving a frame
//! number as `ticks * TARGET_FPS / TICKS_PER_SECOND`.

use vstd::prelude::*;

verus! {

use vstd::arithmetic::div_mod::lemma_div_is_ordered;
use vstd::arithmetic::div_mod::lemma_fundamental_div_mod;
use vstd::arithmetic::div_mod::lemma_fundamental_div_mod_converse_div;

/// Ticks per second of the fixed time base.
pub const TICKS_PER_SECOND: u64 = 256;

/// Animation target speed in frames per second.
pub const TARGET_FPS: u64 = 60;

/// The animation frame number that `ticks` has reached:
/// `ticks * TARGET_FPS / TICKS_PER_SECOND`.
pub open spec fn spec_derived_frame(ticks: u64) -> int {
    (ticks * TARGET_FPS) / (TICKS_PER_SECOND as int)
}

/// Derives the animation frame number from a tick count. The quotient is
/// computed widened, so the full `u64` tick range is handled exactly.
pub fn derived_frame(ticks: u64) -> (f: u64)
    ensures
        f == spec_derived_frame(ticks),
        f <= ticks / 4,
{
    let t: u128 = ticks as u128;
    proof {
        assert(t * 60 <= 0xFFFF_FFFF_FFFF_FFFFu128 * 60) by (nonlinear_arith)
            requires
                t <= 0xFFFF_FFFF_FFFF_FFFFu128,
        ;
    }
    let wide: u128 = t * (TARGET_FPS as u128) / (TICKS_PER_SECOND as u128);
    proof {
        lemma_derived_frame_bound(ticks);
    }
    wide as u64
}

/// The derived frame number is at most a quarter of the tick count, since
/// `TARGET_FPS / TICKS_PER_SECOND < 1 / 4`.
pub proof fn lemma_derived_frame_bound(ticks: u64)
    ensures
        0 <= spec_derived_frame(ticks) <= ticks / 4,
{
    let t = ticks as int;
    lemma_div_is_ordered(t * 60, t * 64, 256);
    lemma_fundamental_div_mod(t, 4);
    assert(t * 64 == 256 * (t / 4) + 64 * (t % 4)) by (nonlinear_arith)
        requires
            t == 4 * (t / 4) + t % 4,
    ;
    lemma_fundamental_div_mod_converse_div(t * 64, 256, t / 4, 64 * (t % 4));
    lemma_div_is_ordered(0, t * 60, 256);
}

} // verus!
