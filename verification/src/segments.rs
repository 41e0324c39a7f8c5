//! The ordered segment table that drives pattern selection.
//!
//! A repeating cycle of ticks is partitioned into half-open ranges, each
//! bound to one pattern. An entry records only the start of its range: the
//! range ends where the next entry begins, and the final range is open, so
//! the table covers the whole cycle with no gaps by construction.

use vstd::prelude::*;

verus! {

/// Identifies one pattern of the animation state machine.
#[derive(Clone, Copy, Debug, PartialEq, Eq, Structural)]
pub enum PatternId {
    /// Flat all-white fill (startup flash).
    White,
    /// Four-corner colour test.
    Corners,
    /// Diagonal hue sweep.
    Rainbow,
    /// Procedural checkerboard on odd cells.
    Checker,
    /// Pre-rendered frame sequence, uniform frame length.
    PreRendered,
    /// Sprite-sheet sequence with per-frame durations.
    SpriteSheet,
}

/// One segment: the half-open tick range starting at `start` (and ending
/// where the next segment begins) is bound to `pattern`.
#[derive(Clone, Copy, Debug, PartialEq, Eq, Structural)]
pub struct Segment {
    /// First tick of the range, relative to the cycle.
    pub start: u64,
    /// Pattern rendered throughout the range.
    pub pattern: PatternId,
}

/// An ordered table of segments covering a whole cycle.
pub struct SegmentTable {
    /// The segments, ordered by strictly increasing start.
    pub entries: Vec<Segment>,
}

impl SegmentTable {
    /// Total coverage: at least one segment, the first starting at tick 0,
    /// starts strictly increasing. Every cycle offset then falls in exactly
    /// one range.
    pub open spec fn wf(self) -> bool {
        &&& self.entries@.len() > 0
        &&& self.entries@[0].start == 0
        &&& forall|i: int, j: int|
            0 <= i < j < self.entries@.len() ==> (#[trigger] self.entries@[i].start) < (
            #[trigger] self.entries@[j].start)
    }

    /// Selects the segment owning cycle offset `r`: the first range
    /// `[start, next start)` that contains `r`. Returns its index, which the
    /// contract pins uniquely.
    pub fn select(&self, r: u64) -> (k: usize)
        requires
            self.wf(),
        ensures
            k < self.entries@.len(),
            self.entries@[k as int].start <= r,
            k + 1 < self.entries@.len() ==> r < self.entries@[k as int + 1].start,
    {
        let n: usize = self.entries.len();
        let mut k: usize = 0;
        while k + 1 < n && self.entries[k + 1].start <= r
            invariant
                n == self.entries@.len(),
                k < self.entries@.len(),
                self.entries@[k as int].start <= r,
            decreases self.entries@.len() - k,
        {
            k = k + 1;
        }
        k
    }
}

} // verus!
