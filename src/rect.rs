//! A dirty region: the bounding rectangle of the positions written since it
//! was last reset.
use vstd::prelude::*;
use std::ops::Range;

verus! {

/// Start and end of the empty range: the start lies above the end, so that
/// taking in a position only ever lowers the start and raises the end.
pub const EMPTY_START: usize = usize::MAX;
pub const EMPTY_END: usize = 0;

/// Half-open column and row ranges.
pub struct Rect {
    pub x_range: Range<usize>,
    pub y_range: Range<usize>,
}

impl Clone for Rect {
    fn clone(&self) -> Self {
        Rect {
            x_range: self.x_range.start..self.x_range.end,
            y_range: self.y_range.start..self.y_range.end,
        }
    }
}

impl Rect {
    /// Whether column `x`, row `y` lies in the region.
    pub open spec fn contains(&self, x: int, y: int) -> bool {
        self.x_range.start <= x < self.x_range.end && self.y_range.start <= y < self.y_range.end
    }

    /// The region is in its empty state.
    pub open spec fn is_reset(&self) -> bool {
        &&& self.x_range.start == EMPTY_START
        &&& self.x_range.end == EMPTY_END
        &&& self.y_range.start == EMPTY_START
        &&& self.y_range.end == EMPTY_END
    }

    pub fn new() -> (r: Rect)
        ensures
            r.is_reset(),
            forall|x: int, y: int| !r.contains(x, y),
    {
        Rect { x_range: EMPTY_START..EMPTY_END, y_range: EMPTY_START..EMPTY_END }
    }

    pub fn reset(&mut self)
        ensures
            final(self).is_reset(),
            forall|x: int, y: int| !final(self).contains(x, y),
    {
        self.x_range = EMPTY_START..EMPTY_END;
        self.y_range = EMPTY_START..EMPTY_END;
    }

    /// Widens the region just enough to hold column `x`, row `y`.
    pub fn encompass_pos(&mut self, x: usize, y: usize)
        requires
            x < usize::MAX,
            y < usize::MAX,
        ensures
            final(self).x_range.start == if x < old(self).x_range.start {
                x
            } else {
                old(self).x_range.start
            },
            final(self).x_range.end == if x + 1 > old(self).x_range.end {
                (x + 1) as usize
            } else {
                old(self).x_range.end
            },
            final(self).y_range.start == if y < old(self).y_range.start {
                y
            } else {
                old(self).y_range.start
            },
            final(self).y_range.end == if y + 1 > old(self).y_range.end {
                (y + 1) as usize
            } else {
                old(self).y_range.end
            },
            final(self).contains(x as int, y as int),
            forall|a: int, b: int| old(self).contains(a, b) ==> final(self).contains(a, b),
    {
        if x < self.x_range.start {
            self.x_range.start = x;
        }
        if x + 1 > self.x_range.end {
            self.x_range.end = x + 1;
        }
        if y < self.y_range.start {
            self.y_range.start = y;
        }
        if y + 1 > self.y_range.end {
            self.y_range.end = y + 1;
        }
    }
}

} // verus!
