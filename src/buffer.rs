//! A rectangular grid of cells stored row-major.
use vstd::prelude::*;
use crate::style::Vec2;

verus! {

/// Outcome of writing one cell.
#[derive(Clone, Copy, Debug, PartialEq, Eq, Structural)]
pub enum SetResult {
    OutOfBounds,
    DifferentValue,
    SameValue,
}

/// A value that can be held in a grid cell: it can be copied exactly and
/// compared by value, both through its deep view.
pub trait CellValue: Sized + DeepView {
    fn duplicate(&self) -> (r: Self)
        ensures
            r.deep_view() == self.deep_view(),
    ;

    fn same_value(&self, other: &Self) -> (r: bool)
        ensures
            r == (self.deep_view() == other.deep_view()),
    ;
}

/// Row-major index of column `x` in row `y` of a grid `width` columns wide.
pub open spec fn grid_index(width: int, x: int, y: int) -> int {
    y * width + x
}

pub proof fn lemma_grid_index_bounds(width: int, height: int, x: int, y: int)
    requires
        0 <= x < width,
        0 <= y < height,
    ensures
        0 <= grid_index(width, x, y) < width * height,
        grid_index(width, x, y) + width - x <= width * height,
{
    assert(y * width + width <= width * height) by (nonlinear_arith)
        requires
            0 <= y < height,
            0 <= x < width,
    ;
    assert(0 <= y * width) by (nonlinear_arith)
        requires
            0 <= y,
            0 <= width,
    ;
}

/// A grid of `size.x` columns and `size.y` rows.
pub struct Buffer<T> {
    buffer: Vec<T>,
    size: Vec2,
}

/// `n` exact copies of `value`.
fn filled<T: CellValue>(n: usize, value: &T) -> (r: Vec<T>)
    ensures
        r@.len() == n,
        forall|i: int| 0 <= i < n ==> (#[trigger] r@[i]).deep_view() == value.deep_view(),
{
    let mut r: Vec<T> = Vec::new();
    let mut i: usize = 0;
    while i < n
        invariant
            i <= n,
            r@.len() == i,
            forall|j: int| 0 <= j < i ==> (#[trigger] r@[j]).deep_view() == value.deep_view(),
        decreases n - i,
    {
        r.push(value.duplicate());
        i = i + 1;
    }
    r
}

impl<T: CellValue> Buffer<T> {
    /// The grid's dimensions.
    pub closed spec fn spec_size(&self) -> Vec2 {
        self.size
    }

    /// The cells, row after row, each by its deep view.
    pub closed spec fn cells(&self) -> Seq<<T as DeepView>::V> {
        self.buffer@.map_values(|c: T| c.deep_view())
    }

    /// The cell count matches the dimensions.
    pub closed spec fn wf(&self) -> bool {
        self.buffer@.len() == self.size.x * self.size.y
    }

    pub open spec fn in_bounds(&self, x: int, y: int) -> bool {
        0 <= x < self.spec_size().x && 0 <= y < self.spec_size().y
    }

    /// The cell at column `x`, row `y`.
    pub open spec fn cell(&self, x: int, y: int) -> <T as DeepView>::V {
        self.cells()[grid_index(self.spec_size().x as int, x, y)]
    }

    pub proof fn lemma_wf_len(&self)
        requires
            self.wf(),
        ensures
            self.cells().len() == self.spec_size().x * self.spec_size().y,
    {
    }

    /// A grid of `size` whose every cell is `value`.
    pub fn new(size: Vec2, value: T) -> (r: Buffer<T>)
        requires
            size.x * size.y <= usize::MAX,
        ensures
            r.wf(),
            r.spec_size() == size,
            forall|i: int| 0 <= i < r.cells().len() ==> #[trigger] r.cells()[i] == value.deep_view(),
    {
        let buffer = filled(size.x * size.y, &value);
        Buffer { buffer, size }
    }

    /// Gives the grid dimensions `size` and sets every cell to `value`;
    /// nothing of the former content is kept.
    pub fn resize(&mut self, size: Vec2, value: T)
        requires
            size.x * size.y <= usize::MAX,
        ensures
            final(self).wf(),
            final(self).spec_size() == size,
            forall|i: int|
                0 <= i < final(self).cells().len() ==> #[trigger] final(self).cells()[i]
                    == value.deep_view(),
    {
        self.buffer = filled(size.x * size.y, &value);
        self.size = size;
    }

    pub fn size(&self) -> (r: Vec2)
        ensures
            r == self.spec_size(),
    {
        self.size
    }

    pub fn get_item(&self, x: usize, y: usize) -> (r: &T)
        requires
            self.wf(),
            x < self.spec_size().x,
            y < self.spec_size().y,
        ensures
            r.deep_view() == self.cell(x as int, y as int),
    {
        let _len = self.buffer.len();
        proof {
            lemma_grid_index_bounds(self.size.x as int, self.size.y as int, x as int, y as int);
        }
        &self.buffer[y * self.size.x + x]
    }

    /// Writes `new_value` at column `x`, row `y`, and says whether the
    /// position was outside the grid, already held an equal value, or held a
    /// different one.
    pub fn set_item(&mut self, x: usize, y: usize, new_value: T) -> (r: SetResult)
        requires
            old(self).wf(),
        ensures
            final(self).wf(),
            final(self).spec_size() == old(self).spec_size(),
            (r == SetResult::OutOfBounds) == !old(self).in_bounds(x as int, y as int),
            r == SetResult::OutOfBounds ==> final(self).cells() == old(self).cells(),
            r == SetResult::SameValue <==> (old(self).in_bounds(x as int, y as int)
                && old(self).cell(x as int, y as int) == new_value.deep_view()),
            r == SetResult::DifferentValue <==> (old(self).in_bounds(x as int, y as int)
                && old(self).cell(x as int, y as int) != new_value.deep_view()),
            r != SetResult::OutOfBounds ==> final(self).cells() == old(self).cells().update(
                grid_index(old(self).spec_size().x as int, x as int, y as int),
                new_value.deep_view(),
            ),
    {
        if x >= self.size.x || y >= self.size.y {
            SetResult::OutOfBounds
        } else {
            let _len = self.buffer.len();
            proof {
                lemma_grid_index_bounds(self.size.x as int, self.size.y as int, x as int, y as int);
            }
            let pos = y * self.size.x + x;
            if self.buffer[pos].same_value(&new_value) {
                assert(self.cells() =~= self.cells().update(pos as int, new_value.deep_view()));
                SetResult::SameValue
            } else {
                let ghost before = self.cells();
                self.buffer.set(pos, new_value);
                assert(self.cells() =~= before.update(pos as int, new_value.deep_view()));
                SetResult::DifferentValue
            }
        }
    }

    /// Makes every cell of `self` equal to the cell of `other` at the same
    /// place.
    pub fn copy_from(&mut self, other: &Buffer<T>)
        requires
            old(self).wf(),
            other.wf(),
            old(self).spec_size() == other.spec_size(),
        ensures
            final(self).wf(),
            final(self).spec_size() == old(self).spec_size(),
            final(self).cells() == other.cells(),
    {
        let n = self.buffer.len();
        let mut i: usize = 0;
        while i < n
            invariant
                i <= n,
                n == self.buffer@.len(),
                n == other.buffer@.len(),
                self.wf(),
                self.size == other.size,
                forall|j: int| 0 <= j < i ==> self.cells()[j] == #[trigger] other.cells()[j],
            decreases n - i,
        {
            let v = other.buffer[i].duplicate();
            self.buffer.set(i, v);
            i = i + 1;
        }
        assert(self.cells() =~= other.cells());
    }
}

} // verus!
