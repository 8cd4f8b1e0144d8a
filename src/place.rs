//! Where the clusters of a printed text land on the grid.
use vstd::prelude::*;
use crate::backend::CellView;
use crate::buffer::grid_index;
use crate::style::Style;

verus! {

/// The column at which cluster `i` starts, for clusters of the given
/// `widths` laid out from column `x0`.
pub open spec fn cluster_col(x0: int, widths: Seq<usize>, i: int) -> int
    decreases i,
{
    if i <= 0 {
        x0
    } else {
        cluster_col(x0, widths, i - 1) + widths[i - 1]
    }
}

/// `cells` after a cluster `text` of width `wd` is placed at column `col`
/// of row `y` in a grid `w` columns wide: its first column shows
/// `(style, text)` and the others are covered (`None`). Columns at or past
/// the right edge are dropped, and a cluster of width 0 changes nothing.
pub open spec fn put_cluster(
    cells: Seq<CellView>,
    w: int,
    y: int,
    col: int,
    style: Style,
    text: Seq<char>,
    wd: int,
) -> Seq<CellView> {
    let first = grid_index(w, col, y);
    let end = grid_index(w, if col + wd < w { col + wd } else { w }, y);
    Seq::new(
        cells.len(),
        |k: int|
            if wd > 0 && first <= k < end {
                if k == first {
                    Some((style, text))
                } else {
                    None
                }
            } else {
                cells[k]
            },
    )
}

/// `cells` after the first `n` of `clusters`, of the given `widths`, are
/// placed one after the other from column `x0` of row `y`.
pub open spec fn painted(
    cells: Seq<CellView>,
    w: int,
    y: int,
    x0: int,
    style: Style,
    clusters: Seq<Seq<char>>,
    widths: Seq<usize>,
    n: int,
) -> Seq<CellView>
    decreases n,
{
    if n <= 0 {
        cells
    } else {
        put_cluster(
            painted(cells, w, y, x0, style, clusters, widths, n - 1),
            w,
            y,
            cluster_col(x0, widths, n - 1),
            style,
            clusters[n - 1],
            widths[n - 1] as int,
        )
    }
}

/// Printing never wraps: only cells of row `y` from column `x0` up to the
/// right edge can change, and the grid keeps its size.
pub proof fn lemma_painted_stays_in_row(
    cells: Seq<CellView>,
    w: int,
    y: int,
    x0: int,
    style: Style,
    clusters: Seq<Seq<char>>,
    widths: Seq<usize>,
    n: int,
)
    requires
        0 <= x0,
        0 <= w,
        n <= widths.len(),
    ensures
        painted(cells, w, y, x0, style, clusters, widths, n).len() == cells.len(),
        forall|k: int|
            0 <= k < cells.len() && !(grid_index(w, x0, y) <= k < grid_index(w, w, y)) ==> #[trigger] painted(
                cells,
                w,
                y,
                x0,
                style,
                clusters,
                widths,
                n,
            )[k] == cells[k],
    decreases n,
{
    if n > 0 {
        lemma_painted_stays_in_row(cells, w, y, x0, style, clusters, widths, n - 1);
        lemma_cluster_col_from(x0, widths, n - 1);
    }
}

/// Clusters are laid out from `x0` rightwards.
pub proof fn lemma_cluster_col_from(x0: int, widths: Seq<usize>, i: int)
    requires
        i <= widths.len(),
    ensures
        cluster_col(x0, widths, i) >= x0,
    decreases i,
{
    if i > 0 {
        lemma_cluster_col_from(x0, widths, i - 1);
    }
}

} // verus!
