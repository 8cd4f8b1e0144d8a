//! What printing followed by a refresh sends to the terminal.
use vstd::prelude::*;
use crate::backend::CellView;
use crate::buffer::{grid_index, lemma_grid_index_bounds};
use crate::place::{cluster_col, painted, put_cluster};
use crate::runs::{
    fresh, frame_commands, joins, lemma_frame_commands_quiet_rows,
    lemma_row_commands_quiet_tail, lemma_shown_frame_needs_no_commands, row_commands, run_start,
    run_text, CommandView,
};
use crate::style::{Style, Vec2};

verus! {

/// Placing one cluster of width 1 inside the grid replaces exactly that
/// cell.
pub proof fn lemma_place_narrow(
    cells: Seq<CellView>,
    w: int,
    h: int,
    x: int,
    y: int,
    style: Style,
    text: Seq<char>,
)
    requires
        0 <= x < w,
        0 <= y < h,
        cells.len() == w * h,
    ensures
        painted(cells, w, y, x, style, seq![text], seq![1usize], 1) == cells.update(
            grid_index(w, x, y),
            Some((style, text)),
        ),
{
    lemma_grid_index_bounds(w, h, x, y);
    assert(cluster_col(x, seq![1usize], 0) == x);
    assert(painted(cells, w, y, x, style, seq![text], seq![1usize], 0) == cells);
    assert(put_cluster(cells, w, y, x, style, text, 1) =~= cells.update(
        grid_index(w, x, y),
        Some((style, text)),
    ));
}

/// A cluster of width 2 placed at column 2 of a row at least 4 columns wide
/// shows in column 2 and covers column 3, and nothing else changes; a
/// cluster of width 1 placed afterwards at column 3 replaces the covered
/// cell with a different value.
pub proof fn lemma_wide_cluster_placement(
    cells: Seq<CellView>,
    w: int,
    h: int,
    y: int,
    style: Style,
    text: Seq<char>,
    style2: Style,
    text2: Seq<char>,
)
    requires
        w >= 4,
        0 <= y < h,
        cells.len() == w * h,
    ensures
        ({
            let after = painted(cells, w, y, 2, style, seq![text], seq![2usize], 1);
            let again = painted(after, w, y, 3, style2, seq![text2], seq![1usize], 1);
            &&& after.len() == cells.len()
            &&& after[grid_index(w, 2, y)] == Some((style, text))
            &&& after[grid_index(w, 3, y)] == None::<(Style, Seq<char>)>
            &&& forall|k: int|
                0 <= k < cells.len() && k != grid_index(w, 2, y) && k != grid_index(w, 3, y)
                    ==> #[trigger] after[k] == cells[k]
            &&& again[grid_index(w, 3, y)] == Some((style2, text2))
            &&& again[grid_index(w, 3, y)] != after[grid_index(w, 3, y)]
        }),
{
    lemma_grid_index_bounds(w, h, 3, y);
    assert(cluster_col(2, seq![2usize], 0) == 2);
    assert(painted(cells, w, y, 2, style, seq![text], seq![2usize], 0) == cells);
    let after = painted(cells, w, y, 2, style, seq![text], seq![2usize], 1);
    assert(after == put_cluster(cells, w, y, 2, style, text, 2));
    lemma_place_narrow(after, w, h, 3, y, style2, text2);
}

/// Rows after the first hold no fresh cell, and neither do the columns of
/// the first row from `a` on: all writes come from columns `0 .. a` of the
/// first row.
proof fn lemma_only_first_columns(frame: Seq<CellView>, screen: Seq<CellView>, w: int, h: int, a: int)
    requires
        0 <= a <= w,
        h >= 1,
        forall|k: int|
            #![trigger frame[k]]
            #![trigger screen[k]]
            a <= k < w * h ==> frame[k] == screen[k],
        w * h == frame.len(),
    ensures
        frame_commands(frame, screen, w, h) == row_commands(frame, screen, w, 0, a),
{
    assert forall|x: int, y: int| 0 <= x < w && 1 <= y < h implies !fresh(
        frame,
        screen,
        #[trigger] grid_index(w, x, y),
    ) by {
        lemma_grid_index_bounds(w, h, x, y);
        assert(y * w >= w) by (nonlinear_arith)
            requires
                y >= 1,
                w >= 0,
        ;
    }
    lemma_frame_commands_quiet_rows(frame, screen, w, 1, h);
    assert forall|x: int| a <= x < w implies !fresh(frame, screen, #[trigger] grid_index(w, x, 0)) by {
        lemma_grid_index_bounds(w, h, x, 0);
    }
    lemma_row_commands_quiet_tail(frame, screen, w, 0, a, w);
    assert(frame_commands(frame, screen, w, 0) =~= Seq::<CommandView>::empty());
    assert(frame_commands(frame, screen, w, 1) =~= row_commands(frame, screen, w, 0, w));
}

/// Printing a one-column text at the top-left corner of a screen that
/// shows another cell there makes a refresh send exactly that text; printing
/// it again leaves the frame as it was, and the next refresh sends nothing.
pub proof fn lemma_print_twice_refresh(screen: Seq<CellView>, w: int, h: int, style: Style, a: Seq<char>)
    requires
        w >= 1,
        h >= 1,
        screen.len() == w * h,
        a.len() > 0,
        screen[0] != Some((style, a)),
    ensures
        ({
            let f1 = painted(screen, w, 0, 0, style, seq![a], seq![1usize], 1);
            let f2 = painted(f1, w, 0, 0, style, seq![a], seq![1usize], 1);
            &&& frame_commands(f1, screen, w, h) == seq![(Vec2 { x: 0, y: 0 }, style, a)]
            &&& f2 == f1
            &&& frame_commands(f2, f1, w, h) == Seq::<CommandView>::empty()
        }),
{
    lemma_grid_index_bounds(w, h, 0, 0);
    lemma_place_narrow(screen, w, h, 0, 0, style, a);
    let f1 = painted(screen, w, 0, 0, style, seq![a], seq![1usize], 1);
    lemma_place_narrow(f1, w, h, 0, 0, style, a);
    assert(f1.update(0, Some((style, a))) =~= f1);
    lemma_only_first_columns(f1, screen, w, h, 1);
    assert(fresh(f1, screen, 0));
    assert(!joins(f1, screen, w, 0, 1));
    assert(run_start(f1, screen, w, 0, 0) == 0);
    assert(run_text(f1, w, 0, 0, 0) =~= Seq::<char>::empty());
    assert(run_text(f1, w, 0, 0, 1) =~= a);
    assert(row_commands(f1, screen, w, 0, 0) =~= Seq::<CommandView>::empty());
    assert(row_commands(f1, screen, w, 0, 1) =~= seq![(Vec2 { x: 0, y: 0 }, style, a)]);
    lemma_shown_frame_needs_no_commands(f1, w, h);
}

/// Two one-column texts printed side by side at the start of the first row
/// in one style make a refresh send a single write of both; in two
/// different styles, two writes.
pub proof fn lemma_adjacent_runs(
    screen: Seq<CellView>,
    w: int,
    h: int,
    s1: Style,
    s2: Style,
    a: Seq<char>,
    b: Seq<char>,
)
    requires
        w >= 2,
        h >= 1,
        screen.len() == w * h,
        a.len() > 0,
        b.len() > 0,
        screen[0] != Some((s1, a)),
        screen[1] != Some((s2, b)),
    ensures
        s1 == s2 ==> frame_commands(
            painted(screen, w, 0, 0, s1, seq![a, b], seq![1usize, 1usize], 2),
            screen,
            w,
            h,
        ) == seq![(Vec2 { x: 0, y: 0 }, s1, a + b)],
        s1 != s2 ==> frame_commands(
            painted(
                painted(screen, w, 0, 0, s1, seq![a], seq![1usize], 1),
                w,
                0,
                1,
                s2,
                seq![b],
                seq![1usize],
                1,
            ),
            screen,
            w,
            h,
        ) == seq![(Vec2 { x: 0, y: 0 }, s1, a), (Vec2 { x: 1, y: 0 }, s2, b)],
{
    lemma_grid_index_bounds(w, h, 0, 0);
    lemma_grid_index_bounds(w, h, 1, 0);
    let both = screen.update(0, Some((s1, a))).update(1, Some((s2, b)));
    lemma_place_narrow(screen, w, h, 0, 0, s1, a);
    let f1 = painted(screen, w, 0, 0, s1, seq![a], seq![1usize], 1);
    lemma_place_narrow(f1, w, h, 1, 0, s2, b);
    lemma_grid_index_bounds(w, h, 1, 0);
    lemma_only_first_columns(both, screen, w, h, 2);
    assert(run_text(both, w, 0, 0, 0) =~= Seq::<char>::empty());
    assert(run_text(both, w, 0, 0, 1) =~= a);
    assert(run_text(both, w, 0, 1, 1) =~= Seq::<char>::empty());
    assert(run_text(both, w, 0, 1, 2) =~= b);
    assert(run_text(both, w, 0, 0, 2) =~= a + b);
    assert(!joins(both, screen, w, 0, 2));
    assert(row_commands(both, screen, w, 0, 0) =~= Seq::<CommandView>::empty());
    if s1 == s2 {
        let ws = seq![1usize, 1usize];
        assert(cluster_col(0, ws, 0) == 0);
        assert(cluster_col(0, ws, 1) == 1);
        let p0 = painted(screen, w, 0, 0, s1, seq![a, b], ws, 0);
        let p1 = painted(screen, w, 0, 0, s1, seq![a, b], ws, 1);
        assert(p0 == screen);
        assert(p1 =~= put_cluster(screen, w, 0, 0, s1, a, 1));
        assert(p1 =~= screen.update(0, Some((s1, a))));
        assert(painted(screen, w, 0, 0, s1, seq![a, b], ws, 2) =~= put_cluster(p1, w, 0, 1, s1, b, 1));
        assert(put_cluster(p1, w, 0, 1, s1, b, 1) =~= both);
        assert(joins(both, screen, w, 0, 1));
        assert(run_start(both, screen, w, 0, 0) == 0);
        assert(run_start(both, screen, w, 0, 1) == 0);
        assert(row_commands(both, screen, w, 0, 1) =~= Seq::<CommandView>::empty());
        assert(row_commands(both, screen, w, 0, 2) =~= seq![(Vec2 { x: 0, y: 0 }, s1, a + b)]);
    } else {
        assert(painted(f1, w, 0, 1, s2, seq![b], seq![1usize], 1) =~= both);
        assert(!joins(both, screen, w, 0, 1));
        assert(run_start(both, screen, w, 0, 1) == 1);
        assert(row_commands(both, screen, w, 0, 1) =~= seq![(Vec2 { x: 0, y: 0 }, s1, a)]);
        assert(row_commands(both, screen, w, 0, 2) =~= seq![
            (Vec2 { x: 0, y: 0 }, s1, a),
            (Vec2 { x: 1, y: 0 }, s2, b),
        ]);
    }
}

} // verus!
