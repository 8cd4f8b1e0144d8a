//! Run compaction: the writes that bring the terminal from the cells it
//! shows to the cells of a new frame, one write per run of adjacent changed
//! cells of one style.
use vstd::prelude::*;
use vstd::string::StringExecFns;
use crate::backend::{CellView, Command, StyledText};
use crate::buffer::{grid_index, Buffer, CellValue};
use crate::style::{background_style, Style, Vec2};

verus! {

/// A command as a plain value: start position, style, text.
pub type CommandView = (Vec2, Style, Seq<char>);

pub open spec fn command_views(cmds: Seq<Command>) -> Seq<CommandView> {
    cmds.map_values(|c: Command| c@)
}

pub open spec fn style_of(c: CellView) -> Style {
    c->Some_0.0
}

pub open spec fn text_of(c: CellView) -> Seq<char> {
    c->Some_0.1
}

/// The cell at index `k` shows a cluster that the screen does not show
/// there.
pub open spec fn fresh(frame: Seq<CellView>, screen: Seq<CellView>, k: int) -> bool {
    frame[k] is Some && frame[k] != screen[k]
}

/// Column `x` of row `y` continues the run of column `x - 1`: both are
/// fresh and have the same style.
pub open spec fn joins(frame: Seq<CellView>, screen: Seq<CellView>, w: int, y: int, x: int) -> bool {
    &&& 0 < x < w
    &&& fresh(frame, screen, grid_index(w, x, y))
    &&& fresh(frame, screen, grid_index(w, x - 1, y))
    &&& style_of(frame[grid_index(w, x, y)]) == style_of(frame[grid_index(w, x - 1, y)])
}

/// The first column of the run that holds column `x` of row `y`.
pub open spec fn run_start(frame: Seq<CellView>, screen: Seq<CellView>, w: int, y: int, x: int) -> int
    decreases x,
{
    if 0 < x && joins(frame, screen, w, y, x) {
        run_start(frame, screen, w, y, x - 1)
    } else {
        x
    }
}

pub proof fn lemma_run_start_bounds(frame: Seq<CellView>, screen: Seq<CellView>, w: int, y: int, x: int)
    requires
        0 <= x,
    ensures
        0 <= run_start(frame, screen, w, y, x) <= x,
    decreases x,
{
    if 0 < x && joins(frame, screen, w, y, x) {
        lemma_run_start_bounds(frame, screen, w, y, x - 1);
    }
}

/// The texts of columns `from .. to` of row `y`, one after the other.
pub open spec fn run_text(frame: Seq<CellView>, w: int, y: int, from: int, to: int) -> Seq<char>
    decreases to - from,
{
    if to <= from {
        Seq::empty()
    } else {
        run_text(frame, w, y, from, to - 1) + text_of(frame[grid_index(w, to - 1, y)])
    }
}

/// Column `x` of row `y` is the last of a run whose text is not empty.
pub open spec fn ends_run(frame: Seq<CellView>, screen: Seq<CellView>, w: int, y: int, x: int) -> bool {
    &&& fresh(frame, screen, grid_index(w, x, y))
    &&& !joins(frame, screen, w, y, x + 1)
    &&& run_text(frame, w, y, run_start(frame, screen, w, y, x), x + 1).len() > 0
}

/// The write of the run that ends at column `x` of row `y`.
pub open spec fn run_command(frame: Seq<CellView>, screen: Seq<CellView>, w: int, y: int, x: int) -> CommandView {
    let s = run_start(frame, screen, w, y, x);
    (Vec2 { x: s as usize, y: y as usize }, style_of(frame[grid_index(w, x, y)]), run_text(frame, w, y, s, x + 1))
}

/// The writes of the runs of row `y` that end before column `n`, left to
/// right.
pub open spec fn row_commands(frame: Seq<CellView>, screen: Seq<CellView>, w: int, y: int, n: int) -> Seq<CommandView>
    decreases n,
{
    if n <= 0 {
        Seq::empty()
    } else {
        let before = row_commands(frame, screen, w, y, n - 1);
        if ends_run(frame, screen, w, y, n - 1) {
            before.push(run_command(frame, screen, w, y, n - 1))
        } else {
            before
        }
    }
}

/// The writes of rows `0 .. h`, top to bottom.
pub open spec fn frame_commands(frame: Seq<CellView>, screen: Seq<CellView>, w: int, h: int) -> Seq<CommandView>
    decreases h,
{
    if h <= 0 {
        Seq::empty()
    } else {
        frame_commands(frame, screen, w, h - 1) + row_commands(frame, screen, w, h - 1, w)
    }
}

/// Appends the write of `text` at column `x`, row `y` in `style`, unless
/// `text` is empty.
fn push_run(cmds: &mut Vec<Command>, x: usize, y: usize, style: Style, text: &String)
    ensures
        text@.len() > 0 ==> command_views(final(cmds)@) == command_views(old(cmds)@).push(
            (Vec2 { x, y }, style, text@),
        ),
        text@.len() == 0 ==> final(cmds)@ == old(cmds)@,
{
    if !text.as_str().is_empty() {
        let ghost before = cmds@;
        cmds.push(Command { pos: Vec2 { x, y }, style, text: text.clone() });
        assert(command_views(cmds@) =~= command_views(before).push((Vec2 { x, y }, style, text@)));
    }
}

/// The writes that take the terminal from `screen` to `frame`: row by row,
/// top to bottom, one write for each run of adjacent fresh cells of one
/// style, at the run's first column. A cell that the screen already shows,
/// and a covered cell (`None`), end a run; nothing is written for them.
pub fn compact_runs(frame: &Buffer<StyledText>, screen: &Buffer<StyledText>) -> (r: Vec<Command>)
    requires
        frame.wf(),
        screen.wf(),
        frame.spec_size() == screen.spec_size(),
    ensures
        command_views(r@) == frame_commands(
            frame.cells(),
            screen.cells(),
            frame.spec_size().x as int,
            frame.spec_size().y as int,
        ),
{
    let size = frame.size();
    let w = size.x;
    let h = size.y;
    let ghost fc = frame.cells();
    let ghost sc = screen.cells();
    let mut cmds: Vec<Command> = Vec::new();
    let mut y: usize = 0;
    while y < h
        invariant
            y <= h,
            frame.wf(),
            screen.wf(),
            frame.spec_size() == screen.spec_size(),
            w == frame.spec_size().x,
            h == frame.spec_size().y,
            fc == frame.cells(),
            sc == screen.cells(),
            command_views(cmds@) == frame_commands(fc, sc, w as int, y as int),
        decreases h - y,
    {
        let mut start: usize = 0;
        let mut style: Style = background_style();
        let mut text: String = String::new();
        let mut active: bool = false;
        let mut x: usize = 0;
        while x < w
            invariant
                x <= w,
                y < h,
                frame.wf(),
                screen.wf(),
                frame.spec_size() == screen.spec_size(),
                w == frame.spec_size().x,
                h == frame.spec_size().y,
                fc == frame.cells(),
                sc == screen.cells(),
                active == (x > 0 && fresh(fc, sc, grid_index(w as int, x - 1, y as int))),
                active ==> start == run_start(fc, sc, w as int, y as int, x - 1),
                active ==> style == style_of(fc[grid_index(w as int, x - 1, y as int)]),
                active ==> text@ == run_text(fc, w as int, y as int, start as int, x as int),
                command_views(cmds@) == frame_commands(fc, sc, w as int, y as int)
                    + row_commands(fc, sc, w as int, y as int, x - 1),
            decreases w - x,
        {
            proof {
                crate::buffer::lemma_grid_index_bounds(w as int, h as int, x as int, y as int);
                frame.lemma_wf_len();
                screen.lemma_wf_len();
            }
            let cell = frame.get_item(x, y);
            let shown = screen.get_item(x, y);
            let ghost k = grid_index(w as int, x as int, y as int);
            let is_fresh = cell.is_some() && !cell.same_value(shown);
            assert(is_fresh == fresh(fc, sc, k));
            let ghost before = command_views(cmds@);
            let ghost text_before = text@;
            match cell {
                Some((s, t)) => {
                    assert(fc[k] == Some((*s, t@)));
                    if is_fresh && active && *s == style {
                        proof {
                            lemma_run_start_bounds(fc, sc, w as int, y as int, x - 1);
                        }
                        assert(joins(fc, sc, w as int, y as int, x as int));
                        text.append(t.as_str());
                        assert(run_text(fc, w as int, y as int, start as int, x + 1) == text_before
                            + text_of(fc[k]));
                    } else {
                        assert(!joins(fc, sc, w as int, y as int, x as int));
                        if active {
                            push_run(&mut cmds, start, y, style, &text);
                        }
                        if is_fresh {
                            start = x;
                            style = *s;
                            text = t.clone();
                            active = true;
                            assert(run_text(fc, w as int, y as int, x as int, x as int) =~= Seq::empty());
                            assert(run_text(fc, w as int, y as int, x as int, x + 1) == Seq::empty()
                                + text_of(fc[k]));
                            assert(text@ =~= run_text(fc, w as int, y as int, x as int, x + 1));
                        } else {
                            active = false;
                        }
                    }
                },
                None => {
                    if active {
                        push_run(&mut cmds, start, y, style, &text);
                    }
                    active = false;
                },
            }
            assert(command_views(cmds@) =~= frame_commands(fc, sc, w as int, y as int)
                + row_commands(fc, sc, w as int, y as int, x as int));
            x = x + 1;
        }
        if active {
            push_run(&mut cmds, start, y, style, &text);
        }
        assert(command_views(cmds@) =~= frame_commands(fc, sc, w as int, y + 1));
        y = y + 1;
    }
    cmds
}

/// Where row `y` holds no fresh cell in columns `a .. n`, no write ends
/// there.
pub proof fn lemma_row_commands_quiet_tail(
    frame: Seq<CellView>,
    screen: Seq<CellView>,
    w: int,
    y: int,
    a: int,
    n: int,
)
    requires
        0 <= a <= n,
        forall|x: int| a <= x < n ==> !fresh(frame, screen, #[trigger] grid_index(w, x, y)),
    ensures
        row_commands(frame, screen, w, y, n) == row_commands(frame, screen, w, y, a),
    decreases n - a,
{
    if n > a {
        lemma_row_commands_quiet_tail(frame, screen, w, y, a, n - 1);
        assert(!fresh(frame, screen, grid_index(w, n - 1, y)));
    }
}

/// Where rows `a .. h` hold no fresh cell, they add no write.
pub proof fn lemma_frame_commands_quiet_rows(
    frame: Seq<CellView>,
    screen: Seq<CellView>,
    w: int,
    a: int,
    h: int,
)
    requires
        0 <= a <= h,
        0 <= w,
        forall|x: int, y: int|
            0 <= x < w && a <= y < h ==> !fresh(frame, screen, #[trigger] grid_index(w, x, y)),
    ensures
        frame_commands(frame, screen, w, h) == frame_commands(frame, screen, w, a),
    decreases h - a,
{
    if h > a {
        lemma_frame_commands_quiet_rows(frame, screen, w, a, h - 1);
        assert forall|x: int| 0 <= x < w implies !fresh(frame, screen, #[trigger] grid_index(w, x, h - 1)) by {
        }
        lemma_row_commands_quiet_tail(frame, screen, w, h - 1, 0, w);
        assert(frame_commands(frame, screen, w, h) =~= frame_commands(frame, screen, w, h - 1));
    }
}

/// When the terminal already shows the frame, nothing is to be written: a
/// second refresh with no print in between sends no command.
pub proof fn lemma_shown_frame_needs_no_commands(cells: Seq<CellView>, w: int, h: int)
    requires
        0 <= w,
        0 <= h,
    ensures
        frame_commands(cells, cells, w, h) == Seq::<CommandView>::empty(),
{
    lemma_frame_commands_quiet_rows(cells, cells, w, 0, h);
}

/// Every write starts inside the grid, at a column and row where a fresh
/// cell is, and carries text.
pub proof fn lemma_commands_in_bounds(frame: Seq<CellView>, screen: Seq<CellView>, w: int, h: int)
    requires
        0 <= w <= usize::MAX,
        0 <= h <= usize::MAX,
    ensures
        forall|i: int|
            0 <= i < frame_commands(frame, screen, w, h).len() ==> {
                let c = #[trigger] frame_commands(frame, screen, w, h)[i];
                &&& c.0.x < w
                &&& c.0.y < h
                &&& fresh(frame, screen, grid_index(w, c.0.x as int, c.0.y as int))
                &&& c.2.len() > 0
            },
    decreases h,
{
    if h > 0 {
        lemma_commands_in_bounds(frame, screen, w, h - 1);
        lemma_row_commands_in_bounds(frame, screen, w, h - 1, w);
        let prev = frame_commands(frame, screen, w, h - 1);
        let row = row_commands(frame, screen, w, h - 1, w);
        assert forall|i: int| 0 <= i < frame_commands(frame, screen, w, h).len() implies {
            let c = #[trigger] frame_commands(frame, screen, w, h)[i];
            &&& c.0.x < w
            &&& c.0.y < h
            &&& fresh(frame, screen, grid_index(w, c.0.x as int, c.0.y as int))
            &&& c.2.len() > 0
        } by {
            if i < prev.len() {
                assert(frame_commands(frame, screen, w, h)[i] == prev[i]);
            } else {
                assert(frame_commands(frame, screen, w, h)[i] == row[i - prev.len()]);
            }
        }
    }
}

/// The first column of a run is fresh.
pub proof fn lemma_run_start_fresh(frame: Seq<CellView>, screen: Seq<CellView>, w: int, y: int, x: int)
    requires
        0 <= x,
        fresh(frame, screen, grid_index(w, x, y)),
    ensures
        fresh(frame, screen, grid_index(w, run_start(frame, screen, w, y, x), y)),
    decreases x,
{
    if 0 < x && joins(frame, screen, w, y, x) {
        lemma_run_start_fresh(frame, screen, w, y, x - 1);
    }
}

pub proof fn lemma_row_commands_in_bounds(
    frame: Seq<CellView>,
    screen: Seq<CellView>,
    w: int,
    y: int,
    n: int,
)
    requires
        0 <= n <= w <= usize::MAX,
        0 <= y <= usize::MAX,
    ensures
        forall|i: int|
            0 <= i < row_commands(frame, screen, w, y, n).len() ==> {
                let c = #[trigger] row_commands(frame, screen, w, y, n)[i];
                &&& c.0.x < w
                &&& c.0.y == y
                &&& fresh(frame, screen, grid_index(w, c.0.x as int, c.0.y as int))
                &&& c.2.len() > 0
            },
    decreases n,
{
    if n > 0 {
        lemma_row_commands_in_bounds(frame, screen, w, y, n - 1);
        lemma_run_start_bounds(frame, screen, w, y, n - 1);
        if fresh(frame, screen, grid_index(w, n - 1, y)) {
            lemma_run_start_fresh(frame, screen, w, y, n - 1);
        }
        let prev = row_commands(frame, screen, w, y, n - 1);
        let cur = row_commands(frame, screen, w, y, n);
        assert forall|i: int| 0 <= i < cur.len() implies {
            let c = #[trigger] cur[i];
            &&& c.0.x < w
            &&& c.0.y == y
            &&& fresh(frame, screen, grid_index(w, c.0.x as int, c.0.y as int))
            &&& c.2.len() > 0
        } by {
            if i < prev.len() {
                assert(cur[i] == prev[i]);
            } else {
                assert(cur[i] == run_command(frame, screen, w, y, n - 1));
            }
        }
    }
}

} // verus!
