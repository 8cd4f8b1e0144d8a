//! The buffering layer: a frame of styled cells, the cells last sent to the
//! terminal, and the commands that bring the terminal up to date.
use vstd::prelude::*;
use vstd::string::StringExecFns;
use crate::buffer::{Buffer, CellValue, grid_index};
use crate::place::{cluster_col, painted, put_cluster};
use crate::runs::{
    command_views, compact_runs, frame_commands, lemma_shown_frame_needs_no_commands, CommandView,
};
use crate::unicode::{display_width, grapheme_clusters, graphemes, width};
use crate::style::{background_style, spec_background_style, Color, ColorPair, Effect, EffectSet, Style, Vec2};

verus! {

/// A cell: `Some((style, text))` for a cell that shows `text`, one grapheme
/// cluster; `None` for a column covered by the wide cluster on its left.
pub type StyledText = Option<(Style, String)>;

/// What a cell holds, with its text as a sequence of characters.
pub type CellView = Option<(Style, Seq<char>)>;

impl CellValue for Option<(Style, String)> {
    fn duplicate(&self) -> (r: Self) {
        match self {
            Some((style, text)) => Some((*style, text.clone())),
            None => None,
        }
    }

    fn same_value(&self, other: &Self) -> (r: bool) {
        match (self, other) {
            (Some((s1, t1)), Some((s2, t2))) => *s1 == *s2 && *t1 == *t2,
            (None, None) => true,
            _ => false,
        }
    }
}

/// The display width of each cluster.
pub open spec fn widths_of(clusters: Seq<Seq<char>>) -> Seq<usize> {
    clusters.map_values(|c: Seq<char>| display_width(c))
}

/// A cell that shows a blank in `style`.
pub open spec fn blank(style: Style) -> CellView {
    Some((style, seq![' ']))
}

/// The style of a cleared screen of color `color`.
pub open spec fn clear_style(color: Color) -> Style {
    Style { effects: EffectSet::empty(), color_pair: ColorPair { front: color, back: color } }
}

/// One write to the terminal: `text` in `style`, starting at `pos`.
#[derive(Debug, PartialEq, Eq)]
pub struct Command {
    pub pos: Vec2,
    pub style: Style,
    pub text: String,
}

impl View for Command {
    type V = (Vec2, Style, Seq<char>);

    open spec fn view(&self) -> (Vec2, Style, Seq<char>) {
        (self.pos, self.style, self.text@)
    }
}

/// The frame being drawn, the cells last sent to the terminal, and the style
/// that the next print paints with.
pub struct BufferedBackend {
    write_buffer: Buffer<StyledText>,
    read_buffer: Buffer<StyledText>,
    current_style: Style,
}

impl BufferedBackend {
    /// Columns and rows of the grid.
    pub closed spec fn spec_size(&self) -> Vec2 {
        self.write_buffer.spec_size()
    }

    /// The frame being drawn, row after row.
    pub closed spec fn frame(&self) -> Seq<CellView> {
        self.write_buffer.cells()
    }

    /// The cells as last sent to the terminal; `None` where nothing is known
    /// to be there.
    pub closed spec fn screen(&self) -> Seq<CellView> {
        self.read_buffer.cells()
    }

    /// The style that the next print paints with.
    pub closed spec fn style(&self) -> Style {
        self.current_style
    }

    pub closed spec fn wf(&self) -> bool {
        &&& self.write_buffer.wf()
        &&& self.read_buffer.wf()
        &&& self.write_buffer.spec_size() == self.read_buffer.spec_size()
    }

    pub proof fn lemma_wf(&self)
        requires
            self.wf(),
        ensures
            self.frame().len() == self.spec_size().x * self.spec_size().y,
            self.screen().len() == self.spec_size().x * self.spec_size().y,
    {
        self.write_buffer.lemma_wf_len();
        self.read_buffer.lemma_wf_len();
    }

    /// After a refresh the terminal shows the frame: until something is
    /// printed or cleared, a further refresh sends no command.
    pub proof fn lemma_refresh_again_sends_nothing(&self)
        requires
            self.wf(),
            self.screen() == self.frame(),
        ensures
            frame_commands(
                self.frame(),
                self.screen(),
                self.spec_size().x as int,
                self.spec_size().y as int,
            ) == Seq::<CommandView>::empty(),
    {
        lemma_shown_frame_needs_no_commands(
            self.frame(),
            self.spec_size().x as int,
            self.spec_size().y as int,
        );
    }

    /// A backend for a screen of `screen_size`: every cell of the frame is a
    /// blank in the background style, nothing is known of the screen, and
    /// the current style is the background style.
    pub fn new(screen_size: Vec2) -> (r: BufferedBackend)
        requires
            screen_size.x * screen_size.y <= usize::MAX,
        ensures
            r.wf(),
            r.spec_size() == screen_size,
            r.style() == spec_background_style(),
            forall|i: int| 0 <= i < r.frame().len() ==> #[trigger] r.frame()[i] == blank(
                spec_background_style(),
            ),
            forall|i: int| 0 <= i < r.screen().len() ==> #[trigger] r.screen()[i] == None::<
                (Style, Seq<char>),
            >,
    {
        proof {
            reveal_strlit(" ");
        }
        let fill: StyledText = Some((background_style(), String::from_str(" ")));
        BufferedBackend {
            write_buffer: Buffer::new(screen_size, fill),
            read_buffer: Buffer::new(screen_size, None),
            current_style: background_style(),
        }
    }

    /// Takes the grid to `screen_size` and fills the frame with blanks in
    /// `new_style`; forgets what the screen shows, so that the next refresh
    /// sends every cell.
    pub fn resize_and_clear(&mut self, screen_size: Vec2, new_style: Style)
        requires
            screen_size.x * screen_size.y <= usize::MAX,
        ensures
            final(self).wf(),
            final(self).spec_size() == screen_size,
            final(self).style() == old(self).style(),
            forall|i: int| 0 <= i < final(self).frame().len() ==> #[trigger] final(self).frame()[i]
                == blank(new_style),
            forall|i: int| 0 <= i < final(self).screen().len() ==> #[trigger] final(self).screen()[i]
                == None::<(Style, Seq<char>)>,
    {
        proof {
            reveal_strlit(" ");
        }
        self.write_buffer.resize(screen_size, Some((new_style, String::from_str(" "))));
        self.read_buffer.resize(screen_size, None);
    }

    /// Clears the whole frame to `color`, at the size `screen_size` that the
    /// terminal reports, marks every cell to be sent again, and resets the
    /// current style to the background style.
    pub fn clear(&mut self, screen_size: Vec2, color: Color)
        requires
            screen_size.x * screen_size.y <= usize::MAX,
        ensures
            final(self).wf(),
            final(self).spec_size() == screen_size,
            final(self).style() == spec_background_style(),
            forall|i: int| 0 <= i < final(self).frame().len() ==> #[trigger] final(self).frame()[i]
                == blank(clear_style(color)),
            forall|i: int| 0 <= i < final(self).screen().len() ==> #[trigger] final(self).screen()[i]
                == None::<(Style, Seq<char>)>,
    {
        let style = Style {
            effects: EffectSet::new(),
            color_pair: ColorPair { front: color, back: color },
        };
        self.resize_and_clear(screen_size, style);
        self.current_style = background_style();
    }

    /// The frame's cell at column `x`, row `y`.
    pub fn get_cell(&self, x: usize, y: usize) -> (r: &StyledText)
        requires
            self.wf(),
            x < self.spec_size().x,
            y < self.spec_size().y,
        ensures
            r.deep_view() == self.frame()[grid_index(self.spec_size().x as int, x as int, y as int)],
    {
        self.write_buffer.get_item(x, y)
    }

    /// Columns and rows of the grid.
    pub fn size(&self) -> (r: Vec2)
        ensures
            r == self.spec_size(),
    {
        self.write_buffer.size()
    }

    /// Paints with `colors` from now on; returns the colors painted with
    /// until now.
    pub fn set_color(&mut self, colors: ColorPair) -> (r: ColorPair)
        ensures
            r == old(self).style().color_pair,
            final(self).style() == (Style { color_pair: colors, ..old(self).style() }),
            final(self).frame() == old(self).frame(),
            final(self).screen() == old(self).screen(),
            final(self).spec_size() == old(self).spec_size(),
            final(self).wf() == old(self).wf(),
    {
        let previous = self.current_style.color_pair;
        self.current_style.color_pair = colors;
        previous
    }

    /// Adds `effect` to the current style.
    pub fn set_effect(&mut self, effect: Effect)
        ensures
            final(self).style().color_pair == old(self).style().color_pair,
            forall|e: Effect| #[trigger] final(self).style().effects.has(e) == (e == effect
                || old(self).style().effects.has(e)),
            final(self).frame() == old(self).frame(),
            final(self).screen() == old(self).screen(),
            final(self).spec_size() == old(self).spec_size(),
            final(self).wf() == old(self).wf(),
    {
        self.current_style.effects.insert(effect);
    }

    /// Takes `effect` out of the current style.
    pub fn unset_effect(&mut self, effect: Effect)
        ensures
            final(self).style().color_pair == old(self).style().color_pair,
            forall|e: Effect| #[trigger] final(self).style().effects.has(e) == (e != effect
                && old(self).style().effects.has(e)),
            final(self).frame() == old(self).frame(),
            final(self).screen() == old(self).screen(),
            final(self).spec_size() == old(self).spec_size(),
            final(self).wf() == old(self).wf(),
    {
        self.current_style.effects.remove(effect);
    }

    /// The writes that would bring the terminal from what it shows to the
    /// frame, in the order in which they must be sent.
    pub fn pending_commands(&self) -> (r: Vec<Command>)
        requires
            self.wf(),
        ensures
            command_views(r@) == frame_commands(
                self.frame(),
                self.screen(),
                self.spec_size().x as int,
                self.spec_size().y as int,
            ),
    {
        compact_runs(&self.write_buffer, &self.read_buffer)
    }

    /// Returns the writes that bring the terminal up to date with the frame,
    /// and records that the terminal now shows the frame. The frame itself
    /// is kept, and the record of the screen becomes a copy of it, so that a
    /// caller that draws only part of the next frame still draws over what
    /// is on the screen, and a refresh with nothing drawn in between sends
    /// nothing.
    pub fn refresh(&mut self) -> (r: Vec<Command>)
        requires
            old(self).wf(),
        ensures
            command_views(r@) == frame_commands(
                old(self).frame(),
                old(self).screen(),
                old(self).spec_size().x as int,
                old(self).spec_size().y as int,
            ),
            final(self).wf(),
            final(self).spec_size() == old(self).spec_size(),
            final(self).frame() == old(self).frame(),
            final(self).screen() == old(self).frame(),
            final(self).style() == old(self).style(),
    {
        let cmds = compact_runs(&self.write_buffer, &self.read_buffer);
        self.read_buffer.copy_from(&self.write_buffer);
        cmds
    }

    /// Places `clusters`, of the display `widths`, one after the other from
    /// `pos` in the current style. A cluster of width 0 takes no column and
    /// is dropped; a wider one shows in its first column and covers the
    /// next ones; whatever falls past the right edge, or on a row past the
    /// bottom, is dropped without error.
    pub fn print_clusters(&mut self, pos: Vec2, clusters: &Vec<String>, widths: &Vec<usize>)
        requires
            old(self).wf(),
            clusters@.len() == widths@.len(),
        ensures
            final(self).wf(),
            final(self).spec_size() == old(self).spec_size(),
            final(self).style() == old(self).style(),
            final(self).screen() == old(self).screen(),
            final(self).frame() == if pos.y < old(self).spec_size().y {
                painted(
                    old(self).frame(),
                    old(self).spec_size().x as int,
                    pos.y as int,
                    pos.x as int,
                    old(self).style(),
                    clusters@.map_values(|c: String| c@),
                    widths@,
                    clusters@.len() as int,
                )
            } else {
                old(self).frame()
            },
    {
        let size = self.write_buffer.size();
        let w = size.x;
        let h = size.y;
        if pos.y >= h {
            return;
        }
        let y = pos.y;
        let style = self.current_style;
        let ghost cs = clusters@.map_values(|c: String| c@);
        let ghost start = self.frame();
        let mut x: usize = if pos.x < w {
            pos.x
        } else {
            w
        };
        let mut i: usize = 0;
        while i < clusters.len()
            invariant
                i <= clusters@.len(),
                clusters@.len() == widths@.len(),
                cs == clusters@.map_values(|c: String| c@),
                self.wf(),
                self.spec_size() == size,
                w == size.x,
                h == size.y,
                y < h,
                style == self.current_style,
                self.screen() == old(self).screen(),
                start == old(self).frame(),
                x == if cluster_col(pos.x as int, widths@, i as int) < w {
                    cluster_col(pos.x as int, widths@, i as int)
                } else {
                    w as int
                },
                self.frame() == painted(start, w as int, y as int, pos.x as int, style, cs, widths@, i as int),
            decreases clusters@.len() - i,
        {
            let wd = widths[i];
            let ghost before = self.frame();
            proof {
                self.lemma_wf();
            }
            if wd > 0 && x < w {
                proof {
                    crate::buffer::lemma_grid_index_bounds(w as int, h as int, x as int, y as int);
                }
                let ghost first = grid_index(w as int, x as int, y as int);
                self.write_buffer.set_item(x, y, Some((style, clusters[i].clone())));
                let mut k: usize = 1;
                while k < wd && k < w - x
                    invariant
                        1 <= k <= wd,
                        i < clusters@.len(),
                        cs == clusters@.map_values(|c: String| c@),
                        style == self.current_style,
                        k <= w - x,
                        x < w,
                        y < h,
                        self.wf(),
                        self.spec_size() == size,
                        w == size.x,
                        h == size.y,
                        first == grid_index(w as int, x as int, y as int),
                        self.screen() == old(self).screen(),
                        self.frame().len() == before.len(),
                        forall|j: int|
                            0 <= j < before.len() ==> #[trigger] self.frame()[j] == if first <= j
                                < first + k {
                                if j == first {
                                    Some((style, cs[i as int]))
                                } else {
                                    None
                                }
                            } else {
                                before[j]
                            },
                    decreases wd - k,
                {
                    proof {
                        crate::buffer::lemma_grid_index_bounds(w as int, h as int, (x + k) as int, y as int);
                        self.lemma_wf();
                    }
                    self.write_buffer.set_item(x + k, y, None);
                    k = k + 1;
                }
                assert(self.frame() =~= put_cluster(before, w as int, y as int, x as int, style, cs[i as int], wd as int));
            } else {
                assert(before =~= put_cluster(before, w as int, y as int, cluster_col(pos.x as int, widths@, i as int), style, cs[i as int], wd as int));
            }
            x = if wd >= w - x {
                w
            } else {
                x + wd
            };
            i = i + 1;
        }
    }

    /// Prints `text` from `pos` in the current style: splits it into
    /// grapheme clusters, measures each, and places them as
    /// `print_clusters` does.
    pub fn print_at(&mut self, pos: Vec2, text: &str)
        requires
            old(self).wf(),
        ensures
            final(self).wf(),
            final(self).spec_size() == old(self).spec_size(),
            final(self).style() == old(self).style(),
            final(self).screen() == old(self).screen(),
            final(self).frame() == if pos.y < old(self).spec_size().y {
                painted(
                    old(self).frame(),
                    old(self).spec_size().x as int,
                    pos.y as int,
                    pos.x as int,
                    old(self).style(),
                    grapheme_clusters(text@),
                    widths_of(grapheme_clusters(text@)),
                    grapheme_clusters(text@).len() as int,
                )
            } else {
                old(self).frame()
            },
    {
        let clusters = graphemes(text);
        let ghost cs = grapheme_clusters(text@);
        let mut widths: Vec<usize> = Vec::new();
        let mut i: usize = 0;
        while i < clusters.len()
            invariant
                i <= clusters@.len(),
                clusters@.len() == cs.len(),
                forall|j: int| 0 <= j < clusters@.len() ==> (#[trigger] clusters@[j])@ == cs[j],
                widths@ =~= widths_of(cs).subrange(0, i as int),
            decreases clusters@.len() - i,
        {
            widths.push(width(clusters[i].as_str()));
            i = i + 1;
        }
        assert(widths@ =~= widths_of(cs));
        assert(clusters@.map_values(|c: String| c@) =~= cs);
        self.print_clusters(pos, &clusters, &widths);
    }
}

} // verus!
