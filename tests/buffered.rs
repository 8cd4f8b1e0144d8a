use cursive_buffered_backend::backend::{BufferedBackend, Command, StyledText};
use cursive_buffered_backend::buffer::{Buffer, SetResult};
use cursive_buffered_backend::rect::Rect;
use cursive_buffered_backend::style::{
    background_style, effect_list, BaseColor, Color, ColorPair, Effect, EffectSet, Style, Vec2,
};

fn glyph(style: Style, text: &str) -> StyledText {
    Some((style, text.to_string()))
}

fn red_on_blue() -> Style {
    Style {
        effects: EffectSet::new(),
        color_pair: ColorPair { front: Color::Dark(BaseColor::Red), back: Color::Dark(BaseColor::Blue) },
    }
}

fn command(x: usize, y: usize, style: Style, text: &str) -> Command {
    Command { pos: Vec2::new(x, y), style, text: text.to_string() }
}

/// A backend whose screen already shows its blank frame.
fn shown_backend(w: usize, h: usize) -> BufferedBackend {
    let mut b = BufferedBackend::new(Vec2::new(w, h));
    b.refresh();
    b
}

#[test]
fn buffer_new_fills_every_cell() {
    let b: Buffer<StyledText> = Buffer::new(Vec2::new(3, 2), glyph(background_style(), "x"));
    assert_eq!(b.size(), Vec2::new(3, 2));
    for y in 0..2 {
        for x in 0..3 {
            assert_eq!(*b.get_item(x, y), glyph(background_style(), "x"));
        }
    }
}

#[test]
fn buffer_empty_grid() {
    let mut b: Buffer<StyledText> = Buffer::new(Vec2::new(0, 0), None);
    assert_eq!(b.size(), Vec2::new(0, 0));
    assert_eq!(b.set_item(0, 0, None), SetResult::OutOfBounds);
}

#[test]
fn buffer_set_item_reports_each_outcome() {
    let mut b: Buffer<StyledText> = Buffer::new(Vec2::new(4, 3), None);
    assert_eq!(b.set_item(4, 0, glyph(red_on_blue(), "a")), SetResult::OutOfBounds);
    assert_eq!(b.set_item(0, 3, glyph(red_on_blue(), "a")), SetResult::OutOfBounds);
    assert_eq!(b.set_item(1, 2, None), SetResult::SameValue);
    assert_eq!(b.set_item(1, 2, glyph(red_on_blue(), "a")), SetResult::DifferentValue);
    assert_eq!(*b.get_item(1, 2), glyph(red_on_blue(), "a"));
    assert_eq!(b.set_item(1, 2, glyph(red_on_blue(), "a")), SetResult::SameValue);
    assert_eq!(b.set_item(1, 2, glyph(background_style(), "a")), SetResult::DifferentValue);
    assert_eq!(b.set_item(1, 2, glyph(background_style(), "b")), SetResult::DifferentValue);
    assert_eq!(*b.get_item(1, 2), glyph(background_style(), "b"));
    assert_eq!(*b.get_item(0, 0), None);
}

#[test]
fn buffer_resize_refills_every_cell() {
    let mut b: Buffer<StyledText> = Buffer::new(Vec2::new(2, 2), None);
    b.set_item(0, 0, glyph(red_on_blue(), "q"));
    b.resize(Vec2::new(3, 4), glyph(background_style(), " "));
    assert_eq!(b.size(), Vec2::new(3, 4));
    for y in 0..4 {
        for x in 0..3 {
            assert_eq!(*b.get_item(x, y), glyph(background_style(), " "));
        }
    }
    b.resize(Vec2::new(1, 1), None);
    assert_eq!(*b.get_item(0, 0), None);
}

#[test]
fn rect_starts_empty_and_grows() {
    let mut r = Rect::new();
    assert_eq!(r.x_range, usize::MAX..0);
    assert_eq!(r.y_range, usize::MAX..0);
    r.encompass_pos(3, 5);
    assert_eq!(r.x_range, 3..4);
    assert_eq!(r.y_range, 5..6);
    r.encompass_pos(1, 7);
    assert_eq!(r.x_range, 1..4);
    assert_eq!(r.y_range, 5..8);
    let copy = r.clone();
    r.reset();
    assert_eq!(r.x_range, usize::MAX..0);
    assert_eq!(copy.x_range, 1..4);
}

#[test]
fn effect_list_follows_fixed_order() {
    let mut set = EffectSet::new();
    assert!(effect_list(&set).is_empty());
    set.insert(Effect::Underline);
    set.insert(Effect::Simple);
    set.insert(Effect::Bold);
    assert_eq!(effect_list(&set), vec![Effect::Simple, Effect::Bold, Effect::Underline]);
    set.remove(Effect::Simple);
    assert!(!set.contains(Effect::Simple));
    assert_eq!(effect_list(&set), vec![Effect::Bold, Effect::Underline]);
}

#[test]
fn first_refresh_sends_whole_blank_screen() {
    let mut b = BufferedBackend::new(Vec2::new(3, 2));
    let cmds = b.refresh();
    assert_eq!(
        cmds,
        vec![command(0, 0, background_style(), "   "), command(0, 1, background_style(), "   ")]
    );
}

#[test]
fn second_refresh_sends_nothing() {
    let mut b = BufferedBackend::new(Vec2::new(4, 3));
    b.print_at(Vec2::new(1, 1), "hi");
    assert!(!b.refresh().is_empty());
    assert!(b.refresh().is_empty());
}

#[test]
fn same_print_twice_sends_once() {
    let mut b = shown_backend(5, 2);
    b.set_color(red_on_blue().color_pair);
    b.print_at(Vec2::new(0, 0), "A");
    assert_eq!(b.refresh(), vec![command(0, 0, red_on_blue(), "A")]);
    b.print_at(Vec2::new(0, 0), "A");
    assert!(b.refresh().is_empty());
}

#[test]
fn wide_cluster_covers_next_column() {
    let mut b = shown_backend(6, 1);
    b.print_at(Vec2::new(2, 0), "日");
    assert_eq!(*b.get_cell(2, 0), glyph(background_style(), "日"));
    assert_eq!(*b.get_cell(3, 0), None);
    assert_eq!(*b.get_cell(4, 0), glyph(background_style(), " "));
    let mut grid: Buffer<StyledText> = Buffer::new(Vec2::new(6, 1), None);
    assert_eq!(grid.set_item(3, 0, glyph(background_style(), "x")), SetResult::DifferentValue);
    b.print_at(Vec2::new(3, 0), "x");
    assert_eq!(*b.get_cell(3, 0), glyph(background_style(), "x"));
}

#[test]
fn wide_cluster_cut_at_right_edge() {
    let mut b = shown_backend(3, 1);
    b.print_at(Vec2::new(2, 0), "日");
    assert_eq!(*b.get_cell(2, 0), glyph(background_style(), "日"));
    assert_eq!(*b.get_cell(1, 0), glyph(background_style(), " "));
}

#[test]
fn same_style_neighbours_merge() {
    let mut b = shown_backend(5, 2);
    b.set_color(red_on_blue().color_pair);
    b.print_at(Vec2::new(0, 0), "AB");
    assert_eq!(b.refresh(), vec![command(0, 0, red_on_blue(), "AB")]);
}

#[test]
fn different_style_neighbours_split() {
    let mut b = shown_backend(5, 2);
    b.set_color(red_on_blue().color_pair);
    b.print_at(Vec2::new(0, 0), "A");
    b.set_effect(Effect::Bold);
    b.print_at(Vec2::new(1, 0), "B");
    let mut bold = red_on_blue();
    bold.effects.insert(Effect::Bold);
    assert_eq!(
        b.refresh(),
        vec![command(0, 0, red_on_blue(), "A"), command(1, 0, bold, "B")]
    );
}

#[test]
fn text_past_right_edge_is_cut() {
    let mut b = shown_backend(5, 2);
    b.set_color(red_on_blue().color_pair);
    b.print_at(Vec2::new(3, 1), "hello");
    assert_eq!(*b.get_cell(3, 1), glyph(red_on_blue(), "h"));
    assert_eq!(*b.get_cell(4, 1), glyph(red_on_blue(), "e"));
    assert_eq!(b.refresh(), vec![command(3, 1, red_on_blue(), "he")]);
}

#[test]
fn print_outside_the_grid_is_dropped() {
    let mut b = shown_backend(4, 2);
    b.print_at(Vec2::new(0, 2), "zz");
    b.print_at(Vec2::new(9, 0), "zz");
    assert!(b.refresh().is_empty());
}

#[test]
fn combining_mark_stays_with_its_base() {
    let mut b = shown_backend(4, 1);
    b.print_at(Vec2::new(0, 0), "e\u{301}x");
    assert_eq!(*b.get_cell(0, 0), glyph(background_style(), "e\u{301}"));
    assert_eq!(*b.get_cell(1, 0), glyph(background_style(), "x"));
}

#[test]
fn zero_width_cluster_is_dropped() {
    let mut b = shown_backend(4, 1);
    b.print_at(Vec2::new(0, 0), "\u{200b}y");
    assert_eq!(*b.get_cell(0, 0), glyph(background_style(), "y"));
    assert_eq!(*b.get_cell(1, 0), glyph(background_style(), " "));
}

#[test]
fn unchanged_cell_splits_a_run() {
    let mut b = shown_backend(5, 1);
    b.print_at(Vec2::new(0, 0), "a b");
    assert_eq!(
        b.refresh(),
        vec![command(0, 0, background_style(), "a"), command(2, 0, background_style(), "b")]
    );
}

#[test]
fn clear_resends_every_cell() {
    let mut b = shown_backend(2, 1);
    b.set_color(red_on_blue().color_pair);
    let green = Color::Light(BaseColor::Green);
    b.clear(Vec2::new(3, 1), green);
    assert_eq!(b.size(), Vec2::new(3, 1));
    let clear_style = Style {
        effects: EffectSet::new(),
        color_pair: ColorPair { front: green, back: green },
    };
    assert_eq!(b.refresh(), vec![command(0, 0, clear_style, "   ")]);
    assert_eq!(b.set_color(red_on_blue().color_pair), background_style().color_pair);
}

#[test]
fn set_color_returns_previous_pair() {
    let mut b = BufferedBackend::new(Vec2::new(1, 1));
    let first = b.set_color(red_on_blue().color_pair);
    assert_eq!(first, background_style().color_pair);
    let second = b.set_color(background_style().color_pair);
    assert_eq!(second, red_on_blue().color_pair);
    b.set_effect(Effect::Italic);
    b.unset_effect(Effect::Italic);
    b.print_at(Vec2::new(0, 0), "k");
    assert_eq!(b.pending_commands(), vec![command(0, 0, background_style(), "k")]);
}

#[test]
fn long_text_does_not_wrap_to_next_row() {
    let mut b = shown_backend(3, 2);
    b.print_at(Vec2::new(1, 0), "wxyz");
    assert_eq!(*b.get_cell(1, 0), glyph(background_style(), "w"));
    assert_eq!(*b.get_cell(2, 0), glyph(background_style(), "x"));
    for x in 0..3 {
        assert_eq!(*b.get_cell(x, 1), glyph(background_style(), " "));
    }
    assert_eq!(b.refresh(), vec![command(1, 0, background_style(), "wx")]);
}
