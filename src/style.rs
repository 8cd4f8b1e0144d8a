//! Plain-value model of a cell's visual attributes.
use vstd::prelude::*;

verus! {

/// A position or a size on the terminal grid, in columns (`x`) and rows (`y`).
#[derive(Clone, Copy, Debug, PartialEq, Eq, Structural)]
pub struct Vec2 {
    pub x: usize,
    pub y: usize,
}

impl Vec2 {
    pub fn new(x: usize, y: usize) -> (r: Vec2)
        ensures
            r.x == x,
            r.y == y,
    {
        Vec2 { x, y }
    }
}

/// The eight base colors of a terminal palette.
#[derive(Clone, Copy, Debug, PartialEq, Eq, Structural)]
pub enum BaseColor {
    Black,
    Red,
    Green,
    Yellow,
    Blue,
    Magenta,
    Cyan,
    White,
}

/// A terminal color.
#[derive(Clone, Copy, Debug, PartialEq, Eq, Structural)]
pub enum Color {
    TerminalDefault,
    Dark(BaseColor),
    Light(BaseColor),
    Rgb(u8, u8, u8),
    RgbLowRes(u8, u8, u8),
}

/// Foreground and background colors.
#[derive(Clone, Copy, Debug, PartialEq, Eq, Structural)]
pub struct ColorPair {
    pub front: Color,
    pub back: Color,
}

/// A text effect.
#[derive(Clone, Copy, Debug, PartialEq, Eq, Structural)]
pub enum Effect {
    Simple,
    Reverse,
    Bold,
    Italic,
    Underline,
}

/// A set of text effects, one flag per effect.
#[derive(Clone, Copy, Debug, PartialEq, Eq, Structural)]
pub struct EffectSet {
    pub simple: bool,
    pub reverse: bool,
    pub bold: bool,
    pub italic: bool,
    pub underline: bool,
}

impl EffectSet {
    /// Whether `e` is in the set.
    pub open spec fn has(self, e: Effect) -> bool {
        match e {
            Effect::Simple => self.simple,
            Effect::Reverse => self.reverse,
            Effect::Bold => self.bold,
            Effect::Italic => self.italic,
            Effect::Underline => self.underline,
        }
    }

    /// The empty set.
    pub open spec fn empty() -> EffectSet {
        EffectSet { simple: false, reverse: false, bold: false, italic: false, underline: false }
    }

    pub fn new() -> (r: EffectSet)
        ensures
            r == EffectSet::empty(),
            forall|e: Effect| !r.has(e),
    {
        EffectSet { simple: false, reverse: false, bold: false, italic: false, underline: false }
    }

    pub fn contains(&self, e: Effect) -> (r: bool)
        ensures
            r == self.has(e),
    {
        match e {
            Effect::Simple => self.simple,
            Effect::Reverse => self.reverse,
            Effect::Bold => self.bold,
            Effect::Italic => self.italic,
            Effect::Underline => self.underline,
        }
    }

    fn set_flag(&mut self, e: Effect, on: bool)
        ensures
            final(self).has(e) == on,
            forall|f: Effect| f != e ==> final(self).has(f) == old(self).has(f),
    {
        match e {
            Effect::Simple => self.simple = on,
            Effect::Reverse => self.reverse = on,
            Effect::Bold => self.bold = on,
            Effect::Italic => self.italic = on,
            Effect::Underline => self.underline = on,
        }
    }

    pub fn insert(&mut self, e: Effect)
        ensures
            forall|f: Effect| final(self).has(f) == (f == e || old(self).has(f)),
    {
        self.set_flag(e, true);
    }

    pub fn remove(&mut self, e: Effect)
        ensures
            forall|f: Effect| final(self).has(f) == (f != e && old(self).has(f)),
    {
        self.set_flag(e, false);
    }
}

/// `seq![e]` when `set` holds `e`, else the empty sequence.
pub open spec fn if_has(set: EffectSet, e: Effect) -> Seq<Effect> {
    if set.has(e) {
        seq![e]
    } else {
        Seq::empty()
    }
}

/// The effects of `set` in the fixed order Simple, Reverse, Bold, Italic,
/// Underline.
pub open spec fn effects_in_order(set: EffectSet) -> Seq<Effect> {
    if_has(set, Effect::Simple) + if_has(set, Effect::Reverse) + if_has(set, Effect::Bold)
        + if_has(set, Effect::Italic) + if_has(set, Effect::Underline)
}

/// Lists the effects of `set` in the order in which a writer switches them
/// on before a run of text and off after it.
pub fn effect_list(set: &EffectSet) -> (r: Vec<Effect>)
    ensures
        r@ == effects_in_order(*set),
{
    let mut r: Vec<Effect> = Vec::new();
    if set.contains(Effect::Simple) {
        r.push(Effect::Simple);
    }
    if set.contains(Effect::Reverse) {
        r.push(Effect::Reverse);
    }
    if set.contains(Effect::Bold) {
        r.push(Effect::Bold);
    }
    if set.contains(Effect::Italic) {
        r.push(Effect::Italic);
    }
    if set.contains(Effect::Underline) {
        r.push(Effect::Underline);
    }
    assert(r@ =~= effects_in_order(*set));
    r
}

/// The visual attributes of a cell: its effects and its colors.
#[derive(Clone, Copy, Debug, PartialEq, Eq, Structural)]
pub struct Style {
    pub effects: EffectSet,
    pub color_pair: ColorPair,
}

impl vstd::view::DeepView for Style {
    type V = Style;

    open spec fn deep_view(&self) -> Style {
        *self
    }
}

/// The style that fills a freshly cleared screen: no effects, black on black.
pub open spec fn spec_background_style() -> Style {
    Style {
        effects: EffectSet::empty(),
        color_pair: ColorPair {
            front: Color::Dark(BaseColor::Black),
            back: Color::Dark(BaseColor::Black),
        },
    }
}

pub fn background_style() -> (r: Style)
    ensures
        r == spec_background_style(),
{
    Style {
        effects: EffectSet::new(),
        color_pair: ColorPair {
            front: Color::Dark(BaseColor::Black),
            back: Color::Dark(BaseColor::Black),
        },
    }
}

} // verus!
