//! Colours and text attributes of a cell, and the rule by which one
//! style is laid over another.

use crossterm::style::{Attribute, Attributes, Color};
use vstd::prelude::*;

verus! {

/// `crossterm::style::Color`, carried through as it is.
#[verifier::external_type_specification]
#[verifier::external_body]
pub struct ExColor(crossterm::style::Color);

/// `crossterm::style::Attributes`, the set of text attributes of a style.
#[verifier::external_type_specification]
#[verifier::external_body]
pub struct ExAttributes(crossterm::style::Attributes);

/// The attributes that a set holds, each named by the position of its bit
/// in the set.
pub uninterp spec fn held(attributes: Attributes) -> Set<int>;

/// The text attributes that a style can switch on.
#[derive(Debug, Clone, Copy, PartialEq, Eq, Structural)]
pub enum Mark {
    Bold,
    Italic,
    Underlined,
    CrossedOut,
    Reverse,
}

impl Mark {
    /// The position of the attribute's bit in a set of attributes.
    pub open spec fn bit(self) -> int {
        match self {
            Mark::Bold => 2,
            Mark::Italic => 4,
            Mark::Underlined => 5,
            Mark::Reverse => 12,
            Mark::CrossedOut => 14,
        }
    }
}

/// The line of a border.
#[derive(Debug, Clone, Copy, PartialEq, Eq, Structural)]
pub enum Stroke {
    Solid,
    SolidRounded,
}

/// The corners of a border.
#[derive(Debug, Clone, Copy, PartialEq, Eq, Structural)]
pub enum Corners {
    Regular,
    Rounded,
}

/// How the border of a container is drawn.
#[derive(Debug, Clone, Copy)]
pub struct LineStyle {
    pub corners: Corners,
    pub stroke: Stroke,
    pub style: Option<Style>,
}

impl LineStyle {
    pub fn new(corners: Corners, stroke: Stroke, style: Option<Style>) -> (line: Self)
        ensures
            line.corners == corners,
            line.stroke == stroke,
            line.style == style,
    {
        Self { corners, stroke, style }
    }

    /// Whether the corners of the border are arcs.
    pub open spec fn rounded(self) -> bool {
        self.corners == Corners::Rounded || self.stroke == Stroke::SolidRounded
    }

    /// Whether the corners of the border are arcs.
    pub fn is_rounded(&self) -> (rounded: bool)
        ensures
            rounded == self.rounded(),
    {
        let by_corners = match self.corners {
            Corners::Rounded => true,
            Corners::Regular => false,
        };
        let by_stroke = match self.stroke {
            Stroke::SolidRounded => true,
            Stroke::Solid => false,
        };
        by_corners || by_stroke
    }
}

impl Default for LineStyle {
    /// A solid line with square corners and without a style.
    fn default() -> (line: Self)
        ensures
            line.corners == Corners::Regular,
            line.stroke == Stroke::Solid,
            line.style.is_none(),
    {
        Self { corners: Corners::Regular, stroke: Stroke::Solid, style: None }
    }
}

/// How the ground of a container is filled.
#[derive(Debug, Clone, Copy)]
pub struct FillStyle {
    pub glyph: Option<char>,
    pub style: Style,
}

impl FillStyle {
    pub fn new(glyph: Option<char>, style: Style) -> (fill: Self)
        ensures
            fill.glyph == glyph,
            fill.style == style,
    {
        Self { glyph, style }
    }
}

/// `Color`'s `==`: two colours are equal exactly if they are the same
/// colour.
#[verifier::external_body]
fn same_color(a: &Color, b: &Color) -> (same: bool)
    ensures
        same == (*a == *b),
{
    a == b
}

/// `Attributes::none`: the set that holds nothing.
#[verifier::external_body]
fn no_attributes() -> (attributes: Attributes)
    ensures
        held(attributes) == Set::<int>::empty(),
{
    Attributes::none()
}

/// `Attributes::set`: adds one attribute to the set and leaves the others.
/// An attribute's bit stands one place above its number in the list of
/// attributes, which starts at zero.
#[verifier::external_body]
fn set_attribute(attributes: &mut Attributes, mark: Mark)
    ensures
        held(*final(attributes)) == held(*old(attributes)).insert(mark.bit()),
{
    attributes.set(
        match mark {
            Mark::Bold => Attribute::Bold,
            Mark::Italic => Attribute::Italic,
            Mark::Underlined => Attribute::Underlined,
            Mark::CrossedOut => Attribute::CrossedOut,
            Mark::Reverse => Attribute::Reverse,
        },
    )
}

/// `Attributes::extend`: adds every attribute of `more` and removes none.
#[verifier::external_body]
fn extend_attributes(attributes: &mut Attributes, more: Attributes)
    ensures
        held(*final(attributes)) == held(*old(attributes)).union(held(more)),
{
    attributes.extend(more)
}

/// `Attributes::is_empty`: whether the set holds nothing.
#[verifier::external_body]
fn attributes_empty(attributes: Attributes) -> (empty: bool)
    ensures
        empty == (held(attributes) == Set::<int>::empty()),
{
    attributes.is_empty()
}

/// `Attributes`' `==`: two sets are equal exactly if they hold the same.
#[verifier::external_body]
fn same_attributes(a: Attributes, b: Attributes) -> (same: bool)
    ensures
        same == (held(a) == held(b)),
{
    a == b
}

/// What a style says: the colours it sets, and the attributes it
/// switches on.
pub struct StyleView {
    pub foreground: Option<Color>,
    pub background: Option<Color>,
    pub marks: Set<int>,
}

impl StyleView {
    /// The style that says nothing.
    pub open spec fn blank() -> StyleView {
        StyleView { foreground: None, background: None, marks: Set::empty() }
    }

    /// This style with `other` laid over it: a colour of `other` replaces
    /// the one below, a colour that `other` leaves open stays, and the
    /// attributes of both are on.
    pub open spec fn merged(self, other: StyleView) -> StyleView {
        StyleView {
            foreground: if other.foreground.is_some() {
                other.foreground
            } else {
                self.foreground
            },
            background: if other.background.is_some() {
                other.background
            } else {
                self.background
            },
            marks: self.marks.union(other.marks),
        }
    }
}

/// The colours and text attributes of a cell.
#[derive(Debug, Clone, Copy, PartialEq, Eq)]
pub struct Style {
    pub foreground_color: Option<Color>,
    pub background_color: Option<Color>,
    pub attributes: Attributes,
}

impl View for Style {
    type V = StyleView;

    open spec fn view(&self) -> StyleView {
        StyleView {
            foreground: self.foreground_color,
            background: self.background_color,
            marks: held(self.attributes),
        }
    }
}

impl Style {
    /// The style that says nothing.
    pub fn new() -> (style: Self)
        ensures
            style@ == StyleView::blank(),
    {
        Self { foreground_color: None, background_color: None, attributes: no_attributes() }
    }

    /// Lays `other` over this style.
    pub fn update(&mut self, other: &Style)
        ensures
            final(self)@ == old(self)@.merged(other@),
    {
        if let Some(color) = other.background_color {
            self.background_color = Some(color);
        }
        if let Some(color) = other.foreground_color {
            self.foreground_color = Some(color);
        }
        if !attributes_empty(other.attributes) {
            extend_attributes(&mut self.attributes, other.attributes);
        }
        assert(final(self)@.marks =~= old(self)@.marks.union(other@.marks));
    }

    /// Whether both styles say the same.
    pub fn same(&self, other: &Style) -> (same: bool)
        ensures
            same == (self@ == other@),
    {
        let foreground = match (&self.foreground_color, &other.foreground_color) {
            (Some(a), Some(b)) => same_color(a, b),
            (None, None) => true,
            _ => false,
        };
        let background = match (&self.background_color, &other.background_color) {
            (Some(a), Some(b)) => same_color(a, b),
            (None, None) => true,
            _ => false,
        };
        foreground && background && same_attributes(self.attributes, other.attributes)
    }

    pub fn background(self, color: Color) -> (style: Self)
        ensures
            style@ == (StyleView { background: Some(color), ..self@ }),
    {
        let mut style = self;
        style.background_color = Some(color);
        style
    }

    pub fn foreground(self, color: Color) -> (style: Self)
        ensures
            style@ == (StyleView { foreground: Some(color), ..self@ }),
    {
        let mut style = self;
        style.foreground_color = Some(color);
        style
    }

    /// This style with one more attribute switched on.
    pub fn marked(self, mark: Mark) -> (style: Self)
        ensures
            style@ == (StyleView { marks: self@.marks.insert(mark.bit()), ..self@ }),
    {
        let mut style = self;
        set_attribute(&mut style.attributes, mark);
        style
    }

    pub fn bold(self) -> (style: Self)
        ensures
            style@ == (StyleView { marks: self@.marks.insert(Mark::Bold.bit()), ..self@ }),
    {
        self.marked(Mark::Bold)
    }

    pub fn italic(self) -> (style: Self)
        ensures
            style@ == (StyleView { marks: self@.marks.insert(Mark::Italic.bit()), ..self@ }),
    {
        self.marked(Mark::Italic)
    }

    pub fn underlined(self) -> (style: Self)
        ensures
            style@ == (StyleView { marks: self@.marks.insert(Mark::Underlined.bit()), ..self@ }),
    {
        self.marked(Mark::Underlined)
    }

    pub fn crossed_out(self) -> (style: Self)
        ensures
            style@ == (StyleView { marks: self@.marks.insert(Mark::CrossedOut.bit()), ..self@ }),
    {
        self.marked(Mark::CrossedOut)
    }

    pub fn reverse(self) -> (style: Self)
        ensures
            style@ == (StyleView { marks: self@.marks.insert(Mark::Reverse.bit()), ..self@ }),
    {
        self.marked(Mark::Reverse)
    }
}

/// Laying a style that says nothing over any style changes nothing.
pub proof fn lemma_merge_blank(below: StyleView)
    ensures
        below.merged(StyleView::blank()) == below,
{
    assert(below.marks.union(Set::<int>::empty()) =~= below.marks);
}

/// Laying the same style over another a second time changes nothing
/// more: whatever lies below, and so also where nothing does.
pub proof fn lemma_merge_twice(below: StyleView, over: StyleView)
    ensures
        below.merged(over).merged(over) == below.merged(over),
        StyleView::blank().merged(over).merged(over) == StyleView::blank().merged(over),
        StyleView::blank().merged(over) == over,
{
    assert(below.marks.union(over.marks).union(over.marks) =~= below.marks.union(over.marks));
    assert(Set::<int>::empty().union(over.marks) =~= over.marks);
    assert(Set::<int>::empty().union(over.marks).union(over.marks) =~= over.marks);
}

} // verus!
