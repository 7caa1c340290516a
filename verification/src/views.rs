//! The views: what can ask for a size and paint itself into a rectangle
//! of a buffer. A view is one of a closed set; containers own their
//! children, so that a layout is a tree.

use crate::buffer::{
    boxed, drawn_over, lettered, style_view, tinted, Buffer, CellView, H_LINE, V_LINE,
};
use crate::layouts::auto::Auto;
use crate::layouts::pin::PinBoard;
use crate::layouts::scroll_box::ScrollBox;
use crate::styles::{Mark, Stroke, Style};
use crate::text::{chars_of, lines_of, lines_view, split_lines};
use crate::values::{Constraints, ContainerSizing, Dimensions, Dir, Rect, Sizing};
use crossterm::style::Color;
use vstd::prelude::*;

verus! {

/// A view that asks for all the space there is and paints nothing.
#[derive(Debug)]
pub struct Spacer;

/// One line of text.
#[derive(Debug)]
pub struct Label {
    pub text: String,
    pub width: ContainerSizing,
    pub height: ContainerSizing,
}

/// Several lines of text. A line that is too long is cut, not wrapped.
#[derive(Debug)]
pub struct MultilineText {
    pub text: String,
    pub width: ContainerSizing,
    pub height: ContainerSizing,
}

/// A line across its rectangle: along the top for `Dir::Horizontal`, down
/// the left side for `Dir::Vertical`.
#[derive(Debug)]
pub struct Rule {
    pub dir: Dir,
    pub style: Option<Style>,
}

/// A view with free cells around it.
#[derive(Debug)]
pub struct Padding {
    pub top: usize,
    pub bottom: usize,
    pub left: usize,
    pub right: usize,
    pub item: Box<Widget>,
}

/// A view over a styled ground.
#[derive(Debug)]
pub struct Styled {
    pub style: Style,
    pub item: Box<Widget>,
}

/// A view in a box.
#[derive(Debug)]
pub struct Border {
    pub stroke: Stroke,
    pub style: Style,
    pub item: Box<Widget>,
}

/// Any view.
#[derive(Debug)]
pub enum Widget {
    Spacer(Spacer),
    Label(Label),
    MultilineText(MultilineText),
    Rule(Rule),
    /// A line that divides a container, and is joined to its border.
    Split(Rule),
    Padding(Padding),
    Styled(Styled),
    Border(Border),
    Auto(Auto),
    PinBoard(PinBoard),
    ScrollBox(ScrollBox),
}

/// The smaller of a count and a limit.
pub open spec fn at_most(count: int, limit: usize) -> usize {
    if count <= limit {
        count as usize
    } else {
        limit
    }
}

/// Whether `a`, read from position `i` on, comes before `b` in the order
/// of a dictionary that sorts characters by their code, or is the same.
pub open spec fn ordered_from(a: Seq<char>, b: Seq<char>, i: int) -> bool
    decreases a.len() - i,
{
    if i < 0 || i >= a.len() {
        true
    } else if i >= b.len() {
        false
    } else if a[i] != b[i] {
        (a[i] as u32) < (b[i] as u32)
    } else {
        ordered_from(a, b, i + 1)
    }
}

/// The line among the first `k` that comes last in dictionary order; of
/// equal lines the later one.
pub open spec fn last_in_order(lines: Seq<Seq<char>>, k: int) -> Seq<char>
    decreases k,
{
    if k <= 0 {
        Seq::empty()
    } else if k == 1 {
        lines[0]
    } else {
        let best = last_in_order(lines, k - 1);
        if ordered_from(best, lines[k - 1], 0) {
            lines[k - 1]
        } else {
            best
        }
    }
}

/// The first row of a rectangle.
pub open spec fn top_row(within: Rect) -> Rect {
    Rect {
        origin: within.origin,
        dimensions: Dimensions {
            width: within.dimensions.width,
            height: if within.dimensions.height < 1 {
                0
            } else {
                1
            },
        },
    }
}

/// The first column of a rectangle.
pub open spec fn left_column(within: Rect) -> Rect {
    Rect {
        origin: within.origin,
        dimensions: Dimensions {
            width: if within.dimensions.width < 1 {
                0
            } else {
                1
            },
            height: within.dimensions.height,
        },
    }
}

impl Spacer {
    pub fn new() -> Self {
        Self {  }
    }

    pub open spec fn wants(&self, bounds: Dimensions) -> Constraints {
        Constraints { width: Sizing::Fill, height: Sizing::Fill }
    }

    pub fn sizing(&self, bounds: &Dimensions) -> (c: Constraints)
        ensures
            c == self.wants(*bounds),
    {
        Constraints { width: Sizing::Fill, height: Sizing::Fill }
    }

    pub fn render(&self, within: &Rect, buffer: &mut Buffer)
        ensures
            *final(buffer) == *old(buffer),
    {
    }
}

impl Label {
    /// A label that hugs its text.
    pub fn new(text: &str) -> (label: Self)
        ensures
            label.text@ == text@,
            label.width == ContainerSizing::Hug,
            label.height == ContainerSizing::Hug,
    {
        Self { text: text.to_owned(), width: ContainerSizing::Hug, height: ContainerSizing::Hug }
    }

    pub fn width(self, width: ContainerSizing) -> (label: Self)
        ensures
            label.text == self.text,
            label.width == width,
            label.height == self.height,
    {
        let mut label = self;
        label.width = width;
        label
    }

    pub fn height(self, height: ContainerSizing) -> (label: Self)
        ensures
            label.text == self.text,
            label.width == self.width,
            label.height == height,
    {
        let mut label = self;
        label.height = height;
        label
    }

    /// A label that hugs asks for one row, as wide as its text or as the
    /// bounds if they are narrower.
    pub open spec fn wants(&self, bounds: Dimensions) -> Constraints {
        Constraints {
            width: self.width.simplified(at_most(self.text@.len() as int, bounds.width)),
            height: self.height.simplified(1),
        }
    }

    /// The text on the first row of `within`, as far as it fits.
    pub open spec fn paints(&self, within: Rect, grid: Seq<Seq<CellView>>) -> Seq<Seq<CellView>> {
        lettered(grid, top_row(within), seq![self.text@], None)
    }

    pub fn sizing(&self, bounds: &Dimensions) -> (c: Constraints)
        ensures
            c == self.wants(*bounds),
    {
        let count: usize = self.text.as_str().unicode_len();
        let hug: usize = if count <= bounds.width {
            count
        } else {
            bounds.width
        };
        Constraints { width: self.width.simplify(hug), height: self.height.simplify(1) }
    }

    pub fn render(&self, within: &Rect, buffer: &mut Buffer)
        requires
            old(buffer).wf(),
            within.within(old(buffer).area()),
        ensures
            final(buffer).wf(),
            final(buffer).dimensions == old(buffer).dimensions,
            final(buffer)@ == self.paints(*within, old(buffer)@),
    {
        let mut lines: Vec<Vec<char>> = Vec::new();
        lines.push(chars_of(self.text.as_str()));
        assert(lines_view(lines@) =~= seq![self.text@]);
        let row = Rect::new(
            within.origin,
            Dimensions::new(
                within.dimensions.width,
                if within.dimensions.height < 1 {
                    0
                } else {
                    1
                },
            ),
        );
        buffer.draw_lines(&row, &lines, &None);
    }
}

impl MultilineText {
    /// A text that hugs its lines.
    pub fn new(text: &str) -> (view: Self)
        ensures
            view.text@ == text@,
            view.width == ContainerSizing::Hug,
            view.height == ContainerSizing::Hug,
    {
        Self { text: text.to_owned(), width: ContainerSizing::Hug, height: ContainerSizing::Hug }
    }

    pub fn width(self, width: ContainerSizing) -> (view: Self)
        ensures
            view.text == self.text,
            view.width == width,
            view.height == self.height,
    {
        let mut view = self;
        view.width = width;
        view
    }

    pub fn height(self, height: ContainerSizing) -> (view: Self)
        ensures
            view.text == self.text,
            view.width == self.width,
            view.height == height,
    {
        let mut view = self;
        view.height = height;
        view
    }

    /// A text that hugs asks for as many rows as it has lines, and for
    /// the width of the line that comes last in dictionary order; for
    /// neither more than the bounds.
    pub open spec fn wants(&self, bounds: Dimensions) -> Constraints {
        let lines = lines_of(self.text@);
        Constraints {
            width: self.width.simplified(
                at_most(last_in_order(lines, lines.len() as int).len() as int, bounds.width),
            ),
            height: self.height.simplified(at_most(lines.len() as int, bounds.height)),
        }
    }

    /// The lines from the top-left cell of `within` on, as far as they
    /// fit.
    pub open spec fn paints(&self, within: Rect, grid: Seq<Seq<CellView>>) -> Seq<Seq<CellView>> {
        lettered(grid, within, lines_of(self.text@), None)
    }

    pub fn sizing(&self, bounds: &Dimensions) -> (c: Constraints)
        ensures
            c == self.wants(*bounds),
    {
        let lines = split_lines(self.text.as_str());
        let mut widest: usize = 0;
        if lines.len() > 0 {
            let mut best: usize = 0;
            let mut k: usize = 1;
            assert(lines_view(lines@)[0] == lines@[0]@);
            while k < lines.len()
                invariant
                    lines_view(lines@) == lines_of(self.text@),
                    1 <= k <= lines.len(),
                    best < k,
                    lines@[best as int]@ == last_in_order(lines_view(lines@), k as int),
                decreases lines.len() - k,
            {
                assert(lines_view(lines@)[k as int] == lines@[k as int]@);
                if comes_before(&lines[best], &lines[k]) {
                    best = k;
                }
                k += 1;
            }
            widest = lines[best].len();
        }
        let wide: usize = if widest <= bounds.width {
            widest
        } else {
            bounds.width
        };
        let tall: usize = if lines.len() <= bounds.height {
            lines.len()
        } else {
            bounds.height
        };
        Constraints { width: self.width.simplify(wide), height: self.height.simplify(tall) }
    }

    pub fn render(&self, within: &Rect, buffer: &mut Buffer)
        requires
            old(buffer).wf(),
            within.within(old(buffer).area()),
        ensures
            final(buffer).wf(),
            final(buffer).dimensions == old(buffer).dimensions,
            final(buffer)@ == self.paints(*within, old(buffer)@),
    {
        buffer.draw_multiline_text(within, self.text.as_str(), &None);
    }
}

/// Whether `a` comes before `b` in dictionary order, or is the same.
fn comes_before(a: &Vec<char>, b: &Vec<char>) -> (r: bool)
    ensures
        r == ordered_from(a@, b@, 0),
{
    let mut i: usize = 0;
    while i < a.len() && i < b.len() && a[i] == b[i]
        invariant
            i <= a.len(),
            i <= b.len(),
            ordered_from(a@, b@, 0) == ordered_from(a@, b@, i as int),
        decreases a.len() - i,
    {
        i += 1;
    }
    if i >= a.len() {
        true
    } else if i >= b.len() {
        false
    } else {
        (a[i] as u32) < (b[i] as u32)
    }
}

impl Rule {
    /// A line without a style.
    pub fn new(dir: Dir) -> (rule: Self)
        ensures
            rule.dir == dir,
            rule.style.is_none(),
    {
        Self { dir, style: None }
    }

    /// A line in `style`, if there is one.
    pub fn styled(dir: Dir, style: Option<Style>) -> (rule: Self)
        ensures
            rule.dir == dir,
            rule.style == style,
    {
        Self { dir, style }
    }

    /// One cell across the line, and all there is along it.
    pub open spec fn wants(&self, bounds: Dimensions) -> Constraints {
        match self.dir {
            Dir::Horizontal => Constraints { height: Sizing::Fixed(1), width: Sizing::Fill },
            Dir::Vertical => Constraints { height: Sizing::Fill, width: Sizing::Fixed(1) },
        }
    }

    /// The line on the first row or the first column of `within`.
    pub open spec fn paints(&self, within: Rect, grid: Seq<Seq<CellView>>) -> Seq<Seq<CellView>> {
        match self.dir {
            Dir::Horizontal => drawn_over(grid, top_row(within), H_LINE, style_view(self.style)),
            Dir::Vertical => drawn_over(
                grid,
                left_column(within),
                V_LINE,
                style_view(self.style),
            ),
        }
    }

    pub fn sizing(&self, bounds: &Dimensions) -> (c: Constraints)
        ensures
            c == self.wants(*bounds),
    {
        match self.dir {
            Dir::Horizontal => Constraints { height: Sizing::Fixed(1), width: Sizing::Fill },
            Dir::Vertical => Constraints { height: Sizing::Fill, width: Sizing::Fixed(1) },
        }
    }

    pub fn render(&self, within: &Rect, buffer: &mut Buffer)
        requires
            old(buffer).wf(),
            within.within(old(buffer).area()),
        ensures
            final(buffer).wf(),
            final(buffer).dimensions == old(buffer).dimensions,
            final(buffer)@ == self.paints(*within, old(buffer)@),
    {
        match self.dir {
            Dir::Horizontal => {
                if within.dimensions.height >= 1 {
                    buffer.draw_h_rule(&within.origin, within.dimensions.width, &self.style);
                } else {
                    assert(buffer@ =~~= drawn_over(
                        buffer@,
                        top_row(*within),
                        H_LINE,
                        style_view(self.style),
                    ));
                }
            },
            Dir::Vertical => {
                if within.dimensions.width >= 1 {
                    buffer.draw_v_rule(&within.origin, within.dimensions.height, &self.style);
                } else {
                    assert(buffer@ =~~= drawn_over(
                        buffer@,
                        left_column(*within),
                        V_LINE,
                        style_view(self.style),
                    ));
                }
            },
        }
    }
}

/// The bounds that are left for a view with `across` free cells beside it
/// and `down` free cells above and below it.
pub open spec fn shrunk(bounds: Dimensions, across: int, down: int) -> Dimensions {
    Dimensions {
        width: if across <= bounds.width {
            (bounds.width - across) as usize
        } else {
            0
        },
        height: if down <= bounds.height {
            (bounds.height - down) as usize
        } else {
            0
        },
    }
}

/// The sum of two extents, or the largest extent there is where the sum
/// is more than that.
fn sum_of(a: usize, b: usize) -> (r: usize)
    ensures
        r == if a + b <= usize::MAX {
            a + b
        } else {
            usize::MAX as int
        },
{
    if a <= usize::MAX - b {
        a + b
    } else {
        usize::MAX
    }
}

impl Padding {
    pub fn new(left: usize, right: usize, top: usize, bottom: usize, item: Widget) -> (view: Self)
        ensures
            view.left == left,
            view.right == right,
            view.top == top,
            view.bottom == bottom,
            *view.item == item,
    {
        Self { top, bottom, left, right, item: Box::new(item) }
    }

    /// The same padding on all four sides.
    pub fn all(value: usize, item: Widget) -> (view: Self)
        ensures
            view.left == value,
            view.right == value,
            view.top == value,
            view.bottom == value,
            *view.item == item,
    {
        Self { top: value, bottom: value, left: value, right: value, item: Box::new(item) }
    }

    /// Padding above and below.
    pub fn vertical(value: usize, item: Widget) -> (view: Self)
        ensures
            view.left == 0,
            view.right == 0,
            view.top == value,
            view.bottom == value,
            *view.item == item,
    {
        Self { top: value, bottom: value, left: 0, right: 0, item: Box::new(item) }
    }

    /// Padding left and right.
    pub fn horizontal(value: usize, item: Widget) -> (view: Self)
        ensures
            view.left == value,
            view.right == value,
            view.top == 0,
            view.bottom == 0,
            *view.item == item,
    {
        Self { top: 0, bottom: 0, left: value, right: value, item: Box::new(item) }
    }

    /// Padding of `h` left and right, and of `v` above and below.
    pub fn both(h: usize, v: usize, item: Widget) -> (view: Self)
        ensures
            view.left == h,
            view.right == h,
            view.top == v,
            view.bottom == v,
            *view.item == item,
    {
        Self { top: v, bottom: v, left: h, right: h, item: Box::new(item) }
    }

    /// What the padded view asks for in the bounds that the padding
    /// leaves, with the padding added to a fixed extent.
    pub open spec fn wants(&self, bounds: Dimensions) -> Constraints
        decreases self, 0int,
    {
        let inner = self.item.wants(
            shrunk(bounds, self.left + self.right, self.top + self.bottom),
        );
        Constraints {
            width: inner.width.grown(self.left + self.right, usize::MAX),
            height: inner.height.grown(self.top + self.bottom, usize::MAX),
        }
    }

    /// The padded view, painted into what the padding leaves of `within`.
    pub open spec fn paints(&self, within: Rect, grid: Seq<Seq<CellView>>) -> Seq<Seq<CellView>>
        decreases self, 0int,
    {
        self.item.paints(within.inset_by(self.left, self.right, self.top, self.bottom), grid)
    }

    pub fn sizing(&self, bounds: &Dimensions) -> (c: Constraints)
        ensures
            c == self.wants(*bounds),
        decreases self, 0int,
    {
        let across: usize = sum_of(self.left, self.right);
        let down: usize = sum_of(self.top, self.bottom);
        let remaining = Dimensions::new(
            if across <= bounds.width {
                bounds.width - across
            } else {
                0
            },
            if down <= bounds.height {
                bounds.height - down
            } else {
                0
            },
        );
        assert(remaining == shrunk(*bounds, self.left + self.right, self.top + self.bottom));
        let inner = self.item.sizing(&remaining);
        Constraints::new(
            inner.width.grow_by(across, usize::MAX),
            inner.height.grow_by(down, usize::MAX),
        )
    }

    pub fn render(&self, within: &Rect, buffer: &mut Buffer)
        requires
            old(buffer).wf(),
            within.within(old(buffer).area()),
        ensures
            final(buffer).wf(),
            final(buffer).dimensions == old(buffer).dimensions,
            final(buffer)@ == self.paints(*within, old(buffer)@),
        decreases self, 0int,
    {
        let inner = within.inset(self.left, self.right, self.top, self.bottom);
        self.item.render(&inner, buffer);
    }
}

impl Styled {
    pub fn new(item: Widget) -> (view: Self)
        ensures
            view.style@ == crate::styles::StyleView::blank(),
            *view.item == item,
    {
        Self { style: Style::new(), item: Box::new(item) }
    }

    pub fn background(self, color: Color) -> (view: Self)
        ensures
            view.style@ == (crate::styles::StyleView { background: Some(color), ..self.style@ }),
            view.item == self.item,
    {
        Self { style: self.style.background(color), item: self.item }
    }

    pub fn foreground(self, color: Color) -> (view: Self)
        ensures
            view.style@ == (crate::styles::StyleView { foreground: Some(color), ..self.style@ }),
            view.item == self.item,
    {
        Self { style: self.style.foreground(color), item: self.item }
    }

    /// The same view with one more attribute switched on.
    pub fn marked(self, mark: Mark) -> (view: Self)
        ensures
            view.style@ == (crate::styles::StyleView {
                marks: self.style@.marks.insert(mark.bit()),
                ..self.style@
            }),
            view.item == self.item,
    {
        Self { style: self.style.marked(mark), item: self.item }
    }

    pub fn bold(self) -> (view: Self)
        ensures
            view.style@ == (crate::styles::StyleView {
                marks: self.style@.marks.insert(Mark::Bold.bit()),
                ..self.style@
            }),
            view.item == self.item,
    {
        self.marked(Mark::Bold)
    }

    pub fn italic(self) -> (view: Self)
        ensures
            view.style@ == (crate::styles::StyleView {
                marks: self.style@.marks.insert(Mark::Italic.bit()),
                ..self.style@
            }),
            view.item == self.item,
    {
        self.marked(Mark::Italic)
    }

    pub fn underlined(self) -> (view: Self)
        ensures
            view.style@ == (crate::styles::StyleView {
                marks: self.style@.marks.insert(Mark::Underlined.bit()),
                ..self.style@
            }),
            view.item == self.item,
    {
        self.marked(Mark::Underlined)
    }

    pub fn crossed_out(self) -> (view: Self)
        ensures
            view.style@ == (crate::styles::StyleView {
                marks: self.style@.marks.insert(Mark::CrossedOut.bit()),
                ..self.style@
            }),
            view.item == self.item,
    {
        self.marked(Mark::CrossedOut)
    }

    pub fn reverse(self) -> (view: Self)
        ensures
            view.style@ == (crate::styles::StyleView {
                marks: self.style@.marks.insert(Mark::Reverse.bit()),
                ..self.style@
            }),
            view.item == self.item,
    {
        self.marked(Mark::Reverse)
    }

    /// What the styled view asks for.
    pub open spec fn wants(&self, bounds: Dimensions) -> Constraints
        decreases self, 0int,
    {
        self.item.wants(bounds)
    }

    /// The style laid over every cell of `within`, and the view painted
    /// on that.
    pub open spec fn paints(&self, within: Rect, grid: Seq<Seq<CellView>>) -> Seq<Seq<CellView>>
        decreases self, 0int,
    {
        self.item.paints(within, tinted(grid, within, self.style@))
    }

    pub fn sizing(&self, bounds: &Dimensions) -> (c: Constraints)
        ensures
            c == self.wants(*bounds),
        decreases self, 0int,
    {
        self.item.sizing(bounds)
    }

    pub fn render(&self, within: &Rect, buffer: &mut Buffer)
        requires
            old(buffer).wf(),
            within.within(old(buffer).area()),
        ensures
            final(buffer).wf(),
            final(buffer).dimensions == old(buffer).dimensions,
            final(buffer)@ == self.paints(*within, old(buffer)@),
        decreases self, 0int,
    {
        buffer.merge_style(within, &self.style);
        self.item.render(within, buffer)
    }
}

impl Border {
    pub fn new(stroke: Stroke, item: Widget) -> (view: Self)
        ensures
            view.stroke == stroke,
            view.style@ == crate::styles::StyleView::blank(),
            *view.item == item,
    {
        Self { stroke, style: Style::new(), item: Box::new(item) }
    }

    pub fn foreground(self, color: Color) -> (view: Self)
        ensures
            view.stroke == self.stroke,
            view.style@ == (crate::styles::StyleView { foreground: Some(color), ..self.style@ }),
            view.item == self.item,
    {
        Self { stroke: self.stroke, style: self.style.foreground(color), item: self.item }
    }

    pub fn background(self, color: Color) -> (view: Self)
        ensures
            view.stroke == self.stroke,
            view.style@ == (crate::styles::StyleView { background: Some(color), ..self.style@ }),
            view.item == self.item,
    {
        Self { stroke: self.stroke, style: self.style.background(color), item: self.item }
    }

    /// What the view in the box asks for, with the two cells of the box
    /// added to a fixed extent, as far as the bounds allow.
    pub open spec fn wants(&self, bounds: Dimensions) -> Constraints
        decreases self, 0int,
    {
        let inner = self.item.wants(bounds);
        Constraints {
            width: inner.width.grown(2, bounds.width),
            height: inner.height.grown(2, bounds.height),
        }
    }

    /// A box along the outline of `within`, and the view painted into
    /// what lies inside the box.
    pub open spec fn paints(&self, within: Rect, grid: Seq<Seq<CellView>>) -> Seq<Seq<CellView>>
        decreases self, 0int,
    {
        self.item.paints(
            within.inset_by(1, 1, 1, 1),
            boxed(grid, within, self.stroke == Stroke::SolidRounded, Some(self.style@)),
        )
    }

    pub fn sizing(&self, bounds: &Dimensions) -> (c: Constraints)
        ensures
            c == self.wants(*bounds),
        decreases self, 0int,
    {
        let inner = self.item.sizing(bounds);
        Constraints::new(
            inner.width.grow_by(2, bounds.width),
            inner.height.grow_by(2, bounds.height),
        )
    }

    pub fn render(&self, within: &Rect, buffer: &mut Buffer)
        requires
            old(buffer).wf(),
            within.within(old(buffer).area()),
        ensures
            final(buffer).wf(),
            final(buffer).dimensions == old(buffer).dimensions,
            final(buffer)@ == self.paints(*within, old(buffer)@),
        decreases self, 0int,
    {
        let rounded = match self.stroke {
            Stroke::SolidRounded => true,
            Stroke::Solid => false,
        };
        buffer.draw_box(within, rounded, &Some(self.style));
        let inner = within.inset(1, 1, 1, 1);
        self.item.render(&inner, buffer);
    }
}

impl Widget {
    /// What the view asks for in bounds of the given size.
    pub open spec fn wants(&self, bounds: Dimensions) -> Constraints
        decreases self, 0int,
    {
        match self {
            Widget::Spacer(view) => view.wants(bounds),
            Widget::Label(view) => view.wants(bounds),
            Widget::MultilineText(view) => view.wants(bounds),
            Widget::Rule(view) => view.wants(bounds),
            Widget::Split(view) => view.wants(bounds),
            Widget::Padding(view) => view.wants(bounds),
            Widget::Styled(view) => view.wants(bounds),
            Widget::Border(view) => view.wants(bounds),
            Widget::Auto(view) => view.wants(bounds),
            Widget::PinBoard(view) => view.wants(bounds),
            Widget::ScrollBox(view) => view.wants(bounds),
        }
    }

    /// The grid after the view has painted itself into `within`.
    pub open spec fn paints(&self, within: Rect, grid: Seq<Seq<CellView>>) -> Seq<Seq<CellView>>
        decreases self, 0int,
    {
        match self {
            Widget::Spacer(_) => grid,
            Widget::Label(view) => view.paints(within, grid),
            Widget::MultilineText(view) => view.paints(within, grid),
            Widget::Rule(view) => view.paints(within, grid),
            Widget::Split(view) => view.paints(within, grid),
            Widget::Padding(view) => view.paints(within, grid),
            Widget::Styled(view) => view.paints(within, grid),
            Widget::Border(view) => view.paints(within, grid),
            Widget::Auto(view) => view.paints(within, grid),
            Widget::PinBoard(view) => view.paints(within, grid),
            Widget::ScrollBox(view) => view.paints(within, grid),
        }
    }

    /// Asks the view what it wants. The answer depends on the view and
    /// the bounds alone.
    pub fn sizing(&self, bounds: &Dimensions) -> (c: Constraints)
        ensures
            c == self.wants(*bounds),
        decreases self, 0int,
    {
        match self {
            Widget::Spacer(view) => view.sizing(bounds),
            Widget::Label(view) => view.sizing(bounds),
            Widget::MultilineText(view) => view.sizing(bounds),
            Widget::Rule(view) => view.sizing(bounds),
            Widget::Split(view) => view.sizing(bounds),
            Widget::Padding(view) => view.sizing(bounds),
            Widget::Styled(view) => view.sizing(bounds),
            Widget::Border(view) => view.sizing(bounds),
            Widget::Auto(view) => view.sizing(bounds),
            Widget::PinBoard(view) => view.sizing(bounds),
            Widget::ScrollBox(view) => view.sizing(bounds),
        }
    }

    /// Paints the view into `within`, a rectangle of the buffer.
    pub fn render(&self, within: &Rect, buffer: &mut Buffer)
        requires
            old(buffer).wf(),
            within.within(old(buffer).area()),
        ensures
            final(buffer).wf(),
            final(buffer).dimensions == old(buffer).dimensions,
            final(buffer)@ == self.paints(*within, old(buffer)@),
        decreases self, 0int,
    {
        match self {
            Widget::Spacer(view) => view.render(within, buffer),
            Widget::Label(view) => view.render(within, buffer),
            Widget::MultilineText(view) => view.render(within, buffer),
            Widget::Rule(view) => view.render(within, buffer),
            Widget::Split(view) => view.render(within, buffer),
            Widget::Padding(view) => view.render(within, buffer),
            Widget::Styled(view) => view.render(within, buffer),
            Widget::Border(view) => view.render(within, buffer),
            Widget::Auto(view) => view.render(within, buffer),
            Widget::PinBoard(view) => view.render(within, buffer),
            Widget::ScrollBox(view) => view.render(within, buffer),
        }
    }
}

} // verus!
