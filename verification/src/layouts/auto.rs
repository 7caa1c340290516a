//! The general container: children side by side along an axis.

use crate::buffer::{style_view, Buffer, CellView};
use crate::layouts::auto_solver::{fixed_part, fixed_sum, least, solve, solved};
use crate::layouts::decor::{decorate, decorated, interior, joint, jointed, occupied};
use crate::layouts::row_laws::{as_row, lemma_solved_within};
use crate::styles::{FillStyle, LineStyle, Style, StyleView};
use crate::values::{Align, Constraints, ContainerSizing, Dimensions, Dir, Layout, Rect, Sizing};
use crate::views::{Rule, Widget};
use vstd::prelude::*;

verus! {

/// A container that lays its children out side by side along `dir`, with
/// the gaps and alignments of `layout`.
#[derive(Debug)]
pub struct Auto {
    pub dir: Dir,
    pub layout: Layout,
    pub width: ContainerSizing,
    pub height: ContainerSizing,
    pub border: Option<LineStyle>,
    pub fill: Option<FillStyle>,
    pub items: Vec<Widget>,
}

/// The direction of a line that divides a container with the given main
/// axis: across it.
pub open spec fn across(dir: Dir) -> Dir {
    match dir {
        Dir::Horizontal => Dir::Vertical,
        Dir::Vertical => Dir::Horizontal,
    }
}

/// The grid after the joints of the dividing lines among the first `k`
/// children have been drawn on the border.
pub open spec fn joined(
    items: Seq<Widget>,
    rects: Seq<Rect>,
    dir: Dir,
    within: Rect,
    style: Option<StyleView>,
    grid: Seq<Seq<CellView>>,
    k: int,
) -> Seq<Seq<CellView>>
    decreases k,
{
    if k <= 0 || k > items.len() {
        grid
    } else {
        let below = joined(items, rects, dir, within, style, grid, k - 1);
        if items[k - 1] is Split && occupied(rects[k - 1]) {
            jointed(below, dir, within, rects[k - 1], style)
        } else {
            below
        }
    }
}

/// What the first `k` of `items` ask for in `bounds`, in their order.
pub open spec fn requests(items: Seq<Widget>, bounds: Dimensions, k: int) -> Seq<Constraints>
    decreases items, k,
{
    if k <= 0 || k > items.len() {
        Seq::empty()
    } else {
        requests(items, bounds, k - 1).push(items[k - 1].wants(bounds))
    }
}

/// The greatest fixed height that the first `k` requests ask for.
pub open spec fn greatest_fixed(items: Seq<Constraints>, k: int) -> int
    decreases k,
{
    if k <= 0 {
        0
    } else {
        let rest = greatest_fixed(items, k - 1);
        let own = fixed_part(items[k - 1].height);
        if own > rest {
            own
        } else {
            rest
        }
    }
}

/// The size that fits children with the given requests, laid end to end
/// along `dir`: the sum of their fixed extents along it and the greatest
/// of their fixed extents across it, neither more than the bounds.
pub open spec fn hugged(dir: Dir, requests: Seq<Constraints>, bounds: Dimensions) -> Dimensions {
    let flat = as_row(requests, dir);
    let count = requests.len() as int;
    match dir {
        Dir::Horizontal => Dimensions {
            width: least(bounds.width as int, fixed_sum(flat, count)) as usize,
            height: least(bounds.height as int, greatest_fixed(flat, count)) as usize,
        },
        Dir::Vertical => Dimensions {
            width: least(bounds.width as int, greatest_fixed(flat, count)) as usize,
            height: least(bounds.height as int, fixed_sum(flat, count)) as usize,
        },
    }
}

/// Whether a child with this rectangle is painted: it is not where its
/// rectangle starts at or beyond the far edge of the container.
pub open spec fn shown(rect: Rect, within: Rect) -> bool {
    rect.origin.x < within.right() && rect.origin.y < within.bottom()
}

/// The grid after the first `k` of `items` have painted themselves, one
/// after the other, each into its rectangle.
pub open spec fn painted_children(
    items: Seq<Widget>,
    rects: Seq<Rect>,
    within: Rect,
    grid: Seq<Seq<CellView>>,
    k: int,
) -> Seq<Seq<CellView>>
    decreases items, k,
{
    if k <= 0 || k > items.len() {
        grid
    } else {
        let below = painted_children(items, rects, within, grid, k - 1);
        if shown(rects[k - 1], within) {
            items[k - 1].paints(rects[k - 1], below)
        } else {
            below
        }
    }
}

/// The first `k` requests are those of the first `k` items.
pub proof fn lemma_requests(items: Seq<Widget>, bounds: Dimensions, k: int)
    requires
        0 <= k <= items.len(),
    ensures
        requests(items, bounds, k).len() == k,
        forall|j: int| 0 <= j < k ==> #[trigger] requests(items, bounds, k)[j] == items[j].wants(bounds),
    decreases k,
{
    if k > 0 {
        lemma_requests(items, bounds, k - 1);
    }
}

impl Auto {
    pub fn new(dir: Dir, layout: Layout, width: ContainerSizing, height: ContainerSizing) -> (auto:
        Self)
        ensures
            auto.dir == dir,
            auto.layout == layout,
            auto.width == width,
            auto.height == height,
            auto.border.is_none(),
            auto.fill.is_none(),
            auto.items@.len() == 0,
    {
        Auto { dir, layout, width, height, border: None, fill: None, items: Vec::new() }
    }

    /// A packed column that fills its bounds.
    pub fn vertical() -> (auto: Self)
        ensures
            auto.dir == Dir::Vertical,
            auto.layout == (Layout::Packed { v: Align::Start, h: Align::Start }),
            auto.width == ContainerSizing::Fill,
            auto.height == ContainerSizing::Fill,
            auto.border.is_none(),
            auto.fill.is_none(),
            auto.items@.len() == 0,
    {
        Self::new(Dir::Vertical, Layout::default(), ContainerSizing::Fill, ContainerSizing::Fill)
    }

    /// A packed row that fills its bounds.
    pub fn horizontal() -> (auto: Self)
        ensures
            auto.dir == Dir::Horizontal,
            auto.layout == (Layout::Packed { v: Align::Start, h: Align::Start }),
            auto.width == ContainerSizing::Fill,
            auto.height == ContainerSizing::Fill,
            auto.border.is_none(),
            auto.fill.is_none(),
            auto.items@.len() == 0,
    {
        Self::new(Dir::Horizontal, Layout::default(), ContainerSizing::Fill, ContainerSizing::Fill)
    }

    pub fn layout(self, layout: Layout) -> (auto: Self)
        ensures
            auto.dir == self.dir,
            auto.layout == layout,
            auto.width == self.width,
            auto.height == self.height,
            auto.border == self.border,
            auto.fill == self.fill,
            auto.items == self.items,
    {
        let mut auto = self;
        auto.layout = layout;
        auto
    }

    /// The container with a border.
    pub fn borders(self, line: LineStyle) -> (auto: Self)
        ensures
            auto.dir == self.dir,
            auto.layout == self.layout,
            auto.width == self.width,
            auto.height == self.height,
            auto.border == Some(line),
            auto.fill == self.fill,
            auto.items == self.items,
    {
        let mut auto = self;
        auto.border = Some(line);
        auto
    }

    /// The container with a filled ground.
    pub fn fill(self, fill: FillStyle) -> (auto: Self)
        ensures
            auto.dir == self.dir,
            auto.layout == self.layout,
            auto.width == self.width,
            auto.height == self.height,
            auto.border == self.border,
            auto.fill == Some(fill),
            auto.items == self.items,
    {
        let mut auto = self;
        auto.fill = Some(fill);
        auto
    }

    /// The container with a line across it as its last child.
    pub fn rule(self, style: Option<Style>) -> (auto: Self)
        ensures
            auto.dir == self.dir,
            auto.layout == self.layout,
            auto.width == self.width,
            auto.height == self.height,
            auto.border == self.border,
            auto.fill == self.fill,
            auto.items@ == self.items@.push(
                Widget::Rule(Rule { dir: across(self.dir), style }),
            ),
    {
        let line = match self.dir {
            Dir::Horizontal => Dir::Vertical,
            Dir::Vertical => Dir::Horizontal,
        };
        self.add(Widget::Rule(Rule::styled(line, style)))
    }

    /// The container with a dividing line as its last child: a line
    /// across it in the style of the border, joined to the border at both
    /// ends.
    pub fn split(self) -> (auto: Self)
        ensures
            auto.dir == self.dir,
            auto.layout == self.layout,
            auto.width == self.width,
            auto.height == self.height,
            auto.border == self.border,
            auto.fill == self.fill,
            auto.items@ == self.items@.push(
                Widget::Split(
                    Rule {
                        dir: across(self.dir),
                        style: match self.border {
                            Some(line) => line.style,
                            None => None,
                        },
                    },
                ),
            ),
    {
        let line = match self.dir {
            Dir::Horizontal => Dir::Vertical,
            Dir::Vertical => Dir::Horizontal,
        };
        let style = match self.border {
            Some(line) => line.style,
            None => None,
        };
        self.add(Widget::Split(Rule::styled(line, style)))
    }

    pub fn width(self, width: ContainerSizing) -> (auto: Self)
        ensures
            auto.dir == self.dir,
            auto.layout == self.layout,
            auto.width == width,
            auto.height == self.height,
            auto.border == self.border,
            auto.fill == self.fill,
            auto.items == self.items,
    {
        let mut auto = self;
        auto.width = width;
        auto
    }

    pub fn height(self, height: ContainerSizing) -> (auto: Self)
        ensures
            auto.dir == self.dir,
            auto.layout == self.layout,
            auto.width == self.width,
            auto.height == height,
            auto.border == self.border,
            auto.fill == self.fill,
            auto.items == self.items,
    {
        let mut auto = self;
        auto.height = height;
        auto
    }

    /// The container with `item` as its last child.
    pub fn add(self, item: Widget) -> (auto: Self)
        ensures
            auto.dir == self.dir,
            auto.layout == self.layout,
            auto.width == self.width,
            auto.height == self.height,
            auto.border == self.border,
            auto.fill == self.fill,
            auto.items@ == self.items@.push(item),
    {
        let mut auto = self;
        auto.items.push(item);
        auto
    }

    /// The container with `items` as its last children, in their order.
    pub fn add_each(self, items: Vec<Widget>) -> (auto: Self)
        ensures
            auto.dir == self.dir,
            auto.layout == self.layout,
            auto.width == self.width,
            auto.height == self.height,
            auto.border == self.border,
            auto.fill == self.fill,
            auto.items@ == self.items@ + items@,
    {
        let mut auto = self;
        let mut items = items;
        auto.items.append(&mut items);
        auto
    }

    /// The container with `item` as its last child, if `check` is set.
    pub fn maybe_add(self, check: bool, item: Widget) -> (auto: Self)
        ensures
            auto.dir == self.dir,
            auto.layout == self.layout,
            auto.width == self.width,
            auto.height == self.height,
            auto.border == self.border,
            auto.fill == self.fill,
            auto.items@ == if check {
                self.items@.push(item)
            } else {
                self.items@
            },
    {
        let mut auto = self;
        if check {
            auto.items.push(item);
        }
        auto
    }

    /// On each axis what the container was told to ask for; where it
    /// hugs, the size that fits its children, whether it has a border or
    /// not.
    pub open spec fn wants(&self, bounds: Dimensions) -> Constraints
        decreases self, 0int,
    {
        let hug = hugged(
            self.dir,
            requests(self.items@, bounds, self.items@.len() as int),
            bounds,
        );
        Constraints {
            width: self.width.simplified(hug.width),
            height: self.height.simplified(hug.height),
        }
    }

    /// The rectangles of the children in a container that covers
    /// `within`: what the solver gives each for what it asks in the
    /// interior.
    pub open spec fn places(&self, within: Rect) -> Seq<Rect>
        decreases self, 0int,
    {
        let inner = interior(within, self.border);
        solved(
            requests(self.items@, inner.dimensions, self.items@.len() as int),
            self.dir,
            self.layout,
            inner,
        )
    }

    /// First the fill and the border, then the children one after the
    /// other, each into its rectangle in the interior, and last the
    /// joints of the dividing lines on the border.
    pub open spec fn paints(&self, within: Rect, grid: Seq<Seq<CellView>>) -> Seq<Seq<CellView>>
        decreases self, 1int,
    {
        let count = self.items@.len() as int;
        let rects = self.places(within);
        let painted = painted_children(
            self.items@,
            rects,
            interior(within, self.border),
            decorated(grid, within, self.border, self.fill),
            count,
        );
        match self.border {
            Some(line) => joined(
                self.items@,
                rects,
                self.dir,
                within,
                style_view(line.style),
                painted,
                count,
            ),
            None => painted,
        }
    }

    /// Asks every child what it wants in `bounds`.
    fn gather(&self, bounds: &Dimensions) -> (all: Vec<Constraints>)
        ensures
            all@ == requests(self.items@, *bounds, self.items@.len() as int),
        decreases self, 0int,
    {
        let mut all: Vec<Constraints> = Vec::new();
        let mut i: usize = 0;
        while i < self.items.len()
            invariant
                i <= self.items.len(),
                all@ == requests(self.items@, *bounds, i as int),
            decreases self.items.len() - i,
        {
            proof {
                assert(decreases_to!(*self => self.items));
                assert(decreases_to!(self.items => self.items@));
                assert(decreases_to!(self.items@ => self.items@[i as int]));
            }
            all.push(self.items[i].sizing(bounds));
            i += 1;
        }
        all
    }

    pub fn sizing(&self, bounds: &Dimensions) -> (c: Constraints)
        ensures
            c == self.wants(*bounds),
        decreases self, 2int,
    {
        let all = self.gather(bounds);
        let hug = hug(&self.dir, &all, bounds);
        Constraints { width: self.width.simplify(hug.width), height: self.height.simplify(hug.height) }
    }

    pub fn render(&self, within: &Rect, buffer: &mut Buffer)
        requires
            old(buffer).wf(),
            within.within(old(buffer).area()),
        ensures
            final(buffer).wf(),
            final(buffer).dimensions == old(buffer).dimensions,
            final(buffer)@ == self.paints(*within, old(buffer)@),
        decreases self, 2int,
    {
        let inner = decorate(buffer, within, &self.border, &self.fill);
        let ghost ground = buffer@;
        let all = self.gather(&inner.dimensions);
        proof {
            lemma_requests(self.items@, inner.dimensions, self.items@.len() as int);
        }
        let rects = solve(&all, &self.dir, &self.layout, &inner);
        proof {
            lemma_solved_within(all@, self.dir, self.layout, inner);
        }
        let mut i: usize = 0;
        while i < self.items.len()
            invariant
                i <= self.items.len(),
                rects@.len() == self.items@.len(),
                rects@ == self.places(*within),
                inner == interior(*within, self.border),
                inner.within(*within),
                forall|j: int| 0 <= j < rects@.len() ==> (#[trigger] rects@[j]).within(inner),
                buffer.wf(),
                buffer.dimensions == old(buffer).dimensions,
                within.within(buffer.area()),
                buffer@ == painted_children(self.items@, rects@, inner, ground, i as int),
            decreases self.items.len() - i,
        {
            let rect = rects[i];
            if rect.origin.x < inner.origin.x + inner.dimensions.width && rect.origin.y
                < inner.origin.y + inner.dimensions.height {
                proof {
                    assert(decreases_to!(*self => self.items));
                    assert(decreases_to!(self.items => self.items@));
                    assert(decreases_to!(self.items@ => self.items@[i as int]));
                    assert(rects@[i as int].within(inner));
                }
                self.items[i].render(&rect, buffer);
            }
            i += 1;
        }
        match &self.border {
            Some(line) => {
                let ghost painted = buffer@;
                let mut i: usize = 0;
                while i < self.items.len()
                    invariant
                        i <= self.items.len(),
                        rects@.len() == self.items@.len(),
                        inner == within.inset_by(1, 1, 1, 1),
                        forall|j: int|
                            0 <= j < rects@.len() ==> (#[trigger] rects@[j]).within(inner),
                        buffer.wf(),
                        buffer.dimensions == old(buffer).dimensions,
                        within.within(buffer.area()),
                        buffer@ == joined(
                            self.items@,
                            rects@,
                            self.dir,
                            *within,
                            style_view(line.style),
                            painted,
                            i as int,
                        ),
                    decreases self.items.len() - i,
                {
                    let rect = rects[i];
                    let divides = match &self.items[i] {
                        Widget::Split(_) => true,
                        _ => false,
                    };
                    if divides && rect.dimensions.width > 0 && rect.dimensions.height > 0 {
                        assert(rects@[i as int].within(inner));
                        joint(buffer, &self.dir, within, &rect, line);
                    }
                    i += 1;
                }
            },
            None => {},
        }
    }
}

/// The size that fits children with the requests `all`.
fn hug(dir: &Dir, all: &Vec<Constraints>, bounds: &Dimensions) -> (size: Dimensions)
    ensures
        size == hugged(*dir, all@, *bounds),
{
    let mut width: usize = 0;
    let mut height: usize = 0;
    let ghost flat = as_row(all@, *dir);
    let mut i: usize = 0;
    while i < all.len()
        invariant
            i <= all.len(),
            flat == as_row(all@, *dir),
            match dir {
                Dir::Horizontal => width == least(bounds.width as int, fixed_sum(flat, i as int))
                    && height == least(bounds.height as int, greatest_fixed(flat, i as int)),
                Dir::Vertical => width == least(bounds.width as int, greatest_fixed(flat, i as int))
                    && height == least(bounds.height as int, fixed_sum(flat, i as int)),
            },
            0 <= fixed_sum(flat, i as int),
            0 <= greatest_fixed(flat, i as int),
        decreases all.len() - i,
    {
        let constraints = all[i];
        match dir {
            Dir::Horizontal => {
                assert(flat[i as int] == constraints);
                if let Sizing::Fixed(n) = constraints.width {
                    width = if n <= bounds.width - width {
                        width + n
                    } else {
                        bounds.width
                    };
                }
                if let Sizing::Fixed(n) = constraints.height {
                    if n > height {
                        height = if n <= bounds.height {
                            n
                        } else {
                            bounds.height
                        };
                    }
                }
            },
            Dir::Vertical => {
                assert(flat[i as int] == constraints.rotated());
                if let Sizing::Fixed(n) = constraints.height {
                    height = if n <= bounds.height - height {
                        height + n
                    } else {
                        bounds.height
                    };
                }
                if let Sizing::Fixed(n) = constraints.width {
                    if n > width {
                        width = if n <= bounds.width {
                            n
                        } else {
                            bounds.width
                        };
                    }
                }
            },
        }
        i += 1;
    }
    Dimensions { width, height }
}

} // verus!
