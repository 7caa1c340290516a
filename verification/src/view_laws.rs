//! What holds of every view: it paints within the rectangle it is given,
//! and leaves the buffer in its shape.

use crate::buffer::{
    blank_grid,
    boxed,
    cropped_size,
    drawn_over,
    lettered,
    shaped,
    tinted,
    CellView,
};
use crate::layouts::auto::{joined, painted_children, requests, shown, Auto};
use crate::layouts::decor::{decorated, interior, jointed, occupied};
use crate::layouts::auto_solver::solved;
use crate::layouts::pin::{pinned, Pin, PinBoard, PinOrigin};
use crate::layouts::row_laws::lemma_solved_within;
use crate::layouts::scroll_box::{canvas_size, window_from, window_to, ScrollBox, MAX_SIZE};
use crate::styles::StyleView;
use crate::values::{Constraints, Dimensions, Dir, Point, Rect};
use crate::views::{left_column, top_row, Border, Padding, Styled, Widget};
use vstd::prelude::*;

verus! {

/// The rectangle that covers a grid of the given size.
pub open spec fn whole(size: Dimensions) -> Rect {
    Rect { origin: Point { x: 0, y: 0 }, dimensions: size }
}

/// Whether `after` is of the given size and differs from `before` in
/// cells of `within` alone.
pub open spec fn kept_outside(
    before: Seq<Seq<CellView>>,
    after: Seq<Seq<CellView>>,
    within: Rect,
    size: Dimensions,
) -> bool {
    &&& shaped(after, size)
    &&& forall|x: int, y: int|
        0 <= y < size.height && 0 <= x < size.width && !within.holds(x, y) ==> (#[trigger] after[y][x])
            == before[y][x]
}

/// What stays as it was outside a rectangle stays so outside every
/// rectangle around it.
pub proof fn lemma_kept_wider(
    before: Seq<Seq<CellView>>,
    after: Seq<Seq<CellView>>,
    inner: Rect,
    outer: Rect,
    size: Dimensions,
)
    requires
        kept_outside(before, after, inner, size),
        inner.within(outer),
    ensures
        kept_outside(before, after, outer, size),
{
    assert forall|x: int, y: int|
        0 <= y < size.height && 0 <= x < size.width && !outer.holds(x, y) implies (#[trigger] after[y][x])
        == before[y][x] by {
        assert(!inner.holds(x, y));
    }
}

/// Painting twice within a rectangle is painting within it.
pub proof fn lemma_kept_twice(
    first: Seq<Seq<CellView>>,
    second: Seq<Seq<CellView>>,
    third: Seq<Seq<CellView>>,
    within: Rect,
    size: Dimensions,
)
    requires
        kept_outside(first, second, within, size),
        kept_outside(second, third, within, size),
    ensures
        kept_outside(first, third, within, size),
{
    assert forall|x: int, y: int|
        0 <= y < size.height && 0 <= x < size.width && !within.holds(x, y) implies (#[trigger] third[y][x])
        == first[y][x] by {
        assert(second[y][x] == first[y][x]);
    }
}

/// Drawing a glyph over a rectangle changes no cell outside it.
pub proof fn lemma_drawn_over_within(
    grid: Seq<Seq<CellView>>,
    rect: Rect,
    content: char,
    style: Option<StyleView>,
    size: Dimensions,
)
    requires
        shaped(grid, size),
    ensures
        kept_outside(grid, drawn_over(grid, rect, content, style), rect, size),
{
}

/// Laying a style over a rectangle changes no cell outside it.
pub proof fn lemma_tinted_within(
    grid: Seq<Seq<CellView>>,
    rect: Rect,
    style: StyleView,
    size: Dimensions,
)
    requires
        shaped(grid, size),
    ensures
        kept_outside(grid, tinted(grid, rect, style), rect, size),
{
}

/// Drawing a box around a rectangle changes no cell outside it.
pub proof fn lemma_boxed_within(
    grid: Seq<Seq<CellView>>,
    rect: Rect,
    rounded: bool,
    style: Option<StyleView>,
    size: Dimensions,
)
    requires
        shaped(grid, size),
    ensures
        kept_outside(grid, boxed(grid, rect, rounded, style), rect, size),
{
}

/// Writing text into a rectangle changes no cell outside it.
pub proof fn lemma_lettered_within(
    grid: Seq<Seq<CellView>>,
    rect: Rect,
    lines: Seq<Seq<char>>,
    style: Option<StyleView>,
    size: Dimensions,
)
    requires
        shaped(grid, size),
    ensures
        kept_outside(grid, lettered(grid, rect, lines, style), rect, size),
{
}

/// What is left of a rectangle when cells are taken off its sides lies
/// within the rectangle.
pub proof fn lemma_inset_within(rect: Rect, left: usize, right: usize, top: usize, bottom: usize)
    requires
        rect.right() <= usize::MAX,
        rect.bottom() <= usize::MAX,
    ensures
        rect.inset_by(left, right, top, bottom).within(rect),
{
}

/// A pinned view is placed within the board.
pub proof fn lemma_placed_on_board(origin: PinOrigin, request: Constraints, within: Rect)
    requires
        origin.room(within.dimensions).is_some(),
        within.right() <= usize::MAX,
        within.bottom() <= usize::MAX,
    ensures
        origin.placed(request, within).within(within),
{
}

/// The window that a scroll box cuts out of its canvas is no larger than
/// the box.
pub proof fn lemma_window_fits(dir: Dir, position: usize, visible: Dimensions)
    ensures
        cropped_size(
            canvas_size(dir, visible),
            window_from(dir, position),
            window_to(dir, position, visible),
        ).width <= visible.width,
        cropped_size(
            canvas_size(dir, visible),
            window_from(dir, position),
            window_to(dir, position, visible),
        ).height <= visible.height,
{
}

/// A line paints within the rectangle it is given.
pub proof fn lemma_rule_within(
    rule: crate::views::Rule,
    within: Rect,
    grid: Seq<Seq<CellView>>,
    size: Dimensions,
)
    requires
        shaped(grid, size),
        within.within(whole(size)),
    ensures
        kept_outside(grid, rule.paints(within, grid), within, size),
{
    let style = crate::buffer::style_view(rule.style);
    match rule.dir {
        Dir::Horizontal => {
            lemma_drawn_over_within(grid, top_row(within), crate::buffer::H_LINE, style, size);
            lemma_kept_wider(grid, rule.paints(within, grid), top_row(within), within, size);
        },
        Dir::Vertical => {
            lemma_drawn_over_within(grid, left_column(within), crate::buffer::V_LINE, style, size);
            lemma_kept_wider(grid, rule.paints(within, grid), left_column(within), within, size);
        },
    }
}

/// The fill and the border of a container change no cell outside it.
pub proof fn lemma_decorated_within(
    grid: Seq<Seq<CellView>>,
    within: Rect,
    border: Option<crate::styles::LineStyle>,
    fill: Option<crate::styles::FillStyle>,
    size: Dimensions,
)
    requires
        shaped(grid, size),
        within.within(whole(size)),
    ensures
        kept_outside(grid, decorated(grid, within, border, fill), within, size),
        interior(within, border).within(within),
{
}

/// The joints of a dividing line lie on the border of the container.
pub proof fn lemma_jointed_within(
    grid: Seq<Seq<CellView>>,
    dir: Dir,
    within: Rect,
    rect: Rect,
    style: Option<StyleView>,
    size: Dimensions,
)
    requires
        shaped(grid, size),
        within.within(whole(size)),
        occupied(rect),
        rect.within(within.inset_by(1, 1, 1, 1)),
    ensures
        kept_outside(grid, jointed(grid, dir, within, rect, style), within, size),
{
}

/// The joints of all dividing lines lie on the border of the container.
pub proof fn lemma_joined_within(
    items: Seq<Widget>,
    rects: Seq<Rect>,
    dir: Dir,
    within: Rect,
    style: Option<StyleView>,
    grid: Seq<Seq<CellView>>,
    size: Dimensions,
    k: int,
)
    requires
        shaped(grid, size),
        within.within(whole(size)),
        0 <= k <= items.len(),
        rects.len() == items.len(),
        forall|j: int|
            0 <= j < rects.len() ==> (#[trigger] rects[j]).within(within.inset_by(1, 1, 1, 1)),
    ensures
        kept_outside(grid, joined(items, rects, dir, within, style, grid, k), within, size),
    decreases k,
{
    if k > 0 {
        lemma_joined_within(items, rects, dir, within, style, grid, size, k - 1);
        let below = joined(items, rects, dir, within, style, grid, k - 1);
        if items[k - 1] is Split && occupied(rects[k - 1]) {
            assert(rects[k - 1].within(within.inset_by(1, 1, 1, 1)));
            lemma_jointed_within(below, dir, within, rects[k - 1], style, size);
            lemma_kept_twice(
                grid,
                below,
                jointed(below, dir, within, rects[k - 1], style),
                within,
                size,
            );
        }
    }
}

/// Every view paints within the rectangle it is given: the grid keeps
/// its size, and no cell outside the rectangle changes.
pub proof fn lemma_paints_within(
    view: Widget,
    within: Rect,
    grid: Seq<Seq<CellView>>,
    size: Dimensions,
)
    requires
        shaped(grid, size),
        within.within(whole(size)),
    ensures
        kept_outside(grid, view.paints(within, grid), within, size),
    decreases view, 3int,
{
    match view {
        Widget::Spacer(_) => {},
        Widget::Label(label) => {
            lemma_lettered_within(grid, top_row(within), seq![label.text@], None, size);
            lemma_kept_wider(grid, view.paints(within, grid), top_row(within), within, size);
        },
        Widget::MultilineText(text) => {
            lemma_lettered_within(grid, within, crate::text::lines_of(text.text@), None, size);
        },
        Widget::Rule(rule) => {
            lemma_rule_within(rule, within, grid, size);
        },
        Widget::Split(rule) => {
            lemma_rule_within(rule, within, grid, size);
        },
        Widget::Padding(padding) => {
            let inner = within.inset_by(padding.left, padding.right, padding.top, padding.bottom);
            lemma_inset_within(within, padding.left, padding.right, padding.top, padding.bottom);
            lemma_paints_within(*padding.item, inner, grid, size);
            lemma_kept_wider(grid, view.paints(within, grid), inner, within, size);
        },
        Widget::Styled(styled) => {
            let ground = tinted(grid, within, styled.style@);
            lemma_tinted_within(grid, within, styled.style@, size);
            lemma_paints_within(*styled.item, within, ground, size);
            lemma_kept_twice(grid, ground, view.paints(within, grid), within, size);
        },
        Widget::Border(border) => {
            let ground = boxed(
                grid,
                within,
                border.stroke == crate::styles::Stroke::SolidRounded,
                Some(border.style@),
            );
            let inner = within.inset_by(1, 1, 1, 1);
            lemma_boxed_within(
                grid,
                within,
                border.stroke == crate::styles::Stroke::SolidRounded,
                Some(border.style@),
                size,
            );
            lemma_inset_within(within, 1, 1, 1, 1);
            lemma_paints_within(*border.item, inner, ground, size);
            lemma_kept_wider(ground, view.paints(within, grid), inner, within, size);
            lemma_kept_twice(grid, ground, view.paints(within, grid), within, size);
        },
        Widget::Auto(auto) => {
            lemma_auto_within(auto, within, grid, size);
        },
        Widget::PinBoard(board) => {
            let inner = interior(within, board.border);
            let ground = decorated(grid, within, board.border, board.fill);
            lemma_decorated_within(grid, within, board.border, board.fill, size);
            lemma_pinned_within(board.pins@, inner, ground, size, board.pins@.len() as int);
            lemma_kept_wider(ground, view.paints(within, grid), inner, within, size);
            lemma_kept_twice(grid, ground, view.paints(within, grid), within, size);
        },
        Widget::ScrollBox(scroll) => {
            lemma_scroll_within(scroll, within, grid, size);
        },
    }
}

/// A container paints within the rectangle it is given.
pub proof fn lemma_auto_within(auto: Auto, within: Rect, grid: Seq<Seq<CellView>>, size: Dimensions)
    requires
        shaped(grid, size),
        within.within(whole(size)),
    ensures
        kept_outside(grid, auto.paints(within, grid), within, size),
    decreases auto, 2int,
{
    let count = auto.items@.len() as int;
    let inner = interior(within, auto.border);
    let ground = decorated(grid, within, auto.border, auto.fill);
    let all = requests(auto.items@, inner.dimensions, count);
    let rects = solved(all, auto.dir, auto.layout, inner);
    lemma_decorated_within(grid, within, auto.border, auto.fill, size);
    crate::layouts::auto::lemma_requests(auto.items@, inner.dimensions, count);
    lemma_solved_within(all, auto.dir, auto.layout, inner);
    lemma_children_within(auto.items@, rects, inner, ground, size, count);
    let painted = painted_children(auto.items@, rects, inner, ground, count);
    lemma_kept_wider(ground, painted, inner, within, size);
    lemma_kept_twice(grid, ground, painted, within, size);
    match auto.border {
        Some(line) => {
            let style = crate::buffer::style_view(line.style);
            lemma_joined_within(auto.items@, rects, auto.dir, within, style, painted, size, count);
            lemma_kept_twice(
                grid,
                painted,
                joined(auto.items@, rects, auto.dir, within, style, painted, count),
                within,
                size,
            );
        },
        None => {},
    }
}

/// Children that paint into rectangles of a container paint within the
/// container.
pub proof fn lemma_children_within(
    items: Seq<Widget>,
    rects: Seq<Rect>,
    within: Rect,
    grid: Seq<Seq<CellView>>,
    size: Dimensions,
    k: int,
)
    requires
        shaped(grid, size),
        within.within(whole(size)),
        0 <= k <= items.len(),
        rects.len() == items.len(),
        forall|j: int| 0 <= j < rects.len() ==> (#[trigger] rects[j]).within(within),
    ensures
        kept_outside(grid, painted_children(items, rects, within, grid, k), within, size),
    decreases items, k,
{
    if k > 0 {
        lemma_children_within(items, rects, within, grid, size, k - 1);
        let below = painted_children(items, rects, within, grid, k - 1);
        if shown(rects[k - 1], within) {
            let after = items[k - 1].paints(rects[k - 1], below);
            assert(rects[k - 1].within(within));
            lemma_paints_within(items[k - 1], rects[k - 1], below, size);
            lemma_kept_wider(below, after, rects[k - 1], within, size);
            lemma_kept_twice(grid, below, after, within, size);
        }
    }
}

/// Pinned views paint within the board.
pub proof fn lemma_pinned_within(
    pins: Seq<Pin>,
    within: Rect,
    grid: Seq<Seq<CellView>>,
    size: Dimensions,
    k: int,
)
    requires
        shaped(grid, size),
        within.within(whole(size)),
        0 <= k <= pins.len(),
    ensures
        kept_outside(grid, pinned(pins, within, grid, k), within, size),
    decreases pins, k,
{
    if k > 0 {
        lemma_pinned_within(pins, within, grid, size, k - 1);
        let below = pinned(pins, within, grid, k - 1);
        let pin = pins[k - 1];
        match pin.origin.room(within.dimensions) {
            Some(room) => {
                let rect = pin.origin.placed(pin.item.wants(room), within);
                let after = pin.item.paints(rect, below);
                lemma_placed_on_board(pin.origin, pin.item.wants(room), within);
                lemma_paints_within(*pin.item, rect, below, size);
                lemma_kept_wider(below, after, rect, within, size);
                lemma_kept_twice(grid, below, after, within, size);
            },
            None => {},
        }
    }
}

/// A scroll box paints within the rectangle it is given.
pub proof fn lemma_scroll_within(
    scroll: ScrollBox,
    within: Rect,
    grid: Seq<Seq<CellView>>,
    size: Dimensions,
)
    requires
        shaped(grid, size),
        within.within(whole(size)),
    ensures
        kept_outside(grid, scroll.paints(within, grid), within, size),
{
    lemma_window_fits(scroll.dir, scroll.position, within.dimensions);
}

/// The canvas of a scroll box has the size of the canvas, whatever the
/// children paint on it.
pub proof fn lemma_canvas_shaped(scroll: ScrollBox, visible: Dimensions)
    ensures
        shaped(scroll.canvas(visible), canvas_size(scroll.dir, visible)),
{
    let size = canvas_size(scroll.dir, visible);
    lemma_auto_within(scroll.contents, whole(size), blank_grid(size), size);
}

/// A scroll box shows its canvas from the scroll position on: a cell of
/// the box shows what the children painted as many cells further along
/// the axis of scrolling as the position says, as long as that lies on
/// the canvas; a cell beyond the end of the canvas stays as it was. At
/// position 0 the box shows the start of the canvas.
pub proof fn lemma_scroll_shows_window(
    scroll: ScrollBox,
    within: Rect,
    grid: Seq<Seq<CellView>>,
    size: Dimensions,
    x: int,
    y: int,
)
    requires
        shaped(grid, size),
        within.within(whole(size)),
        within.holds(x, y),
    ensures
        scroll.dir == Dir::Vertical ==> scroll.paints(within, grid)[y][x] == if scroll.position + (y
            - within.origin.y) < MAX_SIZE {
            scroll.canvas(within.dimensions)[scroll.position + (y - within.origin.y)][x
                - within.origin.x]
        } else {
            grid[y][x]
        },
        scroll.dir == Dir::Horizontal ==> scroll.paints(within, grid)[y][x] == if scroll.position
            + (x - within.origin.x) < MAX_SIZE {
            scroll.canvas(within.dimensions)[y - within.origin.y][scroll.position + (x
                - within.origin.x)]
        } else {
            grid[y][x]
        },
{
    lemma_window_fits(scroll.dir, scroll.position, within.dimensions);
}

} // verus!
