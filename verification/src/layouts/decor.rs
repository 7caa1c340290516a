//! What a container paints of its own: a filled ground, a border, and
//! the joints where a dividing line meets the border.

use crate::buffer::{
    boxed, drawn_over, style_view, with_cell, Buffer, CellView, DOWN_HORIZONTAL, UP_HORIZONTAL,
    VERTICAL_LEFT, VERTICAL_RIGHT,
};
use crate::styles::{FillStyle, LineStyle, StyleView};
use crate::values::{Dir, Rect};
use vstd::prelude::*;

verus! {

/// The glyph of a fill: the one it names, or a space.
pub open spec fn fill_glyph(fill: FillStyle) -> char {
    match fill.glyph {
        Some(glyph) => glyph,
        None => ' ',
    }
}

/// The grid after a container has filled `within` and drawn its border
/// along the outline, as far as it has a fill and a border.
pub open spec fn decorated(
    grid: Seq<Seq<CellView>>,
    within: Rect,
    border: Option<LineStyle>,
    fill: Option<FillStyle>,
) -> Seq<Seq<CellView>> {
    let ground = match fill {
        Some(fill) => drawn_over(grid, within, fill_glyph(fill), Some(fill.style@)),
        None => grid,
    };
    match border {
        Some(line) => boxed(ground, within, line.rounded(), style_view(line.style)),
        None => ground,
    }
}

/// The rectangle that a container has for its children: all of `within`,
/// or what lies inside the border.
pub open spec fn interior(within: Rect, border: Option<LineStyle>) -> Rect {
    match border {
        Some(_) => within.inset_by(1, 1, 1, 1),
        None => within,
    }
}

/// The grid with the two joints of a dividing line that lies in `rect`:
/// in a column the line runs from the left side of the border to the
/// right one, and in a row from the top to the bottom.
pub open spec fn jointed(
    grid: Seq<Seq<CellView>>,
    dir: Dir,
    within: Rect,
    rect: Rect,
    style: Option<StyleView>,
) -> Seq<Seq<CellView>> {
    match dir {
        Dir::Vertical => {
            let y = rect.origin.y as int;
            let left = within.origin.x as int;
            let right = within.right() - 1;
            let first = with_cell(grid, left, y, grid[y][left].updated(VERTICAL_RIGHT, style));
            with_cell(first, right, y, first[y][right].updated(VERTICAL_LEFT, style))
        },
        Dir::Horizontal => {
            let x = rect.origin.x as int;
            let top = within.origin.y as int;
            let bottom = within.bottom() - 1;
            let first = with_cell(grid, x, top, grid[top][x].updated(DOWN_HORIZONTAL, style));
            with_cell(first, x, bottom, first[bottom][x].updated(UP_HORIZONTAL, style))
        },
    }
}

/// Whether `rect` holds any cell.
pub open spec fn occupied(rect: Rect) -> bool {
    rect.dimensions.width > 0 && rect.dimensions.height > 0
}

/// Fills `within` and draws the border, as far as there is a fill and a
/// border, and says what is left for the children.
pub fn decorate(
    buffer: &mut Buffer,
    within: &Rect,
    border: &Option<LineStyle>,
    fill: &Option<FillStyle>,
) -> (inner: Rect)
    requires
        old(buffer).wf(),
        within.within(old(buffer).area()),
    ensures
        final(buffer).wf(),
        final(buffer).dimensions == old(buffer).dimensions,
        final(buffer)@ == decorated(old(buffer)@, *within, *border, *fill),
        inner == interior(*within, *border),
        inner.within(*within),
{
    match fill {
        Some(fill) => {
            buffer.draw_fill(within, fill.style, fill.glyph);
        },
        None => {},
    }
    match border {
        Some(line) => {
            buffer.draw_box(within, line.is_rounded(), &line.style);
            within.inset(1, 1, 1, 1)
        },
        None => *within,
    }
}

/// Draws the two joints of a dividing line that lies in `rect`.
pub fn joint(buffer: &mut Buffer, dir: &Dir, within: &Rect, rect: &Rect, line: &LineStyle)
    requires
        old(buffer).wf(),
        within.within(old(buffer).area()),
        occupied(*rect),
        rect.within(within.inset_by(1, 1, 1, 1)),
    ensures
        final(buffer).wf(),
        final(buffer).dimensions == old(buffer).dimensions,
        final(buffer)@ == jointed(old(buffer)@, *dir, *within, *rect, style_view(line.style)),
{
    match dir {
        Dir::Vertical => {
            let y: usize = rect.origin.y;
            let left: usize = within.origin.x;
            let right: usize = within.origin.x + within.dimensions.width - 1;
            buffer.draw_char(left, y, VERTICAL_RIGHT, &line.style);
            buffer.draw_char(right, y, VERTICAL_LEFT, &line.style);
        },
        Dir::Horizontal => {
            let x: usize = rect.origin.x;
            let top: usize = within.origin.y;
            let bottom: usize = within.origin.y + within.dimensions.height - 1;
            buffer.draw_char(x, top, DOWN_HORIZONTAL, &line.style);
            buffer.draw_char(x, bottom, UP_HORIZONTAL, &line.style);
        },
    }
}

} // verus!
