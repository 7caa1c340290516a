//! The grid of styled cells that views paint into.

use crate::styles::{Style, StyleView};
use crate::text::{chars_of, lines_of, lines_view, split_lines};
use crate::values::{Dimensions, Point, Rect};
use vstd::prelude::*;

verus! {

/// What a cell shows: a glyph, and the style it is shown in, if any.
pub struct CellView {
    pub content: char,
    pub style: Option<StyleView>,
}

impl CellView {
    /// The cell of a fresh buffer: a space without a style.
    pub open spec fn blank() -> CellView {
        CellView { content: ' ', style: None }
    }

    /// The cell after `content` has been drawn on it in `style`: the glyph
    /// is replaced; the style is laid over the one the cell had, and where
    /// nothing is drawn with a style the cell keeps its own.
    pub open spec fn updated(self, content: char, style: Option<StyleView>) -> CellView {
        CellView {
            content,
            style: match (self.style, style) {
                (None, Some(over)) => Some(over),
                (Some(below), Some(over)) => Some(below.merged(over)),
                (below, None) => below,
            },
        }
    }

    /// The cell after `style` has been laid over it: the glyph stays.
    pub open spec fn restyled(self, style: StyleView) -> CellView {
        self.updated(self.content, Some(style))
    }
}

/// One position of the grid.
#[derive(Debug, Clone, PartialEq, Eq)]
pub struct Cell {
    pub content: char,
    pub style: Option<Style>,
}

/// What an optional style says.
pub open spec fn style_view(style: Option<Style>) -> Option<StyleView> {
    match style {
        Some(s) => Some(s@),
        None => None,
    }
}

impl View for Cell {
    type V = CellView;

    open spec fn view(&self) -> CellView {
        CellView { content: self.content, style: style_view(self.style) }
    }
}

impl Cell {
    /// Draws `content` on the cell in the style `other`.
    pub fn update(&mut self, content: char, other: &Option<Style>)
        ensures
            final(self)@ == old(self)@.updated(content, style_view(*other)),
    {
        self.content = content;
        match other {
            Some(over) => {
                match self.style {
                    Some(below) => {
                        let mut merged = below;
                        merged.update(over);
                        self.style = Some(merged);
                    },
                    None => {
                        self.style = Some(*over);
                    },
                }
            },
            None => {},
        }
    }

    /// Whether both cells show the same.
    pub fn same(&self, other: &Cell) -> (same: bool)
        ensures
            same == (self@ == other@),
    {
        let styles = match (&self.style, &other.style) {
            (Some(a), Some(b)) => a.same(b),
            (None, None) => true,
            _ => false,
        };
        self.content == other.content && styles
    }

    /// A cell that shows the same as this one.
    pub fn copy(&self) -> (cell: Cell)
        ensures
            cell@ == self@,
            cell == *self,
    {
        Cell { content: self.content, style: self.style }
    }
}

pub const H_LINE: char = '─';

pub const V_LINE: char = '│';

pub const DOWN_LEFT: char = '┐';

pub const DOWN_RIGHT: char = '┌';

pub const UP_RIGHT: char = '└';

pub const UP_LEFT: char = '┘';

pub const VERTICAL_RIGHT: char = '├';

pub const VERTICAL_LEFT: char = '┤';

pub const UP_HORIZONTAL: char = '┴';

pub const DOWN_HORIZONTAL: char = '┬';

pub const VERTICAL_HORIZONTAL: char = '┼';

pub const ARC_DOWN_RIGHT: char = '╭';

pub const ARC_DOWN_LEFT: char = '╮';

pub const ARC_UP_LEFT: char = '╯';

pub const ARC_UP_RIGHT: char = '╰';

/// Whether the cell at column `x`, row `y` lies on the outline of `rect`.
pub open spec fn on_outline(rect: Rect, x: int, y: int) -> bool {
    rect.holds(x, y) && (x == rect.origin.x || x == rect.right() - 1 || y == rect.origin.y || y
        == rect.bottom() - 1)
}

/// The glyph of a box around `rect` at a cell of its outline: a corner
/// where two sides meet, and a line along the sides. In a box of one
/// column the left side wins over the right one, and in a box of one row
/// the bottom over the top.
pub open spec fn outline_glyph(rect: Rect, rounded: bool, x: int, y: int) -> char {
    if x == rect.origin.x {
        if y == rect.bottom() - 1 {
            if rounded {
                ARC_UP_RIGHT
            } else {
                UP_RIGHT
            }
        } else if y == rect.origin.y {
            if rounded {
                ARC_DOWN_RIGHT
            } else {
                DOWN_RIGHT
            }
        } else {
            V_LINE
        }
    } else if x == rect.right() - 1 {
        if y == rect.bottom() - 1 {
            if rounded {
                ARC_UP_LEFT
            } else {
                UP_LEFT
            }
        } else if y == rect.origin.y {
            if rounded {
                ARC_DOWN_LEFT
            } else {
                DOWN_LEFT
            }
        } else {
            V_LINE
        }
    } else {
        H_LINE
    }
}

/// The glyph of line `line`, column `column` of a text, if the text has
/// one there.
pub open spec fn glyph_at(lines: Seq<Seq<char>>, column: int, line: int) -> Option<char> {
    if 0 <= line < lines.len() && 0 <= column < lines[line].len() {
        Some(lines[line][column])
    } else {
        None
    }
}

/// `grid` with `content` drawn in `style` on every cell of `rect`.
pub open spec fn drawn_over(
    grid: Seq<Seq<CellView>>,
    rect: Rect,
    content: char,
    style: Option<StyleView>,
) -> Seq<Seq<CellView>> {
    Seq::new(
        grid.len(),
        |y: int|
            Seq::new(
                grid[y].len(),
                |x: int|
                    if rect.holds(x, y) {
                        grid[y][x].updated(content, style)
                    } else {
                        grid[y][x]
                    },
            ),
    )
}

/// `grid` with `style` laid over every cell of `rect`.
pub open spec fn tinted(grid: Seq<Seq<CellView>>, rect: Rect, style: StyleView) -> Seq<
    Seq<CellView>,
> {
    Seq::new(
        grid.len(),
        |y: int|
            Seq::new(
                grid[y].len(),
                |x: int|
                    if rect.holds(x, y) {
                        grid[y][x].restyled(style)
                    } else {
                        grid[y][x]
                    },
            ),
    )
}

/// `grid` with a box drawn along the outline of `rect`.
pub open spec fn boxed(
    grid: Seq<Seq<CellView>>,
    rect: Rect,
    rounded: bool,
    style: Option<StyleView>,
) -> Seq<Seq<CellView>> {
    Seq::new(
        grid.len(),
        |y: int|
            Seq::new(
                grid[y].len(),
                |x: int|
                    if on_outline(rect, x, y) {
                        grid[y][x].updated(outline_glyph(rect, rounded, x, y), style)
                    } else {
                        grid[y][x]
                    },
            ),
    )
}

/// `grid` with the cells of `other` in place of its own, the top-left
/// cell of `other` at `at`.
pub open spec fn stamped(grid: Seq<Seq<CellView>>, at: Point, other: Seq<Seq<CellView>>) -> Seq<
    Seq<CellView>,
> {
    Seq::new(
        grid.len(),
        |y: int|
            Seq::new(
                grid[y].len(),
                |x: int|
                    if at.y <= y < at.y + other.len() && at.x <= x < at.x + other[y - at.y].len() {
                        other[y - at.y][x - at.x]
                    } else {
                        grid[y][x]
                    },
            ),
    )
}

/// `grid` with `lines` written in `style` from the top-left cell of `rect`
/// on, one line per row. What does not fit into `rect` is left out.
pub open spec fn lettered(
    grid: Seq<Seq<CellView>>,
    rect: Rect,
    lines: Seq<Seq<char>>,
    style: Option<StyleView>,
) -> Seq<Seq<CellView>> {
    Seq::new(
        grid.len(),
        |y: int|
            Seq::new(
                grid[y].len(),
                |x: int|
                    match glyph_at(lines, x - rect.origin.x, y - rect.origin.y) {
                        Some(content) if rect.holds(x, y) => grid[y][x].updated(content, style),
                        _ => grid[y][x],
                    },
            ),
    )
}

/// The window of `grid` from the corner `from` up to, but without, the
/// corner `to`, or up to the end of the grid where that comes first.
pub open spec fn cropped(grid: Seq<Seq<CellView>>, from: Point, to: Point, size: Dimensions) -> Seq<
    Seq<CellView>,
> {
    Seq::new(
        size.height as nat,
        |y: int| Seq::new(size.width as nat, |x: int| grid[from.y + y][from.x + x]),
    )
}

/// The size of the window that `cropped` cuts out of a grid of size
/// `old_size`.
pub open spec fn cropped_size(old_size: Dimensions, from: Point, to: Point) -> Dimensions {
    let right = if to.x < old_size.width {
        to.x
    } else {
        old_size.width
    };
    let bottom = if to.y < old_size.height {
        to.y
    } else {
        old_size.height
    };
    Dimensions {
        width: if from.x <= right {
            (right - from.x) as usize
        } else {
            0
        },
        height: if from.y <= bottom {
            (bottom - from.y) as usize
        } else {
            0
        },
    }
}

/// What is drawn on the cells of a rectangle.
enum Brush<'a> {
    /// The same glyph on every cell.
    Glyph { content: char, style: &'a Option<Style> },
    /// A style laid over every cell.
    Tint { tint: &'a Style },
    /// A box along the outline of a rectangle.
    Outline { rect: Rect, rounded: bool, style: &'a Option<Style> },
    /// The cells of another buffer whose top-left cell comes to lie at `at`.
    Stamp { at: Point, other: &'a Buffer },
    /// Lines of text from `at` on.
    Text { at: Point, lines: &'a Vec<Vec<char>>, style: &'a Option<Style> },
}

impl<'a> Brush<'a> {
    /// What the brush leaves of `below` at column `x`, row `y`.
    spec fn stroke(self, x: int, y: int, below: CellView) -> CellView {
        match self {
            Brush::Glyph { content, style } => below.updated(content, style_view(*style)),
            Brush::Tint { tint } => below.restyled(tint@),
            Brush::Outline { rect, rounded, style } => if on_outline(rect, x, y) {
                below.updated(outline_glyph(rect, rounded, x, y), style_view(*style))
            } else {
                below
            },
            Brush::Stamp { at, other } => other@[y - at.y][x - at.x],
            Brush::Text { at, lines, style } => match glyph_at(
                lines_view(lines@),
                x - at.x,
                y - at.y,
            ) {
                Some(content) => below.updated(content, style_view(*style)),
                None => below,
            },
        }
    }

    /// Whether the brush can be used on every cell of `rect`.
    spec fn covers(self, rect: Rect) -> bool {
        match self {
            Brush::Glyph { .. } => true,
            Brush::Tint { .. } => true,
            Brush::Outline { rect: outline, .. } => outline.right() <= usize::MAX
                && outline.bottom() <= usize::MAX,
            Brush::Stamp { at, other } => other.wf() && rect == (Rect {
                origin: at,
                dimensions: other.dimensions,
            }),
            Brush::Text { at, .. } => rect.origin == at,
        }
    }

    /// The cell that the brush leaves of `below` at column `x`, row `y`.
    fn apply(&self, rect: &Rect, x: usize, y: usize, below: &Cell) -> (cell: Cell)
        requires
            self.covers(*rect),
            rect.holds(x as int, y as int),
        ensures
            cell@ == self.stroke(x as int, y as int, below@),
    {
        let mut cell = below.copy();
        match self {
            Brush::Glyph { content, style } => {
                cell.update(*content, style);
            },
            Brush::Tint { tint } => {
                cell.update(below.content, &Some(**tint));
            },
            Brush::Outline { rect: outline, rounded, style } => {
                if outline.dimensions.width > 0 && outline.dimensions.height > 0
                    && outline.origin.x <= x && outline.origin.y <= y {
                    let right: usize = outline.origin.x + (outline.dimensions.width - 1);
                    let bottom: usize = outline.origin.y + (outline.dimensions.height - 1);
                    if x <= right && y <= bottom && (x == outline.origin.x || x == right || y
                        == outline.origin.y || y == bottom) {
                        let left_side = x == outline.origin.x;
                        let glyph = if left_side || x == right {
                            if y == bottom {
                                match (left_side, *rounded) {
                                    (true, true) => ARC_UP_RIGHT,
                                    (true, false) => UP_RIGHT,
                                    (false, true) => ARC_UP_LEFT,
                                    (false, false) => UP_LEFT,
                                }
                            } else if y == outline.origin.y {
                                match (left_side, *rounded) {
                                    (true, true) => ARC_DOWN_RIGHT,
                                    (true, false) => DOWN_RIGHT,
                                    (false, true) => ARC_DOWN_LEFT,
                                    (false, false) => DOWN_LEFT,
                                }
                            } else {
                                V_LINE
                            }
                        } else {
                            H_LINE
                        };
                        cell.update(glyph, style);
                    }
                }
            },
            Brush::Stamp { at, other } => {
                assert(other@[y - at.y].len() == other.dimensions.width);
                cell = other.cells[y - at.y][x - at.x].copy();
            },
            Brush::Text { at, lines, style } => {
                let line: usize = y - at.y;
                let column: usize = x - at.x;
                if line < lines.len() && column < lines[line].len() {
                    cell.update(lines[line][column], style);
                }
            },
        }
        cell
    }
}

/// A grid with the given cell at column `x` of row `y`, and otherwise as
/// `grid`.
pub open spec fn with_cell(grid: Seq<Seq<CellView>>, x: int, y: int, cell: CellView) -> Seq<
    Seq<CellView>,
> {
    grid.update(y, grid[y].update(x, cell))
}

/// The grid of a fresh buffer.
pub open spec fn blank_grid(dimensions: Dimensions) -> Seq<Seq<CellView>> {
    Seq::new(
        dimensions.height as nat,
        |y: int| Seq::new(dimensions.width as nat, |x: int| CellView::blank()),
    )
}

/// Whether `grid` has `dimensions.height` rows of `dimensions.width` cells.
pub open spec fn shaped(grid: Seq<Seq<CellView>>, dimensions: Dimensions) -> bool {
    &&& grid.len() == dimensions.height
    &&& forall|y: int| 0 <= y < grid.len() ==> (#[trigger] grid[y]).len() == dimensions.width
}

/// A rectangular grid of cells, stored row by row.
#[derive(Debug, Clone, PartialEq, Eq)]
pub struct Buffer {
    pub dimensions: Dimensions,
    pub cells: Vec<Vec<Cell>>,
}

impl View for Buffer {
    type V = Seq<Seq<CellView>>;

    open spec fn view(&self) -> Seq<Seq<CellView>> {
        Seq::new(
            self.cells@.len(),
            |y: int| Seq::new(self.cells@[y]@.len(), |x: int| self.cells@[y]@[x]@),
        )
    }
}

impl Buffer {
    /// Whether the rows are as many and as long as the dimensions say.
    pub open spec fn wf(&self) -> bool {
        shaped(self@, self.dimensions)
    }

    /// The whole grid as a rectangle.
    pub open spec fn area(&self) -> Rect {
        Rect { origin: Point { x: 0, y: 0 }, dimensions: self.dimensions }
    }

    /// A buffer of spaces without style.
    pub fn new(dimensions: Dimensions) -> (buffer: Self)
        ensures
            buffer.wf(),
            buffer.dimensions == dimensions,
            buffer@ == blank_grid(dimensions),
    {
        let mut cells: Vec<Vec<Cell>> = Vec::new();
        let mut y: usize = 0;
        while y < dimensions.height
            invariant
                y <= dimensions.height,
                cells@.len() == y,
                forall|j: int|
                    0 <= j < y ==> {
                        &&& (#[trigger] cells@[j])@.len() == dimensions.width
                        &&& forall|i: int|
                            0 <= i < dimensions.width ==> (#[trigger] cells@[j]@[i])@
                                == CellView::blank()
                    },
            decreases dimensions.height - y,
        {
            let mut row: Vec<Cell> = Vec::new();
            let mut x: usize = 0;
            while x < dimensions.width
                invariant
                    x <= dimensions.width,
                    row@.len() == x,
                    forall|i: int| 0 <= i < x ==> (#[trigger] row@[i])@ == CellView::blank(),
                decreases dimensions.width - x,
            {
                row.push(Cell { content: ' ', style: None });
                x += 1;
            }
            cells.push(row);
            y += 1;
        }
        let buffer = Buffer { dimensions, cells };
        assert(buffer@ =~~= blank_grid(dimensions));
        buffer
    }

    /// Whether the rows are as many and as long as the dimensions say.
    pub fn well_formed(&self) -> (ok: bool)
        ensures
            ok == self.wf(),
    {
        if self.cells.len() != self.dimensions.height {
            return false;
        }
        let mut y: usize = 0;
        while y < self.cells.len()
            invariant
                y <= self.cells.len(),
                self.cells@.len() == self.dimensions.height,
                forall|j: int| 0 <= j < y ==> (#[trigger] self@[j]).len() == self.dimensions.width,
            decreases self.cells.len() - y,
        {
            if self.cells[y].len() != self.dimensions.width {
                assert(self@[y as int].len() != self.dimensions.width);
                return false;
            }
            assert(self@[y as int].len() == self.dimensions.width);
            y += 1;
        }
        true
    }

    /// The cell at column `x` of row `y`, to be changed in place.
    pub fn mut_cell(&mut self, x: usize, y: usize) -> (cell: &mut Cell)
        requires
            old(self).wf(),
            x < old(self).dimensions.width,
            y < old(self).dimensions.height,
        ensures
            *cell == old(self).cells@[y as int]@[x as int],
            final(self).dimensions == old(self).dimensions,
            final(self).cells@.len() == old(self).cells@.len(),
            forall|j: int|
                0 <= j < old(self).cells@.len() && j != y ==> final(self).cells@[j] == old(
                    self,
                ).cells@[j],
            final(self).cells@[y as int]@ == old(self).cells@[y as int]@.update(
                x as int,
                *final(cell),
            ),
    {
        assert(self@[y as int].len() == self.dimensions.width);
        &mut self.cells[y][x]
    }

    /// The cell at `point`.
    pub fn read_cell(&self, point: &Point) -> (cell: &Cell)
        requires
            self.wf(),
            point.x < self.dimensions.width,
            point.y < self.dimensions.height,
        ensures
            cell@ == self@[point.y as int][point.x as int],
    {
        assert(self@[point.y as int].len() == self.dimensions.width);
        &self.cells[point.y][point.x]
    }

    /// Puts `cell` at column `x` of row `y`.
    fn put(&mut self, x: usize, y: usize, cell: Cell)
        requires
            old(self).wf(),
            x < old(self).dimensions.width,
            y < old(self).dimensions.height,
        ensures
            final(self).wf(),
            final(self).dimensions == old(self).dimensions,
            final(self)@ == with_cell(old(self)@, x as int, y as int, cell@),
    {
        assert(self@[y as int].len() == self.dimensions.width);
        self.cells[y][x] = cell;
        assert(self@ =~~= with_cell(old(self)@, x as int, y as int, cell@));
    }

    /// Draws with `brush` on every cell of `rect`, row by row.
    fn paint(&mut self, rect: &Rect, brush: &Brush)
        requires
            old(self).wf(),
            rect.within(old(self).area()),
            brush.covers(*rect),
        ensures
            final(self).wf(),
            final(self).dimensions == old(self).dimensions,
            forall|x: int, y: int|
                0 <= y < old(self).dimensions.height && 0 <= x < old(self).dimensions.width
                    ==> #[trigger] final(self)@[y][x] == if rect.holds(x, y) {
                    brush.stroke(x, y, old(self)@[y][x])
                } else {
                    old(self)@[y][x]
                },
    {
        let mut row: usize = rect.origin.y;
        let last_row: usize = rect.origin.y + rect.dimensions.height;
        let last_column: usize = rect.origin.x + rect.dimensions.width;
        while row < last_row
            invariant
                self.wf(),
                self.dimensions == old(self).dimensions,
                rect.within(self.area()),
                brush.covers(*rect),
                rect.origin.y <= row <= last_row,
                last_row == rect.bottom(),
                last_column == rect.right(),
                forall|x: int, y: int|
                    0 <= y < self.dimensions.height && 0 <= x < self.dimensions.width
                        ==> #[trigger] self@[y][x] == if rect.holds(x, y) && y < row {
                        brush.stroke(x, y, old(self)@[y][x])
                    } else {
                        old(self)@[y][x]
                    },
            decreases last_row - row,
        {
            let mut column: usize = rect.origin.x;
            while column < last_column
                invariant
                    self.wf(),
                    self.dimensions == old(self).dimensions,
                    rect.within(self.area()),
                    brush.covers(*rect),
                    rect.origin.y <= row < last_row,
                    rect.origin.x <= column <= last_column,
                    last_row == rect.bottom(),
                    last_column == rect.right(),
                    forall|x: int, y: int|
                        0 <= y < self.dimensions.height && 0 <= x < self.dimensions.width
                            ==> #[trigger] self@[y][x] == if rect.holds(x, y) && (y < row || (y
                            == row && x < column)) {
                            brush.stroke(x, y, old(self)@[y][x])
                        } else {
                            old(self)@[y][x]
                        },
                decreases last_column - column,
            {
                let ghost before = self@;
                assert(before[row as int].len() == self.dimensions.width);
                assert(before[row as int][column as int] == old(self)@[row as int][column as int]);
                let cell = brush.apply(rect, column, row, &self.cells[row][column]);
                self.put(column, row, cell);
                assert forall|x: int, y: int|
                    0 <= y < self.dimensions.height && 0 <= x < self.dimensions.width implies #[trigger] self@[y][x]
                    == if rect.holds(x, y) && (y < row || (y == row && x < column + 1)) {
                    brush.stroke(x, y, old(self)@[y][x])
                } else {
                    old(self)@[y][x]
                } by {
                    assert(before[y].len() == self.dimensions.width);
                    if y == row && x == column {
                    } else {
                        assert(self@[y][x] == before[y][x]);
                    }
                }
                column += 1;
            }
            row += 1;
        }
    }

    /// Whether the buffer can be drawn on over `rect`: the rectangle ends
    /// at coordinates that the machine can represent, and if it holds any
    /// cell, it lies within the buffer.
    pub open spec fn admits(&self, rect: Rect) -> bool {
        &&& rect.right() <= usize::MAX
        &&& rect.bottom() <= usize::MAX
        &&& rect.dimensions.width > 0 && rect.dimensions.height > 0 ==> rect.within(self.area())
    }

    /// Draws with `brush` on every cell of `rect`, if it has any.
    fn paint_over(&mut self, rect: &Rect, brush: &Brush)
        requires
            old(self).wf(),
            old(self).admits(*rect),
            brush.covers(*rect),
        ensures
            final(self).wf(),
            final(self).dimensions == old(self).dimensions,
            forall|x: int, y: int|
                0 <= y < old(self).dimensions.height && 0 <= x < old(self).dimensions.width
                    ==> #[trigger] final(self)@[y][x] == if rect.holds(x, y) {
                    brush.stroke(x, y, old(self)@[y][x])
                } else {
                    old(self)@[y][x]
                },
    {
        if rect.dimensions.width > 0 && rect.dimensions.height > 0 {
            self.paint(rect, brush);
        }
    }

    /// Puts `content` at `at`, in `style` or without a style: what the
    /// cell showed before is gone.
    pub fn draw_cell(&mut self, at: Point, content: char, style: Option<Style>)
        requires
            old(self).wf(),
            at.x < old(self).dimensions.width,
            at.y < old(self).dimensions.height,
        ensures
            final(self).wf(),
            final(self).dimensions == old(self).dimensions,
            final(self)@ == with_cell(
                old(self)@,
                at.x as int,
                at.y as int,
                CellView { content, style: style_view(style) },
            ),
    {
        self.put(at.x, at.y, Cell { content, style });
    }

    /// Draws `content` at column `x` of row `y` in `style`.
    pub fn draw_char(&mut self, x: usize, y: usize, content: char, style: &Option<Style>)
        requires
            old(self).wf(),
            x < old(self).dimensions.width,
            y < old(self).dimensions.height,
        ensures
            final(self).wf(),
            final(self).dimensions == old(self).dimensions,
            final(self)@ == with_cell(
                old(self)@,
                x as int,
                y as int,
                old(self)@[y as int][x as int].updated(content, style_view(*style)),
            ),
    {
        assert(self@[y as int].len() == self.dimensions.width);
        let mut cell = self.cells[y][x].copy();
        cell.update(content, style);
        self.put(x, y, cell);
    }

    /// Writes `lines` in `style` into `within`, one line per row from the
    /// top-left cell on. Lines below the last row and characters right of
    /// the last column are left out.
    pub fn draw_lines(&mut self, within: &Rect, lines: &Vec<Vec<char>>, style: &Option<Style>)
        requires
            old(self).wf(),
            old(self).admits(*within),
        ensures
            final(self).wf(),
            final(self).dimensions == old(self).dimensions,
            final(self)@ == lettered(old(self)@, *within, lines_view(lines@), style_view(*style)),
    {
        self.paint_over(within, &Brush::Text { at: within.origin, lines, style });
        assert(self@ =~~= lettered(old(self)@, *within, lines_view(lines@), style_view(*style)));
    }

    /// Writes `text` in `style` from `at` on to the right.
    pub fn draw_text(&mut self, at: &Point, text: &str, style: &Option<Style>)
        requires
            old(self).wf(),
            old(self).admits(
                Rect {
                    origin: *at,
                    dimensions: Dimensions { width: text@.len() as usize, height: 1 },
                },
            ),
            at.x + text@.len() <= usize::MAX,
        ensures
            final(self).wf(),
            final(self).dimensions == old(self).dimensions,
            final(self)@ == lettered(
                old(self)@,
                Rect {
                    origin: *at,
                    dimensions: Dimensions { width: text@.len() as usize, height: 1 },
                },
                seq![text@],
                style_view(*style),
            ),
    {
        let mut lines: Vec<Vec<char>> = Vec::new();
        lines.push(chars_of(text));
        assert(lines_view(lines@) =~= seq![text@]);
        let rect = Rect::new(*at, Dimensions::new(lines[0].len(), 1));
        self.paint_over(&rect, &Brush::Text { at: *at, lines: &lines, style });
        assert(self@ =~~= lettered(old(self)@, rect, seq![text@], style_view(*style)));
    }

    /// Writes the lines of `text` in `style` into `within`, one line per
    /// row from the top-left cell on. Lines below the last row and
    /// characters right of the last column are left out.
    pub fn draw_multiline_text(&mut self, within: &Rect, text: &str, style: &Option<Style>)
        requires
            old(self).wf(),
            old(self).admits(*within),
        ensures
            final(self).wf(),
            final(self).dimensions == old(self).dimensions,
            final(self)@ == lettered(old(self)@, *within, lines_of(text@), style_view(*style)),
    {
        let lines = split_lines(text);
        self.paint_over(within, &Brush::Text { at: within.origin, lines: &lines, style });
        assert(self@ =~~= lettered(old(self)@, *within, lines_of(text@), style_view(*style)));
    }

    /// Draws a horizontal line of `length` cells from `at` on to the right.
    pub fn draw_h_rule(&mut self, at: &Point, length: usize, style: &Option<Style>)
        requires
            old(self).wf(),
            old(self).admits(
                Rect { origin: *at, dimensions: Dimensions { width: length, height: 1 } },
            ),
        ensures
            final(self).wf(),
            final(self).dimensions == old(self).dimensions,
            final(self)@ == drawn_over(
                old(self)@,
                Rect { origin: *at, dimensions: Dimensions { width: length, height: 1 } },
                H_LINE,
                style_view(*style),
            ),
    {
        let rect = Rect::new(*at, Dimensions::new(length, 1));
        self.paint_over(&rect, &Brush::Glyph { content: H_LINE, style });
        assert(self@ =~~= drawn_over(old(self)@, rect, H_LINE, style_view(*style)));
    }

    /// Draws a vertical line of `length` cells from `at` on downwards.
    pub fn draw_v_rule(&mut self, at: &Point, length: usize, style: &Option<Style>)
        requires
            old(self).wf(),
            old(self).admits(
                Rect { origin: *at, dimensions: Dimensions { width: 1, height: length } },
            ),
        ensures
            final(self).wf(),
            final(self).dimensions == old(self).dimensions,
            final(self)@ == drawn_over(
                old(self)@,
                Rect { origin: *at, dimensions: Dimensions { width: 1, height: length } },
                V_LINE,
                style_view(*style),
            ),
    {
        let rect = Rect::new(*at, Dimensions::new(1, length));
        self.paint_over(&rect, &Brush::Glyph { content: V_LINE, style });
        assert(self@ =~~= drawn_over(old(self)@, rect, V_LINE, style_view(*style)));
    }

    /// Lays `style` over every cell of `within`; the glyphs stay.
    pub fn merge_style(&mut self, within: &Rect, style: &Style)
        requires
            old(self).wf(),
            old(self).admits(*within),
        ensures
            final(self).wf(),
            final(self).dimensions == old(self).dimensions,
            final(self)@ == tinted(old(self)@, *within, style@),
    {
        self.paint_over(within, &Brush::Tint { tint: style });
        assert(self@ =~~= tinted(old(self)@, *within, style@));
    }

    /// Draws `glyph`, or a space if there is none, in `style` on every
    /// cell of `within`.
    pub fn draw_fill(&mut self, within: &Rect, style: Style, glyph: Option<char>)
        requires
            old(self).wf(),
            old(self).admits(*within),
        ensures
            final(self).wf(),
            final(self).dimensions == old(self).dimensions,
            final(self)@ == drawn_over(
                old(self)@,
                *within,
                match glyph {
                    Some(c) => c,
                    None => ' ',
                },
                Some(style@),
            ),
    {
        let content = match glyph {
            Some(c) => c,
            None => ' ',
        };
        let style = Some(style);
        self.paint_over(within, &Brush::Glyph { content, style: &style });
        assert(self@ =~~= drawn_over(old(self)@, *within, content, style_view(style)));
    }

    /// Draws a box along the outline of `rect`, with round corners if
    /// `rounded` is set.
    pub fn draw_box(&mut self, rect: &Rect, rounded: bool, style: &Option<Style>)
        requires
            old(self).wf(),
            old(self).admits(*rect),
        ensures
            final(self).wf(),
            final(self).dimensions == old(self).dimensions,
            final(self)@ == boxed(old(self)@, *rect, rounded, style_view(*style)),
    {
        self.paint_over(rect, &Brush::Outline { rect: *rect, rounded, style });
        assert(self@ =~~= boxed(old(self)@, *rect, rounded, style_view(*style)));
    }

    /// Puts the cells of `other` in place of this buffer's own, the
    /// top-left cell of `other` at `at`.
    pub fn merge(&mut self, at: &Point, other: &Buffer)
        requires
            old(self).wf(),
            other.wf(),
            old(self).admits(Rect { origin: *at, dimensions: other.dimensions }),
        ensures
            final(self).wf(),
            final(self).dimensions == old(self).dimensions,
            final(self)@ == stamped(old(self)@, *at, other@),
    {
        let rect = Rect::new(*at, other.dimensions);
        self.paint_over(&rect, &Brush::Stamp { at: *at, other });
        assert(self@ =~~= stamped(old(self)@, *at, other@)) by {
            assert forall|y: int| 0 <= y < self@.len() implies #[trigger] self@[y] =~= stamped(
                old(self)@,
                *at,
                other@,
            )[y] by {
                if at.y <= y < at.y + other@.len() {
                    assert(other@[y - at.y].len() == other.dimensions.width);
                }
            }
        }
    }

    /// Cuts the buffer down to the window from the corner `from` up to,
    /// but without, the corner `to`. Where `to` lies beyond the buffer the
    /// window ends with the buffer.
    pub fn shrink(&mut self, from: Point, to: Point)
        requires
            old(self).wf(),
            from.y <= to.y,
            from.y <= old(self).dimensions.height,
            from.y < to.y && from.y < old(self).dimensions.height ==> from.x <= to.x && from.x
                <= old(self).dimensions.width,
        ensures
            final(self).wf(),
            final(self).dimensions == cropped_size(old(self).dimensions, from, to),
            final(self)@ == cropped(old(self)@, from, to, final(self).dimensions),
    {
        let right: usize = if to.x < self.dimensions.width {
            to.x
        } else {
            self.dimensions.width
        };
        let bottom: usize = if to.y < self.dimensions.height {
            to.y
        } else {
            self.dimensions.height
        };
        let width: usize = if from.x <= right {
            right - from.x
        } else {
            0
        };
        let height: usize = bottom - from.y;
        let mut cells: Vec<Vec<Cell>> = Vec::new();
        let mut y: usize = 0;
        while y < height
            invariant
                self.wf(),
                y <= height,
                from.y + height <= self.dimensions.height,
                height > 0 ==> from.x + width <= self.dimensions.width,
                cells@.len() == y,
                forall|j: int|
                    0 <= j < y ==> {
                        &&& (#[trigger] cells@[j])@.len() == width
                        &&& forall|i: int|
                            0 <= i < width ==> (#[trigger] cells@[j]@[i])@ == self@[from.y + j][from.x
                                + i]
                    },
            decreases height - y,
        {
            let mut row: Vec<Cell> = Vec::new();
            let mut x: usize = 0;
            assert(self@[from.y + y].len() == self.dimensions.width);
            while x < width
                invariant
                    self.wf(),
                    x <= width,
                    y < height,
                    from.y + height <= self.dimensions.height,
                    from.x + width <= self.dimensions.width,
                    self@[from.y + y].len() == self.dimensions.width,
                    row@.len() == x,
                    forall|i: int|
                        0 <= i < x ==> (#[trigger] row@[i])@ == self@[from.y + y][from.x + i],
                decreases width - x,
            {
                row.push(self.cells[from.y + y][from.x + x].copy());
                x += 1;
            }
            cells.push(row);
            y += 1;
        }
        let ghost before = self@;
        self.cells = cells;
        self.dimensions = Dimensions::new(width, height);
        assert(self@ =~~= cropped(before, from, to, self.dimensions));
    }
}

} // verus!
