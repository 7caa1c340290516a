//! Comparing the frame that is shown with the frame that is to be shown.

use crate::buffer::{shaped, Buffer, Cell, CellView};
use crate::values::{Dimensions, Point};
use vstd::prelude::*;

verus! {

/// The cells among the first `columns` of row `y` in which `new` differs
/// from `old`, from left to right: where each stands, and what `new` shows
/// there.
pub open spec fn row_changes(
    old: Seq<Seq<CellView>>,
    new: Seq<Seq<CellView>>,
    y: int,
    columns: int,
) -> Seq<(Point, CellView)>
    decreases columns,
{
    if columns <= 0 {
        Seq::empty()
    } else {
        let x = columns - 1;
        row_changes(old, new, y, x) + if old[y][x] != new[y][x] {
            seq![(Point { x: x as usize, y: y as usize }, new[y][x])]
        } else {
            Seq::empty()
        }
    }
}

/// The cells of the first `rows` rows in which `new` differs from `old`,
/// row by row from the top, `width` cells to the row.
pub open spec fn grid_changes(
    old: Seq<Seq<CellView>>,
    new: Seq<Seq<CellView>>,
    width: int,
    rows: int,
) -> Seq<(Point, CellView)>
    decreases rows,
{
    if rows <= 0 {
        Seq::empty()
    } else {
        grid_changes(old, new, width, rows - 1) + row_changes(old, new, rows - 1, width)
    }
}

/// How a new frame differs from the one before it.
#[derive(Debug, Clone, PartialEq, Eq)]
pub enum DiffResult {
    /// Both show the same.
    NoChange,
    /// The two are not of the same size, and cannot be compared.
    Invalid,
    /// The cells that differ, and what the new frame shows in each.
    Changed(Vec<(Point, Cell)>),
}

/// What a list of changed cells says.
pub open spec fn changes_view(changes: Seq<(Point, Cell)>) -> Seq<(Point, CellView)> {
    Seq::new(changes.len(), |i: int| (changes[i].0, changes[i].1@))
}

impl DiffResult {
    /// The changed cells that the result lists: none unless it is
    /// `Changed`.
    pub open spec fn changes(self) -> Seq<(Point, CellView)> {
        match self {
            DiffResult::Changed(list) => changes_view(list@),
            _ => Seq::empty(),
        }
    }
}

/// A row without changes shows the same in both grids, and the other way
/// round.
pub proof fn lemma_row_unchanged(
    old: Seq<Seq<CellView>>,
    new: Seq<Seq<CellView>>,
    y: int,
    columns: int,
)
    requires
        0 <= columns,
    ensures
        row_changes(old, new, y, columns).len() == 0 <==> forall|x: int|
            0 <= x < columns ==> old[y][x] == new[y][x],
    decreases columns,
{
    if columns > 0 {
        lemma_row_unchanged(old, new, y, columns - 1);
    }
}

/// Two grids of one size show the same exactly if no cell has changed.
pub proof fn lemma_unchanged(
    old: Seq<Seq<CellView>>,
    new: Seq<Seq<CellView>>,
    size: Dimensions,
    rows: int,
)
    requires
        shaped(old, size),
        shaped(new, size),
        0 <= rows <= size.height,
    ensures
        grid_changes(old, new, size.width as int, rows).len() == 0 <==> old.subrange(0, rows)
            == new.subrange(0, rows),
    decreases rows,
{
    if rows > 0 {
        lemma_unchanged(old, new, size, rows - 1);
        lemma_row_unchanged(old, new, rows - 1, size.width as int);
        let y = rows - 1;
        if grid_changes(old, new, size.width as int, rows).len() == 0 {
            assert(old.subrange(0, y) == new.subrange(0, y));
            assert(old[y] =~= new[y]);
            assert forall|j: int| 0 <= j < rows implies old.subrange(0, rows)[j] == new.subrange(
                0,
                rows,
            )[j] by {
                if j < y {
                    assert(old.subrange(0, y)[j] == new.subrange(0, y)[j]);
                }
            }
            assert(old.subrange(0, rows) =~= new.subrange(0, rows));
        }
        if old.subrange(0, rows) == new.subrange(0, rows) {
            assert(old[y] == old.subrange(0, rows)[y]);
            assert(new[y] == new.subrange(0, rows)[y]);
            assert forall|j: int| 0 <= j < y implies old.subrange(0, y)[j] == new.subrange(0, y)[j] by {
                assert(old.subrange(0, rows)[j] == new.subrange(0, rows)[j]);
            }
            assert(old.subrange(0, y) =~= new.subrange(0, y));
        }
    } else {
        assert(old.subrange(0, 0) =~= new.subrange(0, 0));
    }
}

/// A buffer does not differ from itself.
pub proof fn lemma_diff_reflexive(grid: Seq<Seq<CellView>>, size: Dimensions)
    requires
        shaped(grid, size),
    ensures
        grid_changes(grid, grid, size.width as int, size.height as int).len() == 0,
{
    lemma_unchanged(grid, grid, size, size.height as int);
}

/// In a row that differs in the one cell at column `x`, that cell is the
/// only change.
pub proof fn lemma_row_single_change(
    old: Seq<Seq<CellView>>,
    new: Seq<Seq<CellView>>,
    x: int,
    y: int,
    columns: int,
)
    requires
        0 <= x <= usize::MAX,
        0 <= y <= usize::MAX,
        0 <= columns,
        old[y][x] != new[y][x],
        forall|i: int| 0 <= i < columns && i != x ==> old[y][i] == new[y][i],
    ensures
        row_changes(old, new, y, columns) == if x < columns {
            seq![(Point { x: x as usize, y: y as usize }, new[y][x])]
        } else {
            Seq::empty()
        },
    decreases columns,
{
    if columns > 0 {
        lemma_row_single_change(old, new, x, y, columns - 1);
        if columns - 1 == x {
            assert(Seq::<(Point, CellView)>::empty() + seq![
                (Point { x: x as usize, y: y as usize }, new[y][x]),
            ] =~= seq![(Point { x: x as usize, y: y as usize }, new[y][x])]);
        } else {
            assert(row_changes(old, new, y, columns - 1) + Seq::<(Point, CellView)>::empty()
                =~= row_changes(old, new, y, columns - 1));
        }
    }
}

/// Two grids of one size that differ in the one cell at column `x` of
/// row `y` have that cell as their only change, with what the new grid
/// shows there.
pub proof fn lemma_single_change(
    old: Seq<Seq<CellView>>,
    new: Seq<Seq<CellView>>,
    size: Dimensions,
    x: int,
    y: int,
    rows: int,
)
    requires
        shaped(old, size),
        shaped(new, size),
        0 <= x < size.width,
        0 <= y < size.height,
        0 <= rows <= size.height,
        old[y][x] != new[y][x],
        forall|i: int, j: int|
            0 <= i < size.width && 0 <= j < size.height && (i != x || j != y) ==> old[j][i]
                == new[j][i],
    ensures
        grid_changes(old, new, size.width as int, rows) == if y < rows {
            seq![(Point { x: x as usize, y: y as usize }, new[y][x])]
        } else {
            Seq::empty()
        },
    decreases rows,
{
    if rows > 0 {
        lemma_single_change(old, new, size, x, y, rows - 1);
        let before = grid_changes(old, new, size.width as int, rows - 1);
        let row = row_changes(old, new, rows - 1, size.width as int);
        if rows - 1 == y {
            lemma_row_single_change(old, new, x, y, size.width as int);
            assert(before + row =~= row);
        } else {
            lemma_row_unchanged(old, new, rows - 1, size.width as int);
            assert(before + row =~= before);
        }
    }
}

impl Buffer {
    /// Compares this buffer with `other`, the frame that is to replace
    /// it: the two cannot be compared unless they are of one size; cells
    /// that differ are listed row by row from the top, and in a row from
    /// the left, each with what `other` shows there.
    pub fn diff(&self, other: &Buffer) -> (result: DiffResult)
        requires
            self.wf(),
            other.wf(),
        ensures
            result is Invalid <==> self.dimensions != other.dimensions,
            result is NoChange <==> self.dimensions == other.dimensions && self@ == other@,
            result is Changed ==> result.changes() == grid_changes(
                self@,
                other@,
                self.dimensions.width as int,
                self.dimensions.height as int,
            ),
    {
        if self.dimensions.width != other.dimensions.width || self.dimensions.height
            != other.dimensions.height {
            return DiffResult::Invalid;
        }
        let width: usize = self.dimensions.width;
        let height: usize = self.dimensions.height;
        let mut results: Vec<(Point, Cell)> = Vec::new();
        let mut y: usize = 0;
        while y < height
            invariant
                self.wf(),
                other.wf(),
                self.dimensions == other.dimensions,
                width == self.dimensions.width,
                height == self.dimensions.height,
                y <= height,
                changes_view(results@) == grid_changes(self@, other@, width as int, y as int),
            decreases height - y,
        {
            let ghost above = results@;
            let mut x: usize = 0;
            assert(self@[y as int].len() == width);
            assert(other@[y as int].len() == width);
            assert(changes_view(results@) =~= changes_view(above) + row_changes(
                self@,
                other@,
                y as int,
                0,
            ));
            while x < width
                invariant
                    self.wf(),
                    other.wf(),
                    self.dimensions == other.dimensions,
                    width == self.dimensions.width,
                    height == self.dimensions.height,
                    y < height,
                    x <= width,
                    self@[y as int].len() == width,
                    other@[y as int].len() == width,
                    changes_view(results@) == changes_view(above) + row_changes(
                        self@,
                        other@,
                        y as int,
                        x as int,
                    ),
                decreases width - x,
            {
                let cell = &self.cells[y][x];
                let update = &other.cells[y][x];
                let ghost before = results@;
                if !cell.same(update) {
                    results.push((Point { x, y }, update.copy()));
                    assert(changes_view(results@) =~= changes_view(before) + seq![
                        (Point { x, y }, other@[y as int][x as int]),
                    ]);
                }
                assert(changes_view(results@) =~= changes_view(above) + row_changes(
                    self@,
                    other@,
                    y as int,
                    x + 1,
                ));
                x += 1;
            }
            y += 1;
        }
        proof {
            lemma_unchanged(self@, other@, self.dimensions, height as int);
            assert(self@.subrange(0, height as int) =~= self@);
            assert(other@.subrange(0, height as int) =~= other@);
        }
        if results.len() == 0 {
            DiffResult::NoChange
        } else {
            DiffResult::Changed(results)
        }
    }
}

} // verus!
