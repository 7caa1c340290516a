//! What holds of every solution of the solver.

use crate::layouts::auto_solver::{
    cross_extent,
    fill_count,
    fill_width,
    fixed_part,
    fixed_sum,
    least,
    lemma_offsets,
    lemma_prefix_grows,
    main_extent,
    main_offset,
    placed,
    rotated_items,
    rotated_rects,
    shift,
    solved,
    stride,
    with_spacers,
};
use crate::layouts::spacing::{interleaved, spacer_of};
use crate::values::{Constraints, Dir, Layout, Rect, Sizing};
use vstd::prelude::*;

verus! {

/// Where a rectangle starts along `dir`.
pub open spec fn main_origin(dir: Dir, r: Rect) -> int {
    match dir {
        Dir::Horizontal => r.origin.x as int,
        Dir::Vertical => r.origin.y as int,
    }
}

/// How far a rectangle reaches along `dir`.
pub open spec fn main_size(dir: Dir, r: Rect) -> int {
    match dir {
        Dir::Horizontal => r.dimensions.width as int,
        Dir::Vertical => r.dimensions.height as int,
    }
}

/// How far a rectangle reaches across `dir`.
pub open spec fn cross_size(dir: Dir, r: Rect) -> int {
    match dir {
        Dir::Horizontal => r.dimensions.height as int,
        Dir::Vertical => r.dimensions.width as int,
    }
}

/// What a view asks for along `dir`.
pub open spec fn main_request(dir: Dir, c: Constraints) -> Sizing {
    match dir {
        Dir::Horizontal => c.width,
        Dir::Vertical => c.height,
    }
}

/// What a view asks for across `dir`.
pub open spec fn cross_request(dir: Dir, c: Constraints) -> Sizing {
    match dir {
        Dir::Horizontal => c.height,
        Dir::Vertical => c.width,
    }
}

/// The requests as the solver reads them: along a row.
pub open spec fn as_row(items: Seq<Constraints>, dir: Dir) -> Seq<Constraints> {
    match dir {
        Dir::Horizontal => items,
        Dir::Vertical => rotated_items(items),
    }
}

/// Whether the bounds end at coordinates that the machine can represent.
pub open spec fn representable(bounds: Rect) -> bool {
    bounds.right() <= usize::MAX && bounds.bottom() <= usize::MAX
}

/// Every rectangle of a row has the extent that the row gives its item
/// along it, and the item's clamped extent across it.
pub proof fn lemma_placed_size(items: Seq<Constraints>, layout: Layout, bounds: Rect, i: int)
    requires
        0 <= i < items.len(),
    ensures
        placed(items, layout, bounds, i).dimensions.width == main_extent(
            items,
            bounds.dimensions.width as int,
            i,
        ),
        placed(items, layout, bounds, i).dimensions.height == cross_extent(
            items[i].height,
            bounds.dimensions.height as int,
        ),
{
    let w = bounds.dimensions.width as int;
    lemma_offsets(items, w, i);
    lemma_offsets(items, w, i + 1);
}

/// Every rectangle of a row lies within the bounds, and the rectangles
/// follow each other from left to right without overlap.
pub proof fn lemma_placed_within(items: Seq<Constraints>, layout: Layout, bounds: Rect, i: int)
    requires
        representable(bounds),
        0 <= i < items.len(),
    ensures
        placed(items, layout, bounds, i).within(bounds),
        placed(items, layout, bounds, i).dimensions.width == main_extent(
            items,
            bounds.dimensions.width as int,
            i,
        ),
        placed(items, layout, bounds, i).dimensions.height == cross_extent(
            items[i].height,
            bounds.dimensions.height as int,
        ),
        placed(items, layout, bounds, i).origin.x == bounds.origin.x + shift(
            layout.h_align(),
            bounds.dimensions.width - main_offset(
                items,
                bounds.dimensions.width as int,
                items.len() as int,
            ),
        ) + main_offset(items, bounds.dimensions.width as int, i),
        i + 1 < items.len() ==> placed(items, layout, bounds, i + 1).origin.x == placed(
            items,
            layout,
            bounds,
            i,
        ).right(),
{
    let w = bounds.dimensions.width as int;
    lemma_offsets(items, w, i);
    lemma_offsets(items, w, i + 1);
    if i + 1 < items.len() {
        lemma_offsets(items, w, i + 2);
    }
}

/// The solver gives every view a rectangle, and in bounds that end at
/// coordinates of the machine each of them lies within the bounds.
pub proof fn lemma_solved_within(
    items: Seq<Constraints>,
    dir: Dir,
    layout: Layout,
    bounds: Rect,
)
    ensures
        solved(items, dir, layout, bounds).len() == items.len(),
        representable(bounds) ==> forall|i: int|
            0 <= i < items.len() ==> (#[trigger] solved(items, dir, layout, bounds)[i]).within(
                bounds,
            ),
{
    if representable(bounds) {
        assert forall|i: int| 0 <= i < items.len() implies (#[trigger] solved(
            items,
            dir,
            layout,
            bounds,
        )[i]).within(bounds) by {
            let flat = as_row(items, dir);
            let (l, b) = match dir {
                Dir::Horizontal => (layout, bounds),
                Dir::Vertical => (layout.rotated(), bounds.rotated()),
            };
            lemma_placed_within(with_spacers(flat, l), l, b, stride(flat, l) * i);
        }
    }
}

/// Views that all ask to fill a packed container whose extent is a
/// multiple of their number each get the same share of it. In bounds that
/// end at coordinates of the machine they stand one after the other from
/// the start of the bounds to their end.
pub proof fn lemma_fills_share_evenly(
    items: Seq<Constraints>,
    dir: Dir,
    layout: Layout,
    bounds: Rect,
)
    requires
        layout is Packed,
        items.len() > 0,
        forall|j: int| 0 <= j < items.len() ==> main_request(dir, #[trigger] items[j]) == Sizing::Fill,
        main_size(dir, bounds) % (items.len() as int) == 0,
    ensures
        solved(items, dir, layout, bounds).len() == items.len(),
        forall|i: int|
            0 <= i < items.len() ==> main_size(dir, #[trigger] solved(items, dir, layout, bounds)[i])
                == main_size(dir, bounds) / (items.len() as int),
        representable(bounds) ==> forall|i: int|
            0 <= i < items.len() ==> main_origin(
                dir,
                #[trigger] solved(items, dir, layout, bounds)[i],
            ) == main_origin(dir, bounds) + i * (main_size(dir, bounds) / (items.len() as int)),
{
    let flat = as_row(items, dir);
    let n = items.len() as int;
    let room = main_size(dir, bounds);
    let share = room / n;
    let (l, b) = match dir {
        Dir::Horizontal => (layout, bounds),
        Dir::Vertical => (layout.rotated(), bounds.rotated()),
    };
    assert(with_spacers(flat, l) == flat);
    lemma_all_fill(flat, n);
    assert(fill_width(flat, room) == share);
    assert(n * share == room) by (nonlinear_arith)
        requires
            share == room / n,
            room % n == 0,
            n > 0,
    ;
    assert forall|i: int| 0 <= i < items.len() implies main_size(
        dir,
        #[trigger] solved(items, dir, layout, bounds)[i],
    ) == share by {
        lemma_placed_size(flat, l, b, i);
    }
    if representable(bounds) {
        assert forall|i: int| 0 <= i < items.len() implies main_origin(
            dir,
            #[trigger] solved(items, dir, layout, bounds)[i],
        ) == main_origin(dir, bounds) + i * share by {
            lemma_all_fill(flat, i);
            lemma_placed_within(flat, l, b, i);
            assert(main_offset(flat, room, n) == n * share);
            assert(main_offset(flat, room, i) == i * share);
        }
    }
}

/// Where every one of the first `k` requests is to fill the row, there is
/// no fixed demand and all `k` of them share.
pub proof fn lemma_all_fill(items: Seq<Constraints>, k: int)
    requires
        0 <= k <= items.len(),
        forall|j: int| 0 <= j < items.len() ==> (#[trigger] items[j]).width == Sizing::Fill,
    ensures
        fixed_sum(items, k) == 0,
        fill_count(items, k) == k,
    decreases k,
{
    if k > 0 {
        lemma_all_fill(items, k - 1);
    }
}

/// A single view that asks for more than the bounds hold gets the extent
/// of the bounds and no more, along the container and across it.
pub proof fn lemma_oversized_is_clamped(
    item: Constraints,
    dir: Dir,
    layout: Layout,
    bounds: Rect,
    amount: usize,
)
    ensures
        solved(seq![item], dir, layout, bounds).len() == 1,
        main_request(dir, item) == Sizing::Fixed(amount) && amount > main_size(dir, bounds)
            ==> main_size(dir, solved(seq![item], dir, layout, bounds)[0]) == main_size(
            dir,
            bounds,
        ),
        cross_request(dir, item) == Sizing::Fixed(amount) && amount > cross_size(dir, bounds)
            ==> cross_size(dir, solved(seq![item], dir, layout, bounds)[0]) == cross_size(
            dir,
            bounds,
        ),
{
    let items = seq![item];
    let flat = as_row(items, dir);
    let (l, b) = match dir {
        Dir::Horizontal => (layout, bounds),
        Dir::Vertical => (layout.rotated(), bounds.rotated()),
    };
    assert(with_spacers(flat, l) == flat);
    lemma_placed_size(flat, l, b, 0);
    lemma_prefix_grows(flat, 0, 1);
    assert(fixed_sum(flat, 0) == 0);
    assert(fixed_sum(flat, 1) == fixed_sum(flat, 0) + fixed_part(flat[0].width));
}

/// The spacers add nothing to the fixed demand of a spread row, and each
/// of them shares in what is left.
pub proof fn lemma_spread_counts(items: Seq<Constraints>, spacer: Constraints, k: int)
    requires
        items.len() > 1,
        spacer.width == Sizing::Fill,
        forall|j: int| 0 <= j < items.len() ==> (#[trigger] items[j]).width != Sizing::Fill,
        0 <= k <= 2 * items.len() - 1,
    ensures
        fixed_sum(interleaved(items, spacer), k) == fixed_sum(items, (k + 1) / 2),
        fill_count(interleaved(items, spacer), k) == k / 2,
    decreases k,
{
    if k > 0 {
        lemma_spread_counts(items, spacer, k - 1);
        let all = interleaved(items, spacer);
        if (k - 1) % 2 == 0 {
            assert(all[k - 1] == items[(k - 1) / 2]);
            assert((k + 1) / 2 == (k - 1) / 2 + 1);
            assert(k / 2 == (k - 1) / 2);
        } else {
            assert(all[k - 1] == spacer);
            assert((k + 1) / 2 == k / 2);
            assert(k / 2 == (k - 1) / 2 + 1);
        }
    }
}

/// Two or more views of fixed extent in a spread container are laid out
/// with a spacer between every two neighbours, and the solution holds the
/// views' rectangles alone. Where the views fit into the bounds, each
/// gets the extent it asks for. In bounds that end at coordinates of the
/// machine every gap between neighbours is the same share, rounded down,
/// of what the views leave of the bounds.
pub proof fn lemma_spread_gaps(items: Seq<Constraints>, dir: Dir, layout: Layout, bounds: Rect)
    requires
        layout is Spread,
        items.len() >= 2,
        forall|j: int|
            0 <= j < items.len() ==> main_request(dir, #[trigger] items[j]) != Sizing::Fill,
    ensures
        with_spacers(as_row(items, dir), layout).len() == 2 * items.len() - 1,
        solved(items, dir, layout, bounds).len() == items.len(),
        fixed_sum(as_row(items, dir), items.len() as int) <= main_size(dir, bounds) ==> forall|
            i: int,
        |
            0 <= i < items.len() ==> main_size(dir, #[trigger] solved(items, dir, layout, bounds)[i])
                == fixed_part(main_request(dir, items[i])),
        representable(bounds) ==> forall|i: int|
            0 <= i < items.len() - 1 ==> main_origin(
                dir,
                #[trigger] solved(items, dir, layout, bounds)[i + 1],
            ) - (main_origin(dir, solved(items, dir, layout, bounds)[i]) + main_size(
                dir,
                solved(items, dir, layout, bounds)[i],
            )) == (main_size(dir, bounds) - least(
                main_size(dir, bounds),
                fixed_sum(as_row(items, dir), items.len() as int),
            )) / (items.len() - 1),
{
    let flat = as_row(items, dir);
    let n = items.len() as int;
    let room = main_size(dir, bounds);
    let (l, b) = match dir {
        Dir::Horizontal => (layout, bounds),
        Dir::Vertical => (layout.rotated(), bounds.rotated()),
    };
    let spacer = Constraints { width: Sizing::Fill, height: Sizing::Fill };
    assert(spacer_of(l) == Some(spacer));
    let all = interleaved(flat, spacer);
    assert(with_spacers(flat, l) == all);
    assert(with_spacers(flat, layout) == all);
    lemma_spread_counts(flat, spacer, 2 * n - 1);
    assert((2 * n - 1 + 1) / 2 == n);
    assert((2 * n - 1) / 2 == n - 1);
    let gap = (room - least(room, fixed_sum(flat, n))) / (n - 1);
    assert(fill_width(all, room) == gap);
    if fixed_sum(flat, n) <= room {
        assert forall|i: int| 0 <= i < items.len() implies main_size(
            dir,
            #[trigger] solved(items, dir, layout, bounds)[i],
        ) == fixed_part(main_request(dir, items[i])) by {
            lemma_placed_size(all, l, b, 2 * i);
            lemma_spread_counts(flat, spacer, 2 * i);
            lemma_spread_counts(flat, spacer, 2 * i + 1);
            lemma_prefix_grows(flat, i + 1, n);
            lemma_prefix_grows(flat, i, i + 1);
            assert((2 * i + 1) / 2 == i);
            assert((2 * i + 1 + 1) / 2 == i + 1);
            assert(all[2 * i] == flat[i]);
            assert(stride(flat, l) * i == 2 * i);
        }
    }
    if representable(bounds) {
        assert forall|i: int| 0 <= i < items.len() - 1 implies main_origin(
            dir,
            #[trigger] solved(items, dir, layout, bounds)[i + 1],
        ) - (main_origin(dir, solved(items, dir, layout, bounds)[i]) + main_size(
            dir,
            solved(items, dir, layout, bounds)[i],
        )) == gap by {
            lemma_placed_within(all, l, b, 2 * i);
            lemma_placed_within(all, l, b, 2 * i + 1);
            lemma_placed_within(all, l, b, 2 * i + 2);
            assert(all[2 * i + 1] == spacer);
            assert(stride(flat, l) * i == 2 * i);
            assert(stride(flat, l) * (i + 1) == 2 * i + 2);
        }
    }
}

/// Solving a vertical container is solving the mirrored problem as a
/// horizontal one and mirroring the result: the views' requests, the
/// alignments and the bounds each with their axes exchanged.
pub proof fn lemma_vertical_is_mirrored_horizontal(
    items: Seq<Constraints>,
    layout: Layout,
    bounds: Rect,
)
    ensures
        solved(items, Dir::Vertical, layout, bounds) == rotated_rects(
            solved(rotated_items(items), Dir::Horizontal, layout.rotated(), bounds.rotated()),
        ),
{
}

/// Where every view asks for the same on both axes and the layout aligns
/// both axes alike, the vertical solution in bounds of one shape is the
/// mirrored horizontal solution, of the same requests, in bounds of the
/// mirrored shape.
pub proof fn lemma_rotation_round_trip(items: Seq<Constraints>, layout: Layout, bounds: Rect)
    requires
        forall|j: int| 0 <= j < items.len() ==> (#[trigger] items[j]).width == items[j].height,
        layout.v_align() == layout.h_align(),
    ensures
        solved(items, Dir::Vertical, layout, bounds) == rotated_rects(
            solved(items, Dir::Horizontal, layout, bounds.rotated()),
        ),
{
    assert(rotated_items(items) =~= items);
    assert(layout.rotated() == layout);
}

} // verus!
