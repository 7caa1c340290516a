//! The single-axis solver: from each child's sizing request to its
//! rectangle. The work is always done along a horizontal row; a vertical
//! container is solved as the mirrored row and mirrored back.

use crate::layouts::spacing::{interleaved, odd_positions, removable, spacer_of, without_all, Spacing};
use crate::values::{Align, Constraints, Dimensions, Dir, Layout, Point, Rect, Sizing};
use vstd::prelude::*;

verus! {

/// The smaller of two integers.
pub open spec fn least(a: int, b: int) -> int {
    if a <= b {
        a
    } else {
        b
    }
}

/// What a request adds to the fixed demand on the row.
pub open spec fn fixed_part(s: Sizing) -> int {
    match s {
        Sizing::Fixed(n) => n as int,
        Sizing::Fill => 0,
    }
}

/// The sum of the fixed widths that the first `k` items ask for.
pub open spec fn fixed_sum(items: Seq<Constraints>, k: int) -> int
    decreases k,
{
    if k <= 0 {
        0
    } else {
        fixed_sum(items, k - 1) + fixed_part(items[k - 1].width)
    }
}

/// How many of the first `k` items ask to fill the row.
pub open spec fn fill_count(items: Seq<Constraints>, k: int) -> int
    decreases k,
{
    if k <= 0 {
        0
    } else {
        fill_count(items, k - 1) + if items[k - 1].width == Sizing::Fill {
            1int
        } else {
            0int
        }
    }
}

/// The width that the fixed items among the first `k` take from a row of
/// width `room`: each takes what it asks for, or what is left if that is
/// less.
pub open spec fn used(items: Seq<Constraints>, k: int, room: int) -> int {
    least(room, fixed_sum(items, k))
}

/// The width of every filling item: an equal share, rounded down, of what
/// the fixed items leave; the remainder of the division stays unused.
pub open spec fn fill_width(items: Seq<Constraints>, room: int) -> int {
    let fills = fill_count(items, items.len() as int);
    if fills == 0 {
        0
    } else {
        (room - used(items, items.len() as int, room)) / fills
    }
}

/// The width given to item `i`.
pub open spec fn main_extent(items: Seq<Constraints>, room: int, i: int) -> int {
    match items[i].width {
        Sizing::Fill => fill_width(items, room),
        Sizing::Fixed(_) => used(items, i + 1, room) - used(items, i, room),
    }
}

/// The total width given to the items before item `i`.
pub open spec fn main_offset(items: Seq<Constraints>, room: int, i: int) -> int {
    used(items, i, room) + fill_count(items, i) * fill_width(items, room)
}

/// The height given to an item in a row of height `room`.
pub open spec fn cross_extent(s: Sizing, room: int) -> int {
    match s {
        Sizing::Fill => room,
        Sizing::Fixed(n) => least(n as int, room),
    }
}

/// How far an alignment moves something that leaves `slack` cells free.
pub open spec fn shift(align: Align, slack: int) -> int {
    match align {
        Align::Start => 0,
        Align::Center => slack / 2,
        Align::End => slack,
    }
}

/// The rectangle of item `i` when `items` are laid out left to right in
/// `bounds`. The row as a whole is moved by the horizontal alignment over
/// the width that no item took; each item is moved within the height of
/// the row by the vertical alignment.
pub open spec fn placed(items: Seq<Constraints>, layout: Layout, bounds: Rect, i: int) -> Rect {
    let w = bounds.dimensions.width as int;
    let h = bounds.dimensions.height as int;
    let tall = cross_extent(items[i].height, h);
    let x = bounds.origin.x + shift(layout.h_align(), w - main_offset(items, w, items.len() as int))
        + main_offset(items, w, i);
    let y = bounds.origin.y + shift(layout.v_align(), h - tall);
    Rect {
        origin: Point { x: x as usize, y: y as usize },
        dimensions: Dimensions { width: main_extent(items, w, i) as usize, height: tall as usize },
    }
}

/// The list that is actually laid out: the items and the layout's spacers.
pub open spec fn with_spacers(items: Seq<Constraints>, layout: Layout) -> Seq<Constraints> {
    match spacer_of(layout) {
        Some(spacer) => interleaved(items, spacer),
        None => items,
    }
}

/// The distance in the laid-out list from one item to the next.
pub open spec fn stride(items: Seq<Constraints>, layout: Layout) -> int {
    if with_spacers(items, layout).len() == items.len() {
        1
    } else {
        2
    }
}

/// The rectangles of `items` laid out left to right in `bounds`: spacers
/// take part in the layout like any item, and are left out of the result.
pub open spec fn row(items: Seq<Constraints>, layout: Layout, bounds: Rect) -> Seq<Rect> {
    Seq::new(
        items.len(),
        |i: int| placed(with_spacers(items, layout), layout, bounds, stride(items, layout) * i),
    )
}

/// Every request with its axes exchanged.
pub open spec fn rotated_items(items: Seq<Constraints>) -> Seq<Constraints> {
    Seq::new(items.len(), |i: int| items[i].rotated())
}

/// Every rectangle mirrored along the diagonal.
pub open spec fn rotated_rects(rects: Seq<Rect>) -> Seq<Rect> {
    Seq::new(rects.len(), |i: int| rects[i].rotated())
}

/// The rectangles that the solver gives to `items` in `bounds`, one per
/// item and in their order.
pub open spec fn solved(items: Seq<Constraints>, dir: Dir, layout: Layout, bounds: Rect) -> Seq<
    Rect,
> {
    match dir {
        Dir::Horizontal => row(items, layout, bounds),
        Dir::Vertical => rotated_rects(
            row(rotated_items(items), layout.rotated(), bounds.rotated()),
        ),
    }
}

/// The fixed demand and the count of filling items grow with the prefix,
/// and neither is negative.
pub proof fn lemma_prefix_grows(items: Seq<Constraints>, j: int, k: int)
    requires
        0 <= j <= k,
    ensures
        0 <= fixed_sum(items, j) <= fixed_sum(items, k),
        0 <= fill_count(items, j) <= fill_count(items, k),
        fill_count(items, k) - fill_count(items, j) <= k - j,
    decreases k,
{
    if j < k {
        lemma_prefix_grows(items, j, k - 1);
    } else if 0 < k {
        lemma_prefix_grows(items, j - 1, k - 1);
    }
}

/// The filling items never share out more than the fixed items left.
pub proof fn lemma_fill_share(items: Seq<Constraints>, room: int)
    requires
        0 <= room,
    ensures
        0 <= fill_width(items, room),
        0 <= used(items, items.len() as int, room) <= room,
        fill_count(items, items.len() as int) * fill_width(items, room) <= room - used(
            items,
            items.len() as int,
            room,
        ),
{
    let n = items.len() as int;
    lemma_prefix_grows(items, 0, n);
    let fills = fill_count(items, n);
    let left = room - used(items, n, room);
    if fills != 0 {
        assert(0 <= left / fills && fills * (left / fills) <= left) by (nonlinear_arith)
            requires
                0 <= left,
                0 < fills,
        ;
    }
}

/// The items stand side by side from the left edge on, each where the one
/// before it ends, and all of them end within the row.
pub proof fn lemma_offsets(items: Seq<Constraints>, room: int, i: int)
    requires
        0 <= room,
        0 <= i <= items.len(),
    ensures
        0 <= main_offset(items, room, i) <= main_offset(items, room, items.len() as int) <= room,
        i < items.len() ==> 0 <= main_extent(items, room, i) && main_offset(items, room, i + 1)
            == main_offset(items, room, i) + main_extent(items, room, i),
{
    let n = items.len() as int;
    let share = fill_width(items, room);
    lemma_fill_share(items, room);
    lemma_prefix_grows(items, 0, i);
    lemma_prefix_grows(items, i, n);
    let before = fill_count(items, i);
    let all = fill_count(items, n);
    assert(0 <= before * share <= all * share) by (nonlinear_arith)
        requires
            0 <= before <= all,
            0 <= share,
    ;
    if i < n {
        lemma_prefix_grows(items, i, i + 1);
        let next = fill_count(items, i + 1);
        if items[i].width == Sizing::Fill {
            assert(next * share == before * share + share) by (nonlinear_arith)
                requires
                    next == before + 1,
            ;
        }
    }
}

/// Taking the spacers out, last one first, leaves what stood at the even
/// positions, followed by what stood behind the last spacer.
pub proof fn lemma_without_spacers<T>(s: Seq<T>, count: nat)
    requires
        2 * count <= s.len() <= usize::MAX,
    ensures
        removable(s.len() as int, odd_positions(count).reverse()),
        without_all(s, odd_positions(count).reverse()).len() == s.len() - count,
        forall|i: int|
            0 <= i < count ==> #[trigger] without_all(s, odd_positions(count).reverse())[i] == s[2
                * i],
        forall|i: int|
            count <= i < s.len() - count ==> #[trigger] without_all(
                s,
                odd_positions(count).reverse(),
            )[i] == s[i + count],
    decreases count,
{
    let order = odd_positions(count).reverse();
    assert forall|k: int| 0 <= k < order.len() implies (#[trigger] order[k]) < s.len() - k by {
        assert(order[k] == odd_positions(count)[count - 1 - k]);
    }
    if count > 0 {
        let rest = s.remove(2 * count - 1);
        let fewer = (count - 1) as nat;
        assert(order[0] == odd_positions(count)[count - 1]);
        assert(order.drop_first() =~= odd_positions(fewer).reverse());
        lemma_without_spacers(rest, fewer);
        let out = without_all(rest, odd_positions(fewer).reverse());
        assert(without_all(s, order) == out);
        assert forall|i: int| 0 <= i < count implies #[trigger] without_all(s, order)[i] == s[2
            * i] by {
            if i < fewer {
                assert(out[i] == rest[2 * i]);
            } else {
                assert(out[i] == rest[i + fewer]);
            }
        }
        assert forall|i: int| count <= i < s.len() - count implies #[trigger] without_all(
            s,
            order,
        )[i] == s[i + count] by {
            assert(out[i] == rest[i + fewer]);
        }
    }
}

/// The smaller of `amount` and `limit`.
fn clamped(amount: usize, limit: usize) -> (r: usize)
    ensures
        r == least(amount as int, limit as int),
{
    if amount < limit {
        amount
    } else {
        limit
    }
}

/// A copy of `items`, each with its axes exchanged if `rotate` is set.
fn turned(items: &Vec<Constraints>, rotate: bool) -> (out: Vec<Constraints>)
    ensures
        out@ == if rotate {
            rotated_items(items@)
        } else {
            items@
        },
{
    let mut out: Vec<Constraints> = Vec::new();
    let mut i: usize = 0;
    while i < items.len()
        invariant
            i <= items.len(),
            out@.len() == i,
            forall|j: int|
                0 <= j < i ==> #[trigger] out@[j] == if rotate {
                    items@[j].rotated()
                } else {
                    items@[j]
                },
        decreases items.len() - i,
    {
        let mut item = items[i];
        if rotate {
            item.rotate();
        }
        out.push(item);
        i += 1;
    }
    assert(rotate ==> out@ =~= rotated_items(items@));
    assert(!rotate ==> out@ =~= items@);
    out
}

/// Lays `items` out from left to right in `bounds`.
fn lay_row(items: &Vec<Constraints>, arrangement: &Layout, bounds: &Rect) -> (results: Vec<Rect>)
    requires
        items.len() > 0 ==> bounds.right() <= usize::MAX && bounds.bottom() <= usize::MAX,
    ensures
        results@.len() == items@.len(),
        forall|j: int|
            0 <= j < items@.len() ==> #[trigger] results@[j] == placed(
                items@,
                *arrangement,
                *bounds,
                j,
            ),
{
    let w: usize = bounds.dimensions.width;
    let h: usize = bounds.dimensions.height;
    let ghost room = w as int;
    let mut remaining: usize = w;
    let mut fills: usize = 0;
    let mut results: Vec<Rect> = Vec::new();
    let mut i: usize = 0;
    // Widths of the fixed items, and every height.
    while i < items.len()
        invariant
            i <= items.len(),
            room == w,
            w == bounds.dimensions.width,
            h == bounds.dimensions.height,
            remaining == w - used(items@, i as int, room),
            fills == fill_count(items@, i as int),
            results@.len() == i,
            forall|j: int|
                0 <= j < i ==> {
                    &&& (#[trigger] results@[j]).origin == bounds.origin
                    &&& results@[j].dimensions.height == cross_extent(items@[j].height, h as int)
                    &&& items@[j].width != Sizing::Fill ==> results@[j].dimensions.width
                        == main_extent(items@, room, j)
                },
        decreases items.len() - i,
    {
        let item = items[i];
        proof {
            lemma_prefix_grows(items@, i as int, i + 1);
            lemma_prefix_grows(items@, 0, i as int);
        }
        let mut result = Rect::new(bounds.origin, Dimensions::new(remaining, h));
        match item.width {
            Sizing::Fixed(amount) => {
                result.dimensions.width = clamped(amount, remaining);
                remaining -= result.dimensions.width;
            },
            Sizing::Fill => {
                fills += 1;
            },
        }
        result.dimensions.height =
        match item.height {
            Sizing::Fill => h,
            Sizing::Fixed(amount) => clamped(amount, h),
        };
        results.push(result);
        i += 1;
    }
    // The share of each filling item.
    let share: usize = if fills == 0 {
        0
    } else {
        remaining / fills
    };
    assert(share == fill_width(items@, room));
    // Widths of the filling items, and every position.
    let mut offset: usize = bounds.origin.x;
    let mut i: usize = 0;
    while i < results.len()
        invariant
            i <= results.len(),
            results@.len() == items@.len(),
            room == w,
            w == bounds.dimensions.width,
            h == bounds.dimensions.height,
            items@.len() > 0 ==> bounds.right() <= usize::MAX && bounds.bottom() <= usize::MAX,
            share == fill_width(items@, room),
            offset == bounds.origin.x + main_offset(items@, room, i as int),
            forall|j: int|
                i <= j < results@.len() ==> {
                    &&& (#[trigger] results@[j]).origin == bounds.origin
                    &&& results@[j].dimensions.height == cross_extent(items@[j].height, h as int)
                    &&& items@[j].width != Sizing::Fill ==> results@[j].dimensions.width
                        == main_extent(items@, room, j)
                },
            forall|j: int|
                0 <= j < i ==> {
                    &&& (#[trigger] results@[j]).origin.x == bounds.origin.x + main_offset(
                        items@,
                        room,
                        j,
                    )
                    &&& results@[j].origin.y == placed(items@, *arrangement, *bounds, j).origin.y
                    &&& results@[j].dimensions == placed(items@, *arrangement, *bounds, j).dimensions
                },
        decreases results.len() - i,
    {
        proof {
            lemma_offsets(items@, room, i as int);
            lemma_offsets(items@, room, i + 1);
        }
        let mut result = results[i];
        match items[i].width {
            Sizing::Fill => {
                result.dimensions.width = share;
            },
            Sizing::Fixed(_) => {},
        }
        result.origin.x = offset;
        match arrangement.vertical() {
            Align::Start => {},
            Align::Center => {
                result.origin.y = bounds.origin.y + (h - result.dimensions.height) / 2;
            },
            Align::End => {
                result.origin.y = bounds.origin.y + (h - result.dimensions.height);
            },
        }
        offset += result.dimensions.width;
        results.set(i, result);
        i += 1;
    }
    // The row as a whole, over the width that nothing took.
    proof {
        lemma_offsets(items@, room, items@.len() as int);
    }
    let total: usize = offset - bounds.origin.x;
    let slack: usize = w - total;
    let move_by: usize = match arrangement.horizontal() {
        Align::Start => 0,
        Align::Center => slack / 2,
        Align::End => slack,
    };
    let mut i: usize = 0;
    while i < results.len()
        invariant
            i <= results.len(),
            results@.len() == items@.len(),
            room == w,
            w == bounds.dimensions.width,
            items@.len() > 0 ==> bounds.right() <= usize::MAX,
            move_by == shift(
                arrangement.h_align(),
                room - main_offset(items@, room, items@.len() as int),
            ),
            0 <= move_by <= room - main_offset(items@, room, items@.len() as int),
            forall|j: int|
                i <= j < results@.len() ==> {
                    &&& (#[trigger] results@[j]).origin.x == bounds.origin.x + main_offset(
                        items@,
                        room,
                        j,
                    )
                    &&& results@[j].origin.y == placed(items@, *arrangement, *bounds, j).origin.y
                    &&& results@[j].dimensions == placed(items@, *arrangement, *bounds, j).dimensions
                },
            forall|j: int|
                0 <= j < i ==> #[trigger] results@[j] == placed(items@, *arrangement, *bounds, j),
        decreases results.len() - i,
    {
        proof {
            lemma_offsets(items@, room, i as int);
        }
        let mut result = results[i];
        result.origin.x += move_by;
        results.set(i, result);
        i += 1;
    }
    results
}

/// Gives each of `items` its rectangle in `bounds`: side by side along
/// `dir`, with the gaps and the alignments of `arrangement`.
pub fn solve(items: &Vec<Constraints>, dir: &Dir, arrangement: &Layout, bounds: &Rect) -> (results:
    Vec<Rect>)
    requires
        items.len() > 0 ==> bounds.right() <= usize::MAX && bounds.bottom() <= usize::MAX,
    ensures
        results@ == solved(items@, *dir, *arrangement, *bounds),
        results@.len() == items@.len(),
{
    let rotate = match dir {
        Dir::Vertical => true,
        Dir::Horizontal => false,
    };
    let mut arrangement = *arrangement;
    let mut bounds = *bounds;
    let mut row_items = turned(items, rotate);
    if rotate {
        bounds.rotate();
        arrangement.rotate();
    }
    let ghost base = row_items@;
    let mut spacing = Spacing::from_arrangement(&arrangement);
    spacing.introduce(&mut row_items);
    assert(row_items@ == with_spacers(base, arrangement));
    let mut results = lay_row(&row_items, &arrangement, &bounds);
    let ghost laid = results@;
    proof {
        if stride(base, arrangement) == 2 {
            let gaps = (base.len() - 1) as nat;
            assert(spacing.recorded() =~= odd_positions(gaps).reverse());
            assert(laid.len() == results.len());
            lemma_without_spacers(laid, gaps);
        }
    }
    spacing.cleanup(&mut results);
    proof {
        if stride(base, arrangement) == 1 {
            assert(spacing.recorded().len() == 0);
            assert(results@ == laid);
        }
        assert(results@ =~= row(base, arrangement, bounds));
    }
    if rotate {
        let ghost flat = results@;
        let mut i: usize = 0;
        while i < results.len()
            invariant
                i <= results.len(),
                results@.len() == flat.len(),
                forall|j: int| 0 <= j < i ==> #[trigger] results@[j] == flat[j].rotated(),
                forall|j: int| i <= j < results@.len() ==> #[trigger] results@[j] == flat[j],
            decreases results.len() - i,
        {
            let mut result = results[i];
            result.rotate();
            results.set(i, result);
            i += 1;
        }
        assert(results@ =~= rotated_rects(flat));
    }
    results
}


} // verus!
