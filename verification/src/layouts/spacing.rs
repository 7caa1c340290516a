//! Spacers: the solver-only items that stand for the gaps between
//! neighbours. They are put into the list before it is laid out, and
//! their rectangles are taken out of the result afterwards.

use crate::values::{Constraints, Layout, Rect, Sizing};
use vstd::prelude::*;

verus! {

/// The spacer that a layout puts between neighbours, if it puts any: the
/// gap's width along the row, and the whole height across it.
pub open spec fn spacer_of(layout: Layout) -> Option<Constraints> {
    match layout {
        Layout::Packed { .. } => None,
        Layout::Spaced { spacing, .. } => Some(
            Constraints { width: Sizing::Fixed(spacing), height: Sizing::Fill },
        ),
        Layout::Spread { .. } => Some(Constraints { width: Sizing::Fill, height: Sizing::Fill }),
    }
}

/// `items` with `spacer` between every two neighbours. A list of fewer
/// than two items has no neighbours and stays as it is.
pub open spec fn interleaved(items: Seq<Constraints>, spacer: Constraints) -> Seq<Constraints> {
    if items.len() <= 1 {
        items
    } else {
        Seq::new(
            (2 * items.len() - 1) as nat,
            |j: int|
                if j % 2 == 0 {
                    items[j / 2]
                } else {
                    spacer
                },
        )
    }
}

/// The odd positions `1, 3, ..` below `2 * count`, in ascending order:
/// where the spacers stand once `count` of them are in the list.
pub open spec fn odd_positions(count: nat) -> Seq<usize> {
    Seq::new(count, |k: int| (2 * k + 1) as usize)
}

/// `s` after the removal of one element at each of `positions`, one after
/// the other: every position counts in what the removals before it left.
pub open spec fn without_all<T>(s: Seq<T>, positions: Seq<usize>) -> Seq<T>
    decreases positions.len(),
{
    if positions.len() == 0 {
        s
    } else {
        without_all(s.remove(positions[0] as int), positions.drop_first())
    }
}

/// Whether a list of length `len` has an element at each of `positions`
/// at the time of its removal.
pub open spec fn removable(len: int, positions: Seq<usize>) -> bool {
    forall|k: int| 0 <= k < positions.len() ==> (#[trigger] positions[k]) < len - k
}

/// The gaps of a layout, and where their spacers were put.
#[derive(Debug, Clone, PartialEq, Eq)]
pub enum Spacing {
    /// Gaps that share the space left over.
    Even(Vec<usize>),
    /// Gaps of a fixed size.
    Fixed(usize, Vec<usize>),
    /// No gaps.
    Packed,
}

impl Spacing {
    /// The positions of the spacers put in so far, in the order in which
    /// they are to be removed.
    pub open spec fn recorded(self) -> Seq<usize> {
        match self {
            Spacing::Even(positions) => positions@,
            Spacing::Fixed(_, positions) => positions@,
            Spacing::Packed => Seq::empty(),
        }
    }

    /// The spacer of these gaps, if there are gaps.
    pub open spec fn spacer(self) -> Option<Constraints> {
        match self {
            Spacing::Even(_) => Some(Constraints { width: Sizing::Fill, height: Sizing::Fill }),
            Spacing::Fixed(gap, _) => Some(
                Constraints { width: Sizing::Fixed(gap), height: Sizing::Fill },
            ),
            Spacing::Packed => None,
        }
    }

    /// The gaps that `arrangement` asks for, with no spacer put in yet.
    pub fn from_arrangement(arrangement: &Layout) -> (spacing: Self)
        ensures
            spacing.spacer() == spacer_of(*arrangement),
            spacing.recorded().len() == 0,
    {
        match arrangement {
            Layout::Packed { v: _, h: _ } => Self::Packed,
            Layout::Spaced { v: _, h: _, spacing } => Self::Fixed(*spacing, Vec::new()),
            Layout::Spread { v: _, h: _ } => Self::Even(Vec::new()),
        }
    }

    /// Puts a spacer between every two neighbours of `items` and records
    /// where. A list of fewer than two items, or a layout without gaps,
    /// leaves everything as it was. The record comes out reversed as a
    /// whole, so that the last spacer is the first to be removed.
    pub fn introduce(&mut self, items: &mut Vec<Constraints>)
        ensures
            final(self).spacer() == old(self).spacer(),
            old(self).spacer().is_some() && old(items).len() > 1 ==> {
                &&& final(items)@ == interleaved(old(items)@, old(self).spacer().unwrap())
                &&& final(self).recorded() == (old(self).recorded() + odd_positions(
                    (old(items).len() - 1) as nat,
                )).reverse()
            },
            old(self).spacer().is_none() || old(items).len() <= 1 ==> {
                &&& final(items)@ == old(items)@
                &&& final(self).recorded() == old(self).recorded()
            },
    {
        match self {
            Spacing::Even(indexes) => {
                if items.len() > 1 {
                    Self::insert_spaces(Constraints::new(Sizing::Fill, Sizing::Fill), indexes, items);
                }
            },
            Spacing::Fixed(spacing, indexes) => {
                if items.len() > 1 {
                    Self::insert_spaces(
                        Constraints::new(Sizing::Fixed(*spacing), Sizing::Fill),
                        indexes,
                        items,
                    );
                }
            },
            Spacing::Packed => (),
        }
    }

    fn insert_spaces(constraints: Constraints, indexes: &mut Vec<usize>, items: &mut Vec<Constraints>)
        requires
            old(items).len() > 1,
        ensures
            final(items)@ == interleaved(old(items)@, constraints),
            final(indexes)@ == (old(indexes)@ + odd_positions(
                (old(items).len() - 1) as nat,
            )).reverse(),
    {
        let count: usize = items.len() - 1;
        let mut current: usize = 1;
        let mut done: usize = 0;
        while done < count
            invariant
                count == old(items).len() - 1,
                done <= count,
                done < count ==> current == 2 * done + 1,
                items@.len() == old(items)@.len() + done,
                forall|j: int|
                    0 <= j < 2 * done ==> #[trigger] items@[j] == if j % 2 == 0 {
                        old(items)@[j / 2]
                    } else {
                        constraints
                    },
                forall|j: int|
                    2 * done <= j < items@.len() ==> #[trigger] items@[j] == old(items)@[j - done],
                indexes@ == old(indexes)@ + odd_positions(done as nat),
            decreases count - done,
        {
            let ghost before = items@;
            let ghost record = indexes@;
            items.insert(current, constraints);
            indexes.push(current);
            proof {
                assert(indexes@ =~= old(indexes)@ + odd_positions((done + 1) as nat));
                assert forall|j: int| 0 <= j < 2 * (done + 1) implies #[trigger] items@[j] == if j
                    % 2 == 0 {
                    old(items)@[j / 2]
                } else {
                    constraints
                } by {
                    if j < 2 * done {
                        assert(items@[j] == before[j]);
                    } else if j == 2 * done {
                        assert(items@[j] == before[j]);
                    } else {
                        assert(items@[j] == constraints);
                    }
                }
                assert forall|j: int| 2 * (done + 1) <= j < items@.len() implies #[trigger] items@[j]
                    == old(items)@[j - (done + 1)] by {
                    assert(items@[j] == before[j - 1]);
                }
            }
            done += 1;
            if done < count {
                // The next spacer goes in before the end of the list, so
                // its position is no more than the length of the list.
                assert(current + 2 <= items.len());
                current += 2;
            }
        }
        assert(items@ =~= interleaved(old(items)@, constraints));
        reverse(indexes);
    }

    /// Takes the spacers' rectangles out of `results`, at the recorded
    /// positions and in the recorded order.
    pub fn cleanup(&self, results: &mut Vec<Rect>)
        requires
            removable(old(results).len() as int, self.recorded()),
        ensures
            final(results)@ == without_all(old(results)@, self.recorded()),
    {
        match self {
            Spacing::Even(indexes) | Spacing::Fixed(_, indexes) => {
                let mut k: usize = 0;
                assert(indexes@.subrange(0, indexes.len() as int) =~= indexes@);
                while k < indexes.len()
                    invariant
                        k <= indexes.len(),
                        indexes@ == self.recorded(),
                        removable(old(results).len() as int, self.recorded()),
                        results@.len() == old(results)@.len() - k,
                        without_all(results@, indexes@.subrange(k as int, indexes.len() as int))
                            == without_all(old(results)@, indexes@),
                    decreases indexes.len() - k,
                {
                    let ghost rest = indexes@.subrange(k as int, indexes.len() as int);
                    assert(rest[0] == indexes@[k as int]);
                    assert(rest.drop_first() =~= indexes@.subrange(k + 1, indexes.len() as int));
                    let _ = results.remove(indexes[k]);
                    k += 1;
                }
                assert(indexes@.subrange(k as int, indexes.len() as int).len() == 0);
            },
            Spacing::Packed => (),
        }
    }

    /// The recorded positions, in the order in which they are removed.
    pub fn indexes(&self) -> (positions: Vec<usize>)
        ensures
            positions@ == self.recorded(),
    {
        match self {
            Spacing::Even(indexes) => copy_of(indexes),
            Spacing::Fixed(_, indexes) => copy_of(indexes),
            Spacing::Packed => Vec::new(),
        }
    }
}

/// Reverses `v` in place.
fn reverse(v: &mut Vec<usize>)
    ensures
        final(v)@ == old(v)@.reverse(),
{
    let n: usize = v.len();
    let mut i: usize = 0;
    while i < n / 2
        invariant
            n == v@.len(),
            n == old(v)@.len(),
            i <= n / 2,
            forall|j: int| 0 <= j < i ==> #[trigger] v@[j] == old(v)@[n - 1 - j],
            forall|j: int| n - i <= j < n ==> #[trigger] v@[j] == old(v)@[n - 1 - j],
            forall|j: int| i <= j < n - i ==> #[trigger] v@[j] == old(v)@[j],
        decreases n / 2 - i,
    {
        let a: usize = v[i];
        let b: usize = v[n - 1 - i];
        v.set(i, b);
        v.set(n - 1 - i, a);
        i += 1;
    }
    assert(v@ =~= old(v)@.reverse());
}

/// A new vector with the elements of `v`.
fn copy_of(v: &Vec<usize>) -> (out: Vec<usize>)
    ensures
        out@ == v@,
{
    let mut out: Vec<usize> = Vec::new();
    let mut i: usize = 0;
    while i < v.len()
        invariant
            i <= v.len(),
            out@ == v@.subrange(0, i as int),
        decreases v.len() - i,
    {
        out.push(v[i]);
        assert(out@ =~= v@.subrange(0, i + 1));
        i += 1;
    }
    assert(out@ =~= v@);
    out
}

} // verus!
