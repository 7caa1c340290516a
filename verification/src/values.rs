//! Geometry and sizing vocabulary shared by every view and by the solver.

use vstd::prelude::*;

verus! {

/// A cell position: column `x`, row `y`.
#[derive(Debug, Clone, Copy, PartialEq, Eq, Structural)]
pub struct Point {
    pub x: usize,
    pub y: usize,
}

impl Point {
    /// The point with both coordinates exchanged.
    pub open spec fn rotated(self) -> Point {
        Point { x: self.y, y: self.x }
    }

    pub fn new(x: usize, y: usize) -> (p: Self)
        ensures
            p.x == x,
            p.y == y,
    {
        Self { x, y }
    }

    pub fn zero() -> (p: Self)
        ensures
            p.x == 0,
            p.y == 0,
    {
        Self { x: 0, y: 0 }
    }

    pub fn rotate(&mut self)
        ensures
            *final(self) == old(self).rotated(),
    {
        let x = self.x;
        let y = self.y;
        self.x = y;
        self.y = x;
    }
}

/// An extent in cells.
#[derive(Debug, Clone, Copy, PartialEq, Eq, Structural)]
pub struct Dimensions {
    pub width: usize,
    pub height: usize,
}

impl Dimensions {
    /// The extent with width and height exchanged.
    pub open spec fn rotated(self) -> Dimensions {
        Dimensions { width: self.height, height: self.width }
    }

    pub fn new(width: usize, height: usize) -> (d: Self)
        ensures
            d.width == width,
            d.height == height,
    {
        Self { width, height }
    }

    pub fn zero() -> (d: Self)
        ensures
            d.width == 0,
            d.height == 0,
    {
        Self { width: 0, height: 0 }
    }

    pub fn rotate(&mut self)
        ensures
            *final(self) == old(self).rotated(),
    {
        let width = self.width;
        let height = self.height;
        self.width = height;
        self.height = width;
    }
}

/// A rectangle of cells: its top-left corner and its extent.
#[derive(Debug, Clone, Copy, PartialEq, Eq, Structural)]
pub struct Rect {
    pub origin: Point,
    pub dimensions: Dimensions,
}

impl Rect {
    /// The rectangle mirrored along the diagonal: both the origin and the
    /// extent have their axes exchanged.
    pub open spec fn rotated(self) -> Rect {
        Rect { origin: self.origin.rotated(), dimensions: self.dimensions.rotated() }
    }

    /// The column just past the right edge.
    pub open spec fn right(self) -> int {
        self.origin.x + self.dimensions.width
    }

    /// The row just past the bottom edge.
    pub open spec fn bottom(self) -> int {
        self.origin.y + self.dimensions.height
    }

    /// Whether the cell at column `x`, row `y` lies in the rectangle.
    pub open spec fn holds(self, x: int, y: int) -> bool {
        self.origin.x <= x < self.right() && self.origin.y <= y < self.bottom()
    }

    /// Whether every cell of the rectangle lies in `outer`. An empty
    /// rectangle must still start and end inside `outer`'s span.
    pub open spec fn within(self, outer: Rect) -> bool {
        &&& outer.origin.x <= self.origin.x
        &&& outer.origin.y <= self.origin.y
        &&& self.right() <= outer.right()
        &&& self.bottom() <= outer.bottom()
    }

    /// The rectangle that is left when `left`, `right`, `top` and `bottom`
    /// cells are taken off the four sides. A side takes no more than is
    /// there: what is left lies within the rectangle, and may be empty.
    pub open spec fn inset_by(self, left: usize, right: usize, top: usize, bottom: usize) -> Rect {
        let w = self.dimensions.width as int;
        let h = self.dimensions.height as int;
        let l = if left <= w {
            left as int
        } else {
            w
        };
        let r = if right <= w - l {
            right as int
        } else {
            w - l
        };
        let t = if top <= h {
            top as int
        } else {
            h
        };
        let b = if bottom <= h - t {
            bottom as int
        } else {
            h - t
        };
        Rect {
            origin: Point { x: (self.origin.x + l) as usize, y: (self.origin.y + t) as usize },
            dimensions: Dimensions { width: (w - l - r) as usize, height: (h - t - b) as usize },
        }
    }

    pub fn new(origin: Point, dimensions: Dimensions) -> (r: Self)
        ensures
            r.origin == origin,
            r.dimensions == dimensions,
    {
        Self { origin, dimensions }
    }

    /// Takes `left`, `right`, `top` and `bottom` cells off the four sides.
    pub fn inset(&self, left: usize, right: usize, top: usize, bottom: usize) -> (r: Rect)
        requires
            self.right() <= usize::MAX,
            self.bottom() <= usize::MAX,
        ensures
            r == self.inset_by(left, right, top, bottom),
            r.within(*self),
    {
        let w: usize = self.dimensions.width;
        let h: usize = self.dimensions.height;
        let l: usize = if left <= w {
            left
        } else {
            w
        };
        let r: usize = if right <= w - l {
            right
        } else {
            w - l
        };
        let t: usize = if top <= h {
            top
        } else {
            h
        };
        let b: usize = if bottom <= h - t {
            bottom
        } else {
            h - t
        };
        Rect {
            origin: Point { x: self.origin.x + l, y: self.origin.y + t },
            dimensions: Dimensions { width: w - l - r, height: h - t - b },
        }
    }

    pub fn new_from_raw(x: usize, y: usize, width: usize, height: usize) -> (r: Self)
        ensures
            r.origin.x == x,
            r.origin.y == y,
            r.dimensions.width == width,
            r.dimensions.height == height,
    {
        Self { origin: Point::new(x, y), dimensions: Dimensions::new(width, height) }
    }

    pub fn rotate(&mut self)
        ensures
            *final(self) == old(self).rotated(),
    {
        self.origin.rotate();
        self.dimensions.rotate();
    }
}

/// What a view asks for on one axis, in the only vocabulary the solver
/// understands.
#[derive(Debug, Clone, Copy, PartialEq, Eq, Structural)]
pub enum Sizing {
    /// Take whatever space is left.
    Fill,
    /// Exactly this many cells.
    Fixed(usize),
}

impl Sizing {
    /// The same request, with a fixed extent cut down to `limit`.
    pub open spec fn constrained(self, limit: usize) -> Sizing {
        match self {
            Sizing::Fill => Sizing::Fill,
            Sizing::Fixed(n) => Sizing::Fixed(
                if n <= limit {
                    n
                } else {
                    limit
                },
            ),
        }
    }

    /// The same request, with a fixed extent made larger by `by` and then
    /// cut down to `limit`.
    pub open spec fn grown(self, by: int, limit: usize) -> Sizing {
        match self {
            Sizing::Fill => Sizing::Fill,
            Sizing::Fixed(n) => Sizing::Fixed(
                if n + by <= limit {
                    (n + by) as usize
                } else {
                    limit
                },
            ),
        }
    }

    pub fn constrain_by(&self, limit: usize) -> (s: Sizing)
        ensures
            s == self.constrained(limit),
    {
        match self {
            Sizing::Fill => Sizing::Fill,
            Sizing::Fixed(n) => Sizing::Fixed(
                if *n <= limit {
                    *n
                } else {
                    limit
                },
            ),
        }
    }

    /// A fixed extent made larger by `by`, but no larger than `limit`.
    pub fn grow_by(&self, by: usize, limit: usize) -> (s: Sizing)
        ensures
            s == self.grown(by as int, limit),
    {
        match self {
            Sizing::Fill => Sizing::Fill,
            Sizing::Fixed(n) => Sizing::Fixed(
                if *n <= limit && by <= limit - *n {
                    *n + by
                } else {
                    limit
                },
            ),
        }
    }
}

/// What an author asks of a container on one axis.
#[derive(Debug, Clone, Copy, PartialEq, Eq, Structural)]
pub enum ContainerSizing {
    /// Shrink to the measured content.
    Hug,
    Fill,
    Fixed(usize),
}

impl ContainerSizing {
    /// The solver-level sizing this stands for once the content has been
    /// measured as `hug_value`.
    pub open spec fn simplified(self, hug_value: usize) -> Sizing {
        match self {
            ContainerSizing::Hug => Sizing::Fixed(hug_value),
            ContainerSizing::Fill => Sizing::Fill,
            ContainerSizing::Fixed(size) => Sizing::Fixed(size),
        }
    }

    pub fn simplify(&self, hug_value: usize) -> (s: Sizing)
        ensures
            s == self.simplified(hug_value),
    {
        match self {
            ContainerSizing::Hug => Sizing::Fixed(hug_value),
            ContainerSizing::Fill => Sizing::Fill,
            ContainerSizing::Fixed(size) => Sizing::Fixed(*size),
        }
    }
}

/// The main axis of a container.
#[derive(Debug, Clone, Copy, PartialEq, Eq, Structural)]
pub enum Dir {
    Horizontal,
    Vertical,
}

#[derive(Debug, Clone, Copy, PartialEq, Eq, Structural)]
pub enum Align {
    Start,
    Center,
    End,
}

/// How a container arranges its children: without gaps, with gaps of a
/// fixed size, or with gaps that share the space left over. `v` aligns on
/// the vertical axis and `h` on the horizontal one.
#[derive(Debug, Clone, Copy, PartialEq, Eq, Structural)]
pub enum Layout {
    Packed { v: Align, h: Align },
    Spaced { v: Align, h: Align, spacing: usize },
    Spread { v: Align, h: Align },
}

impl Default for Layout {
    fn default() -> (l: Self)
        ensures
            l == (Layout::Packed { v: Align::Start, h: Align::Start }),
    {
        Self::Packed { v: Align::Start, h: Align::Start }
    }
}

impl Layout {
    /// The alignment on the vertical axis.
    pub open spec fn v_align(self) -> Align {
        match self {
            Layout::Packed { v, .. } => v,
            Layout::Spaced { v, .. } => v,
            Layout::Spread { v, .. } => v,
        }
    }

    /// The alignment on the horizontal axis.
    pub open spec fn h_align(self) -> Align {
        match self {
            Layout::Packed { h, .. } => h,
            Layout::Spaced { h, .. } => h,
            Layout::Spread { h, .. } => h,
        }
    }

    /// The same policy with the two alignments exchanged.
    pub open spec fn rotated(self) -> Layout {
        match self {
            Layout::Packed { v, h } => Layout::Packed { v: h, h: v },
            Layout::Spaced { v, h, spacing } => Layout::Spaced { v: h, h: v, spacing },
            Layout::Spread { v, h } => Layout::Spread { v: h, h: v },
        }
    }

    pub fn packed(vertical: Align, horizontal: Align) -> (l: Self)
        ensures
            l == (Layout::Packed { v: vertical, h: horizontal }),
    {
        Self::Packed { v: vertical, h: horizontal }
    }

    pub fn fixed(vertical: Align, horizontal: Align, spacing: usize) -> (l: Self)
        ensures
            l == (Layout::Spaced { v: vertical, h: horizontal, spacing }),
    {
        Self::Spaced { v: vertical, h: horizontal, spacing }
    }

    pub fn even(vertical: Align, horizontal: Align) -> (l: Self)
        ensures
            l == (Layout::Spread { v: vertical, h: horizontal }),
    {
        Self::Spread { v: vertical, h: horizontal }
    }

    pub fn vertical(&self) -> (a: &Align)
        ensures
            *a == self.v_align(),
    {
        match self {
            Layout::Packed { v, h: _ } => v,
            Layout::Spaced { v, h: _, spacing: _ } => v,
            Layout::Spread { v, h: _ } => v,
        }
    }

    pub fn horizontal(&self) -> (a: &Align)
        ensures
            *a == self.h_align(),
    {
        match self {
            Layout::Packed { v: _, h } => h,
            Layout::Spaced { v: _, h, spacing: _ } => h,
            Layout::Spread { v: _, h } => h,
        }
    }

    pub fn rotate(&mut self)
        ensures
            *final(self) == old(self).rotated(),
    {
        let next = match self {
            Layout::Packed { v, h } => Layout::Packed { v: *h, h: *v },
            Layout::Spaced { v, h, spacing } => Layout::Spaced { v: *h, h: *v, spacing: *spacing },
            Layout::Spread { v, h } => Layout::Spread { v: *h, h: *v },
        };
        *self = next;
    }
}

/// The sizing a view asks for on both axes.
#[derive(Debug, Clone, Copy, PartialEq, Eq, Structural)]
pub struct Constraints {
    pub width: Sizing,
    pub height: Sizing,
}

impl Constraints {
    /// The same request with the two axes exchanged.
    pub open spec fn rotated(self) -> Constraints {
        Constraints { width: self.height, height: self.width }
    }

    pub fn rotate(&mut self)
        ensures
            *final(self) == old(self).rotated(),
    {
        let width = self.width;
        let height = self.height;
        self.width = height;
        self.height = width;
    }

    pub fn new(width: Sizing, height: Sizing) -> (c: Self)
        ensures
            c.width == width,
            c.height == height,
    {
        Self { width, height }
    }
}

} // verus!
