//! The scroll box: a window onto a canvas that is larger than the box.

use crate::buffer::{blank_grid, cropped, cropped_size, stamped, Buffer, CellView};
use crate::layouts::auto::Auto;
use crate::values::{Constraints, ContainerSizing, Dimensions, Dir, Point, Rect, Sizing};
use crate::views::Widget;
use vstd::prelude::*;

verus! {

/// How far the canvas of a scroll box reaches along the axis of
/// scrolling. What the children would paint beyond is lost.
pub const MAX_SIZE: usize = 1000;

/// A container that shows its children from `position` on along `dir`.
#[derive(Debug)]
pub struct ScrollBox {
    pub position: usize,
    pub dir: Dir,
    pub width: Sizing,
    pub height: Sizing,
    pub contents: Auto,
}

/// The size of the canvas behind a box of size `visible`: as far as the
/// box across the axis of scrolling, and `MAX_SIZE` along it.
pub open spec fn canvas_size(dir: Dir, visible: Dimensions) -> Dimensions {
    match dir {
        Dir::Horizontal => Dimensions { width: MAX_SIZE, height: visible.height },
        Dir::Vertical => Dimensions { width: visible.width, height: MAX_SIZE },
    }
}

/// How far into the canvas the window starts: at `position`, or at the
/// end of the canvas if that comes first.
pub open spec fn start_of(position: usize) -> usize {
    if position <= MAX_SIZE {
        position
    } else {
        MAX_SIZE
    }
}

/// The first corner of the window onto the canvas.
pub open spec fn window_from(dir: Dir, position: usize) -> Point {
    match dir {
        Dir::Horizontal => Point { x: start_of(position), y: 0 },
        Dir::Vertical => Point { x: 0, y: start_of(position) },
    }
}

/// Where a window of `extent` cells that starts at `start` ends, or the
/// largest coordinate there is where it would end beyond that.
pub open spec fn end_of(start: usize, extent: usize) -> usize {
    if start + extent <= usize::MAX {
        (start + extent) as usize
    } else {
        usize::MAX
    }
}

/// The corner just past the window onto the canvas.
pub open spec fn window_to(dir: Dir, position: usize, visible: Dimensions) -> Point {
    match dir {
        Dir::Horizontal => Point {
            x: end_of(start_of(position), visible.width),
            y: visible.height,
        },
        Dir::Vertical => Point {
            x: visible.width,
            y: end_of(start_of(position), visible.height),
        },
    }
}

/// Where a window of `extent` cells that starts at `start` ends.
fn window_end(start: usize, extent: usize) -> (end: usize)
    ensures
        end == end_of(start, extent),
{
    if extent <= usize::MAX - start {
        start + extent
    } else {
        usize::MAX
    }
}

impl ScrollBox {
    /// A box that fills its bounds and scrolls a column.
    pub fn vertical(position: usize) -> (view: Self)
        ensures
            view.position == position,
            view.dir == Dir::Vertical,
            view.width == Sizing::Fill,
            view.height == Sizing::Fill,
            view.contents.dir == Dir::Vertical,
            view.contents.width == ContainerSizing::Hug,
            view.contents.height == ContainerSizing::Fill,
            view.contents.items@.len() == 0,
    {
        Self {
            position,
            dir: Dir::Vertical,
            width: Sizing::Fill,
            height: Sizing::Fill,
            contents: Auto::vertical().width(ContainerSizing::Hug),
        }
    }

    /// A box that fills its bounds and scrolls a row.
    pub fn horizontal(position: usize) -> (view: Self)
        ensures
            view.position == position,
            view.dir == Dir::Horizontal,
            view.width == Sizing::Fill,
            view.height == Sizing::Fill,
            view.contents.dir == Dir::Horizontal,
            view.contents.width == ContainerSizing::Fill,
            view.contents.height == ContainerSizing::Hug,
            view.contents.items@.len() == 0,
    {
        Self {
            position,
            dir: Dir::Horizontal,
            width: Sizing::Fill,
            height: Sizing::Fill,
            contents: Auto::horizontal().height(ContainerSizing::Hug),
        }
    }

    /// The box with `item` as the last of its children.
    pub fn add(self, item: Widget) -> (view: Self)
        ensures
            view.position == self.position,
            view.dir == self.dir,
            view.width == self.width,
            view.height == self.height,
            view.contents.dir == self.contents.dir,
            view.contents.layout == self.contents.layout,
            view.contents.width == self.contents.width,
            view.contents.height == self.contents.height,
            view.contents.items@ == self.contents.items@.push(item),
    {
        Self {
            position: self.position,
            dir: self.dir,
            width: self.width,
            height: self.height,
            contents: self.contents.add(item),
        }
    }

    pub fn width(self, width: Sizing) -> (view: Self)
        ensures
            view.position == self.position,
            view.dir == self.dir,
            view.width == width,
            view.height == self.height,
            view.contents == self.contents,
    {
        let mut view = self;
        view.width = width;
        view
    }

    pub fn height(self, height: Sizing) -> (view: Self)
        ensures
            view.position == self.position,
            view.dir == self.dir,
            view.width == self.width,
            view.height == height,
            view.contents == self.contents,
    {
        let mut view = self;
        view.height = height;
        view
    }

    /// What the box was told to ask for, a fixed extent cut down to the
    /// bounds.
    pub open spec fn wants(&self, bounds: Dimensions) -> Constraints {
        Constraints {
            width: self.width.constrained(bounds.width),
            height: self.height.constrained(bounds.height),
        }
    }

    /// What the children paint on a blank canvas.
    pub open spec fn canvas(&self, visible: Dimensions) -> Seq<Seq<CellView>>
        decreases self, 1int,
    {
        let size = canvas_size(self.dir, visible);
        self.contents.paints(Rect { origin: Point { x: 0, y: 0 }, dimensions: size }, blank_grid(size))
    }

    /// The window onto the canvas, in place of what `within` showed.
    pub open spec fn paints(&self, within: Rect, grid: Seq<Seq<CellView>>) -> Seq<Seq<CellView>>
        decreases self, 2int,
    {
        let from = window_from(self.dir, self.position);
        let to = window_to(self.dir, self.position, within.dimensions);
        stamped(
            grid,
            within.origin,
            cropped(
                self.canvas(within.dimensions),
                from,
                to,
                cropped_size(canvas_size(self.dir, within.dimensions), from, to),
            ),
        )
    }

    pub fn sizing(&self, bounds: &Dimensions) -> (c: Constraints)
        ensures
            c == self.wants(*bounds),
    {
        Constraints::new(
            self.width.constrain_by(bounds.width),
            self.height.constrain_by(bounds.height),
        )
    }

    pub fn render(&self, within: &Rect, buffer: &mut Buffer)
        requires
            old(buffer).wf(),
            within.within(old(buffer).area()),
        ensures
            final(buffer).wf(),
            final(buffer).dimensions == old(buffer).dimensions,
            final(buffer)@ == self.paints(*within, old(buffer)@),
        decreases self, 2int,
    {
        let start: usize = if self.position <= MAX_SIZE {
            self.position
        } else {
            MAX_SIZE
        };
        let (content_dimensions, from, to) = match self.dir {
            Dir::Horizontal => (
                Dimensions::new(MAX_SIZE, within.dimensions.height),
                Point::new(start, 0),
                Point::new(window_end(start, within.dimensions.width), within.dimensions.height),
            ),
            Dir::Vertical => (
                Dimensions::new(within.dimensions.width, MAX_SIZE),
                Point::new(0, start),
                Point::new(within.dimensions.width, window_end(start, within.dimensions.height)),
            ),
        };
        let mut content_buffer = Buffer::new(content_dimensions);
        self.contents.render(&Rect::new(Point::zero(), content_dimensions), &mut content_buffer);
        content_buffer.shrink(from, to);
        buffer.merge(&within.origin, &content_buffer);
    }
}

} // verus!
