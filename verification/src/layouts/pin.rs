//! The pin board: children placed by a corner or the centre.

use crate::buffer::{Buffer, CellView};
use crate::layouts::decor::{decorate, decorated, interior};
use crate::styles::{FillStyle, LineStyle};
use crate::values::{Constraints, Dimensions, Point, Rect, Sizing};
use crate::views::Widget;
use vstd::prelude::*;

verus! {

/// Where a pinned view is held: at a corner of the board, as far from it
/// as the point says on each axis, or in the middle.
#[derive(Debug, Clone, Copy, PartialEq, Eq, Structural)]
pub enum PinOrigin {
    TopLeft(Point),
    TopRight(Point),
    BottomLeft(Point),
    BottomRight(Point),
    Center,
}

/// A view and where it is pinned.
#[derive(Debug)]
pub struct Pin {
    pub origin: PinOrigin,
    pub item: Box<Widget>,
}

/// A container that places each child by itself.
#[derive(Debug)]
pub struct PinBoard {
    pub width: Sizing,
    pub height: Sizing,
    pub border: Option<LineStyle>,
    pub fill: Option<FillStyle>,
    pub pins: Vec<Pin>,
}

/// The extent that a request gets where `room` cells are free: all of
/// them, or what it asks for if that is less.
pub open spec fn taken(request: Sizing, room: usize) -> usize {
    match request {
        Sizing::Fill => room,
        Sizing::Fixed(size) => if size <= room {
            size
        } else {
            room
        },
    }
}

impl PinOrigin {
    /// How far from its corner the view is held.
    pub open spec fn offset(self) -> Point {
        match self {
            PinOrigin::TopLeft(point) => point,
            PinOrigin::TopRight(point) => point,
            PinOrigin::BottomLeft(point) => point,
            PinOrigin::BottomRight(point) => point,
            PinOrigin::Center => Point { x: 0, y: 0 },
        }
    }

    /// The space that a board of size `board` has for a view held here:
    /// what lies beyond the offset, seen from the corner. There is none
    /// where the offset leads out of the board.
    pub open spec fn room(self, board: Dimensions) -> Option<Dimensions> {
        let offset = self.offset();
        if offset.x <= board.width && offset.y <= board.height {
            Some(
                Dimensions {
                    width: (board.width - offset.x) as usize,
                    height: (board.height - offset.y) as usize,
                },
            )
        } else {
            None
        }
    }

    /// The rectangle of a view held here that asks for `request`, on a
    /// board that covers `within` and has room for it. From a right or
    /// bottom corner the offset is counted leftwards or upwards; in the
    /// middle the free cells are halved, and an odd one goes to the right
    /// and to the bottom.
    pub open spec fn placed(self, request: Constraints, within: Rect) -> Rect {
        let room = self.room(within.dimensions).unwrap();
        let offset = self.offset();
        let wide = taken(request.width, room.width);
        let tall = taken(request.height, room.height);
        let from_left = within.origin.x + offset.x;
        let from_right = within.origin.x + (within.dimensions.width - wide - offset.x);
        let from_top = within.origin.y + offset.y;
        let from_bottom = within.origin.y + (within.dimensions.height - tall - offset.y);
        let origin = match self {
            PinOrigin::TopLeft(_) => Point { x: from_left as usize, y: from_top as usize },
            PinOrigin::TopRight(_) => Point { x: from_right as usize, y: from_top as usize },
            PinOrigin::BottomLeft(_) => Point { x: from_left as usize, y: from_bottom as usize },
            PinOrigin::BottomRight(_) => Point { x: from_right as usize, y: from_bottom as usize },
            PinOrigin::Center => Point {
                x: (within.origin.x + (within.dimensions.width - wide) / 2) as usize,
                y: (within.origin.y + (within.dimensions.height - tall) / 2) as usize,
            },
        };
        Rect { origin, dimensions: Dimensions { width: wide, height: tall } }
    }

    /// The space that a board of size `board` has for a view held here,
    /// if it has any.
    pub fn space(&self, board: &Dimensions) -> (room: Option<Dimensions>)
        ensures
            room == self.room(*board),
    {
        let offset = match self {
            PinOrigin::TopLeft(point) => *point,
            PinOrigin::TopRight(point) => *point,
            PinOrigin::BottomLeft(point) => *point,
            PinOrigin::BottomRight(point) => *point,
            PinOrigin::Center => Point::zero(),
        };
        if offset.x <= board.width && offset.y <= board.height {
            Some(Dimensions::new(board.width - offset.x, board.height - offset.y))
        } else {
            None
        }
    }

    /// The rectangle of a view held here that asks for `request`.
    pub fn place(&self, request: &Constraints, within: &Rect) -> (rect: Rect)
        requires
            self.room(within.dimensions).is_some(),
            within.right() <= usize::MAX,
            within.bottom() <= usize::MAX,
        ensures
            rect == self.placed(*request, *within),
            rect.within(*within),
    {
        let room = self.space(&within.dimensions).unwrap();
        let wide: usize = match request.width {
            Sizing::Fill => room.width,
            Sizing::Fixed(size) => if size <= room.width {
                size
            } else {
                room.width
            },
        };
        let tall: usize = match request.height {
            Sizing::Fill => room.height,
            Sizing::Fixed(size) => if size <= room.height {
                size
            } else {
                room.height
            },
        };
        let dimensions = Dimensions::new(wide, tall);
        let origin = match self {
            PinOrigin::TopLeft(point) => Point::new(
                point.x + within.origin.x,
                point.y + within.origin.y,
            ),
            PinOrigin::TopRight(point) => Point::new(
                (within.dimensions.width - wide - point.x) + within.origin.x,
                within.origin.y + point.y,
            ),
            PinOrigin::BottomLeft(point) => Point::new(
                point.x + within.origin.x,
                (within.dimensions.height - tall - point.y) + within.origin.y,
            ),
            PinOrigin::BottomRight(point) => Point::new(
                (within.dimensions.width - wide - point.x) + within.origin.x,
                (within.dimensions.height - tall - point.y) + within.origin.y,
            ),
            PinOrigin::Center => Point::new(
                (within.dimensions.width - wide) / 2 + within.origin.x,
                (within.dimensions.height - tall) / 2 + within.origin.y,
            ),
        };
        Rect::new(origin, dimensions)
    }
}

impl Pin {
    pub fn new(origin: PinOrigin, item: Widget) -> (pin: Self)
        ensures
            pin.origin == origin,
            *pin.item == item,
    {
        Self { origin, item: Box::new(item) }
    }
}

/// The grid after the first `k` of `pins` have painted themselves, one
/// after the other: each into the rectangle where it is held, sized by
/// what it asks for in the room it has. A view without room is left out.
pub open spec fn pinned(pins: Seq<Pin>, within: Rect, grid: Seq<Seq<CellView>>, k: int) -> Seq<
    Seq<CellView>,
>
    decreases pins, k,
{
    if k <= 0 || k > pins.len() {
        grid
    } else {
        let below = pinned(pins, within, grid, k - 1);
        let pin = pins[k - 1];
        match pin.origin.room(within.dimensions) {
            Some(room) => pin.item.paints(pin.origin.placed(pin.item.wants(room), within), below),
            None => below,
        }
    }
}

impl PinBoard {
    pub fn new(width: Sizing, height: Sizing) -> (board: Self)
        ensures
            board.width == width,
            board.height == height,
            board.border.is_none(),
            board.fill.is_none(),
            board.pins@.len() == 0,
    {
        Self { width, height, border: None, fill: None, pins: Vec::new() }
    }

    /// The board with a border.
    pub fn borders(self, line: LineStyle) -> (board: Self)
        ensures
            board.width == self.width,
            board.height == self.height,
            board.border == Some(line),
            board.fill == self.fill,
            board.pins == self.pins,
    {
        let mut board = self;
        board.border = Some(line);
        board
    }

    /// The board with a filled ground.
    pub fn fill(self, fill: FillStyle) -> (board: Self)
        ensures
            board.width == self.width,
            board.height == self.height,
            board.border == self.border,
            board.fill == Some(fill),
            board.pins == self.pins,
    {
        let mut board = self;
        board.fill = Some(fill);
        board
    }

    /// The board with `item` pinned on top of what is there.
    pub fn add(self, origin: PinOrigin, item: Widget) -> (board: Self)
        ensures
            board.width == self.width,
            board.height == self.height,
            board.border == self.border,
            board.fill == self.fill,
            board.pins@.len() == self.pins@.len() + 1,
            forall|i: int| 0 <= i < self.pins@.len() ==> board.pins@[i] == self.pins@[i],
            board.pins@.last().origin == origin,
            *board.pins@.last().item == item,
    {
        let mut board = self;
        board.pins.push(Pin::new(origin, item));
        board
    }

    /// The board with `item` pinned on top of what is there, if `check`
    /// is set.
    pub fn maybe_add(self, check: bool, origin: PinOrigin, item: Widget) -> (board: Self)
        ensures
            board.width == self.width,
            board.height == self.height,
            board.border == self.border,
            board.fill == self.fill,
            !check ==> board.pins@ == self.pins@,
            check ==> {
                &&& board.pins@.len() == self.pins@.len() + 1
                &&& forall|i: int| 0 <= i < self.pins@.len() ==> board.pins@[i] == self.pins@[i]
                &&& board.pins@.last().origin == origin
                &&& *board.pins@.last().item == item
            },
    {
        let mut board = self;
        if check {
            board.pins.push(Pin::new(origin, item));
        }
        board
    }

    /// What the board was told to ask for.
    pub open spec fn wants(&self, bounds: Dimensions) -> Constraints {
        Constraints { width: self.width, height: self.height }
    }

    /// First the fill and the border, then the pinned views one after
    /// the other on what lies inside the border, later ones over earlier
    /// ones.
    pub open spec fn paints(&self, within: Rect, grid: Seq<Seq<CellView>>) -> Seq<Seq<CellView>>
        decreases self, 0int,
    {
        pinned(
            self.pins@,
            interior(within, self.border),
            decorated(grid, within, self.border, self.fill),
            self.pins@.len() as int,
        )
    }

    pub fn sizing(&self, bounds: &Dimensions) -> (c: Constraints)
        ensures
            c == self.wants(*bounds),
    {
        Constraints { width: self.width, height: self.height }
    }

    pub fn render(&self, within: &Rect, buffer: &mut Buffer)
        requires
            old(buffer).wf(),
            within.within(old(buffer).area()),
        ensures
            final(buffer).wf(),
            final(buffer).dimensions == old(buffer).dimensions,
            final(buffer)@ == self.paints(*within, old(buffer)@),
        decreases self, 0int,
    {
        let inner = decorate(buffer, within, &self.border, &self.fill);
        let ghost ground = buffer@;
        let mut i: usize = 0;
        while i < self.pins.len()
            invariant
                i <= self.pins.len(),
                buffer.wf(),
                buffer.dimensions == old(buffer).dimensions,
                inner.within(buffer.area()),
                buffer@ == pinned(self.pins@, inner, ground, i as int),
            decreases self.pins.len() - i,
        {
            let pin = &self.pins[i];
            match pin.origin.space(&inner.dimensions) {
                Some(room) => {
                    proof {
                        assert(decreases_to!(*self => self.pins));
                        assert(decreases_to!(self.pins => self.pins@));
                        assert(decreases_to!(self.pins@ => self.pins@[i as int]));
                        assert(decreases_to!(self.pins@[i as int] => self.pins@[i as int].item));
                    }
                    let constraints = pin.item.sizing(&room);
                    let rect = pin.origin.place(&constraints, &inner);
                    pin.item.render(&rect, buffer);
                },
                None => {},
            }
            i += 1;
        }
    }
}

} // verus!
