//! The frame on the screen: what is shown now, and what has to be
//! written to show the next frame. Writing to the terminal itself is
//! left to the caller.

use crate::buffer::{blank_grid, Buffer};
use crate::diff::{grid_changes, DiffResult};
use crate::values::Dimensions;
use vstd::prelude::*;

verus! {

/// What a terminal can report. It reports nothing yet: the type has no
/// value.
pub type TerminalEvent = core::convert::Infallible;

/// The frame that the terminal shows.
#[derive(Debug)]
pub struct Screen {
    pub buffer: Buffer,
}

/// The size of a terminal of `cols` columns and `rows` rows.
pub open spec fn size_of(cols: u16, rows: u16) -> Dimensions {
    Dimensions { width: cols as usize, height: rows as usize }
}

impl Screen {
    /// Whether the frame is a proper grid.
    pub open spec fn wf(&self) -> bool {
        self.buffer.wf()
    }

    /// The blank screen of a terminal of `cols` columns and `rows` rows.
    pub fn new(cols: u16, rows: u16) -> (screen: Self)
        ensures
            screen.wf(),
            screen.buffer.dimensions == size_of(cols, rows),
            screen.buffer@ == blank_grid(size_of(cols, rows)),
    {
        Screen { buffer: Self::prepare_buffer(cols, rows) }
    }

    /// A blank buffer for the next frame of a terminal of `cols` columns
    /// and `rows` rows.
    pub fn prepare_buffer(cols: u16, rows: u16) -> (buffer: Buffer)
        ensures
            buffer.wf(),
            buffer.dimensions == size_of(cols, rows),
            buffer@ == blank_grid(size_of(cols, rows)),
    {
        Buffer::new(Dimensions::new(cols as usize, rows as usize))
    }

    /// Takes note of the size of the terminal. If it is not the size of
    /// the frame, the screen counts as blank at the new size, and the
    /// answer is `true`: the next frame has to be painted for that size.
    pub fn resize(&mut self, cols: u16, rows: u16) -> (resized: bool)
        ensures
            resized == (old(self).buffer.dimensions != size_of(cols, rows)),
            !resized ==> *final(self) == *old(self),
            resized ==> {
                &&& final(self).wf()
                &&& final(self).buffer.dimensions == size_of(cols, rows)
                &&& final(self).buffer@ == blank_grid(size_of(cols, rows))
            },
    {
        if cols as usize != self.buffer.dimensions.width || rows as usize
            != self.buffer.dimensions.height {
            self.buffer = Self::prepare_buffer(cols, rows);
            true
        } else {
            false
        }
    }

    /// Compares the frame on the screen with `updates`, the frame to show
    /// next, and says what has to be written. Where cells have changed
    /// the new frame takes the place of the old one: the caller writes
    /// the listed cells in their order. Where nothing has changed, or
    /// where the new frame is not of the screen's size, the old frame
    /// stays, and nothing is to be written.
    pub fn update(&mut self, updates: Buffer) -> (result: DiffResult)
        requires
            old(self).wf(),
            updates.wf(),
        ensures
            final(self).wf(),
            result is Invalid <==> old(self).buffer.dimensions != updates.dimensions,
            result is NoChange <==> old(self).buffer.dimensions == updates.dimensions && old(
                self,
            ).buffer@ == updates@,
            result is Changed ==> result.changes() == grid_changes(
                old(self).buffer@,
                updates@,
                updates.dimensions.width as int,
                updates.dimensions.height as int,
            ),
            result is Changed ==> final(self).buffer == updates,
            !(result is Changed) ==> final(self).buffer == old(self).buffer,
    {
        let result = self.buffer.diff(&updates);
        match result {
            DiffResult::Changed(_) => {
                self.buffer = updates;
            },
            _ => {},
        }
        result
    }
}

} // verus!
