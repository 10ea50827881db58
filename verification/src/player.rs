//! The player entity: a horizontal position counter bounded by the grid
//! width, and its `Drawable` stamp.

use vstd::prelude::*;
use crate::frame::{Drawable, Frame, NUM_COLS, NUM_ROWS};

verus! {

/// The glyph the player stamps onto a frame.
pub const PLAYER_GLYPH: char = 'A';

/// The player: a single horizontal position on the bottom row, mutated only
/// by the game loop in response to input events.
pub struct Player {
    x: usize,
    y: usize,
}

impl Player {
    /// The column the player stands in.
    pub closed spec fn col(&self) -> int {
        self.x as int
    }

    /// The row the player stands in.
    pub closed spec fn row(&self) -> int {
        self.y as int
    }

    /// The position lies on the grid.
    pub open spec fn wf(&self) -> bool {
        0 <= self.col() < NUM_COLS && 0 <= self.row() < NUM_ROWS
    }

    /// A player standing at the middle of the bottom row.
    pub fn new() -> (p: Player)
        ensures
            p.wf(),
            p.col() == NUM_COLS as int / 2,
            p.row() == NUM_ROWS as int - 1,
    {
        Player { x: NUM_COLS / 2, y: NUM_ROWS - 1 }
    }

    /// The column the player stands in, as a grid coordinate.
    pub fn column(&self) -> (c: usize)
        ensures
            c as int == self.col(),
    {
        self.x
    }

    /// The row the player stands in, as a grid coordinate.
    pub fn row_index(&self) -> (r: usize)
        ensures
            r as int == self.row(),
    {
        self.y
    }

    /// Move one column to the left; at the leftmost column, stay put.
    pub fn move_left(&mut self)
        requires
            old(self).wf(),
        ensures
            final(self).wf(),
            final(self).row() == old(self).row(),
            final(self).col() == if old(self).col() == 0 {
                0int
            } else {
                old(self).col() - 1
            },
    {
        if self.x > 0 {
            self.x = self.x - 1;
        }
    }

    /// Move one column to the right; at the rightmost column, stay put.
    pub fn move_right(&mut self)
        requires
            old(self).wf(),
        ensures
            final(self).wf(),
            final(self).row() == old(self).row(),
            final(self).col() == if old(self).col() == NUM_COLS as int - 1 {
                NUM_COLS as int - 1
            } else {
                old(self).col() + 1
            },
    {
        if self.x < NUM_COLS - 1 {
            self.x = self.x + 1;
        }
    }
}

impl Drawable for Player {
    open spec fn valid(&self) -> bool {
        self.wf()
    }

    /// Drawing writes the player glyph at (col, row) and nothing else.
    open spec fn drawn(&self, before: Seq<Seq<char>>, after: Seq<Seq<char>>) -> bool {
        after == before.update(self.col(), before[self.col()].update(self.row(), PLAYER_GLYPH))
    }

    fn draw(&self, frame: &mut Frame) {
        frame.set(self.x, self.y, PLAYER_GLYPH);
    }
}

} // verus!
