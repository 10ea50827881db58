//! The frame data model: a fixed-size character grid, and the capability
//! of stamping an entity onto one.

use vstd::prelude::*;

verus! {

use vstd::pervasive::VecAdditionalExecFns;

/// Number of character columns in every frame.
pub const NUM_COLS: usize = 40;

/// Number of character rows in every frame.
pub const NUM_ROWS: usize = 20;

/// The sentinel a cell holds before anything is drawn into it.
pub const BLANK: char = ' ';

/// The grid every fresh frame starts from: all cells blank.
pub open spec fn blank_grid() -> Seq<Seq<char>> {
    Seq::new(NUM_COLS as nat, |x: int| Seq::new(NUM_ROWS as nat, |y: int| BLANK))
}

/// A grid has exactly `NUM_COLS` columns of `NUM_ROWS` cells each.
pub open spec fn wf_grid(g: Seq<Seq<char>>) -> bool {
    &&& g.len() == NUM_COLS
    &&& forall|x: int| 0 <= x < NUM_COLS ==> (#[trigger] g[x]).len() == NUM_ROWS
}

/// The character a grid holds at column `x`, row `y`.
pub open spec fn cell_at(g: Seq<Seq<char>>, x: int, y: int) -> char {
    g[x][y]
}

/// A complete snapshot of the terminal's character grid for one tick.
///
/// Cells are addressed column first: the cell at column `x`, row `y` is
/// `self@[x][y]`. Every frame in the system has the same fixed dimensions;
/// diffing two frames is meaningful only because of that invariant.
pub struct Frame {
    cells: Vec<Vec<char>>,
}

impl View for Frame {
    type V = Seq<Seq<char>>;

    closed spec fn view(&self) -> Seq<Seq<char>> {
        Seq::new(self.cells@.len(), |x: int| self.cells@[x]@)
    }
}

impl Frame {
    /// The frame has the fixed dimensions shared by every frame.
    pub open spec fn wf(&self) -> bool {
        wf_grid(self@)
    }

    /// Read the cell at column `x`, row `y`.
    pub fn get(&self, x: usize, y: usize) -> (c: char)
        requires
            self.wf(),
            x < NUM_COLS,
            y < NUM_ROWS,
        ensures
            c == self@[x as int][y as int],
    {
        proof {
            assert(self.cells@.len() == self@.len());
            assert(self.cells@[x as int]@ == self@[x as int]);
        }
        self.cells[x][y]
    }

    /// Write `c` into the cell at column `x`, row `y`, overwriting
    /// whatever was there.
    pub fn set(&mut self, x: usize, y: usize, c: char)
        requires
            old(self).wf(),
            x < NUM_COLS,
            y < NUM_ROWS,
        ensures
            final(self).wf(),
            final(self)@ == old(self)@.update(
                x as int,
                old(self)@[x as int].update(y as int, c),
            ),
    {
        proof {
            assert(old(self).cells@.len() == old(self)@.len());
            assert(old(self).cells@[x as int]@ == old(self)@[x as int]);
        }
        let col: &mut Vec<char> = &mut self.cells[x];
        col.set(y, c);
        proof {
            let prev = old(self)@;
            assert(self@ =~= prev.update(x as int, prev[x as int].update(y as int, c)));
        }
    }

    /// A fresh frame with the same cells.
    pub fn duplicate(&self) -> (f: Frame)
        requires
            self.wf(),
        ensures
            f.wf(),
            f@ == self@,
    {
        let mut cells: Vec<Vec<char>> = Vec::new();
        let mut x: usize = 0;
        while x < NUM_COLS
            invariant
                self.wf(),
                x <= NUM_COLS,
                cells@.len() == x,
                forall|i: int| 0 <= i < x ==> (#[trigger] cells@[i])@ == self@[i],
            decreases NUM_COLS - x,
        {
            let mut col: Vec<char> = Vec::new();
            let mut y: usize = 0;
            while y < NUM_ROWS
                invariant
                    self.wf(),
                    x < NUM_COLS,
                    y <= NUM_ROWS,
                    col@.len() == y,
                    forall|j: int| 0 <= j < y ==> col@[j] == self@[x as int][j],
                decreases NUM_ROWS - y,
            {
                col.push(self.get(x, y));
                y += 1;
            }
            proof {
                assert(col@ =~= self@[x as int]);
            }
            cells.push(col);
            x += 1;
        }
        let f = Frame { cells };
        proof {
            assert(f@ =~= self@);
        }
        f
    }
}

/// A frame with every cell set to the blank sentinel. Pure construction;
/// the producer starts every tick from one of these.
pub fn new_frame() -> (f: Frame)
    ensures
        f.wf(),
        f@ == blank_grid(),
{
    let mut cells: Vec<Vec<char>> = Vec::new();
    let mut x: usize = 0;
    while x < NUM_COLS
        invariant
            x <= NUM_COLS,
            cells@.len() == x,
            forall|i: int| 0 <= i < x ==> (#[trigger] cells@[i])@ == blank_grid()[i],
        decreases NUM_COLS - x,
    {
        let mut col: Vec<char> = Vec::new();
        let mut y: usize = 0;
        while y < NUM_ROWS
            invariant
                x < NUM_COLS,
                y <= NUM_ROWS,
                col@.len() == y,
                forall|j: int| 0 <= j < y ==> col@[j] == BLANK,
            decreases NUM_ROWS - y,
        {
            col.push(BLANK);
            y += 1;
        }
        proof {
            assert(col@ =~= blank_grid()[x as int]);
        }
        cells.push(col);
        x += 1;
    }
    let f = Frame { cells };
    proof {
        assert(f@ =~= blank_grid());
    }
    f
}

/// The capability of a game entity to stamp its glyphs onto a frame.
///
/// An implementor says, as `drawn`, how a grid after its one mutation call
/// relates to the grid before, and `draw` is held to exactly that relation.
pub trait Drawable {
    /// The entity is in a state from which it may draw.
    spec fn valid(&self) -> bool;

    /// How the grid after drawing relates to the grid before.
    spec fn drawn(&self, before: Seq<Seq<char>>, after: Seq<Seq<char>>) -> bool;

    /// Stamp this entity onto `frame`, overwriting whatever was there.
    fn draw(&self, frame: &mut Frame)
        requires
            self.valid(),
            old(frame).wf(),
        ensures
            final(frame).wf(),
            self.drawn(old(frame)@, final(frame)@),
    ;
}

} // verus!
