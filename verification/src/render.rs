//! The differ: given the previously displayed frame and the newly computed
//! one, produce the minimal sequence of terminal writes that brings the
//! display up to date, or a full clear-and-repaint when forced.
//!
//! The differ itself touches no device. It returns a [`RenderPlan`], the
//! exact list of commands one render pass asks of the terminal; the binary
//! around this crate replays the plan on the real device and flushes once.

use vstd::prelude::*;
use crate::frame::{cell_at, Frame, NUM_COLS, NUM_ROWS};

verus! {

/// One terminal write: move the cursor to column `x`, row `y`, then put `ch`.
#[derive(Clone, Copy, Debug, PartialEq, Eq, Structural)]
pub struct CellWrite {
    pub x: usize,
    pub y: usize,
    pub ch: char,
}

/// Everything one render pass asks of the terminal, in order: a full
/// background clear first if `clear` is set, then the cell writes, then a
/// single flush.
pub struct RenderPlan {
    pub clear: bool,
    pub writes: Vec<CellWrite>,
}

/// Does a pass from `last` to `curr` touch cell (x, y)?
pub open spec fn cell_needs_write(
    last: Seq<Seq<char>>,
    curr: Seq<Seq<char>>,
    force: bool,
    x: int,
    y: int,
) -> bool {
    force || cell_at(curr, x, y) != cell_at(last, x, y)
}

/// The write a pass from `last` to `curr` makes at cell (x, y): the
/// cursor moves there and `curr`'s character is put.
pub open spec fn write_at(curr: Seq<Seq<char>>, x: int, y: int) -> CellWrite {
    CellWrite { x: x as usize, y: y as usize, ch: cell_at(curr, x, y) }
}

/// The writes for column `x`, rows `0 .. n_rows`, in row order.
pub open spec fn column_writes(
    last: Seq<Seq<char>>,
    curr: Seq<Seq<char>>,
    force: bool,
    x: int,
    n_rows: int,
) -> Seq<CellWrite>
    decreases n_rows,
{
    if n_rows <= 0 {
        Seq::empty()
    } else {
        let pre = column_writes(last, curr, force, x, n_rows - 1);
        if cell_needs_write(last, curr, force, x, n_rows - 1) {
            pre.push(write_at(curr, x, n_rows - 1))
        } else {
            pre
        }
    }
}

/// The writes for columns `0 .. n_cols`, whole columns in column order:
/// raster order, columns outermost.
pub open spec fn grid_writes(
    last: Seq<Seq<char>>,
    curr: Seq<Seq<char>>,
    force: bool,
    n_cols: int,
) -> Seq<CellWrite>
    decreases n_cols,
{
    if n_cols <= 0 {
        Seq::empty()
    } else {
        grid_writes(last, curr, force, n_cols - 1)
            + column_writes(last, curr, force, n_cols - 1, NUM_ROWS as int)
    }
}

/// The full write list of one pass from `last` to `curr`.
pub open spec fn plan_writes(last: Seq<Seq<char>>, curr: Seq<Seq<char>>, force: bool) -> Seq<
    CellWrite,
> {
    grid_writes(last, curr, force, NUM_COLS as int)
}

/// Reconcile the previously displayed frame with the newly computed one.
///
/// Walks every cell in raster order and emits a write exactly where the two
/// frames differ, or everywhere when `force` is set; `force` also asks for
/// the full background clear that precedes the writes. Neither frame is
/// mutated.
pub fn render(last_frame: &Frame, curr_frame: &Frame, force: bool) -> (plan: RenderPlan)
    requires
        last_frame.wf(),
        curr_frame.wf(),
    ensures
        plan.clear == force,
        plan.writes@ == plan_writes(last_frame@, curr_frame@, force),
{
    let mut writes: Vec<CellWrite> = Vec::new();
    let mut x: usize = 0;
    while x < NUM_COLS
        invariant
            last_frame.wf(),
            curr_frame.wf(),
            x <= NUM_COLS,
            writes@ == grid_writes(last_frame@, curr_frame@, force, x as int),
        decreases NUM_COLS - x,
    {
        proof {
            assert(writes@ =~= grid_writes(last_frame@, curr_frame@, force, x as int)
                + column_writes(last_frame@, curr_frame@, force, x as int, 0));
        }
        let mut y: usize = 0;
        while y < NUM_ROWS
            invariant
                last_frame.wf(),
                curr_frame.wf(),
                x < NUM_COLS,
                y <= NUM_ROWS,
                writes@ == grid_writes(last_frame@, curr_frame@, force, x as int)
                    + column_writes(last_frame@, curr_frame@, force, x as int, y as int),
            decreases NUM_ROWS - y,
        {
            let c = curr_frame.get(x, y);
            if force || c != last_frame.get(x, y) {
                writes.push(CellWrite { x, y, ch: c });
            }
            y += 1;
            proof {
                assert(writes@ =~= grid_writes(last_frame@, curr_frame@, force, x as int)
                    + column_writes(last_frame@, curr_frame@, force, x as int, y as int));
            }
        }
        x += 1;
        proof {
            assert(writes@ =~= grid_writes(last_frame@, curr_frame@, force, x as int));
        }
    }
    RenderPlan { clear: force, writes }
}

proof fn lemma_column_noop(f: Seq<Seq<char>>, x: int, n: int)
    requires
        0 <= n,
    ensures
        column_writes(f, f, false, x, n).len() == 0,
    decreases n,
{
    if n > 0 {
        lemma_column_noop(f, x, n - 1);
    }
}

proof fn lemma_grid_noop(f: Seq<Seq<char>>, n: int)
    requires
        0 <= n,
    ensures
        grid_writes(f, f, false, n).len() == 0,
    decreases n,
{
    if n > 0 {
        lemma_grid_noop(f, n - 1);
        lemma_column_noop(f, n - 1, NUM_ROWS as int);
    }
}

/// A pass from a frame to an identical frame, unforced, issues no write at
/// all: the plan is empty but for the single final flush.
pub proof fn lemma_noop_diff(f: Seq<Seq<char>>)
    ensures
        plan_writes(f, f, false) == Seq::<CellWrite>::empty(),
{
    lemma_grid_noop(f, NUM_COLS as int);
    assert(plan_writes(f, f, false) =~= Seq::<CellWrite>::empty());
}

proof fn lemma_column_force(last: Seq<Seq<char>>, curr: Seq<Seq<char>>, x: int, n: int)
    requires
        0 <= x,
        0 <= n <= NUM_ROWS,
    ensures
        column_writes(last, curr, true, x, n).len() == n,
        forall|y: int| 0 <= y < n ==> column_writes(last, curr, true, x, n)[y] == write_at(curr, x, y),
    decreases n,
{
    if n > 0 {
        lemma_column_force(last, curr, x, n - 1);
        let pre = column_writes(last, curr, true, x, n - 1);
        let s = column_writes(last, curr, true, x, n);
        assert(s =~= pre.push(write_at(curr, x, n - 1)));
        assert forall|y: int| 0 <= y < n implies s[y] == write_at(curr, x, y) by {
            if y < n - 1 {
                assert(s[y] == pre[y]);
            } else {
                assert(s[y] == write_at(curr, x, n - 1));
            }
        }
    }
}

proof fn lemma_grid_force(last: Seq<Seq<char>>, curr: Seq<Seq<char>>, n: int)
    requires
        0 <= n <= NUM_COLS,
    ensures
        grid_writes(last, curr, true, n).len() == n * NUM_ROWS,
        forall|x: int, y: int|
            0 <= x < n && 0 <= y < NUM_ROWS ==> grid_writes(last, curr, true, n)[x * NUM_ROWS + y]
                == write_at(curr, x, y),
    decreases n,
{
    assert(NUM_ROWS == 20);
    if n > 0 {
        lemma_grid_force(last, curr, n - 1);
        lemma_column_force(last, curr, n - 1, NUM_ROWS as int);
        let pre = grid_writes(last, curr, true, n - 1);
        let col = column_writes(last, curr, true, n - 1, NUM_ROWS as int);
        let s = grid_writes(last, curr, true, n);
        assert(s =~= pre + col);
        assert forall|x: int, y: int| 0 <= x < n && 0 <= y < NUM_ROWS implies s[x * NUM_ROWS + y]
            == write_at(curr, x, y) by {
            if x < n - 1 {
                assert(x * NUM_ROWS + y < (n - 1) * NUM_ROWS) by (nonlinear_arith)
                    requires
                        0 <= x < n - 1,
                        0 <= y < NUM_ROWS,
                ;
                assert(s[x * NUM_ROWS + y] == pre[x * NUM_ROWS + y]);
            } else {
                assert(x == n - 1);
                assert(x * NUM_ROWS + y - pre.len() == y);
                assert(s[x * NUM_ROWS + y] == col[y]);
            }
        }
    }
}

/// A forced pass repaints everything: the plan holds one write for every
/// cell of the grid, in raster order (columns outermost), each carrying the
/// new frame's character — whatever the previous frame held.
pub proof fn lemma_forced_repaint(last: Seq<Seq<char>>, curr: Seq<Seq<char>>)
    ensures
        plan_writes(last, curr, true).len() == NUM_COLS * NUM_ROWS,
        forall|x: int, y: int|
            0 <= x < NUM_COLS && 0 <= y < NUM_ROWS ==> plan_writes(last, curr, true)[x * NUM_ROWS
                + y] == write_at(curr, x, y),
{
    lemma_grid_force(last, curr, NUM_COLS as int);
}

proof fn lemma_column_exact(last: Seq<Seq<char>>, curr: Seq<Seq<char>>, force: bool, x: int, n: int)
    requires
        0 <= x,
        0 <= n <= NUM_ROWS,
    ensures
        forall|k: int|
            0 <= k < column_writes(last, curr, force, x, n).len() ==> (#[trigger] column_writes(
                last,
                curr,
                force,
                x,
                n,
            )[k]).x == x as usize && (column_writes(last, curr, force, x, n)[k].y as int) < n
                && column_writes(last, curr, force, x, n)[k] == write_at(
                curr,
                x,
                column_writes(last, curr, force, x, n)[k].y as int,
            ) && cell_needs_write(
                last,
                curr,
                force,
                x,
                column_writes(last, curr, force, x, n)[k].y as int,
            ),
        forall|y: int|
            0 <= y < n && cell_needs_write(last, curr, force, x, y) ==> column_writes(
                last,
                curr,
                force,
                x,
                n,
            ).contains(write_at(curr, x, y)),
        forall|i: int, j: int|
            0 <= i < j < column_writes(last, curr, force, x, n).len() ==> (#[trigger] column_writes(
                last,
                curr,
                force,
                x,
                n,
            )[i]).y < (#[trigger] column_writes(last, curr, force, x, n)[j]).y,
    decreases n,
{
    if n > 0 {
        lemma_column_exact(last, curr, force, x, n - 1);
        let pre = column_writes(last, curr, force, x, n - 1);
        let s = column_writes(last, curr, force, x, n);
        if cell_needs_write(last, curr, force, x, n - 1) {
            let e = write_at(curr, x, n - 1);
            assert(s =~= pre.push(e));
            assert(s[pre.len() as int] == e);
            assert forall|y: int| 0 <= y < n && cell_needs_write(last, curr, force, x, y)
                implies s.contains(write_at(curr, x, y)) by {
                if y < n - 1 {
                    assert(pre.contains(write_at(curr, x, y)));
                    let k = choose|k: int| 0 <= k < pre.len() && pre[k] == write_at(curr, x, y);
                    assert(s[k] == write_at(curr, x, y));
                } else {
                    assert(s[pre.len() as int] == write_at(curr, x, y));
                }
            }
            assert forall|k: int| 0 <= k < s.len() implies (#[trigger] s[k]).x == x as usize && (
            s[k].y as int) < n && s[k] == write_at(curr, x, s[k].y as int) && cell_needs_write(
                last,
                curr,
                force,
                x,
                s[k].y as int,
            ) by {
                if k < pre.len() {
                    assert(s[k] == pre[k]);
                } else {
                    assert(s[k] == e);
                }
            }
            assert forall|i: int, j: int| 0 <= i < j < s.len() implies (#[trigger] s[i]).y
                < (#[trigger] s[j]).y by {
                if j < pre.len() {
                    assert(s[i] == pre[i] && s[j] == pre[j]);
                } else {
                    assert(s[j] == e);
                    assert(s[i] == pre[i]);
                    assert((pre[i].y as int) < n - 1);
                }
            }
        } else {
            assert(s =~= pre);
        }
    }
}

proof fn lemma_grid_exact(last: Seq<Seq<char>>, curr: Seq<Seq<char>>, force: bool, n: int)
    requires
        0 <= n <= NUM_COLS,
    ensures
        forall|k: int|
            0 <= k < grid_writes(last, curr, force, n).len() ==> ((#[trigger] grid_writes(
                last,
                curr,
                force,
                n,
            )[k]).x as int) < n && (grid_writes(last, curr, force, n)[k].y as int) < NUM_ROWS
                && grid_writes(last, curr, force, n)[k] == write_at(
                curr,
                grid_writes(last, curr, force, n)[k].x as int,
                grid_writes(last, curr, force, n)[k].y as int,
            ) && cell_needs_write(
                last,
                curr,
                force,
                grid_writes(last, curr, force, n)[k].x as int,
                grid_writes(last, curr, force, n)[k].y as int,
            ),
        forall|x: int, y: int|
            0 <= x < n && 0 <= y < NUM_ROWS && cell_needs_write(last, curr, force, x, y)
                ==> grid_writes(last, curr, force, n).contains(write_at(curr, x, y)),
        forall|i: int, j: int|
            0 <= i < j < grid_writes(last, curr, force, n).len() ==> (#[trigger] grid_writes(
                last,
                curr,
                force,
                n,
            )[i]).x < (#[trigger] grid_writes(last, curr, force, n)[j]).x || (grid_writes(
                last,
                curr,
                force,
                n,
            )[i].x == grid_writes(last, curr, force, n)[j].x && grid_writes(
                last,
                curr,
                force,
                n,
            )[i].y < grid_writes(last, curr, force, n)[j].y),
    decreases n,
{
    if n > 0 {
        lemma_grid_exact(last, curr, force, n - 1);
        lemma_column_exact(last, curr, force, n - 1, NUM_ROWS as int);
        let pre = grid_writes(last, curr, force, n - 1);
        let col = column_writes(last, curr, force, n - 1, NUM_ROWS as int);
        let s = grid_writes(last, curr, force, n);
        assert(s =~= pre + col);
        assert forall|k: int| 0 <= k < s.len() implies ((#[trigger] s[k]).x as int) < n && (
        s[k].y as int) < NUM_ROWS && s[k] == write_at(curr, s[k].x as int, s[k].y as int)
            && cell_needs_write(last, curr, force, s[k].x as int, s[k].y as int) by {
            if k < pre.len() {
                assert(s[k] == pre[k]);
            } else {
                assert(s[k] == col[k - pre.len()]);
            }
        }
        assert forall|x: int, y: int|
            0 <= x < n && 0 <= y < NUM_ROWS && cell_needs_write(last, curr, force, x, y)
            implies s.contains(write_at(curr, x, y)) by {
            if x < n - 1 {
                assert(pre.contains(write_at(curr, x, y)));
                let k = choose|k: int| 0 <= k < pre.len() && pre[k] == write_at(curr, x, y);
                assert(s[k] == write_at(curr, x, y));
            } else {
                assert(col.contains(write_at(curr, x, y)));
                let k = choose|k: int| 0 <= k < col.len() && col[k] == write_at(curr, x, y);
                assert(s[pre.len() + k] == write_at(curr, x, y));
            }
        }
        assert forall|i: int, j: int| 0 <= i < j < s.len() implies (#[trigger] s[i]).x
            < (#[trigger] s[j]).x || (s[i].x == s[j].x && s[i].y < s[j].y) by {
            if j < pre.len() {
                assert(s[i] == pre[i] && s[j] == pre[j]);
            } else if i >= pre.len() {
                assert(s[i] == col[i - pre.len()] && s[j] == col[j - pre.len()]);
            } else {
                assert(s[i] == pre[i] && s[j] == col[j - pre.len()]);
                assert((s[i].x as int) < n - 1);
                assert(s[j].x == (n - 1) as usize);
            }
        }
    }
}

/// The pass is the exact minimal diff: a write appears for a cell if and
/// only if `force` is set or the two frames disagree there; it carries the
/// new frame's character; and the writes come in strict raster order, so
/// each such cell is written exactly once and no other cell is touched.
pub proof fn lemma_minimal_diff(last: Seq<Seq<char>>, curr: Seq<Seq<char>>, force: bool)
    ensures
        forall|k: int|
            0 <= k < plan_writes(last, curr, force).len() ==> ((#[trigger] plan_writes(
                last,
                curr,
                force,
            )[k]).x as int) < NUM_COLS && (plan_writes(last, curr, force)[k].y as int) < NUM_ROWS
                && plan_writes(last, curr, force)[k] == write_at(
                curr,
                plan_writes(last, curr, force)[k].x as int,
                plan_writes(last, curr, force)[k].y as int,
            ) && cell_needs_write(
                last,
                curr,
                force,
                plan_writes(last, curr, force)[k].x as int,
                plan_writes(last, curr, force)[k].y as int,
            ),
        forall|x: int, y: int|
            0 <= x < NUM_COLS && 0 <= y < NUM_ROWS && cell_needs_write(last, curr, force, x, y)
                ==> plan_writes(last, curr, force).contains(write_at(curr, x, y)),
        forall|i: int, j: int|
            0 <= i < j < plan_writes(last, curr, force).len() ==> (#[trigger] plan_writes(
                last,
                curr,
                force,
            )[i]).x < (#[trigger] plan_writes(last, curr, force)[j]).x || (plan_writes(
                last,
                curr,
                force,
            )[i].x == plan_writes(last, curr, force)[j].x && plan_writes(last, curr, force)[i].y
                < plan_writes(last, curr, force)[j].y),
{
    lemma_grid_exact(last, curr, force, NUM_COLS as int);
}

} // verus!
