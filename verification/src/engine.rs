//! Loop coordination: the per-tick decisions of the producer (game) thread
//! and the whole run of the consumer (render) thread.
//!
//! The producer polls input, moves the player, builds a frame and sends it
//! over an ordered channel; the consumer receives frames one by one, diffs
//! each against the last one it rendered, and stops when the channel
//! closes. Everything the two loops decide is here; the binary around this
//! crate only performs the I/O those decisions ask for.

use vstd::prelude::*;
use crate::frame::{blank_grid, new_frame, Drawable, Frame, NUM_COLS};
use crate::player::Player;
use crate::render::{plan_writes, render, RenderPlan};

verus! {

/// A key symbol decoded from the input source. Unrecognized keys arrive as
/// `Other` and are ignored.
#[derive(Clone, Copy, Debug, PartialEq, Eq, Structural)]
pub enum InputEvent {
    MoveLeft,
    MoveRight,
    Quit,
    Other,
}

/// The player's column after one input symbol: movement clamped to the
/// grid, anything else leaves it where it was.
pub open spec fn col_after_event(col: int, ev: InputEvent) -> int {
    match ev {
        InputEvent::MoveLeft => if col == 0 {
            0
        } else {
            col - 1
        },
        InputEvent::MoveRight => if col == NUM_COLS - 1 {
            col
        } else {
            col + 1
        },
        _ => col,
    }
}

/// The player's column after a tick's input symbols, applied in order up
/// to — not past — the first quit.
pub open spec fn col_after_events(col: int, evs: Seq<InputEvent>) -> int
    decreases evs.len(),
{
    if evs.len() == 0 {
        col
    } else if evs[0] is Quit {
        col
    } else {
        col_after_events(col_after_event(col, evs[0]), evs.subrange(1, evs.len() as int))
    }
}

/// Does a tick's input batch ask to quit?
pub open spec fn quit_requested(evs: Seq<InputEvent>) -> bool {
    exists|i: int| 0 <= i < evs.len() && evs[i] is Quit
}

/// Drain one tick's decoded input symbols in order: move the player for
/// each movement symbol, stop at the first quit and leave the rest of the
/// batch unapplied. Reports whether quit was requested.
pub fn process_inputs(player: &mut Player, events: &Vec<InputEvent>) -> (quit: bool)
    requires
        old(player).wf(),
    ensures
        final(player).wf(),
        final(player).row() == old(player).row(),
        final(player).col() == col_after_events(old(player).col(), events@),
        quit == quit_requested(events@),
{
    let n = events.len();
    proof {
        assert(events@.subrange(0, n as int) =~= events@);
    }
    let mut i: usize = 0;
    while i < n
        invariant
            n == events@.len(),
            i <= n,
            player.wf(),
            player.row() == old(player).row(),
            col_after_events(old(player).col(), events@) == col_after_events(
                player.col(),
                events@.subrange(i as int, n as int),
            ),
            forall|j: int| 0 <= j < i ==> !((#[trigger] events@[j]) is Quit),
        decreases n - i,
    {
        proof {
            assert(events@.subrange(i as int, n as int)[0] == events@[i as int]);
            assert(events@.subrange(i as int, n as int).subrange(1, (n - i) as int)
                =~= events@.subrange(i as int + 1, n as int));
        }
        let ev = events[i];
        match ev {
            InputEvent::MoveLeft => {
                player.move_left();
            },
            InputEvent::MoveRight => {
                player.move_right();
            },
            InputEvent::Quit => {
                proof {
                    assert(events@[i as int] is Quit);
                }
                return true;
            },
            InputEvent::Other => {},
        }
        i += 1;
    }
    proof {
        assert(events@.subrange(n as int, n as int).len() == 0);
    }
    false
}

/// One tick's fresh frame: blank, then every entity stamped onto it.
pub fn build_frame(player: &Player) -> (f: Frame)
    requires
        player.wf(),
    ensures
        f.wf(),
        player.drawn(blank_grid(), f@),
{
    let mut f = new_frame();
    player.draw(&mut f);
    f
}

/// One producer tick: drain the tick's input symbols, then either report
/// the quit — no frame is sent in that case — or hand back the frame to
/// send, the blank grid with every entity drawn onto it.
pub fn game_tick(player: &mut Player, events: &Vec<InputEvent>) -> (out: Option<Frame>)
    requires
        old(player).wf(),
    ensures
        final(player).wf(),
        final(player).row() == old(player).row(),
        final(player).col() == col_after_events(old(player).col(), events@),
        out is None <==> quit_requested(events@),
        out matches Some(f) ==> f.wf() && final(player).drawn(blank_grid(), f@),
{
    let quit = process_inputs(player, events);
    if quit {
        None
    } else {
        Some(build_frame(player))
    }
}

/// The render thread's retained state: the one frame it last put on the
/// display, used only for diffing and never shared.
pub struct Renderer {
    last: Frame,
}

impl Renderer {
    /// The grid the renderer last put on the display.
    pub closed spec fn last_grid(&self) -> Seq<Seq<char>> {
        self.last@
    }

    /// The retained frame has the fixed dimensions.
    pub closed spec fn wf(&self) -> bool {
        self.last.wf()
    }

    /// Start of the render loop: a blank baseline, painted forcibly, so
    /// the display holds a known state before the first frame arrives.
    pub fn start() -> (r: (Renderer, RenderPlan))
        ensures
            r.0.wf(),
            r.0.last_grid() == blank_grid(),
            r.1.clear,
            r.1.writes@ == plan_writes(blank_grid(), blank_grid(), true),
    {
        let baseline = new_frame();
        let plan = render(&baseline, &baseline, true);
        (Renderer { last: baseline }, plan)
    }

    /// One step of the render loop: diff the received frame against the
    /// retained one, hand back the plan, retain the received frame.
    pub fn step(&mut self, frame: Frame) -> (plan: RenderPlan)
        requires
            old(self).wf(),
            frame.wf(),
        ensures
            final(self).wf(),
            final(self).last_grid() == frame@,
            !plan.clear,
            plan.writes@ == plan_writes(old(self).last_grid(), frame@, false),
    {
        let plan = render(&self.last, &frame, false);
        self.last = frame;
        plan
    }
}

/// The consumer's whole run: the plans it issues when the producer sends
/// exactly `frames`, in that order, and then closes the channel.
///
/// One plan per sent frame is issued after the forced baseline — none is
/// dropped or reordered before the consumer observes closure — and each
/// diff is taken against exactly the frame received just before it, the
/// blank baseline for the first.
pub fn run_consumer(frames: &Vec<Frame>) -> (plans: Vec<RenderPlan>)
    requires
        forall|k: int| 0 <= k < frames@.len() ==> (#[trigger] frames@[k]).wf(),
    ensures
        plans@.len() == frames@.len() + 1,
        plans@[0].clear,
        plans@[0].writes@ == plan_writes(blank_grid(), blank_grid(), true),
        forall|k: int| 1 <= k < plans@.len() ==> !((#[trigger] plans@[k]).clear),
        forall|k: int|
            1 <= k < plans@.len() ==> (#[trigger] plans@[k]).writes@ == plan_writes(
                if k == 1 {
                    blank_grid()
                } else {
                    frames@[k - 2]@
                },
                frames@[k - 1]@,
                false,
            ),
{
    let (start, first) = Renderer::start();
    let mut renderer = start;
    let mut plans: Vec<RenderPlan> = Vec::new();
    plans.push(first);
    let mut i: usize = 0;
    while i < frames.len()
        invariant
            forall|k: int| 0 <= k < frames@.len() ==> (#[trigger] frames@[k]).wf(),
            i <= frames@.len(),
            renderer.wf(),
            renderer.last_grid() == if i == 0 {
                blank_grid()
            } else {
                frames@[i - 1]@
            },
            plans@.len() == i + 1,
            plans@[0].clear,
            plans@[0].writes@ == plan_writes(blank_grid(), blank_grid(), true),
            forall|k: int| 1 <= k < plans@.len() ==> !((#[trigger] plans@[k]).clear),
            forall|k: int|
                1 <= k < plans@.len() ==> (#[trigger] plans@[k]).writes@ == plan_writes(
                    if k == 1 {
                        blank_grid()
                    } else {
                        frames@[k - 2]@
                    },
                    frames@[k - 1]@,
                    false,
                ),
        decreases frames@.len() - i,
    {
        let f = frames[i].duplicate();
        let plan = renderer.step(f);
        plans.push(plan);
        i += 1;
    }
    plans
}

} // verus!
