use invaders::engine::{game_tick, process_inputs, run_consumer, InputEvent, Renderer};
use invaders::frame::{new_frame, Frame, BLANK, NUM_COLS, NUM_ROWS};
use invaders::player::{Player, PLAYER_GLYPH};
use invaders::render::render;

fn frame_with(x: usize, y: usize, ch: char) -> Frame {
    let mut f = new_frame();
    f.set(x, y, ch);
    f
}

#[test]
fn identical_frames_unforced_issue_no_writes() {
    let f = frame_with(1, 2, 'X');
    let g = frame_with(1, 2, 'X');
    let plan = render(&f, &g, false);
    assert!(!plan.clear);
    assert_eq!(plan.writes.len(), 0);
}

#[test]
fn same_frame_twice_unforced_issues_no_writes() {
    let f = new_frame();
    let plan = render(&f, &f, false);
    assert!(!plan.clear);
    assert_eq!(plan.writes.len(), 0);
}

#[test]
fn forced_pass_clears_and_writes_every_cell() {
    let last = frame_with(0, 0, '#');
    let curr = frame_with(5, 19, 'A');
    let plan = render(&last, &curr, true);
    assert!(plan.clear);
    assert_eq!(plan.writes.len(), NUM_COLS * NUM_ROWS);
    for x in 0..NUM_COLS {
        for y in 0..NUM_ROWS {
            let w = &plan.writes[x * NUM_ROWS + y];
            assert_eq!(w.x, x);
            assert_eq!(w.y, y);
            assert_eq!(w.ch, curr.get(x, y));
        }
    }
    assert_eq!(plan.writes[5 * NUM_ROWS + 19].ch, 'A');
    assert_eq!(plan.writes[0].ch, BLANK);
}

#[test]
fn unforced_pass_writes_exactly_the_changed_cells() {
    let last = frame_with(5, 19, 'A');
    let curr = frame_with(6, 19, 'A');
    let plan = render(&last, &curr, false);
    assert!(!plan.clear);
    assert_eq!(plan.writes.len(), 2);
    assert_eq!(plan.writes[0].x, 5);
    assert_eq!(plan.writes[0].y, 19);
    assert_eq!(plan.writes[0].ch, BLANK);
    assert_eq!(plan.writes[1].x, 6);
    assert_eq!(plan.writes[1].y, 19);
    assert_eq!(plan.writes[1].ch, 'A');
}

#[test]
fn process_inputs_applies_moves_in_order() {
    let mut p = Player::new();
    let events = vec![InputEvent::MoveRight, InputEvent::Other, InputEvent::MoveRight];
    let quit = process_inputs(&mut p, &events);
    assert!(!quit);
    assert_eq!(p.column(), NUM_COLS / 2 + 2);
}

#[test]
fn process_inputs_stops_at_the_first_quit() {
    let mut p = Player::new();
    let events = vec![
        InputEvent::MoveLeft,
        InputEvent::MoveLeft,
        InputEvent::Quit,
        InputEvent::MoveRight,
    ];
    let quit = process_inputs(&mut p, &events);
    assert!(quit);
    assert_eq!(p.column(), NUM_COLS / 2 - 2);
}

#[test]
fn process_inputs_with_no_events_changes_nothing() {
    let mut p = Player::new();
    let events: Vec<InputEvent> = Vec::new();
    let quit = process_inputs(&mut p, &events);
    assert!(!quit);
    assert_eq!(p.column(), NUM_COLS / 2);
    assert_eq!(p.row_index(), NUM_ROWS - 1);
}

#[test]
fn game_tick_builds_the_frame_to_send() {
    let mut p = Player::new();
    let events = vec![InputEvent::MoveLeft];
    let out = game_tick(&mut p, &events);
    let f = out.expect("no quit was requested");
    assert_eq!(f.get(NUM_COLS / 2 - 1, NUM_ROWS - 1), PLAYER_GLYPH);
    assert_eq!(f.get(NUM_COLS / 2, NUM_ROWS - 1), BLANK);
}

#[test]
fn game_tick_reports_quit_and_sends_nothing() {
    let mut p = Player::new();
    let events = vec![InputEvent::MoveRight, InputEvent::Quit];
    let out = game_tick(&mut p, &events);
    assert!(out.is_none());
    assert_eq!(p.column(), NUM_COLS / 2 + 1);
}

#[test]
fn render_loop_starts_with_a_forced_repaint() {
    let (_renderer, plan) = Renderer::start();
    assert!(plan.clear);
    assert_eq!(plan.writes.len(), NUM_COLS * NUM_ROWS);
}

#[test]
fn render_loop_diffs_each_frame_against_the_previous_one() {
    let (mut renderer, _first) = Renderer::start();
    let plan1 = renderer.step(frame_with(10, 19, 'A'));
    assert!(!plan1.clear);
    assert_eq!(plan1.writes.len(), 1);
    assert_eq!(plan1.writes[0].x, 10);
    assert_eq!(plan1.writes[0].ch, 'A');
    let plan2 = renderer.step(frame_with(11, 19, 'A'));
    assert!(!plan2.clear);
    assert_eq!(plan2.writes.len(), 2);
    assert_eq!(plan2.writes[0].x, 10);
    assert_eq!(plan2.writes[0].ch, BLANK);
    assert_eq!(plan2.writes[1].x, 11);
    assert_eq!(plan2.writes[1].ch, 'A');
}

#[test]
fn consumer_renders_every_sent_frame_in_order() {
    let frames = vec![
        frame_with(10, 19, 'A'),
        frame_with(11, 19, 'A'),
        frame_with(12, 19, 'A'),
    ];
    let plans = run_consumer(&frames);
    assert_eq!(plans.len(), frames.len() + 1);
    assert!(plans[0].clear);
    assert_eq!(plans[0].writes.len(), NUM_COLS * NUM_ROWS);
    for plan in &plans[1..] {
        assert!(!plan.clear);
    }
    assert_eq!(plans[1].writes.len(), 1);
    assert_eq!(plans[1].writes[0].x, 10);
    assert_eq!(plans[1].writes[0].ch, 'A');
    assert_eq!(plans[2].writes.len(), 2);
    assert_eq!(plans[2].writes[0].x, 10);
    assert_eq!(plans[2].writes[0].ch, BLANK);
    assert_eq!(plans[2].writes[1].x, 11);
    assert_eq!(plans[2].writes[1].ch, 'A');
    assert_eq!(plans[3].writes.len(), 2);
    assert_eq!(plans[3].writes[0].x, 11);
    assert_eq!(plans[3].writes[0].ch, BLANK);
    assert_eq!(plans[3].writes[1].x, 12);
    assert_eq!(plans[3].writes[1].ch, 'A');
}
