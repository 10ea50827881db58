use invaders::frame::{new_frame, Drawable, BLANK, NUM_COLS, NUM_ROWS};
use invaders::player::{Player, PLAYER_GLYPH};

#[test]
fn new_frame_is_blank() {
    let f = new_frame();
    for x in 0..NUM_COLS {
        for y in 0..NUM_ROWS {
            assert_eq!(f.get(x, y), BLANK);
        }
    }
}

#[test]
fn set_then_get() {
    let mut f = new_frame();
    f.set(3, 4, 'Z');
    assert_eq!(f.get(3, 4), 'Z');
    assert_eq!(f.get(4, 3), BLANK);
    assert_eq!(f.get(3, 5), BLANK);
    f.set(3, 4, 'Q');
    assert_eq!(f.get(3, 4), 'Q');
}

#[test]
fn duplicate_copies_every_cell() {
    let mut f = new_frame();
    f.set(0, 0, '#');
    f.set(NUM_COLS - 1, NUM_ROWS - 1, '!');
    let d = f.duplicate();
    for x in 0..NUM_COLS {
        for y in 0..NUM_ROWS {
            assert_eq!(d.get(x, y), f.get(x, y));
        }
    }
}

#[test]
fn player_starts_mid_bottom() {
    let p = Player::new();
    assert_eq!(p.column(), NUM_COLS / 2);
    assert_eq!(p.row_index(), NUM_ROWS - 1);
}

#[test]
fn move_left_stops_at_leftmost_column() {
    let mut p = Player::new();
    for _ in 0..NUM_COLS / 2 {
        p.move_left();
    }
    assert_eq!(p.column(), 0);
    p.move_left();
    assert_eq!(p.column(), 0);
}

#[test]
fn move_right_stops_at_rightmost_column() {
    let mut p = Player::new();
    for _ in 0..NUM_COLS {
        p.move_right();
    }
    assert_eq!(p.column(), NUM_COLS - 1);
    p.move_right();
    assert_eq!(p.column(), NUM_COLS - 1);
}

#[test]
fn move_left_then_right_returns() {
    let mut p = Player::new();
    p.move_left();
    assert_eq!(p.column(), NUM_COLS / 2 - 1);
    p.move_right();
    assert_eq!(p.column(), NUM_COLS / 2);
}

#[test]
fn player_draws_its_glyph() {
    let p = Player::new();
    let mut f = new_frame();
    p.draw(&mut f);
    assert_eq!(f.get(NUM_COLS / 2, NUM_ROWS - 1), PLAYER_GLYPH);
    assert_eq!(f.get(NUM_COLS / 2 + 1, NUM_ROWS - 1), BLANK);
}
