use pellet_grid::actor::{Character, FRUIT_MARK};
use pellet_grid::board::{Board, GameError};
use pellet_grid::cell::{Cell, Direction};
use pellet_grid::game::{App, InputEvent, CHEAT_BOOST_TICKS, FRUIT_MILESTONE};

fn fresh_app() -> App {
    App::new(false, Character::new(0, 0, 'C'))
}

#[test]
fn new_app_defaults() {
    let app = fresh_app();
    assert!(!app.exit);
    assert_eq!(app.score, 0);
    assert_eq!(app.board.width, 0);
    assert_eq!(app.board.height, 0);
    assert!(!app.fruit_placed);
    assert!(app.cheat_buffer.is_empty());
}

#[test]
fn generate_board_seeds_powerups_on_lanes() {
    let mut app = fresh_app();
    app.generate_board(10, 8, 4242).unwrap();
    assert_eq!(app.board.width, 10);
    assert_eq!(app.board.height, 8);
    let mut n_power = 0;
    for y in 0..8 {
        for x in 0..10 {
            let c = app.board.get(x, y);
            match c {
                Cell::PowerUp => {
                    assert_eq!(x % 2, 0);
                    n_power += 1;
                }
                Cell::Pellet => assert_eq!(x % 2, 0),
                Cell::Empty => assert_eq!(x % 2, 1),
                Cell::SpecialFruit => panic!("no fruit at generation"),
            }
        }
    }
    assert!(n_power >= 1 && n_power <= 3);
}

#[test]
fn generate_board_rejects_zero() {
    let mut app = fresh_app();
    assert_eq!(
        app.generate_board(0, 5, 1).unwrap_err(),
        GameError::InvalidDimensions
    );
    assert_eq!(app.board.width, 0);
}

#[test]
fn update_board_clears_cell() {
    let mut app = fresh_app();
    app.generate_board(4, 4, 7).unwrap();
    app.update_board(0, 0);
    assert_eq!(app.board.get(0, 0), Cell::Empty);
}

#[test]
fn quit_input_raises_exit() {
    let mut app = fresh_app();
    app.handle_input(InputEvent::Quit);
    assert!(app.exit);
}

#[test]
fn turn_input_changes_facing() {
    let mut app = fresh_app();
    app.handle_input(InputEvent::Turn(Direction::Up));
    assert_eq!(app.character.direction, Direction::Up);
    app.handle_input(InputEvent::Turn(Direction::Left));
    assert_eq!(app.character.direction, Direction::Left);
}

#[test]
fn speed_cheat_arms_extreme_boost() {
    let mut app = fresh_app();
    app.character.set_base_speed(500);
    for c in "speed".chars() {
        app.handle_input(InputEvent::CheatChar(c));
    }
    app.handle_input(InputEvent::CheatExec);
    assert!(app.cheat_buffer.is_empty());
    assert!(app.character.speed_boost_active);
    assert_eq!(app.character.effective_speed, 0);
    assert_eq!(app.character.boost_ticks_remaining, CHEAT_BOOST_TICKS);
    assert_eq!(app.character.base_speed, 500);
}

#[test]
fn unknown_cheat_is_ignored_but_cleared() {
    let mut app = fresh_app();
    app.character.set_base_speed(500);
    for c in "zzz".chars() {
        app.handle_input(InputEvent::CheatChar(c));
    }
    assert_eq!(app.cheat_buffer, vec!['z', 'z', 'z']);
    app.handle_input(InputEvent::CheatExec);
    assert!(app.cheat_buffer.is_empty());
    assert!(!app.character.speed_boost_active);
    assert_eq!(app.character.effective_speed, 500);
    assert_eq!(app.character.boost_ticks_remaining, 0);
}

#[test]
fn tick_without_board_changes_nothing() {
    let mut app = fresh_app();
    app.tick(5);
    assert_eq!(app.score, 0);
    assert_eq!(app.character.x, 0);
}

#[test]
fn end_to_end_first_steps() {
    // A 4x4 board, the actor at (0,0) facing right and moving on every
    // tick: one tick is one cell, so it stands on (1,0) first. That
    // cell started empty, so the score is untouched; the next tick
    // reaches the pellet lane at (2,0) and scores.
    let mut app = fresh_app();
    app.board = Board::generate(4, 4).unwrap();
    app.tick(1);
    assert_eq!((app.character.x, app.character.y), (1, 0));
    assert_eq!(app.score, 0);
    app.tick(2);
    assert_eq!((app.character.x, app.character.y), (2, 0));
    assert_eq!(app.score, 1);
}

#[test]
fn milestone_places_fruit_once_mid_board() {
    // A one-row board long enough to hold more pellets than the
    // milestone: walking right consumes one pellet every other cell.
    let mut app = fresh_app();
    app.board = Board::generate(145, 1).unwrap();
    let mut now: u64 = 0;
    while app.score < FRUIT_MILESTONE {
        now += 1;
        app.tick(now);
        assert!(now < 100_000, "milestone never reached");
    }
    assert_eq!(app.score, FRUIT_MILESTONE);
    assert!(app.fruit_placed);
    assert_eq!(app.board.get(145 / 2, 0), Cell::SpecialFruit);
    // Keep walking until the fruit is eaten: the log records it and
    // the score jumps by 100.
    let before = app.score;
    while app.character.collected_fruits.is_empty() {
        now += 1;
        app.tick(now);
        assert!(now < 100_000, "fruit never reached");
    }
    assert_eq!(app.character.collected_fruits, vec![FRUIT_MARK]);
    assert!(app.score >= before + 100);
    assert_eq!(app.board.get(145 / 2, 0), Cell::Empty);
    // The milestone fires only once: no second fruit appears.
    for _ in 0..300 {
        now += 1;
        app.tick(now);
    }
    for x in 0..145 {
        assert_ne!(app.board.get(x, 0), Cell::SpecialFruit);
    }
}

#[test]
fn score_monotone_across_session() {
    let mut app = fresh_app();
    app.generate_board(9, 7, 31).unwrap();
    app.character.set_base_speed(2);
    let dirs = [Direction::Right, Direction::Down, Direction::Left, Direction::Up];
    let mut now: u64 = 0;
    let mut last: u64 = 0;
    for k in 0..400 {
        if k % 7 == 0 {
            app.handle_input(InputEvent::Turn(dirs[(k / 7) % 4]));
        }
        now += 1;
        app.tick(now);
        assert!(app.score >= last);
        last = app.score;
    }
}

#[test]
fn frame_overlays_actor_glyph() {
    let mut app = fresh_app();
    app.board = Board::generate(4, 2).unwrap();
    app.character.x = 1;
    app.character.y = 1;
    let f = app.frame();
    assert_eq!(f.len(), 2);
    assert_eq!(f[0].len(), 4);
    assert_eq!(f[0], vec!['.', ' ', '.', ' ']);
    assert_eq!(f[1], vec!['.', 'C', '.', ' ']);
}
