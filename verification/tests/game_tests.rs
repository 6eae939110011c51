use tetris_core::Game;
use tetris_core::GameState;
use tetris_core::GameTimer;
use tetris_core::Score;
use tetris_core::TickInput;

fn no_input() -> TickInput {
    TickInput {
        move_left: false,
        move_right: false,
        soft_drop: false,
        rotate_cw: false,
    }
}

#[test]
fn timer_interval_is_fifty_ms_per_level() {
    let t = GameTimer::new(20);
    assert_eq!(t.fall_interval_ms, 1000);
    assert_eq!(t.elapsed_ms, 0);
}

#[test]
fn timer_fires_when_the_interval_elapses() {
    let mut t = GameTimer::new(20);
    assert!(!t.advance(999));
    assert_eq!(t.elapsed_ms, 999);
    assert!(t.advance(1));
    assert_eq!(t.elapsed_ms, 0);
    assert!(t.advance(1500), "a large delta fires immediately");
    assert_eq!(t.elapsed_ms, 0);
}

#[test]
fn timer_set_fall_interval_restarts_the_accumulator() {
    let mut t = GameTimer::new(20);
    t.advance(400);
    t.set_fall_interval(200);
    assert_eq!(t.fall_interval_ms, 200);
    assert_eq!(t.elapsed_ms, 0);
    assert!(!t.advance(199));
    assert!(t.advance(1));
}

#[test]
fn new_game_starts_playing_with_zero_score() {
    let g = Game::new(12, 18, 20, 0);
    assert_eq!(g.state, GameState::Playing);
    assert_eq!(g.score, Score(0));
    assert_eq!(g.piece.x, 4);
    assert_eq!(g.piece.y, 0);
    assert_eq!(g.field.get_block(0, 0), 9);
    assert_eq!(g.field.get_block(5, 5), 0);
}

#[test]
fn tick_without_firing_applies_intents_only() {
    let mut g = Game::new(12, 18, 20, 0);
    let input = TickInput {
        move_left: true,
        move_right: false,
        soft_drop: true,
        rotate_cw: false,
    };
    let (state, score) = g.tick_with_shape(input, 10, 0);
    assert_eq!(state, GameState::Playing);
    assert_eq!(score, Score(0));
    assert_eq!(g.piece.x, 3, "moved one column left");
    assert_eq!(g.piece.y, 1, "soft-dropped one row");
    assert_eq!(g.timer.elapsed_ms, 10);
}

#[test]
fn rejected_moves_are_silently_ignored() {
    let mut g = Game::new(12, 18, 20, 0);
    // Walk the I-piece (column at local x=2) to the far left wall.
    let left = TickInput {
        move_left: true,
        move_right: false,
        soft_drop: false,
        rotate_cw: false,
    };
    for _ in 0..10 {
        g.tick_with_shape(left, 0, 0);
    }
    // Its column sits at field x=1, against the border; x cannot sink below -1.
    assert_eq!(g.piece.x, -1);
    let (state, _) = g.tick_with_shape(left, 0, 0);
    assert_eq!(state, GameState::Playing);
    assert_eq!(g.piece.x, -1, "a blocked move is a no-op");
}

#[test]
fn gravity_moves_the_piece_down_when_it_fits() {
    let mut g = Game::new(12, 18, 20, 0);
    let (state, score) = g.tick_with_shape(no_input(), 1000, 0);
    assert_eq!(state, GameState::Playing);
    assert_eq!(score, Score(0));
    assert_eq!(g.piece.y, 1);
    assert_eq!(g.timer.elapsed_ms, 0, "the timer resets when it fires");
}

#[test]
fn locking_a_piece_scores_twenty_five() {
    let mut g = Game::new(12, 18, 20, 0);
    // The vertical I-piece locks after 13 falls; the 14th blocked fall locks it.
    for i in 0..13 {
        let (state, score) = g.tick_with_shape(no_input(), 1000, 1);
        assert_eq!(state, GameState::Playing);
        assert_eq!(score, Score(0), "no score while falling (tick {})", i);
    }
    let (state, score) = g.tick_with_shape(no_input(), 1000, 1);
    assert_eq!(state, GameState::Playing);
    assert_eq!(score, Score(25));
    assert_eq!(g.field.get_block(6, 16), 1, "I-piece cells carry value 1");
    assert_eq!(g.field.get_block(6, 13), 1);
    // The next piece respawned at the top.
    assert_eq!(g.piece.shape_index, 1);
    assert_eq!(g.piece.x, 4);
    assert_eq!(g.piece.y, 0);
}

#[test]
fn double_line_clear_adds_four_hundred() {
    let mut g = Game::new(12, 18, 20, 0);
    // Fill rows 15 and 16 except column 6, where the I-piece will land.
    for x in 1..11 {
        if x != 6 {
            g.field.set_block(x, 15, 2);
            g.field.set_block(x, 16, 2);
        }
    }
    // Drop the I-piece (column at field x=6) until it locks.
    for _ in 0..13 {
        g.tick_with_shape(no_input(), 1000, 0);
    }
    let (state, score) = g.tick_with_shape(no_input(), 1000, 0);
    assert_eq!(state, GameState::Playing);
    // 25 for the lock plus 2^2 * 100 for the double clear.
    assert_eq!(score, Score(425));
    // The two leftover piece cells compacted to the bottom rows.
    assert_eq!(g.field.get_block(6, 16), 1);
    assert_eq!(g.field.get_block(6, 15), 1);
    assert_eq!(g.field.get_block(6, 14), 0);
    assert_eq!(g.field.get_block(1, 16), 0, "the filled rows are gone");
}

#[test]
fn blocked_spawn_ends_the_round() {
    let mut g = Game::new(12, 18, 20, 0);
    // A block right below the spawned I-piece forces an immediate lock,
    // and the freshly spawned piece then overlaps the locked cells.
    g.field.set_block(6, 4, 3);
    let (state, score) = g.tick_with_shape(no_input(), 1000, 0);
    assert_eq!(state, GameState::GameOver);
    assert_eq!(score, Score(25));
    assert_eq!(g.field.get_block(6, 0), 1, "the piece locked in place");
    // Further ticks change nothing.
    let before_score = g.score;
    let (state2, score2) = g.tick_with_shape(no_input(), 1000, 3);
    assert_eq!(state2, GameState::GameOver);
    assert_eq!(score2, before_score);
    assert_eq!(g.piece.shape_index, 0, "the terminal state is frozen");
}

#[test]
fn random_tick_draws_a_catalogued_shape() {
    let mut g = Game::new(12, 18, 20, 0);
    // Force an immediate lock so the random respawn happens.
    g.field.set_block(6, 4, 3);
    let (_, score) = g.tick(no_input(), 1000);
    assert_eq!(score, Score(25));
    assert!(g.piece.shape_index < 7, "the drawn shape is catalogued");
    assert_eq!(g.piece.rotation, 0);
    assert_eq!(g.piece.x, 4);
    assert_eq!(g.piece.y, 0);
}

#[test]
fn rotation_intent_applies_when_it_fits() {
    let mut g = Game::new(12, 18, 20, 0);
    // Drop the piece a little so the rotated I-piece has room.
    g.tick_with_shape(no_input(), 1000, 0);
    g.tick_with_shape(no_input(), 1000, 0);
    let rot = TickInput {
        move_left: false,
        move_right: false,
        soft_drop: false,
        rotate_cw: true,
    };
    g.tick_with_shape(rot, 0, 0);
    assert_eq!(g.piece.rotation, 1);
    g.tick_with_shape(rot, 0, 0);
    g.tick_with_shape(rot, 0, 0);
    g.tick_with_shape(rot, 0, 0);
    assert_eq!(g.piece.rotation, 0, "four quarter turns come back around");
}
