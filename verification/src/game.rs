//! Score, fall timer, game state and the per-tick round controller.

use vstd::prelude::*;

verus! {

use crate::field::clear_result;
use crate::field::fresh_field;
use crate::field::lock_result;
use crate::field::GameField;
use crate::fit::does_piece_fit;
use crate::fit::lemma_fits_bounds;
use crate::fit::piece_fits;
use crate::piece::CurrentPiece;
use crate::random::random_shape_index;

/// The running score: a non-negative counter that only ever grows.
#[derive(Clone, Copy, PartialEq, Eq, Structural, Debug, Default)]
pub struct Score(pub u32);

/// Whether the round is still being played.  `GameOver` is terminal: a
/// new round means re-initialising the whole game.
#[derive(Clone, Copy, PartialEq, Eq, Structural, Debug, Default, Hash)]
pub enum GameState {
    /// The round is running and ticks move the piece.
    #[default]
    Playing,
    /// A freshly spawned piece did not fit; ticks no longer change anything.
    GameOver,
}

/// The player intents consumed by one tick: at most one horizontal move,
/// one soft-drop step and one clockwise rotation.
#[derive(Clone, Copy, PartialEq, Eq, Structural, Debug, Default)]
pub struct TickInput {
    /// Move the piece one column towards smaller `x`.
    pub move_left: bool,
    /// Move the piece one column towards larger `x`.
    pub move_right: bool,
    /// Move the piece one row down.
    pub soft_drop: bool,
    /// Rotate the piece one quarter turn clockwise.
    pub rotate_cw: bool,
}

/// The fall timer: accumulates elapsed milliseconds and fires whenever the
/// accumulator reaches the fall interval, resetting to zero.
#[derive(Clone, Copy, PartialEq, Eq, Structural, Debug)]
pub struct GameTimer {
    /// Milliseconds between automatic downward steps.
    pub fall_interval_ms: u32,
    /// Milliseconds accumulated since the timer last fired.
    pub elapsed_ms: u32,
}

/// Whether a timer with `delta` more milliseconds reaches its interval.
pub open spec fn timer_fires(t: GameTimer, delta: int) -> bool {
    t.elapsed_ms + delta >= t.fall_interval_ms
}

impl GameTimer {
    /// The accumulator stays strictly below a non-zero interval.
    pub open spec fn wf(self) -> bool {
        if self.fall_interval_ms == 0 {
            self.elapsed_ms == 0
        } else {
            self.elapsed_ms < self.fall_interval_ms
        }
    }

    /// A fresh timer: the fall interval is 50 ms per speed level (that is,
    /// 0.05 s times the level), and nothing has accumulated yet.
    pub fn new(initial_speed_level: u32) -> (t: GameTimer)
        requires
            initial_speed_level * 50 <= u32::MAX,
        ensures
            t.wf(),
            t.fall_interval_ms == initial_speed_level * 50,
            t.elapsed_ms == 0,
    {
        GameTimer { fall_interval_ms: initial_speed_level * 50, elapsed_ms: 0 }
    }

    /// Change the fall interval and restart the accumulator.
    pub fn set_fall_interval(&mut self, ms: u32)
        ensures
            final(self).wf(),
            final(self).fall_interval_ms == ms,
            final(self).elapsed_ms == 0,
    {
        self.fall_interval_ms = ms;
        self.elapsed_ms = 0;
    }

    /// Add `delta_ms` to the accumulator; report and reset when it reaches
    /// the interval.
    pub fn advance(&mut self, delta_ms: u32) -> (fired: bool)
        requires
            old(self).wf(),
        ensures
            final(self).wf(),
            final(self).fall_interval_ms == old(self).fall_interval_ms,
            fired == timer_fires(*old(self), delta_ms as int),
            final(self).elapsed_ms as int == if fired {
                0int
            } else {
                old(self).elapsed_ms + delta_ms
            },
    {
        let total: u64 = self.elapsed_ms as u64 + delta_ms as u64;
        if total >= self.fall_interval_ms as u64 {
            self.elapsed_ms = 0;
            true
        } else {
            self.elapsed_ms = total as u32;
            false
        }
    }
}

/// Two to the power `n`.
pub open spec fn two_pow(n: nat) -> nat
    decreases n,
{
    if n == 0 {
        1
    } else {
        2 * two_pow((n - 1) as nat)
    }
}

/// Powers of two never shrink as the exponent grows.
proof fn lemma_two_pow_mono(a: nat, b: nat)
    requires
        a <= b,
    ensures
        two_pow(a) <= two_pow(b),
    decreases b,
{
    if a < b {
        lemma_two_pow_mono(a, (b - 1) as nat);
    }
}

/// An integer clamped to the `u32` range from above.
pub open spec fn sat_u32(v: int) -> int {
    if v <= u32::MAX {
        v
    } else {
        u32::MAX as int
    }
}

/// Score bonus awarded for clearing `n` lines at once: `2^n * 100`,
/// clamped to the `u32` range.
pub open spec fn line_bonus_spec(n: int) -> int {
    sat_u32(two_pow(n as nat) * 100int)
}

/// Compute the line-clear bonus, saturating at `u32::MAX`.
fn line_bonus(n: u32) -> (b: u32)
    requires
        n > 0,
    ensures
        b as int == line_bonus_spec(n as int),
{
    proof {
        reveal_with_fuel(two_pow, 28);
        assert(two_pow(25) == 0x2000000);
        assert(two_pow(26) == 0x4000000);
    }
    if n > 25 {
        proof {
            lemma_two_pow_mono(26, n as nat);
        }
        return u32::MAX;
    }
    proof {
        lemma_two_pow_mono(n as nat, 25);
    }
    let mut p: u32 = 1;
    let mut i: u32 = 0;
    while i < n
        invariant
            i <= n <= 25,
            p == two_pow(i as nat),
            two_pow(n as nat) <= 0x2000000,
        decreases n - i,
    {
        proof {
            lemma_two_pow_mono((i + 1) as nat, n as nat);
        }
        p = p * 2;
        i += 1;
    }
    p * 100
}

/// Score after locking a piece and clearing `lines` rows: 25 for the
/// lock, then `2^lines * 100` when at least one row cleared, each
/// addition saturating at `u32::MAX`.
pub open spec fn score_after_lock(s: int, lines: int) -> int {
    let locked = sat_u32(s + 25);
    if lines > 0 {
        sat_u32(locked + line_bonus_spec(lines))
    } else {
        locked
    }
}

/// Net horizontal intent: one column right minus one column left.
pub open spec fn horizontal_delta(inp: TickInput) -> int {
    (if inp.move_right {
        1int
    } else {
        0int
    }) - (if inp.move_left {
        1int
    } else {
        0int
    })
}

/// The piece after the horizontal intent: moved when the move fits,
/// unchanged otherwise (a rejected move is silently ignored).
pub open spec fn piece_after_horizontal(f: GameField, p: CurrentPiece, inp: TickInput) -> CurrentPiece {
    let dx = horizontal_delta(inp);
    if dx != 0 && piece_fits(f, p.shape_index as int, p.rotation as int, p.x + dx, p.y as int) {
        CurrentPiece { x: (p.x + dx) as i32, ..p }
    } else {
        p
    }
}

/// The piece after the soft-drop intent: one row down when that fits.
pub open spec fn piece_after_drop(f: GameField, p: CurrentPiece, inp: TickInput) -> CurrentPiece {
    if inp.soft_drop && piece_fits(f, p.shape_index as int, p.rotation as int, p.x as int, p.y + 1) {
        CurrentPiece { y: (p.y + 1) as i32, ..p }
    } else {
        p
    }
}

/// The piece after the rotation intent: one clockwise quarter turn when
/// the rotated piece fits in place.
pub open spec fn piece_after_rotate(f: GameField, p: CurrentPiece, inp: TickInput) -> CurrentPiece {
    let nr = (p.rotation + 1) % 4;
    if inp.rotate_cw && piece_fits(f, p.shape_index as int, nr, p.x as int, p.y as int) {
        CurrentPiece { rotation: nr as i32, ..p }
    } else {
        p
    }
}

/// The two fields have the same size and the same cells.
pub open spec fn field_unchanged(a: GameField, b: GameField) -> bool {
    &&& b.width == a.width
    &&& b.height == a.height
    &&& forall|x: int, y: int| #[trigger] b.spec_get(x, y) == a.spec_get(x, y)
}

/// A tick on a finished round changes nothing.
pub open spec fn game_unchanged(pre: Game, post: Game) -> bool {
    &&& field_unchanged(pre.field, post.field)
    &&& post.piece == pre.piece
    &&& post.score == pre.score
    &&& post.timer == pre.timer
    &&& post.state == pre.state
}

/// The lock sequence ending a blocked gravity step: the piece `p3` is
/// stamped into the field, the full rows clear, the score grows by the
/// lock and line bonuses, a new piece of shape `shape` spawns centered at
/// the top, and the round ends exactly when that piece does not fit.
pub open spec fn lock_step(pre: Game, p3: CurrentPiece, post: Game, shape: int) -> bool {
    exists|mid: GameField, lines: int|
        {
            &&& lock_result(pre.field, p3, mid)
            &&& #[trigger] clear_result(mid, post.field, lines)
            &&& post.score.0 == score_after_lock(pre.score.0 as int, lines)
            &&& post.piece.shape_index == shape
            &&& post.piece.rotation == 0
            &&& post.piece.x == pre.field.width as int / 2 - 2
            &&& post.piece.y == 0
            &&& post.state == (if piece_fits(
                post.field,
                shape,
                0,
                pre.field.width as int / 2 - 2,
                0,
            ) {
                GameState::Playing
            } else {
                GameState::GameOver
            })
        }
}

/// The full transition relation of one tick: on a finished round nothing
/// changes; otherwise the intents apply in the fixed order horizontal,
/// soft drop, rotation, each only where it fits, then the fall timer
/// advances, and when it fires the piece either falls one row or locks.
pub open spec fn tick_rel(pre: Game, post: Game, inp: TickInput, delta: int, shape: int) -> bool {
    if pre.state == GameState::GameOver {
        game_unchanged(pre, post)
    } else {
        let p1 = piece_after_horizontal(pre.field, pre.piece, inp);
        let p2 = piece_after_drop(pre.field, p1, inp);
        let p3 = piece_after_rotate(pre.field, p2, inp);
        let fires = timer_fires(pre.timer, delta);
        &&& post.timer.fall_interval_ms == pre.timer.fall_interval_ms
        &&& post.timer.elapsed_ms as int == (if fires {
            0int
        } else {
            pre.timer.elapsed_ms + delta
        })
        &&& if !fires {
            &&& field_unchanged(pre.field, post.field)
            &&& post.piece == p3
            &&& post.score == pre.score
            &&& post.state == GameState::Playing
        } else if piece_fits(
            pre.field,
            p3.shape_index as int,
            p3.rotation as int,
            p3.x as int,
            p3.y + 1,
        ) {
            &&& field_unchanged(pre.field, post.field)
            &&& post.piece == (CurrentPiece { y: (p3.y + 1) as i32, ..p3 })
            &&& post.score == pre.score
            &&& post.state == GameState::Playing
        } else {
            lock_step(pre, p3, post, shape)
        }
    }
}

/// One round of the game: the playfield, the falling piece, the score,
/// the fall timer, and whether the round has ended.
pub struct Game {
    /// The grid of locked cells.
    pub field: GameField,
    /// The falling piece.
    pub piece: CurrentPiece,
    /// The running score.
    pub score: Score,
    /// The fall timer.
    pub timer: GameTimer,
    /// Whether the round is still being played.
    pub state: GameState,
}

impl Game {
    /// Well-formedness of one round's state: a well-formed field and
    /// timer, a catalogued shape, a reduced rotation state, and piece
    /// coordinates near the grid.
    pub open spec fn wf(self) -> bool {
        &&& self.field.wf()
        &&& self.timer.wf()
        &&& self.piece.shape_index < 7
        &&& 0 <= self.piece.rotation < 4
        &&& -4 <= self.piece.x <= self.field.width
        &&& -4 <= self.piece.y <= self.field.height
    }

    /// A fresh round: an empty bordered field, the first piece at its
    /// spawn position, score zero, a timer at 50 ms per speed level, and
    /// the round running.
    pub fn new(width: usize, height: usize, initial_speed_level: u32, first_shape: usize) -> (g:
        Game)
        requires
            3 <= width <= 0x4000_0000,
            2 <= height <= 0x4000_0000,
            width * height <= usize::MAX,
            initial_speed_level * 50 <= u32::MAX,
            first_shape < 7,
        ensures
            g.wf(),
            fresh_field(g.field, width as int, height as int),
            g.piece.shape_index == first_shape,
            g.piece.rotation == 0,
            g.piece.x == width as int / 2 - 2,
            g.piece.y == 0,
            g.score.0 == 0,
            g.timer.fall_interval_ms == initial_speed_level * 50,
            g.timer.elapsed_ms == 0,
            g.state == GameState::Playing,
    {
        let field = GameField::new(width, height);
        let piece = CurrentPiece::spawn(first_shape, width);
        Game {
            field,
            piece,
            score: Score(0),
            timer: GameTimer::new(initial_speed_level),
            state: GameState::Playing,
        }
    }

    /// One simulation tick with the next spawn shape supplied by the
    /// caller: apply the intents in the fixed order horizontal, soft
    /// drop, rotation; advance the fall timer; and on a blocked gravity
    /// step lock the piece, clear full rows, add the score, respawn, and
    /// detect game over.
    pub fn tick_with_shape(&mut self, input: TickInput, delta_ms: u32, next_shape: usize) -> (r: (
        GameState,
        Score,
    ))
        requires
            old(self).wf(),
            next_shape < 7,
        ensures
            final(self).wf(),
            tick_rel(*old(self), *final(self), input, delta_ms as int, next_shape as int),
            r.0 == final(self).state,
            r.1 == final(self).score,
    {
        if self.state == GameState::GameOver {
            return (self.state, self.score);
        }
        let ghost pre = *self;
        let dx: i32 = (if input.move_right {
            1
        } else {
            0
        }) - (if input.move_left {
            1
        } else {
            0
        });
        if dx != 0 {
            let nx = self.piece.x + dx;
            if does_piece_fit(
                &self.field,
                self.piece.shape_index,
                self.piece.rotation,
                nx,
                self.piece.y,
            ) {
                proof {
                    lemma_fits_bounds(
                        self.field,
                        self.piece.shape_index as int,
                        self.piece.rotation as int,
                        nx as int,
                        self.piece.y as int,
                    );
                }
                self.piece.x = nx;
            }
        }
        let ghost p1 = piece_after_horizontal(pre.field, pre.piece, input);
        proof {
            assert(self.piece == p1);
            assert(self.wf());
        }
        if input.soft_drop {
            let ny = self.piece.y + 1;
            if does_piece_fit(
                &self.field,
                self.piece.shape_index,
                self.piece.rotation,
                self.piece.x,
                ny,
            ) {
                proof {
                    lemma_fits_bounds(
                        self.field,
                        self.piece.shape_index as int,
                        self.piece.rotation as int,
                        self.piece.x as int,
                        ny as int,
                    );
                }
                self.piece.y = ny;
            }
        }
        let ghost p2 = piece_after_drop(pre.field, p1, input);
        proof {
            assert(self.piece == p2);
            assert(self.wf());
        }
        if input.rotate_cw {
            let nr = (self.piece.rotation + 1) % 4;
            if does_piece_fit(&self.field, self.piece.shape_index, nr, self.piece.x, self.piece.y) {
                self.piece.rotation = nr;
            }
        }
        let ghost p3 = piece_after_rotate(pre.field, p2, input);
        proof {
            assert(self.piece == p3);
            assert(self.wf());
        }
        let fired = self.timer.advance(delta_ms);
        if fired {
            let ny = self.piece.y + 1;
            if does_piece_fit(
                &self.field,
                self.piece.shape_index,
                self.piece.rotation,
                self.piece.x,
                ny,
            ) {
                proof {
                    lemma_fits_bounds(
                        self.field,
                        self.piece.shape_index as int,
                        self.piece.rotation as int,
                        self.piece.x as int,
                        ny as int,
                    );
                }
                self.piece.y = ny;
            } else {
                self.field.lock_piece(&self.piece);
                let ghost mid = self.field;
                self.score.0 = self.score.0.saturating_add(25);
                let lines = self.field.check_and_clear_lines();
                if lines > 0 {
                    let bonus = line_bonus(lines);
                    self.score.0 = self.score.0.saturating_add(bonus);
                }
                let w = self.field.width;
                self.piece = CurrentPiece::spawn(next_shape, w);
                let fits = does_piece_fit(
                    &self.field,
                    next_shape,
                    0,
                    self.piece.x,
                    self.piece.y,
                );
                if !fits {
                    self.state = GameState::GameOver;
                }
                proof {
                    assert(clear_result(mid, self.field, lines as int));
                    assert(lock_step(pre, p3, *self, next_shape as int));
                }
            }
        }
        (self.state, self.score)
    }

    /// One simulation tick, the next spawn shape drawn uniformly from the
    /// 7 shapes.  The tick relation holds for whichever shape was drawn.
    pub fn tick(&mut self, input: TickInput, delta_ms: u32) -> (r: (GameState, Score))
        requires
            old(self).wf(),
        ensures
            final(self).wf(),
            exists|shape: int|
                0 <= shape < 7 && #[trigger] tick_rel(
                    *old(self),
                    *final(self),
                    input,
                    delta_ms as int,
                    shape,
                ),
            r.0 == final(self).state,
            r.1 == final(self).score,
    {
        let shape = random_shape_index();
        self.tick_with_shape(input, delta_ms, shape)
    }
}

} // verus!
