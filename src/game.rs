//! A game: a board, the history of steps, the side to move and the cached state.
use vstd::prelude::*;

use crate::board::GameBoard;
use crate::rules::{
    all_lines, board_full, derived_state, first_error, first_five, five_at, grid_points, has_five,
    in_bounds, lemma_derived_finished, legal, side_at, spot_after, step_error,
    validation,
};
use crate::types::{GameSide, GameSpot, GameState, GameStepError, Point, StateModel};

verus! {

/// A connect-five game.
pub struct Game {
    /// The board of the game.
    board: GameBoard,
    /// The points of all the steps taken in the game, from earliest to latest.
    steps: Vec<Point>,
    /// The side to move next.
    side: GameSide,
    /// The state of the game, derived from the board after every step.
    state: GameState,
}

/// Replaying one more step: the spots after `steps.push(p)` are those after
/// `steps`, with `p` taken by the side of the new step.
pub proof fn lemma_spot_after_push(steps: Seq<Point>, p: Point, q: Point)
    ensures
        spot_after(steps.push(p), q) == (if q == p {
            GameSpot::Taken(side_at(steps.len() as int))
        } else {
            spot_after(steps, q)
        }),
{
    assert(steps.push(p).drop_last() =~= steps);
}

impl Game {
    /// The size of the board.
    pub closed spec fn size_m(&self) -> nat {
        self.board.size as nat
    }

    /// The steps taken so far, from earliest to latest.
    pub closed spec fn steps_m(&self) -> Seq<Point> {
        self.steps@
    }

    /// The board, the side to move and the cached state all agree with the
    /// steps taken, and every step was legal when it was taken.
    pub closed spec fn wf(&self) -> bool {
        &&& self.board.wf()
        &&& self.side == side_at(self.steps@.len() as int)
        &&& forall|p: Point|
            in_bounds(self.board.size as nat, p) ==> #[trigger] self.board.spot_at(p) == spot_after(
                self.steps@,
                p,
            )
        &&& legal(self.board.size as nat, self.steps@)
        &&& self.state@ == derived_state(self.board.size as nat, self.steps@)
    }

    /// What a well-formed game guarantees, stated over its size and steps.
    pub proof fn lemma_wf(&self)
        requires
            self.wf(),
        ensures
            self.size_m() > 0,
            legal(self.size_m(), self.steps_m()),
    {
    }

    /// Create a new game on a board of the given size.
    pub fn new(size: usize) -> (r: Game)
        requires
            size > 0,
        ensures
            r.wf(),
            r.size_m() == size,
            r.steps_m() == Seq::<Point>::empty(),
            derived_state(size as nat, Seq::empty()) == StateModel::Normal,
    {
        let board = GameBoard::new(size);
        let steps: Vec<Point> = Vec::new();
        proof {
            let lines = all_lines(size as nat);
            assert forall|li: int, k: int| 0 <= li < lines.len() implies !five_at(
                Seq::empty(),
                lines[li],
                k,
            ) by {
                if 0 <= k < lines[li].len() {
                    assert(spot_after(Seq::empty(), lines[li][k]) == GameSpot::Empty);
                }
            }
            assert(in_bounds(size as nat, Point { x: 0, y: 0 }));
            assert(spot_after(Seq::empty(), Point { x: 0, y: 0 }) == GameSpot::Empty);
            assert(!board_full(size as nat, Seq::empty()));
            assert(first_error(size as nat, steps@) is None);
        }
        Game { board, steps, side: GameSide::Black, state: GameState::Normal }
    }

    /// Create a game of the given size by replaying the given steps in order;
    /// the error of the first step that cannot be played where there is one.
    pub fn from_steps(size: usize, steps: &[Point]) -> (r: Result<Game, GameStepError>)
        requires
            size > 0,
        ensures
            match r {
                Ok(g) => g.wf() && g.size_m() == size && g.steps_m() == steps@ && legal(
                    size as nat,
                    steps@,
                ),
                Err(e) => first_error(size as nat, steps@) == Some(e),
            },
    {
        let mut game = Game::new(size);
        let mut i: usize = 0;
        while i < steps.len()
            invariant
                game.wf(),
                game.size_m() == size,
                i <= steps@.len(),
                game.steps_m() == steps@.subrange(0, i as int),
            decreases steps@.len() - i,
        {
            let ghost before = game.steps_m();
            let res = game.add_step(steps[i]);
            assert(steps@.subrange(0, i + 1).drop_last() =~= before);
            assert(steps@.subrange(0, i + 1) =~= before.push(steps@[i as int]));
            match res {
                Ok(()) => {},
                Err(e) => {
                    proof {
                        lemma_first_error_prefix(size as nat, steps@, i + 1);
                    }
                    return Err(e);
                },
            }
            i += 1;
        }
        assert(steps@.subrange(0, steps@.len() as int) =~= steps@);
        Ok(game)
    }

    /// Get the size of the board.
    pub fn size(&self) -> (r: usize)
        ensures
            r == self.size_m(),
    {
        self.board.size
    }

    /// The side to move next.
    pub fn turn(&self) -> (r: GameSide)
        requires
            self.wf(),
        ensures
            r == side_at(self.steps_m().len() as int),
    {
        self.side
    }

    /// Get the current state of the game, which was derived when the last step was added.
    pub fn state(&self) -> (r: &GameState)
        requires
            self.wf(),
        ensures
            r@ == derived_state(self.size_m(), self.steps_m()),
    {
        &self.state
    }

    /// Get the spot at a point on the game board.
    pub fn spot(&self, point: &Point) -> (r: GameSpot)
        requires
            self.wf(),
            in_bounds(self.size_m(), *point),
        ensures
            r == spot_after(self.steps_m(), *point),
    {
        self.board.get_spot(point)
    }

    /// All steps of this game with their side, from the start.
    pub fn iter_steps(&self) -> (r: Vec<(GameSide, Point)>)
        ensures
            r@.len() == self.steps_m().len(),
            forall|i: int|
                0 <= i < r@.len() ==> #[trigger] r@[i] == (side_at(i), self.steps_m()[i]),
    {
        let mut r: Vec<(GameSide, Point)> = Vec::new();
        let mut side = GameSide::Black;
        let mut i: usize = 0;
        while i < self.steps.len()
            invariant
                i <= self.steps@.len(),
                side == side_at(i as int),
                r@.len() == i,
                forall|t: int| 0 <= t < i ==> #[trigger] r@[t] == (side_at(t), self.steps@[t]),
            decreases self.steps@.len() - i,
        {
            r.push((side, self.steps[i]));
            side = side.toggle();
            i += 1;
        }
        r
    }

    /// All the points on the board, row by row.
    pub fn iter_points(&self) -> (r: &Vec<Point>)
        requires
            self.wf(),
        ensures
            r@ == grid_points(self.size_m()),
    {
        &self.board.points
    }

    /// Check whether a step may be placed at `point`, without changing anything.
    pub fn validate_step(&self, point: &Point) -> (r: Result<(), GameStepError>)
        requires
            self.wf(),
        ensures
            r == validation(self.size_m(), self.steps_m(), *point),
    {
        if !self.board.is_valid(point) {
            Err(GameStepError::InvalidPoint)
        } else if !self.board.get_spot(point).is_empty() {
            Err(GameStepError::PointTaken)
        } else {
            Ok(())
        }
    }

    /// Add a step to the game for the side whose turn it is. Where the step is
    /// not allowed, nothing changes and the error is returned.
    pub fn add_step(&mut self, point: Point) -> (r: Result<(), GameStepError>)
        requires
            old(self).wf(),
        ensures
            final(self).wf(),
            final(self).size_m() == old(self).size_m(),
            match step_error(old(self).size_m(), old(self).steps_m(), point) {
                Some(e) => r == Err::<(), GameStepError>(e) && final(self).steps_m() == old(
                    self,
                ).steps_m(),
                None => r is Ok && final(self).steps_m() == old(self).steps_m().push(point),
            },
    {
        match self.state {
            GameState::Normal => {},
            _ => {
                return Err(GameStepError::GameOver);
            },
        }
        match self.validate_step(&point) {
            Ok(()) => {},
            Err(e) => {
                return Err(e);
            },
        }
        let ghost old_steps = self.steps@;
        self.board.set_spot(&point, GameSpot::Taken(self.side));
        self.side = self.side.toggle();
        self.steps.push(point);
        proof {
            assert forall|p: Point| in_bounds(self.board.size as nat, p) implies #[trigger] self.board.spot_at(p)
                == spot_after(self.steps@, p) by {
                lemma_spot_after_push(old_steps, point, p);
            }
            assert(self.steps@.drop_last() =~= old_steps);
        }
        self.update_state();
        Ok(())
    }

    /// Derive the state of the game from the board again.
    fn update_state(&mut self)
        requires
            old(self).board.wf(),
            forall|p: Point|
                in_bounds(old(self).board.size as nat, p) ==> #[trigger] old(self).board.spot_at(p)
                    == spot_after(old(self).steps@, p),
        ensures
            final(self).board == old(self).board,
            final(self).steps == old(self).steps,
            final(self).side == old(self).side,
            final(self).state@ == derived_state(old(self).board.size as nat, old(self).steps@),
    {
        let st = match self.compute_winner() {
            Some((winner_side, points)) => GameState::Finished { winner_side, points },
            None => {
                if self.board.is_full() {
                    GameState::BoardFull
                } else {
                    GameState::Normal
                }
            },
        };
        self.state = st;
    }

    /// The winner side and the five points of the first five in a row in scan
    /// order, if any.
    fn compute_winner(&self) -> (r: Option<(GameSide, Vec<Point>)>)
        requires
            self.board.wf(),
            forall|p: Point|
                in_bounds(self.board.size as nat, p) ==> #[trigger] self.board.spot_at(p)
                    == spot_after(self.steps@, p),
        ensures
            r is None <==> !has_five(all_lines(self.board.size as nat), self.steps@),
            match r {
                Some((side, points)) => derived_state(self.board.size as nat, self.steps@) == (
                StateModel::Finished { winner_side: side, points: points@ }),
                None => true,
            },
    {
        let ghost steps = self.steps@;
        let ghost lines = all_lines(self.board.size as nat);
        let mut li: usize = 0;
        while li < self.board.lines.len()
            invariant
                self.board.wf(),
                forall|p: Point|
                    in_bounds(self.board.size as nat, p) ==> #[trigger] self.board.spot_at(p)
                        == spot_after(self.steps@, p),
                steps == self.steps@,
                lines == all_lines(self.board.size as nat),
                li <= lines.len(),
                forall|l2: int, k2: int| 0 <= l2 < li ==> !five_at(steps, lines[l2], k2),
            decreases lines.len() - li,
        {
            let line = &self.board.lines[li];
            let ghost ln = lines[li as int];
            assert(line@ == ln);
            let mut prev = GameSpot::Empty;
            let mut consec: Vec<Point> = Vec::new();
            let mut k: usize = 0;
            while k < line.len()
                invariant
                    self.board.wf(),
                    forall|p: Point|
                        in_bounds(self.board.size as nat, p) ==> #[trigger] self.board.spot_at(p)
                            == spot_after(self.steps@, p),
                    steps == self.steps@,
                    lines == all_lines(self.board.size as nat),
                    li < lines.len(),
                    ln == lines[li as int],
                    line@ == ln,
                    *line == self.board.lines@[li as int],
                    forall|l2: int, k2: int| 0 <= l2 < li ==> !five_at(steps, lines[l2], k2),
                    k <= ln.len(),
                    prev == (if k == 0 {
                        GameSpot::Empty
                    } else {
                        spot_after(steps, ln[k - 1])
                    }),
                    consec@.len() <= 4,
                    consec@.len() <= k,
                    consec@ == ln.subrange(k - consec@.len(), k as int),
                    (consec@.len() == 0) == (prev is Empty),
                    forall|j: int| k - consec@.len() <= j < k ==> spot_after(steps, #[trigger] ln[j]) == prev,
                    consec@.len() > 0 && k - consec@.len() > 0 ==> spot_after(
                        steps,
                        ln[k - consec@.len() - 1],
                    ) != prev,
                    forall|k2: int| k2 < k ==> !five_at(steps, ln, k2),
                decreases ln.len() - k,
            {
                let point = line[k];
                assert(in_bounds(self.board.size as nat, self.board.lines@[li as int]@[k as int]));
                let spot = self.board.get_spot(&point);
                let ghost r0 = consec@.len() as int;
                match spot {
                    GameSpot::Taken(side) => {
                        if spot == prev {
                            consec.push(point);
                            if consec.len() >= 5 {
                                proof {
                                    assert(five_at(steps, ln, k as int));
                                    assert(first_five(lines, steps, li as int, k as int));
                                    lemma_derived_finished(
                                        self.board.size as nat,
                                        steps,
                                        li as int,
                                        k as int,
                                    );
                                    assert(consec@ =~= ln.subrange(k - 4, k + 1));
                                    assert(has_five(lines, steps));
                                }
                                return Some((side, consec));
                            }
                            proof {
                                if five_at(steps, ln, k as int) {
                                    assert(spot_after(steps, ln[k - r0 - 1]) == spot);
                                }
                            }
                        } else {
                            consec.clear();
                            consec.push(point);
                            proof {
                                if five_at(steps, ln, k as int) {
                                    assert(spot_after(steps, ln[k - 1]) == spot);
                                }
                            }
                        }
                    },
                    GameSpot::Empty => {
                        consec.clear();
                    },
                }
                prev = spot;
                k += 1;
                assert(consec@ =~= ln.subrange(k - consec@.len(), k as int));
            }
            proof {
                assert forall|k2: int| !five_at(steps, ln, k2) by {
                    if k2 >= ln.len() {
                    } else {
                        assert(k2 < k);
                    }
                }
            }
            li += 1;
        }
        None
    }
}

/// Where `steps[.. n]` replays up to its last step and that step fails with
/// some error, that error is the first error of all of `steps`.
proof fn lemma_first_error_prefix(size: nat, steps: Seq<Point>, n: int)
    requires
        0 < n <= steps.len(),
        first_error(size, steps.subrange(0, n)) is Some,
    ensures
        first_error(size, steps) == first_error(size, steps.subrange(0, n)),
    decreases steps.len() - n,
{
    if n < steps.len() {
        assert(steps.subrange(0, n + 1).drop_last() =~= steps.subrange(0, n));
        assert(first_error(size, steps.subrange(0, n + 1)) == first_error(
            size,
            steps.subrange(0, n),
        ));
        lemma_first_error_prefix(size, steps, n + 1);
    } else {
        assert(steps.subrange(0, n) =~= steps);
    }
}

} // verus!
