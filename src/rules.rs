//! The mathematical model of the game: who moves when, what a spot holds after
//! a sequence of steps, the candidate lines of a board, and the state that a
//! full scan of the board derives.
use vstd::prelude::*;

use crate::types::{GameSide, GameSpot, GameStepError, Point, StateModel};

verus! {

/// The side that plays the step at index `i` (0-based): black plays the even steps.
pub open spec fn side_at(i: int) -> GameSide {
    if i % 2 == 0 {
        GameSide::Black
    } else {
        GameSide::White
    }
}

/// Both coordinates lie in `[0, size)`.
pub open spec fn in_bounds(size: nat, p: Point) -> bool {
    p.x < size && p.y < size
}

/// What the spot at `p` holds once `steps` have been played in order.
pub open spec fn spot_after(steps: Seq<Point>, p: Point) -> GameSpot
    decreases steps.len(),
{
    if steps.len() == 0 {
        GameSpot::Empty
    } else if steps.last() == p {
        GameSpot::Taken(side_at(steps.len() - 1))
    } else {
        spot_after(steps.drop_last(), p)
    }
}

/// The coordinate `a` moved `j` times in the direction given by the sign of `d`.
pub open spec fn shift(a: int, d: int, j: int) -> int {
    if d > 0 {
        a + j
    } else if d < 0 {
        a - j
    } else {
        a
    }
}

/// The `len` points starting at `(x0, y0)` and moving by the signs of `(dx, dy)` each time.
pub open spec fn ray(x0: int, y0: int, dx: int, dy: int, len: int) -> Seq<Point> {
    Seq::new(
        len as nat,
        |j: int| Point { x: shift(x0, dx, j) as usize, y: shift(y0, dy, j) as usize },
    )
}

/// The lines that the board contributes for index `i`, in scan order: a
/// horizontal and a vertical line, the descending diagonals starting at
/// `(i, 0)` and (for `i > 0`) at `(0, i)`, and the ascending diagonals starting
/// at `(i, 0)` and (for `i > 0`) at `(i, size - 1)`.
pub open spec fn lines_at(size: int, i: int) -> Seq<Seq<Point>> {
    seq![ray(i, 0, 0, 1, size), ray(0, i, 1, 0, size), ray(i, 0, 1, 1, size - i)] + (if i > 0 {
        seq![ray(0, i, 1, 1, size - i)]
    } else {
        Seq::empty()
    }) + seq![ray(i, 0, -1, 1, i + 1)] + (if i > 0 {
        seq![ray(i, size - 1, 1, -1, size - i)]
    } else {
        Seq::empty()
    })
}

/// The lines contributed by the indices `0 .. i`, in scan order.
pub open spec fn lines_upto(size: int, i: int) -> Seq<Seq<Point>>
    decreases i,
{
    if i <= 0 {
        Seq::empty()
    } else {
        lines_upto(size, i - 1) + lines_at(size, i - 1)
    }
}

/// Every candidate line of a board of the given size, in scan order.
pub open spec fn all_lines(size: nat) -> Seq<Seq<Point>> {
    lines_upto(size as int, size as int)
}

/// The points of the rows `0 .. y`, each row by increasing `x`.
pub open spec fn rows_upto(size: nat, y: int) -> Seq<Point>
    decreases y,
{
    if y <= 0 {
        Seq::empty()
    } else {
        rows_upto(size, y - 1) + Seq::new(size, |x: int| Point { x: x as usize, y: (y - 1) as usize })
    }
}

/// All points of a board, row by row.
pub open spec fn grid_points(size: nat) -> Seq<Point> {
    rows_upto(size, size as int)
}

/// The five spots of `line` ending at position `k` are taken by one side.
pub open spec fn five_at(steps: Seq<Point>, line: Seq<Point>, k: int) -> bool {
    &&& 4 <= k < line.len()
    &&& spot_after(steps, line[k]) is Taken
    &&& forall|j: int| k - 4 <= j < k ==> spot_after(steps, line[j]) == spot_after(steps, line[k])
}

/// Position `k` of line `li` is where the scan meets five in a row first:
/// no earlier line holds five in a row, nor does line `li` before `k`.
pub open spec fn first_five(lines: Seq<Seq<Point>>, steps: Seq<Point>, li: int, k: int) -> bool {
    &&& 0 <= li < lines.len()
    &&& five_at(steps, lines[li], k)
    &&& forall|l2: int, k2: int| 0 <= l2 < li ==> !five_at(steps, lines[l2], k2)
    &&& forall|k2: int| k2 < k ==> !five_at(steps, lines[li], k2)
}

/// Some line holds five in a row.
pub open spec fn has_five(lines: Seq<Seq<Point>>, steps: Seq<Point>) -> bool {
    exists|li: int, k: int| 0 <= li < lines.len() && five_at(steps, lines[li], k)
}

/// No spot of the board is empty.
pub open spec fn board_full(size: nat, steps: Seq<Point>) -> bool {
    forall|p: Point| in_bounds(size, p) ==> !(spot_after(steps, p) is Empty)
}

/// The side that holds a taken spot.
pub open spec fn taken_side(s: GameSpot) -> GameSide {
    match s {
        GameSpot::Taken(side) => side,
        GameSpot::Empty => GameSide::Black,
    }
}

/// The state that a full scan of the board derives after `steps`: the first
/// five in a row in scan order wins, else a full board is a tie, else the
/// game goes on.
pub open spec fn derived_state(size: nat, steps: Seq<Point>) -> StateModel {
    let lines = all_lines(size);
    if has_five(lines, steps) {
        let w = choose|w: (int, int)| first_five(lines, steps, w.0, w.1);
        StateModel::Finished {
            winner_side: taken_side(spot_after(steps, lines[w.0][w.1])),
            points: lines[w.0].subrange(w.1 - 4, w.1 + 1),
        }
    } else if board_full(size, steps) {
        StateModel::BoardFull
    } else {
        StateModel::Normal
    }
}

/// What validating a step at `p` gives on the board of the given size after
/// `steps`: the point must lie on the board and its spot must be empty.
pub open spec fn validation(size: nat, steps: Seq<Point>, p: Point) -> Result<(), GameStepError> {
    if !in_bounds(size, p) {
        Err(GameStepError::InvalidPoint)
    } else if !(spot_after(steps, p) is Empty) {
        Err(GameStepError::PointTaken)
    } else {
        Ok(())
    }
}

/// Why a step cannot be placed at `p` on the board of the given size, where
/// `steps` have already been played; `None` where it can.
pub open spec fn step_error(size: nat, steps: Seq<Point>, p: Point) -> Option<GameStepError> {
    if !(derived_state(size, steps) is Normal) {
        Some(GameStepError::GameOver)
    } else {
        match validation(size, steps, p) {
            Err(e) => Some(e),
            Ok(()) => None,
        }
    }
}

/// The error of the first step of `steps` that cannot be played, replaying
/// them in order from an empty board; `None` where all of them can.
pub open spec fn first_error(size: nat, steps: Seq<Point>) -> Option<GameStepError>
    decreases steps.len(),
{
    if steps.len() == 0 {
        None
    } else {
        match first_error(size, steps.drop_last()) {
            Some(e) => Some(e),
            None => step_error(size, steps.drop_last(), steps.last()),
        }
    }
}

/// Every step of `steps` can be played in order from an empty board.
pub open spec fn legal(size: nat, steps: Seq<Point>) -> bool {
    first_error(size, steps) is None
}

/// At most one position is where the scan meets five in a row first.
pub proof fn lemma_first_five_unique(
    lines: Seq<Seq<Point>>,
    steps: Seq<Point>,
    a: (int, int),
    b: (int, int),
)
    requires
        first_five(lines, steps, a.0, a.1),
        first_five(lines, steps, b.0, b.1),
    ensures
        a == b,
{
    if a.0 < b.0 {
        assert(!five_at(steps, lines[a.0], a.1));
    } else if b.0 < a.0 {
        assert(!five_at(steps, lines[b.0], b.1));
    } else if a.1 < b.1 {
        assert(!five_at(steps, lines[a.0], a.1));
    } else if b.1 < a.1 {
        assert(!five_at(steps, lines[b.0], b.1));
    }
}

/// The state derived where the scan meets five in a row first at `(li, k)`.
pub proof fn lemma_derived_finished(size: nat, steps: Seq<Point>, li: int, k: int)
    requires
        first_five(all_lines(size), steps, li, k),
    ensures
        derived_state(size, steps) == (StateModel::Finished {
            winner_side: taken_side(spot_after(steps, all_lines(size)[li][k])),
            points: all_lines(size)[li].subrange(k - 4, k + 1),
        }),
{
    let lines = all_lines(size);
    assert(has_five(lines, steps));
    assert(first_five(lines, steps, (li, k).0, (li, k).1));
    let w = choose|w: (int, int)| first_five(lines, steps, w.0, w.1);
    assert(first_five(lines, steps, w.0, w.1));
    lemma_first_five_unique(lines, steps, w, (li, k));
}

} // verus!
