//! Laws of the game engine, stated over the model of `rules` and proved.
use vstd::prelude::*;
use vstd::arithmetic::div_mod::{lemma_fundamental_div_mod, lemma_mod_pos_bound};
use vstd::seq_lib::seq_to_set_is_finite;
use vstd::set_lib::{lemma_int_range, lemma_subset_equality, set_int_range};

use crate::codec::{decode_result, encodes, states_agree, state_of_wire, wire_steps};
use crate::rules::{
    lines_at, lines_upto, ray, shift, taken_side,
    all_lines, board_full, derived_state, first_error, first_five, five_at, grid_points, has_five,
    in_bounds, lemma_derived_finished, legal, rows_upto, side_at, spot_after, step_error,
    validation,
};
use crate::types::{GameSide, GameSpot, Point, StateModel};

verus! {

/// A spot is taken after `steps` exactly when `steps` holds its point.
pub proof fn lemma_taken_iff_played(steps: Seq<Point>, p: Point)
    ensures
        (spot_after(steps, p) is Empty) <==> !steps.contains(p),
    decreases steps.len(),
{
    if steps.len() > 0 {
        let s0 = steps.drop_last();
        lemma_taken_iff_played(s0, p);
        if s0.contains(p) {
            let i = choose|i: int| 0 <= i < s0.len() && s0[i] == p;
            assert(steps[i] == p);
        }
        if steps.contains(p) && steps.last() != p {
            let i = choose|i: int| 0 <= i < steps.len() && steps[i] == p;
            assert(s0[i] == p);
        }
        if steps.last() == p {
            assert(steps[steps.len() - 1] == p);
        }
    }
}

/// The steps of a legal game are distinct points on the board.
pub proof fn lemma_legal_steps(size: nat, steps: Seq<Point>)
    requires
        legal(size, steps),
    ensures
        steps.no_duplicates(),
        forall|i: int| 0 <= i < steps.len() ==> in_bounds(size, #[trigger] steps[i]),
    decreases steps.len(),
{
    if steps.len() > 0 {
        let s0 = steps.drop_last();
        assert(first_error(size, s0) is None);
        assert(step_error(size, s0, steps.last()) is None);
        lemma_legal_steps(size, s0);
        lemma_taken_iff_played(s0, steps.last());
        assert forall|i: int, j: int| 0 <= i < steps.len() && 0 <= j < steps.len() && i != j implies steps[i]
            != steps[j] by {
            if steps[i] == steps[j] {
                if j == steps.len() - 1 {
                    assert(s0[i] == steps.last());
                    assert(s0.contains(steps.last()));
                } else if i == steps.len() - 1 {
                    assert(s0[j] == steps.last());
                    assert(s0.contains(steps.last()));
                } else {
                    assert(s0[i] == s0[j]);
                }
            }
        }
        assert forall|i: int| 0 <= i < steps.len() implies in_bounds(size, #[trigger] steps[i]) by {
            if i < steps.len() - 1 {
                assert(steps[i] == s0[i]);
            }
        }
    }
}

/// The index of a point when the board is numbered row by row.
spec fn cell(n: int, p: Point) -> int {
    p.x * n + p.y
}

proof fn lemma_cell(n: int, p: Point, q: Point)
    requires
        0 <= n,
        in_bounds(n as nat, p),
        in_bounds(n as nat, q),
    ensures
        0 <= cell(n, p) < n * n,
        cell(n, p) == cell(n, q) ==> p == q,
{
    let (x1, y1, x2, y2) = (p.x as int, p.y as int, q.x as int, q.y as int);
    assert(0 <= x1 * n + y1 < n * n) by (nonlinear_arith)
        requires
            0 <= x1 < n,
            0 <= y1 < n,
    ;
    assert(x1 * n + y1 == x2 * n + y2 ==> x1 == x2 && y1 == y2) by (nonlinear_arith)
        requires
            0 <= x1 < n,
            0 <= y1 < n,
            0 <= x2 < n,
            0 <= y2 < n,
    ;
}

/// Distinct points on a board of size `n` cover the board exactly when there
/// are `n * n` of them.
pub proof fn lemma_cover_iff_count(n: nat, steps: Seq<Point>)
    requires
        n <= usize::MAX,
        steps.no_duplicates(),
        forall|i: int| 0 <= i < steps.len() ==> in_bounds(n, #[trigger] steps[i]),
    ensures
        (forall|p: Point| in_bounds(n, p) ==> steps.contains(p)) <==> steps.len() == n * n,
{
    let m = steps.map_values(|p: Point| cell(n as int, p));
    assert forall|i: int, j: int| 0 <= i < m.len() && 0 <= j < m.len() && i != j implies m[i]
        != m[j] by {
        lemma_cell(n as int, steps[i], steps[j]);
    }
    m.unique_seq_to_set();
    let r = set_int_range(0, (n * n) as int);
    lemma_int_range(0, (n * n) as int);
    seq_to_set_is_finite(m);
    assert forall|v: int| m.to_set().contains(v) implies r.contains(v) by {
        let i = choose|i: int| 0 <= i < m.len() && m[i] == v;
        lemma_cell(n as int, steps[i], steps[i]);
    }
    if steps.len() == n * n {
        lemma_subset_equality(m.to_set(), r);
        assert forall|p: Point| in_bounds(n, p) implies steps.contains(p) by {
            lemma_cell(n as int, p, p);
            assert(r.contains(cell(n as int, p)));
            assert(m.to_set().contains(cell(n as int, p)));
            let i = choose|i: int| 0 <= i < m.len() && m[i] == cell(n as int, p);
            lemma_cell(n as int, steps[i], p);
            assert(steps[i] == p);
        }
    }
    if forall|p: Point| in_bounds(n, p) ==> steps.contains(p) {
        assert forall|v: int| r.contains(v) implies m.to_set().contains(v) by {
            let ni = n as int;
            let x = v / ni;
            let y = v % ni;
            lemma_fundamental_div_mod(v, ni);
            lemma_mod_pos_bound(v, ni);
            assert(0 <= x < ni) by (nonlinear_arith)
                requires
                    0 <= v < ni * ni,
                    v == ni * x + y,
                    0 <= y < ni,
            ;
            let p = Point { x: x as usize, y: y as usize };
            assert(in_bounds(n, p));
            let i = choose|i: int| 0 <= i < steps.len() && steps[i] == p;
            assert(x * ni == ni * x) by (nonlinear_arith);
            assert(cell(ni, p) == v);
            assert(m[i] == v);
        }
        assert(m.to_set() =~= r);
    }
}

/// A new board holds `n * n` distinct points, every one of them empty, and
/// is not full; a legal game fills it exactly when `n * n` steps have been
/// played.
pub proof fn lemma_board_fills(n: nat, steps: Seq<Point>)
    requires
        n <= usize::MAX,
        n > 0,
        legal(n, steps),
    ensures
        grid_points(n).len() == n * n,
        forall|p: Point| grid_points(n).contains(p) <==> in_bounds(n, p),
        forall|p: Point| in_bounds(n, p) ==> spot_after(Seq::empty(), p) == GameSpot::Empty,
        !board_full(n, Seq::empty()),
        board_full(n, steps) <==> steps.len() == n * n,
{
    lemma_rows(n, n as int);
    assert(spot_after(Seq::empty(), Point { x: 0, y: 0 }) == GameSpot::Empty);
    assert(in_bounds(n, Point { x: 0, y: 0 }));
    lemma_legal_steps(n, steps);
    lemma_cover_iff_count(n, steps);
    assert forall|p: Point| in_bounds(n, p) implies (!(spot_after(steps, p) is Empty)
        <==> steps.contains(p)) by {
        lemma_taken_iff_played(steps, p);
    }
}

proof fn lemma_rows(n: nat, y: int)
    requires
        n <= usize::MAX,
        0 <= y <= n,
    ensures
        rows_upto(n, y).len() == n * y,
        forall|p: Point| rows_upto(n, y).contains(p) <==> (p.x < n && p.y < y),
    decreases y,
{
    if y > 0 {
        lemma_rows(n, y - 1);
        let prev = rows_upto(n, y - 1);
        let row = Seq::new(n, |x: int| Point { x: x as usize, y: (y - 1) as usize });
        assert(n * y == n * (y - 1) + n) by (nonlinear_arith);
        let all = rows_upto(n, y);
        assert(all == prev + row);
        assert forall|p: Point| p.x < n && p.y < y implies #[trigger] all.contains(p) by {
            if p.y < y - 1 {
                assert(prev.contains(p));
                let i = choose|i: int| 0 <= i < prev.len() && prev[i] == p;
                assert(all[i] == p);
            } else {
                assert(row[p.x as int] == p);
                assert(all[prev.len() + p.x] == p);
            }
        }
        assert forall|p: Point| #[trigger] all.contains(p) implies p.x < n && p.y < y by {
            let i = choose|i: int| 0 <= i < all.len() && all[i] == p;
            if i < prev.len() {
                assert(prev[i] == p);
                assert(prev.contains(p));
            } else {
                assert(row[i - prev.len()] == p);
            }
        }
    }
}

/// A legal game of `n * n` steps in which no line holds five in a row ends
/// in a full board.
pub proof fn lemma_full_board_draw(n: nat, steps: Seq<Point>)
    requires
        n <= usize::MAX,
        n > 0,
        legal(n, steps),
        steps.len() == n * n,
        !has_five(all_lines(n), steps),
    ensures
        derived_state(n, steps) == StateModel::BoardFull,
{
    lemma_board_fills(n, steps);
}

/// The side of the step at index `i` is the first side exactly when `i` is
/// even, and the sides alternate.
pub proof fn lemma_turn_alternation(i: nat)
    ensures
        (side_at(i as int) == GameSide::Black) <==> i % 2 == 0,
        side_at(i + 1 as int) == side_at(i as int).opposite(),
{
}

/// Where the scan holds five in a row on some line, the state is finished,
/// and its points are the first run of five of the first such line in scan
/// order: later lines never win the tie.
pub proof fn lemma_tie_break(n: nat, steps: Seq<Point>, li: int, k: int)
    requires
        0 <= li < all_lines(n).len(),
        five_at(steps, all_lines(n)[li], k),
    ensures
        exists|l0: int, k0: int|
            l0 <= li && #[trigger] first_five(all_lines(n), steps, l0, k0) && derived_state(n, steps)
                == (StateModel::Finished {
                winner_side: crate::rules::taken_side(spot_after(steps, all_lines(n)[l0][k0])),
                points: all_lines(n)[l0].subrange(k0 - 4, k0 + 1),
            }),
    decreases li, k,
{
    let lines = all_lines(n);
    if exists|l2: int, k2: int| 0 <= l2 < li && #[trigger] five_at(steps, lines[l2], k2) {
        let (l2, k2) = choose|l2: int, k2: int| 0 <= l2 < li && #[trigger] five_at(steps, lines[l2], k2);
        lemma_tie_break(n, steps, l2, k2);
    } else if exists|k2: int| k2 < k && #[trigger] five_at(steps, lines[li], k2) {
        let k2 = choose|k2: int| k2 < k && #[trigger] five_at(steps, lines[li], k2);
        lemma_tie_break(n, steps, li, k2);
    } else {
        assert(first_five(lines, steps, li, k));
        lemma_derived_finished(n, steps, li, k);
    }
}

/// While the game goes on, adding a step fails exactly when validating it
/// fails, and with the same error; validation depends on the size and the
/// steps alone, so it gives the same result until a step is added.
pub proof fn lemma_validation_decides_step(size: nat, steps: Seq<Point>, p: Point)
    requires
        derived_state(size, steps) is Normal,
    ensures
        validation(size, steps, p) is Ok <==> step_error(size, steps, p) is None,
        validation(size, steps, p) is Err ==> step_error(size, steps, p) == Some(
            validation(size, steps, p)->Err_0,
        ),
{
}

proof fn lemma_upto_prefix(n: int, j: int, i: int)
    requires
        0 <= j <= i,
    ensures
        lines_upto(n, j).len() <= lines_upto(n, i).len(),
        forall|idx: int|
            0 <= idx < lines_upto(n, j).len() ==> lines_upto(n, i)[idx] == lines_upto(n, j)[idx],
    decreases i - j,
{
    if j < i {
        lemma_upto_prefix(n, j, i - 1);
        assert(lines_upto(n, i) == lines_upto(n, i - 1) + lines_at(n, i - 1));
    }
}

/// Each line that index `i` contributes is one of the candidate lines.
proof fn lemma_line_in_all(n: nat, i: int, t: int) -> (idx: int)
    requires
        0 <= i < n,
        0 <= t < lines_at(n as int, i).len(),
    ensures
        0 <= idx < all_lines(n).len(),
        all_lines(n)[idx] == lines_at(n as int, i)[t],
{
    lemma_upto_prefix(n as int, i + 1, n as int);
    let base = lines_upto(n as int, i);
    assert(lines_upto(n as int, i + 1) == base + lines_at(n as int, i));
    let idx = base.len() + t;
    assert(lines_upto(n as int, i + 1)[idx] == lines_at(n as int, i)[t]);
    idx
}

proof fn lemma_run_on_line(
    steps: Seq<Point>,
    line: Seq<Point>,
    k: int,
    run: Seq<Point>,
    reversed: bool,
    s: GameSide,
)
    requires
        0 <= k,
        k + 5 <= line.len(),
        run.len() == 5,
        forall|u: int|
            0 <= u < 5 ==> #[trigger] line[k + u] == (if reversed { run[4 - u] } else { run[u] }),
        forall|t: int| 0 <= t < 5 ==> spot_after(steps, #[trigger] run[t]) == GameSpot::Taken(s),
    ensures
        five_at(steps, line, k + 4),
{
    assert forall|j: int| k <= j < k + 5 implies spot_after(steps, #[trigger] line[j])
        == GameSpot::Taken(s) by {
        let u = j - k;
        assert(line[k + u] == (if reversed { run[4 - u] } else { run[u] }));
    }
}

/// Five pieces of one side in a row on the board, in any of the four
/// directions, always lie on five consecutive positions of one candidate
/// line: the scan finds every five in a row, and the game is then over.
pub proof fn lemma_lines_cover_runs(
    n: nat,
    steps: Seq<Point>,
    x0: int,
    y0: int,
    dx: int,
    dy: int,
    s: GameSide,
)
    requires
        n <= usize::MAX,
        (dx == 0 && dy == 1) || (dx == 1 && dy == 0) || (dx == 1 && dy == 1) || (dx == 1 && dy
            == -1),
        0 <= x0 < n,
        0 <= y0 < n,
        0 <= shift(x0, dx, 4) < n,
        0 <= shift(y0, dy, 4) < n,
        forall|t: int|
            0 <= t < 5 ==> spot_after(steps, #[trigger] ray(x0, y0, dx, dy, 5)[t])
                == GameSpot::Taken(s),
    ensures
        has_five(all_lines(n), steps),
        derived_state(n, steps) is Finished,
{
    let ni = n as int;
    let run = ray(x0, y0, dx, dy, 5);
    let (i, t, k, reversed) = if dx == 0 {
        (x0, 0int, y0, false)
    } else if dy == 0 {
        (y0, 1int, x0, false)
    } else if dy == 1 {
        if x0 >= y0 {
            (x0 - y0, 2int, y0, false)
        } else {
            (y0 - x0, 3int, x0, false)
        }
    } else if x0 + y0 < ni {
        (x0 + y0, 4int, y0 - 4, true)
    } else {
        (x0 + y0 - (ni - 1), 5int, x0 - (x0 + y0 - (ni - 1)), false)
    };
    let idx = lemma_line_in_all(n, i, t);
    let line = all_lines(n)[idx];
    assert forall|u: int| 0 <= u < 5 implies #[trigger] line[k + u] == (if reversed {
        run[4 - u]
    } else {
        run[u]
    }) by {}
    lemma_run_on_line(steps, line, k, run, reversed, s);
    assert(five_at(steps, all_lines(n)[idx], k + 4));
    lemma_tie_break(n, steps, idx, k + 4);
}

/// Encoding a game reachable by legal play and decoding it again succeeds,
/// with the same size, the same steps and, for a finished game, the same
/// winner.
pub proof fn lemma_round_trip(size: nat, steps: Seq<Point>, w: crate::codec::GameSerializer)
    requires
        0 < size <= u32::MAX,
        legal(size, steps),
        encodes(w, size, steps),
    ensures
        decode_result(w) is Ok,
        w.size == size,
        wire_steps(w) == steps,
        states_agree(state_of_wire(w.state), derived_state(size, steps)),
{
    lemma_legal_steps(size, steps);
    assert(w.size == size);
    assert(wire_steps(w) =~= steps);
    reveal_strlit("normal");
    reveal_strlit("board_full");
    reveal_strlit("finished");
    assert("normal"@.len() == 6);
    assert("board_full"@.len() == 10);
    assert("finished"@.len() == 8);
    assert(first_error(size, wire_steps(w)) is None);
    match derived_state(size, steps) {
        StateModel::Finished { winner_side, points } => {
            assert(w.state.side == Some(crate::codec::side_code(winner_side)));
        },
        _ => {},
    }
    assert(states_agree(state_of_wire(w.state), derived_state(size, steps)));
}

} // verus!
