//! The board: a square grid of spots and the precomputed candidate lines.
use vstd::prelude::*;

use crate::rules::{all_lines, grid_points, in_bounds, lines_at, lines_upto, ray, rows_upto, shift};
use crate::types::{GameSpot, Point};

verus! {

/// The board state of a game.
pub struct GameBoard {
    /// The size of the board, both its width and its height.
    pub(crate) size: usize,
    /// `size` rows of `size` spots; the spot at `(x, y)` is `spots[x][y]`.
    pub(crate) spots: Vec<Vec<GameSpot>>,
    /// All the points of the board, row by row.
    pub(crate) points: Vec<Point>,
    /// The candidate lines where consecutive pieces may win, in scan order.
    pub(crate) lines: Vec<Vec<Point>>,
}

/// The `len` points starting at `(x0, y0)` and moving by the signs of `(dx, dy)`.
fn make_ray(size: usize, x0: usize, y0: usize, dx: i8, dy: i8, len: usize) -> (r: Vec<Point>)
    requires
        len > 0 ==> 0 <= shift(x0 as int, dx as int, 0) < size,
        len > 0 ==> 0 <= shift(y0 as int, dy as int, 0) < size,
        len > 0 ==> 0 <= shift(x0 as int, dx as int, len - 1) < size,
        len > 0 ==> 0 <= shift(y0 as int, dy as int, len - 1) < size,
    ensures
        r@ == ray(x0 as int, y0 as int, dx as int, dy as int, len as int),
        forall|j: int| 0 <= j < r@.len() ==> in_bounds(size as nat, #[trigger] r@[j]),
{
    let mut r: Vec<Point> = Vec::new();
    let mut j: usize = 0;
    while j < len
        invariant
            j <= len,
            len > 0 ==> 0 <= shift(x0 as int, dx as int, len - 1) < size,
            len > 0 ==> 0 <= shift(y0 as int, dy as int, len - 1) < size,
            len > 0 ==> 0 <= shift(x0 as int, dx as int, 0) < size,
            len > 0 ==> 0 <= shift(y0 as int, dy as int, 0) < size,
            r@ == ray(x0 as int, y0 as int, dx as int, dy as int, j as int),
            forall|t: int| 0 <= t < r@.len() ==> in_bounds(size as nat, #[trigger] r@[t]),
        decreases len - j,
    {
        let x: usize = if dx > 0 {
            x0 + j
        } else if dx < 0 {
            x0 - j
        } else {
            x0
        };
        let y: usize = if dy > 0 {
            y0 + j
        } else if dy < 0 {
            y0 - j
        } else {
            y0
        };
        r.push(Point { x, y });
        j += 1;
        assert(r@ =~= ray(x0 as int, y0 as int, dx as int, dy as int, j as int));
    }
    r
}

impl GameBoard {
    /// The spot at `p`.
    pub(crate) open spec fn spot_at(&self, p: Point) -> GameSpot {
        self.spots@[p.x as int]@[p.y as int]
    }

    /// The grid is `size` by `size`, the lines are those of `all_lines`, all
    /// of their points lie on the board, and `points` lists the board row by row.
    pub(crate) open spec fn wf(&self) -> bool {
        &&& self.size > 0
        &&& self.spots@.len() == self.size
        &&& forall|x: int| 0 <= x < self.size ==> (#[trigger] self.spots@[x])@.len() == self.size
        &&& self.lines@.len() == all_lines(self.size as nat).len()
        &&& forall|li: int|
            0 <= li < self.lines@.len() ==> (#[trigger] self.lines@[li])@ == all_lines(
                self.size as nat,
            )[li]
        &&& forall|li: int, j: int|
            0 <= li < self.lines@.len() && 0 <= j < self.lines@[li]@.len() ==> in_bounds(
                self.size as nat,
                #[trigger] self.lines@[li]@[j],
            )
        &&& self.points@ == grid_points(self.size as nat)
    }

    /// Create a new board of the given size, filled with empty spots.
    pub(crate) fn new(size: usize) -> (r: GameBoard)
        requires
            size > 0,
        ensures
            r.wf(),
            r.size == size,
            forall|p: Point| in_bounds(size as nat, p) ==> r.spot_at(p) == GameSpot::Empty,
    {
        let mut spots: Vec<Vec<GameSpot>> = Vec::new();
        let mut x: usize = 0;
        while x < size
            invariant
                x <= size,
                spots@.len() == x,
                forall|a: int, b: int|
                    0 <= a < x && 0 <= b < size ==> #[trigger] spots@[a]@[b] == GameSpot::Empty,
                forall|a: int| 0 <= a < x ==> (#[trigger] spots@[a])@.len() == size,
            decreases size - x,
        {
            let mut row: Vec<GameSpot> = Vec::new();
            let mut y: usize = 0;
            while y < size
                invariant
                    y <= size,
                    row@.len() == y,
                    forall|b: int| 0 <= b < y ==> row@[b] == GameSpot::Empty,
                decreases size - y,
            {
                row.push(GameSpot::Empty);
                y += 1;
            }
            spots.push(row);
            x += 1;
        }
        let lines = GameBoard::init_lines(size);
        let points = GameBoard::init_points(size);
        GameBoard { size, spots, points, lines }
    }

    /// All the points of a board of the given size, row by row.
    fn init_points(size: usize) -> (points: Vec<Point>)
        ensures
            points@ == grid_points(size as nat),
    {
        let mut points: Vec<Point> = Vec::new();
        let mut y: usize = 0;
        while y < size
            invariant
                y <= size,
                points@ == rows_upto(size as nat, y as int),
            decreases size - y,
        {
            let ghost done = points@;
            let mut x: usize = 0;
            while x < size
                invariant
                    x <= size,
                    y < size,
                    points@ == done + Seq::new(
                        x as nat,
                        |a: int| Point { x: a as usize, y: y as usize },
                    ),
                decreases size - x,
            {
                points.push(Point { x, y });
                x += 1;
                assert(points@ =~= done + Seq::new(
                    x as nat,
                    |a: int| Point { x: a as usize, y: y as usize },
                ));
            }
            y += 1;
            assert(points@ =~= rows_upto(size as nat, y as int));
        }
        points
    }

    /// All the straight lines of consecutive points of a board of the given
    /// size, in scan order.
    fn init_lines(size: usize) -> (lines: Vec<Vec<Point>>)
        requires
            size > 0,
        ensures
            lines@.len() == all_lines(size as nat).len(),
            forall|li: int| 0 <= li < lines@.len() ==> (#[trigger] lines@[li])@ == all_lines(size as nat)[li],
            forall|li: int, j: int|
                0 <= li < lines@.len() && 0 <= j < lines@[li]@.len() ==> in_bounds(
                    size as nat,
                    #[trigger] lines@[li]@[j],
                ),
    {
        let mut lines: Vec<Vec<Point>> = Vec::new();
        let mut i: usize = 0;
        while i < size
            invariant
                i <= size,
                lines@.len() == lines_upto(size as int, i as int).len(),
                forall|li: int|
                    0 <= li < lines@.len() ==> (#[trigger] lines@[li])@ == lines_upto(
                        size as int,
                        i as int,
                    )[li],
                forall|li: int, j: int|
                    0 <= li < lines@.len() && 0 <= j < lines@[li]@.len() ==> in_bounds(
                        size as nat,
                        #[trigger] lines@[li]@[j],
                    ),
            decreases size - i,
        {
            let ghost before = lines@;
            let mut batch: Vec<Vec<Point>> = Vec::new();
            // Horizontal and vertical lines.
            batch.push(make_ray(size, i, 0, 0, 1, size));
            batch.push(make_ray(size, 0, i, 1, 0, size));
            // Descending diagonals.
            batch.push(make_ray(size, i, 0, 1, 1, size - i));
            if i > 0 {
                batch.push(make_ray(size, 0, i, 1, 1, size - i));
            }
            // Ascending diagonals.
            batch.push(make_ray(size, i, 0, -1, 1, i + 1));
            if i > 0 {
                batch.push(make_ray(size, i, size - 1, 1, -1, size - i));
            }
            let ghost at = lines_at(size as int, i as int);
            assert(batch@.len() == at.len());
            assert(forall|t: int| 0 <= t < batch@.len() ==> (#[trigger] batch@[t])@ == at[t]);
            lines.append(&mut batch);
            assert(lines_upto(size as int, i + 1) == lines_upto(size as int, i as int) + at);
            i += 1;
        }
        lines
    }

    /// Return true if the point is within bounds of the board, otherwise false.
    pub(crate) fn is_valid(&self, point: &Point) -> (r: bool)
        ensures
            r == in_bounds(self.size as nat, *point),
    {
        point.x < self.size && point.y < self.size
    }

    /// Get the spot at point on the board.
    pub(crate) fn get_spot(&self, point: &Point) -> (r: GameSpot)
        requires
            self.wf(),
            in_bounds(self.size as nat, *point),
        ensures
            r == self.spot_at(*point),
    {
        self.spots[point.x][point.y]
    }

    /// Set the spot at point on the board.
    pub(crate) fn set_spot(&mut self, point: &Point, spot: GameSpot)
        requires
            old(self).wf(),
            in_bounds(old(self).size as nat, *point),
        ensures
            final(self).wf(),
            final(self).size == old(self).size,
            final(self).lines == old(self).lines,
            forall|p: Point|
                in_bounds(old(self).size as nat, p) ==> final(self).spot_at(p) == (if p == *point {
                    spot
                } else {
                    old(self).spot_at(p)
                }),
    {
        self.spots[point.x][point.y] = spot;
    }

    /// Return true if all the spots on the board are taken, otherwise false.
    pub(crate) fn is_full(&self) -> (r: bool)
        requires
            self.wf(),
        ensures
            r == (forall|p: Point| in_bounds(self.size as nat, p) ==> !(self.spot_at(p) is Empty)),
    {
        let mut x: usize = 0;
        while x < self.size
            invariant
                self.wf(),
                x <= self.size,
                forall|p: Point|
                    in_bounds(self.size as nat, p) && p.x < x ==> !(self.spot_at(p) is Empty),
            decreases self.size - x,
        {
            let mut y: usize = 0;
            while y < self.size
                invariant
                    self.wf(),
                    x < self.size,
                    y <= self.size,
                    forall|p: Point|
                        in_bounds(self.size as nat, p) && (p.x < x || (p.x == x && p.y < y)) ==> !(
                        self.spot_at(p) is Empty),
                decreases self.size - y,
            {
                if self.spots[x][y].is_empty() {
                    assert(in_bounds(self.size as nat, Point { x, y }) && self.spot_at(Point { x, y }) is Empty);
                    return false;
                }
                y += 1;
            }
            x += 1;
        }
        true
    }
}

} // verus!
