//! Cells of the grid and the cells that touch them.

use vstd::prelude::*;

verus! {

/// A cell of the grid: column `x`, row `y`.
#[derive(Clone, Copy, Debug, PartialEq, Eq, Structural)]
pub struct Position {
    pub x: usize,
    pub y: usize,
}

impl Position {
    /// The cell in column `x` and row `y`.
    pub fn new(x: usize, y: usize) -> (p: Position)
        ensures
            p.x == x,
            p.y == y,
    {
        Position { x, y }
    }

    /// Reading order by columns: a smaller `x` comes first, and within a
    /// column a smaller `y`.
    pub open spec fn precedes(self, other: Position) -> bool {
        self.x < other.x || (self.x == other.x && self.y < other.y)
    }
}

/// Whether `(nx, ny)` touches `(x, y)`: it lies in the three by three block
/// around it, by a side or by a corner, and is not the cell itself.
pub open spec fn touching(x: int, y: int, nx: int, ny: int) -> bool {
    &&& x - 1 <= nx <= x + 1
    &&& y - 1 <= ny <= y + 1
    &&& !(nx == x && ny == y)
}

/// Whether `p` is a cell of a `width` by `height` grid that touches `(x, y)`.
pub open spec fn is_neighbor(p: Position, x: usize, y: usize, width: usize, height: usize) -> bool {
    &&& touching(x as int, y as int, p.x as int, p.y as int)
    &&& p.x < width
    &&& p.y < height
}

/// The cells of a `width` by `height` grid that touch `(x, y)`: each of them
/// once, by columns. A centre outside the grid is no error; it has the
/// neighbours that happen to lie inside.
pub fn touching_neighbors(x: usize, y: usize, width: usize, height: usize) -> (res: Vec<Position>)
    ensures
        forall|p: Position| res@.contains(p) <==> is_neighbor(p, x, y, width, height),
        forall|i: int, j: int| 0 <= i < j < res.len() ==> res[i].precedes(res[j]),
{
    let mut res: Vec<Position> = Vec::new();
    // The column of a neighbour is `x + i - 1`, its row `y + j - 1`.
    let mut i: usize = 0;
    while i < 3
        invariant
            i <= 3,
            forall|k: int| 0 <= k < res.len() ==> is_neighbor(#[trigger] res[k], x, y, width, height),
            forall|k: int| 0 <= k < res.len() ==> (#[trigger] res[k]).x + 1 < x + i,
            forall|p: Position|
                #[trigger] is_neighbor(p, x, y, width, height) && p.x + 1 < x + i ==> res@.contains(p),
            forall|a: int, b: int| 0 <= a < b < res.len() ==> res[a].precedes(res[b]),
        decreases 3 - i,
    {
        if (i > 0 || x > 0) && (i < 2 || x < usize::MAX) {
            let nx: usize = if i == 0 {
                x - 1
            } else {
                x + (i - 1)
            };
            if nx < width {
                let mut j: usize = 0;
                while j < 3
                    invariant
                        j <= 3,
                        i < 3,
                        nx + 1 == x + i,
                        nx < width,
                        forall|k: int|
                            0 <= k < res.len() ==> is_neighbor(#[trigger] res[k], x, y, width, height),
                        forall|k: int|
                            0 <= k < res.len() ==> (#[trigger] res[k]).x < nx || (res[k].x == nx
                                && res[k].y + 1 < y + j),
                        forall|p: Position|
                            #[trigger] is_neighbor(p, x, y, width, height) && (p.x < nx || (p.x == nx
                                && p.y + 1 < y + j)) ==> res@.contains(p),
                        forall|a: int, b: int| 0 <= a < b < res.len() ==> res[a].precedes(res[b]),
                    decreases 3 - j,
                {
                    if !(i == 1 && j == 1) && (j > 0 || y > 0) && (j < 2 || y < usize::MAX) {
                        let ny: usize = if j == 0 {
                            y - 1
                        } else {
                            y + (j - 1)
                        };
                        if ny < height {
                            let ghost before = res@;
                            let cell = Position { x: nx, y: ny };
                            res.push(cell);
                            assert(res@[before.len() as int] == cell);
                            assert forall|p: Position| before.contains(p) implies res@.contains(p) by {
                                let k = choose|k: int| 0 <= k < before.len() && before[k] == p;
                                assert(res@[k] == p);
                            }
                        }
                    }
                    j += 1;
                }
            }
        }
        i += 1;
    }
    res
}

} // verus!
