//! The placement rules, stated over the two matrices of a grid: the colour of
//! each cell and the mark on it. A matrix is a sequence of rows, and `m[y][x]`
//! is the cell in row `y` and column `x`.

use vstd::prelude::*;

use crate::color::Color;
use crate::marker::ClickState;
use crate::position::touching;

verus! {

/// The most kings that a row, a column or a colour may hold.
pub const MAX_KINGS: usize = 2;

/// Whether the matrix has `height` rows of `width` cells each.
pub open spec fn rectangular<T>(m: Seq<Seq<T>>, width: int, height: int) -> bool {
    &&& m.len() == height
    &&& forall|y: int| 0 <= y < height ==> (#[trigger] m[y]).len() == width
}

/// Whether the two matrices are those of one grid: both have the same number
/// of rows, at least one, and every row of either has the same number of
/// cells, at least one.
pub open spec fn well_shaped(colors: Seq<Seq<Color>>, marks: Seq<Seq<ClickState>>) -> bool {
    &&& colors.len() >= 1
    &&& colors[0].len() >= 1
    &&& rectangular(colors, colors[0].len() as int, colors.len() as int)
    &&& rectangular(marks, colors[0].len() as int, colors.len() as int)
}

/// Whether two matrices of marks have kings on the same cells, whatever the
/// flags of those kings and whatever the other cells hold.
pub open spec fn same_kings(a: Seq<Seq<ClickState>>, b: Seq<Seq<ClickState>>) -> bool {
    &&& a.len() == b.len()
    &&& forall|y: int| 0 <= y < a.len() ==> (#[trigger] a[y]).len() == (#[trigger] b[y]).len()
    &&& forall|y: int, x: int|
        0 <= y < a.len() && 0 <= x < a[y].len() ==> (#[trigger] a[y][x]).holds_king() == (
        #[trigger] b[y][x]).holds_king()
}

/// Whether `(x, y)` is a cell of the matrix and holds a king.
pub open spec fn king_at(marks: Seq<Seq<ClickState>>, x: int, y: int) -> bool {
    &&& 0 <= y < marks.len()
    &&& 0 <= x < marks[y].len()
    &&& marks[y][x].holds_king()
}

/// Whether a cell that touches `(x, y)` holds a king.
pub open spec fn touches_king(marks: Seq<Seq<ClickState>>, x: int, y: int) -> bool {
    exists|nx: int, ny: int| touching(x, y, nx, ny) && #[trigger] king_at(marks, nx, ny)
}

/// The number of kings among the first `n` cells of a row.
pub open spec fn kings_in_row(row: Seq<ClickState>, n: int) -> nat
    decreases n,
{
    if n <= 0 {
        0
    } else {
        kings_in_row(row, n - 1) + if row[n - 1].holds_king() {
            1nat
        } else {
            0nat
        }
    }
}

/// The number of kings in column `x` among the first `n` rows.
pub open spec fn kings_in_column(marks: Seq<Seq<ClickState>>, x: int, n: int) -> nat
    decreases n,
{
    if n <= 0 {
        0
    } else {
        kings_in_column(marks, x, n - 1) + if marks[n - 1][x].holds_king() {
            1nat
        } else {
            0nat
        }
    }
}

/// The number of kings on cells of colour `c` among the first `n` cells of a
/// row, given the colours of that row.
pub open spec fn kings_of_color_in_row(
    hues: Seq<Color>,
    row: Seq<ClickState>,
    c: Color,
    n: int,
) -> nat
    decreases n,
{
    if n <= 0 {
        0
    } else {
        kings_of_color_in_row(hues, row, c, n - 1) + if row[n - 1].holds_king() && hues[n - 1]
            == c {
            1nat
        } else {
            0nat
        }
    }
}

/// The number of kings on cells of colour `c` in the first `n` rows.
pub open spec fn kings_of_color(
    colors: Seq<Seq<Color>>,
    marks: Seq<Seq<ClickState>>,
    c: Color,
    n: int,
) -> nat
    decreases n,
{
    if n <= 0 {
        0
    } else {
        kings_of_color(colors, marks, c, n - 1) + kings_of_color_in_row(
            colors[n - 1],
            marks[n - 1],
            c,
            marks[n - 1].len() as int,
        )
    }
}

/// The number of kings in the first `n` rows.
pub open spec fn kings_in_rows(marks: Seq<Seq<ClickState>>, n: int) -> nat
    decreases n,
{
    if n <= 0 {
        0
    } else {
        kings_in_rows(marks, n - 1) + kings_in_row(marks[n - 1], marks[n - 1].len() as int)
    }
}

/// The number of kings in row `y`.
pub open spec fn row_tally(marks: Seq<Seq<ClickState>>, y: int) -> nat {
    kings_in_row(marks[y], marks[y].len() as int)
}

/// The number of kings in column `x`.
pub open spec fn column_tally(marks: Seq<Seq<ClickState>>, x: int) -> nat {
    kings_in_column(marks, x, marks.len() as int)
}

/// The number of kings on cells of colour `c`, anywhere on the board.
pub open spec fn color_tally(colors: Seq<Seq<Color>>, marks: Seq<Seq<ClickState>>, c: Color) -> nat {
    kings_of_color(colors, marks, c, marks.len() as int)
}

/// The number of kings on the board.
pub open spec fn king_total(marks: Seq<Seq<ClickState>>) -> nat {
    kings_in_rows(marks, marks.len() as int)
}

/// Whether a king on `(x, y)` breaks a rule: another king touches it, or its
/// row, its column or its colour holds more than `MAX_KINGS` kings.
pub open spec fn breaks_rule(
    colors: Seq<Seq<Color>>,
    marks: Seq<Seq<ClickState>>,
    x: int,
    y: int,
) -> bool {
    ||| touches_king(marks, x, y)
    ||| row_tally(marks, y) > MAX_KINGS
    ||| column_tally(marks, x) > MAX_KINGS
    ||| color_tally(colors, marks, colors[y][x]) > MAX_KINGS
}

/// What the cell `(x, y)` holds once the board is judged: a king gets the
/// flag that the rules give it, whatever flag it had; any other mark stays.
pub open spec fn judged_cell(
    colors: Seq<Seq<Color>>,
    marks: Seq<Seq<ClickState>>,
    x: int,
    y: int,
) -> ClickState {
    match marks[y][x] {
        ClickState::King(_) => ClickState::King(breaks_rule(colors, marks, x, y)),
        other => other,
    }
}

/// The marks of the board once every cell is judged.
pub open spec fn judged(colors: Seq<Seq<Color>>, marks: Seq<Seq<ClickState>>) -> Seq<
    Seq<ClickState>,
> {
    Seq::new(
        marks.len(),
        |y: int| Seq::new(marks[y].len(), |x: int| judged_cell(colors, marks, x, y)),
    )
}

/// Whether the board is full: it holds `MAX_KINGS` kings for every column.
/// Only the number of kings counts, not their flags.
pub open spec fn complete(marks: Seq<Seq<ClickState>>) -> bool {
    king_total(marks) == MAX_KINGS * marks[0].len()
}

/// The marks after one click on `(x, y)`: that cell moves one step along the
/// cycle, and no other cell changes.
pub open spec fn clicked(marks: Seq<Seq<ClickState>>, x: int, y: int) -> Seq<Seq<ClickState>> {
    marks.update(y, marks[y].update(x, marks[y][x].successor()))
}

} // verus!
