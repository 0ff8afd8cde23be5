//! What holds of the rules on every board, proved from their definitions.

use vstd::prelude::*;

use crate::color::Color;
use crate::marker::ClickState;
use crate::position::touching;
use crate::rules::{
    breaks_rule, clicked, color_tally, column_tally, complete, judged, king_at, king_total,
    kings_in_column, kings_in_row, kings_in_rows, kings_of_color, kings_of_color_in_row,
    row_tally, same_kings, touches_king, well_shaped, MAX_KINGS,
};

verus! {

/// Whether `(x, y)` is a cell of the board.
pub open spec fn on_board(marks: Seq<Seq<ClickState>>, x: int, y: int) -> bool {
    0 <= y < marks.len() && 0 <= x < marks[y].len()
}

/// Rows with kings on the same cells hold as many kings.
proof fn lemma_row_agrees(a: Seq<ClickState>, b: Seq<ClickState>, n: int)
    requires
        forall|x: int| 0 <= x < n ==> (#[trigger] a[x]).holds_king() == (#[trigger] b[x]).holds_king(),
    ensures
        kings_in_row(a, n) == kings_in_row(b, n),
    decreases n,
{
    if n > 0 {
        lemma_row_agrees(a, b, n - 1);
    }
}

/// Columns with kings on the same cells hold as many kings.
proof fn lemma_column_agrees(a: Seq<Seq<ClickState>>, b: Seq<Seq<ClickState>>, x: int, n: int)
    requires
        forall|y: int|
            0 <= y < n ==> (#[trigger] a[y][x]).holds_king() == (#[trigger] b[y][x]).holds_king(),
    ensures
        kings_in_column(a, x, n) == kings_in_column(b, x, n),
    decreases n,
{
    if n > 0 {
        lemma_column_agrees(a, b, x, n - 1);
    }
}

/// Rows with kings on the same cells hold as many kings of each colour.
proof fn lemma_color_row_agrees(
    hues: Seq<Color>,
    a: Seq<ClickState>,
    b: Seq<ClickState>,
    c: Color,
    n: int,
)
    requires
        forall|x: int| 0 <= x < n ==> (#[trigger] a[x]).holds_king() == (#[trigger] b[x]).holds_king(),
    ensures
        kings_of_color_in_row(hues, a, c, n) == kings_of_color_in_row(hues, b, c, n),
    decreases n,
{
    if n > 0 {
        lemma_color_row_agrees(hues, a, b, c, n - 1);
    }
}

/// Boards with kings on the same cells hold as many kings of each colour.
proof fn lemma_color_agrees(
    colors: Seq<Seq<Color>>,
    a: Seq<Seq<ClickState>>,
    b: Seq<Seq<ClickState>>,
    c: Color,
    n: int,
)
    requires
        same_kings(a, b),
        n <= a.len(),
    ensures
        kings_of_color(colors, a, c, n) == kings_of_color(colors, b, c, n),
    decreases n,
{
    if n > 0 {
        lemma_color_agrees(colors, a, b, c, n - 1);
        lemma_color_row_agrees(colors[n - 1], a[n - 1], b[n - 1], c, a[n - 1].len() as int);
    }
}

/// Boards with kings on the same cells hold as many kings.
proof fn lemma_rows_agree(a: Seq<Seq<ClickState>>, b: Seq<Seq<ClickState>>, n: int)
    requires
        same_kings(a, b),
        n <= a.len(),
    ensures
        kings_in_rows(a, n) == kings_in_rows(b, n),
    decreases n,
{
    if n > 0 {
        lemma_rows_agree(a, b, n - 1);
        lemma_row_agrees(a[n - 1], b[n - 1], a[n - 1].len() as int);
    }
}

/// On boards with kings on the same cells, the same cells touch a king.
proof fn lemma_touch_agrees(a: Seq<Seq<ClickState>>, b: Seq<Seq<ClickState>>, x: int, y: int)
    requires
        same_kings(a, b),
    ensures
        touches_king(a, x, y) == touches_king(b, x, y),
{
    assert forall|nx: int, ny: int| king_at(a, nx, ny) == king_at(b, nx, ny) by {
        if 0 <= ny < a.len() && 0 <= nx < a[ny].len() {
            assert(a[ny][nx].holds_king() == b[ny][nx].holds_king());
        }
    }
}

/// The verdict on a cell depends on where the kings stand and on nothing
/// else: two boards with kings on the same cells give every cell the same
/// verdict, whatever flags the kings carry.
pub proof fn lemma_verdict_ignores_flags(
    colors: Seq<Seq<Color>>,
    a: Seq<Seq<ClickState>>,
    b: Seq<Seq<ClickState>>,
    x: int,
    y: int,
)
    requires
        well_shaped(colors, a),
        same_kings(a, b),
        on_board(a, x, y),
    ensures
        breaks_rule(colors, a, x, y) == breaks_rule(colors, b, x, y),
{
    lemma_touch_agrees(a, b, x, y);
    lemma_row_agrees(a[y], b[y], a[y].len() as int);
    assert forall|r: int| 0 <= r < a.len() implies (#[trigger] a[r][x]).holds_king() == (
    #[trigger] b[r][x]).holds_king() by {
        assert(a[r].len() == a[y].len());
    }
    lemma_column_agrees(a, b, x, a.len() as int);
    lemma_color_agrees(colors, a, b, colors[y][x], a.len() as int);
}

/// Judging a board moves no king and sets none down: the judged board has
/// kings on the very cells of the board it came from, and the same shape.
pub proof fn lemma_judging_keeps_kings(colors: Seq<Seq<Color>>, marks: Seq<Seq<ClickState>>)
    requires
        well_shaped(colors, marks),
    ensures
        well_shaped(colors, judged(colors, marks)),
        same_kings(marks, judged(colors, marks)),
        forall|x: int, y: int|
            on_board(marks, x, y) && !marks[y][x].holds_king() ==> #[trigger] judged(
                colors,
                marks,
            )[y][x] == marks[y][x],
{
}

/// Judging a board twice in a row gives what judging it once gives: the same
/// mark on every cell, and the same answer to whether the board is full.
pub proof fn lemma_judging_twice(colors: Seq<Seq<Color>>, marks: Seq<Seq<ClickState>>)
    requires
        well_shaped(colors, marks),
    ensures
        judged(colors, judged(colors, marks)) == judged(colors, marks),
        complete(judged(colors, marks)) == complete(marks),
{
    let once = judged(colors, marks);
    let twice = judged(colors, once);
    lemma_judging_keeps_kings(colors, marks);
    assert forall|y: int| 0 <= y < once.len() implies #[trigger] twice[y] == once[y] by {
        assert forall|x: int| 0 <= x < once[y].len() implies #[trigger] twice[y][x] == once[y][x] by {
            lemma_verdict_ignores_flags(colors, marks, once, x, y);
        }
        assert(twice[y] =~= once[y]);
    }
    assert(twice =~= once);
    lemma_rows_agree(marks, once, marks.len() as int);
}

/// Whether the board is full depends on the number of kings alone: two
/// boards with kings on the same cells are both full or both not, whatever
/// flags those kings carry.
pub proof fn lemma_completion_ignores_flags(a: Seq<Seq<ClickState>>, b: Seq<Seq<ClickState>>)
    requires
        a.len() >= 1,
        same_kings(a, b),
    ensures
        king_total(a) == king_total(b),
        complete(a) == complete(b),
{
    lemma_rows_agree(a, b, a.len() as int);
}

/// Two kings that touch are both flagged when the board is judged.
pub proof fn lemma_touching_kings_both_flagged(
    colors: Seq<Seq<Color>>,
    marks: Seq<Seq<ClickState>>,
    x1: int,
    y1: int,
    x2: int,
    y2: int,
)
    requires
        well_shaped(colors, marks),
        king_at(marks, x1, y1),
        king_at(marks, x2, y2),
        touching(x1, y1, x2, y2),
    ensures
        judged(colors, marks)[y1][x1] == ClickState::King(true),
        judged(colors, marks)[y2][x2] == ClickState::King(true),
{
    assert(touches_king(marks, x1, y1));
    assert(touching(x2, y2, x1, y1));
    assert(touches_king(marks, x2, y2));
}

/// A king that no king touches, in a row, a column and a colour that hold no
/// more than `MAX_KINGS` kings, is not flagged when the board is judged.
pub proof fn lemma_lone_king_not_flagged(
    colors: Seq<Seq<Color>>,
    marks: Seq<Seq<ClickState>>,
    x: int,
    y: int,
)
    requires
        well_shaped(colors, marks),
        king_at(marks, x, y),
        !touches_king(marks, x, y),
        row_tally(marks, y) <= MAX_KINGS,
        column_tally(marks, x) <= MAX_KINGS,
        color_tally(colors, marks, colors[y][x]) <= MAX_KINGS,
    ensures
        judged(colors, marks)[y][x] == ClickState::King(false),
{
}

/// The cycle of a cell: an empty cell becomes eliminated, an eliminated one
/// gets a king without a flag, and a king, flagged or not, gives way to an
/// empty cell.
pub proof fn lemma_cycle_order(flag: bool)
    ensures
        ClickState::Empty.successor() == ClickState::Eliminated,
        ClickState::Eliminated.successor() == ClickState::King(false),
        ClickState::King(flag).successor() == ClickState::Empty,
{
}

/// Three steps along the cycle lead back to the mark they started from. A
/// flagged king is the one mark that is not on the cycle: three steps from it
/// end on the king without its flag.
pub proof fn lemma_three_steps(mark: ClickState)
    ensures
        mark != ClickState::King(true) ==> mark.successor().successor().successor() == mark,
        mark == ClickState::King(true) ==> mark.successor().successor().successor()
            == ClickState::King(false),
{
}

/// A click changes the cell it falls on and no other, and keeps the shape of
/// the board.
pub proof fn lemma_click_is_local(
    colors: Seq<Seq<Color>>,
    marks: Seq<Seq<ClickState>>,
    x: int,
    y: int,
)
    requires
        well_shaped(colors, marks),
        on_board(marks, x, y),
    ensures
        well_shaped(colors, clicked(marks, x, y)),
        clicked(marks, x, y)[y][x] == marks[y][x].successor(),
        forall|ox: int, oy: int|
            on_board(marks, ox, oy) && !(ox == x && oy == y) ==> #[trigger] clicked(
                marks,
                x,
                y,
            )[oy][ox] == marks[oy][ox],
{
}

/// Three clicks on one cell give the board back, unless the cell held a
/// flagged king.
pub proof fn lemma_three_clicks(marks: Seq<Seq<ClickState>>, x: int, y: int)
    requires
        on_board(marks, x, y),
        marks[y][x] != ClickState::King(true),
    ensures
        clicked(clicked(clicked(marks, x, y), x, y), x, y) == marks,
{
    let thrice = clicked(clicked(clicked(marks, x, y), x, y), x, y);
    assert(thrice[y] =~= marks[y]);
    assert(thrice =~= marks);
}

/// A longer stretch of a row holds no fewer kings.
proof fn lemma_row_grows(row: Seq<ClickState>, m: int, n: int)
    requires
        m <= n,
    ensures
        kings_in_row(row, m) <= kings_in_row(row, n),
    decreases n - m,
{
    if m < n {
        lemma_row_grows(row, m, n - 1);
    }
}

/// A longer stretch of a column holds no fewer kings.
proof fn lemma_column_grows(marks: Seq<Seq<ClickState>>, x: int, m: int, n: int)
    requires
        m <= n,
    ensures
        kings_in_column(marks, x, m) <= kings_in_column(marks, x, n),
    decreases n - m,
{
    if m < n {
        lemma_column_grows(marks, x, m, n - 1);
    }
}

/// A longer stretch of a row holds no fewer kings of a colour.
proof fn lemma_color_row_grows(hues: Seq<Color>, row: Seq<ClickState>, c: Color, m: int, n: int)
    requires
        m <= n,
    ensures
        kings_of_color_in_row(hues, row, c, m) <= kings_of_color_in_row(hues, row, c, n),
    decreases n - m,
{
    if m < n {
        lemma_color_row_grows(hues, row, c, m, n - 1);
    }
}

/// More rows hold no fewer kings of a colour.
proof fn lemma_color_grows(
    colors: Seq<Seq<Color>>,
    marks: Seq<Seq<ClickState>>,
    c: Color,
    m: int,
    n: int,
)
    requires
        m <= n,
    ensures
        kings_of_color(colors, marks, c, m) <= kings_of_color(colors, marks, c, n),
    decreases n - m,
{
    if m < n {
        lemma_color_grows(colors, marks, c, m, n - 1);
    }
}

/// More rows hold no fewer kings.
proof fn lemma_rows_grow(marks: Seq<Seq<ClickState>>, m: int, n: int)
    requires
        m <= n,
    ensures
        kings_in_rows(marks, m) <= kings_in_rows(marks, n),
    decreases n - m,
{
    if m < n {
        lemma_rows_grow(marks, m, n - 1);
    }
}

/// A row with kings on three cells holds at least three kings.
proof fn lemma_row_holds_three(row: Seq<ClickState>, n: int, a: int, b: int, c: int)
    requires
        0 <= a < b < c < n,
        row[a].holds_king(),
        row[b].holds_king(),
        row[c].holds_king(),
    ensures
        kings_in_row(row, n) >= 3,
{
    lemma_row_grows(row, 0, a);
    lemma_row_grows(row, a + 1, b);
    lemma_row_grows(row, b + 1, c);
    lemma_row_grows(row, c + 1, n);
}

/// A column with kings on three cells holds at least three kings.
proof fn lemma_column_holds_three(
    marks: Seq<Seq<ClickState>>,
    x: int,
    n: int,
    a: int,
    b: int,
    c: int,
)
    requires
        0 <= a < b < c < n,
        marks[a][x].holds_king(),
        marks[b][x].holds_king(),
        marks[c][x].holds_king(),
    ensures
        kings_in_column(marks, x, n) >= 3,
{
    lemma_column_grows(marks, x, 0, a);
    lemma_column_grows(marks, x, a + 1, b);
    lemma_column_grows(marks, x, b + 1, c);
    lemma_column_grows(marks, x, c + 1, n);
}

/// The kings of colour `c` that come before `(x, y)`, reading row by row.
spec fn kings_of_color_before(
    colors: Seq<Seq<Color>>,
    marks: Seq<Seq<ClickState>>,
    c: Color,
    x: int,
    y: int,
) -> nat {
    kings_of_color(colors, marks, c, y) + kings_of_color_in_row(colors[y], marks[y], c, x)
}

/// Whether `(x1, y1)` comes before `(x2, y2)`, reading row by row.
spec fn reads_before(x1: int, y1: int, x2: int, y2: int) -> bool {
    y1 < y2 || (y1 == y2 && x1 < x2)
}

/// A king of colour `c` is counted once the reading has passed it.
proof fn lemma_color_counts_cell(
    colors: Seq<Seq<Color>>,
    marks: Seq<Seq<ClickState>>,
    c: Color,
    x1: int,
    y1: int,
    x2: int,
    y2: int,
)
    requires
        on_board(marks, x1, y1),
        on_board(marks, x2, y2) || (y2 == marks.len() && x2 == 0),
        reads_before(x1, y1, x2, y2),
        marks[y1][x1].holds_king(),
        colors[y1][x1] == c,
    ensures
        kings_of_color_before(colors, marks, c, x1, y1) + 1 <= kings_of_color_before(
            colors,
            marks,
            c,
            x2,
            y2,
        ),
{
    let width = marks[y1].len() as int;
    if y1 == y2 {
        lemma_color_row_grows(colors[y1], marks[y1], c, x1 + 1, x2);
    } else {
        lemma_color_row_grows(colors[y1], marks[y1], c, x1 + 1, width);
        lemma_color_grows(colors, marks, c, y1 + 1, y2);
    }
}

/// A colour with kings on three cells holds at least three kings.
proof fn lemma_color_holds_three(
    colors: Seq<Seq<Color>>,
    marks: Seq<Seq<ClickState>>,
    c: Color,
    x1: int,
    y1: int,
    x2: int,
    y2: int,
    x3: int,
    y3: int,
)
    requires
        on_board(marks, x1, y1),
        on_board(marks, x2, y2),
        on_board(marks, x3, y3),
        reads_before(x1, y1, x2, y2),
        reads_before(x2, y2, x3, y3),
        marks[y1][x1].holds_king() && colors[y1][x1] == c,
        marks[y2][x2].holds_king() && colors[y2][x2] == c,
        marks[y3][x3].holds_king() && colors[y3][x3] == c,
    ensures
        color_tally(colors, marks, c) >= 3,
{
    lemma_color_counts_cell(colors, marks, c, x1, y1, x2, y2);
    lemma_color_counts_cell(colors, marks, c, x2, y2, x3, y3);
    lemma_color_counts_cell(colors, marks, c, x3, y3, 0, marks.len() as int);
}

/// Three kings in one row are all flagged when the board is judged, wherever
/// in the row they stand.
pub proof fn lemma_three_kings_in_a_row(
    colors: Seq<Seq<Color>>,
    marks: Seq<Seq<ClickState>>,
    y: int,
    x1: int,
    x2: int,
    x3: int,
)
    requires
        well_shaped(colors, marks),
        king_at(marks, x1, y),
        king_at(marks, x2, y),
        king_at(marks, x3, y),
        x1 != x2 && x1 != x3 && x2 != x3,
    ensures
        row_tally(marks, y) > MAX_KINGS,
        judged(colors, marks)[y][x1] == ClickState::King(true),
        judged(colors, marks)[y][x2] == ClickState::King(true),
        judged(colors, marks)[y][x3] == ClickState::King(true),
{
    let row = marks[y];
    let n = row.len() as int;
    if x1 < x2 && x2 < x3 {
        lemma_row_holds_three(row, n, x1, x2, x3);
    } else if x1 < x3 && x3 < x2 {
        lemma_row_holds_three(row, n, x1, x3, x2);
    } else if x2 < x1 && x1 < x3 {
        lemma_row_holds_three(row, n, x2, x1, x3);
    } else if x2 < x3 && x3 < x1 {
        lemma_row_holds_three(row, n, x2, x3, x1);
    } else if x3 < x1 && x1 < x2 {
        lemma_row_holds_three(row, n, x3, x1, x2);
    } else {
        lemma_row_holds_three(row, n, x3, x2, x1);
    }
}

/// Three kings in one column are all flagged when the board is judged,
/// wherever in the column they stand.
pub proof fn lemma_three_kings_in_a_column(
    colors: Seq<Seq<Color>>,
    marks: Seq<Seq<ClickState>>,
    x: int,
    y1: int,
    y2: int,
    y3: int,
)
    requires
        well_shaped(colors, marks),
        king_at(marks, x, y1),
        king_at(marks, x, y2),
        king_at(marks, x, y3),
        y1 != y2 && y1 != y3 && y2 != y3,
    ensures
        column_tally(marks, x) > MAX_KINGS,
        judged(colors, marks)[y1][x] == ClickState::King(true),
        judged(colors, marks)[y2][x] == ClickState::King(true),
        judged(colors, marks)[y3][x] == ClickState::King(true),
{
    let n = marks.len() as int;
    if y1 < y2 && y2 < y3 {
        lemma_column_holds_three(marks, x, n, y1, y2, y3);
    } else if y1 < y3 && y3 < y2 {
        lemma_column_holds_three(marks, x, n, y1, y3, y2);
    } else if y2 < y1 && y1 < y3 {
        lemma_column_holds_three(marks, x, n, y2, y1, y3);
    } else if y2 < y3 && y3 < y1 {
        lemma_column_holds_three(marks, x, n, y2, y3, y1);
    } else if y3 < y1 && y1 < y2 {
        lemma_column_holds_three(marks, x, n, y3, y1, y2);
    } else {
        lemma_column_holds_three(marks, x, n, y3, y2, y1);
    }
}

/// Three kings on cells of one colour are all flagged when the board is
/// judged, wherever on the board they stand.
pub proof fn lemma_three_kings_of_a_color(
    colors: Seq<Seq<Color>>,
    marks: Seq<Seq<ClickState>>,
    x1: int,
    y1: int,
    x2: int,
    y2: int,
    x3: int,
    y3: int,
)
    requires
        well_shaped(colors, marks),
        king_at(marks, x1, y1),
        king_at(marks, x2, y2),
        king_at(marks, x3, y3),
        !(x1 == x2 && y1 == y2) && !(x1 == x3 && y1 == y3) && !(x2 == x3 && y2 == y3),
        colors[y1][x1] == colors[y2][x2],
        colors[y1][x1] == colors[y3][x3],
    ensures
        color_tally(colors, marks, colors[y1][x1]) > MAX_KINGS,
        judged(colors, marks)[y1][x1] == ClickState::King(true),
        judged(colors, marks)[y2][x2] == ClickState::King(true),
        judged(colors, marks)[y3][x3] == ClickState::King(true),
{
    let c = colors[y1][x1];
    if reads_before(x1, y1, x2, y2) && reads_before(x2, y2, x3, y3) {
        lemma_color_holds_three(colors, marks, c, x1, y1, x2, y2, x3, y3);
    } else if reads_before(x1, y1, x3, y3) && reads_before(x3, y3, x2, y2) {
        lemma_color_holds_three(colors, marks, c, x1, y1, x3, y3, x2, y2);
    } else if reads_before(x2, y2, x1, y1) && reads_before(x1, y1, x3, y3) {
        lemma_color_holds_three(colors, marks, c, x2, y2, x1, y1, x3, y3);
    } else if reads_before(x2, y2, x3, y3) && reads_before(x3, y3, x1, y1) {
        lemma_color_holds_three(colors, marks, c, x2, y2, x3, y3, x1, y1);
    } else if reads_before(x3, y3, x1, y1) && reads_before(x1, y1, x2, y2) {
        lemma_color_holds_three(colors, marks, c, x3, y3, x1, y1, x2, y2);
    } else {
        lemma_color_holds_three(colors, marks, c, x3, y3, x2, y2, x1, y1);
    }
}

/// A row holds no more kings of one colour than kings.
proof fn lemma_color_row_within_row(hues: Seq<Color>, row: Seq<ClickState>, c: Color, n: int)
    ensures
        kings_of_color_in_row(hues, row, c, n) <= kings_in_row(row, n),
    decreases n,
{
    if n > 0 {
        lemma_color_row_within_row(hues, row, c, n - 1);
    }
}

/// A board holds no more kings of one colour than kings.
proof fn lemma_color_within_total(
    colors: Seq<Seq<Color>>,
    marks: Seq<Seq<ClickState>>,
    c: Color,
    n: int,
)
    ensures
        kings_of_color(colors, marks, c, n) <= kings_in_rows(marks, n),
    decreases n,
{
    if n > 0 {
        lemma_color_within_total(colors, marks, c, n - 1);
        lemma_color_row_within_row(colors[n - 1], marks[n - 1], c, marks[n - 1].len() as int);
    }
}

/// A column holds no more kings than the rows it crosses.
proof fn lemma_column_within_total(marks: Seq<Seq<ClickState>>, x: int, n: int)
    requires
        n <= marks.len(),
        0 <= x,
        forall|y: int| 0 <= y < n ==> x < (#[trigger] marks[y]).len(),
    ensures
        kings_in_column(marks, x, n) <= kings_in_rows(marks, n),
    decreases n,
{
    if n > 0 {
        lemma_column_within_total(marks, x, n - 1);
        let row = marks[n - 1];
        if row[x].holds_king() {
            lemma_row_grows(row, 0, x);
            lemma_row_grows(row, x + 1, row.len() as int);
        }
    }
}

/// No row, no column and no colour holds more kings than the whole board.
pub proof fn lemma_tallies_within_total(
    colors: Seq<Seq<Color>>,
    marks: Seq<Seq<ClickState>>,
    x: int,
    y: int,
    c: Color,
)
    requires
        well_shaped(colors, marks),
        on_board(marks, x, y),
    ensures
        row_tally(marks, y) <= king_total(marks),
        column_tally(marks, x) <= king_total(marks),
        color_tally(colors, marks, c) <= king_total(marks),
{
    lemma_rows_grow(marks, 0, y);
    lemma_rows_grow(marks, y + 1, marks.len() as int);
    assert forall|r: int| 0 <= r < marks.len() implies x < (#[trigger] marks[r]).len() by {
        assert(marks[r].len() == marks[y].len());
    }
    lemma_column_within_total(marks, x, marks.len() as int);
    lemma_color_within_total(colors, marks, c, marks.len() as int);
}

/// On a board with no more than `MAX_KINGS` kings in all, a king that no king
/// touches is not flagged when the board is judged: two kings that do not
/// touch are never flagged while they are alone on the board.
pub proof fn lemma_few_kings_apart(
    colors: Seq<Seq<Color>>,
    marks: Seq<Seq<ClickState>>,
    x: int,
    y: int,
)
    requires
        well_shaped(colors, marks),
        king_at(marks, x, y),
        !touches_king(marks, x, y),
        king_total(marks) <= MAX_KINGS,
    ensures
        judged(colors, marks)[y][x] == ClickState::King(false),
{
    lemma_tallies_within_total(colors, marks, x, y, colors[y][x]);
}

} // verus!
