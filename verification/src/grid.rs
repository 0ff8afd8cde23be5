//! The grid: the colours it was made with, the marks the player has left on
//! it, and the engine that judges them.

use vstd::prelude::*;

use crate::color::{lemma_ordinal_at, Color, COLOR_COUNT};
use crate::marker::ClickState;
use crate::position::{is_neighbor, touching, touching_neighbors, Position};
use crate::rules::{
    clicked, color_tally, column_tally, complete, judged, judged_cell, king_at, king_total,
    kings_in_column, kings_in_row, kings_in_rows, kings_of_color, kings_of_color_in_row,
    rectangular, row_tally, touches_king, well_shaped, MAX_KINGS,
};

verus! {

/// The rows of a matrix that is held as a vector of vectors.
pub open spec fn rows_of<T>(m: Seq<Vec<T>>) -> Seq<Seq<T>> {
    Seq::new(m.len(), |y: int| m[y]@)
}

/// A matrix of the given size with no mark on any cell.
pub open spec fn blank(width: int, height: int) -> Seq<Seq<ClickState>> {
    Seq::new(height as nat, |y: int| Seq::new(width as nat, |x: int| ClickState::Empty))
}

/// Why a matrix of colours is not the colour matrix of a grid.
#[derive(Clone, Copy, Debug, PartialEq, Eq, Structural)]
pub enum ShapeError {
    /// There is no row.
    NoRows,
    /// The first row has no cell.
    NoColumns,
    /// The row with this index is not as long as the first one.
    Ragged { row: usize },
}

/// Whether `fault` is what is wrong with the matrix: the first thing that
/// keeps it from being a rectangle with at least one cell.
pub open spec fn shape_fault<T>(m: Seq<Seq<T>>, fault: ShapeError) -> bool {
    match fault {
        ShapeError::NoRows => m.len() == 0,
        ShapeError::NoColumns => m.len() > 0 && m[0].len() == 0,
        ShapeError::Ragged { row } => {
            &&& 0 < row < m.len()
            &&& m[0].len() > 0
            &&& m[row as int].len() != m[0].len()
            &&& forall|y: int| 0 <= y < row ==> (#[trigger] m[y]).len() == m[0].len()
        },
    }
}

/// A coloured grid and the marks on it.
#[derive(Debug)]
pub struct Grid {
    colors: Vec<Vec<Color>>,
    state: Vec<Vec<ClickState>>,
}

/// The number of kings by row, by column and by colour, and on the whole
/// board.
struct Tally {
    rows: Vec<usize>,
    columns: Vec<usize>,
    colors: Vec<u128>,
    total: u128,
}

impl Tally {
    spec fn is_of(&self, colors: Seq<Seq<Color>>, marks: Seq<Seq<ClickState>>) -> bool {
        &&& self.rows@.len() == marks.len()
        &&& forall|y: int| 0 <= y < marks.len() ==> #[trigger] self.rows@[y] == row_tally(marks, y)
        &&& self.columns@.len() == marks[0].len()
        &&& forall|x: int|
            0 <= x < marks[0].len() ==> #[trigger] self.columns@[x] == column_tally(marks, x)
        &&& self.colors@.len() == COLOR_COUNT
        &&& forall|i: int|
            0 <= i < COLOR_COUNT ==> #[trigger] self.colors@[i] == color_tally(
                colors,
                marks,
                Color::at(i),
            )
        &&& self.total == king_total(marks)
    }
}

/// A row never holds more kings than cells.
proof fn lemma_row_bound(row: Seq<ClickState>, n: int)
    requires
        0 <= n,
    ensures
        kings_in_row(row, n) <= n,
    decreases n,
{
    if n > 0 {
        lemma_row_bound(row, n - 1);
    }
}

/// A column never holds more kings than cells.
proof fn lemma_column_bound(marks: Seq<Seq<ClickState>>, x: int, n: int)
    requires
        0 <= n,
    ensures
        kings_in_column(marks, x, n) <= n,
    decreases n,
{
    if n > 0 {
        lemma_column_bound(marks, x, n - 1);
    }
}

/// The cells of a grid before `(x, y)` in reading order can be counted in a
/// `u128`, whatever the size of the grid.
proof fn lemma_cells_fit(x: int, y: int, width: int, height: int)
    requires
        0 <= x <= width <= usize::MAX,
        0 <= y < height <= usize::MAX,
    ensures
        0 <= y * width + x <= (y + 1) * width < u128::MAX,
        (y + 1) * width == y * width + width,
{
    assert(0 <= y * width && (y + 1) * width == y * width + width && (y + 1) * width <= height
        * width && height * width <= 0xffff_ffff_ffff_ffff * 0xffff_ffff_ffff_ffff)
        by (nonlinear_arith)
        requires
            0 <= width <= 0xffff_ffff_ffff_ffff,
            0 <= y < height <= 0xffff_ffff_ffff_ffff,
    ;
}

/// Counts the kings of a board by row, by column and by colour.
fn count_kings(colors: &Vec<Vec<Color>>, state: &Vec<Vec<ClickState>>) -> (tally: Tally)
    requires
        well_shaped(rows_of(colors@), rows_of(state@)),
    ensures
        tally.is_of(rows_of(colors@), rows_of(state@)),
{
    let ghost hues = rows_of(colors@);
    let ghost marks = rows_of(state@);
    let height: usize = colors.len();
    let width: usize = colors[0].len();
    let mut rows: Vec<usize> = Vec::new();
    let mut columns: Vec<usize> = Vec::new();
    let mut by_color: Vec<u128> = Vec::new();
    let mut total: u128 = 0;
    while columns.len() < width
        invariant
            columns.len() <= width,
            forall|x: int| 0 <= x < columns.len() ==> columns@[x] == 0,
        decreases width - columns.len(),
    {
        columns.push(0);
    }
    while by_color.len() < COLOR_COUNT
        invariant
            by_color.len() <= COLOR_COUNT,
            forall|i: int| 0 <= i < by_color.len() ==> by_color@[i] == 0,
        decreases COLOR_COUNT - by_color.len(),
    {
        by_color.push(0);
    }
    let mut y: usize = 0;
    while y < height
        invariant
            y <= height,
            hues == rows_of(colors@),
            marks == rows_of(state@),
            well_shaped(hues, marks),
            height == marks.len(),
            width == marks[0].len(),
            rows@.len() == y,
            columns@.len() == width,
            by_color@.len() == COLOR_COUNT,
            forall|r: int| 0 <= r < y ==> #[trigger] rows@[r] == row_tally(marks, r),
            forall|x: int|
                0 <= x < width ==> #[trigger] columns@[x] == kings_in_column(marks, x, y as int),
            forall|i: int|
                0 <= i < COLOR_COUNT ==> #[trigger] by_color@[i] == kings_of_color(
                    hues,
                    marks,
                    Color::at(i),
                    y as int,
                ),
            forall|i: int| 0 <= i < COLOR_COUNT ==> #[trigger] by_color@[i] <= y * width,
            total == kings_in_rows(marks, y as int),
            total <= y * width,
        decreases height - y,
    {
        let mut in_row: usize = 0;
        let mut x: usize = 0;
        while x < width
            invariant
                x <= width,
                y < height,
                hues == rows_of(colors@),
                marks == rows_of(state@),
                well_shaped(hues, marks),
                height == marks.len(),
                width == marks[0].len(),
                columns@.len() == width,
                by_color@.len() == COLOR_COUNT,
                in_row == kings_in_row(marks[y as int], x as int),
                forall|c: int|
                    0 <= c < width ==> #[trigger] columns@[c] == kings_in_column(
                        marks,
                        c,
                        if c < x {
                            y + 1
                        } else {
                            y as int
                        },
                    ),
                forall|i: int|
                    0 <= i < COLOR_COUNT ==> #[trigger] by_color@[i] == kings_of_color(
                        hues,
                        marks,
                        Color::at(i),
                        y as int,
                    ) + kings_of_color_in_row(hues[y as int], marks[y as int], Color::at(i), x as int),
                forall|i: int| 0 <= i < COLOR_COUNT ==> #[trigger] by_color@[i] <= y * width + x,
            decreases width - x,
        {
            assert(hues[y as int].len() == width);
            let cell = state[y][x];
            let hue = colors[y][x];
            proof {
                lemma_row_bound(marks[y as int], x as int);
                lemma_column_bound(marks, x as int, y as int);
                lemma_cells_fit(x as int, y as int, width as int, height as int);
                assert forall|i: int| 0 <= i < COLOR_COUNT implies (Color::at(i) == hue <==> i
                    == hue.ordinal()) by {
                    lemma_ordinal_at(hue, i);
                }
            }
            if cell.is_king() {
                in_row = in_row + 1;
                columns.set(x, columns[x] + 1);
                let place = hue.index();
                by_color.set(place, by_color[place] + 1);
            }
            x = x + 1;
        }
        proof {
            lemma_cells_fit(width as int, y as int, width as int, height as int);
            lemma_row_bound(marks[y as int], width as int);
        }
        rows.push(in_row);
        total = total + in_row as u128;
        y = y + 1;
    }
    Tally { rows, columns, colors: by_color, total }
}

/// Whether a king stands on a cell that touches `(x, y)`.
fn has_king_neighbor(state: &Vec<Vec<ClickState>>, x: usize, y: usize) -> (found: bool)
    requires
        state@.len() >= 1,
        rectangular(rows_of(state@), state@[0]@.len() as int, state@.len() as int),
    ensures
        found == touches_king(rows_of(state@), x as int, y as int),
{
    let ghost marks = rows_of(state@);
    let height: usize = state.len();
    let width: usize = state[0].len();
    let around = touching_neighbors(x, y, width, height);
    let mut k: usize = 0;
    while k < around.len()
        invariant
            k <= around.len(),
            marks == rows_of(state@),
            height == state@.len(),
            rectangular(marks, width as int, height as int),
            forall|p: Position| around@.contains(p) <==> is_neighbor(p, x, y, width, height),
            forall|j: int|
                0 <= j < k ==> !king_at(marks, (#[trigger] around@[j]).x as int, around@[j].y as int),
        decreases around.len() - k,
    {
        let p = around[k];
        assert(around@.contains(p));
        assert(marks[p.y as int] == state@[p.y as int]@);
        if state[p.y][p.x].is_king() {
            assert(king_at(marks, p.x as int, p.y as int));
            return true;
        }
        k = k + 1;
    }
    assert forall|nx: int, ny: int|
        touching(x as int, y as int, nx, ny) implies !#[trigger] king_at(marks, nx, ny) by {
        if king_at(marks, nx, ny) {
            let p = Position { x: nx as usize, y: ny as usize };
            assert(around@.contains(p));
            let j = choose|j: int| 0 <= j < around@.len() && around@[j] == p;
            assert(!king_at(marks, around@[j].x as int, around@[j].y as int));
        }
    }
    false
}

impl Grid {
    /// The colour of each cell, row by row.
    pub closed spec fn colors(&self) -> Seq<Seq<Color>> {
        rows_of(self.colors@)
    }

    /// The mark on each cell, row by row.
    pub closed spec fn marks(&self) -> Seq<Seq<ClickState>> {
        rows_of(self.state@)
    }

    /// The number of rows.
    pub open spec fn rows(&self) -> int {
        self.colors().len() as int
    }

    /// The number of cells in each row.
    pub open spec fn columns(&self) -> int {
        self.colors()[0].len() as int
    }

    /// Whether `position` is a cell of this grid.
    pub open spec fn holds(&self, position: Position) -> bool {
        position.x < self.columns() && position.y < self.rows()
    }

    /// What every grid keeps: the colours and the marks have the same shape,
    /// a rectangle with at least one cell.
    pub open spec fn wf(&self) -> bool {
        well_shaped(self.colors(), self.marks())
    }

    /// Makes a grid of the given colours with no mark on it. The colours must
    /// form a rectangle with at least one cell; the error says what is wrong
    /// with the first row that is not as it should be.
    pub fn new(colors: Vec<Vec<Color>>) -> (made: Result<Grid, ShapeError>)
        ensures
            match made {
                Ok(grid) => {
                    &&& grid.wf()
                    &&& grid.colors() == rows_of(colors@)
                    &&& grid.marks() == blank(grid.columns(), grid.rows())
                },
                Err(fault) => shape_fault(rows_of(colors@), fault),
            },
    {
        let ghost hues = rows_of(colors@);
        let height: usize = colors.len();
        if height == 0 {
            return Err(ShapeError::NoRows);
        }
        let width: usize = colors[0].len();
        if width == 0 {
            return Err(ShapeError::NoColumns);
        }
        let mut y: usize = 1;
        while y < height
            invariant
                1 <= y <= height,
                hues == rows_of(colors@),
                height == hues.len(),
                width == hues[0].len(),
                width >= 1,
                forall|r: int| 0 <= r < y ==> (#[trigger] hues[r]).len() == width,
            decreases height - y,
        {
            if colors[y].len() != width {
                return Err(ShapeError::Ragged { row: y });
            }
            y = y + 1;
        }
        let mut state: Vec<Vec<ClickState>> = Vec::new();
        while state.len() < height
            invariant
                state@.len() <= height,
                forall|r: int| 0 <= r < state@.len() ==> (#[trigger] state@[r])@ == Seq::new(
                    width as nat,
                    |x: int| ClickState::Empty,
                ),
            decreases height - state@.len(),
        {
            let mut row: Vec<ClickState> = Vec::new();
            while row.len() < width
                invariant
                    row@.len() <= width,
                    forall|x: int| 0 <= x < row@.len() ==> row@[x] == ClickState::Empty,
                decreases width - row@.len(),
            {
                row.push(ClickState::Empty);
            }
            state.push(row);
        }
        Ok(Grid { colors, state })
    }

    /// The number of rows.
    pub fn height(&self) -> (h: usize)
        requires
            self.wf(),
        ensures
            h == self.rows(),
            h >= 1,
    {
        self.colors.len()
    }

    /// The number of cells in each row.
    pub fn width(&self) -> (w: usize)
        requires
            self.wf(),
        ensures
            w == self.columns(),
            w >= 1,
    {
        self.colors[0].len()
    }

    /// The colour of a cell.
    pub fn color_at(&self, position: Position) -> (c: Color)
        requires
            self.wf(),
            self.holds(position),
        ensures
            c == self.colors()[position.y as int][position.x as int],
    {
        self.colors[position.y][position.x]
    }

    /// The mark on a cell.
    pub fn state_at(&self, position: Position) -> (s: ClickState)
        requires
            self.wf(),
            self.holds(position),
        ensures
            s == self.marks()[position.y as int][position.x as int],
    {
        self.state[position.y][position.x]
    }

    /// One click on a cell: its mark moves one step along the cycle empty,
    /// eliminated, king, empty. No other cell changes, and no colour.
    pub fn cycle(&mut self, position: Position)
        requires
            old(self).wf(),
            old(self).holds(position),
        ensures
            final(self).wf(),
            final(self).colors() == old(self).colors(),
            final(self).marks() == clicked(old(self).marks(), position.x as int, position.y as int),
    {
        assert(self.marks()[position.y as int] == self.state@[position.y as int]@);
        let next = self.state[position.y][position.x].cycle();
        let ghost before = self.state@;
        self.state[position.y].set(position.x, next);
        assert(rows_of(self.state@) =~= clicked(
            rows_of(before),
            position.x as int,
            position.y as int,
        ));
    }

    /// Judges the board. Every king gets the flag that the rules give it:
    /// set if another king touches it, or if its row, its column or its
    /// colour holds more than `MAX_KINGS` kings, and cleared otherwise,
    /// whatever the flag was before. Nothing else changes. The result says
    /// whether the board is full, which depends on the number of kings alone.
    pub fn check_state(&mut self) -> (done: bool)
        requires
            old(self).wf(),
        ensures
            final(self).wf(),
            final(self).colors() == old(self).colors(),
            final(self).marks() == judged(old(self).colors(), old(self).marks()),
            done == complete(old(self).marks()),
    {
        let ghost hues = self.colors();
        let ghost marks = self.marks();
        let height: usize = self.colors.len();
        let width: usize = self.colors[0].len();
        let tally = count_kings(&self.colors, &self.state);
        let mut new_state: Vec<Vec<ClickState>> = Vec::new();
        let mut y: usize = 0;
        while y < height
            invariant
                y <= height,
                hues == rows_of(self.colors@),
                marks == rows_of(self.state@),
                well_shaped(hues, marks),
                height == marks.len(),
                width == marks[0].len(),
                tally.is_of(hues, marks),
                new_state@.len() == y,
                forall|r: int|
                    0 <= r < y ==> (#[trigger] new_state@[r])@ == Seq::new(
                        width as nat,
                        |x: int| judged_cell(hues, marks, x, r),
                    ),
            decreases height - y,
        {
            let mut row: Vec<ClickState> = Vec::new();
            let mut x: usize = 0;
            while x < width
                invariant
                    x <= width,
                    y < height,
                    hues == rows_of(self.colors@),
                    marks == rows_of(self.state@),
                    well_shaped(hues, marks),
                    height == marks.len(),
                    width == marks[0].len(),
                    tally.is_of(hues, marks),
                    row@.len() == x,
                    forall|c: int| 0 <= c < x ==> #[trigger] row@[c] == judged_cell(hues, marks, c, y as int),
                decreases width - x,
            {
                assert(hues[y as int].len() == width);
                let cell = match self.state[y][x] {
                    ClickState::King(_) => {
                        let hue = self.colors[y][x];
                        proof {
                            lemma_ordinal_at(hue, 0);
                        }
                        let invalid = has_king_neighbor(&self.state, x, y)
                            || tally.rows[y] > MAX_KINGS
                            || tally.columns[x] > MAX_KINGS
                            || tally.colors[hue.index()] > MAX_KINGS as u128;
                        ClickState::King(invalid)
                    },
                    other => other,
                };
                row.push(cell);
                x = x + 1;
            }
            new_state.push(row);
            y = y + 1;
        }
        self.state = new_state;
        tally.total == (MAX_KINGS as u128) * (width as u128)
    }
}

} // verus!
