//! The grid definition: a JSON array of rows, each row an array of colour
//! names. A grid is made from such a text, and the colours of a grid are
//! written back as one.

use vstd::prelude::*;

use crate::color::{lemma_names_tell_colors_apart, Color};
use crate::grid::{blank, rows_of, shape_fault, Grid, ShapeError};
use crate::position::Position;

verus! {

/// The error of `serde_json`. Nothing is known of what a value holds.
#[verifier::external_type_specification]
#[verifier::external_body]
pub struct ExJsonError(serde_json::Error);

/// The rows of strings that `serde_json::from_str` reads from a text as a
/// `Vec<Vec<String>>`, or `None` where it reports an error.
pub uninterp spec fn json_rows(text: Seq<char>) -> Option<Seq<Seq<Seq<char>>>>;

/// The text that `serde_json::to_string_pretty` writes for rows of strings
/// held as a `Vec<Vec<String>>`, or `None` where it reports an error.
pub uninterp spec fn rows_json(rows: Seq<Seq<Seq<char>>>) -> Option<Seq<char>>;

/// Calls `serde_json::from_str` for a `Vec<Vec<String>>`. Nothing is proved
/// of it. The contract claims only that what it returns is a function of the
/// text: the rows it read, or an error, are those that `json_rows` names.
#[verifier::external_body]
fn read_rows(text: &str) -> (read: Result<Vec<Vec<String>>, serde_json::Error>)
    ensures
        match read {
            Ok(rows) => json_rows(text@) == Some(rows.deep_view()),
            Err(_) => json_rows(text@) is None,
        },
{
    serde_json::from_str(text)
}

/// Calls `serde_json::to_string_pretty` on a `Vec<Vec<String>>`. Nothing is
/// proved of it. The contract claims only that what it returns is a function
/// of the rows: the text, or an error, is what `rows_json` names.
#[verifier::external_body]
fn write_rows(rows: &Vec<Vec<String>>) -> (written: Result<String, serde_json::Error>)
    ensures
        match written {
            Ok(text) => rows_json(rows.deep_view()) == Some(text@),
            Err(_) => rows_json(rows.deep_view()) is None,
        },
{
    serde_json::to_string_pretty(rows)
}

/// Why a text or a matrix of names is not a grid definition.
#[derive(Clone, Copy, Debug, PartialEq, Eq, Structural)]
pub enum LoadError {
    /// The text is not a JSON array of arrays of strings.
    Json,
    /// The name in this row and column is not the name of a colour.
    UnknownColor { row: usize, column: usize },
    /// Every name is a colour, but the rows do not form a grid.
    Shape(ShapeError),
}

/// Whether the name in row `y` and column `x` is the name of a colour.
pub open spec fn known(names: Seq<Seq<Seq<char>>>, x: int, y: int) -> bool {
    Color::named(names[y][x]) is Some
}

/// Whether every name in the first `n` rows is the name of a colour.
pub open spec fn all_known(names: Seq<Seq<Seq<char>>>, n: int) -> bool {
    forall|y: int, x: int| 0 <= y < n && 0 <= x < names[y].len() ==> #[trigger] known(names, x, y)
}

/// Whether `(x, y)` is the first place, reading row by row, of a name that is
/// not the name of a colour.
pub open spec fn first_unknown(names: Seq<Seq<Seq<char>>>, x: int, y: int) -> bool {
    &&& 0 <= y < names.len()
    &&& 0 <= x < names[y].len()
    &&& !known(names, x, y)
    &&& all_known(names, y)
    &&& forall|c: int| 0 <= c < x ==> #[trigger] known(names, c, y)
}

/// The colours that a matrix of names stands for.
pub open spec fn colors_named(names: Seq<Seq<Seq<char>>>) -> Seq<Seq<Color>> {
    Seq::new(
        names.len(),
        |y: int| Seq::new(names[y].len(), |x: int| Color::named(names[y][x]).unwrap()),
    )
}

/// The names of a matrix of colours.
pub open spec fn names_of(colors: Seq<Seq<Color>>) -> Seq<Seq<Seq<char>>> {
    Seq::new(colors.len(), |y: int| Seq::new(colors[y].len(), |x: int| colors[y][x].label()))
}

/// Whether `loaded` is what a matrix of names gives as a grid definition: a
/// grid of its colours with no mark on it, if every name is a colour and the
/// rows form a rectangle with at least one cell. A name that is no colour is
/// reported before a fault of the shape.
pub open spec fn loads_to(names: Seq<Seq<Seq<char>>>, loaded: Result<Grid, LoadError>) -> bool {
    match loaded {
        Ok(grid) => {
            &&& all_known(names, names.len() as int)
            &&& grid.wf()
            &&& grid.colors() == colors_named(names)
            &&& grid.marks() == blank(grid.columns(), grid.rows())
        },
        Err(LoadError::UnknownColor { row, column }) => first_unknown(
            names,
            column as int,
            row as int,
        ),
        Err(LoadError::Shape(fault)) => all_known(names, names.len() as int) && shape_fault(
            names,
            fault,
        ),
        Err(LoadError::Json) => false,
    }
}

/// A fault of the shape is a matter of the lengths of the rows alone.
proof fn lemma_fault_of_shape<A, B>(a: Seq<Seq<A>>, b: Seq<Seq<B>>, fault: ShapeError)
    requires
        a.len() == b.len(),
        forall|y: int| 0 <= y < a.len() ==> (#[trigger] a[y]).len() == b[y].len(),
    ensures
        shape_fault(a, fault) == shape_fault(b, fault),
{
    match fault {
        ShapeError::Ragged { row } => {
            if shape_fault(a, fault) {
                assert forall|y: int| 0 <= y < row implies (#[trigger] b[y]).len() == b[0].len() by {
                    assert(a[y].len() == b[y].len());
                }
            }
            if shape_fault(b, fault) {
                assert forall|y: int| 0 <= y < row implies (#[trigger] a[y]).len() == a[0].len() by {
                    assert(b[y].len() == b[0].len());
                }
            }
        },
        _ => {},
    }
}

/// The names of a matrix of colours are read back as those colours: every
/// one of them is the name of a colour, and together they stand for the
/// matrix they were taken from.
pub proof fn lemma_names_read_back(colors: Seq<Seq<Color>>)
    ensures
        all_known(names_of(colors), colors.len() as int),
        colors_named(names_of(colors)) == colors,
{
    let names = names_of(colors);
    assert forall|y: int, x: int| 0 <= y < colors.len() && 0 <= x < colors[y].len() implies Color::named(
        #[trigger] names[y][x],
    ) == Some(colors[y][x]) by {
        lemma_names_tell_colors_apart(colors[y][x], names[y][x]);
    }
    assert forall|y: int| 0 <= y < colors.len() implies #[trigger] colors_named(names)[y]
        == colors[y] by {
        assert(colors_named(names)[y] =~= colors[y]);
    }
    assert(colors_named(names) =~= colors);
}

/// Reads every name of a matrix as a colour. The first name that is not one
/// of the ten, reading row by row, is an error.
pub fn decode_names(rows: &Vec<Vec<String>>) -> (decoded: Result<Vec<Vec<Color>>, LoadError>)
    ensures
        match decoded {
            Ok(colors) => {
                &&& all_known(rows.deep_view(), rows.len() as int)
                &&& rows_of(colors@) == colors_named(rows.deep_view())
            },
            Err(LoadError::UnknownColor { row, column }) => first_unknown(
                rows.deep_view(),
                column as int,
                row as int,
            ),
            Err(_) => false,
        },
{
    let ghost names = rows.deep_view();
    let mut colors: Vec<Vec<Color>> = Vec::new();
    let mut y: usize = 0;
    while y < rows.len()
        invariant
            y <= rows.len(),
            names == rows.deep_view(),
            colors@.len() == y,
            all_known(names, y as int),
            forall|r: int|
                0 <= r < y ==> (#[trigger] colors@[r])@ == Seq::new(
                    names[r].len(),
                    |x: int| Color::named(names[r][x]).unwrap(),
                ),
        decreases rows.len() - y,
    {
        let source = &rows[y];
        let mut row: Vec<Color> = Vec::new();
        let mut x: usize = 0;
        while x < source.len()
            invariant
                x <= source.len(),
                y < rows.len(),
                names == rows.deep_view(),
                names[y as int] == source.deep_view(),
                row@.len() == x,
                all_known(names, y as int),
                forall|c: int| 0 <= c < x ==> #[trigger] known(names, c, y as int),
                forall|c: int|
                    0 <= c < x ==> #[trigger] row@[c] == Color::named(names[y as int][c]).unwrap(),
            decreases source.len() - x,
        {
            match Color::from_name(source[x].as_str()) {
                Some(color) => {
                    row.push(color);
                },
                None => {
                    return Err(LoadError::UnknownColor { row: y, column: x });
                },
            }
            x = x + 1;
        }
        assert(row@ =~= Seq::new(
            names[y as int].len(),
            |x: int| Color::named(names[y as int][x]).unwrap(),
        ));
        colors.push(row);
        y = y + 1;
    }
    assert(rows_of(colors@) =~= colors_named(names));
    Ok(colors)
}

impl Grid {
    /// Makes a grid from the rows of colour names of a grid definition.
    pub fn from_rows(rows: &Vec<Vec<String>>) -> (loaded: Result<Grid, LoadError>)
        ensures
            loads_to(rows.deep_view(), loaded),
    {
        let ghost names = rows.deep_view();
        match decode_names(rows) {
            Err(e) => Err(e),
            Ok(colors) => {
                let ghost hues = rows_of(colors@);
                match Grid::new(colors) {
                    Ok(grid) => Ok(grid),
                    Err(fault) => {
                        proof {
                            lemma_fault_of_shape(hues, names, fault);
                        }
                        Err(LoadError::Shape(fault))
                    },
                }
            },
        }
    }

    /// Makes a grid from the text of a grid definition: a JSON array of
    /// rows, each an array of colour names. A text that is no such array is
    /// an error; what the rows of names give is said by `loads_to`.
    pub fn from_json(text: &str) -> (loaded: Result<Grid, LoadError>)
        ensures
            match json_rows(text@) {
                Some(names) => loads_to(names, loaded),
                None => loaded matches Err(LoadError::Json),
            },
    {
        match read_rows(text) {
            Ok(rows) => Grid::from_rows(&rows),
            Err(_) => Err(LoadError::Json),
        }
    }

    /// The colours of the grid by name, row by row.
    pub fn color_names(&self) -> (rows: Vec<Vec<String>>)
        requires
            self.wf(),
        ensures
            rows.deep_view() == names_of(self.colors()),
    {
        let height = self.height();
        let width = self.width();
        let mut rows: Vec<Vec<String>> = Vec::new();
        let mut y: usize = 0;
        while y < height
            invariant
                y <= height,
                self.wf(),
                height == self.rows(),
                width == self.columns(),
                rows@.len() == y,
                forall|r: int|
                    0 <= r < y ==> (#[trigger] rows@[r]).deep_view() == Seq::new(
                        width as nat,
                        |x: int| self.colors()[r][x].label(),
                    ),
            decreases height - y,
        {
            let mut row: Vec<String> = Vec::new();
            let mut x: usize = 0;
            while x < width
                invariant
                    x <= width,
                    y < height,
                    self.wf(),
                    height == self.rows(),
                    width == self.columns(),
                    row@.len() == x,
                    forall|c: int|
                        0 <= c < x ==> (#[trigger] row@[c])@ == self.colors()[y as int][c].label(),
                decreases width - x,
            {
                let name = self.color_at(Position::new(x, y)).name().to_owned();
                row.push(name);
                x = x + 1;
            }
            assert(row.deep_view() =~= Seq::new(
                width as nat,
                |x: int| self.colors()[y as int][x].label(),
            ));
            rows.push(row);
            y = y + 1;
        }
        rows
    }

    /// The colours of the grid as the text of a grid definition, or `None`
    /// where the rows of names cannot be written as JSON.
    pub fn to_json(&self) -> (text: Option<String>)
        requires
            self.wf(),
        ensures
            match text {
                Some(t) => rows_json(names_of(self.colors())) == Some(t@),
                None => rows_json(names_of(self.colors())) is None,
            },
    {
        let rows = self.color_names();
        match write_rows(&rows) {
            Ok(t) => Some(t),
            Err(_) => None,
        }
    }
}

} // verus!
