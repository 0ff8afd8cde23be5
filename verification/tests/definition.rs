use two_kings::color::Color;
use two_kings::definition::LoadError;
use two_kings::grid::{Grid, ShapeError};
use two_kings::marker::ClickState;
use two_kings::position::Position;

fn rows(names: &[&[&str]]) -> Vec<Vec<String>> {
    names.iter().map(|row| row.iter().map(|name| name.to_string()).collect()).collect()
}

fn colors(grid: &Grid) -> Vec<Vec<Color>> {
    (0..grid.height())
        .map(|y| (0..grid.width()).map(|x| grid.color_at(Position::new(x, y))).collect())
        .collect()
}

const TEXT: &str = r#"[
  ["Pink", "Pink", "Blue"],
  ["LightBlue", "DarkGreen", "Orange"]
]"#;

#[test]
fn definition_is_read_row_by_row() {
    let grid = Grid::from_json(TEXT).unwrap();
    assert_eq!(grid.height(), 2);
    assert_eq!(grid.width(), 3);
    assert_eq!(
        colors(&grid),
        vec![
            vec![Color::Pink, Color::Pink, Color::Blue],
            vec![Color::LightBlue, Color::DarkGreen, Color::Orange],
        ]
    );
}

#[test]
fn loaded_grid_has_no_mark() {
    let grid = Grid::from_json(TEXT).unwrap();
    for y in 0..2 {
        for x in 0..3 {
            assert_eq!(grid.state_at(Position::new(x, y)), ClickState::Empty);
        }
    }
}

#[test]
fn definition_may_be_written_on_one_line() {
    let grid = Grid::from_json(r#"[["Teal","Salmon"],["Yellow","Purple"],["LightGreen","Pink"]]"#)
        .unwrap();
    assert_eq!(
        colors(&grid),
        vec![
            vec![Color::Teal, Color::Salmon],
            vec![Color::Yellow, Color::Purple],
            vec![Color::LightGreen, Color::Pink],
        ]
    );
}

#[test]
fn text_that_is_no_json_is_refused() {
    assert_eq!(Grid::from_json("").unwrap_err(), LoadError::Json);
    assert_eq!(Grid::from_json("[[\"Pink\"]").unwrap_err(), LoadError::Json);
    assert_eq!(Grid::from_json("[[\"Pink\"]] x").unwrap_err(), LoadError::Json);
    assert_eq!(Grid::from_json("[[Pink]]").unwrap_err(), LoadError::Json);
}

#[test]
fn json_of_another_kind_is_refused() {
    assert_eq!(Grid::from_json("[\"Pink\"]").unwrap_err(), LoadError::Json);
    assert_eq!(Grid::from_json("[[1, 2]]").unwrap_err(), LoadError::Json);
    assert_eq!(Grid::from_json("{\"rows\": []}").unwrap_err(), LoadError::Json);
    assert_eq!(Grid::from_json("null").unwrap_err(), LoadError::Json);
    assert_eq!(Grid::from_json("[[null]]").unwrap_err(), LoadError::Json);
}

#[test]
fn unknown_color_is_refused_with_its_place() {
    let text = r#"[["Pink", "Blue"], ["Teal", "Green"], ["Mauve", "Blue"]]"#;
    assert_eq!(
        Grid::from_json(text).unwrap_err(),
        LoadError::UnknownColor { row: 1, column: 1 }
    );
}

#[test]
fn lower_case_name_is_no_color() {
    let text = r#"[["Pink", "pink"]]"#;
    assert_eq!(
        Grid::from_json(text).unwrap_err(),
        LoadError::UnknownColor { row: 0, column: 1 }
    );
}

#[test]
fn empty_definition_is_refused() {
    assert_eq!(Grid::from_json("[]").unwrap_err(), LoadError::Shape(ShapeError::NoRows));
    assert_eq!(Grid::from_json("[[]]").unwrap_err(), LoadError::Shape(ShapeError::NoColumns));
    assert_eq!(
        Grid::from_json("[[], [\"Pink\"]]").unwrap_err(),
        LoadError::Shape(ShapeError::NoColumns)
    );
}

#[test]
fn ragged_definition_is_refused() {
    let text = r#"[["Pink", "Blue"], ["Teal", "Blue"], ["Teal"], ["Teal", "Blue", "Pink"]]"#;
    assert_eq!(
        Grid::from_json(text).unwrap_err(),
        LoadError::Shape(ShapeError::Ragged { row: 2 })
    );
}

#[test]
fn unknown_color_is_reported_before_a_ragged_row() {
    let text = r#"[["Pink", "Blue"], ["Teal"], ["Teal", "Grey"]]"#;
    assert_eq!(
        Grid::from_json(text).unwrap_err(),
        LoadError::UnknownColor { row: 2, column: 1 }
    );
}

#[test]
fn rows_of_names_make_a_grid() {
    let grid = Grid::from_rows(&rows(&[&["Pink", "Teal"], &["Orange", "Salmon"]])).unwrap();
    assert_eq!(
        colors(&grid),
        vec![vec![Color::Pink, Color::Teal], vec![Color::Orange, Color::Salmon]]
    );
}

#[test]
fn rows_of_names_are_checked_like_a_text() {
    assert_eq!(Grid::from_rows(&rows(&[])).unwrap_err(), LoadError::Shape(ShapeError::NoRows));
    assert_eq!(
        Grid::from_rows(&rows(&[&[]])).unwrap_err(),
        LoadError::Shape(ShapeError::NoColumns)
    );
    assert_eq!(
        Grid::from_rows(&rows(&[&["Pink"], &["Pink", "Pink"]])).unwrap_err(),
        LoadError::Shape(ShapeError::Ragged { row: 1 })
    );
    assert_eq!(
        Grid::from_rows(&rows(&[&["Pink"], &["Rose"]])).unwrap_err(),
        LoadError::UnknownColor { row: 1, column: 0 }
    );
}

#[test]
fn names_decode_to_colors() {
    let decoded =
        two_kings::definition::decode_names(&rows(&[&["Pink", "Teal", "Blue"], &["Orange"]]));
    assert_eq!(
        decoded,
        Ok(vec![vec![Color::Pink, Color::Teal, Color::Blue], vec![Color::Orange]])
    );
    let decoded = two_kings::definition::decode_names(&rows(&[&["Pink", ""], &["Nope"]]));
    assert_eq!(decoded, Err(LoadError::UnknownColor { row: 0, column: 1 }));
}

#[test]
fn color_names_are_given_row_by_row() {
    let grid = Grid::from_json(TEXT).unwrap();
    assert_eq!(
        grid.color_names(),
        rows(&[&["Pink", "Pink", "Blue"], &["LightBlue", "DarkGreen", "Orange"]])
    );
}

#[test]
fn colors_are_written_as_pretty_json() {
    let grid = Grid::from_json(r#"[["Pink","Blue"],["Teal","Orange"]]"#).unwrap();
    let text = grid.to_json().unwrap();
    assert_eq!(
        text,
        "[\n  [\n    \"Pink\",\n    \"Blue\"\n  ],\n  [\n    \"Teal\",\n    \"Orange\"\n  ]\n]"
    );
}

#[test]
fn written_colors_are_read_back() {
    let grid = Grid::from_json(TEXT).unwrap();
    let text = grid.to_json().unwrap();
    let again = Grid::from_json(&text).unwrap();
    assert_eq!(colors(&again), colors(&grid));
}

#[test]
fn marks_are_not_written() {
    let mut grid = Grid::from_json(TEXT).unwrap();
    let blank = grid.to_json().unwrap();
    grid.cycle(Position::new(1, 1));
    grid.cycle(Position::new(1, 1));
    grid.check_state();
    assert_eq!(grid.to_json().unwrap(), blank);
}

#[test]
fn escapes_in_names_are_resolved_before_names_are_read() {
    let grid = Grid::from_json("[[\"P\\u0069nk\"]]").unwrap();
    assert_eq!(grid.color_at(Position::new(0, 0)), Color::Pink);
}
