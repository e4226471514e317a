use picross::puzzle::line::{Cell, Direction, Hint, Line};
use picross::puzzle::{Play, Puzzle};

#[test]
fn hint_renders_each_number_followed_by_a_space() {
    assert_eq!(Hint::new(vec![1, 3]).render(), "1 3 ");
    assert_eq!(Hint::new(vec![]).render(), "");
    assert_eq!(Hint::new(vec![12, 5]).render(), "12 5 ");
    assert_eq!(Hint::new(vec![120]).render(), "120 ");
    assert_eq!(Hint::new(vec![0]).render(), "0 ");
}

#[test]
fn row_renders_glyphs_column_renders_nothing() {
    let mut full = Cell::new();
    full.mark();
    let mut blocked = Cell::new();
    blocked.block();
    let cells = vec![full, blocked, Cell::new()];
    let row = Line::new(vec![0, 1, 2], vec![1], Direction::Row);
    assert_eq!(row.render(&cells), "■ ⊠ □ ");
    let column = Line::new(vec![0, 1, 2], vec![1], Direction::Column);
    assert_eq!(column.render(&cells), "");
}

#[test]
fn display_rows_right_aligns_shorter_hints() {
    let p = Puzzle::from_hints(&vec![vec![1, 1], vec![2]], &vec![vec![1], vec![1], vec![2]]);
    // Width 3 fits the two-number hint exactly; the one-number hint gets
    // padded out to the same baseline.
    assert_eq!(p.display_rows(3), "1 1 □ □ □ \n  2 □ □ □ \n");
}

#[test]
fn display_rows_without_alignment_room() {
    let p = Puzzle::from_hints(&vec![vec![1]], &vec![vec![1]]);
    assert_eq!(p.display_rows(1), "1 □ \n");
}

#[test]
fn render_stacks_column_hints_above_the_grid() {
    let mut p = Puzzle::from_hints(&vec![vec![2], vec![1]], &vec![vec![2], vec![1]]);
    assert_eq!(p.render(), " 2 1 \n2 □ □ \n1 □ □ \n");
    assert_eq!(p.act_on_cell(Play::Mark, 1, 1), Ok(()));
    assert_eq!(p.render(), " 2 1 \n2 ■ □ \n1 □ □ \n");
}

#[test]
fn render_bottom_aligns_uneven_column_hints() {
    let p = Puzzle::from_hints(&vec![vec![1], vec![1]], &vec![vec![1, 1], vec![2]]);
    // The first column's hints reach the top header line; the second
    // column's single hint sits on the bottom header line only.
    assert_eq!(p.render(), " 1   \n 1 2 \n1 □ □ \n1 □ □ \n");
}
