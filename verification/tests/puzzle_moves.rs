use picross::puzzle::line::State;
use picross::puzzle::{BoundsError, Play, Puzzle};

#[test]
fn one_by_one_marking_wins_blocking_does_not() {
    let mut p = Puzzle::from_hints(&vec![vec![1]], &vec![vec![1]]);
    assert!(!p.check());
    assert_eq!(p.act_on_cell(Play::Mark, 1, 1), Ok(()));
    assert!(p.check());
    assert_eq!(p.act_on_cell(Play::Block, 1, 1), Ok(()));
    assert!(!p.check());
    assert_eq!(p.act_on_cell(Play::Wipe, 1, 1), Ok(()));
    assert!(!p.check());
}

#[test]
fn fresh_puzzle_wins_exactly_when_all_hints_empty() {
    let empty = Puzzle::from_hints(&vec![vec![], vec![]], &vec![vec![], vec![], vec![]]);
    assert!(empty.check());
    let with_hint = Puzzle::from_hints(&vec![vec![1], vec![]], &vec![vec![1], vec![]]);
    assert!(!with_hint.check());
}

#[test]
fn mutation_through_rows_is_seen_through_columns() {
    let mut p = Puzzle::from_hints(&vec![vec![2], vec![1]], &vec![vec![2], vec![1]]);
    // Mark the cell in column 2 of row 1 through the move path, which goes
    // through the row lines, then read it back through the column line.
    assert_eq!(p.act_on_cell(Play::Mark, 2, 1), Ok(()));
    let via_column = p.cells[p.columns[1].cell(0)].state();
    let via_row = p.cells[p.rows[0].cell(1)].state();
    assert_eq!(via_column, State::Full);
    assert_eq!(via_row, State::Full);
    assert_eq!(p.cells[p.columns[0].cell(0)].state(), State::Empty);
}

#[test]
fn two_by_two_solution_wins() {
    let mut p = Puzzle::from_hints(&vec![vec![2], vec![1]], &vec![vec![2], vec![1]]);
    assert_eq!(p.act_on_cell(Play::Mark, 1, 1), Ok(()));
    assert_eq!(p.act_on_cell(Play::Mark, 2, 1), Ok(()));
    assert!(!p.check());
    assert_eq!(p.act_on_cell(Play::Mark, 1, 2), Ok(()));
    assert!(p.check());
    // Marking a wrong cell breaks the win again.
    assert_eq!(p.act_on_cell(Play::Mark, 2, 2), Ok(()));
    assert!(!p.check());
}

#[test]
fn out_of_bounds_moves_fail_and_change_nothing() {
    let mut p = Puzzle::from_hints(&vec![vec![1]], &vec![vec![1]]);
    assert_eq!(p.act_on_cell(Play::Mark, 2, 1), Err(BoundsError));
    assert_eq!(p.act_on_cell(Play::Mark, 1, 2), Err(BoundsError));
    assert_eq!(p.act_on_cell(Play::Mark, 0, 1), Err(BoundsError));
    assert_eq!(p.act_on_cell(Play::Mark, 1, 0), Err(BoundsError));
    assert_eq!(p.cells[0].state(), State::Empty);
    assert!(!p.check());
}

#[test]
fn dimensions_follow_the_hint_counts() {
    let p = Puzzle::from_hints(&vec![vec![1], vec![2], vec![3]], &vec![vec![1], vec![2]]);
    assert_eq!(p.dimensions, (3, 2));
    assert_eq!(p.rows.len(), 3);
    assert_eq!(p.columns.len(), 2);
    assert_eq!(p.cells.len(), 6);
    assert_eq!(p.rows[1].hint(), &vec![2]);
    assert_eq!(p.columns[1].hint(), &vec![2]);
}

#[test]
fn play_build_decodes_move_verbs() {
    assert!(matches!(Play::build("m"), Some(Play::Mark)));
    assert!(matches!(Play::build("M"), Some(Play::Mark)));
    assert!(matches!(Play::build("b"), Some(Play::Block)));
    assert!(matches!(Play::build("B"), Some(Play::Block)));
    assert!(matches!(Play::build("w"), Some(Play::Wipe)));
    assert!(matches!(Play::build("W"), Some(Play::Wipe)));
    assert!(Play::build("x").is_none());
    assert!(Play::build("mm").is_none());
    assert!(Play::build("").is_none());
}

#[test]
fn rows_satisfied_alone_do_not_win() {
    let mut p = Puzzle::from_hints(&vec![vec![1], vec![1]], &vec![vec![2], vec![]]);
    assert_eq!(p.act_on_cell(Play::Mark, 1, 1), Ok(()));
    assert_eq!(p.act_on_cell(Play::Mark, 2, 2), Ok(()));
    // Both rows show a single run of one, but the columns disagree with
    // their hints, so the puzzle is not won.
    assert!(!p.check());
    assert_eq!(p.act_on_cell(Play::Wipe, 2, 2), Ok(()));
    assert_eq!(p.act_on_cell(Play::Mark, 1, 2), Ok(()));
    assert!(p.check());
}
