use picross::puzzle::line::{Cell, Direction, Line, State};

fn cell(state: State) -> Cell {
    let mut c = Cell::new();
    match state {
        State::Full => c.mark(),
        State::Blocked => c.block(),
        State::Empty => c.wipe(),
    }
    c
}

fn store(states: &[State]) -> Vec<Cell> {
    states.iter().map(|s| cell(*s)).collect()
}

fn row(len: usize, hint: Vec<usize>) -> Line {
    Line::new((0..len).collect(), hint, Direction::Row)
}

#[test]
fn two_single_runs_split_by_a_gap_satisfy() {
    let cells = store(&[State::Full, State::Empty, State::Full]);
    let line = row(3, vec![1, 1]);
    assert!(line.check(&cells));
}

#[test]
fn a_double_run_does_not_satisfy_two_singles() {
    let cells = store(&[State::Full, State::Full, State::Empty]);
    let line = row(3, vec![1, 1]);
    assert!(!line.check(&cells));
}

#[test]
fn empty_hint_satisfied_without_full_cells() {
    let cells = store(&[State::Blocked, State::Empty, State::Blocked]);
    let line = row(3, vec![]);
    assert!(line.check(&cells));
}

#[test]
fn empty_hint_broken_by_any_full_cell() {
    let cells = store(&[State::Blocked, State::Full, State::Blocked]);
    let line = row(3, vec![]);
    assert!(!line.check(&cells));
}

#[test]
fn run_of_three_in_the_middle_satisfies() {
    let cells = store(&[State::Empty, State::Full, State::Full, State::Full, State::Empty]);
    let line = row(5, vec![3]);
    assert!(line.check(&cells));
}

#[test]
fn run_of_three_at_the_start_satisfies() {
    let cells = store(&[State::Full, State::Full, State::Full, State::Empty, State::Empty]);
    let line = row(5, vec![3]);
    assert!(line.check(&cells));
}

#[test]
fn trailing_run_at_the_last_cell_still_counts() {
    let cells = store(&[State::Empty, State::Empty, State::Full, State::Full, State::Full]);
    let line = row(5, vec![3]);
    assert!(line.check(&cells));
}

#[test]
fn full_line_single_run_satisfies() {
    let cells = store(&[State::Full, State::Full, State::Full]);
    let line = row(3, vec![3]);
    assert!(line.check(&cells));
}

#[test]
fn zero_hint_entry_never_matches() {
    let empty_cells = store(&[State::Empty]);
    let line = row(1, vec![0]);
    assert!(!line.check(&empty_cells));
    let full_cells = store(&[State::Full]);
    assert!(!line.check(&full_cells));
}

#[test]
fn blocked_splits_runs_like_empty() {
    let cells = store(&[State::Full, State::Blocked, State::Full]);
    let line = row(3, vec![1, 1]);
    assert!(line.check(&cells));
}

#[test]
fn column_direction_checks_identically() {
    let cells = store(&[State::Full, State::Empty, State::Full]);
    let line = Line::new(vec![0, 1, 2], vec![1, 1], Direction::Column);
    assert!(line.check(&cells));
}

#[test]
fn zero_length_line_with_empty_hint_satisfies() {
    let cells: Vec<Cell> = Vec::new();
    let line = row(0, vec![]);
    assert!(line.check(&cells));
}

#[test]
fn line_accessors_expose_hint_and_positions() {
    let line = Line::new(vec![4, 5, 6], vec![2], Direction::Row);
    assert_eq!(line.hint(), &vec![2]);
    assert_eq!(line.hint_obj().values(), &vec![2]);
    assert_eq!(line.cell(0), 4);
    assert_eq!(line.cell(2), 6);
}

#[test]
fn cell_operations_are_idempotent() {
    let mut c = Cell::new();
    assert_eq!(c.state(), State::Empty);
    c.mark();
    let once = c.state();
    c.mark();
    assert_eq!(c.state(), once);
    assert_eq!(c.state(), State::Full);
    c.block();
    c.block();
    assert_eq!(c.state(), State::Blocked);
    c.wipe();
    c.wipe();
    assert_eq!(c.state(), State::Empty);
}

/// The run-length decomposition computed the plain way, as an oracle.
fn runs_of(states: &[State]) -> Vec<usize> {
    let mut runs = Vec::new();
    let mut run = 0usize;
    for s in states {
        if *s == State::Full {
            run += 1;
        } else if run > 0 {
            runs.push(run);
            run = 0;
        }
    }
    if run > 0 {
        runs.push(run);
    }
    runs
}

#[test]
fn check_matches_the_decomposition_for_every_three_cell_line() {
    let all = [State::Empty, State::Full, State::Blocked];
    for a in all {
        for b in all {
            for c in all {
                let states = [a, b, c];
                let cells = store(&states);
                let runs = runs_of(&states);

                let satisfied = row(3, runs.clone());
                assert!(satisfied.check(&cells));

                let mut longer = runs.clone();
                longer.push(1);
                let unsatisfied = row(3, longer);
                assert!(!unsatisfied.check(&cells));

                if !runs.is_empty() {
                    let empty_hint = row(3, vec![]);
                    assert!(!empty_hint.check(&cells));
                }
            }
        }
    }
}
