use picross::puzzle::{Play, Puzzle};
use picross::puzzle::parser::{InputError, PuzzleParser};

const SMALL: &str = "puzzle:\n  rows:\n    top: [1]\n  columns:\n    left: [1]\n";

#[test]
fn small_definition_builds_a_playable_puzzle() {
    let mut p = Puzzle::build(SMALL).unwrap();
    assert_eq!(p.dimensions, (1, 1));
    assert_eq!(p.rows[0].hint(), &vec![1]);
    assert_eq!(p.columns[0].hint(), &vec![1]);
    assert!(!p.check());
    assert_eq!(p.act_on_cell(Play::Mark, 1, 1), Ok(()));
    assert!(p.check());
}

#[test]
fn parser_reads_hints_in_entry_order() {
    let text = "puzzle:\n  rows:\n    a: [2]\n    b: [1, 1]\n  columns:\n    c: [1]\n    d: [2]\n    e: [1]\n";
    let p = PuzzleParser::parse_yaml(text).unwrap();
    assert_eq!(p.dimensions, (2, 3));
    assert_eq!(p.rows[0].hint(), &vec![2]);
    assert_eq!(p.rows[1].hint(), &vec![1, 1]);
    assert_eq!(p.columns[0].hint(), &vec![1]);
    assert_eq!(p.columns[1].hint(), &vec![2]);
    assert_eq!(p.columns[2].hint(), &vec![1]);
}

#[test]
fn unscannable_text_reports_the_yaml_failure() {
    let e = Puzzle::build("puzzle: [unclosed").unwrap_err();
    assert!(e.message().starts_with("Failed to parse yaml"));
}

#[test]
fn empty_text_fails_on_dimensions() {
    let e = Puzzle::build("").unwrap_err();
    assert_eq!(e.message(), "Failed to parse dimensions");
}

#[test]
fn missing_mappings_fail_on_dimensions() {
    let e = Puzzle::build("puzzle: 3").unwrap_err();
    assert_eq!(e.message(), "Failed to parse dimensions");
    let e = Puzzle::build("puzzle:\n  rows: 5\n  columns: 5\n").unwrap_err();
    assert_eq!(e.message(), "Failed to parse dimensions");
}

#[test]
fn hint_entry_that_is_no_list_fails() {
    let text = "puzzle:\n  rows:\n    a: 3\n  columns:\n    b: [1]\n";
    let e = Puzzle::build(text).unwrap_err();
    assert_eq!(e.message(), "Poorly formatted hints");
}

#[test]
fn hint_that_is_no_number_fails() {
    let text = "puzzle:\n  rows:\n    a: [x]\n  columns:\n    b: [1]\n";
    let e = Puzzle::build(text).unwrap_err();
    assert_eq!(e.message(), "Hint is not a number");
}

#[test]
fn negative_hint_fails() {
    let text = "puzzle:\n  rows:\n    a: [-1]\n  columns:\n    b: [1]\n";
    let e = Puzzle::build(text).unwrap_err();
    assert_eq!(e.message(), "Hint is not a number");
}

#[test]
fn input_error_keeps_its_message() {
    let e = InputError::new(String::from("no such file"));
    assert_eq!(e.message(), "no such file");
}

#[test]
fn oversized_definition_is_rejected_up_front() {
    // Deep block nesting would otherwise drive the loader's recursion as
    // far as the text is long; the parser refuses such a text outright.
    let deep = "- ".repeat(10_000);
    let e = Puzzle::build(&deep).unwrap_err();
    assert_eq!(e.message(), "Puzzle definition is too large");
    let wide = "x".repeat(20_000);
    let e = Puzzle::build(&wide).unwrap_err();
    assert_eq!(e.message(), "Puzzle definition is too large");
}

#[test]
fn nested_hint_entry_fails_as_not_a_number() {
    let text = "puzzle:\n  rows:\n    a: [[1]]\n  columns:\n    b: [1]\n";
    let e = Puzzle::build(text).unwrap_err();
    assert_eq!(e.message(), "Hint is not a number");
}
