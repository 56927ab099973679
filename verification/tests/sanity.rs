use uvls::diagnostic::{ErrorInfo, Position, Range, Severity};
use uvls::sanity::{check_sanity, PatternMatch, SANITY_WEIGHT};
use uvls::tree::{SyntaxNode, SyntaxTree};

const LINE_BREAK: &str = "line breaks are only allowed inside parenthesis";
const SAME_LINE: &str = "features have to be in different lines";
const MULTILINE: &str = "multiline strings are not supported";

fn rows(start_row: usize, end_row: usize) -> Range {
    Range {
        start: Position { line: start_row as u32, character: 0 },
        end: Position { line: end_row as u32, character: 9 },
    }
}

fn on_rows(kind: &str, start_row: usize, end_row: usize, children: Vec<usize>) -> SyntaxNode {
    SyntaxNode {
        kind: kind.to_string(),
        location: rows(start_row, end_row),
        start_row,
        end_row,
        start_byte: 0,
        end_byte: 0,
        is_error: false,
        is_missing: false,
        children,
    }
}

fn grown(nodes: Vec<SyntaxNode>) -> SyntaxTree {
    SyntaxTree::from_nodes(Vec::new(), nodes).unwrap()
}

fn sanity_error(start_row: usize, end_row: usize, msg: &str) -> ErrorInfo {
    ErrorInfo {
        location: rows(start_row, end_row),
        severity: Severity::Error,
        weight: 100,
        msg: msg.to_string(),
    }
}

fn expr_at(node: usize) -> PatternMatch {
    PatternMatch { pattern_index: 1, node }
}

fn header_at(node: usize) -> PatternMatch {
    PatternMatch { pattern_index: 0, node }
}

fn string_at(node: usize) -> PatternMatch {
    PatternMatch { pattern_index: 2, node }
}

#[test]
fn sanity_weight_is_one_hundred() {
    assert_eq!(SANITY_WEIGHT, 100);
}

#[test]
fn no_matches_no_diagnostics() {
    let tree = grown(vec![on_rows("source_file", 0, 9, vec![])]);
    assert_eq!(check_sanity(&tree, &[]), Vec::<ErrorInfo>::new());
}

#[test]
fn expression_on_one_line_is_fine() {
    let tree = grown(vec![on_rows("source_file", 0, 9, vec![1]), on_rows("expr", 3, 3, vec![])]);
    assert_eq!(check_sanity(&tree, &[expr_at(1)]), Vec::<ErrorInfo>::new());
}

#[test]
fn expression_over_two_lines_yields_one_diagnostic() {
    let tree = grown(vec![on_rows("source_file", 0, 9, vec![1]), on_rows("expr", 3, 4, vec![])]);
    assert_eq!(check_sanity(&tree, &[expr_at(1)]), vec![sanity_error(3, 4, LINE_BREAK)]);
}

#[test]
fn expression_over_four_lines_yields_one_diagnostic_for_each_line_break() {
    let tree = grown(vec![
        on_rows("source_file", 0, 9, vec![1]),
        on_rows("expr", 2, 5, vec![2, 3]),
        on_rows("name", 2, 2, vec![]),
        on_rows("name", 5, 5, vec![]),
    ]);
    let errors = check_sanity(&tree, &[expr_at(1)]);
    assert_eq!(
        errors,
        vec![
            sanity_error(2, 5, LINE_BREAK),
            sanity_error(2, 5, LINE_BREAK),
            sanity_error(2, 5, LINE_BREAK),
        ]
    );
}

#[test]
fn line_breaks_inside_parentheses_are_exempt() {
    let tree = grown(vec![
        on_rows("source_file", 0, 9, vec![1]),
        on_rows("expr", 2, 5, vec![2]),
        on_rows("nested_expr", 2, 5, vec![]),
    ]);
    assert_eq!(check_sanity(&tree, &[expr_at(1)]), Vec::<ErrorInfo>::new());
}

#[test]
fn only_the_line_breaks_outside_parentheses_are_reported() {
    // rows 2..6: the parentheses cover the breaks at the end of rows 3 and 4
    let tree = grown(vec![
        on_rows("source_file", 0, 9, vec![1]),
        on_rows("expr", 2, 6, vec![2, 3, 4]),
        on_rows("name", 2, 2, vec![]),
        on_rows("nested_expr", 3, 5, vec![]),
        on_rows("name", 6, 6, vec![]),
    ]);
    let errors = check_sanity(&tree, &[expr_at(1)]);
    assert_eq!(errors, vec![sanity_error(2, 6, LINE_BREAK), sanity_error(2, 6, LINE_BREAK)]);
}

#[test]
fn parentheses_deeper_in_the_expression_count_too() {
    let tree = grown(vec![
        on_rows("source_file", 0, 9, vec![1]),
        on_rows("expr", 1, 3, vec![2]),
        on_rows("binary", 1, 3, vec![3, 4]),
        on_rows("nested_expr", 1, 2, vec![]),
        on_rows("nested_expr", 2, 3, vec![]),
    ]);
    assert_eq!(check_sanity(&tree, &[expr_at(1)]), Vec::<ErrorInfo>::new());
}

#[test]
fn parentheses_below_parentheses_are_not_looked_at() {
    // the inner parentheses claim row 4, but the walk stops at the outer ones
    let tree = grown(vec![
        on_rows("source_file", 0, 9, vec![1]),
        on_rows("expr", 3, 5, vec![2]),
        on_rows("nested_expr", 3, 4, vec![3]),
        on_rows("nested_expr", 4, 5, vec![]),
    ]);
    assert_eq!(check_sanity(&tree, &[expr_at(1)]), vec![sanity_error(3, 5, LINE_BREAK)]);
}

#[test]
fn expression_counts_as_expression_under_any_pattern() {
    let tree = grown(vec![on_rows("source_file", 0, 9, vec![1]), on_rows("expr", 3, 5, vec![])]);
    let errors = check_sanity(&tree, &[header_at(1), header_at(1)]);
    assert_eq!(
        errors,
        vec![
            sanity_error(3, 5, LINE_BREAK),
            sanity_error(3, 5, LINE_BREAK),
            sanity_error(3, 5, LINE_BREAK),
            sanity_error(3, 5, LINE_BREAK),
        ]
    );
}

#[test]
fn header_over_two_lines_yields_a_line_break_diagnostic() {
    let tree = grown(vec![on_rows("source_file", 0, 9, vec![1]), on_rows("header", 1, 2, vec![])]);
    assert_eq!(check_sanity(&tree, &[header_at(1)]), vec![sanity_error(1, 2, LINE_BREAK)]);
}

#[test]
fn header_over_many_lines_yields_one_diagnostic_only() {
    let tree = grown(vec![on_rows("source_file", 0, 9, vec![1]), on_rows("header", 1, 7, vec![])]);
    assert_eq!(check_sanity(&tree, &[header_at(1)]), vec![sanity_error(1, 7, LINE_BREAK)]);
}

#[test]
fn headers_on_different_lines_are_fine() {
    let tree = grown(vec![
        on_rows("source_file", 0, 9, vec![1, 2]),
        on_rows("header", 1, 1, vec![]),
        on_rows("header", 2, 2, vec![]),
    ]);
    assert_eq!(check_sanity(&tree, &[header_at(1), header_at(2)]), Vec::<ErrorInfo>::new());
}

#[test]
fn second_header_on_a_line_yields_exactly_one_diagnostic() {
    let mut second = on_rows("header", 4, 4, vec![]);
    second.location.start.character = 20;
    let expected = ErrorInfo {
        location: second.location,
        severity: Severity::Error,
        weight: 100,
        msg: SAME_LINE.to_string(),
    };
    let tree = grown(vec![
        on_rows("source_file", 0, 9, vec![1, 2, 3, 4]),
        on_rows("header", 1, 1, vec![]),
        on_rows("header", 4, 4, vec![]),
        on_rows("header", 7, 7, vec![]),
        second,
    ]);
    let errors = check_sanity(&tree, &[header_at(1), header_at(2), header_at(3), header_at(4)]);
    assert_eq!(errors, vec![expected]);
}

#[test]
fn each_further_header_on_a_line_yields_one_more() {
    let tree = grown(vec![
        on_rows("source_file", 0, 9, vec![1, 2, 3]),
        on_rows("header", 4, 4, vec![]),
        on_rows("header", 4, 4, vec![]),
        on_rows("header", 4, 4, vec![]),
    ]);
    let errors = check_sanity(&tree, &[header_at(1), header_at(2), header_at(3)]);
    assert_eq!(errors, vec![sanity_error(4, 4, SAME_LINE), sanity_error(4, 4, SAME_LINE)]);
}

#[test]
fn header_that_is_broken_and_shares_a_line_yields_both() {
    let tree = grown(vec![
        on_rows("source_file", 0, 9, vec![1, 2]),
        on_rows("header", 4, 4, vec![]),
        on_rows("header", 4, 5, vec![]),
    ]);
    let errors = check_sanity(&tree, &[header_at(1), header_at(2)]);
    assert_eq!(errors, vec![sanity_error(4, 5, LINE_BREAK), sanity_error(4, 5, SAME_LINE)]);
}

#[test]
fn only_the_start_line_of_a_header_counts() {
    let tree = grown(vec![
        on_rows("source_file", 0, 9, vec![1, 2]),
        on_rows("header", 3, 4, vec![]),
        on_rows("header", 4, 4, vec![]),
    ]);
    let errors = check_sanity(&tree, &[header_at(1), header_at(2)]);
    assert_eq!(errors, vec![sanity_error(3, 4, LINE_BREAK)]);
}

#[test]
fn names_and_strings_do_not_count_as_headers() {
    let tree = grown(vec![
        on_rows("source_file", 0, 9, vec![1, 2, 3]),
        on_rows("name", 4, 4, vec![]),
        on_rows("header", 4, 4, vec![]),
        on_rows("string", 4, 4, vec![]),
    ]);
    let errors = check_sanity(&tree, &[string_at(1), header_at(2), string_at(3)]);
    assert_eq!(errors, Vec::<ErrorInfo>::new());
}

#[test]
fn string_over_two_lines_is_not_supported() {
    let tree = grown(vec![on_rows("source_file", 0, 9, vec![1]), on_rows("string", 2, 3, vec![])]);
    assert_eq!(check_sanity(&tree, &[string_at(1)]), vec![sanity_error(2, 3, MULTILINE)]);
}

#[test]
fn name_on_one_line_is_fine() {
    let tree = grown(vec![on_rows("source_file", 0, 9, vec![1]), on_rows("name", 2, 2, vec![])]);
    assert_eq!(check_sanity(&tree, &[PatternMatch { pattern_index: 7, node: 1 }]), Vec::<ErrorInfo>::new());
}

#[test]
fn diagnostics_come_in_the_order_of_the_matches() {
    let tree = grown(vec![
        on_rows("source_file", 0, 9, vec![1, 2, 3]),
        on_rows("string", 1, 2, vec![]),
        on_rows("expr", 3, 4, vec![]),
        on_rows("header", 5, 6, vec![]),
    ]);
    let errors = check_sanity(&tree, &[header_at(3), expr_at(2), string_at(1)]);
    assert_eq!(
        errors,
        vec![
            sanity_error(5, 6, LINE_BREAK),
            sanity_error(3, 4, LINE_BREAK),
            sanity_error(1, 2, MULTILINE),
        ]
    );
}
