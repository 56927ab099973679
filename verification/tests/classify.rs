use uvls::classify::{check_errors, classify_error, contains_operator, SYNTAX_WEIGHT};
use uvls::diagnostic::{ErrorInfo, Position, Range, Severity};
use uvls::text::{contains_bytes, same_text};
use uvls::tree::{SyntaxNode, SyntaxTree};

const DANGLING: &str = "missing lhs or rhs expression";
const UNKNOWN: &str = "unknown syntax error";

fn span(start_byte: usize, end_byte: usize) -> Range {
    Range {
        start: Position { line: 0, character: start_byte as u32 },
        end: Position { line: 0, character: end_byte as u32 },
    }
}

fn piece(kind: &str, start_byte: usize, end_byte: usize, children: Vec<usize>) -> SyntaxNode {
    SyntaxNode {
        kind: kind.to_string(),
        location: span(start_byte, end_byte),
        start_row: 0,
        end_row: 0,
        start_byte,
        end_byte,
        is_error: false,
        is_missing: false,
        children,
    }
}

fn error_piece(start_byte: usize, end_byte: usize, children: Vec<usize>) -> SyntaxNode {
    let mut n = piece("ERROR", start_byte, end_byte, children);
    n.is_error = true;
    n
}

fn missing_piece(kind: &str, at: usize) -> SyntaxNode {
    let mut n = piece(kind, at, at, vec![]);
    n.is_missing = true;
    n
}

fn syntax_error(start_byte: usize, end_byte: usize, msg: &str) -> ErrorInfo {
    ErrorInfo {
        location: span(start_byte, end_byte),
        severity: Severity::Error,
        weight: 80,
        msg: msg.to_string(),
    }
}

fn one_error(source: &str, multi_line: bool) -> SyntaxTree {
    let mut e = error_piece(0, source.len(), vec![]);
    if multi_line {
        e.end_row = 1;
    }
    let mut root = piece("source_file", 0, source.len(), vec![1]);
    root.end_row = e.end_row;
    SyntaxTree::from_nodes(source.as_bytes().to_vec(), vec![root, e]).unwrap()
}

#[test]
fn syntax_weight_is_eighty() {
    assert_eq!(SYNTAX_WEIGHT, 80);
}

#[test]
fn same_text_compares_characters() {
    assert!(same_text("expr", "expr"));
    assert!(same_text("", ""));
    assert!(!same_text("expr", "nested_expr"));
    assert!(!same_text("expr", "exp"));
    assert!(!same_text("expr", "expR"));
    assert!(same_text("größe", "größe"));
    assert!(!same_text("größe", "grösse"));
}

#[test]
fn contains_bytes_finds_a_pattern_anywhere() {
    assert!(contains_bytes(b"a <=> b", b"<=>"));
    assert!(contains_bytes(b"<=>", b"<=>"));
    assert!(contains_bytes(b"ab==", b"=="));
    assert!(contains_bytes(b"abc", b""));
    assert!(contains_bytes(b"", b""));
    assert!(!contains_bytes(b"a = b", b"=="));
    assert!(!contains_bytes(b"=", b"=="));
    assert!(!contains_bytes(b"", b"="));
    assert!(!contains_bytes(b"a= =b", b"=="));
}

#[test]
fn every_listed_operator_is_found() {
    for op in ["=>", "<=>", "&", "|", "+", "-", "*", "/", ">", "<", "=="] {
        assert!(contains_operator(op.as_bytes()), "{}", op);
        let inside = format!("a {} b", op);
        assert!(contains_operator(inside.as_bytes()), "{}", op);
    }
}

#[test]
fn text_without_operator_has_none() {
    assert!(!contains_operator(b""));
    assert!(!contains_operator(b"feature"));
    assert!(!contains_operator(b"a = b"));
    assert!(!contains_operator(b"! ( ) [ ] { } . , : ; ' \" ~ ^ % # @"));
}

#[test]
fn single_line_error_with_plus_is_a_missing_operand() {
    let tree = one_error("a +", false);
    assert_eq!(classify_error(&tree, 1), syntax_error(0, 3, DANGLING));
}

#[test]
fn single_line_error_with_minus_is_a_missing_operand() {
    let tree = one_error("- b", false);
    assert_eq!(classify_error(&tree, 1), syntax_error(0, 3, DANGLING));
}

#[test]
fn single_line_error_with_implication_is_a_missing_operand() {
    let tree = one_error("a =>", false);
    assert_eq!(classify_error(&tree, 1).msg, DANGLING);
}

#[test]
fn single_line_error_with_double_equals_is_a_missing_operand() {
    let tree = one_error("a ==", false);
    assert_eq!(classify_error(&tree, 1).msg, DANGLING);
}

#[test]
fn single_line_error_without_operator_is_unknown() {
    let tree = one_error("a = b", false);
    assert_eq!(classify_error(&tree, 1), syntax_error(0, 5, UNKNOWN));
}

#[test]
fn multi_line_error_is_unknown_whatever_it_holds() {
    let tree = one_error("a +\nb", true);
    let e = classify_error(&tree, 1);
    assert_eq!(e.msg, UNKNOWN);
    assert_eq!(e.weight, 80);
    assert_eq!(e.severity, Severity::Error);
}

#[test]
fn only_the_text_of_the_node_counts() {
    // the operator stands in the source, but not under the error node
    let source = "a + b ?";
    let nodes = vec![piece("source_file", 0, 7, vec![1]), error_piece(6, 7, vec![])];
    let tree = SyntaxTree::from_nodes(source.as_bytes().to_vec(), nodes).unwrap();
    assert_eq!(classify_error(&tree, 1), syntax_error(6, 7, UNKNOWN));
}

#[test]
fn tree_without_marks_has_no_errors() {
    let nodes = vec![piece("source_file", 0, 3, vec![1]), piece("name", 0, 3, vec![])];
    let tree = SyntaxTree::from_nodes(b"abc".to_vec(), nodes).unwrap();
    assert_eq!(check_errors(&tree), Vec::<ErrorInfo>::new());
}

#[test]
fn missing_node_is_named_by_its_kind() {
    let nodes = vec![piece("source_file", 0, 3, vec![1]), missing_piece("name", 3)];
    let tree = SyntaxTree::from_nodes(b"a +".to_vec(), nodes).unwrap();
    assert_eq!(check_errors(&tree), vec![syntax_error(3, 3, "missing name")]);
}

#[test]
fn missing_wins_over_error_on_one_node() {
    let mut both = missing_piece(")", 2);
    both.is_error = true;
    let nodes = vec![piece("source_file", 0, 3, vec![1]), both];
    let tree = SyntaxTree::from_nodes(b"(a+".to_vec(), nodes).unwrap();
    assert_eq!(check_errors(&tree), vec![syntax_error(2, 2, "missing )")]);
}

#[test]
fn errors_come_in_pre_order() {
    let source = "x + ; y ?";
    let nodes = vec![
        piece("source_file", 0, 9, vec![1, 4]),
        piece("feature", 0, 5, vec![2, 3]),
        error_piece(0, 3, vec![]),
        missing_piece("name", 4),
        error_piece(6, 9, vec![]),
    ];
    let tree = SyntaxTree::from_nodes(source.as_bytes().to_vec(), nodes).unwrap();
    assert_eq!(
        check_errors(&tree),
        vec![
            syntax_error(0, 3, DANGLING),
            syntax_error(4, 4, "missing name"),
            syntax_error(6, 9, UNKNOWN),
        ]
    );
}

#[test]
fn marks_below_a_mark_are_not_reported() {
    let source = "a + b";
    let nodes = vec![
        piece("source_file", 0, 5, vec![1]),
        error_piece(0, 5, vec![2, 3]),
        error_piece(2, 3, vec![]),
        missing_piece("name", 5),
    ];
    let tree = SyntaxTree::from_nodes(source.as_bytes().to_vec(), nodes).unwrap();
    assert_eq!(check_errors(&tree), vec![syntax_error(0, 5, DANGLING)]);
}

#[test]
fn a_mark_on_the_root_is_not_reported() {
    let tree = SyntaxTree::from_nodes(b"+".to_vec(), vec![error_piece(0, 1, vec![])]).unwrap();
    assert_eq!(check_errors(&tree), Vec::<ErrorInfo>::new());
}
