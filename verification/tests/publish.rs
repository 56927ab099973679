use uvls::diagnostic::{Diagnostic, ErrorInfo, Position, Range, Severity};
use uvls::publish::{heaviest, publish, select_top_tier};

fn at_line(line: u32) -> Range {
    Range {
        start: Position { line, character: 0 },
        end: Position { line, character: 4 },
    }
}

fn weighted(line: u32, weight: u32, msg: &str) -> ErrorInfo {
    ErrorInfo {
        location: at_line(line),
        severity: Severity::Error,
        weight,
        msg: msg.to_string(),
    }
}

#[test]
fn diagnostic_keeps_range_severity_and_message() {
    let e = ErrorInfo {
        location: at_line(7),
        severity: Severity::Warning,
        weight: 12,
        msg: "careful".to_string(),
    };
    let d = e.diagnostic();
    assert_eq!(
        d,
        Diagnostic {
            range: at_line(7),
            severity: Severity::Warning,
            message: "careful".to_string(),
        }
    );
}

#[test]
fn clone_of_error_info_is_equal() {
    let e = weighted(3, 80, "unknown syntax error");
    assert_eq!(e.clone(), e);
}

#[test]
fn heaviest_of_nothing_is_none() {
    assert_eq!(heaviest(&[]), None);
}

#[test]
fn heaviest_is_the_largest_weight() {
    let errs = vec![weighted(0, 80, "a"), weighted(1, 100, "b"), weighted(2, 20, "c")];
    assert_eq!(heaviest(&errs), Some(100));
}

#[test]
fn heaviest_of_weight_zero_is_zero() {
    let errs = vec![weighted(0, 0, "a")];
    assert_eq!(heaviest(&errs), Some(0));
}

#[test]
fn publish_of_nothing_is_empty() {
    assert_eq!(publish(&[]), Vec::<Diagnostic>::new());
}

#[test]
fn publish_shows_only_the_heaviest_tier() {
    let errs = vec![
        weighted(0, 80, "low a"),
        weighted(1, 100, "high a"),
        weighted(2, 80, "low b"),
        weighted(3, 100, "high b"),
    ];
    let shown = publish(&errs);
    assert_eq!(
        shown,
        vec![
            Diagnostic { range: at_line(3), severity: Severity::Error, message: "high b".to_string() },
            Diagnostic { range: at_line(1), severity: Severity::Error, message: "high a".to_string() },
        ]
    );
}

#[test]
fn publish_comes_in_reverse_insertion_order() {
    let errs = vec![weighted(0, 5, "first"), weighted(1, 5, "second"), weighted(2, 5, "third")];
    let shown = publish(&errs);
    let messages: Vec<&str> = shown.iter().map(|d| d.message.as_str()).collect();
    assert_eq!(messages, vec!["third", "second", "first"]);
}

#[test]
fn published_weights_are_all_the_maximum() {
    let errs = vec![
        weighted(0, 3, "a"),
        weighted(1, 9, "b"),
        weighted(2, 9, "c"),
        weighted(3, 1, "d"),
        weighted(4, 9, "e"),
    ];
    let top = select_top_tier(&errs);
    assert_eq!(top.len(), 3);
    for e in top.iter() {
        assert_eq!(e.weight, 9);
    }
    assert_eq!(publish(&errs).len(), 3);
}

#[test]
fn select_top_tier_of_nothing_is_empty() {
    assert_eq!(select_top_tier(&[]), Vec::<ErrorInfo>::new());
}

#[test]
fn publish_keeps_severity_of_each_diagnostic() {
    let errs = vec![
        ErrorInfo { location: at_line(0), severity: Severity::Hint, weight: 7, msg: "h".to_string() },
        ErrorInfo { location: at_line(1), severity: Severity::Information, weight: 7, msg: "i".to_string() },
    ];
    let shown = publish(&errs);
    assert_eq!(shown[0].severity, Severity::Information);
    assert_eq!(shown[1].severity, Severity::Hint);
}

#[test]
fn severity_orders_errors_first() {
    assert!(Severity::Error < Severity::Warning);
    assert!(Severity::Warning < Severity::Information);
    assert!(Severity::Information < Severity::Hint);
}
