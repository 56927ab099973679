//! Turning the parser's error marks into diagnostics. The parser says only
//! that something is wrong; what is wrong is guessed from the text.

use crate::diagnostic::{error_views, ErrorInfo, ErrorInfoView, Severity};
use crate::text::{contains_bytes, occurs_at, occurs_in};
use crate::tree::{NodeView, SyntaxNode, SyntaxTree, TreeView};
use crate::walk::{filtered_visit, visit_order, NodeFilter};
use vstd::prelude::*;
use vstd::string::{is_ascii_spec_bytes, StringExecFns, StringSliceAdditionalSpecFns};

verus! {

/// The weight of every diagnostic made of a parser's error mark.
pub const SYNTAX_WEIGHT: u32 = 80;

/// `text` holds the spelling of a binary operator.
pub open spec fn has_operator(text: Seq<u8>) -> bool {
    ||| occurs_in("=>".spec_bytes(), text)
    ||| occurs_in("<=>".spec_bytes(), text)
    ||| occurs_in("&".spec_bytes(), text)
    ||| occurs_in("|".spec_bytes(), text)
    ||| occurs_in("+".spec_bytes(), text)
    ||| occurs_in("-".spec_bytes(), text)
    ||| occurs_in("*".spec_bytes(), text)
    ||| occurs_in("/".spec_bytes(), text)
    ||| occurs_in(">".spec_bytes(), text)
    ||| occurs_in("<".spec_bytes(), text)
    ||| occurs_in("==".spec_bytes(), text)
}

/// The byte is one of `&`, `|`, `+`, `-`, `*`, `/`, `>` and `<`, each of
/// which spells an operator by itself.
pub open spec fn is_operator_byte(byte: u8) -> bool {
    byte == 0x26 || byte == 0x7c || byte == 0x2b || byte == 0x2d || byte == 0x2a || byte == 0x2f
        || byte == 0x3e || byte == 0x3c
}

/// A text holds the spelling of an operator exactly when it holds one of
/// `&`, `|`, `+`, `-`, `*`, `/`, `>` and `<`, or two `=` in a row: `=>` and
/// `<=>` hold a `>`.
pub proof fn lemma_operator_bytes(text: Seq<u8>)
    ensures
        has_operator(text) <==> (exists|at: int|
            0 <= at < text.len() && is_operator_byte(#[trigger] text[at])) || (exists|at: int|
            0 <= at && at + 1 < text.len() && #[trigger] text[at] == 0x3d && text[at + 1] == 0x3d),
{
    reveal_strlit("=>");
    reveal_strlit("<=>");
    reveal_strlit("&");
    reveal_strlit("|");
    reveal_strlit("+");
    reveal_strlit("-");
    reveal_strlit("*");
    reveal_strlit("/");
    reveal_strlit(">");
    reveal_strlit("<");
    reveal_strlit("==");
    is_ascii_spec_bytes("=>");
    is_ascii_spec_bytes("<=>");
    is_ascii_spec_bytes("&");
    is_ascii_spec_bytes("|");
    is_ascii_spec_bytes("+");
    is_ascii_spec_bytes("-");
    is_ascii_spec_bytes("*");
    is_ascii_spec_bytes("/");
    is_ascii_spec_bytes(">");
    is_ascii_spec_bytes("<");
    is_ascii_spec_bytes("==");
    assert("=>".spec_bytes() =~= seq![0x3du8, 0x3eu8]);
    assert("<=>".spec_bytes() =~= seq![0x3cu8, 0x3du8, 0x3eu8]);
    assert("&".spec_bytes() =~= seq![0x26u8]);
    assert("|".spec_bytes() =~= seq![0x7cu8]);
    assert("+".spec_bytes() =~= seq![0x2bu8]);
    assert("-".spec_bytes() =~= seq![0x2du8]);
    assert("*".spec_bytes() =~= seq![0x2au8]);
    assert("/".spec_bytes() =~= seq![0x2fu8]);
    assert(">".spec_bytes() =~= seq![0x3eu8]);
    assert("<".spec_bytes() =~= seq![0x3cu8]);
    assert("==".spec_bytes() =~= seq![0x3du8, 0x3du8]);
    if has_operator(text) {
        let pattern = if occurs_in("=>".spec_bytes(), text) {
            "=>".spec_bytes()
        } else if occurs_in("<=>".spec_bytes(), text) {
            "<=>".spec_bytes()
        } else if occurs_in("&".spec_bytes(), text) {
            "&".spec_bytes()
        } else if occurs_in("|".spec_bytes(), text) {
            "|".spec_bytes()
        } else if occurs_in("+".spec_bytes(), text) {
            "+".spec_bytes()
        } else if occurs_in("-".spec_bytes(), text) {
            "-".spec_bytes()
        } else if occurs_in("*".spec_bytes(), text) {
            "*".spec_bytes()
        } else if occurs_in("/".spec_bytes(), text) {
            "/".spec_bytes()
        } else if occurs_in(">".spec_bytes(), text) {
            ">".spec_bytes()
        } else if occurs_in("<".spec_bytes(), text) {
            "<".spec_bytes()
        } else {
            "==".spec_bytes()
        };
        let at = choose|at: int| occurs_at(pattern, text, at);
        let found = text.subrange(at, at + pattern.len());
        assert(found == pattern);
        assert(found[0] == text[at]);
        if pattern.len() > 1 {
            assert(found[1] == text[at + 1]);
        }
        if pattern == "=>".spec_bytes() {
            assert(is_operator_byte(text[at + 1]));
        } else if pattern == "==".spec_bytes() {
            assert(text[at] == 0x3d && text[at + 1] == 0x3d);
        } else {
            assert(is_operator_byte(text[at]));
        }
    }
    if exists|at: int| 0 <= at < text.len() && is_operator_byte(#[trigger] text[at]) {
        let at = choose|at: int| 0 <= at < text.len() && is_operator_byte(#[trigger] text[at]);
        let pattern = seq![text[at]];
        assert(text.subrange(at, at + 1) =~= pattern);
        assert(occurs_at(pattern, text, at));
    }
    if exists|at: int|
        0 <= at && at + 1 < text.len() && #[trigger] text[at] == 0x3d && text[at + 1] == 0x3d {
        let at = choose|at: int|
            0 <= at && at + 1 < text.len() && #[trigger] text[at] == 0x3d && text[at + 1] == 0x3d;
        assert(text.subrange(at, at + 2) =~= seq![0x3du8, 0x3du8]);
        assert(occurs_at("==".spec_bytes(), text, at));
    }
}

/// Tests whether `text` holds the spelling of a binary operator.
pub fn contains_operator(text: &[u8]) -> (found: bool)
    ensures
        found == has_operator(text@),
{
    contains_bytes(text, "=>".as_bytes()) || contains_bytes(text, "<=>".as_bytes())
        || contains_bytes(text, "&".as_bytes()) || contains_bytes(text, "|".as_bytes())
        || contains_bytes(text, "+".as_bytes()) || contains_bytes(text, "-".as_bytes())
        || contains_bytes(text, "*".as_bytes()) || contains_bytes(text, "/".as_bytes())
        || contains_bytes(text, ">".as_bytes()) || contains_bytes(text, "<".as_bytes())
        || contains_bytes(text, "==".as_bytes())
}

/// The error node looks like an operator that lacks an operand: it stands on
/// one row and its text holds the spelling of a binary operator.
pub open spec fn lacks_operand(t: TreeView, node: usize) -> bool {
    !t.nodes[node as int].spans_rows() && has_operator(t.text(node as int))
}

/// The diagnostic for the error node `node`.
pub open spec fn classified(t: TreeView, node: usize) -> ErrorInfoView {
    ErrorInfoView {
        location: t.nodes[node as int].location,
        severity: Severity::Error,
        weight: SYNTAX_WEIGHT,
        msg: if lacks_operand(t, node) {
            "missing lhs or rhs expression"@
        } else {
            "unknown syntax error"@
        },
    }
}

/// The diagnostic for a node that the parser put in for a missing token.
pub open spec fn missing_error(node: NodeView) -> ErrorInfoView {
    ErrorInfoView {
        location: node.location,
        severity: Severity::Error,
        weight: SYNTAX_WEIGHT,
        msg: "missing "@ + node.kind,
    }
}

/// Makes the diagnostic for the error node `root`.
///
/// An error on one row whose text holds an operator is taken for an operator
/// that lacks an operand; any other error is not explained.
pub fn classify_error(tree: &SyntaxTree, root: usize) -> (e: ErrorInfo)
    requires
        tree@.has(root),
    ensures
        e@ == classified(tree@, root),
{
    let node = tree.node(root);
    if node.start_row == node.end_row {
        if contains_operator(tree.text(root)) {
            return ErrorInfo {
                location: node.location,
                severity: Severity::Error,
                weight: SYNTAX_WEIGHT,
                msg: "missing lhs or rhs expression".to_owned(),
            };
        }
    }
    ErrorInfo {
        location: node.location,
        severity: Severity::Error,
        weight: SYNTAX_WEIGHT,
        msg: "unknown syntax error".to_owned(),
    }
}

/// The filter of the walk that looks for error marks: it stops at each mark,
/// below which the parser may have left anything.
pub struct AboveErrors;

impl NodeFilter for AboveErrors {
    open spec fn admits(&self, node: NodeView) -> bool {
        !node.is_missing && !node.is_error
    }

    fn descend(&self, node: &SyntaxNode) -> (d: bool) {
        !node.is_missing && !node.is_error
    }
}

/// The diagnostics that the node `node` gives rise to by itself: one if it
/// is a mark of the parser, none if it is not.
pub open spec fn mark_errors(t: TreeView, node: usize) -> Seq<ErrorInfoView> {
    if t.nodes[node as int].is_missing {
        seq![missing_error(t.nodes[node as int])]
    } else if t.nodes[node as int].is_error {
        seq![classified(t, node)]
    } else {
        Seq::empty()
    }
}

/// The diagnostics of the nodes `visited`, in their order.
pub open spec fn marks_among(t: TreeView, visited: Seq<usize>) -> Seq<ErrorInfoView>
    decreases visited.len(),
{
    if visited.len() == 0 {
        Seq::empty()
    } else {
        marks_among(t, visited.drop_last()) + mark_errors(t, visited.last())
    }
}

/// The diagnostics for the parser's marks in a tree: those of the nodes
/// below the root that are reached without passing through a mark, in
/// pre-order.
pub open spec fn syntax_errors(t: TreeView) -> Seq<ErrorInfoView> {
    marks_among(t, visit_order(t, &AboveErrors, 0))
}

/// Collects the diagnostics for the parser's error marks in a tree.
pub fn check_errors(tree: &SyntaxTree) -> (err: Vec<ErrorInfo>)
    ensures
        error_views(err@) == syntax_errors(tree@),
{
    let mut err: Vec<ErrorInfo> = Vec::new();
    let visited = filtered_visit(tree, tree.root(), &AboveErrors);
    let mut i: usize = 0;
    assert(visited@.take(0) =~= Seq::empty());
    assert(error_views(err@) =~= marks_among(tree@, visited@.take(0)));
    while i < visited.len()
        invariant
            i <= visited.len(),
            forall|j: int| 0 <= j < visited.len() ==> tree@.has(#[trigger] visited[j]),
            error_views(err@) == marks_among(tree@, visited@.take(i as int)),
        decreases visited.len() - i,
    {
        let at = visited[i];
        let node = tree.node(at);
        let ghost before = error_views(err@);
        assert(visited@.take(i + 1).drop_last() =~= visited@.take(i as int));
        assert(visited@.take(i + 1).last() == at);
        if node.is_missing {
            let mut msg = String::from_str("missing ");
            msg.append(node.kind.as_str());
            err.push(
                ErrorInfo {
                    location: node.location,
                    severity: Severity::Error,
                    weight: SYNTAX_WEIGHT,
                    msg,
                },
            );
            assert(error_views(err@) =~= before + mark_errors(tree@, at));
        } else if node.is_error {
            err.push(classify_error(tree, at));
            assert(error_views(err@) =~= before + mark_errors(tree@, at));
        } else {
            assert(error_views(err@) =~= before + mark_errors(tree@, at));
        }
        i += 1;
    }
    assert(visited@.take(i as int) =~= visited@);
    err
}

} // verus!
