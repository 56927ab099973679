//! The first check phase: layouts that the grammar lets through and that are
//! ambiguous or not allowed all the same.

use crate::diagnostic::{error_views, ErrorInfo, ErrorInfoView, Range, Severity};
use crate::table::{row_entries, rows_insert, rows_new};
use crate::text::same_text;
use crate::tree::{NodeView, SyntaxNode, SyntaxTree, TreeView};
use crate::walk::{filtered_visit, visit_order, NodeFilter};
use vstd::prelude::*;

verus! {

/// The weight of every diagnostic of this phase.
pub const SANITY_WEIGHT: u32 = 100;

/// One result of the structural pattern match over a tree: the pattern that
/// matched, by its index, and the node that it captured.
#[derive(Clone, Copy, Debug, PartialEq, Eq)]
pub struct PatternMatch {
    pub pattern_index: usize,
    pub node: usize,
}

/// The node is an expression.
pub open spec fn is_expr(node: NodeView) -> bool {
    node.kind == "expr"@
}

/// The node is an expression in parentheses.
pub open spec fn is_nested_expr(node: NodeView) -> bool {
    node.kind == "nested_expr"@
}

/// The filter of the walk below an expression: it stops at each expression
/// in parentheses, whose rows are exempt whatever lies below.
pub struct OutsideParentheses;

impl NodeFilter for OutsideParentheses {
    open spec fn admits(&self, node: NodeView) -> bool {
        !is_nested_expr(node)
    }

    fn descend(&self, node: &SyntaxNode) -> (d: bool) {
        !same_text(node.kind.as_str(), "nested_expr")
    }
}

/// The diagnostic for a line break outside parentheses.
pub open spec fn line_break_error(location: Range) -> ErrorInfoView {
    ErrorInfoView {
        location,
        severity: Severity::Error,
        weight: SANITY_WEIGHT,
        msg: "line breaks are only allowed inside parenthesis"@,
    }
}

/// The diagnostic for a feature that starts on the line of another.
pub open spec fn same_line_error(location: Range) -> ErrorInfoView {
    ErrorInfoView {
        location,
        severity: Severity::Error,
        weight: SANITY_WEIGHT,
        msg: "features have to be in different lines"@,
    }
}

/// The diagnostic for a name or a string that runs over a line break.
pub open spec fn multiline_string_error(location: Range) -> ErrorInfoView {
    ErrorInfoView {
        location,
        severity: Severity::Error,
        weight: SANITY_WEIGHT,
        msg: "multiline strings are not supported"@,
    }
}

/// `node` is an expression in parentheses whose line breaks include the one
/// at the end of `row`.
pub open spec fn exempts(node: NodeView, row: usize) -> bool {
    is_nested_expr(node) && node.start_row <= row < node.end_row
}

/// The line break at the end of `row` lies inside parentheses below `expr`:
/// the walk below `expr` that stops at parentheses visits a node that exempts it.
pub open spec fn covered(t: TreeView, expr: usize, row: usize) -> bool {
    let visited = visit_order(t, &OutsideParentheses, expr);
    exists|j: int| 0 <= j < visited.len() && exempts(t.nodes[#[trigger] visited[j] as int], row)
}

/// The diagnostics for the rows `from..to` of the expression `expr`: one for
/// each row whose line break is not covered, none for the others.
pub open spec fn expr_errors(t: TreeView, expr: usize, from: int, to: int) -> Seq<ErrorInfoView>
    decreases to - from,
{
    if from >= to {
        Seq::empty()
    } else if covered(t, expr, (to - 1) as usize) {
        expr_errors(t, expr, from, to - 1)
    } else {
        expr_errors(t, expr, from, to - 1).push(line_break_error(t.nodes[expr as int].location))
    }
}

/// The match is one of a feature's header: the first pattern matched, and
/// what it captured is no expression.
pub open spec fn is_header(t: TreeView, m: PatternMatch) -> bool {
    !is_expr(t.nodes[m.node as int]) && m.pattern_index == 0
}

/// The row on which the node that `m` captured starts.
pub open spec fn first_row(t: TreeView, m: PatternMatch) -> usize {
    t.nodes[m.node as int].start_row
}

/// The rows on which the headers among `matches` start.
pub open spec fn header_rows(t: TreeView, matches: Seq<PatternMatch>) -> Set<usize> {
    Set::new(
        |row: usize|
            exists|i: int|
                0 <= i < matches.len() && is_header(t, #[trigger] matches[i]) && first_row(
                    t,
                    matches[i],
                ) == row,
    )
}

/// The diagnostics for one match, `seen` being the rows on which the headers
/// before it start.
///
/// An expression answers for each of its line breaks that is not covered. A
/// header must stand on one row, and on a row where no earlier header
/// starts. Any other capture, a name or a string, must stand on one row.
pub open spec fn match_errors(t: TreeView, m: PatternMatch, seen: Set<usize>) -> Seq<
    ErrorInfoView,
> {
    let node = t.nodes[m.node as int];
    if is_expr(node) {
        expr_errors(t, m.node, node.start_row as int, node.end_row as int)
    } else if m.pattern_index == 0 {
        let broken = if node.spans_rows() {
            seq![line_break_error(node.location)]
        } else {
            Seq::empty()
        };
        if seen.contains(node.start_row) {
            broken.push(same_line_error(node.location))
        } else {
            broken
        }
    } else if node.spans_rows() {
        seq![multiline_string_error(node.location)]
    } else {
        Seq::empty()
    }
}

/// The diagnostics for `matches`, taken in their order.
pub open spec fn sanity_errors(t: TreeView, matches: Seq<PatternMatch>) -> Seq<ErrorInfoView>
    decreases matches.len(),
{
    if matches.len() == 0 {
        Seq::empty()
    } else {
        sanity_errors(t, matches.drop_last()) + match_errors(
            t,
            matches.last(),
            header_rows(t, matches.drop_last()),
        )
    }
}

/// The diagnostics that the `k`-th of `matches` adds to those of the matches before it.
pub open spec fn contribution(t: TreeView, matches: Seq<PatternMatch>, k: int) -> Seq<
    ErrorInfoView,
> {
    match_errors(t, matches[k], header_rows(t, matches.take(k)))
}

/// The rows of `from..to` whose line break is not covered below `expr`.
pub open spec fn open_rows(t: TreeView, expr: usize, from: int, to: int) -> Set<int> {
    Set::new(|row: int| from <= row < to && !covered(t, expr, row as usize))
}

/// How many of `errors` carry the message `msg`.
pub open spec fn count_message(errors: Seq<ErrorInfoView>, msg: Seq<char>) -> nat
    decreases errors.len(),
{
    if errors.len() == 0 {
        0
    } else if errors.last().msg == msg {
        count_message(errors.drop_last(), msg) + 1
    } else {
        count_message(errors.drop_last(), msg)
    }
}

/// The diagnostics of a span of rows are those of its parts, one after the other.
pub proof fn lemma_expr_errors_split(t: TreeView, expr: usize, from: int, mid: int, to: int)
    requires
        from <= mid <= to,
    ensures
        expr_errors(t, expr, from, to) == expr_errors(t, expr, from, mid) + expr_errors(
            t,
            expr,
            mid,
            to,
        ),
    decreases to - mid,
{
    if mid == to {
        assert(expr_errors(t, expr, from, mid) + expr_errors(t, expr, mid, to) =~= expr_errors(
            t,
            expr,
            from,
            to,
        ));
    } else {
        lemma_expr_errors_split(t, expr, from, mid, to - 1);
        assert(expr_errors(t, expr, from, mid) + expr_errors(t, expr, mid, to) =~= expr_errors(
            t,
            expr,
            from,
            to,
        ));
    }
}

/// An expression on the rows `from..to` answers for each row by itself: a
/// row whose line break is not covered yields exactly one diagnostic, a row
/// whose line break is covered yields none, and the diagnostics of the
/// expression are those of its rows, in order.
pub proof fn lemma_one_diagnostic_for_each_open_row(
    t: TreeView,
    expr: usize,
    from: int,
    row: int,
    to: int,
)
    requires
        from <= row < to,
    ensures
        expr_errors(t, expr, row, row + 1) == if covered(t, expr, row as usize) {
            Seq::<ErrorInfoView>::empty()
        } else {
            seq![line_break_error(t.nodes[expr as int].location)]
        },
        expr_errors(t, expr, from, to) == expr_errors(t, expr, from, row) + expr_errors(
            t,
            expr,
            row,
            row + 1,
        ) + expr_errors(t, expr, row + 1, to),
{
    assert(expr_errors(t, expr, row, row) =~= Seq::empty());
    assert(expr_errors(t, expr, row, row + 1) =~= if covered(t, expr, row as usize) {
        Seq::<ErrorInfoView>::empty()
    } else {
        seq![line_break_error(t.nodes[expr as int].location)]
    });
    lemma_expr_errors_split(t, expr, from, row, to);
    lemma_expr_errors_split(t, expr, row, row + 1, to);
    assert(expr_errors(t, expr, from, row) + (expr_errors(t, expr, row, row + 1) + expr_errors(
        t,
        expr,
        row + 1,
        to,
    )) =~= expr_errors(t, expr, from, row) + expr_errors(t, expr, row, row + 1) + expr_errors(
        t,
        expr,
        row + 1,
        to,
    ));
}

/// An expression yields as many diagnostics as it has rows whose line break
/// is not covered, and each of them is the line-break diagnostic at the
/// expression's place.
pub proof fn lemma_expr_errors_count(t: TreeView, expr: usize, from: int, to: int)
    ensures
        open_rows(t, expr, from, to).finite(),
        expr_errors(t, expr, from, to).len() == open_rows(t, expr, from, to).len(),
        forall|j: int|
            0 <= j < expr_errors(t, expr, from, to).len() ==> #[trigger] expr_errors(
                t,
                expr,
                from,
                to,
            )[j] == line_break_error(t.nodes[expr as int].location),
    decreases to - from,
{
    if from >= to {
        assert(open_rows(t, expr, from, to) =~= Set::empty());
    } else {
        lemma_expr_errors_count(t, expr, from, to - 1);
        let before = open_rows(t, expr, from, to - 1);
        if covered(t, expr, (to - 1) as usize) {
            assert(open_rows(t, expr, from, to) =~= before);
        } else {
            assert(open_rows(t, expr, from, to) =~= before.insert(to - 1));
            assert(!before.contains(to - 1));
        }
    }
}

/// The diagnostics of the first `k + 1` matches are those of the first `k`
/// and, behind them, what the `k`-th adds.
pub proof fn lemma_sanity_errors_step(t: TreeView, matches: Seq<PatternMatch>, k: int)
    requires
        0 <= k < matches.len(),
    ensures
        sanity_errors(t, matches.take(k + 1)) == sanity_errors(t, matches.take(k)) + contribution(
            t,
            matches,
            k,
        ),
{
    assert(matches.take(k + 1).drop_last() =~= matches.take(k));
    assert(matches.take(k + 1).last() == matches[k]);
}

/// The three messages of this phase differ from one another.
pub proof fn lemma_messages_differ()
    ensures
        "line breaks are only allowed inside parenthesis"@
            != "features have to be in different lines"@,
        "multiline strings are not supported"@ != "features have to be in different lines"@,
        "line breaks are only allowed inside parenthesis"@
            != "multiline strings are not supported"@,
{
    reveal_strlit("line breaks are only allowed inside parenthesis");
    reveal_strlit("features have to be in different lines");
    reveal_strlit("multiline strings are not supported");
    assert("line breaks are only allowed inside parenthesis"@.len() == 47);
    assert("features have to be in different lines"@.len() == 38);
    assert("multiline strings are not supported"@.len() == 35);
}

/// Of two features' headers that start on one row, where no third does, the
/// first yields no "features have to be in different lines" and the second
/// yields exactly one, at its own place and as its last diagnostic. Headers
/// on other rows have no part in this.
pub proof fn lemma_second_header_on_a_row(
    t: TreeView,
    matches: Seq<PatternMatch>,
    first: int,
    second: int,
)
    requires
        0 <= first < second < matches.len(),
        is_header(t, matches[first]),
        is_header(t, matches[second]),
        first_row(t, matches[first]) == first_row(t, matches[second]),
        forall|k: int|
            0 <= k < matches.len() && is_header(t, #[trigger] matches[k])
                && first_row(t, matches[k]) == first_row(t, matches[first]) ==> k == first || k
                == second,
    ensures
        count_message(
            contribution(t, matches, first),
            "features have to be in different lines"@,
        ) == 0,
        count_message(
            contribution(t, matches, second),
            "features have to be in different lines"@,
        ) == 1,
        contribution(t, matches, second).last() == same_line_error(
            t.nodes[matches[second].node as int].location,
        ),
{
    lemma_messages_differ();
    let msg = "features have to be in different lines"@;
    let row = first_row(t, matches[first]);
    let early = header_rows(t, matches.take(first));
    assert(!early.contains(row)) by {
        if early.contains(row) {
            let i = choose|i: int|
                0 <= i < matches.take(first).len() && is_header(t, #[trigger] matches.take(first)[i])
                    && first_row(t, matches.take(first)[i]) == row;
            assert(matches[i] == matches.take(first)[i]);
        }
    }
    let late = header_rows(t, matches.take(second));
    assert(late.contains(row)) by {
        assert(matches.take(second)[first] == matches[first]);
    }
    let one = t.nodes[matches[first].node as int];
    let two = t.nodes[matches[second].node as int];
    let broken_one = if one.spans_rows() {
        seq![line_break_error(one.location)]
    } else {
        Seq::<ErrorInfoView>::empty()
    };
    let broken_two = if two.spans_rows() {
        seq![line_break_error(two.location)]
    } else {
        Seq::<ErrorInfoView>::empty()
    };
    assert(contribution(t, matches, first) == broken_one);
    assert(count_message(broken_one, msg) == 0) by {
        assert(broken_one.drop_last().len() == 0 || broken_one.len() == 0);
        if broken_one.len() > 0 {
            assert(count_message(broken_one.drop_last(), msg) == 0);
        }
    }
    assert(contribution(t, matches, second) == broken_two.push(same_line_error(two.location)));
    assert(broken_two.push(same_line_error(two.location)).drop_last() =~= broken_two);
    assert(count_message(broken_two, msg) == 0) by {
        if broken_two.len() > 0 {
            assert(count_message(broken_two.drop_last(), msg) == 0);
        }
    }
}

fn line_break(location: Range) -> (e: ErrorInfo)
    ensures
        e@ == line_break_error(location),
{
    ErrorInfo {
        weight: SANITY_WEIGHT,
        location,
        severity: Severity::Error,
        msg: "line breaks are only allowed inside parenthesis".to_owned(),
    }
}

fn same_line(location: Range) -> (e: ErrorInfo)
    ensures
        e@ == same_line_error(location),
{
    ErrorInfo {
        weight: SANITY_WEIGHT,
        location,
        severity: Severity::Error,
        msg: "features have to be in different lines".to_owned(),
    }
}

fn multiline_string(location: Range) -> (e: ErrorInfo)
    ensures
        e@ == multiline_string_error(location),
{
    ErrorInfo {
        weight: SANITY_WEIGHT,
        location,
        severity: Severity::Error,
        msg: "multiline strings are not supported".to_owned(),
    }
}

/// Collects the rows whose line breaks the parenthesised nodes among `visited` exempt.
fn exempt_rows(tree: &SyntaxTree, visited: &Vec<usize>) -> (rows: Vec<usize>)
    requires
        forall|j: int| 0 <= j < visited.len() ==> tree@.has(#[trigger] visited[j]),
    ensures
        forall|row: usize|
            rows@.contains(row) <==> exists|j: int|
                0 <= j < visited.len() && exempts(tree@.nodes[#[trigger] visited[j] as int], row),
{
    let mut rows: Vec<usize> = Vec::new();
    let mut j: usize = 0;
    while j < visited.len()
        invariant
            j <= visited.len(),
            forall|j: int| 0 <= j < visited.len() ==> tree@.has(#[trigger] visited[j]),
            forall|row: usize|
                rows@.contains(row) <==> exists|i: int|
                    0 <= i < j && exempts(tree@.nodes[#[trigger] visited[i] as int], row),
        decreases visited.len() - j,
    {
        let node = tree.node(visited[j]);
        if same_text(node.kind.as_str(), "nested_expr") {
            let ghost before = rows@;
            let mut row = node.start_row;
            while row < node.end_row
                invariant
                    node.start_row <= row,
                    row <= node.end_row || row == node.start_row,
                    forall|r: usize|
                        rows@.contains(r) <==> before.contains(r) || (node.start_row <= r < row),
                decreases node.end_row - row,
            {
                let ghost so_far = rows@;
                rows.push(row);
                assert forall|r: usize| rows@.contains(r) <==> so_far.contains(r) || r == row by {
                    if so_far.contains(r) {
                        let at = choose|at: int| 0 <= at < so_far.len() && so_far[at] == r;
                        assert(rows@[at] == r);
                    }
                    if r == row {
                        assert(rows@[so_far.len() as int] == r);
                    }
                }
                row += 1;
            }
            assert(row == node.end_row || node.start_row >= node.end_row);
            assert(node@ == tree@.nodes[visited[j as int] as int]);
            assert forall|r: usize| rows@.contains(r) implies exists|i: int|
                0 <= i < j + 1 && exempts(tree@.nodes[#[trigger] visited[i] as int], r) by {
                if before.contains(r) {
                    let i = choose|i: int|
                        0 <= i < j && exempts(tree@.nodes[#[trigger] visited[i] as int], r);
                    assert(0 <= i < j + 1 && exempts(tree@.nodes[visited[i] as int], r));
                } else {
                    assert(node.start_row <= r < node.end_row);
                    assert(exempts(tree@.nodes[visited[j as int] as int], r));
                }
            }
            assert forall|r: usize|
                (exists|i: int|
                    0 <= i < j + 1 && exempts(
                        tree@.nodes[#[trigger] visited[i] as int],
                        r,
                    )) implies rows@.contains(r) by {
                let i = choose|i: int|
                    0 <= i < j + 1 && exempts(tree@.nodes[#[trigger] visited[i] as int], r);
                if i < j {
                    assert(before.contains(r));
                } else {
                    assert(node.start_row <= r < node.end_row);
                }
            }
        } else {
            assert forall|r: usize| rows@.contains(r) <==> exists|i: int|
                0 <= i < j + 1 && exempts(tree@.nodes[#[trigger] visited[i] as int], r) by {
                assert(!exempts(tree@.nodes[visited[j as int] as int], r));
                if rows@.contains(r) {
                    let i = choose|i: int|
                        0 <= i < j && exempts(tree@.nodes[#[trigger] visited[i] as int], r);
                    assert(0 <= i < j + 1);
                }
            }
        }
        j += 1;
    }
    rows
}

/// Tests whether `row` is among `rows`.
fn holds_row(rows: &Vec<usize>, row: usize) -> (found: bool)
    ensures
        found == rows@.contains(row),
{
    let mut i: usize = 0;
    while i < rows.len()
        invariant
            i <= rows.len(),
            forall|k: int| 0 <= k < i ==> rows@[k] != row,
        decreases rows.len() - i,
    {
        if rows[i] == row {
            return true;
        }
        i += 1;
    }
    false
}

/// Appends the diagnostics of the expression `expr` to `error`.
fn check_expr(tree: &SyntaxTree, expr: usize, error: &mut Vec<ErrorInfo>)
    requires
        tree@.has(expr),
    ensures
        error_views(final(error)@) == error_views(old(error)@) + expr_errors(
            tree@,
            expr,
            tree@.nodes[expr as int].start_row as int,
            tree@.nodes[expr as int].end_row as int,
        ),
{
    let node = tree.node(expr);
    let ghost before = error_views(error@);
    let ghost start = node.start_row as int;
    if node.start_row == node.end_row {
        assert(before + expr_errors(tree@, expr, start, start) =~= before);
        return ;
    }
    let visited = filtered_visit(tree, expr, &OutsideParentheses);
    let ok_lines = exempt_rows(tree, &visited);
    let mut row = node.start_row;
    assert(before + expr_errors(tree@, expr, start, start) =~= before);
    while row < node.end_row
        invariant
            tree@.has(expr),
            node@ == tree@.nodes[expr as int],
            start == node.start_row,
            start <= row,
            row <= node.end_row || row == node.start_row,
            visited@ == visit_order(tree@, &OutsideParentheses, expr),
            forall|r: usize| ok_lines@.contains(r) <==> covered(tree@, expr, r),
            error_views(error@) == before + expr_errors(tree@, expr, start, row as int),
        decreases node.end_row - row,
    {
        let ghost so_far = error_views(error@);
        if !holds_row(&ok_lines, row) {
            error.push(line_break(node.location));
            assert(error_views(error@) =~= so_far.push(line_break_error(node.location)));
        }
        assert(error_views(error@) =~= before + expr_errors(tree@, expr, start, row + 1));
        row += 1;
    }
    if node.start_row > node.end_row {
        assert(before + expr_errors(tree@, expr, start, node.end_row as int) =~= before);
    }
}

/// Checks the layout of a tree, given the matches of the structural patterns
/// over it, and returns the diagnostics in the order of the matches.
///
/// An empty result means that the layout is in order.
pub fn check_sanity(tree: &SyntaxTree, matches: &[PatternMatch]) -> (error: Vec<ErrorInfo>)
    requires
        forall|k: int| 0 <= k < matches.len() ==> tree@.has(#[trigger] matches[k].node),
    ensures
        error_views(error@) == sanity_errors(tree@, matches@),
{
    let mut error: Vec<ErrorInfo> = Vec::new();
    let mut lines = rows_new();
    let mut k: usize = 0;
    assert(matches@.take(0) =~= Seq::empty());
    assert(error_views(error@) =~= sanity_errors(tree@, matches@.take(0)));
    assert(row_entries(lines).dom() =~= header_rows(tree@, matches@.take(0)));
    while k < matches.len()
        invariant
            k <= matches.len(),
            forall|k: int| 0 <= k < matches.len() ==> tree@.has(#[trigger] matches[k].node),
            error_views(error@) == sanity_errors(tree@, matches@.take(k as int)),
            row_entries(lines).dom() == header_rows(tree@, matches@.take(k as int)),
        decreases matches.len() - k,
    {
        let m = matches[k];
        let node = tree.node(m.node);
        let ghost done = matches@.take(k as int);
        let ghost next = matches@.take(k + 1);
        let ghost seen = header_rows(tree@, done);
        let ghost before = error_views(error@);
        assert(next.drop_last() =~= done);
        assert(next.last() == m);
        if same_text(node.kind.as_str(), "expr") {
            check_expr(tree, m.node, &mut error);
        } else if m.pattern_index == 0 {
            if node.start_row != node.end_row {
                error.push(line_break(node.location));
            }
            let ghost broken = error_views(error@);
            if rows_insert(&mut lines, node.start_row, m.node).is_some() {
                error.push(same_line(node.location));
                assert(error_views(error@) =~= broken.push(same_line_error(node.location)));
            }
            assert(error_views(error@) =~= before + match_errors(tree@, m, seen));
        } else {
            if node.start_row != node.end_row {
                error.push(multiline_string(node.location));
            }
            assert(error_views(error@) =~= before + match_errors(tree@, m, seen));
        }
        assert(row_entries(lines).dom() =~= header_rows(tree@, next)) by {
            assert forall|row: usize| header_rows(tree@, next).contains(row) implies row_entries(
                lines,
            ).dom().contains(row) by {
                let i = choose|i: int|
                    0 <= i < next.len() && is_header(tree@, #[trigger] next[i])
                        && first_row(tree@, next[i]) == row;
                if i < k {
                    assert(done[i] == next[i]);
                }
            }
            assert forall|row: usize| row_entries(lines).dom().contains(row) implies header_rows(
                tree@,
                next,
            ).contains(row) by {
                if seen.contains(row) {
                    let i = choose|i: int|
                        0 <= i < done.len() && is_header(tree@, #[trigger] done[i])
                            && first_row(tree@, done[i]) == row;
                    assert(next[i] == done[i]);
                } else {
                    assert(next[k as int] == m);
                }
            }
        }
        k += 1;
    }
    assert(matches@.take(k as int) =~= matches@);
    error
}

} // verus!
