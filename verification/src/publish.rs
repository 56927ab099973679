//! The filter in front of the editor: of a document's diagnostics only the
//! heaviest are shown.

use crate::diagnostic::{
    diagnostic_of, diagnostic_views, error_views, Diagnostic, DiagnosticView, ErrorInfo,
    ErrorInfoView,
};
use vstd::prelude::*;

verus! {

/// The largest weight among `errors`; 0 where there is none.
pub open spec fn max_weight(errors: Seq<ErrorInfoView>) -> u32
    decreases errors.len(),
{
    if errors.len() == 0 {
        0
    } else {
        let before = max_weight(errors.drop_last());
        if errors.last().weight > before {
            errors.last().weight
        } else {
            before
        }
    }
}

/// Those of `errors` that weigh `weight`, the last of them first.
pub open spec fn tier(errors: Seq<ErrorInfoView>, weight: u32) -> Seq<ErrorInfoView>
    decreases errors.len(),
{
    if errors.len() == 0 {
        Seq::empty()
    } else if errors.last().weight == weight {
        seq![errors.last()] + tier(errors.drop_last(), weight)
    } else {
        tier(errors.drop_last(), weight)
    }
}

/// The heaviest of `errors`, the last of them first.
pub open spec fn top_tier(errors: Seq<ErrorInfoView>) -> Seq<ErrorInfoView> {
    tier(errors, max_weight(errors))
}

/// What the editor is shown of `errors`: the heaviest, the last of them first,
/// each as a diagnostic.
pub open spec fn published(errors: Seq<ErrorInfoView>) -> Seq<DiagnosticView> {
    top_tier(errors).map_values(|e: ErrorInfoView| diagnostic_of(e))
}

/// `max_weight` is an upper bound of the weights, and one that is reached.
pub proof fn lemma_max_weight(errors: Seq<ErrorInfoView>)
    ensures
        forall|i: int| 0 <= i < errors.len() ==> (#[trigger] errors[i]).weight <= max_weight(errors),
        errors.len() > 0 ==> exists|i: int|
            0 <= i < errors.len() && (#[trigger] errors[i]).weight == max_weight(errors),
    decreases errors.len(),
{
    if errors.len() > 0 {
        let before = errors.drop_last();
        lemma_max_weight(before);
        assert forall|i: int| 0 <= i < errors.len() implies (#[trigger] errors[i]).weight
            <= max_weight(errors) by {
            if i < before.len() {
                assert(errors[i] == before[i]);
            }
        }
        if errors.last().weight <= max_weight(before) && before.len() > 0 {
            let i = choose|i: int|
                0 <= i < before.len() && (#[trigger] before[i]).weight == max_weight(before);
            assert(errors[i].weight == max_weight(errors));
        }
    }
}

/// Every member of a tier is one of the errors and weighs what the tier weighs,
/// and an error of that weight makes the tier non-empty.
pub proof fn lemma_tier(errors: Seq<ErrorInfoView>, weight: u32)
    ensures
        tier(errors, weight).len() <= errors.len(),
        forall|j: int|
            0 <= j < tier(errors, weight).len() ==> (#[trigger] tier(errors, weight)[j]).weight
                == weight && errors.contains(tier(errors, weight)[j]),
        forall|i: int|
            0 <= i < errors.len() && (#[trigger] errors[i]).weight == weight ==> tier(
                errors,
                weight,
            ).contains(errors[i]),
    decreases errors.len(),
{
    if errors.len() > 0 {
        let before = errors.drop_last();
        let inner = tier(before, weight);
        let whole = tier(errors, weight);
        lemma_tier(before, weight);
        let shift: int = if errors.last().weight == weight {
            1
        } else {
            0
        };
        assert forall|j: int| 0 <= j < whole.len() implies (#[trigger] whole[j]).weight == weight
            && errors.contains(whole[j]) by {
            if j < shift {
                assert(errors[errors.len() - 1] == whole[j]);
            } else {
                let at = choose|at: int| 0 <= at < before.len() && before[at] == inner[j - shift];
                assert(errors[at] == whole[j]);
            }
        }
        assert forall|i: int| 0 <= i < errors.len() && (#[trigger] errors[i]).weight
            == weight implies whole.contains(errors[i]) by {
            if i == errors.len() - 1 {
                assert(whole[0] == errors[i]);
            } else {
                assert(before[i] == errors[i]);
                let at = choose|at: int| 0 <= at < inner.len() && inner[at] == before[i];
                assert(whole[at + shift] == errors[i]);
            }
        }
    }
}

/// What is shown has one weight, the largest there is; nothing is shown of
/// nothing, and something of anything else.
pub proof fn lemma_published_weights(errors: Seq<ErrorInfoView>)
    ensures
        published(errors).len() == top_tier(errors).len(),
        forall|j: int|
            0 <= j < top_tier(errors).len() ==> (#[trigger] top_tier(errors)[j]).weight
                == max_weight(errors),
        forall|i: int| 0 <= i < errors.len() ==> (#[trigger] errors[i]).weight <= max_weight(errors),
        errors.len() == 0 ==> published(errors).len() == 0,
        errors.len() > 0 ==> published(errors).len() > 0,
{
    lemma_max_weight(errors);
    lemma_tier(errors, max_weight(errors));
    if errors.len() > 0 {
        let i = choose|i: int|
            0 <= i < errors.len() && (#[trigger] errors[i]).weight == max_weight(errors);
        assert(top_tier(errors).contains(errors[i]));
    }
}

/// The largest weight among `err`, `None` where there is none.
pub fn heaviest(err: &[ErrorInfo]) -> (weight: Option<u32>)
    ensures
        weight == if err.len() == 0 {
            None
        } else {
            Some(max_weight(error_views(err@)))
        },
{
    if err.len() == 0 {
        return None;
    }
    let ghost errors = error_views(err@);
    let mut max: u32 = 0;
    let mut i: usize = 0;
    while i < err.len()
        invariant
            i <= err.len(),
            errors == error_views(err@),
            max == max_weight(errors.take(i as int)),
        decreases err.len() - i,
    {
        assert(errors.take(i + 1).drop_last() =~= errors.take(i as int));
        if err[i].weight > max {
            max = err[i].weight;
        }
        i += 1;
    }
    assert(errors.take(i as int) =~= errors);
    Some(max)
}

/// Picks the heaviest of `err`, the last of them first.
pub fn select_top_tier(err: &[ErrorInfo]) -> (top: Vec<ErrorInfo>)
    ensures
        error_views(top@) == top_tier(error_views(err@)),
        forall|j: int|
            0 <= j < top.len() ==> (#[trigger] top[j]).weight == max_weight(error_views(err@)),
        forall|i: int| 0 <= i < err.len() ==> (#[trigger] err[i]).weight <= max_weight(error_views(err@)),
        (top.len() == 0) == (err.len() == 0),
{
    let ghost errors = error_views(err@);
    proof {
        lemma_published_weights(errors);
        assert forall|i: int| 0 <= i < err.len() implies (#[trigger] err[i]).weight <= max_weight(
            errors,
        ) by {
            assert(errors[i] == err[i]@);
        }
    }
    let mut top: Vec<ErrorInfo> = Vec::new();
    if let Some(max) = heaviest(err) {
        let mut i: usize = err.len();
        assert(errors.take(i as int) =~= errors);
        while i > 0
            invariant
                i <= err.len(),
                errors == error_views(err@),
                error_views(top@) + tier(errors.take(i as int), max) == tier(errors, max),
            decreases i,
        {
            i -= 1;
            assert(errors.take(i + 1).drop_last() =~= errors.take(i as int));
            if err[i].weight == max {
                top.push(err[i].clone());
            }
        }
    }
    proof {
        assert forall|j: int| 0 <= j < top.len() implies (#[trigger] top[j]).weight == max_weight(
            errors,
        ) by {
            assert(error_views(top@)[j] == top[j]@);
        }
    }
    top
}

/// Computes what the editor is shown of a document's diagnostics `err`: those
/// of the largest weight, the last of them first, each in the editor's form.
/// Of no diagnostics nothing is shown, which clears what was shown before.
pub fn publish(err: &[ErrorInfo]) -> (shown: Vec<Diagnostic>)
    ensures
        diagnostic_views(shown@) == published(error_views(err@)),
        (shown.len() == 0) == (err.len() == 0),
{
    let top = select_top_tier(err);
    let ghost chosen = error_views(top@);
    let mut shown: Vec<Diagnostic> = Vec::new();
    let mut i: usize = 0;
    while i < top.len()
        invariant
            i <= top.len(),
            chosen == error_views(top@),
            diagnostic_views(shown@) == chosen.take(i as int).map_values(
                |e: ErrorInfoView| diagnostic_of(e),
            ),
        decreases top.len() - i,
    {
        shown.push(top[i].clone().diagnostic());
        assert(chosen.take(i + 1).map_values(|e: ErrorInfoView| diagnostic_of(e))
            =~= chosen.take(i as int).map_values(|e: ErrorInfoView| diagnostic_of(e)).push(
            diagnostic_of(chosen[i as int]),
        ));
        i += 1;
    }
    shown
}

} // verus!
