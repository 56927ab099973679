//! Merging the diagnostics that the check phases send, document by document,
//! so that what is shown never falls back to an older revision.

use crate::diagnostic::{
    diagnostic_views, error_views, Diagnostic, DiagnosticView, ErrorInfo, ErrorInfoView,
};
use crate::publish::{publish, published};
use crate::table::{
    batch_entries, batches_drain, batches_insert, batches_new, holds_each_once, state_entries,
    states_get, states_get_mut, states_insert, states_new, Table,
};
use vstd::prelude::*;

verus! {

/// What the coordinator keeps of a document: the revision of the last batch
/// that it took, and the diagnostics gathered for that revision.
#[derive(Debug)]
pub struct DiagnosticState {
    pub timestamp: u64,
    pub error: Vec<ErrorInfo>,
}

/// What a [`DiagnosticState`] is in contracts.
pub struct DiagnosticStateView {
    pub timestamp: u64,
    pub error: Seq<ErrorInfoView>,
}

impl View for DiagnosticState {
    type V = DiagnosticStateView;

    open spec fn view(&self) -> DiagnosticStateView {
        DiagnosticStateView { timestamp: self.timestamp, error: error_views(self.error@) }
    }
}

/// The state kept for `uri` in `states`, if one is kept.
pub open spec fn lookup(states: Map<Seq<char>, DiagnosticStateView>, uri: Seq<char>) -> Option<
    DiagnosticStateView,
> {
    if states.contains_key(uri) {
        Some(states[uri])
    } else {
        None
    }
}

/// A batch of revision `timestamp` comes too late for a document in state `stored`.
pub open spec fn is_stale(stored: Option<DiagnosticStateView>, timestamp: u64) -> bool {
    stored matches Some(old) && timestamp < old.timestamp
}

/// The state of a document after a batch `errors` of revision `timestamp`:
/// a newer batch, or the first one, takes the place of what was kept; one of
/// the kept revision is added behind it; an older one changes nothing.
pub open spec fn merged(
    stored: Option<DiagnosticStateView>,
    errors: Seq<ErrorInfoView>,
    timestamp: u64,
) -> DiagnosticStateView {
    match stored {
        None => DiagnosticStateView { timestamp, error: errors },
        Some(old) => if old.timestamp < timestamp {
            DiagnosticStateView { timestamp, error: errors }
        } else if old.timestamp == timestamp {
            DiagnosticStateView { timestamp, error: old.error + errors }
        } else {
            old
        },
    }
}

/// A merge never takes a document back to an older revision: the revision
/// kept afterwards is the newer of the batch's and the one kept before, and a
/// batch that comes too late leaves the state as it was. Two batches of one
/// revision add up, in the order in which they came.
pub proof fn lemma_merge_keeps_order(
    stored: Option<DiagnosticStateView>,
    first: Seq<ErrorInfoView>,
    second: Seq<ErrorInfoView>,
    timestamp: u64,
)
    ensures
        merged(stored, first, timestamp).timestamp >= timestamp,
        stored matches Some(old) ==> merged(stored, first, timestamp).timestamp >= old.timestamp,
        merged(stored, first, timestamp).timestamp == timestamp || stored == Some(
            merged(stored, first, timestamp),
        ),
        is_stale(stored, timestamp) ==> stored == Some(merged(stored, first, timestamp)),
        !is_stale(stored, timestamp) ==> merged(
            Some(merged(stored, first, timestamp)),
            second,
            timestamp,
        ) == (DiagnosticStateView {
            timestamp,
            error: merged(stored, first, timestamp).error + second,
        }),
{
}

/// The states of all documents, kept by the one task that merges batches.
pub struct Coordinator {
    source_map: Table<String, DiagnosticState>,
}

impl View for Coordinator {
    type V = Map<Seq<char>, DiagnosticStateView>;

    closed spec fn view(&self) -> Map<Seq<char>, DiagnosticStateView> {
        state_entries(self.source_map)
    }
}

impl Coordinator {
    /// A coordinator that has seen no batch.
    pub fn new() -> (coordinator: Coordinator)
        ensures
            coordinator@ == Map::<Seq<char>, DiagnosticStateView>::empty(),
    {
        Coordinator { source_map: states_new() }
    }

    /// The revision kept for `uri`, if the document is known.
    pub fn timestamp(&self, uri: &String) -> (timestamp: Option<u64>)
        ensures
            timestamp == match lookup(self@, uri@) {
                Some(state) => Some(state.timestamp),
                None => None,
            },
    {
        match states_get(&self.source_map, uri) {
            Some(state) => Some(state.timestamp),
            None => None,
        }
    }

    /// A copy of the diagnostics kept for `uri`, if the document is known.
    pub fn errors(&self, uri: &String) -> (errors: Option<Vec<ErrorInfo>>)
        ensures
            match errors {
                Some(e) => lookup(self@, uri@) matches Some(state) && error_views(e@)
                    == state.error,
                None => lookup(self@, uri@) is None,
            },
    {
        match states_get(&self.source_map, uri) {
            Some(state) => {
                let mut copy: Vec<ErrorInfo> = Vec::new();
                let mut i: usize = 0;
                while i < state.error.len()
                    invariant
                        i <= state.error.len(),
                        copy@ == state.error@.take(i as int),
                    decreases state.error.len() - i,
                {
                    copy.push(state.error[i].clone());
                    assert(copy@ =~= state.error@.take(i + 1));
                    i += 1;
                }
                assert(copy@ =~= state.error@);
                Some(copy)
            },
            None => None,
        }
    }
}

/// Takes one document's batch `err` of revision `timestamp` into the kept
/// state and says what is to be shown for the document.
///
/// A batch older than the kept revision is dropped: the state stays and
/// nothing is shown (`None`). Any other batch is merged as [`merged`] says, and
/// what is shown is the filtered whole of what is then kept.
pub fn maybe_publish(
    coordinator: &mut Coordinator,
    uri: String,
    err: Vec<ErrorInfo>,
    timestamp: u64,
) -> (shown: Option<Vec<Diagnostic>>)
    ensures
        final(coordinator)@ == old(coordinator)@.insert(
            uri@,
            merged(lookup(old(coordinator)@, uri@), error_views(err@), timestamp),
        ),
        match shown {
            Some(diagnostics) => !is_stale(lookup(old(coordinator)@, uri@), timestamp)
                && diagnostic_views(diagnostics@) == published(
                merged(lookup(old(coordinator)@, uri@), error_views(err@), timestamp).error,
            ),
            None => is_stale(lookup(old(coordinator)@, uri@), timestamp),
        },
{
    let mut err = err;
    let ghost batch = error_views(err@);
    let ghost before = coordinator@;
    match states_get_mut(&mut coordinator.source_map, &uri) {
        Some(old) => {
            if old.timestamp < timestamp {
                let shown = publish(err.as_slice());
                old.timestamp = timestamp;
                old.error = err;
                Some(shown)
            } else if old.timestamp == timestamp {
                let ghost kept = error_views(old.error@);
                old.error.append(&mut err);
                assert(error_views(old.error@) =~= kept + batch);
                Some(publish(old.error.as_slice()))
            } else {
                assert(before.insert(uri@, before[uri@]) =~= before);
                None
            }
        },
        None => {
            let shown = publish(err.as_slice());
            states_insert(
                &mut coordinator.source_map,
                uri,
                DiagnosticState { timestamp, error: err },
            );
            Some(shown)
        },
    }
}

/// One batch of a check phase: diagnostics for some documents, all found
/// in trees of the revision `timestamp`.
pub struct DiagnosticUpdate {
    pub error_state: Table<String, Vec<ErrorInfo>>,
    pub timestamp: u64,
}

/// What a [`DiagnosticUpdate`] is in contracts.
pub struct DiagnosticUpdateView {
    pub error_state: Map<Seq<char>, Seq<ErrorInfoView>>,
    pub timestamp: u64,
}

impl View for DiagnosticUpdate {
    type V = DiagnosticUpdateView;

    open spec fn view(&self) -> DiagnosticUpdateView {
        DiagnosticUpdateView {
            error_state: batch_entries(self.error_state),
            timestamp: self.timestamp,
        }
    }
}

impl DiagnosticUpdate {
    /// A batch of revision `timestamp` that speaks of no document yet.
    pub fn new(timestamp: u64) -> (update: DiagnosticUpdate)
        ensures
            update@.timestamp == timestamp,
            update@.error_state == Map::<Seq<char>, Seq<ErrorInfoView>>::empty(),
    {
        DiagnosticUpdate { error_state: batches_new(), timestamp }
    }

    /// Sets the diagnostics of `uri` in this batch to `errors`.
    pub fn insert(&mut self, uri: String, errors: Vec<ErrorInfo>)
        ensures
            final(self)@.timestamp == old(self)@.timestamp,
            final(self)@.error_state == old(self)@.error_state.insert(uri@, error_views(errors@)),
    {
        batches_insert(&mut self.error_state, uri, errors);
    }
}

/// What is to be sent to the editor for one document.
#[derive(Debug, PartialEq, Eq)]
pub struct Publication {
    pub uri: String,
    pub diagnostics: Vec<Diagnostic>,
}

/// The states after `update`: each document that the batch speaks of is
/// merged by [`merged`], the others stay as they are.
pub open spec fn handled(
    states: Map<Seq<char>, DiagnosticStateView>,
    update: DiagnosticUpdateView,
) -> Map<Seq<char>, DiagnosticStateView> {
    Map::new(
        |uri: Seq<char>| states.contains_key(uri) || update.error_state.contains_key(uri),
        |uri: Seq<char>|
            if update.error_state.contains_key(uri) {
                merged(lookup(states, uri), update.error_state[uri], update.timestamp)
            } else {
                states[uri]
            },
    )
}

/// What is shown for `uri` when `update` meets `states`.
pub open spec fn shown_for(
    states: Map<Seq<char>, DiagnosticStateView>,
    update: DiagnosticUpdateView,
    uri: Seq<char>,
) -> Seq<DiagnosticView> {
    published(merged(lookup(states, uri), update.error_state[uri], update.timestamp).error)
}

/// `update` has something shown for `uri`: it speaks of the document and
/// does not come too late for it.
pub open spec fn is_shown(
    states: Map<Seq<char>, DiagnosticStateView>,
    update: DiagnosticUpdateView,
    uri: Seq<char>,
) -> bool {
    update.error_state.contains_key(uri) && !is_stale(lookup(states, uri), update.timestamp)
}

/// `shown` is what `update` has shown when it meets `states`: one
/// publication for each document that it has something shown for, in some
/// order, and no other.
pub open spec fn announces(
    shown: Seq<Publication>,
    states: Map<Seq<char>, DiagnosticStateView>,
    update: DiagnosticUpdateView,
) -> bool {
    &&& forall|p: int|
        0 <= p < shown.len() ==> is_shown(states, update, (#[trigger] shown[p]).uri@)
            && diagnostic_views(shown[p].diagnostics@) == shown_for(states, update, shown[p].uri@)
    &&& forall|p: int, q: int|
        0 <= p < q < shown.len() ==> (#[trigger] shown[p]).uri@ != (#[trigger] shown[q]).uri@
    &&& forall|uri: Seq<char>| #[trigger]
        is_shown(states, update, uri) ==> exists|p: int|
            0 <= p < shown.len() && (#[trigger] shown[p]).uri@ == uri
}

/// The documents of the batches `all[from..]`.
spec fn taken(all: Seq<(String, Vec<ErrorInfo>)>, from: int) -> Set<Seq<char>> {
    Set::new(|uri: Seq<char>| exists|i: int| from <= i < all.len() && (#[trigger] all[i]).0@ == uri)
}

/// Takes one update into the kept states and says what is to be shown to the
/// editor, document by document.
///
/// Each document of the update is handled as [`maybe_publish`] handles it, in
/// an order that is not said; documents do not depend on one another, so the
/// states that result are the same in any order.
pub fn diagnostic_handler(coordinator: &mut Coordinator, update: DiagnosticUpdate) -> (shown: Vec<
    Publication,
>)
    ensures
        final(coordinator)@ == handled(old(coordinator)@, update@),
        announces(shown@, old(coordinator)@, update@),
{
    let ghost states = coordinator@;
    let ghost whole = update@;
    let timestamp = update.timestamp;
    let mut update = update;
    let mut batches = batches_drain(&mut update.error_state);
    let ghost all = batches@;
    let mut shown: Vec<Publication> = Vec::new();
    assert(coordinator@ =~= handled(
        states,
        DiagnosticUpdateView {
            error_state: whole.error_state.restrict(taken(all, all.len() as int)),
            timestamp,
        },
    ));
    while batches.len() > 0
        invariant
            batches.len() <= all.len(),
            batches@ == all.take(batches.len() as int),
            holds_each_once(all, whole.error_state),
            whole.timestamp == timestamp,
            coordinator@ == handled(
                states,
                DiagnosticUpdateView {
                    error_state: whole.error_state.restrict(taken(all, batches.len() as int)),
                    timestamp,
                },
            ),
            forall|p: int|
                0 <= p < shown.len() ==> taken(all, batches.len() as int).contains(
                    (#[trigger] shown[p]).uri@,
                ) && is_shown(states, whole, shown[p].uri@) && diagnostic_views(
                    shown[p].diagnostics@,
                ) == shown_for(states, whole, shown[p].uri@),
            forall|p: int, q: int|
                0 <= p < q < shown.len() ==> (#[trigger] shown[p]).uri@ != (#[trigger] shown[q]).uri@,
            forall|i: int|
                batches.len() <= i < all.len() && is_shown(states, whole, (#[trigger] all[i]).0@)
                    ==> exists|p: int| 0 <= p < shown.len() && (#[trigger] shown[p]).uri@ == all[i].0@,
        decreases batches.len(),
    {
        let ghost at = batches.len() - 1;
        let ghost done = taken(all, batches.len() as int);
        let ghost earlier = shown@;
        let ghost kept = coordinator@;
        let (uri, err) = batches.pop().unwrap();
        assert(uri == all[at].0 && err == all[at].1);
        assert(batches@ =~= all.take(at));
        assert(!done.contains(uri@));
        assert(lookup(kept, uri@) == lookup(states, uri@));
        assert(taken(all, at) =~= done.insert(uri@));
        let name = uri.clone();
        match maybe_publish(coordinator, uri, err, timestamp) {
            Some(diagnostics) => {
                shown.push(Publication { uri: name, diagnostics });
                assert(forall|p: int| 0 <= p < earlier.len() ==> shown[p] == earlier[p]);
                assert(shown[earlier.len() as int].uri@ == all[at].0@);
            },
            None => {},
        }
        assert(coordinator@ =~= handled(
            states,
            DiagnosticUpdateView {
                error_state: whole.error_state.restrict(taken(all, at)),
                timestamp,
            },
        ));
    }
    assert(whole.error_state.restrict(taken(all, 0)) =~= whole.error_state);
    assert forall|uri: Seq<char>| #[trigger] is_shown(states, whole, uri) implies exists|p: int|
        0 <= p < shown.len() && (#[trigger] shown[p]).uri@ == uri by {
        let i = choose|i: int| 0 <= i < all.len() && (#[trigger] all[i]).0@ == uri;
    }
    shown
}

} // verus!
