//! Hash tables of the `hashbrown` crate, as this library uses them.
//!
//! A table is opaque to the verifier. What it holds has a name, one for each
//! use, and the functions of this file are the only ones that reach into a
//! table: each makes one call of `hashbrown::HashMap`, and its contract says
//! over those names what the call does. None of these contracts is proved.

use crate::coordinator::{DiagnosticState, DiagnosticStateView};
use crate::diagnostic::{error_views, ErrorInfo, ErrorInfoView};
use vstd::prelude::*;

verus! {

/// A `hashbrown::HashMap` with the default hasher.
///
/// The map stands in a private field of a struct that the verifier does not
/// look into, since its type cannot be declared to the verifier from here:
/// the struct `hashbrown::HashMap` is bounded by an allocator trait that
/// `hashbrown` does not export.
#[verifier::external_body]
#[verifier::reject_recursive_types(K)]
#[verifier::reject_recursive_types(V)]
pub struct Table<K, V> {
    map: hashbrown::HashMap<K, V>,
}

/// What a table of rows holds: for each row, the node recorded for it.
pub uninterp spec fn row_entries(table: Table<usize, usize>) -> Map<usize, usize>;

/// What a table of batches holds: for each document, its diagnostics.
pub uninterp spec fn batch_entries(table: Table<String, Vec<ErrorInfo>>) -> Map<
    Seq<char>,
    Seq<ErrorInfoView>,
>;

/// What a table of states holds: for each document, its state.
pub uninterp spec fn state_entries(table: Table<String, DiagnosticState>) -> Map<
    Seq<char>,
    DiagnosticStateView,
>;

/// `drained` holds the entries of `entries`, each once, in some order.
pub open spec fn holds_each_once(
    drained: Seq<(String, Vec<ErrorInfo>)>,
    entries: Map<Seq<char>, Seq<ErrorInfoView>>,
) -> bool {
    &&& forall|i: int|
        0 <= i < drained.len() ==> entries.contains_key((#[trigger] drained[i]).0@)
            && entries[drained[i].0@] == error_views(drained[i].1@)
    &&& forall|i: int, j: int|
        0 <= i < j < drained.len() ==> (#[trigger] drained[i]).0@ != (#[trigger] drained[j]).0@
    &&& forall|uri: Seq<char>| #[trigger]
        entries.contains_key(uri) ==> exists|i: int|
            0 <= i < drained.len() && (#[trigger] drained[i]).0@ == uri
}

/// `hashbrown::HashMap::new`: the new table holds nothing.
#[verifier::external_body]
pub(crate) fn rows_new() -> (table: Table<usize, usize>)
    ensures
        row_entries(table) =~= Map::empty(),
{
    Table { map: hashbrown::HashMap::new() }
}

/// `hashbrown::HashMap::insert`: `row` now stands for `node`, the other rows
/// are as before, and what `row` stood for comes back.
#[verifier::external_body]
pub(crate) fn rows_insert(table: &mut Table<usize, usize>, row: usize, node: usize) -> (before:
    Option<usize>)
    ensures
        row_entries(*final(table)) == row_entries(*old(table)).insert(row, node),
        before == if row_entries(*old(table)).contains_key(row) {
            Some(row_entries(*old(table))[row])
        } else {
            None::<usize>
        },
{
    table.map.insert(row, node)
}

/// `hashbrown::HashMap::new`: the new table holds nothing.
#[verifier::external_body]
pub(crate) fn batches_new() -> (table: Table<String, Vec<ErrorInfo>>)
    ensures
        batch_entries(table) =~= Map::empty(),
{
    Table { map: hashbrown::HashMap::new() }
}

/// `hashbrown::HashMap::insert`: `uri` now stands for `errors`, the other
/// documents are as before. What `uri` stood for is dropped.
#[verifier::external_body]
pub(crate) fn batches_insert(
    table: &mut Table<String, Vec<ErrorInfo>>,
    uri: String,
    errors: Vec<ErrorInfo>,
)
    ensures
        batch_entries(*final(table)) == batch_entries(*old(table)).insert(
            uri@,
            error_views(errors@),
        ),
{
    table.map.insert(uri, errors);
}

/// `hashbrown::HashMap::drain`, collected into a vector: the table is left
/// empty, and its entries come back, each once, in an order that is not said.
#[verifier::external_body]
pub(crate) fn batches_drain(table: &mut Table<String, Vec<ErrorInfo>>) -> (drained: Vec<
    (String, Vec<ErrorInfo>),
>)
    ensures
        batch_entries(*final(table)) =~= Map::empty(),
        holds_each_once(drained@, batch_entries(*old(table))),
{
    table.map.drain().collect()
}

/// `hashbrown::HashMap::new`: the new table holds nothing.
#[verifier::external_body]
pub(crate) fn states_new() -> (table: Table<String, DiagnosticState>)
    ensures
        state_entries(table) =~= Map::empty(),
{
    Table { map: hashbrown::HashMap::new() }
}

/// `hashbrown::HashMap::get`: the state that `uri` stands for, if it stands
/// for one.
#[verifier::external_body]
pub(crate) fn states_get<'a>(table: &'a Table<String, DiagnosticState>, uri: &String) -> (state: Option<
    &'a DiagnosticState,
>)
    ensures
        match state {
            Some(s) => state_entries(*table).contains_key(uri@) && s@ == state_entries(
                *table,
            )[uri@],
            None => !state_entries(*table).contains_key(uri@),
        },
{
    table.map.get(uri)
}

/// `hashbrown::HashMap::get_mut`: the state that `uri` stands for, if it
/// stands for one, to be changed in place. The table then holds for `uri`
/// what the caller leaves there, and the other documents are as before.
#[verifier::external_body]
pub(crate) fn states_get_mut<'a>(
    table: &'a mut Table<String, DiagnosticState>,
    uri: &String,
) -> (state: Option<&'a mut DiagnosticState>)
    ensures
        match state {
            Some(s) => state_entries(*old(table)).contains_key(uri@) && s@ == state_entries(
                *old(table),
            )[uri@] && state_entries(*final(table)) == state_entries(*old(table)).insert(
                uri@,
                final(s)@,
            ),
            None => !state_entries(*old(table)).contains_key(uri@) && state_entries(*final(table))
                == state_entries(*old(table)),
        },
{
    table.map.get_mut(uri)
}

/// `hashbrown::HashMap::insert`: `uri` now stands for `state`, the other
/// documents are as before. What `uri` stood for is dropped.
#[verifier::external_body]
pub(crate) fn states_insert(
    table: &mut Table<String, DiagnosticState>,
    uri: String,
    state: DiagnosticState,
)
    ensures
        state_entries(*final(table)) == state_entries(*old(table)).insert(uri@, state@),
{
    table.map.insert(uri, state);
}

} // verus!
