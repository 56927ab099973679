//! Who owns a document: the editor that has it open, or the disk it was
//! loaded from. The rules here keep a load from disk from overwriting what
//! the editor holds, and an older file from overwriting a newer one.

use crate::text::{contains_bytes, occurs_at};
use vstd::prelude::*;
use vstd::string::StringSliceAdditionalSpecFns;

verus! {

/// The owner of a document.
#[derive(Clone, Copy, Debug, PartialEq, Eq, Structural)]
pub enum DocumentState {
    /// The editor has the document open and holds its text.
    OwnedByEditor,
    /// The document was loaded from disk; the number is the file's time of
    /// last modification, in nanoseconds since 1970.
    OwnedByOs(u64),
}

impl DocumentState {
    /// A document in this state gives way to one in state `new`: the editor
    /// overwrites anything, the disk overwrites only what came from disk
    /// and is strictly older.
    pub open spec fn accepts(self, new: DocumentState) -> bool {
        match (self, new) {
            (DocumentState::OwnedByOs(kept), DocumentState::OwnedByOs(found)) => kept < found,
            (_, DocumentState::OwnedByEditor) => true,
            (DocumentState::OwnedByEditor, DocumentState::OwnedByOs(_)) => false,
        }
    }

    /// Computes [`Self::accepts`].
    pub fn can_update(&self, new: &DocumentState) -> (yes: bool)
        ensures
            yes == self.accepts(*new),
    {
        match (self, new) {
            (DocumentState::OwnedByOs(kept), DocumentState::OwnedByOs(found)) => *kept < *found,
            (_, DocumentState::OwnedByEditor) => true,
            (DocumentState::OwnedByEditor, DocumentState::OwnedByOs(_)) => false,
        }
    }

    /// A document in this state came from a file that was last modified at
    /// `modified` or later.
    pub open spec fn came_no_earlier_than(self, modified: u64) -> bool {
        self matches DocumentState::OwnedByOs(kept) && modified <= kept
    }

    /// A document in this state may be removed: by the editor always, by
    /// anyone else unless the editor owns it.
    pub open spec fn permits_removal(self, by_editor: bool) -> bool {
        by_editor || self != DocumentState::OwnedByEditor
    }

    /// Computes [`Self::permits_removal`].
    pub fn can_remove(&self, by_editor: bool) -> (yes: bool)
        ensures
            yes == self.permits_removal(by_editor),
    {
        by_editor || !matches!(self, DocumentState::OwnedByEditor)
    }
}

/// A document in memory.
#[derive(Debug, PartialEq, Eq)]
pub struct Document {
    pub state: DocumentState,
    pub text: String,
}

/// What a [`Document`] is in contracts.
pub struct DocumentView {
    pub state: DocumentState,
    pub text: Seq<char>,
}

impl View for Document {
    type V = DocumentView;

    open spec fn view(&self) -> DocumentView {
        DocumentView { state: self.state, text: self.text@ }
    }
}

/// The `DashMap` of the `dashmap` crate. The verifier sees nothing inside it.
#[verifier::external_type_specification]
#[verifier::external_body]
#[verifier::reject_recursive_types(K)]
#[verifier::reject_recursive_types(V)]
#[verifier::reject_recursive_types(S)]
pub struct ExDashMap<K, V, S>(dashmap::DashMap<K, V, S>);

/// What a map of documents holds: for each URI, the document kept for it.
///
/// A `DashMap` can be changed through a shared reference. The maps of this
/// library are each owned by one [`Documents`] and changed only through an
/// exclusive reference to it, so what one holds changes only where a
/// contract says so.
pub uninterp spec fn documents_in(map: dashmap::DashMap<String, Document>) -> Map<
    Seq<char>,
    DocumentView,
>;

/// `dashmap::DashMap::new`: the new map holds nothing.
#[verifier::external_body]
fn documents_new() -> (map: dashmap::DashMap<String, Document>)
    ensures
        documents_in(map) =~= Map::empty(),
{
    dashmap::DashMap::new()
}

/// `dashmap::DashMap::get`, and the state of what it found: the state of the document
/// kept for `uri`, if one is kept.
#[verifier::external_body]
fn documents_state(map: &dashmap::DashMap<String, Document>, uri: &str) -> (state: Option<
    DocumentState,
>)
    ensures
        state == if documents_in(*map).contains_key(uri@) {
            Some(documents_in(*map)[uri@].state)
        } else {
            None::<DocumentState>
        },
{
    map.get(uri).map(|document| document.state)
}

/// `dashmap::DashMap::get`, and a copy of the text of what it found: the text of the
/// document kept for `uri`, if one is kept.
#[verifier::external_body]
fn documents_text(map: &dashmap::DashMap<String, Document>, uri: &str) -> (text: Option<String>)
    ensures
        match text {
            Some(t) => documents_in(*map).contains_key(uri@) && t@ == documents_in(*map)[uri@].text,
            None => !documents_in(*map).contains_key(uri@),
        },
{
    map.get(uri).map(|document| document.text.clone())
}

/// `dashmap::DashMap::insert`: `document` is now kept for `uri`, the other documents
/// are as before. What was kept for `uri` is dropped.
#[verifier::external_body]
fn documents_insert(map: &mut dashmap::DashMap<String, Document>, uri: String, document: Document)
    ensures
        documents_in(*final(map)) == documents_in(*old(map)).insert(uri@, document@),
{
    map.insert(uri, document);
}

/// `dashmap::DashMap::remove_if` with [`DocumentState::can_remove`] as the condition:
/// the document kept for `uri` leaves the map and comes back if one is kept
/// and its state permits the removal; else the map stays as it is.
#[verifier::external_body]
fn documents_remove_if(
    map: &mut dashmap::DashMap<String, Document>,
    uri: &str,
    by_editor: bool,
) -> (removed: Option<Document>)
    ensures
        match removed {
            Some(document) => documents_in(*old(map)).contains_key(uri@) && document@
                == documents_in(*old(map))[uri@] && document.state.permits_removal(by_editor)
                && documents_in(*final(map)) == documents_in(*old(map)).remove(uri@),
            None => (!documents_in(*old(map)).contains_key(uri@) || !documents_in(
                *old(map),
            )[uri@].state.permits_removal(by_editor)) && documents_in(*final(map)) == documents_in(
                *old(map),
            ),
        },
{
    map.remove_if(uri, |_, document| document.state.can_remove(by_editor)).map(
        |(_, document)| document,
    )
}

/// The document kept for `uri` in `documents`, if one is kept.
pub open spec fn kept(documents: Map<Seq<char>, DocumentView>, uri: Seq<char>) -> Option<
    DocumentView,
> {
    if documents.contains_key(uri) {
        Some(documents[uri])
    } else {
        None
    }
}

/// A file of `uri` that was last modified at `modified` may be loaded into
/// `documents`: no document is kept for `uri`, or the one kept came from disk
/// and is strictly older.
pub open spec fn admits_load(
    documents: Map<Seq<char>, DocumentView>,
    uri: Seq<char>,
    modified: u64,
) -> bool {
    match kept(documents, uri) {
        Some(document) => document.state.accepts(DocumentState::OwnedByOs(modified)),
        None => true,
    }
}

/// The documents in memory, by URI.
pub struct Documents {
    map: dashmap::DashMap<String, Document>,
}

impl View for Documents {
    type V = Map<Seq<char>, DocumentView>;

    closed spec fn view(&self) -> Map<Seq<char>, DocumentView> {
        documents_in(self.map)
    }
}

impl Documents {
    /// No documents.
    pub fn new() -> (documents: Documents)
        ensures
            documents@ == Map::<Seq<char>, DocumentView>::empty(),
    {
        Documents { map: documents_new() }
    }

    /// The owner of the document kept for `uri`, if one is kept.
    pub fn state(&self, uri: &str) -> (state: Option<DocumentState>)
        ensures
            state == match kept(self@, uri@) {
                Some(document) => Some(document.state),
                None => None,
            },
    {
        documents_state(&self.map, uri)
    }

    /// A copy of the text of the document kept for `uri`, if one is kept.
    pub fn text(&self, uri: &str) -> (text: Option<String>)
        ensures
            match text {
                Some(t) => kept(self@, uri@) matches Some(document) && t@ == document.text,
                None => kept(self@, uri@) is None,
            },
    {
        documents_text(&self.map, uri)
    }

    /// Says whether it is worth reading the file of `uri` at all: it is not
    /// while the editor owns the document.
    pub fn wants_load(&self, uri: &str) -> (yes: bool)
        ensures
            yes == !(kept(self@, uri@) matches Some(document) && document.state
                == DocumentState::OwnedByEditor),
    {
        match documents_state(&self.map, uri) {
            Some(DocumentState::OwnedByEditor) => false,
            _ => true,
        }
    }

    /// Says whether a file of `uri` that was last modified at `modified`
    /// would be taken by [`Self::load`], so that a file that would not need
    /// not be read.
    pub fn accepts_load(&self, uri: &str, modified: u64) -> (yes: bool)
        ensures
            yes == admits_load(self@, uri@, modified),
    {
        match documents_state(&self.map, uri) {
            Some(state) => state.can_update(&DocumentState::OwnedByOs(modified)),
            None => true,
        }
    }

    /// Takes the text `data` of the file of `uri`, last modified at
    /// `modified`, if the document kept for `uri` gives way to it, and says
    /// whether it did.
    ///
    /// A document that the editor owns is never overwritten, nor one from
    /// disk that is as new as the file or newer.
    pub fn load(&mut self, uri: String, modified: u64, data: String) -> (loaded: bool)
        ensures
            loaded == admits_load(old(self)@, uri@, modified),
            final(self)@ == if loaded {
                old(self)@.insert(
                    uri@,
                    DocumentView { state: DocumentState::OwnedByOs(modified), text: data@ },
                )
            } else {
                old(self)@
            },
            kept(old(self)@, uri@) matches Some(document) && document.state
                == DocumentState::OwnedByEditor ==> !loaded && final(self)@ == old(self)@,
            kept(old(self)@, uri@) matches Some(document) && document.state.came_no_earlier_than(
                modified,
            ) ==> !loaded && final(self)@ == old(self)@,
    {
        if self.accepts_load(uri.as_str(), modified) {
            documents_insert(
                &mut self.map,
                uri,
                Document { state: DocumentState::OwnedByOs(modified), text: data },
            );
            true
        } else {
            false
        }
    }

    /// Takes the text that the editor holds of `uri`. The editor then owns
    /// the document, whatever was kept for it.
    pub fn open(&mut self, uri: String, text: String)
        ensures
            final(self)@ == old(self)@.insert(
                uri@,
                DocumentView { state: DocumentState::OwnedByEditor, text: text@ },
            ),
    {
        documents_insert(
            &mut self.map,
            uri,
            Document { state: DocumentState::OwnedByEditor, text },
        );
    }

    /// Removes the document kept for `uri`, if one is kept and may be
    /// removed, and says whether it did.
    ///
    /// The editor removes any document. Anyone else removes a document only
    /// if the editor does not own it.
    pub fn remove(&mut self, uri: &str, by_editor: bool) -> (removed: bool)
        ensures
            removed == (kept(old(self)@, uri@) matches Some(document)
                && document.state.permits_removal(by_editor)),
            final(self)@ == if removed {
                old(self)@.remove(uri@)
            } else {
                old(self)@
            },
            by_editor ==> !final(self)@.contains_key(uri@),
            !by_editor && (kept(old(self)@, uri@) matches Some(document) && document.state
                == DocumentState::OwnedByEditor) ==> !removed && final(self)@ == old(self)@,
    {
        documents_remove_if(&mut self.map, uri, by_editor).is_some()
    }
}

/// What the editor or the file watcher reports of a document.
#[derive(Clone, Copy, Debug, PartialEq, Eq, Structural)]
pub enum DocumentEvent {
    /// The editor closed the document.
    Closed,
    /// A file appeared on disk.
    Created,
    /// A file changed on disk.
    Changed,
    /// A file left the disk.
    Deleted,
}

/// What is to be done on an event: first a removal, if any, then a load, if any.
#[derive(Clone, Copy, Debug, PartialEq, Eq, Structural)]
pub struct Reaction {
    /// The removal to attempt, by whom: `Some(true)` by the editor.
    pub remove: Option<bool>,
    /// Whether to attempt a load from disk afterwards.
    pub load: bool,
}

/// The reaction to `event`.
///
/// A document that the editor closes is removed by the editor and loaded
/// again from disk, so that a file which still exists stays known. A file
/// that appears or changes is loaded. A file that leaves the disk is removed,
/// not by the editor.
pub open spec fn reaction_to(event: DocumentEvent) -> Reaction {
    match event {
        DocumentEvent::Closed => Reaction { remove: Some(true), load: true },
        DocumentEvent::Created => Reaction { remove: None, load: true },
        DocumentEvent::Changed => Reaction { remove: None, load: true },
        DocumentEvent::Deleted => Reaction { remove: Some(false), load: false },
    }
}

/// Computes [`reaction_to`].
pub fn react(event: DocumentEvent) -> (reaction: Reaction)
    ensures
        reaction == reaction_to(event),
{
    match event {
        DocumentEvent::Closed => Reaction { remove: Some(true), load: true },
        DocumentEvent::Created => Reaction { remove: None, load: true },
        DocumentEvent::Changed => Reaction { remove: None, load: true },
        DocumentEvent::Deleted => Reaction { remove: Some(false), load: false },
    }
}

/// A file of the name `file_name` is a source file: the name ends in `.uvl`
/// and has something before that.
pub open spec fn is_source_name(file_name: Seq<u8>) -> bool {
    file_name.len() > ".uvl".spec_bytes().len() && occurs_at(
        ".uvl".spec_bytes(),
        file_name,
        file_name.len() - ".uvl".spec_bytes().len(),
    )
}

/// Tests whether a file of the name `file_name`, without its directory, is a
/// source file.
pub fn is_source_file(file_name: &str) -> (yes: bool)
    ensures
        yes == is_source_name(file_name.spec_bytes()),
{
    let name = file_name.as_bytes();
    let suffix = ".uvl".as_bytes();
    if name.len() <= suffix.len() {
        return false;
    }
    let at = name.len() - suffix.len();
    let tail = vstd::slice::slice_subrange(name, at, name.len());
    let found = contains_bytes(tail, suffix);
    proof {
        if found {
            let k = choose|k: int| occurs_at(suffix@, tail@, k);
            assert(tail@.subrange(0, suffix@.len() as int) =~= name@.subrange(
                at as int,
                at + suffix@.len(),
            ));
        } else {
            if occurs_at(suffix@, name@, at as int) {
                assert(tail@.subrange(0, suffix@.len() as int) =~= name@.subrange(
                    at as int,
                    at + suffix@.len(),
                ));
                assert(occurs_at(suffix@, tail@, 0));
            }
        }
    }
    found
}

} // verus!
