//! Analysis core of a language server for a feature-modelling language.
//!
//! The crate holds the parts of the server that decide something: the
//! structural checks over a syntax tree, the classification of parse errors,
//! the weight filter in front of the editor, the merge of diagnostic batches
//! by revision, and the rules of document ownership. Contracts are stated
//! over the views of the arguments. The hash maps of two other crates are
//! reached through a handful of functions in [`table`] and [`documents`]
//! whose contracts are taken on trust; everything else is verified.

pub mod classify;
pub mod coordinator;
pub mod diagnostic;
pub mod documents;
pub mod publish;
pub mod sanity;
pub mod table;
pub mod text;
pub mod tree;
pub mod walk;

pub use classify::{check_errors, classify_error};
pub use coordinator::{diagnostic_handler, maybe_publish, Coordinator, DiagnosticUpdate};
pub use diagnostic::{Diagnostic, ErrorInfo, Position, Range, Severity};
pub use documents::{DocumentState, Documents};
pub use publish::publish;
pub use sanity::{check_sanity, PatternMatch};
pub use tree::{SyntaxNode, SyntaxTree};
pub use walk::filtered_visit;
