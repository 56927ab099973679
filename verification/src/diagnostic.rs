//! Diagnostics as the checks produce them and as the editor receives them.

use vstd::prelude::*;

verus! {

/// A place in a text buffer: a line and an offset in that line, both from 0.
#[derive(Clone, Copy, Debug, PartialEq, Eq, Structural, PartialOrd, Ord, Hash)]
pub struct Position {
    pub line: u32,
    pub character: u32,
}

/// A half-open span of a text buffer, from `start` up to `end`.
#[derive(Clone, Copy, Debug, PartialEq, Eq, Structural, Hash)]
pub struct Range {
    pub start: Position,
    pub end: Position,
}

/// How grave a diagnostic is, gravest first.
#[derive(Clone, Copy, Debug, PartialEq, Eq, Structural, PartialOrd, Ord, Hash)]
pub enum Severity {
    Error,
    Warning,
    Information,
    Hint,
}

/// One candidate diagnostic.
///
/// The weight ranks diagnostics that were produced together: a heavier one
/// masks the lighter ones when the set is shown. It says nothing about
/// severity.
#[derive(Debug, PartialEq, Eq)]
pub struct ErrorInfo {
    pub location: Range,
    pub severity: Severity,
    pub weight: u32,
    pub msg: String,
}

/// What an [`ErrorInfo`] is in contracts: its fields, the message as characters.
pub struct ErrorInfoView {
    pub location: Range,
    pub severity: Severity,
    pub weight: u32,
    pub msg: Seq<char>,
}

impl View for ErrorInfo {
    type V = ErrorInfoView;

    open spec fn view(&self) -> ErrorInfoView {
        ErrorInfoView {
            location: self.location,
            severity: self.severity,
            weight: self.weight,
            msg: self.msg@,
        }
    }
}

impl Clone for ErrorInfo {
    fn clone(&self) -> (copy: Self)
        ensures
            copy == *self,
    {
        ErrorInfo {
            location: self.location,
            severity: self.severity,
            weight: self.weight,
            msg: self.msg.clone(),
        }
    }
}

/// The views of `errors`, in order.
pub open spec fn error_views(errors: Seq<ErrorInfo>) -> Seq<ErrorInfoView> {
    errors.map_values(|e: ErrorInfo| e@)
}

/// A diagnostic in the form the editor takes.
#[derive(Debug, PartialEq, Eq)]
pub struct Diagnostic {
    pub range: Range,
    pub severity: Severity,
    pub message: String,
}

/// What a [`Diagnostic`] is in contracts.
pub struct DiagnosticView {
    pub range: Range,
    pub severity: Severity,
    pub message: Seq<char>,
}

impl View for Diagnostic {
    type V = DiagnosticView;

    open spec fn view(&self) -> DiagnosticView {
        DiagnosticView { range: self.range, severity: self.severity, message: self.message@ }
    }
}

/// The views of `diagnostics`, in order.
pub open spec fn diagnostic_views(diagnostics: Seq<Diagnostic>) -> Seq<DiagnosticView> {
    diagnostics.map_values(|d: Diagnostic| d@)
}

/// The diagnostic that stands for `e` before the editor: the weight is dropped.
pub open spec fn diagnostic_of(e: ErrorInfoView) -> DiagnosticView {
    DiagnosticView { range: e.location, severity: e.severity, message: e.msg }
}

impl ErrorInfo {
    /// Turns the candidate into the editor's form.
    pub fn diagnostic(self) -> (d: Diagnostic)
        ensures
            d@ == diagnostic_of(self@),
    {
        Diagnostic { range: self.location, severity: self.severity, message: self.msg }
    }
}

} // verus!
