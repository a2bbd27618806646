//! What a rule reports.
use vstd::prelude::*;

use crate::ast::Span;

verus! {

#[derive(Debug, Clone, Copy, PartialEq, Eq, Structural)]
pub enum FixKind {
    /// A change that keeps the behaviour of the program.
    Fix,
    /// A change that the author has to confirm.
    Suggestion,
}

/// A replacement for the text of a span.
#[derive(Debug)]
pub struct Fix {
    pub kind: FixKind,
    pub span: Span,
    pub replacement: String,
    /// What the change does, if it needs saying.
    pub message: Option<String>,
}

#[derive(Debug)]
pub struct Diagnostic {
    pub message: String,
    pub help: String,
    /// The place that the diagnostic points at.
    pub span: Span,
    pub fix: Option<Fix>,
}

/// The contents of a [`Fix`].
pub struct FixView {
    pub kind: FixKind,
    pub span: Span,
    pub replacement: Seq<char>,
    pub message: Option<Seq<char>>,
}

/// The contents of a [`Diagnostic`].
pub struct DiagnosticView {
    pub message: Seq<char>,
    pub help: Seq<char>,
    pub span: Span,
    pub fix: Option<FixView>,
}

impl View for Fix {
    type V = FixView;

    open spec fn view(&self) -> FixView {
        FixView {
            kind: self.kind,
            span: self.span,
            replacement: self.replacement@,
            message: match self.message {
                Some(message) => Some(message@),
                None => None,
            },
        }
    }
}

impl View for Diagnostic {
    type V = DiagnosticView;

    open spec fn view(&self) -> DiagnosticView {
        DiagnosticView {
            message: self.message@,
            help: self.help@,
            span: self.span,
            fix: match self.fix {
                Some(fix) => Some(fix@),
                None => None,
            },
        }
    }
}

/// Whether a rule reports what it should: `expected`, or nothing.
pub open spec fn reports(reported: Option<Diagnostic>, expected: Option<DiagnosticView>) -> bool {
    match (reported, expected) {
        (Some(reported), Some(expected)) => reported@ == expected,
        (None, None) => true,
        _ => false,
    }
}

} // verus!
