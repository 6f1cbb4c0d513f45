//! Structured diagnostics reported by the tokenizer, parser and abstracter.

use vstd::prelude::*;
use crate::source::Span;

verus! {

/// How serious an issue is. Fatal issues mean the output tree contains a
/// syntax-error node; everything else is advisory.
#[derive(Debug, Clone, Copy, PartialEq, Eq, Structural)]
pub enum Severity {
    Remark,
    Warning,
    Error,
    Fatal,
}

/// What kind of problem an issue reports.
#[derive(Debug, Clone, Copy, PartialEq, Eq, Structural)]
pub enum IssueTag {
    /// The input ended, or an operator appeared, where an operand was
    /// expected.
    ExpectedOperand,
    /// A closing bracket appeared with no matching opener.
    UnexpectedCloser,
    /// A group was still open when its enclosing context ended.
    MissingCloser,
    /// A string ran to the end of the input without a closing quote.
    UnterminatedString,
    /// A comment ran to the end of the input without `*)`.
    UnterminatedComment,
    /// A number had a malformed base, precision or exponent part.
    InvalidNumber,
    /// A character that no lexical rule accepts.
    UnhandledCharacter,
    /// A symbol context mark was not followed by a letterlike character.
    ExpectedLetterlike,
    /// `::` was not followed by a tag.
    ExpectedTag,
    /// `<<`, `>>` or `>>>` was not followed by a file name.
    ExpectedFile,
    /// The input bytes were not safely decodable.
    UnsafeCharacterEncoding,
    /// A comma with no argument before the closer; a fake empty argument is
    /// inserted.
    CommaMissingArgument,
    /// A comma chain at the top level of the input.
    CommaTopLevel,
    /// `/:` was not followed by `=`, `:=` or `=.`.
    ExpectedSet,
    /// `~` was not followed by a matching second `~`.
    ExpectedTilde,
    /// An operator that has no meaning in input form.
    UnsupportedOperator,
    /// The parser's context stack exceeded its maximum depth.
    StackOverflow,
}

/// One diagnostic: what went wrong, how serious it is, where, and with what
/// confidence (a percentage).
#[derive(Debug, Clone, Copy, PartialEq, Eq, Structural)]
pub struct Issue {
    pub tag: IssueTag,
    pub sev: Severity,
    pub span: Span,
    pub confidence: u32,
}

/// A suggested correction attached to an issue: what to do over which span.
#[derive(Debug, Clone, Copy, PartialEq, Eq, Structural)]
pub enum CodeAction {
    /// Delete the spanned text.
    DeleteText { span: Span },
    /// Insert a closing bracket at the span.
    InsertCloser { span: Span },
}

impl Issue {
    /// Whether this issue makes the output tree unusable.
    pub open spec fn spec_is_fatal(self) -> bool {
        self.sev is Fatal
    }

    /// Whether this issue makes the output tree unusable.
    pub fn is_fatal(&self) -> (r: bool)
        ensures
            r == self.spec_is_fatal(),
    {
        matches!(self.sev, Severity::Fatal)
    }
}

} // verus!
