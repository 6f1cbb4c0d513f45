//! Error types shared by the tokenizer, parser and decoders, together with
//! checked numeric conversions and a counter pair for instrumentation.

use vstd::prelude::*;
use crate::source::Span;

verus! {

/// An error from the byte decoders or the paclet preprocessor.
#[derive(Debug)]
pub enum EncodingError {
    /// The input was not valid UTF-8 at the given byte position.
    InvalidUtf8 { position: usize },
    /// A container encoding this library does not support.
    UnsupportedEncoding { encoding: String },
    /// A container that could not be decoded; the field says why.
    DecodeError { details: String },
}

/// An error from the tokenizer.
#[derive(Debug)]
pub enum TokenizerError {
    InvalidCharacter { position: Span, ch: char },
    UnterminatedString { start: Span },
    InvalidNumber { span: Span, reason: String },
    InvalidEscape { position: Span },
}

/// An error from the parser core.
#[derive(Debug)]
pub enum ParserError {
    UnexpectedToken { expected: String, found: String },
    MissingCloser { opener: Span },
    EmptyContextStack,
    InvalidState { description: String },
    StackOverflow,
}

/// An internal invariant failure surfaced as a value instead of a panic.
#[derive(Debug)]
pub enum InternalError {
    /// A numeric conversion did not fit; the field names the conversion.
    NumericOverflow { context: String },
    InvalidState { description: String },
    IndexOutOfBounds { index: usize, len: usize },
}

/// The top-level error type: one variant per subsystem.
#[derive(Debug)]
pub enum ParseError {
    Tokenizer(TokenizerError),
    Parser(ParserError),
    Encoding(EncodingError),
    Internal(InternalError),
    Io(std::io::Error),
}

/// Converts a `usize` to a `u32`, reporting overflow as a value.
pub fn safe_usize_to_u32(value: usize) -> (r: Result<u32, InternalError>)
    ensures
        value <= u32::MAX ==> r == Ok::<u32, InternalError>(value as u32),
        value > u32::MAX ==> ({
            &&& r matches Err(e)
            &&& e is NumericOverflow
        }),
{
    if value <= u32::MAX as usize {
        Ok(value as u32)
    } else {
        Err(InternalError::NumericOverflow { context: "usize_to_u32".to_owned() })
    }
}

/// Converts a `u32` to a `usize`; this always fits on the platforms the
/// library supports.
pub fn safe_u32_to_usize(value: u32) -> (r: Result<usize, InternalError>)
    ensures
        r == Ok::<usize, InternalError>(value as usize),
{
    Ok(value as usize)
}

/// A pair of counters: how often an error check ran, and how often one found
/// an error. Both saturate instead of wrapping.
#[derive(Debug, Clone, Copy, PartialEq, Eq, Structural)]
pub struct PerfStats {
    pub checks: usize,
    pub errors: usize,
}

impl PerfStats {
    /// Fresh counters, both zero.
    pub fn new() -> (r: PerfStats)
        ensures
            r.checks == 0,
            r.errors == 0,
    {
        PerfStats { checks: 0, errors: 0 }
    }
}

/// Records that an error check ran.
pub fn increment_check(stats: &mut PerfStats)
    ensures
        final(stats).checks == if old(stats).checks < usize::MAX {
            old(stats).checks + 1
        } else {
            usize::MAX as int
        },
        final(stats).errors == old(stats).errors,
{
    if stats.checks < usize::MAX {
        stats.checks = stats.checks + 1;
    }
}

/// Records that a check found an error.
pub fn increment_error(stats: &mut PerfStats)
    ensures
        final(stats).errors == if old(stats).errors < usize::MAX {
            old(stats).errors + 1
        } else {
            usize::MAX as int
        },
        final(stats).checks == old(stats).checks,
{
    if stats.errors < usize::MAX {
        stats.errors = stats.errors + 1;
    }
}

/// Reads both counters: checks first, errors second.
pub fn get_stats(stats: &PerfStats) -> (r: (usize, usize))
    ensures
        r.0 == stats.checks,
        r.1 == stats.errors,
{
    (stats.checks, stats.errors)
}

/// Sets both counters back to zero.
pub fn reset_stats(stats: &mut PerfStats)
    ensures
        final(stats).checks == 0,
        final(stats).errors == 0,
{
    stats.checks = 0;
    stats.errors = 0;
}

/// Wraps a subsystem error into [`ParseError`] with a caller-supplied note.
pub trait ErrorContext<T> {
    /// Replaces the error with an internal-state error carrying `msg`.
    fn with_context(self, msg: &str) -> Result<T, ParseError>;
    /// Attaches a span; the error itself passes through unchanged.
    fn with_span(self, span: Span) -> Result<T, ParseError>;
}

impl<T> ErrorContext<T> for Result<T, TokenizerError> {
    fn with_context(self, msg: &str) -> (r: Result<T, ParseError>)
        ensures
            self matches Ok(v) ==> r matches Ok(w) && w == v,
            self is Err ==> ({
                &&& r matches Err(e)
                &&& e matches ParseError::Internal(InternalError::InvalidState { description })
                &&& description@ == msg@
            }),
    {
        match self {
            Ok(v) => Ok(v),
            Err(_) => Err(ParseError::Internal(InternalError::InvalidState {
                description: msg.to_owned(),
            })),
        }
    }

    fn with_span(self, span: Span) -> (r: Result<T, ParseError>)
        ensures
            self matches Ok(v) ==> r matches Ok(w) && w == v,
            self matches Err(e) ==> ({
                &&& r matches Err(pe)
                &&& pe matches ParseError::Tokenizer(te)
                &&& te == e
            }),
    {
        let _ = span;
        match self {
            Ok(v) => Ok(v),
            Err(e) => Err(ParseError::Tokenizer(e)),
        }
    }
}

impl<T> ErrorContext<T> for Result<T, ParserError> {
    fn with_context(self, msg: &str) -> (r: Result<T, ParseError>)
        ensures
            self matches Ok(v) ==> r matches Ok(w) && w == v,
            self is Err ==> ({
                &&& r matches Err(e)
                &&& e matches ParseError::Internal(InternalError::InvalidState { description })
                &&& description@ == msg@
            }),
    {
        match self {
            Ok(v) => Ok(v),
            Err(_) => Err(ParseError::Internal(InternalError::InvalidState {
                description: msg.to_owned(),
            })),
        }
    }

    fn with_span(self, span: Span) -> (r: Result<T, ParseError>)
        ensures
            self matches Ok(v) ==> r matches Ok(w) && w == v,
            self matches Err(e) ==> ({
                &&& r matches Err(pe)
                &&& pe matches ParseError::Parser(pa)
                &&& pa == e
            }),
    {
        let _ = span;
        match self {
            Ok(v) => Ok(v),
            Err(e) => Err(ParseError::Parser(e)),
        }
    }
}

impl<T> ErrorContext<T> for Result<T, EncodingError> {
    fn with_context(self, msg: &str) -> (r: Result<T, ParseError>)
        ensures
            self matches Ok(v) ==> r matches Ok(w) && w == v,
            self is Err ==> ({
                &&& r matches Err(e)
                &&& e matches ParseError::Internal(InternalError::InvalidState { description })
                &&& description@ == msg@
            }),
    {
        match self {
            Ok(v) => Ok(v),
            Err(_) => Err(ParseError::Internal(InternalError::InvalidState {
                description: msg.to_owned(),
            })),
        }
    }

    fn with_span(self, span: Span) -> (r: Result<T, ParseError>)
        ensures
            self matches Ok(v) ==> r matches Ok(w) && w == v,
            self matches Err(e) ==> ({
                &&& r matches Err(pe)
                &&& pe matches ParseError::Encoding(en)
                &&& en == e
            }),
    {
        let _ = span;
        match self {
            Ok(v) => Ok(v),
            Err(e) => Err(ParseError::Encoding(e)),
        }
    }
}

} // verus!
