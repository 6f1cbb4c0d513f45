//! The closed set of token kinds, and the token itself: a kind, the exact
//! input bytes it covers, and its source span.

use vstd::prelude::*;
use crate::source::Span;

verus! {

/// Every kind of token the tokenizer can produce: literals, trivia,
/// operators (ASCII and long-named), explicit error kinds, and the
/// synthetic tokens the parser inserts.
#[allow(non_camel_case_types)]
#[derive(Debug, Clone, Copy, PartialEq, Eq, Structural)]
pub enum TokenKind {
    Unknown,
    EndOfFile,
    Symbol,
    String,
    Integer,
    Real,
    Whitespace,
    InternalNewline,
    ToplevelNewline,
    Comment,
    Error_ExpectedOperand,
    Error_UnhandledCharacter,
    Error_Number,
    Error_ExpectedLetterlike,
    Error_ExpectedTag,
    Error_ExpectedFile,
    Error_UnterminatedComment,
    Error_UnterminatedString,
    Error_UnexpectedCloser,
    Error_UnsafeCharacterEncoding,
    Error_UnexpectedCommentCloser,
    Error_InfixImplicitNull,
    Fake_ImplicitTimes,
    Fake_ImplicitNull,
    Fake_ImplicitOne,
    Fake_ImplicitAll,
    OpenParen,
    CloseParen,
    OpenSquare,
    CloseSquare,
    OpenCurly,
    CloseCurly,
    LessBar,
    BarGreater,
    Comma,
    Semi,
    SemiSemi,
    Equal,
    EqualEqual,
    EqualEqualEqual,
    EqualBangEqual,
    EqualDot,
    Plus,
    PlusPlus,
    PlusEqual,
    Minus,
    MinusMinus,
    MinusEqual,
    MinusGreater,
    Star,
    StarStar,
    StarEqual,
    Slash,
    SlashAt,
    SlashSlash,
    SlashSlashAt,
    SlashSlashDot,
    SlashSlashEqual,
    SlashDot,
    SlashSemi,
    SlashColon,
    SlashEqual,
    SlashStar,
    Caret,
    CaretEqual,
    CaretColonEqual,
    Less,
    LessEqual,
    LessLess,
    LessGreater,
    LessMinusGreater,
    Greater,
    GreaterEqual,
    GreaterGreater,
    GreaterGreaterGreater,
    Bang,
    BangBang,
    BangEqual,
    Amp,
    AmpAmp,
    Bar,
    BarBar,
    Colon,
    ColonColon,
    ColonEqual,
    ColonGreater,
    Dot,
    DotDot,
    DotDotDot,
    Under,
    UnderUnder,
    UnderUnderUnder,
    UnderDot,
    Hash,
    HashHash,
    Percent,
    PercentPercent,
    SingleQuote,
    Question,
    QuestionQuestion,
    Tilde,
    TildeTilde,
    At,
    AtAt,
    AtAtAt,
    AtStar,
    LongName_Rule,
    LongName_RuleDelayed,
    LongName_Equal,
    LongName_NotEqual,
    LongName_LessEqual,
    LongName_GreaterEqual,
    LongName_Times,
    LongName_Divide,
    LongName_And,
    LongName_Or,
    LongName_Not,
    LongName_Element,
    LongName_Function,
}

/// Whether this kind is trivia: whitespace, comments and newlines, kept in
/// the concrete tree and dropped by aggregation.
pub open spec fn is_trivia(k: TokenKind) -> bool {
    k is Whitespace || k is InternalNewline || k is ToplevelNewline || k is Comment
}

/// Whether this kind is one of the explicit error kinds.
pub open spec fn is_error_kind(k: TokenKind) -> bool {
    ||| k is Error_ExpectedOperand
    ||| k is Error_UnhandledCharacter
    ||| k is Error_Number
    ||| k is Error_ExpectedLetterlike
    ||| k is Error_ExpectedTag
    ||| k is Error_ExpectedFile
    ||| k is Error_UnterminatedComment
    ||| k is Error_UnterminatedString
    ||| k is Error_UnexpectedCloser
    ||| k is Error_UnsafeCharacterEncoding
    ||| k is Error_UnexpectedCommentCloser
    ||| k is Error_InfixImplicitNull
}

/// Whether this kind closes a group.
pub open spec fn is_closer(k: TokenKind) -> bool {
    k is CloseParen || k is CloseSquare || k is CloseCurly || k is BarGreater
}

/// A token: its kind, the exact input bytes it covers (empty for synthetic
/// tokens), and its span.
#[derive(Debug, Clone, PartialEq, Eq)]
pub struct Token {
    pub tok: TokenKind,
    pub text: Vec<u8>,
    pub src: Span,
}

impl Token {
    /// Whether this token is one of the explicit error kinds.
    pub fn is_error(&self) -> (r: bool)
        ensures
            r == is_error_kind(self.tok),
    {
        matches!(
            self.tok,
            TokenKind::Error_ExpectedOperand | TokenKind::Error_UnhandledCharacter
                | TokenKind::Error_Number | TokenKind::Error_ExpectedLetterlike
                | TokenKind::Error_ExpectedTag | TokenKind::Error_ExpectedFile
                | TokenKind::Error_UnterminatedComment | TokenKind::Error_UnterminatedString
                | TokenKind::Error_UnexpectedCloser | TokenKind::Error_UnsafeCharacterEncoding
                | TokenKind::Error_UnexpectedCommentCloser | TokenKind::Error_InfixImplicitNull
        )
    }

    /// Whether this token is trivia.
    pub fn is_trivia(&self) -> (r: bool)
        ensures
            r == is_trivia(self.tok),
    {
        matches!(
            self.tok,
            TokenKind::Whitespace | TokenKind::InternalNewline | TokenKind::ToplevelNewline
                | TokenKind::Comment
        )
    }
}

} // verus!
