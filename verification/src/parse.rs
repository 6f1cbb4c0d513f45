//! The parser core: a precedence-climbing (Pratt) parser over the
//! tokenizer, producing a concrete syntax tree that keeps every token.
//!
//! The grammar is given by two total dispatch functions: every token kind
//! has a prefix role (how it begins an expression) and an infix role (how
//! it continues one), each with a precedence. The parsing rules themselves
//! are specification functions over the input bytes; the executable parser
//! returns exactly the tree they describe.

use vstd::prelude::*;
use crate::source::{Location, Span};
use crate::token::{Token, TokenKind};
use crate::tokenize::{scan, scan_tag, scan_file, loc_after, Scan};
use crate::cst::{
    Cst, GCst, GToken, NodeTag, PrefixOperator, InfixOperator, BinaryOperator, PostfixOperator,
    TernaryOperator, CompoundOperator, GroupOperator, SyntaxErrorKind,
};

verus! {

pub const PREC_LOWEST: u32 = 0;
pub const PREC_COMMA: u32 = 10;
pub const PREC_SEMI: u32 = 20;
pub const PREC_PUT: u32 = 30;
pub const PREC_SET: u32 = 40;
pub const PREC_SLASHSLASH: u32 = 50;
pub const PREC_AMP: u32 = 60;
pub const PREC_COLON: u32 = 70;
pub const PREC_REPLACEALL: u32 = 80;
pub const PREC_RULE: u32 = 90;
pub const PREC_CONDITION: u32 = 100;
pub const PREC_STRINGEXPR: u32 = 110;
pub const PREC_ALTERNATIVES: u32 = 120;
pub const PREC_OR: u32 = 130;
pub const PREC_AND: u32 = 140;
pub const PREC_NOT: u32 = 150;
pub const PREC_SAMEQ: u32 = 160;
pub const PREC_ELEMENT: u32 = 165;
pub const PREC_INEQUALITY: u32 = 170;
pub const PREC_SPAN: u32 = 180;
pub const PREC_STRINGJOIN: u32 = 190;
pub const PREC_PLUS: u32 = 200;
pub const PREC_TIMES: u32 = 210;
pub const PREC_STARSTAR: u32 = 212;
pub const PREC_DOT: u32 = 220;
pub const PREC_DIVIDE: u32 = 230;
pub const PREC_TILDE: u32 = 235;
pub const PREC_PREFIX_MINUS: u32 = 240;
pub const PREC_POWER: u32 = 250;
pub const PREC_FACTORIAL: u32 = 255;
pub const PREC_PLUSPLUS: u32 = 260;
pub const PREC_REPEATED: u32 = 265;
pub const PREC_DERIVATIVE: u32 = 270;
pub const PREC_AT: u32 = 280;
pub const PREC_MAP: u32 = 282;
pub const PREC_COMPOSITION: u32 = 284;
pub const PREC_PATTERNTEST: u32 = 285;
pub const PREC_MESSAGENAME: u32 = 290;
pub const PREC_CALL: u32 = 300;

/// How a token begins an expression.
#[derive(Debug, Clone, Copy, PartialEq, Eq, Structural)]
pub enum PrefixRole {
    /// Consume the token as a leaf.
    LeafP,
    /// Consume an error token as a leaf.
    ErrorLeafP,
    /// A prefix operator: consume, then parse the operand at the given
    /// precedence.
    OpP(u32, PrefixOperator),
    /// An opening bracket, with its group kind and expected closer.
    GroupP(GroupOperator, TokenKind),
    /// A symbol, which may fuse with a following blank.
    SymbolP,
    /// A blank, which may fuse with a following symbol: its bare operator
    /// and the operator used when a symbol precedes it.
    UnderP(CompoundOperator),
    /// A slot `#`, which may fuse with a following index or name.
    HashP,
    /// A slot sequence `##`, which may fuse with a following index.
    HashHashP,
    /// A history reference `%`, which may fuse with a following index.
    PercentP,
    /// A span `;;` with its first operand missing.
    SemiSemiP,
    /// `<<`, which reads a file name.
    LessLessP,
    /// A closing bracket: an expected-operand error where an enclosing
    /// group is waiting for it, otherwise an unexpected closer.
    CloserP,
    /// A comma in operand position: an expected-operand error, then the
    /// comma continues as an infix.
    CommaP,
    /// The end of the input: an expected-operand error covering nothing.
    EofP,
    /// A token with no prefix meaning: an expected-operand error covering
    /// nothing, after which the token is offered as an infix.
    UnhandledP,
}

/// How a token continues an expression.
#[derive(Debug, Clone, Copy, PartialEq, Eq, Structural)]
pub enum InfixRole {
    /// No continuation: the expression ends here.
    NoneI,
    /// A top-level newline ends the expression.
    NewlineI,
    /// A binary operator: precedence, operator, right associativity.
    BinaryI(u32, BinaryOperator, bool),
    /// A flat operator chain at the given precedence.
    ChainI(u32, InfixOperator),
    /// A postfix operator.
    PostfixI(u32, PostfixOperator),
    /// `*` and its relatives: a times chain, which also accepts
    /// juxtaposition.
    TimesI,
    /// A comparison operator: all of them chain at one precedence.
    InequalityI,
    /// An opening square bracket right after an expression: a call.
    CallI,
    /// An argument-separating comma chain.
    CommaI,
    /// A compound-expression chain, with implicit nulls.
    SemiI,
    /// A span `;;`.
    SemiSemiI,
    /// `:` — a pattern or an optional, depending on what precedes.
    ColonI,
    /// `/:` — a tag assignment awaiting `=`, `:=` or `=.`.
    SlashColonI,
    /// `~` — the ternary infix form `a ~ f ~ b`.
    TildeI,
    /// `=`, which must also recognize `=.` split across two tokens.
    EqualI,
    /// `:=`.
    ColonEqualI,
    /// `=.` as one token: unset.
    UnsetI,
    /// `::` — a message name, whose tag is read in stringify mode.
    ColonColonI,
    /// `>>` or `>>>` — a put, whose file name is read in stringify mode.
    PutI(BinaryOperator),
    /// The token could begin an operand: juxtaposition, an implicit
    /// multiplication.
    ImplicitTimesI,
}

/// The prefix role of every token kind.
pub open spec fn prefix_role(k: TokenKind) -> PrefixRole {
    match k {
        TokenKind::Integer => PrefixRole::LeafP,
        TokenKind::Real => PrefixRole::LeafP,
        TokenKind::String => PrefixRole::LeafP,
        TokenKind::PercentPercent => PrefixRole::PercentP,
        TokenKind::Percent => PrefixRole::PercentP,
        TokenKind::Symbol => PrefixRole::SymbolP,
        TokenKind::Under => PrefixRole::UnderP(CompoundOperator::Blank),
        TokenKind::UnderUnder => PrefixRole::UnderP(CompoundOperator::BlankSequence),
        TokenKind::UnderUnderUnder => PrefixRole::UnderP(CompoundOperator::BlankNullSequence),
        TokenKind::UnderDot => PrefixRole::LeafP,
        TokenKind::Hash => PrefixRole::HashP,
        TokenKind::HashHash => PrefixRole::HashHashP,
        TokenKind::Minus => PrefixRole::OpP(PREC_PREFIX_MINUS, PrefixOperator::Minus),
        TokenKind::Plus => PrefixRole::OpP(PREC_PREFIX_MINUS, PrefixOperator::Plus),
        TokenKind::Bang => PrefixRole::OpP(PREC_NOT, PrefixOperator::Not),
        TokenKind::BangBang => PrefixRole::OpP(PREC_NOT, PrefixOperator::Not2),
        TokenKind::PlusPlus => PrefixRole::OpP(PREC_PLUSPLUS, PrefixOperator::PreIncrement),
        TokenKind::MinusMinus => PrefixRole::OpP(PREC_PLUSPLUS, PrefixOperator::PreDecrement),
        TokenKind::LongName_Not => PrefixRole::OpP(PREC_NOT, PrefixOperator::Not),
        TokenKind::OpenParen => PrefixRole::GroupP(GroupOperator::Paren, TokenKind::CloseParen),
        TokenKind::OpenSquare => PrefixRole::GroupP(GroupOperator::Square, TokenKind::CloseSquare),
        TokenKind::OpenCurly => PrefixRole::GroupP(GroupOperator::List, TokenKind::CloseCurly),
        TokenKind::LessBar => PrefixRole::GroupP(
            GroupOperator::Association,
            TokenKind::BarGreater,
        ),
        TokenKind::CloseParen => PrefixRole::CloserP,
        TokenKind::CloseSquare => PrefixRole::CloserP,
        TokenKind::CloseCurly => PrefixRole::CloserP,
        TokenKind::BarGreater => PrefixRole::CloserP,
        TokenKind::Comma => PrefixRole::CommaP,
        TokenKind::SemiSemi => PrefixRole::SemiSemiP,
        TokenKind::LessLess => PrefixRole::LessLessP,
        TokenKind::EndOfFile => PrefixRole::EofP,
        TokenKind::Error_ExpectedOperand => PrefixRole::ErrorLeafP,
        TokenKind::Error_UnhandledCharacter => PrefixRole::ErrorLeafP,
        TokenKind::Error_Number => PrefixRole::ErrorLeafP,
        TokenKind::Error_ExpectedLetterlike => PrefixRole::ErrorLeafP,
        TokenKind::Error_ExpectedTag => PrefixRole::ErrorLeafP,
        TokenKind::Error_ExpectedFile => PrefixRole::ErrorLeafP,
        TokenKind::Error_UnterminatedComment => PrefixRole::ErrorLeafP,
        TokenKind::Error_UnterminatedString => PrefixRole::ErrorLeafP,
        TokenKind::Error_UnexpectedCloser => PrefixRole::ErrorLeafP,
        TokenKind::Error_UnsafeCharacterEncoding => PrefixRole::ErrorLeafP,
        TokenKind::Error_UnexpectedCommentCloser => PrefixRole::ErrorLeafP,
        TokenKind::Error_InfixImplicitNull => PrefixRole::ErrorLeafP,
        TokenKind::Unknown => PrefixRole::ErrorLeafP,
        TokenKind::Whitespace => PrefixRole::ErrorLeafP,
        TokenKind::InternalNewline => PrefixRole::ErrorLeafP,
        TokenKind::ToplevelNewline => PrefixRole::ErrorLeafP,
        TokenKind::Comment => PrefixRole::ErrorLeafP,
        TokenKind::Fake_ImplicitTimes => PrefixRole::ErrorLeafP,
        TokenKind::Fake_ImplicitNull => PrefixRole::ErrorLeafP,
        TokenKind::Fake_ImplicitOne => PrefixRole::ErrorLeafP,
        TokenKind::Fake_ImplicitAll => PrefixRole::ErrorLeafP,
        TokenKind::QuestionQuestion => PrefixRole::ErrorLeafP,
        _ => PrefixRole::UnhandledP,
    }
}

/// The infix role of every token kind.
pub open spec fn infix_role(k: TokenKind) -> InfixRole {
    match k {
        TokenKind::ToplevelNewline => InfixRole::NewlineI,
        TokenKind::Slash => InfixRole::BinaryI(PREC_DIVIDE, BinaryOperator::Divide, false),
        TokenKind::LongName_Divide => InfixRole::BinaryI(
            PREC_DIVIDE,
            BinaryOperator::Divide,
            false,
        ),
        TokenKind::Caret => InfixRole::BinaryI(PREC_POWER, BinaryOperator::Power, true),
        TokenKind::CaretEqual => InfixRole::BinaryI(PREC_SET, BinaryOperator::UpSet, true),
        TokenKind::CaretColonEqual => InfixRole::BinaryI(
            PREC_SET,
            BinaryOperator::UpSetDelayed,
            true,
        ),
        TokenKind::SlashAt => InfixRole::BinaryI(PREC_MAP, BinaryOperator::MapAt, true),
        TokenKind::SlashSlashAt => InfixRole::BinaryI(PREC_MAP, BinaryOperator::MapAll, true),
        TokenKind::AtAt => InfixRole::BinaryI(PREC_MAP, BinaryOperator::Apply, true),
        TokenKind::AtAtAt => InfixRole::BinaryI(PREC_MAP, BinaryOperator::MapApply, true),
        TokenKind::MinusGreater => InfixRole::BinaryI(PREC_RULE, BinaryOperator::Rule, true),
        TokenKind::LongName_Rule => InfixRole::BinaryI(PREC_RULE, BinaryOperator::Rule, true),
        TokenKind::ColonGreater => InfixRole::BinaryI(
            PREC_RULE,
            BinaryOperator::RuleDelayed,
            true,
        ),
        TokenKind::LongName_RuleDelayed => InfixRole::BinaryI(
            PREC_RULE,
            BinaryOperator::RuleDelayed,
            true,
        ),
        TokenKind::LessMinusGreater => InfixRole::BinaryI(
            PREC_RULE,
            BinaryOperator::TwoWayRule,
            true,
        ),
        TokenKind::LongName_Function => InfixRole::BinaryI(
            PREC_RULE,
            BinaryOperator::Function,
            true,
        ),
        TokenKind::SlashDot => InfixRole::BinaryI(
            PREC_REPLACEALL,
            BinaryOperator::ReplaceAll,
            false,
        ),
        TokenKind::SlashSlashDot => InfixRole::BinaryI(
            PREC_REPLACEALL,
            BinaryOperator::ReplaceRepeated,
            false,
        ),
        TokenKind::SlashSemi => InfixRole::BinaryI(
            PREC_CONDITION,
            BinaryOperator::Condition,
            false,
        ),
        TokenKind::PlusEqual => InfixRole::BinaryI(PREC_SET, BinaryOperator::AddTo, true),
        TokenKind::MinusEqual => InfixRole::BinaryI(PREC_SET, BinaryOperator::SubtractFrom, true),
        TokenKind::StarEqual => InfixRole::BinaryI(PREC_SET, BinaryOperator::TimesBy, true),
        TokenKind::SlashEqual => InfixRole::BinaryI(PREC_SET, BinaryOperator::DivideBy, true),
        TokenKind::SlashSlashEqual => InfixRole::BinaryI(PREC_SET, BinaryOperator::ApplyTo, true),
        TokenKind::At => InfixRole::BinaryI(PREC_AT, BinaryOperator::BinaryAt, true),
        TokenKind::SlashSlash => InfixRole::BinaryI(
            PREC_SLASHSLASH,
            BinaryOperator::BinarySlashSlash,
            false,
        ),
        TokenKind::Question => InfixRole::BinaryI(
            PREC_PATTERNTEST,
            BinaryOperator::PatternTest,
            false,
        ),
        TokenKind::LongName_Element => InfixRole::BinaryI(
            PREC_ELEMENT,
            BinaryOperator::Element,
            false,
        ),
        TokenKind::GreaterGreater => InfixRole::PutI(BinaryOperator::Put),
        TokenKind::GreaterGreaterGreater => InfixRole::PutI(BinaryOperator::PutAppend),
        TokenKind::Minus => InfixRole::ChainI(PREC_PLUS, InfixOperator::Plus),
        TokenKind::Plus => InfixRole::ChainI(PREC_PLUS, InfixOperator::Plus),
        TokenKind::EqualEqualEqual => InfixRole::ChainI(PREC_SAMEQ, InfixOperator::SameQ),
        TokenKind::EqualBangEqual => InfixRole::ChainI(PREC_SAMEQ, InfixOperator::UnsameQ),
        TokenKind::Dot => InfixRole::ChainI(PREC_DOT, InfixOperator::Dot),
        TokenKind::StarStar => InfixRole::ChainI(
            PREC_STARSTAR,
            InfixOperator::NonCommutativeMultiply,
        ),
        TokenKind::AmpAmp => InfixRole::ChainI(PREC_AND, InfixOperator::And),
        TokenKind::LongName_And => InfixRole::ChainI(PREC_AND, InfixOperator::And),
        TokenKind::BarBar => InfixRole::ChainI(PREC_OR, InfixOperator::Or),
        TokenKind::LongName_Or => InfixRole::ChainI(PREC_OR, InfixOperator::Or),
        TokenKind::Bar => InfixRole::ChainI(PREC_ALTERNATIVES, InfixOperator::Alternatives),
        TokenKind::LessGreater => InfixRole::ChainI(PREC_STRINGJOIN, InfixOperator::StringJoin),
        TokenKind::TildeTilde => InfixRole::ChainI(
            PREC_STRINGEXPR,
            InfixOperator::StringExpression,
        ),
        TokenKind::AtStar => InfixRole::ChainI(PREC_COMPOSITION, InfixOperator::Composition),
        TokenKind::SlashStar => InfixRole::ChainI(
            PREC_COMPOSITION,
            InfixOperator::RightComposition,
        ),
        TokenKind::Star => InfixRole::TimesI,
        TokenKind::LongName_Times => InfixRole::TimesI,
        TokenKind::Fake_ImplicitTimes => InfixRole::TimesI,
        TokenKind::EqualEqual => InfixRole::InequalityI,
        TokenKind::BangEqual => InfixRole::InequalityI,
        TokenKind::Less => InfixRole::InequalityI,
        TokenKind::LessEqual => InfixRole::InequalityI,
        TokenKind::Greater => InfixRole::InequalityI,
        TokenKind::GreaterEqual => InfixRole::InequalityI,
        TokenKind::LongName_Equal => InfixRole::InequalityI,
        TokenKind::LongName_NotEqual => InfixRole::InequalityI,
        TokenKind::LongName_LessEqual => InfixRole::InequalityI,
        TokenKind::LongName_GreaterEqual => InfixRole::InequalityI,
        TokenKind::Bang => InfixRole::PostfixI(PREC_FACTORIAL, PostfixOperator::Factorial),
        TokenKind::BangBang => InfixRole::PostfixI(PREC_FACTORIAL, PostfixOperator::Factorial2),
        TokenKind::Amp => InfixRole::PostfixI(PREC_AMP, PostfixOperator::Function),
        TokenKind::DotDot => InfixRole::PostfixI(PREC_REPEATED, PostfixOperator::Repeated),
        TokenKind::DotDotDot => InfixRole::PostfixI(PREC_REPEATED, PostfixOperator::RepeatedNull),
        TokenKind::MinusMinus => InfixRole::PostfixI(PREC_PLUSPLUS, PostfixOperator::Decrement),
        TokenKind::PlusPlus => InfixRole::PostfixI(PREC_PLUSPLUS, PostfixOperator::Increment),
        TokenKind::SingleQuote => InfixRole::PostfixI(
            PREC_DERIVATIVE,
            PostfixOperator::Derivative,
        ),
        TokenKind::OpenSquare => InfixRole::CallI,
        TokenKind::Comma => InfixRole::CommaI,
        TokenKind::Semi => InfixRole::SemiI,
        TokenKind::SemiSemi => InfixRole::SemiSemiI,
        TokenKind::Colon => InfixRole::ColonI,
        TokenKind::SlashColon => InfixRole::SlashColonI,
        TokenKind::Tilde => InfixRole::TildeI,
        TokenKind::Equal => InfixRole::EqualI,
        TokenKind::ColonEqual => InfixRole::ColonEqualI,
        TokenKind::EqualDot => InfixRole::UnsetI,
        TokenKind::ColonColon => InfixRole::ColonColonI,
        TokenKind::Symbol => InfixRole::ImplicitTimesI,
        TokenKind::Integer => InfixRole::ImplicitTimesI,
        TokenKind::Real => InfixRole::ImplicitTimesI,
        TokenKind::String => InfixRole::ImplicitTimesI,
        TokenKind::OpenParen => InfixRole::ImplicitTimesI,
        TokenKind::OpenCurly => InfixRole::ImplicitTimesI,
        TokenKind::LessBar => InfixRole::ImplicitTimesI,
        TokenKind::Under => InfixRole::ImplicitTimesI,
        TokenKind::UnderUnder => InfixRole::ImplicitTimesI,
        TokenKind::UnderUnderUnder => InfixRole::ImplicitTimesI,
        TokenKind::UnderDot => InfixRole::ImplicitTimesI,
        TokenKind::Hash => InfixRole::ImplicitTimesI,
        TokenKind::HashHash => InfixRole::ImplicitTimesI,
        TokenKind::Percent => InfixRole::ImplicitTimesI,
        TokenKind::PercentPercent => InfixRole::ImplicitTimesI,
        TokenKind::LessLess => InfixRole::ImplicitTimesI,
        TokenKind::LongName_Not => InfixRole::ImplicitTimesI,
        _ => InfixRole::NoneI,
    }
}

/// Whether a token kind can begin an operand.
pub open spec fn begins_operand(k: TokenKind) -> bool {
    match prefix_role(k) {
        PrefixRole::LeafP => true,
        PrefixRole::ErrorLeafP => crate::token::is_error_kind(k),
        PrefixRole::OpP(_, _) => true,
        PrefixRole::GroupP(_, _) => true,
        PrefixRole::SymbolP => true,
        PrefixRole::UnderP(_) => true,
        PrefixRole::HashP => true,
        PrefixRole::HashHashP => true,
        PrefixRole::PercentP => true,
        PrefixRole::SemiSemiP => true,
        PrefixRole::LessLessP => true,
        PrefixRole::CloserP => false,
        PrefixRole::CommaP => false,
        PrefixRole::EofP => false,
        PrefixRole::UnhandledP => false,
    }
}

/// The constant context of one parse: the input bytes and the tab width.
pub ghost struct PIn {
    pub input: Seq<u8>,
    pub tab: u32,
}

/// The result of collecting trivia: the trivia leaves, the position after
/// them, and the location reached.
pub ghost struct TRes {
    pub toks: Seq<GCst>,
    pub next: int,
    pub loc: Location,
}

/// The result of parsing one construct: the node, the position after it,
/// and the location reached.
pub ghost struct PRes {
    pub node: GCst,
    pub next: int,
    pub loc: Location,
}

/// The end position of a token scanned at `i`, forced to advance and stay
/// inside the input.
pub open spec fn nxt(c: PIn, i: int, e: int) -> int {
    if i < e <= c.input.len() {
        e
    } else {
        i + 1
    }
}

/// A position reached by a sub-parse from `lo`, clamped to `[lo, len]`.
pub open spec fn clampat(c: PIn, lo: int, n: int) -> int {
    if lo <= n <= c.input.len() {
        n
    } else {
        lo
    }
}

/// The token covering `[i, j)`, starting at location `loc`.
pub open spec fn mk_tok(c: PIn, kind: TokenKind, i: int, j: int, loc: Location) -> GToken {
    GToken {
        kind,
        text: c.input.subrange(i, j),
        span: Span { start_loc: loc, end_loc: loc_after(loc, c.input.subrange(i, j), c.tab) },
    }
}

/// A synthetic token covering nothing, at the given location.
pub open spec fn ztok(kind: TokenKind, loc: Location) -> GToken {
    GToken { kind, text: Seq::empty(), span: Span { start_loc: loc, end_loc: loc } }
}

/// Whether a token kind is collected as trivia inside an expression.
pub open spec fn is_expr_trivia(k: TokenKind) -> bool {
    k is Whitespace || k is Comment || k is InternalNewline
}

/// Collects the run of trivia at `i`. When `nl_trivia` is set (inside a
/// group or before an operand), newlines count as trivia; otherwise a
/// newline stays put and ends the run.
pub open spec fn sp_trivia(c: PIn, i: int, loc: Location, nl_trivia: bool) -> TRes
    decreases c.input.len() - i, 0int,
{
    if i < 0 || i >= c.input.len() {
        TRes { toks: Seq::empty(), next: i, loc }
    } else {
        let s = scan(c.input, i, !nl_trivia);
        if is_expr_trivia(s.kind) {
            let j = nxt(c, i, s.end);
            let t = mk_tok(c, s.kind, i, j, loc);
            let rest = sp_trivia(c, j, t.span.end_loc, nl_trivia);
            TRes { toks: seq![GCst::Leaf(t)] + rest.toks, next: rest.next, loc: rest.loc }
        } else {
            TRes { toks: Seq::empty(), next: i, loc }
        }
    }
}

/// The children of `lhs` when it is a flat chain of exactly this
/// operator, so that another operand can be spliced on.
pub open spec fn splice_class(lhs: GCst, op: InfixOperator) -> Option<Seq<GCst>> {
    match lhs {
        GCst::Node(NodeTag::InfixT(o), cs) => if o == op {
            Some(cs)
        } else {
            None
        },
        _ => None,
    }
}

/// Parses one expression at `min_prec`: a prefix construct, then as many
/// infix continuations as bind at least that tightly.
pub open spec fn sp_expr(
    c: PIn,
    i: int,
    loc: Location,
    min_prec: u32,
    closers: Seq<TokenKind>,
) -> PRes
    decreases c.input.len() - i, 5int,
{
    if i < 0 || i > c.input.len() {
        PRes { node: GCst::Leaf(ztok(TokenKind::Error_ExpectedOperand, loc)), next: i, loc }
    } else {
        let p = sp_prefix(c, i, loc, closers);
        let k = clampat(c, i, p.next);
        sp_loop(c, k, p.loc, p.node, min_prec, closers)
    }
}

/// Parses the prefix construct at `i`: a leaf, a prefix operator and its
/// operand, a group, a fused symbol/blank/slot form, or an error.
pub open spec fn sp_prefix(c: PIn, i: int, loc: Location, closers: Seq<TokenKind>) -> PRes
    decreases c.input.len() - i, 2int,
{
    if i < 0 || i >= c.input.len() {
        PRes { node: GCst::Leaf(ztok(TokenKind::Error_ExpectedOperand, loc)), next: i, loc }
    } else {
        let s = scan(c.input, i, false);
        let j = nxt(c, i, s.end);
        let t = mk_tok(c, s.kind, i, j, loc);
        match prefix_role(s.kind) {
            PrefixRole::LeafP => PRes { node: GCst::Leaf(t), next: j, loc: t.span.end_loc },
            PrefixRole::ErrorLeafP => PRes { node: GCst::Leaf(t), next: j, loc: t.span.end_loc },
            PrefixRole::OpP(prec, op) => {
                let tr = sp_trivia(c, j, t.span.end_loc, true);
                let j2 = clampat(c, j, tr.next);
                let rhs = sp_expr(c, j2, tr.loc, prec, closers);
                PRes {
                    node: GCst::Node(
                        NodeTag::PrefixT(op),
                        seq![GCst::Leaf(t)] + tr.toks + seq![rhs.node],
                    ),
                    next: rhs.next,
                    loc: rhs.loc,
                }
            },
            PrefixRole::GroupP(gop, closerk) => sp_group(c, i, loc, gop, closerk, closers),
            PrefixRole::SymbolP => sp_symbol(c, i, loc),
            PrefixRole::UnderP(op) => sp_under(c, i, loc, op),
            PrefixRole::HashP => sp_slot(c, i, loc, CompoundOperator::Slot, true),
            PrefixRole::HashHashP => sp_slot(c, i, loc, CompoundOperator::SlotSequence, false),
            PrefixRole::PercentP => {
                if s.kind is Percent {
                    sp_slot(c, i, loc, CompoundOperator::Out, false)
                } else {
                    PRes {
                        node: GCst::Node(NodeTag::CompoundT(CompoundOperator::Out), seq![GCst::Leaf(t)]),
                        next: j,
                        loc: t.span.end_loc,
                    }
                }
            },
            PrefixRole::SemiSemiP => PRes {
                node: GCst::Leaf(ztok(TokenKind::Fake_ImplicitOne, loc)),
                next: i,
                loc,
            },
            PrefixRole::LessLessP => {
                let tr = sp_trivia(c, j, t.span.end_loc, true);
                let j2 = clampat(c, j, tr.next);
                let f = scan_file(c.input, j2);
                let fend = if j2 <= f.end <= c.input.len() {
                    f.end
                } else {
                    j2
                };
                let ft = mk_tok(c, f.kind, j2, fend, tr.loc);
                PRes {
                    node: GCst::Node(
                        NodeTag::PrefixT(PrefixOperator::Get),
                        seq![GCst::Leaf(t)] + tr.toks + seq![GCst::Leaf(ft)],
                    ),
                    next: fend,
                    loc: ft.span.end_loc,
                }
            },
            PrefixRole::CloserP => {
                if closers.contains(s.kind) {
                    PRes {
                        node: GCst::Leaf(ztok(TokenKind::Error_ExpectedOperand, loc)),
                        next: i,
                        loc,
                    }
                } else {
                    let et = GToken {
                        kind: TokenKind::Error_UnexpectedCloser,
                        text: t.text,
                        span: t.span,
                    };
                    PRes { node: GCst::Leaf(et), next: j, loc: t.span.end_loc }
                }
            },
            PrefixRole::CommaP => PRes {
                node: GCst::Leaf(ztok(TokenKind::Error_ExpectedOperand, loc)),
                next: i,
                loc,
            },
            PrefixRole::EofP => PRes {
                node: GCst::Leaf(ztok(TokenKind::Error_ExpectedOperand, loc)),
                next: i,
                loc,
            },
            PrefixRole::UnhandledP => PRes {
                node: GCst::Leaf(ztok(TokenKind::Error_ExpectedOperand, loc)),
                next: i,
                loc,
            },
        }
    }
}

/// Parses a symbol, fusing an immediately following blank into a pattern:
/// `x_`, `x__`, `x___`, `x_h` and `x_.`.
pub open spec fn sp_symbol(c: PIn, i: int, loc: Location) -> PRes
    decreases c.input.len() - i, 1int,
{
    let s = scan(c.input, i, false);
    let j = nxt(c, i, s.end);
    let t = mk_tok(c, s.kind, i, j, loc);
    let s2 = scan(c.input, j, false);
    if s2.kind is Under || s2.kind is UnderUnder || s2.kind is UnderUnderUnder {
        let j2 = nxt(c, j, s2.end);
        let ut = mk_tok(c, s2.kind, j, j2, t.span.end_loc);
        let pop = if s2.kind is Under {
            CompoundOperator::PatternBlank
        } else if s2.kind is UnderUnder {
            CompoundOperator::PatternBlankSequence
        } else {
            CompoundOperator::PatternBlankNullSequence
        };
        let s3 = scan(c.input, j2, false);
        if s3.kind is Symbol {
            let j3 = nxt(c, j2, s3.end);
            let ht = mk_tok(c, s3.kind, j2, j3, ut.span.end_loc);
            PRes {
                node: GCst::Node(
                    NodeTag::CompoundT(pop),
                    seq![GCst::Leaf(t), GCst::Leaf(ut), GCst::Leaf(ht)],
                ),
                next: j3,
                loc: ht.span.end_loc,
            }
        } else {
            PRes {
                node: GCst::Node(NodeTag::CompoundT(pop), seq![GCst::Leaf(t), GCst::Leaf(ut)]),
                next: j2,
                loc: ut.span.end_loc,
            }
        }
    } else if s2.kind is UnderDot {
        let j2 = nxt(c, j, s2.end);
        let ut = mk_tok(c, s2.kind, j, j2, t.span.end_loc);
        PRes {
            node: GCst::Node(
                NodeTag::CompoundT(CompoundOperator::PatternOptionalDefault),
                seq![GCst::Leaf(t), GCst::Leaf(ut)],
            ),
            next: j2,
            loc: ut.span.end_loc,
        }
    } else {
        PRes { node: GCst::Leaf(t), next: j, loc: t.span.end_loc }
    }
}

/// Parses a blank, fusing an immediately following symbol head: `_`, `_h`
/// and their sequence forms.
pub open spec fn sp_under(c: PIn, i: int, loc: Location, op: CompoundOperator) -> PRes
    decreases c.input.len() - i, 1int,
{
    let s = scan(c.input, i, false);
    let j = nxt(c, i, s.end);
    let t = mk_tok(c, s.kind, i, j, loc);
    let s2 = scan(c.input, j, false);
    if s2.kind is Symbol {
        let j2 = nxt(c, j, s2.end);
        let ht = mk_tok(c, s2.kind, j, j2, t.span.end_loc);
        PRes {
            node: GCst::Node(NodeTag::CompoundT(op), seq![GCst::Leaf(t), GCst::Leaf(ht)]),
            next: j2,
            loc: ht.span.end_loc,
        }
    } else {
        PRes {
            node: GCst::Node(NodeTag::CompoundT(op), seq![GCst::Leaf(t)]),
            next: j,
            loc: t.span.end_loc,
        }
    }
}

/// Parses a slot or history reference, fusing an immediately following
/// index (and for `#`, also a name).
pub open spec fn sp_slot(c: PIn, i: int, loc: Location, op: CompoundOperator, names: bool) -> PRes
    decreases c.input.len() - i, 1int,
{
    let s = scan(c.input, i, false);
    let j = nxt(c, i, s.end);
    let t = mk_tok(c, s.kind, i, j, loc);
    let s2 = scan(c.input, j, false);
    if s2.kind is Integer || (names && (s2.kind is Symbol || s2.kind is String)) {
        let j2 = nxt(c, j, s2.end);
        let at = mk_tok(c, s2.kind, j, j2, t.span.end_loc);
        PRes {
            node: GCst::Node(NodeTag::CompoundT(op), seq![GCst::Leaf(t), GCst::Leaf(at)]),
            next: j2,
            loc: at.span.end_loc,
        }
    } else {
        PRes {
            node: GCst::Node(NodeTag::CompoundT(op), seq![GCst::Leaf(t)]),
            next: j,
            loc: t.span.end_loc,
        }
    }
}

/// Parses a bracketed group whose opener sits at `i`: the opener, the one
/// expression inside (commas are an infix there), and the matching
/// closer. A mismatched closer or the end of the input closes the group
/// as missing its closer, leaving the unexpected token for the caller.
pub open spec fn sp_group(
    c: PIn,
    i: int,
    loc: Location,
    gop: GroupOperator,
    closerk: TokenKind,
    closers: Seq<TokenKind>,
) -> PRes
    decreases c.input.len() - i, 0int,
{
    let s = scan(c.input, i, false);
    let j = nxt(c, i, s.end);
    let t = mk_tok(c, s.kind, i, j, loc);
    let tr = sp_trivia(c, j, t.span.end_loc, true);
    let j2 = clampat(c, j, tr.next);
    let s2 = scan(c.input, j2, false);
    if s2.kind == closerk {
        let j3 = nxt(c, j2, s2.end);
        let ct = mk_tok(c, s2.kind, j2, j3, tr.loc);
        PRes {
            node: GCst::Node(
                NodeTag::GroupT(gop),
                seq![GCst::Leaf(t)] + tr.toks + seq![GCst::Leaf(ct)],
            ),
            next: j3,
            loc: ct.span.end_loc,
        }
    } else if j2 >= c.input.len() || crate::token::is_closer(s2.kind) {
        PRes {
            node: GCst::Node(NodeTag::GroupMissingCloserT(gop), seq![GCst::Leaf(t)] + tr.toks),
            next: j2,
            loc: tr.loc,
        }
    } else {
        let inner = sp_expr(c, j2, tr.loc, 1, closers.push(closerk));
        let after = clampat(c, j2, inner.next);
        let tr2 = sp_trivia(c, after, inner.loc, true);
        let j3 = clampat(c, after, tr2.next);
        let s3 = scan(c.input, j3, false);
        if s3.kind == closerk {
            let j4 = nxt(c, j3, s3.end);
            let ct = mk_tok(c, s3.kind, j3, j4, tr2.loc);
            PRes {
                node: GCst::Node(
                    NodeTag::GroupT(gop),
                    seq![GCst::Leaf(t)] + tr.toks + seq![inner.node] + tr2.toks + seq![
                        GCst::Leaf(ct),
                    ],
                ),
                next: j4,
                loc: ct.span.end_loc,
            }
        } else {
            PRes {
                node: GCst::Node(
                    NodeTag::GroupMissingCloserT(gop),
                    seq![GCst::Leaf(t)] + tr.toks + seq![inner.node] + tr2.toks,
                ),
                next: j3,
                loc: tr2.loc,
            }
        }
    }
}

/// One step of operand parsing for an infix continuation: the trivia
/// before it, then the expression at the given precedence.
pub open spec fn sp_operand(
    c: PIn,
    i: int,
    loc: Location,
    prec: u32,
    closers: Seq<TokenKind>,
) -> (Seq<GCst>, PRes)
    decreases c.input.len() - i, 6int,
{
    let tr = sp_trivia(c, i, loc, true);
    let j = clampat(c, i, tr.next);
    let r = sp_expr(c, j, tr.loc, prec, closers);
    (tr.toks, PRes { node: r.node, next: clampat(c, j, r.next), loc: r.loc })
}

/// Parses the infix continuations of `lhs` that bind at least as tightly
/// as `min_prec`: each arm is its own function, dispatched by the infix
/// role of the next token past the trivia.
pub open spec fn sp_loop(
    c: PIn,
    i: int,
    loc: Location,
    lhs: GCst,
    min_prec: u32,
    closers: Seq<TokenKind>,
) -> PRes
    decreases c.input.len() - i, 4int,
{
    if i < 0 || i > c.input.len() {
        PRes { node: lhs, next: i, loc }
    } else {
        let tr = sp_trivia(c, i, loc, closers.len() > 0);
        let j = clampat(c, i, tr.next);
        if j >= c.input.len() {
            PRes { node: lhs, next: i, loc }
        } else {
            let s = scan(c.input, j, closers.len() == 0);
            match infix_role(s.kind) {
                InfixRole::NoneI => PRes { node: lhs, next: i, loc },
                InfixRole::NewlineI => PRes { node: lhs, next: i, loc },
                InfixRole::BinaryI(p, op, right) => sp_arm_binary(c, i, loc, lhs, min_prec, closers, p, op, right),
                InfixRole::ChainI(p, op) => sp_arm_chain(c, i, loc, lhs, min_prec, closers, p, op),
                InfixRole::PostfixI(p, op) => sp_arm_postfix(c, i, loc, lhs, min_prec, closers, p, op),
                InfixRole::TimesI => sp_arm_times(c, i, loc, lhs, min_prec, closers),
                InfixRole::ImplicitTimesI => sp_arm_implicit_times(c, i, loc, lhs, min_prec, closers),
                InfixRole::InequalityI => sp_arm_inequality(c, i, loc, lhs, min_prec, closers),
                InfixRole::CallI => sp_arm_call(c, i, loc, lhs, min_prec, closers),
                InfixRole::CommaI => sp_arm_comma(c, i, loc, lhs, min_prec, closers),
                InfixRole::SemiI => sp_arm_semi(c, i, loc, lhs, min_prec, closers),
                InfixRole::SemiSemiI => sp_arm_span(c, i, loc, lhs, min_prec, closers),
                InfixRole::ColonI => sp_arm_colon(c, i, loc, lhs, min_prec, closers),
                InfixRole::SlashColonI => sp_arm_tag(c, i, loc, lhs, min_prec, closers),
                InfixRole::TildeI => sp_arm_tilde(c, i, loc, lhs, min_prec, closers),
                InfixRole::EqualI => sp_arm_equal(c, i, loc, lhs, min_prec, closers),
                InfixRole::ColonEqualI => sp_arm_colon_equal(c, i, loc, lhs, min_prec, closers),
                InfixRole::UnsetI => sp_arm_unset(c, i, loc, lhs, min_prec, closers),
                InfixRole::ColonColonI => sp_arm_message(c, i, loc, lhs, min_prec, closers),
                InfixRole::PutI(op) => sp_arm_put(c, i, loc, lhs, min_prec, closers, op),
            }
        }
    }
}

/// One infix continuation arm of the parser loop.
pub open spec fn sp_arm_binary(c: PIn, i: int, loc: Location, lhs: GCst, min_prec: u32, closers: Seq<TokenKind>, p: u32, op: BinaryOperator, right: bool) -> PRes
    decreases c.input.len() - i, 3int,
{
    let tr = sp_trivia(c, i, loc, closers.len() > 0);
    let j = clampat(c, i, tr.next);
    if j >= c.input.len() {
        PRes { node: lhs, next: i, loc }
    } else {
        let s = scan(c.input, j, closers.len() == 0);
        let j2 = nxt(c, j, s.end);
        let opt = mk_tok(c, s.kind, j, j2, tr.loc);
        {
        if p < min_prec {
            PRes { node: lhs, next: i, loc }
        } else {
            let rp: u32 = if right {
                p
            } else {
                (p + 1) as u32
            };
            let (tr2, rhs) = sp_operand(c, j2, opt.span.end_loc, rp, closers);
            let node = GCst::Node(
                NodeTag::BinaryT(op),
                seq![lhs] + tr.toks + seq![GCst::Leaf(opt)] + tr2 + seq![rhs.node],
            );
            sp_loop(c, clampat(c, j2, rhs.next), rhs.loc, node, min_prec, closers)
        }
    }
}
}

/// One infix continuation arm of the parser loop.
pub open spec fn sp_arm_chain(c: PIn, i: int, loc: Location, lhs: GCst, min_prec: u32, closers: Seq<TokenKind>, p: u32, op: InfixOperator) -> PRes
    decreases c.input.len() - i, 3int,
{
    let tr = sp_trivia(c, i, loc, closers.len() > 0);
    let j = clampat(c, i, tr.next);
    if j >= c.input.len() {
        PRes { node: lhs, next: i, loc }
    } else {
        let s = scan(c.input, j, closers.len() == 0);
        let j2 = nxt(c, j, s.end);
        let opt = mk_tok(c, s.kind, j, j2, tr.loc);
        {
        if p < min_prec {
            PRes { node: lhs, next: i, loc }
        } else {
            let (tr2, rhs) = sp_operand(
                c,
                j2,
                opt.span.end_loc,
                (p + 1) as u32,
                closers,
            );
            let node = match splice_class(lhs, op) {
                Some(cs) => GCst::Node(
                    NodeTag::InfixT(op),
                    cs + tr.toks + seq![GCst::Leaf(opt)] + tr2 + seq![rhs.node],
                ),
                None => GCst::Node(
                    NodeTag::InfixT(op),
                    seq![lhs] + tr.toks + seq![GCst::Leaf(opt)] + tr2 + seq![
                        rhs.node,
                    ],
                ),
            };
            sp_loop(c, clampat(c, j2, rhs.next), rhs.loc, node, min_prec, closers)
        }
    }
}
}

/// One infix continuation arm of the parser loop.
pub open spec fn sp_arm_postfix(c: PIn, i: int, loc: Location, lhs: GCst, min_prec: u32, closers: Seq<TokenKind>, p: u32, op: PostfixOperator) -> PRes
    decreases c.input.len() - i, 3int,
{
    let tr = sp_trivia(c, i, loc, closers.len() > 0);
    let j = clampat(c, i, tr.next);
    if j >= c.input.len() {
        PRes { node: lhs, next: i, loc }
    } else {
        let s = scan(c.input, j, closers.len() == 0);
        let j2 = nxt(c, j, s.end);
        let opt = mk_tok(c, s.kind, j, j2, tr.loc);
        {
        if p < min_prec {
            PRes { node: lhs, next: i, loc }
        } else {
            let node = GCst::Node(
                NodeTag::PostfixT(op),
                seq![lhs] + tr.toks + seq![GCst::Leaf(opt)],
            );
            sp_loop(c, j2, opt.span.end_loc, node, min_prec, closers)
        }
    }
}
}

/// One infix continuation arm of the parser loop.
pub open spec fn sp_arm_times(c: PIn, i: int, loc: Location, lhs: GCst, min_prec: u32, closers: Seq<TokenKind>) -> PRes
    decreases c.input.len() - i, 3int,
{
    let tr = sp_trivia(c, i, loc, closers.len() > 0);
    let j = clampat(c, i, tr.next);
    if j >= c.input.len() {
        PRes { node: lhs, next: i, loc }
    } else {
        let s = scan(c.input, j, closers.len() == 0);
        let j2 = nxt(c, j, s.end);
        let opt = mk_tok(c, s.kind, j, j2, tr.loc);
        {
        if PREC_TIMES < min_prec {
            PRes { node: lhs, next: i, loc }
        } else {
            let (tr2, rhs) = sp_operand(
                c,
                j2,
                opt.span.end_loc,
                (PREC_TIMES + 1) as u32,
                closers,
            );
            let node = match splice_class(lhs, InfixOperator::Times) {
                Some(cs) => GCst::Node(
                    NodeTag::InfixT(InfixOperator::Times),
                    cs + tr.toks + seq![GCst::Leaf(opt)] + tr2 + seq![rhs.node],
                ),
                None => GCst::Node(
                    NodeTag::InfixT(InfixOperator::Times),
                    seq![lhs] + tr.toks + seq![GCst::Leaf(opt)] + tr2 + seq![
                        rhs.node,
                    ],
                ),
            };
            sp_loop(c, clampat(c, j2, rhs.next), rhs.loc, node, min_prec, closers)
        }
    }
}
}

/// One infix continuation arm of the parser loop.
pub open spec fn sp_arm_implicit_times(c: PIn, i: int, loc: Location, lhs: GCst, min_prec: u32, closers: Seq<TokenKind>) -> PRes
    decreases c.input.len() - i, 3int,
{
    let tr = sp_trivia(c, i, loc, closers.len() > 0);
    let j = clampat(c, i, tr.next);
    if j >= c.input.len() {
        PRes { node: lhs, next: i, loc }
    } else {
        let s = scan(c.input, j, closers.len() == 0);
        let j2 = nxt(c, j, s.end);
        let opt = mk_tok(c, s.kind, j, j2, tr.loc);
        {
        if PREC_TIMES < min_prec {
            PRes { node: lhs, next: i, loc }
        } else {
            let fake = ztok(TokenKind::Fake_ImplicitTimes, tr.loc);
            let p1 = sp_prefix(c, j, tr.loc, closers);
            let k1 = if j < p1.next <= c.input.len() {
                p1.next
            } else {
                j + 1
            };
            let rhs = sp_loop(
                c,
                k1,
                p1.loc,
                p1.node,
                (PREC_TIMES + 1) as u32,
                closers,
            );
            let node = match splice_class(lhs, InfixOperator::Times) {
                Some(cs) => GCst::Node(
                    NodeTag::InfixT(InfixOperator::Times),
                    cs + tr.toks + seq![GCst::Leaf(fake), rhs.node],
                ),
                None => GCst::Node(
                    NodeTag::InfixT(InfixOperator::Times),
                    seq![lhs] + tr.toks + seq![GCst::Leaf(fake), rhs.node],
                ),
            };
            let after = clampat(c, k1, rhs.next);
            sp_loop(c, after, rhs.loc, node, min_prec, closers)
        }
    }
}
}

/// One infix continuation arm of the parser loop.
pub open spec fn sp_arm_inequality(c: PIn, i: int, loc: Location, lhs: GCst, min_prec: u32, closers: Seq<TokenKind>) -> PRes
    decreases c.input.len() - i, 3int,
{
    let tr = sp_trivia(c, i, loc, closers.len() > 0);
    let j = clampat(c, i, tr.next);
    if j >= c.input.len() {
        PRes { node: lhs, next: i, loc }
    } else {
        let s = scan(c.input, j, closers.len() == 0);
        let j2 = nxt(c, j, s.end);
        let opt = mk_tok(c, s.kind, j, j2, tr.loc);
        {
        if PREC_INEQUALITY < min_prec {
            PRes { node: lhs, next: i, loc }
        } else {
            let (tr2, rhs) = sp_operand(
                c,
                j2,
                opt.span.end_loc,
                (PREC_INEQUALITY + 1) as u32,
                closers,
            );
            let node = match splice_class(lhs, InfixOperator::InfixInequality) {
                Some(cs) => GCst::Node(
                    NodeTag::InfixT(InfixOperator::InfixInequality),
                    cs + tr.toks + seq![GCst::Leaf(opt)] + tr2 + seq![rhs.node],
                ),
                None => GCst::Node(
                    NodeTag::InfixT(InfixOperator::InfixInequality),
                    seq![lhs] + tr.toks + seq![GCst::Leaf(opt)] + tr2 + seq![
                        rhs.node,
                    ],
                ),
            };
            sp_loop(c, clampat(c, j2, rhs.next), rhs.loc, node, min_prec, closers)
        }
    }
}
}

/// One infix continuation arm of the parser loop.
pub open spec fn sp_arm_call(c: PIn, i: int, loc: Location, lhs: GCst, min_prec: u32, closers: Seq<TokenKind>) -> PRes
    decreases c.input.len() - i, 3int,
{
    let tr = sp_trivia(c, i, loc, closers.len() > 0);
    let j = clampat(c, i, tr.next);
    if j >= c.input.len() {
        PRes { node: lhs, next: i, loc }
    } else {
        let s = scan(c.input, j, closers.len() == 0);
        let j2 = nxt(c, j, s.end);
        let opt = mk_tok(c, s.kind, j, j2, tr.loc);
        {
        if PREC_CALL < min_prec {
            PRes { node: lhs, next: i, loc }
        } else {
            let g = sp_group(
                c,
                j,
                tr.loc,
                GroupOperator::Square,
                TokenKind::CloseSquare,
                closers,
            );
            let after = if j < g.next <= c.input.len() {
                g.next
            } else {
                j + 1
            };
            let node = GCst::Node(NodeTag::CallT, seq![lhs] + tr.toks + seq![g.node]);
            sp_loop(c, after, g.loc, node, min_prec, closers)
        }
    }
}
}

/// One infix continuation arm of the parser loop.
pub open spec fn sp_arm_comma(c: PIn, i: int, loc: Location, lhs: GCst, min_prec: u32, closers: Seq<TokenKind>) -> PRes
    decreases c.input.len() - i, 3int,
{
    let tr = sp_trivia(c, i, loc, closers.len() > 0);
    let j = clampat(c, i, tr.next);
    if j >= c.input.len() {
        PRes { node: lhs, next: i, loc }
    } else {
        let s = scan(c.input, j, closers.len() == 0);
        let j2 = nxt(c, j, s.end);
        let opt = mk_tok(c, s.kind, j, j2, tr.loc);
        {
        if PREC_COMMA < min_prec {
            PRes { node: lhs, next: i, loc }
        } else {
            let tr2 = sp_trivia(c, j2, opt.span.end_loc, true);
            let j3 = clampat(c, j2, tr2.next);
            let s3 = scan(c.input, j3, false);
            if begins_operand(s3.kind) {
                let rhs0 = sp_expr(c, j3, tr2.loc, (PREC_COMMA + 1) as u32, closers);
                let rhs = PRes {
                    node: rhs0.node,
                    next: clampat(c, j3, rhs0.next),
                    loc: rhs0.loc,
                };
                let node = match splice_class(lhs, InfixOperator::Comma) {
                    Some(cs) => GCst::Node(
                        NodeTag::InfixT(InfixOperator::Comma),
                        cs + tr.toks + seq![GCst::Leaf(opt)] + tr2.toks + seq![
                            rhs.node,
                        ],
                    ),
                    None => GCst::Node(
                        NodeTag::InfixT(InfixOperator::Comma),
                        seq![lhs] + tr.toks + seq![GCst::Leaf(opt)] + tr2.toks
                            + seq![rhs.node],
                    ),
                };
                sp_loop(c, rhs.next, rhs.loc, node, min_prec, closers)
            } else {
                let fake = GCst::Leaf(
                    ztok(TokenKind::Error_InfixImplicitNull, tr2.loc),
                );
                let node = match splice_class(lhs, InfixOperator::Comma) {
                    Some(cs) => GCst::Node(
                        NodeTag::InfixT(InfixOperator::Comma),
                        cs + tr.toks + seq![GCst::Leaf(opt)] + tr2.toks + seq![fake],
                    ),
                    None => GCst::Node(
                        NodeTag::InfixT(InfixOperator::Comma),
                        seq![lhs] + tr.toks + seq![GCst::Leaf(opt)] + tr2.toks
                            + seq![fake],
                    ),
                };
                sp_loop(c, j3, tr2.loc, node, min_prec, closers)
            }
        }
    }
}
}

/// One infix continuation arm of the parser loop.
pub open spec fn sp_arm_semi(c: PIn, i: int, loc: Location, lhs: GCst, min_prec: u32, closers: Seq<TokenKind>) -> PRes
    decreases c.input.len() - i, 3int,
{
    let tr = sp_trivia(c, i, loc, closers.len() > 0);
    let j = clampat(c, i, tr.next);
    if j >= c.input.len() {
        PRes { node: lhs, next: i, loc }
    } else {
        let s = scan(c.input, j, closers.len() == 0);
        let j2 = nxt(c, j, s.end);
        let opt = mk_tok(c, s.kind, j, j2, tr.loc);
        {
        if PREC_SEMI < min_prec {
            PRes { node: lhs, next: i, loc }
        } else {
            let tr2 = sp_trivia(c, j2, opt.span.end_loc, closers.len() == 0);
            let j3 = clampat(c, j2, tr2.next);
            let s3 = scan(c.input, j3, closers.len() == 0);
            if begins_operand(s3.kind) {
                let rhs0 = sp_expr(c, j3, tr2.loc, (PREC_SEMI + 1) as u32, closers);
                let rhs = PRes {
                    node: rhs0.node,
                    next: clampat(c, j3, rhs0.next),
                    loc: rhs0.loc,
                };
                let node = match splice_class(lhs, InfixOperator::CompoundExpression) {
                    Some(cs) => GCst::Node(
                        NodeTag::InfixT(InfixOperator::CompoundExpression),
                        cs + tr.toks + seq![GCst::Leaf(opt)] + tr2.toks + seq![
                            rhs.node,
                        ],
                    ),
                    None => GCst::Node(
                        NodeTag::InfixT(InfixOperator::CompoundExpression),
                        seq![lhs] + tr.toks + seq![GCst::Leaf(opt)] + tr2.toks
                            + seq![rhs.node],
                    ),
                };
                sp_loop(c, rhs.next, rhs.loc, node, min_prec, closers)
            } else {
                let fake = GCst::Leaf(ztok(TokenKind::Fake_ImplicitNull, opt.span.end_loc));
                let node = match splice_class(lhs, InfixOperator::CompoundExpression) {
                    Some(cs) => GCst::Node(
                        NodeTag::InfixT(InfixOperator::CompoundExpression),
                        cs + tr.toks + seq![GCst::Leaf(opt), fake],
                    ),
                    None => GCst::Node(
                        NodeTag::InfixT(InfixOperator::CompoundExpression),
                        seq![lhs] + tr.toks + seq![GCst::Leaf(opt), fake],
                    ),
                };
                sp_loop(c, j2, opt.span.end_loc, node, min_prec, closers)
            }
        }
    }
}
}

/// One infix continuation arm of the parser loop.
pub open spec fn sp_arm_span(c: PIn, i: int, loc: Location, lhs: GCst, min_prec: u32, closers: Seq<TokenKind>) -> PRes
    decreases c.input.len() - i, 3int,
{
    let tr = sp_trivia(c, i, loc, closers.len() > 0);
    let j = clampat(c, i, tr.next);
    if j >= c.input.len() {
        PRes { node: lhs, next: i, loc }
    } else {
        let s = scan(c.input, j, closers.len() == 0);
        let j2 = nxt(c, j, s.end);
        let opt = mk_tok(c, s.kind, j, j2, tr.loc);
        {
        if PREC_SPAN < min_prec {
            PRes { node: lhs, next: i, loc }
        } else {
            let tr2 = sp_trivia(c, j2, opt.span.end_loc, true);
            let j3 = clampat(c, j2, tr2.next);
            let s3 = scan(c.input, j3, false);
            let (b, bnext, bloc, btoks) = if begins_operand(s3.kind) {
                let rhs0 = sp_expr(c, j3, tr2.loc, (PREC_SPAN + 1) as u32, closers);
                (rhs0.node, clampat(c, j3, rhs0.next), rhs0.loc, tr2.toks)
            } else {
                (
                    GCst::Leaf(ztok(TokenKind::Fake_ImplicitAll, opt.span.end_loc)),
                    j2,
                    opt.span.end_loc,
                    Seq::<GCst>::empty(),
                )
            };
            let tr3 = sp_trivia(c, bnext, bloc, closers.len() > 0);
            let j4 = clampat(c, bnext, tr3.next);
            let s4 = scan(c.input, j4, closers.len() == 0);
            if s4.kind is SemiSemi && j4 < c.input.len() {
                let j5 = nxt(c, j4, s4.end);
                let opt2 = mk_tok(c, s4.kind, j4, j5, tr3.loc);
                let tr4 = sp_trivia(c, j5, opt2.span.end_loc, true);
                let j6 = clampat(c, j5, tr4.next);
                let s6 = scan(c.input, j6, false);
                let (cc, cnext, cloc, ctoks) = if begins_operand(s6.kind) {
                    let rhs1 = sp_expr(
                        c,
                        j6,
                        tr4.loc,
                        (PREC_SPAN + 1) as u32,
                        closers,
                    );
                    (rhs1.node, clampat(c, j6, rhs1.next), rhs1.loc, tr4.toks)
                } else {
                    (
                        GCst::Leaf(
                            ztok(TokenKind::Fake_ImplicitAll, opt2.span.end_loc),
                        ),
                        j5,
                        opt2.span.end_loc,
                        Seq::<GCst>::empty(),
                    )
                };
                let node = GCst::Node(
                    NodeTag::TernaryT(TernaryOperator::Span),
                    seq![lhs] + tr.toks + seq![GCst::Leaf(opt)] + btoks + seq![b]
                        + tr3.toks + seq![GCst::Leaf(opt2)] + ctoks + seq![cc],
                );
                sp_loop(c, cnext, cloc, node, min_prec, closers)
            } else {
                let node = GCst::Node(
                    NodeTag::BinaryT(BinaryOperator::Span),
                    seq![lhs] + tr.toks + seq![GCst::Leaf(opt)] + btoks + seq![b],
                );
                sp_loop(c, bnext, bloc, node, min_prec, closers)
            }
        }
    }
}
}

/// One infix continuation arm of the parser loop.
pub open spec fn sp_arm_colon(c: PIn, i: int, loc: Location, lhs: GCst, min_prec: u32, closers: Seq<TokenKind>) -> PRes
    decreases c.input.len() - i, 3int,
{
    let tr = sp_trivia(c, i, loc, closers.len() > 0);
    let j = clampat(c, i, tr.next);
    if j >= c.input.len() {
        PRes { node: lhs, next: i, loc }
    } else {
        let s = scan(c.input, j, closers.len() == 0);
        let j2 = nxt(c, j, s.end);
        let opt = mk_tok(c, s.kind, j, j2, tr.loc);
        {
        if PREC_COLON < min_prec {
            PRes { node: lhs, next: i, loc }
        } else {
            let op = match lhs {
                GCst::Node(NodeTag::CompoundT(co), _) => match co {
                    CompoundOperator::Blank => BinaryOperator::Optional,
                    CompoundOperator::BlankSequence => BinaryOperator::Optional,
                    CompoundOperator::BlankNullSequence => BinaryOperator::Optional,
                    CompoundOperator::PatternBlank => BinaryOperator::Optional,
                    CompoundOperator::PatternBlankSequence => BinaryOperator::Optional,
                    CompoundOperator::PatternBlankNullSequence
                        => BinaryOperator::Optional,
                    _ => BinaryOperator::Pattern,
                },
                _ => BinaryOperator::Pattern,
            };
            let (tr2, rhs) = sp_operand(c, j2, opt.span.end_loc, PREC_COLON, closers);
            let node = GCst::Node(
                NodeTag::BinaryT(op),
                seq![lhs] + tr.toks + seq![GCst::Leaf(opt)] + tr2 + seq![rhs.node],
            );
            sp_loop(c, clampat(c, j2, rhs.next), rhs.loc, node, min_prec, closers)
        }
    }
}
}

/// One infix continuation arm of the parser loop.
pub open spec fn sp_arm_tag(c: PIn, i: int, loc: Location, lhs: GCst, min_prec: u32, closers: Seq<TokenKind>) -> PRes
    decreases c.input.len() - i, 3int,
{
    let tr = sp_trivia(c, i, loc, closers.len() > 0);
    let j = clampat(c, i, tr.next);
    if j >= c.input.len() {
        PRes { node: lhs, next: i, loc }
    } else {
        let s = scan(c.input, j, closers.len() == 0);
        let j2 = nxt(c, j, s.end);
        let opt = mk_tok(c, s.kind, j, j2, tr.loc);
        {
        if PREC_SET < min_prec {
            PRes { node: lhs, next: i, loc }
        } else {
            let (tr2, b0) = sp_operand(
                c,
                j2,
                opt.span.end_loc,
                (PREC_SET + 1) as u32,
                closers,
            );
            let b = PRes { node: b0.node, next: clampat(c, j2, b0.next), loc: b0.loc };
            let tr3 = sp_trivia(c, b.next, b.loc, closers.len() > 0);
            let j4 = clampat(c, b.next, tr3.next);
            let s4 = scan(c.input, j4, closers.len() == 0);
            if (s4.kind is Equal || s4.kind is ColonEqual || s4.kind is EqualDot)
                && j4 < c.input.len() {
                let j5 = nxt(c, j4, s4.end);
                let opt2 = mk_tok(c, s4.kind, j4, j5, tr3.loc);
                if s4.kind is EqualDot {
                    let node = GCst::Node(
                        NodeTag::TernaryT(TernaryOperator::TagUnset),
                        seq![lhs] + tr.toks + seq![GCst::Leaf(opt)] + tr2 + seq![
                            b.node,
                        ] + tr3.toks + seq![GCst::Leaf(opt2)],
                    );
                    sp_loop(c, j5, opt2.span.end_loc, node, min_prec, closers)
                } else {
                    let top = if s4.kind is Equal {
                        TernaryOperator::TagSet
                    } else {
                        TernaryOperator::TagSetDelayed
                    };
                    let (tr4, rhs) = sp_operand(
                        c,
                        j5,
                        opt2.span.end_loc,
                        PREC_SET,
                        closers,
                    );
                    let node = GCst::Node(
                        NodeTag::TernaryT(top),
                        seq![lhs] + tr.toks + seq![GCst::Leaf(opt)] + tr2 + seq![
                            b.node,
                        ] + tr3.toks + seq![GCst::Leaf(opt2)] + tr4 + seq![rhs.node],
                    );
                    sp_loop(c, clampat(c, j5, rhs.next), rhs.loc, node, min_prec, closers)
                }
            } else {
                let node = GCst::Node(
                    NodeTag::SyntaxErrorT(SyntaxErrorKind::ExpectedSet),
                    seq![lhs] + tr.toks + seq![GCst::Leaf(opt)] + tr2 + seq![b.node],
                );
                sp_loop(c, b.next, b.loc, node, min_prec, closers)
            }
        }
    }
}
}

/// One infix continuation arm of the parser loop.
pub open spec fn sp_arm_tilde(c: PIn, i: int, loc: Location, lhs: GCst, min_prec: u32, closers: Seq<TokenKind>) -> PRes
    decreases c.input.len() - i, 3int,
{
    let tr = sp_trivia(c, i, loc, closers.len() > 0);
    let j = clampat(c, i, tr.next);
    if j >= c.input.len() {
        PRes { node: lhs, next: i, loc }
    } else {
        let s = scan(c.input, j, closers.len() == 0);
        let j2 = nxt(c, j, s.end);
        let opt = mk_tok(c, s.kind, j, j2, tr.loc);
        {
        if PREC_TILDE < min_prec {
            PRes { node: lhs, next: i, loc }
        } else {
            let (tr2, mid0) = sp_operand(
                c,
                j2,
                opt.span.end_loc,
                (PREC_TILDE + 1) as u32,
                closers,
            );
            let mid = PRes {
                node: mid0.node,
                next: clampat(c, j2, mid0.next),
                loc: mid0.loc,
            };
            let tr3 = sp_trivia(c, mid.next, mid.loc, closers.len() > 0);
            let j4 = clampat(c, mid.next, tr3.next);
            let s4 = scan(c.input, j4, closers.len() == 0);
            if s4.kind is Tilde && j4 < c.input.len() {
                let j5 = nxt(c, j4, s4.end);
                let opt2 = mk_tok(c, s4.kind, j4, j5, tr3.loc);
                let (tr4, rhs) = sp_operand(
                    c,
                    j5,
                    opt2.span.end_loc,
                    (PREC_TILDE + 1) as u32,
                    closers,
                );
                let node = GCst::Node(
                    NodeTag::TernaryT(TernaryOperator::TernaryTilde),
                    seq![lhs] + tr.toks + seq![GCst::Leaf(opt)] + tr2 + seq![
                        mid.node,
                    ] + tr3.toks + seq![GCst::Leaf(opt2)] + tr4 + seq![rhs.node],
                );
                sp_loop(c, clampat(c, j5, rhs.next), rhs.loc, node, min_prec, closers)
            } else {
                let node = GCst::Node(
                    NodeTag::SyntaxErrorT(SyntaxErrorKind::ExpectedTilde),
                    seq![lhs] + tr.toks + seq![GCst::Leaf(opt)] + tr2 + seq![
                        mid.node,
                    ],
                );
                sp_loop(c, mid.next, mid.loc, node, min_prec, closers)
            }
        }
    }
}
}

/// One infix continuation arm of the parser loop.
pub open spec fn sp_arm_equal(c: PIn, i: int, loc: Location, lhs: GCst, min_prec: u32, closers: Seq<TokenKind>) -> PRes
    decreases c.input.len() - i, 3int,
{
    let tr = sp_trivia(c, i, loc, closers.len() > 0);
    let j = clampat(c, i, tr.next);
    if j >= c.input.len() {
        PRes { node: lhs, next: i, loc }
    } else {
        let s = scan(c.input, j, closers.len() == 0);
        let j2 = nxt(c, j, s.end);
        let opt = mk_tok(c, s.kind, j, j2, tr.loc);
        {
        if PREC_SET < min_prec {
            PRes { node: lhs, next: i, loc }
        } else {
            let tr2 = sp_trivia(c, j2, opt.span.end_loc, true);
            let j3 = clampat(c, j2, tr2.next);
            let s3 = scan(c.input, j3, false);
            if s3.kind is Dot && j3 < c.input.len() {
                let j4 = nxt(c, j3, s3.end);
                let dt = mk_tok(c, s3.kind, j3, j4, tr2.loc);
                let node = GCst::Node(
                    NodeTag::BinaryT(BinaryOperator::Unset),
                    seq![lhs] + tr.toks + seq![GCst::Leaf(opt)] + tr2.toks + seq![
                        GCst::Leaf(dt),
                    ],
                );
                sp_loop(c, j4, dt.span.end_loc, node, min_prec, closers)
            } else {
                let rhs0 = sp_expr(c, j3, tr2.loc, PREC_SET, closers);
                let rhs = PRes {
                    node: rhs0.node,
                    next: clampat(c, j3, rhs0.next),
                    loc: rhs0.loc,
                };
                let node = GCst::Node(
                    NodeTag::BinaryT(BinaryOperator::Assign),
                    seq![lhs] + tr.toks + seq![GCst::Leaf(opt)] + tr2.toks + seq![
                        rhs.node,
                    ],
                );
                sp_loop(c, rhs.next, rhs.loc, node, min_prec, closers)
            }
        }
    }
}
}

/// One infix continuation arm of the parser loop.
pub open spec fn sp_arm_colon_equal(c: PIn, i: int, loc: Location, lhs: GCst, min_prec: u32, closers: Seq<TokenKind>) -> PRes
    decreases c.input.len() - i, 3int,
{
    let tr = sp_trivia(c, i, loc, closers.len() > 0);
    let j = clampat(c, i, tr.next);
    if j >= c.input.len() {
        PRes { node: lhs, next: i, loc }
    } else {
        let s = scan(c.input, j, closers.len() == 0);
        let j2 = nxt(c, j, s.end);
        let opt = mk_tok(c, s.kind, j, j2, tr.loc);
        {
        if PREC_SET < min_prec {
            PRes { node: lhs, next: i, loc }
        } else {
            let (tr2, rhs) = sp_operand(c, j2, opt.span.end_loc, PREC_SET, closers);
            let node = GCst::Node(
                NodeTag::BinaryT(BinaryOperator::AssignDelayed),
                seq![lhs] + tr.toks + seq![GCst::Leaf(opt)] + tr2 + seq![rhs.node],
            );
            sp_loop(c, clampat(c, j2, rhs.next), rhs.loc, node, min_prec, closers)
        }
    }
}
}

/// One infix continuation arm of the parser loop.
pub open spec fn sp_arm_unset(c: PIn, i: int, loc: Location, lhs: GCst, min_prec: u32, closers: Seq<TokenKind>) -> PRes
    decreases c.input.len() - i, 3int,
{
    let tr = sp_trivia(c, i, loc, closers.len() > 0);
    let j = clampat(c, i, tr.next);
    if j >= c.input.len() {
        PRes { node: lhs, next: i, loc }
    } else {
        let s = scan(c.input, j, closers.len() == 0);
        let j2 = nxt(c, j, s.end);
        let opt = mk_tok(c, s.kind, j, j2, tr.loc);
        {
        if PREC_SET < min_prec {
            PRes { node: lhs, next: i, loc }
        } else {
            let node = GCst::Node(
                NodeTag::BinaryT(BinaryOperator::Unset),
                seq![lhs] + tr.toks + seq![GCst::Leaf(opt)],
            );
            sp_loop(c, j2, opt.span.end_loc, node, min_prec, closers)
        }
    }
}
}

/// One infix continuation arm of the parser loop.
pub open spec fn sp_arm_message(c: PIn, i: int, loc: Location, lhs: GCst, min_prec: u32, closers: Seq<TokenKind>) -> PRes
    decreases c.input.len() - i, 3int,
{
    let tr = sp_trivia(c, i, loc, closers.len() > 0);
    let j = clampat(c, i, tr.next);
    if j >= c.input.len() {
        PRes { node: lhs, next: i, loc }
    } else {
        let s = scan(c.input, j, closers.len() == 0);
        let j2 = nxt(c, j, s.end);
        let opt = mk_tok(c, s.kind, j, j2, tr.loc);
        {
        if PREC_MESSAGENAME < min_prec {
            PRes { node: lhs, next: i, loc }
        } else {
            let tg = scan_tag(c.input, j2);
            let tend = if j2 <= tg.end <= c.input.len() {
                tg.end
            } else {
                j2
            };
            let tt = mk_tok(c, tg.kind, j2, tend, opt.span.end_loc);
            let node = match splice_class(lhs, InfixOperator::MessageName) {
                Some(cs) => GCst::Node(
                    NodeTag::InfixT(InfixOperator::MessageName),
                    cs + tr.toks + seq![GCst::Leaf(opt), GCst::Leaf(tt)],
                ),
                None => GCst::Node(
                    NodeTag::InfixT(InfixOperator::MessageName),
                    seq![lhs] + tr.toks + seq![GCst::Leaf(opt), GCst::Leaf(tt)],
                ),
            };
            sp_loop(c, tend, tt.span.end_loc, node, min_prec, closers)
        }
    }
}
}

/// One infix continuation arm of the parser loop.
pub open spec fn sp_arm_put(c: PIn, i: int, loc: Location, lhs: GCst, min_prec: u32, closers: Seq<TokenKind>, op: BinaryOperator) -> PRes
    decreases c.input.len() - i, 3int,
{
    let tr = sp_trivia(c, i, loc, closers.len() > 0);
    let j = clampat(c, i, tr.next);
    if j >= c.input.len() {
        PRes { node: lhs, next: i, loc }
    } else {
        let s = scan(c.input, j, closers.len() == 0);
        let j2 = nxt(c, j, s.end);
        let opt = mk_tok(c, s.kind, j, j2, tr.loc);
        {
        if PREC_PUT < min_prec {
            PRes { node: lhs, next: i, loc }
        } else {
            let tr2 = sp_trivia(c, j2, opt.span.end_loc, true);
            let j3 = clampat(c, j2, tr2.next);
            let f = scan_file(c.input, j3);
            let fend = if j3 <= f.end <= c.input.len() {
                f.end
            } else {
                j3
            };
            let ft = mk_tok(c, f.kind, j3, fend, tr2.loc);
            let node = GCst::Node(
                NodeTag::BinaryT(op),
                seq![lhs] + tr.toks + seq![GCst::Leaf(opt)] + tr2.toks + seq![
                    GCst::Leaf(ft),
                ],
            );
            sp_loop(c, fend, ft.span.end_loc, node, min_prec, closers)
        }
    }
}
}

/// The sequence of top-level items: trivia tokens stand alone, and each
/// expression is parsed at the lowest precedence, so that top-level
/// newlines separate expressions.
pub open spec fn sp_toplevel(c: PIn, i: int, loc: Location) -> Seq<GCst>
    decreases c.input.len() - i,
{
    if i < 0 || i >= c.input.len() {
        Seq::empty()
    } else {
        let s = scan(c.input, i, true);
        if crate::token::is_trivia(s.kind) {
            let j = nxt(c, i, s.end);
            let t = mk_tok(c, s.kind, i, j, loc);
            seq![GCst::Leaf(t)] + sp_toplevel(c, j, t.span.end_loc)
        } else {
            let r = sp_expr(c, i, loc, PREC_LOWEST, Seq::empty());
            let j = if i < r.next <= c.input.len() {
                r.next
            } else {
                i + 1
            };
            seq![r.node] + sp_toplevel(c, j, r.loc)
        }
    }
}

/// The whole parse of an input: a consumed `#!` line becomes a leading
/// comment item.
pub open spec fn parse_stream(c: PIn, skip_shebang: bool, loc0: Location) -> Seq<GCst> {
    if crate::tokenize::has_shebang(c.input, skip_shebang) {
        let e = crate::tokenize::line_end(c.input, 0);
        let t = mk_tok(c, TokenKind::Comment, 0, e, loc0);
        seq![GCst::Leaf(t)] + sp_toplevel(c, e, t.span.end_loc)
    } else {
        sp_toplevel(c, 0, loc0)
    }
}

/// Mirroring distributes over concatenation of child lists.
pub proof fn lemma_cst_gs_concat(a: Seq<Cst>, b: Seq<Cst>)
    ensures
        crate::cst::cst_gs(a + b) == crate::cst::cst_gs(a) + crate::cst::cst_gs(b),
    decreases a.len(),
{
    if a.len() == 0 {
        assert(a + b =~= b);
        assert(crate::cst::cst_gs(a) + crate::cst::cst_gs(b) =~= crate::cst::cst_gs(b));
    } else {
        assert((a + b).drop_first() =~= a.drop_first() + b);
        lemma_cst_gs_concat(a.drop_first(), b);
        assert((a + b)[0] == a[0]);
        assert(crate::cst::cst_gs(a + b) =~= crate::cst::cst_gs(a) + crate::cst::cst_gs(b));
    }
}

/// Appends a child, tracking the mirror.
fn push_child(ch: &mut Vec<Cst>, c: Cst)
    ensures
        crate::cst::cst_gs(final(ch)@) == crate::cst::cst_gs(old(ch)@).push(
            crate::cst::cst_g(c),
        ),
{
    proof {
        crate::cst::lemma_cst_gs_push(ch@, c);
    }
    ch.push(c);
}

/// Appends a whole child list, tracking the mirror.
pub(crate) fn append_children(ch: &mut Vec<Cst>, mut more: Vec<Cst>)
    ensures
        crate::cst::cst_gs(final(ch)@) == crate::cst::cst_gs(old(ch)@) + crate::cst::cst_gs(
            more@,
        ),
{
    let ghost more0 = more@;
    while more.len() > 0
        invariant
            crate::cst::cst_gs(ch@) + crate::cst::cst_gs(more@) == crate::cst::cst_gs(
                old(ch)@,
            ) + crate::cst::cst_gs(more0),
        decreases more@.len(),
    {
        let c = more.remove(0);
        proof {
            crate::cst::lemma_cst_gs_push(ch@, c);
        }
        let ghost chpre = ch@;
        let ghost morepre = more@;
        ch.push(c);
        proof {
            assert(crate::cst::cst_gs(chpre).push(crate::cst::cst_g(c)) + crate::cst::cst_gs(
                more@,
            ) =~= crate::cst::cst_gs(chpre) + (seq![crate::cst::cst_g(c)] + crate::cst::cst_gs(
                more@,
            )));
        }
    }
    proof {
        assert(crate::cst::cst_gs(more@) =~= Seq::<GCst>::empty());
        assert(crate::cst::cst_gs(old(ch)@) + crate::cst::cst_gs(more0) =~= crate::cst::cst_gs(
            final(ch)@,
        ));
    }
}

/// Builds the token covering `[a, b)` starting at `loc`.
fn ex_tok(input: &Vec<u8>, tab: u32, kind: TokenKind, a: usize, b: usize, loc: Location) -> (t:
    Token)
    requires
        a <= b <= input@.len(),
        tab >= 1,
    ensures
        crate::cst::tok_g(t) == mk_tok(PIn { input: input@, tab }, kind, a as int, b as int, loc),
        t.tok == kind,
        t.src.start_loc == loc,
        t.src.end_loc == loc_after(loc, input@.subrange(a as int, b as int), tab),
{
    let text = crate::tokenize::bytes_range(input, a, b);
    let end_loc = crate::tokenize::ex_advance_loc(loc, input, a, b, tab);
    Token { tok: kind, text, src: Span { start_loc: loc, end_loc } }
}

/// Builds a synthetic token covering nothing.
fn ex_ztok(kind: TokenKind, loc: Location) -> (t: Token)
    ensures
        crate::cst::tok_g(t) == ztok(kind, loc),
        t.tok == kind,
{
    Token { tok: kind, text: Vec::new(), src: Span { start_loc: loc, end_loc: loc } }
}

/// Collects the trivia run at `i`; see [`sp_trivia`].
fn ex_trivia(input: &Vec<u8>, tab: u32, i: usize, loc: Location, nl_trivia: bool) -> (r: (
    Vec<Cst>,
    usize,
    Location,
))
    requires
        i <= input@.len(),
        tab >= 1,
    ensures
        ({
            let sp = sp_trivia(PIn { input: input@, tab }, i as int, loc, nl_trivia);
            &&& crate::cst::cst_gs(r.0@) == sp.toks
            &&& r.1 as int == sp.next
            &&& r.2 == sp.loc
        }),
        i <= r.1 <= input@.len(),
{
    let ghost c = PIn { input: input@, tab };
    let mut out: Vec<Cst> = Vec::new();
    let mut j = i;
    let mut l = loc;
    loop
        invariant_except_break
            tab >= 1,
            c == (PIn { input: input@, tab }),
            i <= j <= input@.len(),
            ({
                let sp = sp_trivia(c, i as int, loc, nl_trivia);
                let sp2 = sp_trivia(c, j as int, l, nl_trivia);
                &&& sp.toks == crate::cst::cst_gs(out@) + sp2.toks
                &&& sp.next == sp2.next
                &&& sp.loc == sp2.loc
            }),
        ensures
            ({
                let sp = sp_trivia(c, i as int, loc, nl_trivia);
                &&& crate::cst::cst_gs(out@) == sp.toks
                &&& j as int == sp.next
                &&& l == sp.loc
            }),
            i <= j <= input@.len(),
        decreases input@.len() - j,
    {
        if j >= input.len() {
            proof {
                assert(sp_trivia(c, j as int, l, nl_trivia).toks =~= Seq::<GCst>::empty());
                assert(crate::cst::cst_gs(out@) + Seq::<GCst>::empty() =~= crate::cst::cst_gs(
                    out@,
                ));
            }
            break;
        }
        let (kind, e) = crate::tokenize::ex_scan(input, j, !nl_trivia);
        if matches!(kind, TokenKind::Whitespace | TokenKind::Comment | TokenKind::InternalNewline)
        {
            let t = ex_tok(input, tab, kind, j, e, l);
            let ghost pre = out@;
            let ghost sp2 = sp_trivia(c, j as int, l, nl_trivia);
            let ghost rest = sp_trivia(c, e as int, t.src.end_loc, nl_trivia);
            proof {
                crate::cst::lemma_cst_gs_push(out@, Cst::Token(t));
            }
            let newloc = t.src.end_loc;
            out.push(Cst::Token(t));
            proof {
                assert(crate::cst::cst_gs(pre).push(crate::cst::cst_g(Cst::Token(t))) + rest.toks
                    =~= crate::cst::cst_gs(pre) + (seq![
                    GCst::Leaf(crate::cst::tok_g(t)),
                ] + rest.toks));
            }
            j = e;
            l = newloc;
        } else {
            proof {
                assert(sp_trivia(c, j as int, l, nl_trivia).toks =~= Seq::<GCst>::empty());
                assert(crate::cst::cst_gs(out@) + Seq::<GCst>::empty() =~= crate::cst::cst_gs(
                    out@,
                ));
            }
            break;
        }
    }
    (out, j, l)
}

/// Parses a symbol with a possible fused blank; see [`sp_symbol`].
fn ex_symbol(input: &Vec<u8>, tab: u32, i: usize, loc: Location) -> (r: (Cst, usize, Location))
    requires
        i < input@.len(),
        tab >= 1,
    ensures
        ({
            let sp = sp_symbol(PIn { input: input@, tab }, i as int, loc);
            &&& crate::cst::cst_g(r.0) == sp.node
            &&& r.1 as int == sp.next
            &&& r.2 == sp.loc
        }),
        i < r.1 <= input@.len(),
{
    let ghost c = PIn { input: input@, tab };
    let (k1, e1) = crate::tokenize::ex_scan(input, i, false);
    let t = ex_tok(input, tab, k1, i, e1, loc);
    let (k2, e2) = crate::tokenize::ex_scan(input, e1, false);
    if matches!(k2, TokenKind::Under | TokenKind::UnderUnder | TokenKind::UnderUnderUnder) {
        let ut = ex_tok(input, tab, k2, e1, e2, t.src.end_loc);
        let pop = if matches!(k2, TokenKind::Under) {
            CompoundOperator::PatternBlank
        } else if matches!(k2, TokenKind::UnderUnder) {
            CompoundOperator::PatternBlankSequence
        } else {
            CompoundOperator::PatternBlankNullSequence
        };
        let (k3, e3) = crate::tokenize::ex_scan(input, e2, false);
        if matches!(k3, TokenKind::Symbol) {
            let ht = ex_tok(input, tab, k3, e2, e3, ut.src.end_loc);
            let hl = ht.src.end_loc;
            let mut ch: Vec<Cst> = Vec::new();
            push_child(&mut ch, Cst::Token(t));
            push_child(&mut ch, Cst::Token(ut));
            push_child(&mut ch, Cst::Token(ht));
            proof {
                assert(crate::cst::cst_gs(ch@) =~= sp_symbol(c, i as int, loc).node->1);
            }
            (Cst::Compound { op: pop, children: ch }, e3, hl)
        } else {
            let ul = ut.src.end_loc;
            let mut ch: Vec<Cst> = Vec::new();
            push_child(&mut ch, Cst::Token(t));
            push_child(&mut ch, Cst::Token(ut));
            proof {
                assert(crate::cst::cst_gs(ch@) =~= sp_symbol(c, i as int, loc).node->1);
            }
            (Cst::Compound { op: pop, children: ch }, e2, ul)
        }
    } else if matches!(k2, TokenKind::UnderDot) {
        let ut = ex_tok(input, tab, k2, e1, e2, t.src.end_loc);
        let ul = ut.src.end_loc;
        let mut ch: Vec<Cst> = Vec::new();
        push_child(&mut ch, Cst::Token(t));
        push_child(&mut ch, Cst::Token(ut));
        proof {
            assert(crate::cst::cst_gs(ch@) =~= sp_symbol(c, i as int, loc).node->1);
        }
        (Cst::Compound { op: CompoundOperator::PatternOptionalDefault, children: ch }, e2, ul)
    } else {
        let tl = t.src.end_loc;
        (Cst::Token(t), e1, tl)
    }
}

/// Parses a blank with a possible fused head; see [`sp_under`].
fn ex_under(input: &Vec<u8>, tab: u32, i: usize, loc: Location, op: CompoundOperator) -> (r: (
    Cst,
    usize,
    Location,
))
    requires
        i < input@.len(),
        tab >= 1,
    ensures
        ({
            let sp = sp_under(PIn { input: input@, tab }, i as int, loc, op);
            &&& crate::cst::cst_g(r.0) == sp.node
            &&& r.1 as int == sp.next
            &&& r.2 == sp.loc
        }),
        i < r.1 <= input@.len(),
{
    let ghost c = PIn { input: input@, tab };
    let (k1, e1) = crate::tokenize::ex_scan(input, i, false);
    let t = ex_tok(input, tab, k1, i, e1, loc);
    let (k2, e2) = crate::tokenize::ex_scan(input, e1, false);
    if matches!(k2, TokenKind::Symbol) {
        let ht = ex_tok(input, tab, k2, e1, e2, t.src.end_loc);
        let hl = ht.src.end_loc;
        let mut ch: Vec<Cst> = Vec::new();
        push_child(&mut ch, Cst::Token(t));
        push_child(&mut ch, Cst::Token(ht));
        proof {
            assert(crate::cst::cst_gs(ch@) =~= sp_under(c, i as int, loc, op).node->1);
        }
        (Cst::Compound { op, children: ch }, e2, hl)
    } else {
        let tl = t.src.end_loc;
        let mut ch: Vec<Cst> = Vec::new();
        push_child(&mut ch, Cst::Token(t));
        proof {
            assert(crate::cst::cst_gs(ch@) =~= sp_under(c, i as int, loc, op).node->1);
        }
        (Cst::Compound { op, children: ch }, e1, tl)
    }
}

/// Parses a slot or history reference with a possible fused index; see
/// [`sp_slot`].
fn ex_slot(
    input: &Vec<u8>,
    tab: u32,
    i: usize,
    loc: Location,
    op: CompoundOperator,
    names: bool,
) -> (r: (Cst, usize, Location))
    requires
        i < input@.len(),
        tab >= 1,
    ensures
        ({
            let sp = sp_slot(PIn { input: input@, tab }, i as int, loc, op, names);
            &&& crate::cst::cst_g(r.0) == sp.node
            &&& r.1 as int == sp.next
            &&& r.2 == sp.loc
        }),
        i < r.1 <= input@.len(),
{
    let ghost c = PIn { input: input@, tab };
    let (k1, e1) = crate::tokenize::ex_scan(input, i, false);
    let t = ex_tok(input, tab, k1, i, e1, loc);
    let (k2, e2) = crate::tokenize::ex_scan(input, e1, false);
    if matches!(k2, TokenKind::Integer) || (names && matches!(
        k2,
        TokenKind::Symbol | TokenKind::String,
    )) {
        let at = ex_tok(input, tab, k2, e1, e2, t.src.end_loc);
        let al = at.src.end_loc;
        let mut ch: Vec<Cst> = Vec::new();
        push_child(&mut ch, Cst::Token(t));
        push_child(&mut ch, Cst::Token(at));
        proof {
            assert(crate::cst::cst_gs(ch@) =~= sp_slot(c, i as int, loc, op, names).node->1);
        }
        (Cst::Compound { op, children: ch }, e2, al)
    } else {
        let tl = t.src.end_loc;
        let mut ch: Vec<Cst> = Vec::new();
        push_child(&mut ch, Cst::Token(t));
        proof {
            assert(crate::cst::cst_gs(ch@) =~= sp_slot(c, i as int, loc, op, names).node->1);
        }
        (Cst::Compound { op, children: ch }, e1, tl)
    }
}

/// Parses one expression; see [`sp_expr`].
pub fn ex_expr(
    input: &Vec<u8>,
    tab: u32,
    i: usize,
    loc: Location,
    min_prec: u32,
    closers: &mut Vec<TokenKind>,
) -> (r: (Cst, usize, Location))
    requires
        i <= input@.len(),
        tab >= 1,
    ensures
        ({
            let sp = sp_expr(PIn { input: input@, tab }, i as int, loc, min_prec, old(closers)@);
            &&& crate::cst::cst_g(r.0) == sp.node
            &&& r.1 as int == sp.next
            &&& r.2 == sp.loc
        }),
        final(closers)@ == old(closers)@,
        i <= r.1 <= input@.len(),
    decreases input@.len() - i, 5int,
{
    let ghost c = PIn { input: input@, tab };
    let (p0, p1, p2) = ex_prefix(input, tab, i, loc, closers);
    proof {
        assert(clampat(c, i as int, sp_prefix(c, i as int, loc, closers@).next) == p1 as int);
    }
    ex_loop(input, tab, p1, p2, p0, min_prec, closers)
}

/// Parses the prefix construct at `i`; see [`sp_prefix`].
pub fn ex_prefix(
    input: &Vec<u8>,
    tab: u32,
    i: usize,
    loc: Location,
    closers: &mut Vec<TokenKind>,
) -> (r: (Cst, usize, Location))
    requires
        i <= input@.len(),
        tab >= 1,
    ensures
        ({
            let sp = sp_prefix(PIn { input: input@, tab }, i as int, loc, old(closers)@);
            &&& crate::cst::cst_g(r.0) == sp.node
            &&& r.1 as int == sp.next
            &&& r.2 == sp.loc
        }),
        final(closers)@ == old(closers)@,
        i <= r.1 <= input@.len(),
    decreases input@.len() - i, 2int,
{
    let ghost c = PIn { input: input@, tab };
    if i >= input.len() {
        return (Cst::Token(ex_ztok(TokenKind::Error_ExpectedOperand, loc)), i, loc);
    }
    let (kind, e) = crate::tokenize::ex_scan(input, i, false);
    let role = ex_prefix_role(kind);
    match role {
        PrefixRole::LeafP | PrefixRole::ErrorLeafP => {
            let t = ex_tok(input, tab, kind, i, e, loc);
            let tl = t.src.end_loc;
            (Cst::Token(t), e, tl)
        },
        PrefixRole::OpP(prec, op) => {
            let t = ex_tok(input, tab, kind, i, e, loc);
            let (trv, t1, l1) = ex_trivia(input, tab, e, t.src.end_loc, true);
            let (rhs, r1, rl) = ex_expr(input, tab, t1, l1, prec, closers);
            let mut ch: Vec<Cst> = Vec::new();
            push_child(&mut ch, Cst::Token(t));
            append_children(&mut ch, trv);
            let ghost grhs = crate::cst::cst_g(rhs);
            push_child(&mut ch, rhs);
            proof {
                let sp = sp_prefix(c, i as int, loc, old(closers)@);
                let tr = sp_trivia(c, e as int, loc_after(
                    loc,
                    input@.subrange(i as int, e as int),
                    tab,
                ), true);
                assert(clampat(c, e as int, tr.next) == t1 as int);
                assert(crate::cst::cst_gs(ch@) =~= seq![
                    GCst::Leaf(crate::cst::tok_g(t)),
                ] + tr.toks + seq![grhs]);
            }
            (Cst::Prefix { op, children: ch }, r1, rl)
        },
        PrefixRole::GroupP(gop, closerk) => {
            proof {
                assert(!(closerk is EndOfFile));
            }
            ex_group(input, tab, i, loc, gop, closerk, closers)
        },
        PrefixRole::SymbolP => {
            let (n, j, l) = ex_symbol(input, tab, i, loc);
            (n, j, l)
        },
        PrefixRole::UnderP(op) => {
            let (n, j, l) = ex_under(input, tab, i, loc, op);
            (n, j, l)
        },
        PrefixRole::HashP => {
            let (n, j, l) = ex_slot(input, tab, i, loc, CompoundOperator::Slot, true);
            (n, j, l)
        },
        PrefixRole::HashHashP => {
            let (n, j, l) = ex_slot(input, tab, i, loc, CompoundOperator::SlotSequence, false);
            (n, j, l)
        },
        PrefixRole::PercentP => {
            if matches!(kind, TokenKind::Percent) {
                let (n, j, l) = ex_slot(input, tab, i, loc, CompoundOperator::Out, false);
                (n, j, l)
            } else {
                let t = ex_tok(input, tab, kind, i, e, loc);
                let tl = t.src.end_loc;
                let mut ch: Vec<Cst> = Vec::new();
                push_child(&mut ch, Cst::Token(t));
                proof {
                    assert(crate::cst::cst_gs(ch@) =~= seq![GCst::Leaf(crate::cst::tok_g(t))]);
                }
                (Cst::Compound { op: CompoundOperator::Out, children: ch }, e, tl)
            }
        },
        PrefixRole::SemiSemiP => {
            (Cst::Token(ex_ztok(TokenKind::Fake_ImplicitOne, loc)), i, loc)
        },
        PrefixRole::LessLessP => {
            let t = ex_tok(input, tab, kind, i, e, loc);
            let (trv, t1, l1) = ex_trivia(input, tab, e, t.src.end_loc, true);
            let (fk, fe) = crate::tokenize::ex_scan_file(input, t1);
            let ft = ex_tok(input, tab, fk, t1, fe, l1);
            let fl = ft.src.end_loc;
            let mut ch: Vec<Cst> = Vec::new();
            push_child(&mut ch, Cst::Token(t));
            append_children(&mut ch, trv);
            push_child(&mut ch, Cst::Token(ft));
            proof {
                let tr = sp_trivia(c, e as int, loc_after(
                    loc,
                    input@.subrange(i as int, e as int),
                    tab,
                ), true);
                assert(clampat(c, e as int, tr.next) == t1 as int);
                assert(crate::cst::cst_gs(ch@) =~= seq![
                    GCst::Leaf(crate::cst::tok_g(t)),
                ] + tr.toks + seq![GCst::Leaf(crate::cst::tok_g(ft))]);
            }
            (Cst::Prefix { op: PrefixOperator::Get, children: ch }, fe, fl)
        },
        PrefixRole::CloserP => {
            let mut found = false;
            let mut k: usize = 0;
            while k < closers.len()
                invariant
                    k <= closers@.len(),
                    found == exists|m: int| 0 <= m < k && closers@[m] == kind,
                decreases closers@.len() - k,
            {
                if closers[k] == kind {
                    found = true;
                }
                k = k + 1;
            }
            proof {
                assert(found == closers@.contains(kind));
            }
            if found {
                (Cst::Token(ex_ztok(TokenKind::Error_ExpectedOperand, loc)), i, loc)
            } else {
                let t0 = ex_tok(input, tab, kind, i, e, loc);
                let t = Token {
                    tok: TokenKind::Error_UnexpectedCloser,
                    text: t0.text,
                    src: t0.src,
                };
                let tl = t.src.end_loc;
                (Cst::Token(t), e, tl)
            }
        },
        PrefixRole::CommaP | PrefixRole::EofP | PrefixRole::UnhandledP => {
            (Cst::Token(ex_ztok(TokenKind::Error_ExpectedOperand, loc)), i, loc)
        },
    }
}

/// The prefix role of a token kind, executably.
fn ex_prefix_role(k: TokenKind) -> (r: PrefixRole)
    ensures
        r == prefix_role(k),
{
    match k {
        TokenKind::Integer | TokenKind::Real | TokenKind::String | TokenKind::UnderDot
            => PrefixRole::LeafP,
        TokenKind::PercentPercent | TokenKind::Percent => PrefixRole::PercentP,
        TokenKind::Symbol => PrefixRole::SymbolP,
        TokenKind::Under => PrefixRole::UnderP(CompoundOperator::Blank),
        TokenKind::UnderUnder => PrefixRole::UnderP(CompoundOperator::BlankSequence),
        TokenKind::UnderUnderUnder => PrefixRole::UnderP(CompoundOperator::BlankNullSequence),
        TokenKind::Hash => PrefixRole::HashP,
        TokenKind::HashHash => PrefixRole::HashHashP,
        TokenKind::Minus => PrefixRole::OpP(PREC_PREFIX_MINUS, PrefixOperator::Minus),
        TokenKind::Plus => PrefixRole::OpP(PREC_PREFIX_MINUS, PrefixOperator::Plus),
        TokenKind::Bang => PrefixRole::OpP(PREC_NOT, PrefixOperator::Not),
        TokenKind::BangBang => PrefixRole::OpP(PREC_NOT, PrefixOperator::Not2),
        TokenKind::PlusPlus => PrefixRole::OpP(PREC_PLUSPLUS, PrefixOperator::PreIncrement),
        TokenKind::MinusMinus => PrefixRole::OpP(PREC_PLUSPLUS, PrefixOperator::PreDecrement),
        TokenKind::LongName_Not => PrefixRole::OpP(PREC_NOT, PrefixOperator::Not),
        TokenKind::OpenParen => PrefixRole::GroupP(GroupOperator::Paren, TokenKind::CloseParen),
        TokenKind::OpenSquare => PrefixRole::GroupP(GroupOperator::Square, TokenKind::CloseSquare),
        TokenKind::OpenCurly => PrefixRole::GroupP(GroupOperator::List, TokenKind::CloseCurly),
        TokenKind::LessBar => PrefixRole::GroupP(
            GroupOperator::Association,
            TokenKind::BarGreater,
        ),
        TokenKind::CloseParen | TokenKind::CloseSquare | TokenKind::CloseCurly
            | TokenKind::BarGreater => PrefixRole::CloserP,
        TokenKind::Comma => PrefixRole::CommaP,
        TokenKind::SemiSemi => PrefixRole::SemiSemiP,
        TokenKind::LessLess => PrefixRole::LessLessP,
        TokenKind::EndOfFile => PrefixRole::EofP,
        TokenKind::Error_ExpectedOperand | TokenKind::Error_UnhandledCharacter
            | TokenKind::Error_Number | TokenKind::Error_ExpectedLetterlike
            | TokenKind::Error_ExpectedTag | TokenKind::Error_ExpectedFile
            | TokenKind::Error_UnterminatedComment | TokenKind::Error_UnterminatedString
            | TokenKind::Error_UnexpectedCloser | TokenKind::Error_UnsafeCharacterEncoding
            | TokenKind::Error_UnexpectedCommentCloser | TokenKind::Error_InfixImplicitNull
            | TokenKind::Unknown | TokenKind::Whitespace | TokenKind::InternalNewline
            | TokenKind::ToplevelNewline | TokenKind::Comment | TokenKind::Fake_ImplicitTimes
            | TokenKind::Fake_ImplicitNull | TokenKind::Fake_ImplicitOne
            | TokenKind::Fake_ImplicitAll | TokenKind::QuestionQuestion => PrefixRole::ErrorLeafP,
        _ => PrefixRole::UnhandledP,
    }
}

/// Parses a bracketed group; see [`sp_group`].
#[verifier::rlimit(100)]
#[verifier::spinoff_prover]
pub fn ex_group(
    input: &Vec<u8>,
    tab: u32,
    i: usize,
    loc: Location,
    gop: GroupOperator,
    closerk: TokenKind,
    closers: &mut Vec<TokenKind>,
) -> (r: (Cst, usize, Location))
    requires
        i < input@.len(),
        tab >= 1,
        !(closerk is EndOfFile),
    ensures
        ({
            let sp = sp_group(
                PIn { input: input@, tab },
                i as int,
                loc,
                gop,
                closerk,
                old(closers)@,
            );
            &&& crate::cst::cst_g(r.0) == sp.node
            &&& r.1 as int == sp.next
            &&& r.2 == sp.loc
        }),
        final(closers)@ == old(closers)@,
        i <= r.1 <= input@.len(),
    decreases input@.len() - i, 1int,
{
    let ghost c = PIn { input: input@, tab };
    let (kind, e) = crate::tokenize::ex_scan(input, i, false);
    let t = ex_tok(input, tab, kind, i, e, loc);
    let (trv, t1, l1) = ex_trivia(input, tab, e, t.src.end_loc, true);
    proof {
        let tr = sp_trivia(c, e as int, loc_after(loc, input@.subrange(i as int, e as int), tab), true);
        assert(clampat(c, e as int, tr.next) == t1 as int);
    }
    let (k2, e2) = crate::tokenize::ex_scan(input, t1, false);
    if k2 == closerk {
        let ct = ex_tok(input, tab, k2, t1, e2, l1);
        let cl = ct.src.end_loc;
        let mut ch: Vec<Cst> = Vec::new();
        push_child(&mut ch, Cst::Token(t));
        append_children(&mut ch, trv);
        push_child(&mut ch, Cst::Token(ct));
        proof {
            let tr = sp_trivia(c, e as int, loc_after(
                loc,
                input@.subrange(i as int, e as int),
                tab,
            ), true);
            assert(crate::cst::cst_gs(ch@) =~= seq![
                GCst::Leaf(crate::cst::tok_g(t)),
            ] + tr.toks + seq![GCst::Leaf(crate::cst::tok_g(ct))]);
        }
        (Cst::Group { op: gop, children: ch }, e2, cl)
    } else if t1 >= input.len() || matches!(
        k2,
        TokenKind::CloseParen | TokenKind::CloseSquare | TokenKind::CloseCurly
            | TokenKind::BarGreater,
    ) {
        let mut ch: Vec<Cst> = Vec::new();
        push_child(&mut ch, Cst::Token(t));
        append_children(&mut ch, trv);
        proof {
            let tr = sp_trivia(c, e as int, loc_after(
                loc,
                input@.subrange(i as int, e as int),
                tab,
            ), true);
            assert(crate::cst::cst_gs(ch@) =~= seq![GCst::Leaf(crate::cst::tok_g(t))] + tr.toks);
        }
        (Cst::GroupMissingCloser { op: gop, children: ch }, t1, l1)
    } else {
        closers.push(closerk);
        let (inner, i1, il) = ex_expr(input, tab, t1, l1, 1, closers);
        closers.pop();
        proof {
            assert(final(closers)@ =~= old(closers)@);
            assert(old(closers)@.push(closerk) == closers@.push(closerk));
            assert(clampat(c, t1 as int, i1 as int) == i1 as int);
        }
        let (trv2, t2, l2) = ex_trivia(input, tab, i1, il, true);
        proof {
            let sptr2 = sp_trivia(c, i1 as int, il, true);
            assert(clampat(c, i1 as int, sptr2.next) == t2 as int);
        }
        let (k3, e3) = crate::tokenize::ex_scan(input, t2, false);
        if k3 == closerk {
            let ct = ex_tok(input, tab, k3, t2, e3, l2);
            let cl = ct.src.end_loc;
            let mut ch: Vec<Cst> = Vec::new();
            push_child(&mut ch, Cst::Token(t));
            append_children(&mut ch, trv);
            let ghost ginner = crate::cst::cst_g(inner);
            push_child(&mut ch, inner);
            append_children(&mut ch, trv2);
            push_child(&mut ch, Cst::Token(ct));
            proof {
                let tr = sp_trivia(c, e as int, loc_after(
                    loc,
                    input@.subrange(i as int, e as int),
                    tab,
                ), true);
                let sptr2 = sp_trivia(c, i1 as int, il, true);
                assert(crate::cst::cst_gs(ch@) =~= seq![
                    GCst::Leaf(crate::cst::tok_g(t)),
                ] + tr.toks + seq![ginner] + sptr2.toks + seq![
                    GCst::Leaf(crate::cst::tok_g(ct)),
                ]);
            }
            (Cst::Group { op: gop, children: ch }, e3, cl)
        } else {
            let mut ch: Vec<Cst> = Vec::new();
            push_child(&mut ch, Cst::Token(t));
            append_children(&mut ch, trv);
            let ghost ginner = crate::cst::cst_g(inner);
            push_child(&mut ch, inner);
            append_children(&mut ch, trv2);
            proof {
                let tr = sp_trivia(c, e as int, loc_after(
                    loc,
                    input@.subrange(i as int, e as int),
                    tab,
                ), true);
                let sptr2 = sp_trivia(c, i1 as int, il, true);
                assert(crate::cst::cst_gs(ch@) =~= seq![
                    GCst::Leaf(crate::cst::tok_g(t)),
                ] + tr.toks + seq![ginner] + sptr2.toks);
            }
            (Cst::GroupMissingCloser { op: gop, children: ch }, t2, l2)
        }
    }
}

/// The infix role of a token kind, executably.
fn ex_infix_role(k: TokenKind) -> (r: InfixRole)
    ensures
        r == infix_role(k),
{
    match k {
        TokenKind::ToplevelNewline => InfixRole::NewlineI,
        TokenKind::Slash => InfixRole::BinaryI(PREC_DIVIDE, BinaryOperator::Divide, false),
        TokenKind::LongName_Divide => InfixRole::BinaryI(
            PREC_DIVIDE,
            BinaryOperator::Divide,
            false,
        ),
        TokenKind::Caret => InfixRole::BinaryI(PREC_POWER, BinaryOperator::Power, true),
        TokenKind::CaretEqual => InfixRole::BinaryI(PREC_SET, BinaryOperator::UpSet, true),
        TokenKind::CaretColonEqual => InfixRole::BinaryI(
            PREC_SET,
            BinaryOperator::UpSetDelayed,
            true,
        ),
        TokenKind::SlashAt => InfixRole::BinaryI(PREC_MAP, BinaryOperator::MapAt, true),
        TokenKind::SlashSlashAt => InfixRole::BinaryI(PREC_MAP, BinaryOperator::MapAll, true),
        TokenKind::AtAt => InfixRole::BinaryI(PREC_MAP, BinaryOperator::Apply, true),
        TokenKind::AtAtAt => InfixRole::BinaryI(PREC_MAP, BinaryOperator::MapApply, true),
        TokenKind::MinusGreater => InfixRole::BinaryI(PREC_RULE, BinaryOperator::Rule, true),
        TokenKind::LongName_Rule => InfixRole::BinaryI(PREC_RULE, BinaryOperator::Rule, true),
        TokenKind::ColonGreater => InfixRole::BinaryI(
            PREC_RULE,
            BinaryOperator::RuleDelayed,
            true,
        ),
        TokenKind::LongName_RuleDelayed => InfixRole::BinaryI(
            PREC_RULE,
            BinaryOperator::RuleDelayed,
            true,
        ),
        TokenKind::LessMinusGreater => InfixRole::BinaryI(
            PREC_RULE,
            BinaryOperator::TwoWayRule,
            true,
        ),
        TokenKind::LongName_Function => InfixRole::BinaryI(
            PREC_RULE,
            BinaryOperator::Function,
            true,
        ),
        TokenKind::SlashDot => InfixRole::BinaryI(
            PREC_REPLACEALL,
            BinaryOperator::ReplaceAll,
            false,
        ),
        TokenKind::SlashSlashDot => InfixRole::BinaryI(
            PREC_REPLACEALL,
            BinaryOperator::ReplaceRepeated,
            false,
        ),
        TokenKind::SlashSemi => InfixRole::BinaryI(
            PREC_CONDITION,
            BinaryOperator::Condition,
            false,
        ),
        TokenKind::PlusEqual => InfixRole::BinaryI(PREC_SET, BinaryOperator::AddTo, true),
        TokenKind::MinusEqual => InfixRole::BinaryI(PREC_SET, BinaryOperator::SubtractFrom, true),
        TokenKind::StarEqual => InfixRole::BinaryI(PREC_SET, BinaryOperator::TimesBy, true),
        TokenKind::SlashEqual => InfixRole::BinaryI(PREC_SET, BinaryOperator::DivideBy, true),
        TokenKind::SlashSlashEqual => InfixRole::BinaryI(PREC_SET, BinaryOperator::ApplyTo, true),
        TokenKind::At => InfixRole::BinaryI(PREC_AT, BinaryOperator::BinaryAt, true),
        TokenKind::SlashSlash => InfixRole::BinaryI(
            PREC_SLASHSLASH,
            BinaryOperator::BinarySlashSlash,
            false,
        ),
        TokenKind::Question => InfixRole::BinaryI(
            PREC_PATTERNTEST,
            BinaryOperator::PatternTest,
            false,
        ),
        TokenKind::LongName_Element => InfixRole::BinaryI(
            PREC_ELEMENT,
            BinaryOperator::Element,
            false,
        ),
        TokenKind::GreaterGreater => InfixRole::PutI(BinaryOperator::Put),
        TokenKind::GreaterGreaterGreater => InfixRole::PutI(BinaryOperator::PutAppend),
        TokenKind::Minus => InfixRole::ChainI(PREC_PLUS, InfixOperator::Plus),
        TokenKind::Plus => InfixRole::ChainI(PREC_PLUS, InfixOperator::Plus),
        TokenKind::EqualEqualEqual => InfixRole::ChainI(PREC_SAMEQ, InfixOperator::SameQ),
        TokenKind::EqualBangEqual => InfixRole::ChainI(PREC_SAMEQ, InfixOperator::UnsameQ),
        TokenKind::Dot => InfixRole::ChainI(PREC_DOT, InfixOperator::Dot),
        TokenKind::StarStar => InfixRole::ChainI(
            PREC_STARSTAR,
            InfixOperator::NonCommutativeMultiply,
        ),
        TokenKind::AmpAmp => InfixRole::ChainI(PREC_AND, InfixOperator::And),
        TokenKind::LongName_And => InfixRole::ChainI(PREC_AND, InfixOperator::And),
        TokenKind::BarBar => InfixRole::ChainI(PREC_OR, InfixOperator::Or),
        TokenKind::LongName_Or => InfixRole::ChainI(PREC_OR, InfixOperator::Or),
        TokenKind::Bar => InfixRole::ChainI(PREC_ALTERNATIVES, InfixOperator::Alternatives),
        TokenKind::LessGreater => InfixRole::ChainI(PREC_STRINGJOIN, InfixOperator::StringJoin),
        TokenKind::TildeTilde => InfixRole::ChainI(
            PREC_STRINGEXPR,
            InfixOperator::StringExpression,
        ),
        TokenKind::AtStar => InfixRole::ChainI(PREC_COMPOSITION, InfixOperator::Composition),
        TokenKind::SlashStar => InfixRole::ChainI(
            PREC_COMPOSITION,
            InfixOperator::RightComposition,
        ),
        TokenKind::Star => InfixRole::TimesI,
        TokenKind::LongName_Times => InfixRole::TimesI,
        TokenKind::Fake_ImplicitTimes => InfixRole::TimesI,
        TokenKind::EqualEqual | TokenKind::BangEqual | TokenKind::Less | TokenKind::LessEqual
            | TokenKind::Greater | TokenKind::GreaterEqual | TokenKind::LongName_Equal
            | TokenKind::LongName_NotEqual | TokenKind::LongName_LessEqual
            | TokenKind::LongName_GreaterEqual => InfixRole::InequalityI,
        TokenKind::Bang => InfixRole::PostfixI(PREC_FACTORIAL, PostfixOperator::Factorial),
        TokenKind::BangBang => InfixRole::PostfixI(PREC_FACTORIAL, PostfixOperator::Factorial2),
        TokenKind::Amp => InfixRole::PostfixI(PREC_AMP, PostfixOperator::Function),
        TokenKind::DotDot => InfixRole::PostfixI(PREC_REPEATED, PostfixOperator::Repeated),
        TokenKind::DotDotDot => InfixRole::PostfixI(PREC_REPEATED, PostfixOperator::RepeatedNull),
        TokenKind::MinusMinus => InfixRole::PostfixI(PREC_PLUSPLUS, PostfixOperator::Decrement),
        TokenKind::PlusPlus => InfixRole::PostfixI(PREC_PLUSPLUS, PostfixOperator::Increment),
        TokenKind::SingleQuote => InfixRole::PostfixI(
            PREC_DERIVATIVE,
            PostfixOperator::Derivative,
        ),
        TokenKind::OpenSquare => InfixRole::CallI,
        TokenKind::Comma => InfixRole::CommaI,
        TokenKind::Semi => InfixRole::SemiI,
        TokenKind::SemiSemi => InfixRole::SemiSemiI,
        TokenKind::Colon => InfixRole::ColonI,
        TokenKind::SlashColon => InfixRole::SlashColonI,
        TokenKind::Tilde => InfixRole::TildeI,
        TokenKind::Equal => InfixRole::EqualI,
        TokenKind::ColonEqual => InfixRole::ColonEqualI,
        TokenKind::EqualDot => InfixRole::UnsetI,
        TokenKind::ColonColon => InfixRole::ColonColonI,
        TokenKind::Symbol | TokenKind::Integer | TokenKind::Real | TokenKind::String
            | TokenKind::OpenParen | TokenKind::OpenCurly | TokenKind::LessBar
            | TokenKind::Under | TokenKind::UnderUnder | TokenKind::UnderUnderUnder
            | TokenKind::UnderDot | TokenKind::Hash | TokenKind::HashHash | TokenKind::Percent
            | TokenKind::PercentPercent | TokenKind::LessLess | TokenKind::LongName_Not
            => InfixRole::ImplicitTimesI,
        _ => InfixRole::NoneI,
    }
}

/// Collects trivia then parses an operand; see [`sp_operand`].
fn ex_operand(
    input: &Vec<u8>,
    tab: u32,
    i: usize,
    loc: Location,
    prec: u32,
    closers: &mut Vec<TokenKind>,
) -> (r: (Vec<Cst>, (Cst, usize, Location)))
    requires
        i <= input@.len(),
        tab >= 1,
    ensures
        ({
            let sp = sp_operand(PIn { input: input@, tab }, i as int, loc, prec, old(closers)@);
            &&& crate::cst::cst_gs(r.0@) == sp.0
            &&& crate::cst::cst_g(r.1.0) == sp.1.node
            &&& r.1.1 as int == sp.1.next
            &&& r.1.2 == sp.1.loc
        }),
        final(closers)@ == old(closers)@,
        i <= r.1.1 <= input@.len(),
    decreases input@.len() - i, 6int,
{
    let ghost c = PIn { input: input@, tab };
    let (trv, t1, l1) = ex_trivia(input, tab, i, loc, true);
    proof {
        assert(clampat(c, i as int, sp_trivia(c, i as int, loc, true).next) == t1 as int);
    }
    let (n, j, l) = ex_expr(input, tab, t1, l1, prec, closers);
    proof {
        assert(clampat(c, t1 as int, j as int) == j as int);
    }
    (trv, (n, j, l))
}

/// The children to extend with one more operand: the existing chain's
/// children when `lhs` is a chain of `op`, otherwise `lhs` alone.
fn chain_base(lhs: Cst, op: InfixOperator) -> (r: Vec<Cst>)
    ensures
        crate::cst::cst_gs(r@) == (match splice_class(crate::cst::cst_g(lhs), op) {
            Some(cs) => cs,
            None => seq![crate::cst::cst_g(lhs)],
        }),
{
    match lhs {
        Cst::Infix { op: o, children } => {
            if o == op {
                children
            } else {
                let ghost gl = crate::cst::cst_g(Cst::Infix { op: o, children: children });
                let mut v: Vec<Cst> = Vec::new();
                push_child(&mut v, Cst::Infix { op: o, children });
                proof {
                    assert(crate::cst::cst_gs(v@) =~= seq![gl]);
                }
                v
            }
        },
        other => {
            let mut v: Vec<Cst> = Vec::new();
            let ghost g = crate::cst::cst_g(other);
            push_child(&mut v, other);
            proof {
                assert(crate::cst::cst_gs(v@) =~= seq![g]);
            }
            v
        },
    }
}

/// Parses the infix continuations of `lhs`; see [`sp_loop`].
#[verifier::rlimit(100)]
#[verifier::spinoff_prover]
pub fn ex_loop(
    input: &Vec<u8>,
    tab: u32,
    i: usize,
    loc: Location,
    lhs: Cst,
    min_prec: u32,
    closers: &mut Vec<TokenKind>,
) -> (r: (Cst, usize, Location))
    requires
        i <= input@.len(),
        tab >= 1,
    ensures
        ({
            let sp = sp_loop(
                PIn { input: input@, tab },
                i as int,
                loc,
                crate::cst::cst_g(lhs),
                min_prec,
                old(closers)@,
            );
            &&& crate::cst::cst_g(r.0) == sp.node
            &&& r.1 as int == sp.next
            &&& r.2 == sp.loc
        }),
        final(closers)@ == old(closers)@,
        i <= r.1 <= input@.len(),
    decreases input@.len() - i, 4int,
{
    let ghost c = PIn { input: input@, tab };
    let ghost cls0 = closers@;
    let ghost g0 = crate::cst::cst_g(lhs);
    let mut cur = lhs;
    let mut ci = i;
    let mut cl = loc;
    loop
        invariant_except_break
            tab >= 1,
            c == (PIn { input: input@, tab }),
            i <= ci <= input@.len(),
            closers@ == cls0,
            sp_loop(c, i as int, loc, g0, min_prec, cls0) == sp_loop(
                c,
                ci as int,
                cl,
                crate::cst::cst_g(cur),
                min_prec,
                cls0,
            ),
        ensures
            closers@ == cls0,
            ({
                let sp = sp_loop(c, i as int, loc, g0, min_prec, cls0);
                &&& crate::cst::cst_g(cur) == sp.node
                &&& ci as int == sp.next
                &&& cl == sp.loc
            }),
            i <= ci <= input@.len(),
        decreases input@.len() - ci,
    {
        let ghost ci0 = ci as int;
        let ghost cl0 = cl;
        let ghost gcur0 = crate::cst::cst_g(cur);
        let nl_triv = closers.len() > 0;
        let (trv, t1, l1) = ex_trivia(input, tab, ci, cl, nl_triv);
        proof {
            assert(clampat(c, ci0, sp_trivia(c, ci0, cl0, nl_triv).next) == t1 as int);
        }
        if t1 >= input.len() {
            break;
        }
        let (kind, e2) = crate::tokenize::ex_scan(input, t1, closers.len() == 0);
        proof {
            assert(nxt(c, t1 as int, e2 as int) == e2 as int);
        }
        let role = ex_infix_role(kind);
        if matches!(role, InfixRole::NoneI | InfixRole::NewlineI) {
            break;
        }
        let step = match role {
            InfixRole::BinaryI(p, op, right) => ex_binary_step(
                input, tab, ci, cl, cur, min_prec, closers, trv, t1, l1, kind, e2, p, op, right,
            ),
            InfixRole::ChainI(p, op) => ex_chain_step(
                input, tab, ci, cl, cur, min_prec, closers, trv, t1, l1, kind, e2, p, op,
            ),
            InfixRole::PostfixI(p, op) => ex_postfix_step(
                input, tab, ci, cl, cur, min_prec, closers, trv, t1, l1, kind, e2, p, op,
            ),
            InfixRole::TimesI => ex_times_step(
                input, tab, ci, cl, cur, min_prec, closers, trv, t1, l1, kind, e2,
            ),
            InfixRole::InequalityI => ex_ineq_step(
                input, tab, ci, cl, cur, min_prec, closers, trv, t1, l1, kind, e2,
            ),
            InfixRole::ImplicitTimesI => ex_implicit_step(
                input, tab, ci, cl, cur, min_prec, closers, trv, t1, l1, kind, e2,
            ),
            InfixRole::CallI => ex_call_step(
                input, tab, ci, cl, cur, min_prec, closers, trv, t1, l1, kind, e2,
            ),
            InfixRole::UnsetI => ex_unset_step(
                input, tab, ci, cl, cur, min_prec, closers, trv, t1, l1, kind, e2,
            ),
            InfixRole::CommaI => ex_comma_step(
                input, tab, ci, cl, cur, min_prec, closers, trv, t1, l1, kind, e2,
            ),
            InfixRole::SemiI => ex_semi_step(
                input, tab, ci, cl, cur, min_prec, closers, trv, t1, l1, kind, e2,
            ),
            InfixRole::ColonI => ex_colon_step(
                input, tab, ci, cl, cur, min_prec, closers, trv, t1, l1, kind, e2,
            ),
            InfixRole::ColonEqualI => ex_colon_equal_step(
                input, tab, ci, cl, cur, min_prec, closers, trv, t1, l1, kind, e2,
            ),
            InfixRole::EqualI => ex_equal_step(
                input, tab, ci, cl, cur, min_prec, closers, trv, t1, l1, kind, e2,
            ),
            InfixRole::ColonColonI => ex_message_step(
                input, tab, ci, cl, cur, min_prec, closers, trv, t1, l1, kind, e2,
            ),
            InfixRole::PutI(op) => ex_put_step(
                input, tab, ci, cl, cur, min_prec, closers, trv, t1, l1, kind, e2, op,
            ),
            InfixRole::SemiSemiI => ex_span_step(
                input, tab, ci, cl, cur, min_prec, closers, trv, t1, l1, kind, e2,
            ),
            InfixRole::SlashColonI => ex_tag_step(
                input, tab, ci, cl, cur, min_prec, closers, trv, t1, l1, kind, e2,
            ),
            InfixRole::TildeI => ex_tilde_step(
                input, tab, ci, cl, cur, min_prec, closers, trv, t1, l1, kind, e2,
            ),
            InfixRole::NoneI | InfixRole::NewlineI => (true, cur, ci, cl),
        };
        let (done, n2, i2, l2) = step;
        cur = n2;
        ci = i2;
        cl = l2;
        if done {
            proof {
                assert(sp_loop(c, i as int, loc, g0, min_prec, cls0) == sp_loop(
                    c,
                    ci0,
                    cl0,
                    gcur0,
                    min_prec,
                    cls0,
                ));
            }
            break;
        }
    }
    (cur, ci, cl)
}


/// One infix continuation step; mirrors the corresponding arm of
/// [`sp_loop`].
#[verifier::rlimit(100)]
#[verifier::spinoff_prover]
fn ex_binary_step(
    input: &Vec<u8>,
    tab: u32,
    ci: usize,
    cl: Location,
    lhs: Cst,
    min_prec: u32,
    closers: &mut Vec<TokenKind>,
    trv: Vec<Cst>,
    t1: usize,
    l1: Location,
    kind: TokenKind,
    e2: usize, p: u32, op: BinaryOperator, right: bool,
) -> (r: (bool, Cst, usize, Location))
    requires
        tab >= 1,
        ci <= t1 < input@.len(),
        e2 <= input@.len(),
        infix_role(kind) matches InfixRole::BinaryI(..),
        infix_role(kind) == InfixRole::BinaryI(p, op, right),
        ({
            let c = PIn { input: input@, tab };
            let tr = sp_trivia(c, ci as int, cl, old(closers)@.len() > 0);
            &&& clampat(c, ci as int, tr.next) == t1 as int
            &&& crate::cst::cst_gs(trv@) == tr.toks
            &&& l1 == tr.loc
        }),
        scan(input@, t1 as int, old(closers)@.len() == 0) == (Scan {
            kind,
            end: e2 as int,
        }),
        t1 < e2,
    ensures
        final(closers)@ == old(closers)@,
        ({
            let c = PIn { input: input@, tab };
            let spold = sp_loop(
                c,
                ci as int,
                cl,
                crate::cst::cst_g(lhs),
                min_prec,
                old(closers)@,
            );
            if r.0 {
                &&& crate::cst::cst_g(r.1) == spold.node
                &&& r.2 as int == spold.next
                &&& r.3 == spold.loc
            } else {
                &&& spold == sp_loop(
                    c,
                    r.2 as int,
                    r.3,
                    crate::cst::cst_g(r.1),
                    min_prec,
                    old(closers)@,
                )
                &&& ci < r.2
            }
        }),
        r.2 <= input@.len(),
        ci <= r.2,
    decreases input@.len() - ci, 3int,
{
    let ghost c = PIn { input: input@, tab };
    let ghost cls0 = closers@;
    let ghost gl0 = crate::cst::cst_g(lhs);
    let ghost ci0 = ci as int;
    let ghost cl0 = cl;
    let nl_t = closers.len() > 0;
    if p < min_prec {
        return (true, lhs, ci, cl);
    }
    let ot = ex_tok(input, tab, kind, t1, e2, l1);
    let rp: u32 = if right {
        p
    } else {
        p + 1
    };
    let (trv2, rhs3) = ex_operand(input, tab, e2, ot.src.end_loc, rp, closers);
    let (rhs, r1, rl) = rhs3;
    let ghost grhs = crate::cst::cst_g(rhs);
    let mut ch: Vec<Cst> = Vec::new();
    push_child(&mut ch, lhs);
    append_children(&mut ch, trv);
    push_child(&mut ch, Cst::Token(ot));
    append_children(&mut ch, trv2);
    push_child(&mut ch, rhs);
    proof {
        let tr = sp_trivia(c, ci0, cl0, nl_t);
        let sop = sp_operand(
            c,
            e2 as int,
            crate::cst::tok_g(ot).span.end_loc,
            rp,
            cls0,
        );
        assert(crate::cst::cst_gs(ch@) =~= seq![gl0] + tr.toks + seq![
            GCst::Leaf(crate::cst::tok_g(ot)),
        ] + sop.0 + seq![grhs]);
    }
    let node = Cst::Binary { op, children: ch };
    proof {
        assert(clampat(c, e2 as int, r1 as int) == r1 as int);
        assert(sp_loop(c, ci0, cl0, gl0, min_prec, cls0) == sp_loop(
            c,
            r1 as int,
            rl,
            crate::cst::cst_g(node),
            min_prec,
            cls0,
        ));
    }
    return (false, node, r1, rl);
}

/// One infix continuation step; mirrors the corresponding arm of
/// [`sp_loop`].
#[verifier::rlimit(100)]
#[verifier::spinoff_prover]
fn ex_chain_step(
    input: &Vec<u8>,
    tab: u32,
    ci: usize,
    cl: Location,
    lhs: Cst,
    min_prec: u32,
    closers: &mut Vec<TokenKind>,
    trv: Vec<Cst>,
    t1: usize,
    l1: Location,
    kind: TokenKind,
    e2: usize, p: u32, op: InfixOperator,
) -> (r: (bool, Cst, usize, Location))
    requires
        tab >= 1,
        ci <= t1 < input@.len(),
        e2 <= input@.len(),
        infix_role(kind) matches InfixRole::ChainI(..),
        infix_role(kind) == InfixRole::ChainI(p, op),
        ({
            let c = PIn { input: input@, tab };
            let tr = sp_trivia(c, ci as int, cl, old(closers)@.len() > 0);
            &&& clampat(c, ci as int, tr.next) == t1 as int
            &&& crate::cst::cst_gs(trv@) == tr.toks
            &&& l1 == tr.loc
        }),
        scan(input@, t1 as int, old(closers)@.len() == 0) == (Scan {
            kind,
            end: e2 as int,
        }),
        t1 < e2,
    ensures
        final(closers)@ == old(closers)@,
        ({
            let c = PIn { input: input@, tab };
            let spold = sp_loop(
                c,
                ci as int,
                cl,
                crate::cst::cst_g(lhs),
                min_prec,
                old(closers)@,
            );
            if r.0 {
                &&& crate::cst::cst_g(r.1) == spold.node
                &&& r.2 as int == spold.next
                &&& r.3 == spold.loc
            } else {
                &&& spold == sp_loop(
                    c,
                    r.2 as int,
                    r.3,
                    crate::cst::cst_g(r.1),
                    min_prec,
                    old(closers)@,
                )
                &&& ci < r.2
            }
        }),
        r.2 <= input@.len(),
        ci <= r.2,
    decreases input@.len() - ci, 3int,
{
    let ghost c = PIn { input: input@, tab };
    let ghost cls0 = closers@;
    let ghost gl0 = crate::cst::cst_g(lhs);
    let ghost ci0 = ci as int;
    let ghost cl0 = cl;
    let nl_t = closers.len() > 0;
    if p < min_prec {
        return (true, lhs, ci, cl);
    }
    let ot = ex_tok(input, tab, kind, t1, e2, l1);
    let (trv2, rhs3) = ex_operand(input, tab, e2, ot.src.end_loc, p + 1, closers);
    let (rhs, r1, rl) = rhs3;
    let ghost grhs = crate::cst::cst_g(rhs);
    let mut ch = chain_base(lhs, op);
    append_children(&mut ch, trv);
    push_child(&mut ch, Cst::Token(ot));
    append_children(&mut ch, trv2);
    push_child(&mut ch, rhs);
    proof {
        let tr = sp_trivia(c, ci0, cl0, nl_t);
        let sop = sp_operand(
            c,
            e2 as int,
            crate::cst::tok_g(ot).span.end_loc,
            (p + 1) as u32,
            cls0,
        );
        let base = match splice_class(gl0, op) {
            Some(cs) => cs,
            None => seq![gl0],
        };
        assert(crate::cst::cst_gs(ch@) =~= base + tr.toks + seq![
            GCst::Leaf(crate::cst::tok_g(ot)),
        ] + sop.0 + seq![grhs]);
    }
    let node = Cst::Infix { op, children: ch };
    proof {
        assert(clampat(c, e2 as int, r1 as int) == r1 as int);
        assert(sp_loop(c, ci0, cl0, gl0, min_prec, cls0) == sp_loop(
            c,
            r1 as int,
            rl,
            crate::cst::cst_g(node),
            min_prec,
            cls0,
        ));
    }
    return (false, node, r1, rl);
}

/// One infix continuation step; mirrors the corresponding arm of
/// [`sp_loop`].
#[verifier::rlimit(100)]
#[verifier::spinoff_prover]
fn ex_postfix_step(
    input: &Vec<u8>,
    tab: u32,
    ci: usize,
    cl: Location,
    lhs: Cst,
    min_prec: u32,
    closers: &mut Vec<TokenKind>,
    trv: Vec<Cst>,
    t1: usize,
    l1: Location,
    kind: TokenKind,
    e2: usize, p: u32, op: PostfixOperator,
) -> (r: (bool, Cst, usize, Location))
    requires
        tab >= 1,
        ci <= t1 < input@.len(),
        e2 <= input@.len(),
        infix_role(kind) matches InfixRole::PostfixI(..),
        infix_role(kind) == InfixRole::PostfixI(p, op),
        ({
            let c = PIn { input: input@, tab };
            let tr = sp_trivia(c, ci as int, cl, old(closers)@.len() > 0);
            &&& clampat(c, ci as int, tr.next) == t1 as int
            &&& crate::cst::cst_gs(trv@) == tr.toks
            &&& l1 == tr.loc
        }),
        scan(input@, t1 as int, old(closers)@.len() == 0) == (Scan {
            kind,
            end: e2 as int,
        }),
        t1 < e2,
    ensures
        final(closers)@ == old(closers)@,
        ({
            let c = PIn { input: input@, tab };
            let spold = sp_loop(
                c,
                ci as int,
                cl,
                crate::cst::cst_g(lhs),
                min_prec,
                old(closers)@,
            );
            if r.0 {
                &&& crate::cst::cst_g(r.1) == spold.node
                &&& r.2 as int == spold.next
                &&& r.3 == spold.loc
            } else {
                &&& spold == sp_loop(
                    c,
                    r.2 as int,
                    r.3,
                    crate::cst::cst_g(r.1),
                    min_prec,
                    old(closers)@,
                )
                &&& ci < r.2
            }
        }),
        r.2 <= input@.len(),
        ci <= r.2,
    decreases input@.len() - ci, 3int,
{
    let ghost c = PIn { input: input@, tab };
    let ghost cls0 = closers@;
    let ghost gl0 = crate::cst::cst_g(lhs);
    let ghost ci0 = ci as int;
    let ghost cl0 = cl;
    let nl_t = closers.len() > 0;
    if p < min_prec {
        return (true, lhs, ci, cl);
    }
    let ot = ex_tok(input, tab, kind, t1, e2, l1);
    let ol = ot.src.end_loc;
    let mut ch: Vec<Cst> = Vec::new();
    push_child(&mut ch, lhs);
    append_children(&mut ch, trv);
    push_child(&mut ch, Cst::Token(ot));
    proof {
        let tr = sp_trivia(c, ci0, cl0, nl_t);
        assert(crate::cst::cst_gs(ch@) =~= seq![gl0] + tr.toks + seq![
            GCst::Leaf(crate::cst::tok_g(ot)),
        ]);
    }
    let node = Cst::Postfix { op, children: ch };
    proof {
        assert(sp_loop(c, ci0, cl0, gl0, min_prec, cls0) == sp_loop(
            c,
            e2 as int,
            ol,
            crate::cst::cst_g(node),
            min_prec,
            cls0,
        ));
    }
    return (false, node, e2, ol);
}

/// One infix continuation step; mirrors the corresponding arm of
/// [`sp_loop`].
#[verifier::rlimit(100)]
#[verifier::spinoff_prover]
fn ex_times_step(
    input: &Vec<u8>,
    tab: u32,
    ci: usize,
    cl: Location,
    lhs: Cst,
    min_prec: u32,
    closers: &mut Vec<TokenKind>,
    trv: Vec<Cst>,
    t1: usize,
    l1: Location,
    kind: TokenKind,
    e2: usize,
) -> (r: (bool, Cst, usize, Location))
    requires
        tab >= 1,
        ci <= t1 < input@.len(),
        e2 <= input@.len(),
        infix_role(kind) matches InfixRole::TimesI,
        ({
            let c = PIn { input: input@, tab };
            let tr = sp_trivia(c, ci as int, cl, old(closers)@.len() > 0);
            &&& clampat(c, ci as int, tr.next) == t1 as int
            &&& crate::cst::cst_gs(trv@) == tr.toks
            &&& l1 == tr.loc
        }),
        scan(input@, t1 as int, old(closers)@.len() == 0) == (Scan {
            kind,
            end: e2 as int,
        }),
        t1 < e2,
    ensures
        final(closers)@ == old(closers)@,
        ({
            let c = PIn { input: input@, tab };
            let spold = sp_loop(
                c,
                ci as int,
                cl,
                crate::cst::cst_g(lhs),
                min_prec,
                old(closers)@,
            );
            if r.0 {
                &&& crate::cst::cst_g(r.1) == spold.node
                &&& r.2 as int == spold.next
                &&& r.3 == spold.loc
            } else {
                &&& spold == sp_loop(
                    c,
                    r.2 as int,
                    r.3,
                    crate::cst::cst_g(r.1),
                    min_prec,
                    old(closers)@,
                )
                &&& ci < r.2
            }
        }),
        r.2 <= input@.len(),
        ci <= r.2,
    decreases input@.len() - ci, 3int,
{
    let ghost c = PIn { input: input@, tab };
    let ghost cls0 = closers@;
    let ghost gl0 = crate::cst::cst_g(lhs);
    let ghost ci0 = ci as int;
    let ghost cl0 = cl;
    let nl_t = closers.len() > 0;
    if PREC_TIMES < min_prec {
        return (true, lhs, ci, cl);
    }
    let ot = ex_tok(input, tab, kind, t1, e2, l1);
    let (trv2, rhs3) = ex_operand(
        input,
        tab,
        e2,
        ot.src.end_loc,
        PREC_TIMES + 1,
        closers,
    );
    let (rhs, r1, rl) = rhs3;
    let ghost grhs = crate::cst::cst_g(rhs);
    let mut ch = chain_base(lhs, InfixOperator::Times);
    append_children(&mut ch, trv);
    push_child(&mut ch, Cst::Token(ot));
    append_children(&mut ch, trv2);
    push_child(&mut ch, rhs);
    proof {
        let tr = sp_trivia(c, ci0, cl0, nl_t);
        let sop = sp_operand(
            c,
            e2 as int,
            crate::cst::tok_g(ot).span.end_loc,
            (PREC_TIMES + 1) as u32,
            cls0,
        );
        let base = match splice_class(gl0, InfixOperator::Times) {
            Some(cs) => cs,
            None => seq![gl0],
        };
        assert(crate::cst::cst_gs(ch@) =~= base + tr.toks + seq![
            GCst::Leaf(crate::cst::tok_g(ot)),
        ] + sop.0 + seq![grhs]);
    }
    let node = Cst::Infix { op: InfixOperator::Times, children: ch };
    proof {
        assert(clampat(c, e2 as int, r1 as int) == r1 as int);
        assert(sp_loop(c, ci0, cl0, gl0, min_prec, cls0) == sp_loop(
            c,
            r1 as int,
            rl,
            crate::cst::cst_g(node),
            min_prec,
            cls0,
        ));
    }
    return (false, node, r1, rl);
}

/// One infix continuation step; mirrors the corresponding arm of
/// [`sp_loop`].
#[verifier::rlimit(100)]
#[verifier::spinoff_prover]
fn ex_ineq_step(
    input: &Vec<u8>,
    tab: u32,
    ci: usize,
    cl: Location,
    lhs: Cst,
    min_prec: u32,
    closers: &mut Vec<TokenKind>,
    trv: Vec<Cst>,
    t1: usize,
    l1: Location,
    kind: TokenKind,
    e2: usize,
) -> (r: (bool, Cst, usize, Location))
    requires
        tab >= 1,
        ci <= t1 < input@.len(),
        e2 <= input@.len(),
        infix_role(kind) matches InfixRole::InequalityI,
        ({
            let c = PIn { input: input@, tab };
            let tr = sp_trivia(c, ci as int, cl, old(closers)@.len() > 0);
            &&& clampat(c, ci as int, tr.next) == t1 as int
            &&& crate::cst::cst_gs(trv@) == tr.toks
            &&& l1 == tr.loc
        }),
        scan(input@, t1 as int, old(closers)@.len() == 0) == (Scan {
            kind,
            end: e2 as int,
        }),
        t1 < e2,
    ensures
        final(closers)@ == old(closers)@,
        ({
            let c = PIn { input: input@, tab };
            let spold = sp_loop(
                c,
                ci as int,
                cl,
                crate::cst::cst_g(lhs),
                min_prec,
                old(closers)@,
            );
            if r.0 {
                &&& crate::cst::cst_g(r.1) == spold.node
                &&& r.2 as int == spold.next
                &&& r.3 == spold.loc
            } else {
                &&& spold == sp_loop(
                    c,
                    r.2 as int,
                    r.3,
                    crate::cst::cst_g(r.1),
                    min_prec,
                    old(closers)@,
                )
                &&& ci < r.2
            }
        }),
        r.2 <= input@.len(),
        ci <= r.2,
    decreases input@.len() - ci, 3int,
{
    let ghost c = PIn { input: input@, tab };
    let ghost cls0 = closers@;
    let ghost gl0 = crate::cst::cst_g(lhs);
    let ghost ci0 = ci as int;
    let ghost cl0 = cl;
    let nl_t = closers.len() > 0;
    if PREC_INEQUALITY < min_prec {
        return (true, lhs, ci, cl);
    }
    let ot = ex_tok(input, tab, kind, t1, e2, l1);
    let (trv2, rhs3) = ex_operand(
        input,
        tab,
        e2,
        ot.src.end_loc,
        PREC_INEQUALITY + 1,
        closers,
    );
    let (rhs, r1, rl) = rhs3;
    let ghost grhs = crate::cst::cst_g(rhs);
    let mut ch = chain_base(lhs, InfixOperator::InfixInequality);
    append_children(&mut ch, trv);
    push_child(&mut ch, Cst::Token(ot));
    append_children(&mut ch, trv2);
    push_child(&mut ch, rhs);
    proof {
        let tr = sp_trivia(c, ci0, cl0, nl_t);
        let sop = sp_operand(
            c,
            e2 as int,
            crate::cst::tok_g(ot).span.end_loc,
            (PREC_INEQUALITY + 1) as u32,
            cls0,
        );
        let base = match splice_class(gl0, InfixOperator::InfixInequality) {
            Some(cs) => cs,
            None => seq![gl0],
        };
        assert(crate::cst::cst_gs(ch@) =~= base + tr.toks + seq![
            GCst::Leaf(crate::cst::tok_g(ot)),
        ] + sop.0 + seq![grhs]);
    }
    let node = Cst::Infix { op: InfixOperator::InfixInequality, children: ch };
    proof {
        assert(clampat(c, e2 as int, r1 as int) == r1 as int);
        assert(sp_loop(c, ci0, cl0, gl0, min_prec, cls0) == sp_loop(
            c,
            r1 as int,
            rl,
            crate::cst::cst_g(node),
            min_prec,
            cls0,
        ));
    }
    return (false, node, r1, rl);
}

/// One infix continuation step; mirrors the corresponding arm of
/// [`sp_loop`].
#[verifier::rlimit(100)]
#[verifier::spinoff_prover]
fn ex_implicit_step(
    input: &Vec<u8>,
    tab: u32,
    ci: usize,
    cl: Location,
    lhs: Cst,
    min_prec: u32,
    closers: &mut Vec<TokenKind>,
    trv: Vec<Cst>,
    t1: usize,
    l1: Location,
    kind: TokenKind,
    e2: usize,
) -> (r: (bool, Cst, usize, Location))
    requires
        tab >= 1,
        ci <= t1 < input@.len(),
        e2 <= input@.len(),
        infix_role(kind) matches InfixRole::ImplicitTimesI,
        ({
            let c = PIn { input: input@, tab };
            let tr = sp_trivia(c, ci as int, cl, old(closers)@.len() > 0);
            &&& clampat(c, ci as int, tr.next) == t1 as int
            &&& crate::cst::cst_gs(trv@) == tr.toks
            &&& l1 == tr.loc
        }),
        scan(input@, t1 as int, old(closers)@.len() == 0) == (Scan {
            kind,
            end: e2 as int,
        }),
        t1 < e2,
    ensures
        final(closers)@ == old(closers)@,
        ({
            let c = PIn { input: input@, tab };
            let spold = sp_loop(
                c,
                ci as int,
                cl,
                crate::cst::cst_g(lhs),
                min_prec,
                old(closers)@,
            );
            if r.0 {
                &&& crate::cst::cst_g(r.1) == spold.node
                &&& r.2 as int == spold.next
                &&& r.3 == spold.loc
            } else {
                &&& spold == sp_loop(
                    c,
                    r.2 as int,
                    r.3,
                    crate::cst::cst_g(r.1),
                    min_prec,
                    old(closers)@,
                )
                &&& ci < r.2
            }
        }),
        r.2 <= input@.len(),
        ci <= r.2,
    decreases input@.len() - ci, 3int,
{
    let ghost c = PIn { input: input@, tab };
    let ghost cls0 = closers@;
    let ghost gl0 = crate::cst::cst_g(lhs);
    let ghost ci0 = ci as int;
    let ghost cl0 = cl;
    let nl_t = closers.len() > 0;
    if PREC_TIMES < min_prec {
        return (true, lhs, ci, cl);
    }
    let fake = ex_ztok(TokenKind::Fake_ImplicitTimes, l1);
    let (p0, p1, p2) = ex_prefix(input, tab, t1, l1, closers);
    let k1 = if p1 > t1 {
        p1
    } else {
        t1 + 1
    };
    proof {
        assert(k1 as int == (if t1 < sp_prefix(c, t1 as int, l1, cls0).next
            <= c.input.len() {
            sp_prefix(c, t1 as int, l1, cls0).next
        } else {
            t1 + 1
        }));
    }
    let (rhs, r1, rl) = ex_loop(input, tab, k1, p2, p0, PREC_TIMES + 1, closers);
    let ghost grhs = crate::cst::cst_g(rhs);
    let mut ch = chain_base(lhs, InfixOperator::Times);
    append_children(&mut ch, trv);
    push_child(&mut ch, Cst::Token(fake));
    push_child(&mut ch, rhs);
    proof {
        let tr = sp_trivia(c, ci0, cl0, nl_t);
        let base = match splice_class(gl0, InfixOperator::Times) {
            Some(cs) => cs,
            None => seq![gl0],
        };
        assert(crate::cst::cst_gs(ch@) =~= base + tr.toks + seq![
            GCst::Leaf(ztok(TokenKind::Fake_ImplicitTimes, l1)),
            grhs,
        ]);
    }
    let node = Cst::Infix { op: InfixOperator::Times, children: ch };
    let after = if r1 > k1 {
        r1
    } else {
        k1
    };
    proof {
        assert(after as int == clampat(c, k1 as int, r1 as int));
        assert(sp_loop(c, ci0, cl0, gl0, min_prec, cls0) == sp_loop(
            c,
            after as int,
            rl,
            crate::cst::cst_g(node),
            min_prec,
            cls0,
        ));
    }
    return (false, node, after, rl);
}

/// One infix continuation step; mirrors the corresponding arm of
/// [`sp_loop`].
#[verifier::rlimit(100)]
#[verifier::spinoff_prover]
fn ex_call_step(
    input: &Vec<u8>,
    tab: u32,
    ci: usize,
    cl: Location,
    lhs: Cst,
    min_prec: u32,
    closers: &mut Vec<TokenKind>,
    trv: Vec<Cst>,
    t1: usize,
    l1: Location,
    kind: TokenKind,
    e2: usize,
) -> (r: (bool, Cst, usize, Location))
    requires
        tab >= 1,
        ci <= t1 < input@.len(),
        e2 <= input@.len(),
        infix_role(kind) matches InfixRole::CallI,
        ({
            let c = PIn { input: input@, tab };
            let tr = sp_trivia(c, ci as int, cl, old(closers)@.len() > 0);
            &&& clampat(c, ci as int, tr.next) == t1 as int
            &&& crate::cst::cst_gs(trv@) == tr.toks
            &&& l1 == tr.loc
        }),
        scan(input@, t1 as int, old(closers)@.len() == 0) == (Scan {
            kind,
            end: e2 as int,
        }),
        t1 < e2,
    ensures
        final(closers)@ == old(closers)@,
        ({
            let c = PIn { input: input@, tab };
            let spold = sp_loop(
                c,
                ci as int,
                cl,
                crate::cst::cst_g(lhs),
                min_prec,
                old(closers)@,
            );
            if r.0 {
                &&& crate::cst::cst_g(r.1) == spold.node
                &&& r.2 as int == spold.next
                &&& r.3 == spold.loc
            } else {
                &&& spold == sp_loop(
                    c,
                    r.2 as int,
                    r.3,
                    crate::cst::cst_g(r.1),
                    min_prec,
                    old(closers)@,
                )
                &&& ci < r.2
            }
        }),
        r.2 <= input@.len(),
        ci <= r.2,
    decreases input@.len() - ci, 3int,
{
    let ghost c = PIn { input: input@, tab };
    let ghost cls0 = closers@;
    let ghost gl0 = crate::cst::cst_g(lhs);
    let ghost ci0 = ci as int;
    let ghost cl0 = cl;
    let nl_t = closers.len() > 0;
    if PREC_CALL < min_prec {
        return (true, lhs, ci, cl);
    }
    let (g, g1, gl) = ex_group(
        input,
        tab,
        t1,
        l1,
        GroupOperator::Square,
        TokenKind::CloseSquare,
        closers,
    );
    let ghost gg = crate::cst::cst_g(g);
    let after = if g1 > t1 {
        g1
    } else {
        t1 + 1
    };
    let mut ch: Vec<Cst> = Vec::new();
    push_child(&mut ch, lhs);
    append_children(&mut ch, trv);
    push_child(&mut ch, g);
    proof {
        let tr = sp_trivia(c, ci0, cl0, nl_t);
        assert(crate::cst::cst_gs(ch@) =~= seq![gl0] + tr.toks + seq![gg]);
    }
    let node = Cst::Call { children: ch };
    proof {
        assert(sp_loop(c, ci0, cl0, gl0, min_prec, cls0) == sp_loop(
            c,
            after as int,
            gl,
            crate::cst::cst_g(node),
            min_prec,
            cls0,
        ));
    }
    return (false, node, after, gl);
}

/// One infix continuation step; mirrors the corresponding arm of
/// [`sp_loop`].
#[verifier::rlimit(100)]
#[verifier::spinoff_prover]
fn ex_unset_step(
    input: &Vec<u8>,
    tab: u32,
    ci: usize,
    cl: Location,
    lhs: Cst,
    min_prec: u32,
    closers: &mut Vec<TokenKind>,
    trv: Vec<Cst>,
    t1: usize,
    l1: Location,
    kind: TokenKind,
    e2: usize,
) -> (r: (bool, Cst, usize, Location))
    requires
        tab >= 1,
        ci <= t1 < input@.len(),
        e2 <= input@.len(),
        infix_role(kind) matches InfixRole::UnsetI,
        ({
            let c = PIn { input: input@, tab };
            let tr = sp_trivia(c, ci as int, cl, old(closers)@.len() > 0);
            &&& clampat(c, ci as int, tr.next) == t1 as int
            &&& crate::cst::cst_gs(trv@) == tr.toks
            &&& l1 == tr.loc
        }),
        scan(input@, t1 as int, old(closers)@.len() == 0) == (Scan {
            kind,
            end: e2 as int,
        }),
        t1 < e2,
    ensures
        final(closers)@ == old(closers)@,
        ({
            let c = PIn { input: input@, tab };
            let spold = sp_loop(
                c,
                ci as int,
                cl,
                crate::cst::cst_g(lhs),
                min_prec,
                old(closers)@,
            );
            if r.0 {
                &&& crate::cst::cst_g(r.1) == spold.node
                &&& r.2 as int == spold.next
                &&& r.3 == spold.loc
            } else {
                &&& spold == sp_loop(
                    c,
                    r.2 as int,
                    r.3,
                    crate::cst::cst_g(r.1),
                    min_prec,
                    old(closers)@,
                )
                &&& ci < r.2
            }
        }),
        r.2 <= input@.len(),
        ci <= r.2,
    decreases input@.len() - ci, 3int,
{
    let ghost c = PIn { input: input@, tab };
    let ghost cls0 = closers@;
    let ghost gl0 = crate::cst::cst_g(lhs);
    let ghost ci0 = ci as int;
    let ghost cl0 = cl;
    let nl_t = closers.len() > 0;
    if PREC_SET < min_prec {
        return (true, lhs, ci, cl);
    }
    let ot = ex_tok(input, tab, kind, t1, e2, l1);
    let ol = ot.src.end_loc;
    let mut ch: Vec<Cst> = Vec::new();
    push_child(&mut ch, lhs);
    append_children(&mut ch, trv);
    push_child(&mut ch, Cst::Token(ot));
    proof {
        let tr = sp_trivia(c, ci0, cl0, nl_t);
        assert(crate::cst::cst_gs(ch@) =~= seq![gl0] + tr.toks + seq![
            GCst::Leaf(crate::cst::tok_g(ot)),
        ]);
    }
    let node = Cst::Binary { op: BinaryOperator::Unset, children: ch };
    proof {
        assert(sp_loop(c, ci0, cl0, gl0, min_prec, cls0) == sp_loop(
            c,
            e2 as int,
            ol,
            crate::cst::cst_g(node),
            min_prec,
            cls0,
        ));
    }
    return (false, node, e2, ol);
}

/// One infix continuation step; mirrors the corresponding arm of
/// [`sp_loop`].
#[verifier::rlimit(100)]
#[verifier::spinoff_prover]
fn ex_comma_step(
    input: &Vec<u8>,
    tab: u32,
    ci: usize,
    cl: Location,
    lhs: Cst,
    min_prec: u32,
    closers: &mut Vec<TokenKind>,
    trv: Vec<Cst>,
    t1: usize,
    l1: Location,
    kind: TokenKind,
    e2: usize,
) -> (r: (bool, Cst, usize, Location))
    requires
        tab >= 1,
        ci <= t1 < input@.len(),
        e2 <= input@.len(),
        kind is Comma,
        ({
            let c = PIn { input: input@, tab };
            let tr = sp_trivia(c, ci as int, cl, old(closers)@.len() > 0);
            &&& clampat(c, ci as int, tr.next) == t1 as int
            &&& crate::cst::cst_gs(trv@) == tr.toks
            &&& l1 == tr.loc
        }),
        scan(input@, t1 as int, old(closers)@.len() == 0) == (Scan {
            kind,
            end: e2 as int,
        }),
        t1 < e2,
    ensures
        final(closers)@ == old(closers)@,
        ({
            let c = PIn { input: input@, tab };
            let spold = sp_loop(
                c,
                ci as int,
                cl,
                crate::cst::cst_g(lhs),
                min_prec,
                old(closers)@,
            );
            if r.0 {
                &&& crate::cst::cst_g(r.1) == spold.node
                &&& r.2 as int == spold.next
                &&& r.3 == spold.loc
            } else {
                &&& spold == sp_loop(
                    c,
                    r.2 as int,
                    r.3,
                    crate::cst::cst_g(r.1),
                    min_prec,
                    old(closers)@,
                )
                &&& ci < r.2
            }
        }),
        r.2 <= input@.len(),
        ci <= r.2,
    decreases input@.len() - ci, 3int,
{
    let ghost c = PIn { input: input@, tab };
    let ghost cls0 = closers@;
    let ghost gcur0 = crate::cst::cst_g(lhs);
    let ghost ci0 = ci as int;
    let ghost cl0 = cl;
    if PREC_COMMA < min_prec {
        return (true, lhs, ci, cl);
    }
    let ot = ex_tok(input, tab, kind, t1, e2, l1);
    let (trv2, t3, l3) = ex_trivia(input, tab, e2, ot.src.end_loc, true);
    proof {
        assert(clampat(c, e2 as int, sp_trivia(
            c,
            e2 as int,
            crate::cst::tok_g(ot).span.end_loc,
            true,
        ).next) == t3 as int);
    }
    let (k3, _e3) = crate::tokenize::ex_scan(input, t3, false);
    if ex_begins_operand(k3) {
        let (rhs, r1, rl) = ex_expr(input, tab, t3, l3, PREC_COMMA + 1, closers);
        proof {
            assert(clampat(c, t3 as int, r1 as int) == r1 as int);
        }
        let ghost grhs = crate::cst::cst_g(rhs);
        let mut ch = chain_base(lhs, InfixOperator::Comma);
        append_children(&mut ch, trv);
        push_child(&mut ch, Cst::Token(ot));
        append_children(&mut ch, trv2);
        push_child(&mut ch, rhs);
        proof {
            let tr = sp_trivia(c, ci0, cl0, cls0.len() > 0);
            let tr2 = sp_trivia(c, e2 as int, crate::cst::tok_g(ot).span.end_loc, true);
            let base = match splice_class(gcur0, InfixOperator::Comma) {
                Some(cs) => cs,
                None => seq![gcur0],
            };
            assert(crate::cst::cst_gs(ch@) =~= base + tr.toks + seq![
                GCst::Leaf(crate::cst::tok_g(ot)),
            ] + tr2.toks + seq![grhs]);
        }
        let node = Cst::Infix { op: InfixOperator::Comma, children: ch };
        proof {
            assert(sp_loop(c, ci0, cl0, gcur0, min_prec, cls0) == sp_loop(
                c,
                r1 as int,
                rl,
                crate::cst::cst_g(node),
                min_prec,
                cls0,
            ));
        }
        (false, node, r1, rl)
    } else {
        let fake = ex_ztok(TokenKind::Error_InfixImplicitNull, l3);
        let mut ch = chain_base(lhs, InfixOperator::Comma);
        append_children(&mut ch, trv);
        push_child(&mut ch, Cst::Token(ot));
        append_children(&mut ch, trv2);
        push_child(&mut ch, Cst::Token(fake));
        proof {
            let tr = sp_trivia(c, ci0, cl0, cls0.len() > 0);
            let tr2 = sp_trivia(c, e2 as int, crate::cst::tok_g(ot).span.end_loc, true);
            let base = match splice_class(gcur0, InfixOperator::Comma) {
                Some(cs) => cs,
                None => seq![gcur0],
            };
            assert(crate::cst::cst_gs(ch@) =~= base + tr.toks + seq![
                GCst::Leaf(crate::cst::tok_g(ot)),
            ] + tr2.toks + seq![GCst::Leaf(ztok(TokenKind::Error_InfixImplicitNull, l3))]);
        }
        let node = Cst::Infix { op: InfixOperator::Comma, children: ch };
        proof {
            assert(sp_loop(c, ci0, cl0, gcur0, min_prec, cls0) == sp_loop(
                c,
                t3 as int,
                l3,
                crate::cst::cst_g(node),
                min_prec,
                cls0,
            ));
        }
        (false, node, t3, l3)
    }
}

/// One infix continuation step; mirrors the corresponding arm of
/// [`sp_loop`].
#[verifier::rlimit(100)]
#[verifier::spinoff_prover]
fn ex_semi_step(
    input: &Vec<u8>,
    tab: u32,
    ci: usize,
    cl: Location,
    lhs: Cst,
    min_prec: u32,
    closers: &mut Vec<TokenKind>,
    trv: Vec<Cst>,
    t1: usize,
    l1: Location,
    kind: TokenKind,
    e2: usize,
) -> (r: (bool, Cst, usize, Location))
    requires
        tab >= 1,
        ci <= t1 < input@.len(),
        e2 <= input@.len(),
        kind is Semi,
        ({
            let c = PIn { input: input@, tab };
            let tr = sp_trivia(c, ci as int, cl, old(closers)@.len() > 0);
            &&& clampat(c, ci as int, tr.next) == t1 as int
            &&& crate::cst::cst_gs(trv@) == tr.toks
            &&& l1 == tr.loc
        }),
        scan(input@, t1 as int, old(closers)@.len() == 0) == (Scan {
            kind,
            end: e2 as int,
        }),
        t1 < e2,
    ensures
        final(closers)@ == old(closers)@,
        ({
            let c = PIn { input: input@, tab };
            let spold = sp_loop(
                c,
                ci as int,
                cl,
                crate::cst::cst_g(lhs),
                min_prec,
                old(closers)@,
            );
            if r.0 {
                &&& crate::cst::cst_g(r.1) == spold.node
                &&& r.2 as int == spold.next
                &&& r.3 == spold.loc
            } else {
                &&& spold == sp_loop(
                    c,
                    r.2 as int,
                    r.3,
                    crate::cst::cst_g(r.1),
                    min_prec,
                    old(closers)@,
                )
                &&& ci < r.2
            }
        }),
        r.2 <= input@.len(),
        ci <= r.2,
    decreases input@.len() - ci, 3int,
{
    let ghost c = PIn { input: input@, tab };
    let ghost cls0 = closers@;
    let ghost gcur0 = crate::cst::cst_g(lhs);
    let ghost ci0 = ci as int;
    let ghost cl0 = cl;
    if PREC_SEMI < min_prec {
        return (true, lhs, ci, cl);
    }
    let ot = ex_tok(input, tab, kind, t1, e2, l1);
    let nl2 = closers.len() == 0;
    let (trv2, t3, l3) = ex_trivia(input, tab, e2, ot.src.end_loc, nl2);
    proof {
        assert(clampat(c, e2 as int, sp_trivia(
            c,
            e2 as int,
            crate::cst::tok_g(ot).span.end_loc,
            nl2,
        ).next) == t3 as int);
    }
    let (k3, _e3) = crate::tokenize::ex_scan(input, t3, closers.len() == 0);
    if ex_begins_operand(k3) {
        let (rhs, r1, rl) = ex_expr(input, tab, t3, l3, PREC_SEMI + 1, closers);
        proof {
            assert(clampat(c, t3 as int, r1 as int) == r1 as int);
        }
        let ghost grhs = crate::cst::cst_g(rhs);
        let mut ch = chain_base(lhs, InfixOperator::CompoundExpression);
        append_children(&mut ch, trv);
        push_child(&mut ch, Cst::Token(ot));
        append_children(&mut ch, trv2);
        push_child(&mut ch, rhs);
        proof {
            let tr = sp_trivia(c, ci0, cl0, cls0.len() > 0);
            let tr2 = sp_trivia(c, e2 as int, crate::cst::tok_g(ot).span.end_loc, nl2);
            let base = match splice_class(gcur0, InfixOperator::CompoundExpression) {
                Some(cs) => cs,
                None => seq![gcur0],
            };
            assert(crate::cst::cst_gs(ch@) =~= base + tr.toks + seq![
                GCst::Leaf(crate::cst::tok_g(ot)),
            ] + tr2.toks + seq![grhs]);
        }
        let node = Cst::Infix { op: InfixOperator::CompoundExpression, children: ch };
        proof {
            assert(sp_loop(c, ci0, cl0, gcur0, min_prec, cls0) == sp_loop(
                c,
                r1 as int,
                rl,
                crate::cst::cst_g(node),
                min_prec,
                cls0,
            ));
        }
        (false, node, r1, rl)
    } else {
        let ol = ot.src.end_loc;
        let fake = ex_ztok(TokenKind::Fake_ImplicitNull, ol);
        let mut ch = chain_base(lhs, InfixOperator::CompoundExpression);
        append_children(&mut ch, trv);
        push_child(&mut ch, Cst::Token(ot));
        push_child(&mut ch, Cst::Token(fake));
        proof {
            let tr = sp_trivia(c, ci0, cl0, cls0.len() > 0);
            let base = match splice_class(gcur0, InfixOperator::CompoundExpression) {
                Some(cs) => cs,
                None => seq![gcur0],
            };
            assert(crate::cst::cst_gs(ch@) =~= base + tr.toks + seq![
                GCst::Leaf(crate::cst::tok_g(ot)),
                GCst::Leaf(ztok(TokenKind::Fake_ImplicitNull, ol)),
            ]);
        }
        let node = Cst::Infix { op: InfixOperator::CompoundExpression, children: ch };
        proof {
            assert(sp_loop(c, ci0, cl0, gcur0, min_prec, cls0) == sp_loop(
                c,
                e2 as int,
                ol,
                crate::cst::cst_g(node),
                min_prec,
                cls0,
            ));
        }
        (false, node, e2, ol)
    }
}

/// One infix continuation step; mirrors the corresponding arm of
/// [`sp_loop`].
#[verifier::rlimit(100)]
#[verifier::spinoff_prover]
fn ex_colon_step(
    input: &Vec<u8>,
    tab: u32,
    ci: usize,
    cl: Location,
    lhs: Cst,
    min_prec: u32,
    closers: &mut Vec<TokenKind>,
    trv: Vec<Cst>,
    t1: usize,
    l1: Location,
    kind: TokenKind,
    e2: usize,
) -> (r: (bool, Cst, usize, Location))
    requires
        tab >= 1,
        ci <= t1 < input@.len(),
        e2 <= input@.len(),
        kind is Colon,
        ({
            let c = PIn { input: input@, tab };
            let tr = sp_trivia(c, ci as int, cl, old(closers)@.len() > 0);
            &&& clampat(c, ci as int, tr.next) == t1 as int
            &&& crate::cst::cst_gs(trv@) == tr.toks
            &&& l1 == tr.loc
        }),
        scan(input@, t1 as int, old(closers)@.len() == 0) == (Scan {
            kind,
            end: e2 as int,
        }),
        t1 < e2,
    ensures
        final(closers)@ == old(closers)@,
        ({
            let c = PIn { input: input@, tab };
            let spold = sp_loop(
                c,
                ci as int,
                cl,
                crate::cst::cst_g(lhs),
                min_prec,
                old(closers)@,
            );
            if r.0 {
                &&& crate::cst::cst_g(r.1) == spold.node
                &&& r.2 as int == spold.next
                &&& r.3 == spold.loc
            } else {
                &&& spold == sp_loop(
                    c,
                    r.2 as int,
                    r.3,
                    crate::cst::cst_g(r.1),
                    min_prec,
                    old(closers)@,
                )
                &&& ci < r.2
            }
        }),
        r.2 <= input@.len(),
        ci <= r.2,
    decreases input@.len() - ci, 3int,
{
    let ghost c = PIn { input: input@, tab };
    let ghost cls0 = closers@;
    let ghost gcur0 = crate::cst::cst_g(lhs);
    let ghost ci0 = ci as int;
    let ghost cl0 = cl;
    if PREC_COLON < min_prec {
        return (true, lhs, ci, cl);
    }
    let op = match &lhs {
        Cst::Compound { op: co, .. } => match co {
            CompoundOperator::Blank | CompoundOperator::BlankSequence
                | CompoundOperator::BlankNullSequence | CompoundOperator::PatternBlank
                | CompoundOperator::PatternBlankSequence
                | CompoundOperator::PatternBlankNullSequence => BinaryOperator::Optional,
            _ => BinaryOperator::Pattern,
        },
        _ => BinaryOperator::Pattern,
    };
    let ot = ex_tok(input, tab, kind, t1, e2, l1);
    let (trv2, rhs3) = ex_operand(input, tab, e2, ot.src.end_loc, PREC_COLON, closers);
    let (rhs, r1, rl) = rhs3;
    let ghost grhs = crate::cst::cst_g(rhs);
    let mut ch: Vec<Cst> = Vec::new();
    push_child(&mut ch, lhs);
    append_children(&mut ch, trv);
    push_child(&mut ch, Cst::Token(ot));
    append_children(&mut ch, trv2);
    push_child(&mut ch, rhs);
    proof {
        let tr = sp_trivia(c, ci0, cl0, cls0.len() > 0);
        let sop = sp_operand(
            c,
            e2 as int,
            crate::cst::tok_g(ot).span.end_loc,
            PREC_COLON,
            cls0,
        );
        assert(crate::cst::cst_gs(ch@) =~= seq![gcur0] + tr.toks + seq![
            GCst::Leaf(crate::cst::tok_g(ot)),
        ] + sop.0 + seq![grhs]);
    }
    let node = Cst::Binary { op, children: ch };
    proof {
        assert(clampat(c, e2 as int, r1 as int) == r1 as int);
        assert(sp_loop(c, ci0, cl0, gcur0, min_prec, cls0) == sp_loop(
            c,
            r1 as int,
            rl,
            crate::cst::cst_g(node),
            min_prec,
            cls0,
        ));
    }
    (false, node, r1, rl)
}

/// One infix continuation step; mirrors the corresponding arm of
/// [`sp_loop`].
#[verifier::rlimit(100)]
#[verifier::spinoff_prover]
fn ex_colon_equal_step(
    input: &Vec<u8>,
    tab: u32,
    ci: usize,
    cl: Location,
    lhs: Cst,
    min_prec: u32,
    closers: &mut Vec<TokenKind>,
    trv: Vec<Cst>,
    t1: usize,
    l1: Location,
    kind: TokenKind,
    e2: usize,
) -> (r: (bool, Cst, usize, Location))
    requires
        tab >= 1,
        ci <= t1 < input@.len(),
        e2 <= input@.len(),
        kind is ColonEqual,
        ({
            let c = PIn { input: input@, tab };
            let tr = sp_trivia(c, ci as int, cl, old(closers)@.len() > 0);
            &&& clampat(c, ci as int, tr.next) == t1 as int
            &&& crate::cst::cst_gs(trv@) == tr.toks
            &&& l1 == tr.loc
        }),
        scan(input@, t1 as int, old(closers)@.len() == 0) == (Scan {
            kind,
            end: e2 as int,
        }),
        t1 < e2,
    ensures
        final(closers)@ == old(closers)@,
        ({
            let c = PIn { input: input@, tab };
            let spold = sp_loop(
                c,
                ci as int,
                cl,
                crate::cst::cst_g(lhs),
                min_prec,
                old(closers)@,
            );
            if r.0 {
                &&& crate::cst::cst_g(r.1) == spold.node
                &&& r.2 as int == spold.next
                &&& r.3 == spold.loc
            } else {
                &&& spold == sp_loop(
                    c,
                    r.2 as int,
                    r.3,
                    crate::cst::cst_g(r.1),
                    min_prec,
                    old(closers)@,
                )
                &&& ci < r.2
            }
        }),
        r.2 <= input@.len(),
        ci <= r.2,
    decreases input@.len() - ci, 3int,
{
    let ghost c = PIn { input: input@, tab };
    let ghost cls0 = closers@;
    let ghost gcur0 = crate::cst::cst_g(lhs);
    let ghost ci0 = ci as int;
    let ghost cl0 = cl;
    if PREC_SET < min_prec {
        return (true, lhs, ci, cl);
    }
    let ot = ex_tok(input, tab, kind, t1, e2, l1);
    let (trv2, rhs3) = ex_operand(input, tab, e2, ot.src.end_loc, PREC_SET, closers);
    let (rhs, r1, rl) = rhs3;
    let ghost grhs = crate::cst::cst_g(rhs);
    let mut ch: Vec<Cst> = Vec::new();
    push_child(&mut ch, lhs);
    append_children(&mut ch, trv);
    push_child(&mut ch, Cst::Token(ot));
    append_children(&mut ch, trv2);
    push_child(&mut ch, rhs);
    proof {
        let tr = sp_trivia(c, ci0, cl0, cls0.len() > 0);
        let sop = sp_operand(
            c,
            e2 as int,
            crate::cst::tok_g(ot).span.end_loc,
            PREC_SET,
            cls0,
        );
        assert(crate::cst::cst_gs(ch@) =~= seq![gcur0] + tr.toks + seq![
            GCst::Leaf(crate::cst::tok_g(ot)),
        ] + sop.0 + seq![grhs]);
    }
    let node = Cst::Binary { op: BinaryOperator::AssignDelayed, children: ch };
    proof {
        assert(clampat(c, e2 as int, r1 as int) == r1 as int);
        assert(sp_loop(c, ci0, cl0, gcur0, min_prec, cls0) == sp_loop(
            c,
            r1 as int,
            rl,
            crate::cst::cst_g(node),
            min_prec,
            cls0,
        ));
    }
    (false, node, r1, rl)
}

/// One infix continuation step; mirrors the corresponding arm of
/// [`sp_loop`].
#[verifier::rlimit(100)]
#[verifier::spinoff_prover]
fn ex_equal_step(
    input: &Vec<u8>,
    tab: u32,
    ci: usize,
    cl: Location,
    lhs: Cst,
    min_prec: u32,
    closers: &mut Vec<TokenKind>,
    trv: Vec<Cst>,
    t1: usize,
    l1: Location,
    kind: TokenKind,
    e2: usize,
) -> (r: (bool, Cst, usize, Location))
    requires
        tab >= 1,
        ci <= t1 < input@.len(),
        e2 <= input@.len(),
        kind is Equal,
        ({
            let c = PIn { input: input@, tab };
            let tr = sp_trivia(c, ci as int, cl, old(closers)@.len() > 0);
            &&& clampat(c, ci as int, tr.next) == t1 as int
            &&& crate::cst::cst_gs(trv@) == tr.toks
            &&& l1 == tr.loc
        }),
        scan(input@, t1 as int, old(closers)@.len() == 0) == (Scan {
            kind,
            end: e2 as int,
        }),
        t1 < e2,
    ensures
        final(closers)@ == old(closers)@,
        ({
            let c = PIn { input: input@, tab };
            let spold = sp_loop(
                c,
                ci as int,
                cl,
                crate::cst::cst_g(lhs),
                min_prec,
                old(closers)@,
            );
            if r.0 {
                &&& crate::cst::cst_g(r.1) == spold.node
                &&& r.2 as int == spold.next
                &&& r.3 == spold.loc
            } else {
                &&& spold == sp_loop(
                    c,
                    r.2 as int,
                    r.3,
                    crate::cst::cst_g(r.1),
                    min_prec,
                    old(closers)@,
                )
                &&& ci < r.2
            }
        }),
        r.2 <= input@.len(),
        ci <= r.2,
    decreases input@.len() - ci, 3int,
{
    let ghost c = PIn { input: input@, tab };
    let ghost cls0 = closers@;
    let ghost gcur0 = crate::cst::cst_g(lhs);
    let ghost ci0 = ci as int;
    let ghost cl0 = cl;
    if PREC_SET < min_prec {
        return (true, lhs, ci, cl);
    }
    let ot = ex_tok(input, tab, kind, t1, e2, l1);
    let (trv2, t3, l3) = ex_trivia(input, tab, e2, ot.src.end_loc, true);
    proof {
        assert(clampat(c, e2 as int, sp_trivia(
            c,
            e2 as int,
            crate::cst::tok_g(ot).span.end_loc,
            true,
        ).next) == t3 as int);
    }
    let (k3, e3) = crate::tokenize::ex_scan(input, t3, false);
    if matches!(k3, TokenKind::Dot) && t3 < input.len() {
        let dt = ex_tok(input, tab, k3, t3, e3, l3);
        let dl = dt.src.end_loc;
        let mut ch: Vec<Cst> = Vec::new();
        push_child(&mut ch, lhs);
        append_children(&mut ch, trv);
        push_child(&mut ch, Cst::Token(ot));
        append_children(&mut ch, trv2);
        push_child(&mut ch, Cst::Token(dt));
        proof {
            let tr = sp_trivia(c, ci0, cl0, cls0.len() > 0);
            let tr2 = sp_trivia(c, e2 as int, crate::cst::tok_g(ot).span.end_loc, true);
            assert(crate::cst::cst_gs(ch@) =~= seq![gcur0] + tr.toks + seq![
                GCst::Leaf(crate::cst::tok_g(ot)),
            ] + tr2.toks + seq![GCst::Leaf(crate::cst::tok_g(dt))]);
        }
        let node = Cst::Binary { op: BinaryOperator::Unset, children: ch };
        proof {
            assert(sp_loop(c, ci0, cl0, gcur0, min_prec, cls0) == sp_loop(
                c,
                e3 as int,
                dl,
                crate::cst::cst_g(node),
                min_prec,
                cls0,
            ));
        }
        (false, node, e3, dl)
    } else {
        let (rhs, r1, rl) = ex_expr(input, tab, t3, l3, PREC_SET, closers);
        proof {
            assert(clampat(c, t3 as int, r1 as int) == r1 as int);
        }
        let ghost grhs = crate::cst::cst_g(rhs);
        let mut ch: Vec<Cst> = Vec::new();
        push_child(&mut ch, lhs);
        append_children(&mut ch, trv);
        push_child(&mut ch, Cst::Token(ot));
        append_children(&mut ch, trv2);
        push_child(&mut ch, rhs);
        proof {
            let tr = sp_trivia(c, ci0, cl0, cls0.len() > 0);
            let tr2 = sp_trivia(c, e2 as int, crate::cst::tok_g(ot).span.end_loc, true);
            assert(crate::cst::cst_gs(ch@) =~= seq![gcur0] + tr.toks + seq![
                GCst::Leaf(crate::cst::tok_g(ot)),
            ] + tr2.toks + seq![grhs]);
        }
        let node = Cst::Binary { op: BinaryOperator::Assign, children: ch };
        proof {
            assert(sp_loop(c, ci0, cl0, gcur0, min_prec, cls0) == sp_loop(
                c,
                r1 as int,
                rl,
                crate::cst::cst_g(node),
                min_prec,
                cls0,
            ));
        }
        (false, node, r1, rl)
    }
}

/// One infix continuation step; mirrors the corresponding arm of
/// [`sp_loop`].
#[verifier::rlimit(100)]
#[verifier::spinoff_prover]
fn ex_message_step(
    input: &Vec<u8>,
    tab: u32,
    ci: usize,
    cl: Location,
    lhs: Cst,
    min_prec: u32,
    closers: &mut Vec<TokenKind>,
    trv: Vec<Cst>,
    t1: usize,
    l1: Location,
    kind: TokenKind,
    e2: usize,
) -> (r: (bool, Cst, usize, Location))
    requires
        tab >= 1,
        ci <= t1 < input@.len(),
        e2 <= input@.len(),
        kind is ColonColon,
        ({
            let c = PIn { input: input@, tab };
            let tr = sp_trivia(c, ci as int, cl, old(closers)@.len() > 0);
            &&& clampat(c, ci as int, tr.next) == t1 as int
            &&& crate::cst::cst_gs(trv@) == tr.toks
            &&& l1 == tr.loc
        }),
        scan(input@, t1 as int, old(closers)@.len() == 0) == (Scan {
            kind,
            end: e2 as int,
        }),
        t1 < e2,
    ensures
        final(closers)@ == old(closers)@,
        ({
            let c = PIn { input: input@, tab };
            let spold = sp_loop(
                c,
                ci as int,
                cl,
                crate::cst::cst_g(lhs),
                min_prec,
                old(closers)@,
            );
            if r.0 {
                &&& crate::cst::cst_g(r.1) == spold.node
                &&& r.2 as int == spold.next
                &&& r.3 == spold.loc
            } else {
                &&& spold == sp_loop(
                    c,
                    r.2 as int,
                    r.3,
                    crate::cst::cst_g(r.1),
                    min_prec,
                    old(closers)@,
                )
                &&& ci < r.2
            }
        }),
        r.2 <= input@.len(),
        ci <= r.2,
    decreases input@.len() - ci, 3int,
{
    let ghost c = PIn { input: input@, tab };
    let ghost cls0 = closers@;
    let ghost gcur0 = crate::cst::cst_g(lhs);
    let ghost ci0 = ci as int;
    let ghost cl0 = cl;
    if PREC_MESSAGENAME < min_prec {
        return (true, lhs, ci, cl);
    }
    let ot = ex_tok(input, tab, kind, t1, e2, l1);
    let (tk, te) = crate::tokenize::ex_scan_tag(input, e2);
    let tt = ex_tok(input, tab, tk, e2, te, ot.src.end_loc);
    let tl = tt.src.end_loc;
    let mut ch = chain_base(lhs, InfixOperator::MessageName);
    append_children(&mut ch, trv);
    push_child(&mut ch, Cst::Token(ot));
    push_child(&mut ch, Cst::Token(tt));
    proof {
        let tr = sp_trivia(c, ci0, cl0, cls0.len() > 0);
        let tg = scan_tag(c.input, e2 as int);
        assert(te as int == (if e2 as int <= tg.end <= c.input.len() {
            tg.end
        } else {
            e2 as int
        }));
        let base = match splice_class(gcur0, InfixOperator::MessageName) {
            Some(cs) => cs,
            None => seq![gcur0],
        };
        assert(crate::cst::cst_gs(ch@) =~= base + tr.toks + seq![
            GCst::Leaf(crate::cst::tok_g(ot)),
            GCst::Leaf(crate::cst::tok_g(tt)),
        ]);
    }
    let node = Cst::Infix { op: InfixOperator::MessageName, children: ch };
    proof {
        assert(sp_loop(c, ci0, cl0, gcur0, min_prec, cls0) == sp_loop(
            c,
            te as int,
            tl,
            crate::cst::cst_g(node),
            min_prec,
            cls0,
        ));
    }
    (false, node, te, tl)
}

/// One infix continuation step; mirrors the corresponding arm of
/// [`sp_loop`].
#[verifier::rlimit(100)]
#[verifier::spinoff_prover]
fn ex_put_step(
    input: &Vec<u8>,
    tab: u32,
    ci: usize,
    cl: Location,
    lhs: Cst,
    min_prec: u32,
    closers: &mut Vec<TokenKind>,
    trv: Vec<Cst>,
    t1: usize,
    l1: Location,
    kind: TokenKind,
    e2: usize, op: BinaryOperator,
) -> (r: (bool, Cst, usize, Location))
    requires
        tab >= 1,
        ci <= t1 < input@.len(),
        e2 <= input@.len(),
        infix_role(kind) == InfixRole::PutI(op),
        ({
            let c = PIn { input: input@, tab };
            let tr = sp_trivia(c, ci as int, cl, old(closers)@.len() > 0);
            &&& clampat(c, ci as int, tr.next) == t1 as int
            &&& crate::cst::cst_gs(trv@) == tr.toks
            &&& l1 == tr.loc
        }),
        scan(input@, t1 as int, old(closers)@.len() == 0) == (Scan {
            kind,
            end: e2 as int,
        }),
        t1 < e2,
    ensures
        final(closers)@ == old(closers)@,
        ({
            let c = PIn { input: input@, tab };
            let spold = sp_loop(
                c,
                ci as int,
                cl,
                crate::cst::cst_g(lhs),
                min_prec,
                old(closers)@,
            );
            if r.0 {
                &&& crate::cst::cst_g(r.1) == spold.node
                &&& r.2 as int == spold.next
                &&& r.3 == spold.loc
            } else {
                &&& spold == sp_loop(
                    c,
                    r.2 as int,
                    r.3,
                    crate::cst::cst_g(r.1),
                    min_prec,
                    old(closers)@,
                )
                &&& ci < r.2
            }
        }),
        r.2 <= input@.len(),
        ci <= r.2,
    decreases input@.len() - ci, 3int,
{
    let ghost c = PIn { input: input@, tab };
    let ghost cls0 = closers@;
    let ghost gcur0 = crate::cst::cst_g(lhs);
    let ghost ci0 = ci as int;
    let ghost cl0 = cl;
    if PREC_PUT < min_prec {
        return (true, lhs, ci, cl);
    }
    let ot = ex_tok(input, tab, kind, t1, e2, l1);
    let (trv2, t3, l3) = ex_trivia(input, tab, e2, ot.src.end_loc, true);
    proof {
        assert(clampat(c, e2 as int, sp_trivia(
            c,
            e2 as int,
            crate::cst::tok_g(ot).span.end_loc,
            true,
        ).next) == t3 as int);
    }
    let (fk, fe) = crate::tokenize::ex_scan_file(input, t3);
    let ft = ex_tok(input, tab, fk, t3, fe, l3);
    let fl = ft.src.end_loc;
    let mut ch: Vec<Cst> = Vec::new();
    push_child(&mut ch, lhs);
    append_children(&mut ch, trv);
    push_child(&mut ch, Cst::Token(ot));
    append_children(&mut ch, trv2);
    push_child(&mut ch, Cst::Token(ft));
    proof {
        let tr = sp_trivia(c, ci0, cl0, cls0.len() > 0);
        let tr2 = sp_trivia(c, e2 as int, crate::cst::tok_g(ot).span.end_loc, true);
        let f = scan_file(c.input, t3 as int);
        assert(fe as int == (if t3 as int <= f.end <= c.input.len() {
            f.end
        } else {
            t3 as int
        }));
        assert(crate::cst::cst_gs(ch@) =~= seq![gcur0] + tr.toks + seq![
            GCst::Leaf(crate::cst::tok_g(ot)),
        ] + tr2.toks + seq![GCst::Leaf(crate::cst::tok_g(ft))]);
    }
    let node = Cst::Binary { op, children: ch };
    proof {
        assert(sp_loop(c, ci0, cl0, gcur0, min_prec, cls0) == sp_loop(
            c,
            fe as int,
            fl,
            crate::cst::cst_g(node),
            min_prec,
            cls0,
        ));
    }
    (false, node, fe, fl)
}

/// Whether a token kind can begin an operand, executably.
fn ex_begins_operand(k: TokenKind) -> (r: bool)
    ensures
        r == begins_operand(k),
{
    let role = ex_prefix_role(k);
    match role {
        PrefixRole::LeafP | PrefixRole::OpP(_, _) | PrefixRole::GroupP(_, _)
            | PrefixRole::SymbolP | PrefixRole::UnderP(_) | PrefixRole::HashP
            | PrefixRole::HashHashP | PrefixRole::PercentP | PrefixRole::SemiSemiP
            | PrefixRole::LessLessP => true,
        PrefixRole::ErrorLeafP => matches!(
            k,
            TokenKind::Error_ExpectedOperand | TokenKind::Error_UnhandledCharacter
                | TokenKind::Error_Number | TokenKind::Error_ExpectedLetterlike
                | TokenKind::Error_ExpectedTag | TokenKind::Error_ExpectedFile
                | TokenKind::Error_UnterminatedComment | TokenKind::Error_UnterminatedString
                | TokenKind::Error_UnexpectedCloser | TokenKind::Error_UnsafeCharacterEncoding
                | TokenKind::Error_UnexpectedCommentCloser | TokenKind::Error_InfixImplicitNull,
        ),
        _ => false,
    }
}

/// The span step `a ;; b` or `a ;; b ;; c`; see the span arm of
/// [`sp_loop`].
#[verifier::rlimit(100)]
#[verifier::spinoff_prover]
fn ex_span_step(
    input: &Vec<u8>,
    tab: u32,
    ci: usize,
    cl: Location,
    lhs: Cst,
    min_prec: u32,
    closers: &mut Vec<TokenKind>,
    trv: Vec<Cst>,
    t1: usize,
    l1: Location,
    kind: TokenKind,
    e2: usize,
) -> (r: (bool, Cst, usize, Location))
    requires
        tab >= 1,
        ci <= t1 < input@.len(),
        e2 <= input@.len(),
        kind is SemiSemi,
        ({
            let c = PIn { input: input@, tab };
            let tr = sp_trivia(c, ci as int, cl, old(closers)@.len() > 0);
            &&& clampat(c, ci as int, tr.next) == t1 as int
            &&& crate::cst::cst_gs(trv@) == tr.toks
            &&& l1 == tr.loc
        }),
        scan(input@, t1 as int, old(closers)@.len() == 0) == (Scan {
            kind,
            end: e2 as int,
        }),
        t1 < e2,
    ensures
        final(closers)@ == old(closers)@,
        ({
            let c = PIn { input: input@, tab };
            let spold = sp_loop(
                c,
                ci as int,
                cl,
                crate::cst::cst_g(lhs),
                min_prec,
                old(closers)@,
            );
            if r.0 {
                &&& crate::cst::cst_g(r.1) == spold.node
                &&& r.2 as int == spold.next
                &&& r.3 == spold.loc
            } else {
                &&& spold == sp_loop(
                    c,
                    r.2 as int,
                    r.3,
                    crate::cst::cst_g(r.1),
                    min_prec,
                    old(closers)@,
                )
                &&& ci < r.2
            }
        }),
        r.2 <= input@.len(),
        ci <= r.2,
    decreases input@.len() - ci, 1int,
{
    if PREC_SPAN < min_prec {
        return (true, lhs, ci, cl);
    }
    let ghost c = PIn { input: input@, tab };
    let ghost cls0 = closers@;
    let ghost gcur0 = crate::cst::cst_g(lhs);
    let ghost ci0 = ci as int;
    let ghost cl0 = cl;
    let ot = ex_tok(input, tab, kind, t1, e2, l1);
    let (trv2, t3, l3) = ex_trivia(input, tab, e2, ot.src.end_loc, true);
    proof {
        assert(clampat(c, e2 as int, sp_trivia(
            c,
            e2 as int,
            crate::cst::tok_g(ot).span.end_loc,
            true,
        ).next) == t3 as int);
    }
    let (k3, _e3) = crate::tokenize::ex_scan(input, t3, false);
    let ol = ot.src.end_loc;
    let (b, bnext, bloc, btoks_used, trv2_opt) = if ex_begins_operand(k3) {
        let (rhs, r1, rl) = ex_expr(input, tab, t3, l3, PREC_SPAN + 1, closers);
        proof {
            assert(clampat(c, t3 as int, r1 as int) == r1 as int);
        }
        (rhs, r1, rl, true, trv2)
    } else {
        let mut unused = trv2;
        (Cst::Token(ex_ztok(TokenKind::Fake_ImplicitAll, ol)), e2, ol, false, unused)
    };
    let ghost gb = crate::cst::cst_g(b);
    let nl2 = closers.len() > 0;
    let (trv3, t4, l4) = ex_trivia(input, tab, bnext, bloc, nl2);
    proof {
        assert(clampat(c, bnext as int, sp_trivia(c, bnext as int, bloc, nl2).next)
            == t4 as int);
    }
    let (k4, e4) = crate::tokenize::ex_scan(input, t4, closers.len() == 0);
    if matches!(k4, TokenKind::SemiSemi) && t4 < input.len() {
        let ot2 = ex_tok(input, tab, k4, t4, e4, l4);
        let (trv4, t5, l5) = ex_trivia(input, tab, e4, ot2.src.end_loc, true);
        proof {
            assert(clampat(c, e4 as int, sp_trivia(
                c,
                e4 as int,
                crate::cst::tok_g(ot2).span.end_loc,
                true,
            ).next) == t5 as int);
        }
        let (k5, _e5) = crate::tokenize::ex_scan(input, t5, false);
        let ol2 = ot2.src.end_loc;
        let (cc, cnext, cloc, ctoks_used, trv4_opt) = if ex_begins_operand(k5) {
            let (rhs1, r2, rl2) = ex_expr(input, tab, t5, l5, PREC_SPAN + 1, closers);
            proof {
                assert(clampat(c, t5 as int, r2 as int) == r2 as int);
            }
            (rhs1, r2, rl2, true, trv4)
        } else {
            let unused2 = trv4;
            (Cst::Token(ex_ztok(TokenKind::Fake_ImplicitAll, ol2)), e4, ol2, false, unused2)
        };
        let ghost gcc = crate::cst::cst_g(cc);
        let mut ch: Vec<Cst> = Vec::new();
        push_child(&mut ch, lhs);
        append_children(&mut ch, trv);
        push_child(&mut ch, Cst::Token(ot));
        if btoks_used {
            append_children(&mut ch, trv2_opt);
        }
        push_child(&mut ch, b);
        append_children(&mut ch, trv3);
        push_child(&mut ch, Cst::Token(ot2));
        if ctoks_used {
            append_children(&mut ch, trv4_opt);
        }
        push_child(&mut ch, cc);
        proof {
            let tr = sp_trivia(c, ci0, cl0, cls0.len() > 0);
            let tr2 = sp_trivia(c, e2 as int, crate::cst::tok_g(ot).span.end_loc, true);
            let tr3 = sp_trivia(c, bnext as int, bloc, nl2);
            let tr4 = sp_trivia(c, e4 as int, crate::cst::tok_g(ot2).span.end_loc, true);
            let sb = if btoks_used {
                tr2.toks
            } else {
                Seq::<GCst>::empty()
            };
            let scc = if ctoks_used {
                tr4.toks
            } else {
                Seq::<GCst>::empty()
            };
            assert(crate::cst::cst_gs(ch@) =~= seq![gcur0] + tr.toks + seq![
                GCst::Leaf(crate::cst::tok_g(ot)),
            ] + sb + seq![gb] + tr3.toks + seq![GCst::Leaf(crate::cst::tok_g(ot2))] + scc + seq![
                gcc,
            ]);
        }
        let node = Cst::Ternary { op: TernaryOperator::Span, children: ch };
        proof {
            assert(sp_loop(c, ci0, cl0, gcur0, min_prec, cls0) == sp_loop(
                c,
                cnext as int,
                cloc,
                crate::cst::cst_g(node),
                min_prec,
                cls0,
            ));
        }
        (false, node, cnext, cloc)
    } else {
        let mut ch: Vec<Cst> = Vec::new();
        push_child(&mut ch, lhs);
        append_children(&mut ch, trv);
        push_child(&mut ch, Cst::Token(ot));
        if btoks_used {
            append_children(&mut ch, trv2_opt);
        }
        push_child(&mut ch, b);
        proof {
            let tr = sp_trivia(c, ci0, cl0, cls0.len() > 0);
            let tr2 = sp_trivia(c, e2 as int, crate::cst::tok_g(ot).span.end_loc, true);
            let sb = if btoks_used {
                tr2.toks
            } else {
                Seq::<GCst>::empty()
            };
            assert(crate::cst::cst_gs(ch@) =~= seq![gcur0] + tr.toks + seq![
                GCst::Leaf(crate::cst::tok_g(ot)),
            ] + sb + seq![gb]);
        }
        let node = Cst::Binary { op: BinaryOperator::Span, children: ch };
        proof {
            assert(sp_loop(c, ci0, cl0, gcur0, min_prec, cls0) == sp_loop(
                c,
                bnext as int,
                bloc,
                crate::cst::cst_g(node),
                min_prec,
                cls0,
            ));
        }
        (false, node, bnext, bloc)
    }
}

/// The tag-assignment step `a /: b = c`, `a /: b := c` or `a /: b =.`;
/// see the tag arm of [`sp_loop`].
#[verifier::rlimit(100)]
#[verifier::spinoff_prover]
fn ex_tag_step(
    input: &Vec<u8>,
    tab: u32,
    ci: usize,
    cl: Location,
    lhs: Cst,
    min_prec: u32,
    closers: &mut Vec<TokenKind>,
    trv: Vec<Cst>,
    t1: usize,
    l1: Location,
    kind: TokenKind,
    e2: usize,
) -> (r: (bool, Cst, usize, Location))
    requires
        tab >= 1,
        ci <= t1 < input@.len(),
        e2 <= input@.len(),
        kind is SlashColon,
        ({
            let c = PIn { input: input@, tab };
            let tr = sp_trivia(c, ci as int, cl, old(closers)@.len() > 0);
            &&& clampat(c, ci as int, tr.next) == t1 as int
            &&& crate::cst::cst_gs(trv@) == tr.toks
            &&& l1 == tr.loc
        }),
        scan(input@, t1 as int, old(closers)@.len() == 0) == (Scan {
            kind,
            end: e2 as int,
        }),
        t1 < e2,
    ensures
        final(closers)@ == old(closers)@,
        ({
            let c = PIn { input: input@, tab };
            let spold = sp_loop(
                c,
                ci as int,
                cl,
                crate::cst::cst_g(lhs),
                min_prec,
                old(closers)@,
            );
            if r.0 {
                &&& crate::cst::cst_g(r.1) == spold.node
                &&& r.2 as int == spold.next
                &&& r.3 == spold.loc
            } else {
                &&& spold == sp_loop(
                    c,
                    r.2 as int,
                    r.3,
                    crate::cst::cst_g(r.1),
                    min_prec,
                    old(closers)@,
                )
                &&& ci < r.2
            }
        }),
        r.2 <= input@.len(),
        ci <= r.2,
    decreases input@.len() - ci, 1int,
{
    if PREC_SET < min_prec {
        return (true, lhs, ci, cl);
    }
    let ghost c = PIn { input: input@, tab };
    let ghost cls0 = closers@;
    let ghost gcur0 = crate::cst::cst_g(lhs);
    let ghost ci0 = ci as int;
    let ghost cl0 = cl;
    let ot = ex_tok(input, tab, kind, t1, e2, l1);
    let (trv2, b3) = ex_operand(input, tab, e2, ot.src.end_loc, PREC_SET + 1, closers);
    let (bn, b1, bl) = b3;
    proof {
        assert(clampat(c, e2 as int, b1 as int) == b1 as int);
    }
    let ghost gb = crate::cst::cst_g(bn);
    let nl2 = closers.len() > 0;
    let (trv3, t4, l4) = ex_trivia(input, tab, b1, bl, nl2);
    proof {
        assert(clampat(c, b1 as int, sp_trivia(c, b1 as int, bl, nl2).next) == t4 as int);
    }
    let (k4, e4) = crate::tokenize::ex_scan(input, t4, closers.len() == 0);
    if matches!(k4, TokenKind::Equal | TokenKind::ColonEqual | TokenKind::EqualDot) && t4
        < input.len() {
        let ot2 = ex_tok(input, tab, k4, t4, e4, l4);
        if matches!(k4, TokenKind::EqualDot) {
            let ol2 = ot2.src.end_loc;
            let mut ch: Vec<Cst> = Vec::new();
            push_child(&mut ch, lhs);
            append_children(&mut ch, trv);
            push_child(&mut ch, Cst::Token(ot));
            append_children(&mut ch, trv2);
            push_child(&mut ch, bn);
            append_children(&mut ch, trv3);
            push_child(&mut ch, Cst::Token(ot2));
            proof {
                let tr = sp_trivia(c, ci0, cl0, cls0.len() > 0);
                let sop = sp_operand(
                    c,
                    e2 as int,
                    crate::cst::tok_g(ot).span.end_loc,
                    (PREC_SET + 1) as u32,
                    cls0,
                );
                let tr3 = sp_trivia(c, b1 as int, bl, nl2);
                assert(crate::cst::cst_gs(ch@) =~= seq![gcur0] + tr.toks + seq![
                    GCst::Leaf(crate::cst::tok_g(ot)),
                ] + sop.0 + seq![gb] + tr3.toks + seq![
                    GCst::Leaf(crate::cst::tok_g(ot2)),
                ]);
            }
            let node = Cst::Ternary { op: TernaryOperator::TagUnset, children: ch };
            proof {
                assert(sp_loop(c, ci0, cl0, gcur0, min_prec, cls0) == sp_loop(
                    c,
                    e4 as int,
                    ol2,
                    crate::cst::cst_g(node),
                    min_prec,
                    cls0,
                ));
            }
            (false, node, e4, ol2)
        } else {
            let top = if matches!(k4, TokenKind::Equal) {
                TernaryOperator::TagSet
            } else {
                TernaryOperator::TagSetDelayed
            };
            let (trv4, rhs3) = ex_operand(input, tab, e4, ot2.src.end_loc, PREC_SET, closers);
            let (rhs, r1, rl) = rhs3;
            proof {
                assert(clampat(c, e4 as int, r1 as int) == r1 as int);
            }
            let ghost grhs = crate::cst::cst_g(rhs);
            let mut ch: Vec<Cst> = Vec::new();
            push_child(&mut ch, lhs);
            append_children(&mut ch, trv);
            push_child(&mut ch, Cst::Token(ot));
            append_children(&mut ch, trv2);
            push_child(&mut ch, bn);
            append_children(&mut ch, trv3);
            push_child(&mut ch, Cst::Token(ot2));
            append_children(&mut ch, trv4);
            push_child(&mut ch, rhs);
            proof {
                let tr = sp_trivia(c, ci0, cl0, cls0.len() > 0);
                let sop = sp_operand(
                    c,
                    e2 as int,
                    crate::cst::tok_g(ot).span.end_loc,
                    (PREC_SET + 1) as u32,
                    cls0,
                );
                let tr3 = sp_trivia(c, b1 as int, bl, nl2);
                let sop2 = sp_operand(
                    c,
                    e4 as int,
                    crate::cst::tok_g(ot2).span.end_loc,
                    PREC_SET,
                    cls0,
                );
                assert(crate::cst::cst_gs(ch@) =~= seq![gcur0] + tr.toks + seq![
                    GCst::Leaf(crate::cst::tok_g(ot)),
                ] + sop.0 + seq![gb] + tr3.toks + seq![
                    GCst::Leaf(crate::cst::tok_g(ot2)),
                ] + sop2.0 + seq![grhs]);
            }
            let node = Cst::Ternary { op: top, children: ch };
            proof {
                assert(sp_loop(c, ci0, cl0, gcur0, min_prec, cls0) == sp_loop(
                    c,
                    r1 as int,
                    rl,
                    crate::cst::cst_g(node),
                    min_prec,
                    cls0,
                ));
            }
            (false, node, r1, rl)
        }
    } else {
        let mut ch: Vec<Cst> = Vec::new();
        push_child(&mut ch, lhs);
        append_children(&mut ch, trv);
        push_child(&mut ch, Cst::Token(ot));
        append_children(&mut ch, trv2);
        push_child(&mut ch, bn);
        proof {
            let tr = sp_trivia(c, ci0, cl0, cls0.len() > 0);
            let sop = sp_operand(
                c,
                e2 as int,
                crate::cst::tok_g(ot).span.end_loc,
                (PREC_SET + 1) as u32,
                cls0,
            );
            assert(crate::cst::cst_gs(ch@) =~= seq![gcur0] + tr.toks + seq![
                GCst::Leaf(crate::cst::tok_g(ot)),
            ] + sop.0 + seq![gb]);
        }
        let node = Cst::SyntaxError { kind: SyntaxErrorKind::ExpectedSet, children: ch };
        proof {
            assert(sp_loop(c, ci0, cl0, gcur0, min_prec, cls0) == sp_loop(
                c,
                b1 as int,
                bl,
                crate::cst::cst_g(node),
                min_prec,
                cls0,
            ));
        }
        (false, node, b1, bl)
    }
}

/// The ternary tilde step `a ~ f ~ b`; see the tilde arm of [`sp_loop`].
#[verifier::rlimit(100)]
#[verifier::spinoff_prover]
fn ex_tilde_step(
    input: &Vec<u8>,
    tab: u32,
    ci: usize,
    cl: Location,
    lhs: Cst,
    min_prec: u32,
    closers: &mut Vec<TokenKind>,
    trv: Vec<Cst>,
    t1: usize,
    l1: Location,
    kind: TokenKind,
    e2: usize,
) -> (r: (bool, Cst, usize, Location))
    requires
        tab >= 1,
        ci <= t1 < input@.len(),
        e2 <= input@.len(),
        kind is Tilde,
        ({
            let c = PIn { input: input@, tab };
            let tr = sp_trivia(c, ci as int, cl, old(closers)@.len() > 0);
            &&& clampat(c, ci as int, tr.next) == t1 as int
            &&& crate::cst::cst_gs(trv@) == tr.toks
            &&& l1 == tr.loc
        }),
        scan(input@, t1 as int, old(closers)@.len() == 0) == (Scan {
            kind,
            end: e2 as int,
        }),
        t1 < e2,
    ensures
        final(closers)@ == old(closers)@,
        ({
            let c = PIn { input: input@, tab };
            let spold = sp_loop(
                c,
                ci as int,
                cl,
                crate::cst::cst_g(lhs),
                min_prec,
                old(closers)@,
            );
            if r.0 {
                &&& crate::cst::cst_g(r.1) == spold.node
                &&& r.2 as int == spold.next
                &&& r.3 == spold.loc
            } else {
                &&& spold == sp_loop(
                    c,
                    r.2 as int,
                    r.3,
                    crate::cst::cst_g(r.1),
                    min_prec,
                    old(closers)@,
                )
                &&& ci < r.2
            }
        }),
        r.2 <= input@.len(),
        ci <= r.2,
    decreases input@.len() - ci, 1int,
{
    if PREC_TILDE < min_prec {
        return (true, lhs, ci, cl);
    }
    let ghost c = PIn { input: input@, tab };
    let ghost cls0 = closers@;
    let ghost gcur0 = crate::cst::cst_g(lhs);
    let ghost ci0 = ci as int;
    let ghost cl0 = cl;
    let ot = ex_tok(input, tab, kind, t1, e2, l1);
    let (trv2, m3) = ex_operand(input, tab, e2, ot.src.end_loc, PREC_TILDE + 1, closers);
    let (mid, m1, ml) = m3;
    proof {
        assert(clampat(c, e2 as int, m1 as int) == m1 as int);
    }
    let ghost gmid = crate::cst::cst_g(mid);
    let nl2 = closers.len() > 0;
    let (trv3, t4, l4) = ex_trivia(input, tab, m1, ml, nl2);
    proof {
        assert(clampat(c, m1 as int, sp_trivia(c, m1 as int, ml, nl2).next) == t4 as int);
    }
    let (k4, e4) = crate::tokenize::ex_scan(input, t4, closers.len() == 0);
    if matches!(k4, TokenKind::Tilde) && t4 < input.len() {
        let ot2 = ex_tok(input, tab, k4, t4, e4, l4);
        let (trv4, rhs3) = ex_operand(input, tab, e4, ot2.src.end_loc, PREC_TILDE + 1, closers);
        let (rhs, r1, rl) = rhs3;
        proof {
            assert(clampat(c, e4 as int, r1 as int) == r1 as int);
        }
        let ghost grhs = crate::cst::cst_g(rhs);
        let mut ch: Vec<Cst> = Vec::new();
        push_child(&mut ch, lhs);
        append_children(&mut ch, trv);
        push_child(&mut ch, Cst::Token(ot));
        append_children(&mut ch, trv2);
        push_child(&mut ch, mid);
        append_children(&mut ch, trv3);
        push_child(&mut ch, Cst::Token(ot2));
        append_children(&mut ch, trv4);
        push_child(&mut ch, rhs);
        proof {
            let tr = sp_trivia(c, ci0, cl0, cls0.len() > 0);
            let sop = sp_operand(
                c,
                e2 as int,
                crate::cst::tok_g(ot).span.end_loc,
                (PREC_TILDE + 1) as u32,
                cls0,
            );
            let tr3 = sp_trivia(c, m1 as int, ml, nl2);
            let sop2 = sp_operand(
                c,
                e4 as int,
                crate::cst::tok_g(ot2).span.end_loc,
                (PREC_TILDE + 1) as u32,
                cls0,
            );
            assert(crate::cst::cst_gs(ch@) =~= seq![gcur0] + tr.toks + seq![
                GCst::Leaf(crate::cst::tok_g(ot)),
            ] + sop.0 + seq![gmid] + tr3.toks + seq![
                GCst::Leaf(crate::cst::tok_g(ot2)),
            ] + sop2.0 + seq![grhs]);
        }
        let node = Cst::Ternary { op: TernaryOperator::TernaryTilde, children: ch };
        proof {
            assert(sp_loop(c, ci0, cl0, gcur0, min_prec, cls0) == sp_loop(
                c,
                r1 as int,
                rl,
                crate::cst::cst_g(node),
                min_prec,
                cls0,
            ));
        }
        (false, node, r1, rl)
    } else {
        let mut ch: Vec<Cst> = Vec::new();
        push_child(&mut ch, lhs);
        append_children(&mut ch, trv);
        push_child(&mut ch, Cst::Token(ot));
        append_children(&mut ch, trv2);
        push_child(&mut ch, mid);
        proof {
            let tr = sp_trivia(c, ci0, cl0, cls0.len() > 0);
            let sop = sp_operand(
                c,
                e2 as int,
                crate::cst::tok_g(ot).span.end_loc,
                (PREC_TILDE + 1) as u32,
                cls0,
            );
            assert(crate::cst::cst_gs(ch@) =~= seq![gcur0] + tr.toks + seq![
                GCst::Leaf(crate::cst::tok_g(ot)),
            ] + sop.0 + seq![gmid]);
        }
        let node = Cst::SyntaxError { kind: SyntaxErrorKind::ExpectedTilde, children: ch };
        proof {
            assert(sp_loop(c, ci0, cl0, gcur0, min_prec, cls0) == sp_loop(
                c,
                m1 as int,
                ml,
                crate::cst::cst_g(node),
                min_prec,
                cls0,
            ));
        }
        (false, node, m1, ml)
    }
}

/// Parses the whole input into the sequence of top-level items; see
/// [`sp_toplevel`] and [`parse_stream`].
#[verifier::rlimit(100)]
pub fn ex_toplevel(input: &Vec<u8>, tab: u32, skip_shebang: bool, conv:
    crate::source::SourceConvention) -> (r: Vec<Cst>)
    requires
        tab >= 1,
    ensures
        crate::cst::cst_gs(r@) == parse_stream(
            PIn { input: input@, tab },
            skip_shebang,
            crate::tokenize::start_location(conv),
        ),
{
    let ghost c = PIn { input: input@, tab };
    let loc0 = match conv {
        crate::source::SourceConvention::LineColumn => Location::LineColumn {
            line: 1,
            column: 1,
        },
        crate::source::SourceConvention::CharacterIndex => Location::CharacterIndex { index: 0 },
    };
    proof {
        assert(loc0 == crate::tokenize::start_location(conv));
    }
    let mut out: Vec<Cst> = Vec::new();
    let mut i: usize = 0;
    let mut l = loc0;
    if skip_shebang && input.len() >= 2 && input[0] == 35 && input[1] == 33 {
        let e = crate::tokenize::ex_line_end_pub(input, 0);
        let t = ex_tok(input, tab, TokenKind::Comment, 0, e, loc0);
        let ghost gt = crate::cst::tok_g(t);
        let tend = t.src.end_loc;
        push_child(&mut out, Cst::Token(t));
        i = e;
        l = tend;
        proof {
            assert(crate::cst::cst_gs(out@) =~= seq![GCst::Leaf(gt)]);
        }
    }
    let ghost base = out@;
    let mut closers: Vec<TokenKind> = Vec::new();
    while i < input.len()
        invariant
            tab >= 1,
            c == (PIn { input: input@, tab }),
            i <= input@.len(),
            closers@ == Seq::<TokenKind>::empty(),
            parse_stream(c, skip_shebang, crate::tokenize::start_location(conv))
                == crate::cst::cst_gs(out@) + sp_toplevel(c, i as int, l),
        decreases input@.len() - i,
    {
        let ghost i0 = i as int;
        let ghost l0 = l;
        let (kind, e) = crate::tokenize::ex_scan(input, i, true);
        if matches!(
            kind,
            TokenKind::Whitespace | TokenKind::Comment | TokenKind::InternalNewline
                | TokenKind::ToplevelNewline,
        ) {
            let t = ex_tok(input, tab, kind, i, e, l);
            let ghost gt = crate::cst::tok_g(t);
            proof {
                crate::cst::lemma_cst_gs_push(out@, Cst::Token(t));
            }
            let newl = t.src.end_loc;
            push_child(&mut out, Cst::Token(t));
            i = e;
            l = newl;
            proof {
                assert(crate::cst::cst_gs(out@) + sp_toplevel(c, i as int, l)
                    =~= crate::cst::cst_gs(out@).drop_last() + (seq![GCst::Leaf(gt)]
                    + sp_toplevel(c, i as int, l)));
            }
        } else {
            let (n, j, nl) = ex_expr(input, tab, i, l, PREC_LOWEST, &mut closers);
            let ghost gn = crate::cst::cst_g(n);
            let j2: usize = if j > i {
                j
            } else {
                i + 1
            };
            proof {
                assert(j2 as int == (if i0 < sp_expr(c, i0, l0, PREC_LOWEST,
                    Seq::empty()).next <= c.input.len() {
                    sp_expr(c, i0, l0, PREC_LOWEST, Seq::empty()).next
                } else {
                    i0 + 1
                }));
                crate::cst::lemma_cst_gs_push(out@, n);
            }
            push_child(&mut out, n);
            i = j2;
            l = nl;
            proof {
                assert(crate::cst::cst_gs(out@) + sp_toplevel(c, i as int, l)
                    =~= crate::cst::cst_gs(out@).drop_last() + (seq![gn] + sp_toplevel(
                    c,
                    i as int,
                    l,
                )));
            }
        }
    }
    proof {
        assert(sp_toplevel(c, i as int, l) =~= Seq::<GCst>::empty());
        assert(crate::cst::cst_gs(out@) + Seq::<GCst>::empty() =~= crate::cst::cst_gs(out@));
    }
    out
}

/// Concatenates two byte vectors.
pub(crate) fn concat_bytes(mut a: Vec<u8>, b: Vec<u8>) -> (r: Vec<u8>)
    ensures
        r@ == a@ + b@,
{
    let ghost a0 = a@;
    let mut k: usize = 0;
    while k < b.len()
        invariant
            k <= b@.len(),
            a@ == a0 + b@.subrange(0, k as int),
        decreases b@.len() - k,
    {
        a.push(b[k]);
        proof {
            assert(a@ =~= a0 + b@.subrange(0, k + 1));
        }
        k = k + 1;
    }
    proof {
        assert(b@.subrange(0, b@.len() as int) =~= b@);
    }
    a
}

} // verus!
