//! The concrete syntax tree: every input token, trivia included, appears
//! in exactly one leaf.

use vstd::prelude::*;
use crate::source::{Location, Span};
use crate::token::{Token, TokenKind};
use crate::issue::{Issue, IssueTag, Severity};

verus! {

/// Operators that take one operand before them.
#[derive(Debug, Clone, Copy, PartialEq, Eq, Structural)]
pub enum PrefixOperator {
    Minus,
    Plus,
    Not,
    PreIncrement,
    PreDecrement,
    Not2,
    Get,
}

/// Operators of exactly two operands.
#[derive(Debug, Clone, Copy, PartialEq, Eq, Structural)]
pub enum BinaryOperator {
    Divide,
    Power,
    MapAt,
    MapAll,
    Apply,
    MapApply,
    Rule,
    RuleDelayed,
    TwoWayRule,
    ReplaceAll,
    ReplaceRepeated,
    Condition,
    PatternTest,
    AddTo,
    SubtractFrom,
    TimesBy,
    DivideBy,
    ApplyTo,
    UpSet,
    UpSetDelayed,
    Assign,
    AssignDelayed,
    Unset,
    Put,
    PutAppend,
    Pattern,
    Optional,
    BinaryAt,
    BinarySlashSlash,
    Span,
    Element,
    Function,
}

/// Flat operators of any number of operands.
#[derive(Debug, Clone, Copy, PartialEq, Eq, Structural)]
pub enum InfixOperator {
    Plus,
    Times,
    Dot,
    Alternatives,
    And,
    Or,
    SameQ,
    UnsameQ,
    StringJoin,
    StringExpression,
    NonCommutativeMultiply,
    Composition,
    RightComposition,
    CompoundExpression,
    Comma,
    InfixInequality,
    MessageName,
}

/// Operators that take one operand in front of them.
#[derive(Debug, Clone, Copy, PartialEq, Eq, Structural)]
pub enum PostfixOperator {
    Function,
    Repeated,
    RepeatedNull,
    Factorial,
    Factorial2,
    Decrement,
    Increment,
    Derivative,
}

/// Operators of three parts.
#[derive(Debug, Clone, Copy, PartialEq, Eq, Structural)]
pub enum TernaryOperator {
    TernaryTilde,
    TagSet,
    TagSetDelayed,
    TagUnset,
    Span,
}

/// Lexically fused constructs: blanks, patterns, slots and history
/// references.
#[derive(Debug, Clone, Copy, PartialEq, Eq, Structural)]
pub enum CompoundOperator {
    Blank,
    BlankSequence,
    BlankNullSequence,
    PatternBlank,
    PatternBlankSequence,
    PatternBlankNullSequence,
    PatternOptionalDefault,
    Slot,
    SlotSequence,
    Out,
}

/// Bracket pairs.
#[derive(Debug, Clone, Copy, PartialEq, Eq, Structural)]
pub enum GroupOperator {
    /// Plain parentheses around one expression.
    Paren,
    /// A square-bracket group, as in the argument list of a call.
    Square,
    /// A curly-brace list.
    List,
    /// An association `<| ... |>`.
    Association,
}

/// What kind of unrecoverable shape a syntax-error node reports.
#[derive(Debug, Clone, Copy, PartialEq, Eq, Structural)]
pub enum SyntaxErrorKind {
    /// `/:` was not followed by `=`, `:=` or `=.`.
    ExpectedSet,
    /// `~` was not followed by a matching second `~`.
    ExpectedTilde,
    /// The whole input did not form exactly one expression.
    ExpectedSingleExpression,
    /// A group was closed by the end of the input or a mismatched closer.
    MissingCloser,
}

/// A concrete syntax tree node. Composite nodes keep every token between
/// their operands, trivia included, in `children`.
#[derive(Debug)]
pub enum Cst {
    Token(Token),
    Prefix { op: PrefixOperator, children: Vec<Cst> },
    Infix { op: InfixOperator, children: Vec<Cst> },
    Binary { op: BinaryOperator, children: Vec<Cst> },
    Postfix { op: PostfixOperator, children: Vec<Cst> },
    Ternary { op: TernaryOperator, children: Vec<Cst> },
    Group { op: GroupOperator, children: Vec<Cst> },
    GroupMissingCloser { op: GroupOperator, children: Vec<Cst> },
    Call { children: Vec<Cst> },
    Compound { op: CompoundOperator, children: Vec<Cst> },
    SyntaxError { kind: SyntaxErrorKind, children: Vec<Cst> },
}

/// The shape of a composite node, for the ghost mirror of the tree.
#[derive(Debug, Clone, Copy, PartialEq, Eq, Structural)]
pub enum NodeTag {
    PrefixT(PrefixOperator),
    InfixT(InfixOperator),
    BinaryT(BinaryOperator),
    PostfixT(PostfixOperator),
    TernaryT(TernaryOperator),
    GroupT(GroupOperator),
    GroupMissingCloserT(GroupOperator),
    CallT,
    CompoundT(CompoundOperator),
    SyntaxErrorT(SyntaxErrorKind),
}

/// A token in the ghost mirror: kind, covered bytes, span.
pub ghost struct GToken {
    pub kind: TokenKind,
    pub text: Seq<u8>,
    pub span: Span,
}

/// The ghost mirror of a concrete syntax tree: what the specifications
/// speak about.
pub ghost enum GCst {
    Leaf(GToken),
    Node(NodeTag, Seq<GCst>),
}

/// The mirror of a token.
pub open spec fn tok_g(t: Token) -> GToken {
    GToken { kind: t.tok, text: t.text@, span: t.src }
}

/// The mirror of a tree.
pub open spec fn cst_g(c: Cst) -> GCst
    decreases c,
{
    match c {
        Cst::Token(t) => GCst::Leaf(tok_g(t)),
        Cst::Prefix { op, children } => GCst::Node(NodeTag::PrefixT(op), cst_gs(children@)),
        Cst::Infix { op, children } => GCst::Node(NodeTag::InfixT(op), cst_gs(children@)),
        Cst::Binary { op, children } => GCst::Node(NodeTag::BinaryT(op), cst_gs(children@)),
        Cst::Postfix { op, children } => GCst::Node(NodeTag::PostfixT(op), cst_gs(children@)),
        Cst::Ternary { op, children } => GCst::Node(NodeTag::TernaryT(op), cst_gs(children@)),
        Cst::Group { op, children } => GCst::Node(NodeTag::GroupT(op), cst_gs(children@)),
        Cst::GroupMissingCloser { op, children } => GCst::Node(
            NodeTag::GroupMissingCloserT(op),
            cst_gs(children@),
        ),
        Cst::Call { children } => GCst::Node(NodeTag::CallT, cst_gs(children@)),
        Cst::Compound { op, children } => GCst::Node(NodeTag::CompoundT(op), cst_gs(children@)),
        Cst::SyntaxError { kind, children } => GCst::Node(
            NodeTag::SyntaxErrorT(kind),
            cst_gs(children@),
        ),
    }
}

/// The mirrors of a child list.
pub open spec fn cst_gs(cs: Seq<Cst>) -> Seq<GCst>
    decreases cs,
{
    if cs.len() == 0 {
        Seq::empty()
    } else {
        seq![cst_g(cs[0])] + cst_gs(cs.drop_first())
    }
}

/// Mirroring a child list distributes over push.
pub proof fn lemma_cst_gs_push(cs: Seq<Cst>, c: Cst)
    ensures
        cst_gs(cs.push(c)) == cst_gs(cs).push(cst_g(c)),
    decreases cs.len(),
{
    assert(cs.push(c)[0] == if cs.len() == 0 {
        c
    } else {
        cs[0]
    });
    if cs.len() == 0 {
        assert(cs.push(c).drop_first() =~= Seq::<Cst>::empty());
        assert(cst_gs(cs.push(c)) == seq![cst_g(c)] + cst_gs(Seq::<Cst>::empty()));
        assert(cst_gs(cs.push(c)) =~= cst_gs(cs).push(cst_g(c)));
    } else {
        assert(cs.push(c).drop_first() =~= cs.drop_first().push(c));
        lemma_cst_gs_push(cs.drop_first(), c);
        assert(cst_gs(cs.push(c)) == seq![cst_g(cs[0])] + cst_gs(cs.drop_first().push(c)));
        assert(cst_gs(cs.push(c)) =~= cst_gs(cs).push(cst_g(c)));
    }
}

/// The span of a mirrored node: a leaf's token span; for a composite
/// node, from the start of its first child to the end of its last. A node
/// without children covers nothing.
pub open spec fn gcst_span(c: GCst) -> Span
    decreases c,
{
    match c {
        GCst::Leaf(t) => t.span,
        GCst::Node(_, cs) => if cs.len() == 0 {
            Span {
                start_loc: Location::CharacterIndex { index: 0u32 },
                end_loc: Location::CharacterIndex { index: 0u32 },
            }
        } else {
            Span { start_loc: gcst_span(cs[0]).start_loc, end_loc: gcst_span(cs.last()).end_loc }
        },
    }
}

/// The diagnostic a single token carries: fatal for every error kind
/// except the fake argument a trailing comma inserts, which is only a
/// warning.
pub open spec fn token_issues(t: GToken) -> Seq<Issue> {
    if t.kind is Error_InfixImplicitNull {
        seq![
            Issue {
                tag: IssueTag::CommaMissingArgument,
                sev: Severity::Warning,
                span: t.span,
                confidence: 100u32,
            },
        ]
    } else if crate::token::is_error_kind(t.kind) {
        seq![
            Issue {
                tag: token_error_tag(t.kind),
                sev: Severity::Fatal,
                span: t.span,
                confidence: 100u32,
            },
        ]
    } else {
        Seq::empty()
    }
}

/// The issue tag reporting a given error token kind.
pub open spec fn token_error_tag(k: TokenKind) -> IssueTag {
    match k {
        TokenKind::Error_ExpectedOperand => IssueTag::ExpectedOperand,
        TokenKind::Error_UnhandledCharacter => IssueTag::UnhandledCharacter,
        TokenKind::Error_Number => IssueTag::InvalidNumber,
        TokenKind::Error_ExpectedLetterlike => IssueTag::ExpectedLetterlike,
        TokenKind::Error_ExpectedTag => IssueTag::ExpectedTag,
        TokenKind::Error_ExpectedFile => IssueTag::ExpectedFile,
        TokenKind::Error_UnterminatedComment => IssueTag::UnterminatedComment,
        TokenKind::Error_UnterminatedString => IssueTag::UnterminatedString,
        TokenKind::Error_UnexpectedCloser => IssueTag::UnexpectedCloser,
        TokenKind::Error_UnsafeCharacterEncoding => IssueTag::UnsafeCharacterEncoding,
        TokenKind::Error_UnexpectedCommentCloser => IssueTag::UnexpectedCloser,
        _ => IssueTag::UnhandledCharacter,
    }
}

/// The diagnostic a composite node itself adds, over and above those of
/// its children.
pub open spec fn node_issues(tag: NodeTag, span: Span) -> Seq<Issue> {
    match tag {
        NodeTag::GroupMissingCloserT(_) => seq![
            Issue {
                tag: IssueTag::MissingCloser,
                sev: Severity::Fatal,
                span: span,
                confidence: 100u32,
            },
        ],
        NodeTag::SyntaxErrorT(kind) => seq![
            Issue {
                tag: syntax_error_tag(kind),
                sev: Severity::Fatal,
                span: span,
                confidence: 100u32,
            },
        ],
        _ => Seq::empty(),
    }
}

/// The issue tag reporting a syntax-error node.
pub open spec fn syntax_error_tag(kind: SyntaxErrorKind) -> IssueTag {
    match kind {
        SyntaxErrorKind::ExpectedSet => IssueTag::ExpectedSet,
        SyntaxErrorKind::ExpectedTilde => IssueTag::ExpectedTilde,
        SyntaxErrorKind::ExpectedSingleExpression => IssueTag::CommaTopLevel,
        SyntaxErrorKind::MissingCloser => IssueTag::MissingCloser,
    }
}

/// Every diagnostic in a tree: the node's own, then its children's, left
/// to right.
pub open spec fn gcst_issues(c: GCst) -> Seq<Issue>
    decreases c,
{
    match c {
        GCst::Leaf(t) => token_issues(t),
        GCst::Node(tag, cs) => node_issues(tag, gcst_span(c)) + issues_of(cs),
    }
}

/// The diagnostics of a child list.
pub open spec fn issues_of(cs: Seq<GCst>) -> Seq<Issue>
    decreases cs,
{
    if cs.len() == 0 {
        Seq::empty()
    } else {
        gcst_issues(cs[0]) + issues_of(cs.drop_first())
    }
}

/// Whether a tree holds any fatal diagnostic: an error leaf, a group
/// without its closer, or a syntax-error node.
pub open spec fn gcst_has_fatal(c: GCst) -> bool {
    exists|k: int| 0 <= k < gcst_issues(c).len() && (#[trigger] gcst_issues(c)[k]).sev is Fatal
}

/// The tokens at a tree's leaves, left to right.
pub open spec fn gcst_leaves(c: GCst) -> Seq<GToken>
    decreases c,
{
    match c {
        GCst::Leaf(t) => seq![t],
        GCst::Node(_, cs) => leaves_of(cs),
    }
}

/// The leaves of a child list.
pub open spec fn leaves_of(cs: Seq<GCst>) -> Seq<GToken>
    decreases cs,
{
    if cs.len() == 0 {
        Seq::empty()
    } else {
        gcst_leaves(cs[0]) + leaves_of(cs.drop_first())
    }
}

/// The concatenated texts of a tree's leaves: the exact bytes the tree
/// covers.
pub open spec fn gcst_text(c: GCst) -> Seq<u8>
    decreases c,
{
    match c {
        GCst::Leaf(t) => t.text,
        GCst::Node(_, cs) => texts_of(cs),
    }
}

/// The concatenated texts of a child list.
pub open spec fn texts_of(cs: Seq<GCst>) -> Seq<u8>
    decreases cs,
{
    if cs.len() == 0 {
        Seq::empty()
    } else {
        gcst_text(cs[0]) + texts_of(cs.drop_first())
    }
}

/// The number of nodes in a mirrored tree; at least one.
pub open spec fn gsize(c: GCst) -> nat
    decreases c,
{
    match c {
        GCst::Leaf(_) => 1,
        GCst::Node(_, cs) => 1 + gs_size(cs),
    }
}

/// The total number of nodes in a mirrored child list.
pub open spec fn gs_size(cs: Seq<GCst>) -> nat
    decreases cs,
{
    if cs.len() == 0 {
        0
    } else {
        gsize(cs[0]) + gs_size(cs.drop_first())
    }
}

/// The mirror of a child list has the same length and mirrors each child
/// in place.
pub proof fn lemma_cst_gs_index(cs: Seq<Cst>, k: int)
    requires
        0 <= k < cs.len(),
    ensures
        cst_gs(cs).len() == cs.len(),
        cst_gs(cs)[k] == cst_g(cs[k]),
    decreases cs,
{
    lemma_cst_gs_len(cs);
    if k > 0 {
        lemma_cst_gs_index(cs.drop_first(), k - 1);
    }
}

/// The mirror of a child list has the same length.
pub proof fn lemma_cst_gs_len(cs: Seq<Cst>)
    ensures
        cst_gs(cs).len() == cs.len(),
    decreases cs,
{
    if cs.len() > 0 {
        lemma_cst_gs_len(cs.drop_first());
    }
}

/// Every child weighs no more than the whole list.
pub proof fn lemma_gs_size_index(cs: Seq<GCst>, k: int)
    requires
        0 <= k < cs.len(),
    ensures
        gsize(cs[k]) <= gs_size(cs),
    decreases cs,
{
    if k > 0 {
        lemma_gs_size_index(cs.drop_first(), k - 1);
    }
}

} // verus!
