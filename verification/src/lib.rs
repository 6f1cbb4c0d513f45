//! A parser for Wolfram Language input form syntax.
//!
//! Given a string of Wolfram Language code, the library can produce a stream
//! of tokens, a concrete syntax tree (CST) that preserves every input byte,
//! or an abstract syntax tree (AST) with trivia dropped and compound
//! operators desugared.

use vstd::prelude::*;

pub mod source;
pub mod newtypes;
pub mod quirks;
pub mod issue;
pub mod error_handling;
pub mod externals;
pub mod strutil;
pub mod paclet;
pub mod token;
pub mod tokenize;
pub mod cst;
pub mod parse;
pub mod agg;
pub mod ast;
pub mod abstract_cst;
pub mod string_interner;


use crate::source::{Location, Span, SourceConvention};
use crate::token::{Token, TokenKind};
use crate::tokenize::{
    Tokenizer, TrackedSourceLocations, UnsafeCharacterEncoding, tokenize_core, entry_stream,
    tokens_correspond, concat_texts, first_unsafe, start_location, scan_tag, scan_file, Scan,
};
use crate::cst::{Cst, GCst, cst_g, cst_gs, gcst_issues, NodeTag, SyntaxErrorKind};
use crate::parse::{PIn, parse_stream, ex_toplevel};
use crate::ast::{Ast, ast_g, ast_gs};
use crate::issue::{Issue, Severity};
use crate::quirks::QuirkSettings;
use vstd::string::StringSliceAdditionalSpecFns;

verus! {

/// What kind of source a container body came from.
#[derive(Debug, Clone, Copy, PartialEq, Eq, Structural)]
pub enum ContainerKind {
    String,
    File,
    Byte,
    Box,
    Cell,
    Hold,
}

/// Why a container has no body.
#[derive(Debug, Clone, Copy, PartialEq, Eq, Structural)]
pub enum ContainerMissingReason {
    EmptyInput,
    UnsafeCharacterEncoding(UnsafeCharacterEncoding),
}

/// A container's body: nodes, or the reason there are none.
#[derive(Debug)]
pub enum ContainerBody<N> {
    Nodes(NodeSeq<N>),
    Missing(ContainerMissingReason),
}

/// A parsed container: what kind of source it was, its body, and its
/// metadata.
#[derive(Debug)]
pub struct Container<N> {
    pub kind: ContainerKind,
    pub body: ContainerBody<N>,
    pub metadata: Metadata,
}

/// A sequence of nodes.
#[derive(Debug)]
pub struct NodeSeq<N>(pub Vec<N>);

/// Metadata attached to a container: its source span, diagnostics, and
/// host-runtime attachments that this library stores but never inspects.
#[derive(Debug)]
pub struct Metadata {
    pub source: Span,
    pub syntax_issues: Option<Vec<Issue>>,
    pub confidence_level: Option<wolfram_expr::Number>,
    pub file_name: Option<wolfram_expr::Expr>,
    pub embedded_tabs: Option<wolfram_expr::Expr>,
    pub embedded_newlines: Option<wolfram_expr::Expr>,
    pub simple_line_continuations: Option<wolfram_expr::Expr>,
    pub complex_line_continuations: Option<wolfram_expr::Expr>,
}

/// How a `#!` line at the start of the input is treated.
#[derive(Debug, Clone, Copy, PartialEq, Eq, Structural)]
pub enum FirstLineBehavior {
    /// The input is an ordinary string: a `#!` line is ordinary tokens.
    NotScript,
    /// The input may be a script: a `#!` first line is consumed if present.
    Check,
    /// The input is a script: the `#!` first line is consumed.
    Script,
}

/// Which set of issues the tokenizer reports. The advisory issues that
/// box mode would suppress are not produced by this library at all, so
/// the two modes behave alike; the choice is stored so the option
/// surface stays complete.
#[derive(Debug, Clone, Copy, PartialEq, Eq, Structural)]
pub enum EncodingMode {
    /// The input came from a file or string: report everything.
    Normal,
    /// The input came from a box: some issues would be suppressed.
    Box,
}

/// How the next token is read by [`parse_to_token`].
#[derive(Debug, Clone, Copy, PartialEq, Eq, Structural)]
pub enum StringifyMode {
    /// Ordinary tokenization.
    Normal,
    /// The next lexeme is a tag, as after `::`.
    Tag,
    /// The next lexeme is a file name, as after `<<`.
    File,
}

/// Expected a single item, but the sequence held none or several.
#[derive(Debug, Clone, Copy, PartialEq, Eq, Structural)]
pub enum NodeSeqError {
    /// The sequence was empty.
    Empty,
    /// The sequence held this many items.
    Multiple(usize),
}

impl<N> NodeSeq<N> {
    /// The single item of the sequence; an error when there are none or
    /// several.
    pub fn try_single(self) -> (r: Result<N, NodeSeqError>)
        ensures
            self.0@.len() == 1 ==> ({
                &&& r matches Ok(n)
                &&& n == self.0@[0]
            }),
            self.0@.len() == 0 ==> r == Err::<N, NodeSeqError>(NodeSeqError::Empty),
            self.0@.len() > 1 ==> r == Err::<N, NodeSeqError>(
                NodeSeqError::Multiple(self.0@.len() as usize),
            ),
    {
        let NodeSeq(mut v) = self;
        if v.len() == 0 {
            Err(NodeSeqError::Empty)
        } else if v.len() == 1 {
            Ok(v.remove(0))
        } else {
            Err(NodeSeqError::Multiple(v.len()))
        }
    }

    /// A reference to the single item of the sequence; an error when
    /// there are none or several.
    pub fn try_single_ref(&self) -> (r: Result<&N, NodeSeqError>)
        ensures
            self.0@.len() == 1 ==> ({
                &&& r matches Ok(n)
                &&& n == &self.0@[0]
            }),
            self.0@.len() == 0 ==> r == Err::<&N, NodeSeqError>(NodeSeqError::Empty),
            self.0@.len() > 1 ==> r == Err::<&N, NodeSeqError>(
                NodeSeqError::Multiple(self.0@.len() as usize),
            ),
    {
        if self.0.len() == 0 {
            Err(NodeSeqError::Empty)
        } else if self.0.len() == 1 {
            Ok(&self.0[0])
        } else {
            Err(NodeSeqError::Multiple(self.0.len()))
        }
    }
}

/// What every parse operation returns: the syntax, the encoding failure if
/// any, the fatal and advisory diagnostics, and tracked source locations.
#[derive(Debug)]
pub struct ParseResult<T> {
    /// Tokens, concrete syntax, or abstract syntax.
    pub syntax: T,
    pub unsafe_character_encoding: Option<UnsafeCharacterEncoding>,
    pub fatal_issues: Vec<Issue>,
    pub non_fatal_issues: Vec<Issue>,
    pub tracked_locations: TrackedSourceLocations,
}

impl<T> ParseResult<T> {
    /// Whether parsing found no fatal problem.
    pub fn is_ok(&self) -> (r: bool)
        ensures
            r == (self.fatal_issues@.len() == 0),
    {
        self.fatal_issues.len() == 0
    }

    /// Whether parsing found a fatal problem.
    pub fn is_err(&self) -> (r: bool)
        ensures
            r == (self.fatal_issues@.len() > 0),
    {
        self.fatal_issues.len() > 0
    }

    /// Whether any diagnostic was reported at all.
    pub fn has_issues(&self) -> (r: bool)
        ensures
            r == (self.fatal_issues@.len() > 0 || self.non_fatal_issues@.len() > 0),
    {
        self.fatal_issues.len() > 0 || self.non_fatal_issues.len() > 0
    }

    /// Whether any advisory diagnostic was reported.
    pub fn has_warnings(&self) -> (r: bool)
        ensures
            r == (self.non_fatal_issues@.len() > 0),
    {
        self.non_fatal_issues.len() > 0
    }

    /// Every diagnostic: the fatal ones, then the advisory ones.
    pub fn issues(&self) -> (r: Vec<Issue>)
        ensures
            r@ == self.fatal_issues@ + self.non_fatal_issues@,
    {
        let mut out: Vec<Issue> = Vec::new();
        let mut k: usize = 0;
        while k < self.fatal_issues.len()
            invariant
                k <= self.fatal_issues@.len(),
                out@ == self.fatal_issues@.subrange(0, k as int),
            decreases self.fatal_issues@.len() - k,
        {
            out.push(self.fatal_issues[k]);
            proof {
                assert(out@ =~= self.fatal_issues@.subrange(0, k + 1));
            }
            k = k + 1;
        }
        let mut m: usize = 0;
        while m < self.non_fatal_issues.len()
            invariant
                m <= self.non_fatal_issues@.len(),
                out@ == self.fatal_issues@.subrange(
                    0,
                    self.fatal_issues@.len() as int,
                ) + self.non_fatal_issues@.subrange(0, m as int),
            decreases self.non_fatal_issues@.len() - m,
        {
            out.push(self.non_fatal_issues[m]);
            proof {
                assert(out@ =~= self.fatal_issues@.subrange(
                    0,
                    self.fatal_issues@.len() as int,
                ) + self.non_fatal_issues@.subrange(0, m + 1));
            }
            m = m + 1;
        }
        proof {
            assert(self.fatal_issues@.subrange(0, self.fatal_issues@.len() as int)
                =~= self.fatal_issues@);
            assert(self.non_fatal_issues@.subrange(0, self.non_fatal_issues@.len() as int)
                =~= self.non_fatal_issues@);
            assert(out@ =~= self.fatal_issues@ + self.non_fatal_issues@);
        }
        out
    }

    /// The fatal diagnostics.
    pub fn fatal_issues(&self) -> (r: &Vec<Issue>)
        ensures
            r@ == self.fatal_issues@,
    {
        &self.fatal_issues
    }

    /// The advisory diagnostics.
    pub fn warnings(&self) -> (r: &Vec<Issue>)
        ensures
            r@ == self.non_fatal_issues@,
    {
        &self.non_fatal_issues
    }

    /// The syntax when nothing fatal was found, otherwise the fatal
    /// diagnostics.
    pub fn into_result(self) -> (r: Result<T, Vec<Issue>>)
        ensures
            self.fatal_issues@.len() == 0 ==> ({
                &&& r matches Ok(s)
                &&& s == self.syntax
            }),
            self.fatal_issues@.len() > 0 ==> ({
                &&& r matches Err(e)
                &&& e@ == self.fatal_issues@
            }),
    {
        if self.fatal_issues.len() == 0 {
            Ok(self.syntax)
        } else {
            Err(self.fatal_issues)
        }
    }

    /// The syntax, whatever was reported.
    pub fn syntax(&self) -> (r: &T)
        ensures
            r == &self.syntax,
    {
        &self.syntax
    }

    /// The syntax, consuming the result.
    pub fn into_syntax(self) -> (r: T)
        ensures
            r == self.syntax,
    {
        self.syntax
    }

    /// The same result with the syntax passed through `f`.
    pub fn map<U, F: FnOnce(T) -> U>(self, f: F) -> (r: ParseResult<U>)
        requires
            call_requires(f, (self.syntax,)),
        ensures
            call_ensures(f, (self.syntax,), r.syntax),
            r.unsafe_character_encoding == self.unsafe_character_encoding,
            r.fatal_issues@ == self.fatal_issues@,
            r.non_fatal_issues@ == self.non_fatal_issues@,
            r.tracked_locations == self.tracked_locations,
    {
        let ParseResult {
            syntax,
            unsafe_character_encoding,
            fatal_issues,
            non_fatal_issues,
            tracked_locations,
        } = self;
        ParseResult {
            syntax: f(syntax),
            unsafe_character_encoding,
            fatal_issues,
            non_fatal_issues,
            tracked_locations,
        }
    }
}

/// The recognized parse options; see each field's type for its meaning.
#[derive(Debug)]
pub struct ParseOptions {
    first_line_behavior: FirstLineBehavior,
    src_convention: SourceConvention,
    encoding_mode: EncodingMode,
    tab_width: u32,
    check_issues: bool,
    compute_oob: bool,
    pub quirk_settings: QuirkSettings,
}

impl ParseOptions {
    /// The spec-level view of the fields that drive parsing.
    pub closed spec fn spec_flb(self) -> FirstLineBehavior {
        self.first_line_behavior
    }

    /// The source convention chosen.
    pub closed spec fn spec_conv(self) -> SourceConvention {
        self.src_convention
    }

    /// The tab width chosen.
    pub closed spec fn spec_tab(self) -> u32 {
        self.tab_width
    }

    /// Whether diagnostics are populated.
    pub closed spec fn spec_check_issues(self) -> bool {
        self.check_issues
    }

    /// The quirk switches chosen.
    pub closed spec fn spec_quirks(self) -> QuirkSettings {
        self.quirk_settings
    }

    /// The encoding mode chosen.
    pub closed spec fn spec_encoding_mode(self) -> EncodingMode {
        self.encoding_mode
    }

    /// Whether embedded tabs, newlines and line continuations are tracked.
    pub closed spec fn spec_compute_oob(self) -> bool {
        self.compute_oob
    }

    /// A constructor that requires every option.
    pub fn make(
        first_line_behavior: FirstLineBehavior,
        src_convention: SourceConvention,
        encoding_mode: EncodingMode,
        tab_width: u32,
        quirk_settings: QuirkSettings,
    ) -> (r: ParseOptions)
        ensures
            r.spec_flb() == first_line_behavior,
            r.spec_conv() == src_convention,
            r.spec_encoding_mode() == encoding_mode,
            r.spec_tab() == tab_width,
            r.spec_quirks() == quirk_settings,
            r.spec_check_issues(),
            r.spec_compute_oob(),
    {
        ParseOptions {
            first_line_behavior,
            src_convention,
            encoding_mode,
            tab_width,
            check_issues: true,
            compute_oob: true,
            quirk_settings,
        }
    }

    /// The same options with another tab width; every other option is
    /// kept.
    pub fn tab_width(self, tab_width: u32) -> (r: ParseOptions)
        ensures
            r.spec_tab() == tab_width,
            r.spec_flb() == self.spec_flb(),
            r.spec_conv() == self.spec_conv(),
            r.spec_encoding_mode() == self.spec_encoding_mode(),
            r.spec_quirks() == self.spec_quirks(),
            r.spec_check_issues() == self.spec_check_issues(),
            r.spec_compute_oob() == self.spec_compute_oob(),
    {
        ParseOptions { tab_width, ..self }
    }

    /// The same options with another source convention; every other
    /// option is kept.
    pub fn source_convention(self, src_convention: SourceConvention) -> (r: ParseOptions)
        ensures
            r.spec_conv() == src_convention,
            r.spec_flb() == self.spec_flb(),
            r.spec_tab() == self.spec_tab(),
            r.spec_encoding_mode() == self.spec_encoding_mode(),
            r.spec_quirks() == self.spec_quirks(),
            r.spec_check_issues() == self.spec_check_issues(),
            r.spec_compute_oob() == self.spec_compute_oob(),
    {
        ParseOptions { src_convention, ..self }
    }

    /// The same options with another first-line policy; every other
    /// option is kept.
    pub fn first_line_behavior(self, first_line_behavior: FirstLineBehavior) -> (r: ParseOptions)
        ensures
            r.spec_flb() == first_line_behavior,
            r.spec_conv() == self.spec_conv(),
            r.spec_tab() == self.spec_tab(),
            r.spec_encoding_mode() == self.spec_encoding_mode(),
            r.spec_quirks() == self.spec_quirks(),
            r.spec_check_issues() == self.spec_check_issues(),
            r.spec_compute_oob() == self.spec_compute_oob(),
    {
        ParseOptions { first_line_behavior, ..self }
    }
}

impl Default for ParseOptions {
    /// The default options: not a script, line/column locations, normal
    /// encoding, a tab width of 4, diagnostics on.
    fn default() -> (r: ParseOptions)
        ensures
            r.spec_flb() == FirstLineBehavior::NotScript,
            r.spec_conv() == SourceConvention::LineColumn,
            r.spec_encoding_mode() == EncodingMode::Normal,
            r.spec_tab() == crate::source::DEFAULT_TAB_WIDTH,
            r.spec_quirks() == (QuirkSettings {
                infix_binary_at: false,
                flatten_times: false,
                old_at_at_at: false,
            }),
            r.spec_check_issues(),
            r.spec_compute_oob(),
    {
        ParseOptions {
            first_line_behavior: FirstLineBehavior::NotScript,
            src_convention: SourceConvention::LineColumn,
            encoding_mode: EncodingMode::Normal,
            tab_width: crate::source::DEFAULT_TAB_WIDTH,
            check_issues: true,
            compute_oob: true,
            quirk_settings: QuirkSettings::default(),
        }
    }
}

/// Whether the options ask for the `#!` first line to be consumed.
pub open spec fn spec_skip_shebang(flb: FirstLineBehavior) -> bool {
    !(flb is NotScript)
}

/// The issue tag reporting a given error token kind, executably.
fn ex_token_error_tag(k: TokenKind) -> (r: crate::issue::IssueTag)
    ensures
        r == crate::cst::token_error_tag(k),
{
    match k {
        TokenKind::Error_ExpectedOperand => crate::issue::IssueTag::ExpectedOperand,
        TokenKind::Error_UnhandledCharacter => crate::issue::IssueTag::UnhandledCharacter,
        TokenKind::Error_Number => crate::issue::IssueTag::InvalidNumber,
        TokenKind::Error_ExpectedLetterlike => crate::issue::IssueTag::ExpectedLetterlike,
        TokenKind::Error_ExpectedTag => crate::issue::IssueTag::ExpectedTag,
        TokenKind::Error_ExpectedFile => crate::issue::IssueTag::ExpectedFile,
        TokenKind::Error_UnterminatedComment => crate::issue::IssueTag::UnterminatedComment,
        TokenKind::Error_UnterminatedString => crate::issue::IssueTag::UnterminatedString,
        TokenKind::Error_UnexpectedCloser => crate::issue::IssueTag::UnexpectedCloser,
        TokenKind::Error_UnsafeCharacterEncoding
            => crate::issue::IssueTag::UnsafeCharacterEncoding,
        TokenKind::Error_UnexpectedCommentCloser => crate::issue::IssueTag::UnexpectedCloser,
        _ => crate::issue::IssueTag::UnhandledCharacter,
    }
}

/// The issue tag reporting a syntax-error node, executably.
fn ex_syntax_error_tag(kind: SyntaxErrorKind) -> (r: crate::issue::IssueTag)
    ensures
        r == crate::cst::syntax_error_tag(kind),
{
    match kind {
        SyntaxErrorKind::ExpectedSet => crate::issue::IssueTag::ExpectedSet,
        SyntaxErrorKind::ExpectedTilde => crate::issue::IssueTag::ExpectedTilde,
        SyntaxErrorKind::ExpectedSingleExpression => crate::issue::IssueTag::CommaTopLevel,
        SyntaxErrorKind::MissingCloser => crate::issue::IssueTag::MissingCloser,
    }
}

/// Collects every diagnostic of a tree, in order; see
/// [`crate::cst::gcst_issues`].
#[verifier::rlimit(60)]
fn collect_node_issues(c: &Cst, out: &mut Vec<Issue>)
    ensures
        final(out)@ == old(out)@ + gcst_issues(cst_g(*c)),
    decreases crate::cst::gsize(cst_g(*c)), 1int,
{
    let ghost g0 = cst_g(*c);
    match c {
        Cst::Token(t) => {
            let ghost gt = crate::cst::tok_g(*t);
            if matches!(t.tok, TokenKind::Error_InfixImplicitNull) {
                out.push(
                    Issue {
                        tag: crate::issue::IssueTag::CommaMissingArgument,
                        sev: Severity::Warning,
                        span: t.src,
                        confidence: 100,
                    },
                );
                proof {
                    assert(final(out)@ =~= old(out)@ + crate::cst::token_issues(gt));
                }
            } else if t.is_error() {
                let tag = ex_token_error_tag(t.tok);
                out.push(Issue { tag, sev: Severity::Fatal, span: t.src, confidence: 100 });
                proof {
                    assert(final(out)@ =~= old(out)@ + crate::cst::token_issues(gt));
                }
            } else {
                proof {
                    assert(crate::cst::token_issues(gt) =~= Seq::<Issue>::empty());
                    assert(final(out)@ =~= old(out)@ + crate::cst::token_issues(gt));
                }
            }
        },
        Cst::GroupMissingCloser { op: _, children } => {
            let span = crate::abstract_cst::ex_cst_span(c);
            out.push(
                Issue {
                    tag: crate::issue::IssueTag::MissingCloser,
                    sev: Severity::Fatal,
                    span,
                    confidence: 100,
                },
            );
            let ghost mid = out@;
            collect_children_issues(children, out, Ghost(g0));
            proof {
                assert(final(out)@ =~= old(out)@ + gcst_issues(g0));
            }
        },
        Cst::SyntaxError { kind, children } => {
            let span = crate::abstract_cst::ex_cst_span(c);
            let tag = ex_syntax_error_tag(*kind);
            out.push(Issue { tag, sev: Severity::Fatal, span, confidence: 100 });
            let ghost mid = out@;
            collect_children_issues(children, out, Ghost(g0));
            proof {
                assert(final(out)@ =~= old(out)@ + gcst_issues(g0));
            }
        },
        Cst::Prefix { children, .. } => {
            collect_children_issues(children, out, Ghost(g0));
            proof {
                assert(final(out)@ =~= old(out)@ + gcst_issues(g0));
            }
        },
        Cst::Infix { children, .. } => {
            collect_children_issues(children, out, Ghost(g0));
            proof {
                assert(final(out)@ =~= old(out)@ + gcst_issues(g0));
            }
        },
        Cst::Binary { children, .. } => {
            collect_children_issues(children, out, Ghost(g0));
            proof {
                assert(final(out)@ =~= old(out)@ + gcst_issues(g0));
            }
        },
        Cst::Postfix { children, .. } => {
            collect_children_issues(children, out, Ghost(g0));
            proof {
                assert(final(out)@ =~= old(out)@ + gcst_issues(g0));
            }
        },
        Cst::Ternary { children, .. } => {
            collect_children_issues(children, out, Ghost(g0));
            proof {
                assert(final(out)@ =~= old(out)@ + gcst_issues(g0));
            }
        },
        Cst::Group { children, .. } => {
            collect_children_issues(children, out, Ghost(g0));
            proof {
                assert(final(out)@ =~= old(out)@ + gcst_issues(g0));
            }
        },
        Cst::Call { children, .. } => {
            collect_children_issues(children, out, Ghost(g0));
            proof {
                assert(final(out)@ =~= old(out)@ + gcst_issues(g0));
            }
        },
        Cst::Compound { children, .. } => {
            collect_children_issues(children, out, Ghost(g0));
            proof {
                assert(final(out)@ =~= old(out)@ + gcst_issues(g0));
            }
        },
    }
}

/// Collects the diagnostics of every child, left to right.
fn collect_children_issues(children: &Vec<Cst>, out: &mut Vec<Issue>, Ghost(g0): Ghost<GCst>)
    requires
        g0 matches GCst::Node(tag, cs) && cs == cst_gs(children@),
    ensures
        final(out)@ == old(out)@ + crate::cst::issues_of(cst_gs(children@)),
    decreases crate::cst::gsize(g0), 0int,
{
    let ghost gch = cst_gs(children@);
    proof {
        crate::cst::lemma_cst_gs_len(children@);
        assert(gch.skip(0) =~= gch);
    }
    let mut k: usize = 0;
    while k < children.len()
        invariant
            g0 matches GCst::Node(tag, cs) && cs == gch,
            gch == cst_gs(children@),
            gch.len() == children@.len(),
            k <= children@.len(),
            out@ + crate::cst::issues_of(gch.skip(k as int)) == old(out)@
                + crate::cst::issues_of(gch),
        decreases children@.len() - k,
    {
        proof {
            crate::cst::lemma_cst_gs_index(children@, k as int);
            crate::cst::lemma_gs_size_index(gch, k as int);
            assert(gch.skip(k as int)[0] == gch[k as int]);
            assert(gch.skip(k as int).drop_first() =~= gch.skip(k + 1));
        }
        let ghost pre = out@;
        collect_node_issues(&children[k], out);
        proof {
            assert(out@ + crate::cst::issues_of(gch.skip(k + 1)) =~= pre + (gcst_issues(
                gch[k as int],
            ) + crate::cst::issues_of(gch.skip(k + 1))));
        }
        k = k + 1;
    }
    proof {
        assert(crate::cst::issues_of(gch.skip(children@.len() as int)) =~= Seq::<
            Issue,
        >::empty());
        assert(final(out)@ =~= old(out)@ + crate::cst::issues_of(gch));
    }
}

/// The fatal part of an issue list, in order.
pub open spec fn fatal_of(s: Seq<Issue>) -> Seq<Issue> {
    s.filter(|i: Issue| i.sev is Fatal)
}

/// The advisory part of an issue list, in order.
pub open spec fn nonfatal_of(s: Seq<Issue>) -> Seq<Issue> {
    s.filter(|i: Issue| !(i.sev is Fatal))
}

/// Splits an issue list into its fatal and advisory parts.
fn split_issues(all: Vec<Issue>) -> (r: (Vec<Issue>, Vec<Issue>))
    ensures
        r.0@ == fatal_of(all@),
        r.1@ == nonfatal_of(all@),
{
    proof {
        reveal(Seq::filter);
    }
    let mut fat: Vec<Issue> = Vec::new();
    let mut non: Vec<Issue> = Vec::new();
    let mut k: usize = 0;
    while k < all.len()
        invariant
            k <= all@.len(),
            fat@ == fatal_of(all@.subrange(0, k as int)),
            non@ == nonfatal_of(all@.subrange(0, k as int)),
        decreases all@.len() - k,
    {
        let i = all[k];
        proof {
            reveal(Seq::filter);
            assert(all@.subrange(0, k + 1).drop_last() =~= all@.subrange(0, k as int));
            assert(all@.subrange(0, k + 1).last() == i);
        }
        if i.is_fatal() {
            fat.push(i);
        } else {
            non.push(i);
        }
        k = k + 1;
    }
    proof {
        assert(all@.subrange(0, all@.len() as int) =~= all@);
    }
    (fat, non)
}

/// The abstracted stream: top-level trivia dropped, every expression
/// aggregated and abstracted.
pub open spec fn ab_stream(items: Seq<GCst>) -> Seq<crate::ast::GAst>
    decreases items,
{
    if items.len() == 0 {
        Seq::empty()
    } else if crate::agg::is_trivia_leaf(items[0]) {
        ab_stream(items.drop_first())
    } else {
        seq![crate::abstract_cst::ab(crate::agg::agg(items[0]))] + ab_stream(
            items.drop_first(),
        )
    }
}

/// The whole concrete parse of an input under the given options.
pub open spec fn spec_cst_stream(input: Seq<u8>, opts: ParseOptions) -> Seq<GCst> {
    parse_stream(
        PIn { input, tab: if opts.spec_tab() >= 1 {
            opts.spec_tab()
        } else {
            1u32
        } },
        spec_skip_shebang(opts.spec_flb()),
        start_location(opts.spec_conv()),
    )
}

/// Parse a string of Wolfram Language input into a sequence of tokens.
///
/// The tokens are exactly the scanner's entry stream: their concatenated
/// texts reproduce the input byte for byte, trivia and error tokens
/// included. Undecodable bytes become error tokens here rather than a
/// failure; the byte-input API reports those explicitly.
pub fn tokenize(input: &str, opts: &ParseOptions) -> (r: NodeSeq<Token>)
    ensures
        tokens_correspond(
            input.spec_bytes(),
            if opts.spec_tab() >= 1 {
                opts.spec_tab()
            } else {
                1u32
            },
            entry_stream(input.spec_bytes(), spec_skip_shebang(opts.spec_flb())),
            r.0@,
            start_location(opts.spec_conv()),
        ),
        concat_texts(r.0@) == input.spec_bytes(),
{
    let bytes = vstd::slice::slice_to_vec(input.as_bytes());
    let skip = !matches!(opts.spec_flb_ex(), FirstLineBehavior::NotScript);
    let (ts, _flag) = tokenize_core(bytes, opts.spec_conv_ex(), opts.spec_tab_ex(), skip);
    NodeSeq(ts)
}

/// Parse bytes of Wolfram Language input into a sequence of tokens, or
/// report the first unsafe character encoding found.
pub fn tokenize_bytes(input: &[u8], opts: &ParseOptions) -> (r: Result<
    NodeSeq<Token>,
    UnsafeCharacterEncoding,
>)
    ensures
        ({
            let es = entry_stream(input@, spec_skip_shebang(opts.spec_flb()));
            &&& (r is Ok <==> first_unsafe(input@, es) is None)
            &&& (r matches Err(f) ==> Some(f) == first_unsafe(input@, es))
            &&& (r matches Ok(ts) ==> tokens_correspond(
                input@,
                if opts.spec_tab() >= 1 {
                    opts.spec_tab()
                } else {
                    1u32
                },
                es,
                ts.0@,
                start_location(opts.spec_conv()),
            ) && concat_texts(ts.0@) == input@)
        }),
{
    let bytes = vstd::slice::slice_to_vec(input);
    let skip = !matches!(opts.spec_flb_ex(), FirstLineBehavior::NotScript);
    let (ts, flag) = tokenize_core(bytes, opts.spec_conv_ex(), opts.spec_tab_ex(), skip);
    match flag {
        Some(f) => Err(f),
        None => Ok(NodeSeq(ts)),
    }
}

impl ParseOptions {
    /// The first-line policy chosen.
    pub fn spec_flb_ex(&self) -> (r: FirstLineBehavior)
        ensures
            r == self.spec_flb(),
    {
        self.first_line_behavior
    }

    /// The source convention chosen.
    pub fn spec_conv_ex(&self) -> (r: SourceConvention)
        ensures
            r == self.spec_conv(),
    {
        self.src_convention
    }

    /// The tab width chosen.
    pub fn spec_tab_ex(&self) -> (r: u32)
        ensures
            r == self.spec_tab(),
    {
        self.tab_width
    }

    /// Whether diagnostics are populated.
    pub fn spec_check_issues_ex(&self) -> (r: bool)
        ensures
            r == self.spec_check_issues(),
    {
        self.check_issues
    }
}

/// Builds the result record for a concrete parse: diagnostics collected
/// from the trees when the options ask for them.
fn make_cst_result(
    items: Vec<Cst>,
    flag: Option<UnsafeCharacterEncoding>,
    check_issues: bool,
) -> (r: ParseResult<NodeSeq<Cst>>)
    ensures
        r.syntax.0@ == items@,
        r.unsafe_character_encoding == flag,
        check_issues ==> r.fatal_issues@ == fatal_of(crate::cst::issues_of(cst_gs(items@)))
            && r.non_fatal_issues@ == nonfatal_of(crate::cst::issues_of(cst_gs(items@))),
        !check_issues ==> r.fatal_issues@ == Seq::<Issue>::empty() && r.non_fatal_issues@
            == Seq::<Issue>::empty(),
        crate::tokenize::tracked_empty(r.tracked_locations),
{
    let (fat, non) = if check_issues {
        let mut all: Vec<Issue> = Vec::new();
        let ghost gits = cst_gs(items@);
        proof {
            crate::cst::lemma_cst_gs_len(items@);
            assert(gits.skip(0) =~= gits);
        }
        let mut k: usize = 0;
        while k < items.len()
            invariant
                gits == cst_gs(items@),
                gits.len() == items@.len(),
                k <= items@.len(),
                all@ + crate::cst::issues_of(gits.skip(k as int)) == crate::cst::issues_of(
                    gits,
                ),
            decreases items@.len() - k,
        {
            proof {
                crate::cst::lemma_cst_gs_index(items@, k as int);
                assert(gits.skip(k as int)[0] == gits[k as int]);
                assert(gits.skip(k as int).drop_first() =~= gits.skip(k + 1));
            }
            let ghost pre = all@;
            collect_node_issues(&items[k], &mut all);
            proof {
                assert(all@ + crate::cst::issues_of(gits.skip(k + 1)) =~= pre + (gcst_issues(
                    gits[k as int],
                ) + crate::cst::issues_of(gits.skip(k + 1))));
            }
            k = k + 1;
        }
        proof {
            assert(crate::cst::issues_of(gits.skip(items@.len() as int)) =~= Seq::<
                Issue,
            >::empty());
            assert(all@ =~= crate::cst::issues_of(gits));
        }
        split_issues(all)
    } else {
        (Vec::new(), Vec::new())
    };
    ParseResult {
        syntax: NodeSeq(items),
        unsafe_character_encoding: flag,
        fatal_issues: fat,
        non_fatal_issues: non,
        tracked_locations: TrackedSourceLocations::new(),
    }
}

/// Parse bytes of Wolfram Language input into a sequence of concrete
/// syntax trees, one per top-level expression, with top-level trivia as
/// standalone token items.
pub fn parse_bytes_cst_seq(bytes: &[u8], opts: &ParseOptions) -> (r: ParseResult<NodeSeq<Cst>>)
    ensures
        cst_gs(r.syntax.0@) == spec_cst_stream(bytes@, *opts),
        r.unsafe_character_encoding == first_unsafe(
            bytes@,
            entry_stream(bytes@, spec_skip_shebang(opts.spec_flb())),
        ),
        opts.spec_check_issues() ==> r.fatal_issues@ == fatal_of(
            crate::cst::issues_of(spec_cst_stream(bytes@, *opts)),
        ),
        opts.spec_check_issues() ==> r.non_fatal_issues@ == nonfatal_of(
            crate::cst::issues_of(spec_cst_stream(bytes@, *opts)),
        ),
        !opts.spec_check_issues() ==> r.fatal_issues@ == Seq::<Issue>::empty()
            && r.non_fatal_issues@ == Seq::<Issue>::empty(),
        crate::tokenize::tracked_empty(r.tracked_locations),
{
    let v1 = vstd::slice::slice_to_vec(bytes);
    let skip = !matches!(opts.spec_flb_ex(), FirstLineBehavior::NotScript);
    let (_ts, flag) = tokenize_core(v1, opts.spec_conv_ex(), opts.spec_tab_ex(), skip);
    let v2 = vstd::slice::slice_to_vec(bytes);
    let tab = opts.spec_tab_ex();
    let tab1: u32 = if tab >= 1 {
        tab
    } else {
        1
    };
    let items = ex_toplevel(&v2, tab1, skip, opts.spec_conv_ex());
    make_cst_result(items, flag, opts.spec_check_issues_ex())
}

/// Parse a string of Wolfram Language input into a sequence of concrete
/// syntax trees.
pub fn parse_cst_seq(input: &str, opts: &ParseOptions) -> (r: ParseResult<NodeSeq<Cst>>)
    ensures
        cst_gs(r.syntax.0@) == spec_cst_stream(input.spec_bytes(), *opts),
        r.unsafe_character_encoding == first_unsafe(
            input.spec_bytes(),
            entry_stream(input.spec_bytes(), spec_skip_shebang(opts.spec_flb())),
        ),
        opts.spec_check_issues() ==> r.fatal_issues@ == fatal_of(
            crate::cst::issues_of(spec_cst_stream(input.spec_bytes(), *opts)),
        ),
        opts.spec_check_issues() ==> r.non_fatal_issues@ == nonfatal_of(
            crate::cst::issues_of(spec_cst_stream(input.spec_bytes(), *opts)),
        ),
        !opts.spec_check_issues() ==> r.fatal_issues@ == Seq::<Issue>::empty()
            && r.non_fatal_issues@ == Seq::<Issue>::empty(),
        crate::tokenize::tracked_empty(r.tracked_locations),
{
    parse_bytes_cst_seq(input.as_bytes(), opts)
}

/// The single tree of a parse: the one expression when the input held
/// exactly one, otherwise a syntax-error node carrying every item.
pub open spec fn spec_single(items: Seq<GCst>) -> GCst {
    if items.len() == 1 {
        items[0]
    } else {
        GCst::Node(NodeTag::SyntaxErrorT(SyntaxErrorKind::ExpectedSingleExpression), items)
    }
}

/// Wraps a parsed stream into one tree; see [`spec_single`].
fn make_single(items: Vec<Cst>) -> (r: Cst)
    ensures
        cst_g(r) == spec_single(cst_gs(items@)),
{
    proof {
        crate::cst::lemma_cst_gs_len(items@);
    }
    if items.len() == 1 {
        let mut v = items;
        let c = v.remove(0);
        proof {
            crate::cst::lemma_cst_gs_index(items@, 0);
            assert(cst_gs(items@) =~= seq![cst_g(c)]);
        }
        c
    } else {
        Cst::SyntaxError { kind: SyntaxErrorKind::ExpectedSingleExpression, children: items }
    }
}

/// Parse bytes containing Wolfram Language input into one concrete syntax
/// tree; an input of zero or several expressions becomes a syntax-error
/// node holding them all, with a fatal issue.
pub fn parse_bytes_cst(input: &[u8], opts: &ParseOptions) -> (r: ParseResult<Cst>)
    ensures
        cst_g(r.syntax) == spec_single(spec_cst_stream(input@, *opts)),
        r.unsafe_character_encoding == first_unsafe(
            input@,
            entry_stream(input@, spec_skip_shebang(opts.spec_flb())),
        ),
        opts.spec_check_issues() ==> r.fatal_issues@ == fatal_of(
            gcst_issues(spec_single(spec_cst_stream(input@, *opts))),
        ),
        opts.spec_check_issues() ==> r.non_fatal_issues@ == nonfatal_of(
            gcst_issues(spec_single(spec_cst_stream(input@, *opts))),
        ),
        !opts.spec_check_issues() ==> r.fatal_issues@ == Seq::<Issue>::empty()
            && r.non_fatal_issues@ == Seq::<Issue>::empty(),
        crate::tokenize::tracked_empty(r.tracked_locations),
{
    let v1 = vstd::slice::slice_to_vec(input);
    let skip = !matches!(opts.spec_flb_ex(), FirstLineBehavior::NotScript);
    let (_ts, flag) = tokenize_core(v1, opts.spec_conv_ex(), opts.spec_tab_ex(), skip);
    let v2 = vstd::slice::slice_to_vec(input);
    let tab = opts.spec_tab_ex();
    let tab1: u32 = if tab >= 1 {
        tab
    } else {
        1
    };
    let items = ex_toplevel(&v2, tab1, skip, opts.spec_conv_ex());
    let single = make_single(items);
    let (fat, non) = if opts.spec_check_issues_ex() {
        let mut all: Vec<Issue> = Vec::new();
        collect_node_issues(&single, &mut all);
        proof {
            assert(all@ =~= gcst_issues(cst_g(single)));
        }
        split_issues(all)
    } else {
        (Vec::new(), Vec::new())
    };
    ParseResult {
        syntax: single,
        unsafe_character_encoding: flag,
        fatal_issues: fat,
        non_fatal_issues: non,
        tracked_locations: TrackedSourceLocations::new(),
    }
}

/// Parse a string containing Wolfram Language input into one concrete
/// syntax tree.
pub fn parse_cst(input: &str, opts: &ParseOptions) -> (r: ParseResult<Cst>)
    ensures
        cst_g(r.syntax) == spec_single(spec_cst_stream(input.spec_bytes(), *opts)),
        r.unsafe_character_encoding == first_unsafe(
            input.spec_bytes(),
            entry_stream(input.spec_bytes(), spec_skip_shebang(opts.spec_flb())),
        ),
        opts.spec_check_issues() ==> r.fatal_issues@ == fatal_of(
            gcst_issues(spec_single(spec_cst_stream(input.spec_bytes(), *opts))),
        ),
        opts.spec_check_issues() ==> r.non_fatal_issues@ == nonfatal_of(
            gcst_issues(spec_single(spec_cst_stream(input.spec_bytes(), *opts))),
        ),
        !opts.spec_check_issues() ==> r.fatal_issues@ == Seq::<Issue>::empty()
            && r.non_fatal_issues@ == Seq::<Issue>::empty(),
        crate::tokenize::tracked_empty(r.tracked_locations),
{
    parse_bytes_cst(input.as_bytes(), opts)
}

/// Aggregates and abstracts a parsed stream; see [`ab_stream`].
fn ex_ab_stream(items: Vec<Cst>) -> (r: Vec<Ast>)
    ensures
        ast_gs(r@) == ab_stream(cst_gs(items@)),
{
    let ghost gits = cst_gs(items@);
    let mut rest = items;
    let mut out: Vec<Ast> = Vec::new();
    proof {
        assert(ast_gs(out@) =~= Seq::<crate::ast::GAst>::empty());
    }
    while rest.len() > 0
        invariant
            ast_gs(out@) + ab_stream(cst_gs(rest@)) == ab_stream(gits),
        decreases rest@.len(),
    {
        let c = rest.remove(0);
        let ghost gc = cst_g(c);
        let ghost grest_pre = cst_gs(rest@.insert(0, c));
        proof {
            assert(rest@.insert(0, c).drop_first() =~= rest@);
            assert(rest@.insert(0, c)[0] == c);
            assert(grest_pre == seq![gc] + cst_gs(rest@)) by {
                assert(grest_pre =~= seq![gc] + cst_gs(rest@));
            }
        }
        let is_trivia_item = match &c {
            Cst::Token(tk) => tk.is_trivia(),
            _ => false,
        };
        proof {
            assert(is_trivia_item == crate::agg::is_trivia_leaf(gc));
            assert(grest_pre[0] == gc);
            assert(grest_pre.drop_first() =~= cst_gs(rest@));
        }
        if is_trivia_item {
            proof {
                assert(ab_stream(grest_pre) == ab_stream(cst_gs(rest@)));
            }
        } else {
            let ag = crate::agg::aggregate(c);
            let a = crate::abstract_cst::ex_abstract(ag);
            let ghost ga = crate::ast::ast_g(a);
            let ghost opre = ast_gs(out@);
            proof {
                crate::ast::lemma_ast_gs_push(out@, a);
            }
            out.push(a);
            proof {
                assert(ab_stream(grest_pre) == seq![ga] + ab_stream(cst_gs(rest@)));
                assert(ast_gs(out@) + ab_stream(cst_gs(rest@)) =~= opre + (seq![ga]
                    + ab_stream(cst_gs(rest@))));
            }
        }
    }
    proof {
        assert(cst_gs(rest@) =~= Seq::<Cst>::empty().map_values(|x: Cst| cst_g(x)));
        assert(cst_gs(rest@).len() == 0) by {
            crate::cst::lemma_cst_gs_len(rest@);
        }
        assert(ab_stream(cst_gs(rest@)) =~= Seq::<crate::ast::GAst>::empty());
        assert(ast_gs(out@) =~= ab_stream(gits));
    }
    out
}


/// The fatal diagnostic reported when an input expected to hold exactly
/// one expression held none or several.
pub open spec fn wrap_issue() -> Issue {
    Issue {
        tag: crate::issue::IssueTag::CommaTopLevel,
        sev: Severity::Fatal,
        span: Span {
            start_loc: Location::CharacterIndex { index: 0u32 },
            end_loc: Location::CharacterIndex { index: 0u32 },
        },
        confidence: 100u32,
    }
}

/// The single abstract tree of a parse; zero or several expressions
/// become a syntax-error node holding them all.
pub open spec fn spec_single_ast(items: Seq<crate::ast::GAst>) -> crate::ast::GAst {
    if items.len() == 1 {
        items[0]
    } else {
        crate::ast::GAst::SyntaxError {
            kind: SyntaxErrorKind::ExpectedSingleExpression,
            children: items,
            span: Span {
                start_loc: Location::CharacterIndex { index: 0u32 },
                end_loc: Location::CharacterIndex { index: 0u32 },
            },
        }
    }
}

/// Parse bytes of Wolfram Language input into a sequence of abstract
/// syntax trees: the concrete parse, aggregated and abstracted, with the
/// diagnostics of the concrete parse.
pub fn parse_bytes_ast_seq(bytes: &[u8], opts: &ParseOptions) -> (r: ParseResult<NodeSeq<Ast>>)
    ensures
        ast_gs(r.syntax.0@) == ab_stream(spec_cst_stream(bytes@, *opts)),
        r.unsafe_character_encoding == first_unsafe(
            bytes@,
            entry_stream(bytes@, spec_skip_shebang(opts.spec_flb())),
        ),
        opts.spec_check_issues() ==> r.fatal_issues@ == fatal_of(
            crate::cst::issues_of(spec_cst_stream(bytes@, *opts)),
        ),
        opts.spec_check_issues() ==> r.non_fatal_issues@ == nonfatal_of(
            crate::cst::issues_of(spec_cst_stream(bytes@, *opts)),
        ),
        !opts.spec_check_issues() ==> r.fatal_issues@ == Seq::<Issue>::empty()
            && r.non_fatal_issues@ == Seq::<Issue>::empty(),
        crate::tokenize::tracked_empty(r.tracked_locations),
{
    let r1 = parse_bytes_cst_seq(bytes, opts);
    let ParseResult {
        syntax: NodeSeq(items),
        unsafe_character_encoding,
        fatal_issues,
        non_fatal_issues,
        tracked_locations,
    } = r1;
    let asts = ex_ab_stream(items);
    ParseResult {
        syntax: NodeSeq(asts),
        unsafe_character_encoding,
        fatal_issues,
        non_fatal_issues,
        tracked_locations,
    }
}

/// Parse a string of Wolfram Language input into a sequence of abstract
/// syntax trees.
pub fn parse_ast_seq(input: &str, opts: &ParseOptions) -> (r: ParseResult<NodeSeq<Ast>>)
    ensures
        ast_gs(r.syntax.0@) == ab_stream(spec_cst_stream(input.spec_bytes(), *opts)),
        r.unsafe_character_encoding == first_unsafe(
            input.spec_bytes(),
            entry_stream(input.spec_bytes(), spec_skip_shebang(opts.spec_flb())),
        ),
        opts.spec_check_issues() ==> r.fatal_issues@ == fatal_of(
            crate::cst::issues_of(spec_cst_stream(input.spec_bytes(), *opts)),
        ),
        opts.spec_check_issues() ==> r.non_fatal_issues@ == nonfatal_of(
            crate::cst::issues_of(spec_cst_stream(input.spec_bytes(), *opts)),
        ),
        !opts.spec_check_issues() ==> r.fatal_issues@ == Seq::<Issue>::empty()
            && r.non_fatal_issues@ == Seq::<Issue>::empty(),
        crate::tokenize::tracked_empty(r.tracked_locations),
{
    parse_bytes_ast_seq(input.as_bytes(), opts)
}

/// Parse bytes containing Wolfram Language input into one abstract syntax
/// tree. An input of zero or several expressions becomes a syntax-error
/// node holding them all, with a fatal diagnostic added for the wrap.
pub fn parse_bytes_ast(bytes: &[u8], opts: &ParseOptions) -> (r: ParseResult<Ast>)
    ensures
        ast_g(r.syntax) == spec_single_ast(ab_stream(spec_cst_stream(bytes@, *opts))),
        r.unsafe_character_encoding == first_unsafe(
            bytes@,
            entry_stream(bytes@, spec_skip_shebang(opts.spec_flb())),
        ),
        opts.spec_check_issues() && ab_stream(spec_cst_stream(bytes@, *opts)).len() == 1
            ==> r.fatal_issues@ == fatal_of(
            crate::cst::issues_of(spec_cst_stream(bytes@, *opts)),
        ),
        opts.spec_check_issues() && ab_stream(spec_cst_stream(bytes@, *opts)).len() != 1
            ==> r.fatal_issues@ == fatal_of(
            crate::cst::issues_of(spec_cst_stream(bytes@, *opts)),
        ).push(wrap_issue()),
        opts.spec_check_issues() ==> r.non_fatal_issues@ == nonfatal_of(
            crate::cst::issues_of(spec_cst_stream(bytes@, *opts)),
        ),
        !opts.spec_check_issues() ==> r.fatal_issues@ == Seq::<Issue>::empty()
            && r.non_fatal_issues@ == Seq::<Issue>::empty(),
        crate::tokenize::tracked_empty(r.tracked_locations),
{
    let r1 = parse_bytes_ast_seq(bytes, opts);
    let ParseResult {
        syntax: NodeSeq(mut asts),
        unsafe_character_encoding,
        fatal_issues,
        non_fatal_issues,
        tracked_locations,
    } = r1;
    let mut fatal_issues = fatal_issues;
    let ghost gasts = ast_gs(asts@);
    proof {
        lemma_ast_gs_len(asts@);
    }
    let single = if asts.len() == 1 {
        let ghost orig = asts@;
        let a = asts.remove(0);
        proof {
            lemma_ast_gs_index(gasts, orig, 0);
            assert(a == orig[0]);
        }
        a
    } else {
        if opts.spec_check_issues_ex() {
            fatal_issues.push(
                Issue {
                    tag: crate::issue::IssueTag::CommaTopLevel,
                    sev: Severity::Fatal,
                    span: Span {
                        start_loc: Location::CharacterIndex { index: 0 },
                        end_loc: Location::CharacterIndex { index: 0 },
                    },
                    confidence: 100,
                },
            );
            proof {
                assert(fatal_issues@.last() == wrap_issue());
                assert(fatal_issues@ =~= fatal_issues@.drop_last().push(wrap_issue()));
            }
        }
        Ast::SyntaxError {
            kind: SyntaxErrorKind::ExpectedSingleExpression,
            children: asts,
            data: crate::ast::AstMetadata {
                span: Span {
                    start_loc: Location::CharacterIndex { index: 0 },
                    end_loc: Location::CharacterIndex { index: 0 },
                },
            },
        }
    };
    ParseResult {
        syntax: single,
        unsafe_character_encoding,
        fatal_issues,
        non_fatal_issues,
        tracked_locations,
    }
}

/// The mirror of a node list has the same length.
proof fn lemma_ast_gs_len(cs: Seq<Ast>)
    ensures
        ast_gs(cs).len() == cs.len(),
    decreases cs,
{
    if cs.len() > 0 {
        lemma_ast_gs_len(cs.drop_first());
    }
}

/// The single mirror of a singleton list.
proof fn lemma_ast_gs_index(gasts: Seq<crate::ast::GAst>, orig: Seq<Ast>, k: int)
    requires
        orig.len() == 1,
        k == 0,
        gasts == ast_gs(orig),
    ensures
        gasts.len() == 1 && gasts[0] == ast_g(orig[0]),
{
    lemma_ast_gs_len(orig);
}

/// Parse a string containing Wolfram Language input into one abstract
/// syntax tree.
pub fn parse_ast(input: &str, opts: &ParseOptions) -> (r: ParseResult<Ast>)
    ensures
        ast_g(r.syntax) == spec_single_ast(
            ab_stream(spec_cst_stream(input.spec_bytes(), *opts)),
        ),
        r.unsafe_character_encoding == first_unsafe(
            input.spec_bytes(),
            entry_stream(input.spec_bytes(), spec_skip_shebang(opts.spec_flb())),
        ),
        opts.spec_check_issues() && ab_stream(
            spec_cst_stream(input.spec_bytes(), *opts),
        ).len() == 1 ==> r.fatal_issues@ == fatal_of(
            crate::cst::issues_of(spec_cst_stream(input.spec_bytes(), *opts)),
        ),
        opts.spec_check_issues() && ab_stream(
            spec_cst_stream(input.spec_bytes(), *opts),
        ).len() != 1 ==> r.fatal_issues@ == fatal_of(
            crate::cst::issues_of(spec_cst_stream(input.spec_bytes(), *opts)),
        ).push(wrap_issue()),
        opts.spec_check_issues() ==> r.non_fatal_issues@ == nonfatal_of(
            crate::cst::issues_of(spec_cst_stream(input.spec_bytes(), *opts)),
        ),
        !opts.spec_check_issues() ==> r.fatal_issues@ == Seq::<Issue>::empty()
            && r.non_fatal_issues@ == Seq::<Issue>::empty(),
        crate::tokenize::tracked_empty(r.tracked_locations),
{
    parse_bytes_ast(input.as_bytes(), opts)
}

/// Reads exactly one token from the input, in the requested stringify
/// mode: an ordinary token, a tag as after `::`, or a file name as after
/// `<<`.
pub fn parse_to_token(bytes: &[u8], opts: &ParseOptions, mode: StringifyMode) -> (r: ParseResult<
    NodeSeq<Token>,
>)
    ensures
        r.syntax.0@.len() == 1,
        ({
            let s = match mode {
                StringifyMode::Normal => crate::tokenize::scan(bytes@, 0, true),
                StringifyMode::Tag => scan_tag(bytes@, 0),
                StringifyMode::File => scan_file(bytes@, 0),
            };
            let tk = r.syntax.0@[0];
            let gt = crate::cst::tok_g(tk);
            &&& tk.tok == s.kind
            &&& tk.text@ == bytes@.subrange(0, s.end)
            &&& tk.src.start_loc == start_location(opts.spec_conv())
            &&& tk.src.end_loc == crate::tokenize::loc_after(
                start_location(opts.spec_conv()),
                bytes@.subrange(0, s.end),
                if opts.spec_tab() >= 1 {
                    opts.spec_tab()
                } else {
                    1u32
                },
            )
            &&& r.fatal_issues@ == fatal_of(crate::cst::token_issues(gt))
            &&& r.non_fatal_issues@ == nonfatal_of(crate::cst::token_issues(gt))
        }),
        r.unsafe_character_encoding is None,
        crate::tokenize::tracked_empty(r.tracked_locations),
{
    let v = vstd::slice::slice_to_vec(bytes);
    let tab = opts.spec_tab_ex();
    let tab1: u32 = if tab >= 1 {
        tab
    } else {
        1
    };
    let loc0 = match opts.spec_conv_ex() {
        SourceConvention::LineColumn => Location::LineColumn { line: 1, column: 1 },
        SourceConvention::CharacterIndex => Location::CharacterIndex { index: 0 },
    };
    proof {
        assert(loc0 == start_location(opts.spec_conv()));
    }
    let (kind, end) = match mode {
        StringifyMode::Normal => crate::tokenize::ex_scan(&v, 0, true),
        StringifyMode::Tag => crate::tokenize::ex_scan_tag(&v, 0),
        StringifyMode::File => crate::tokenize::ex_scan_file(&v, 0),
    };
    let text = crate::tokenize::bytes_range(&v, 0, end);
    let end_loc = crate::tokenize::ex_advance_loc(loc0, &v, 0, end, tab1);
    let tok = Token { tok: kind, text, src: Span { start_loc: loc0, end_loc } };
    let ghost gt = crate::cst::tok_g(tok);
    let is_err = tok.is_error();
    let span = tok.src;
    let mut ts: Vec<Token> = Vec::new();
    ts.push(tok);
    let mut fat: Vec<Issue> = Vec::new();
    let mut non: Vec<Issue> = Vec::new();
    proof {
        reveal(Seq::filter);
    }
    if matches!(kind, TokenKind::Error_InfixImplicitNull) {
        non.push(
            Issue {
                tag: crate::issue::IssueTag::CommaMissingArgument,
                sev: Severity::Warning,
                span,
                confidence: 100,
            },
        );
        proof {
            reveal(Seq::filter);
            assert(crate::cst::token_issues(gt).drop_last() =~= Seq::<Issue>::empty());
            assert(fatal_of(Seq::<Issue>::empty()) =~= Seq::<Issue>::empty());
            assert(nonfatal_of(Seq::<Issue>::empty()) =~= Seq::<Issue>::empty());
            assert(fat@ =~= fatal_of(crate::cst::token_issues(gt)));
            assert(non@ =~= nonfatal_of(crate::cst::token_issues(gt)));
        }
    } else if is_err {
        fat.push(
            Issue {
                tag: ex_token_error_tag(kind),
                sev: Severity::Fatal,
                span,
                confidence: 100,
            },
        );
        proof {
            reveal(Seq::filter);
            assert(crate::cst::token_issues(gt).drop_last() =~= Seq::<Issue>::empty());
            assert(fatal_of(Seq::<Issue>::empty()) =~= Seq::<Issue>::empty());
            assert(nonfatal_of(Seq::<Issue>::empty()) =~= Seq::<Issue>::empty());
            assert(fat@ =~= fatal_of(crate::cst::token_issues(gt)));
            assert(non@ =~= nonfatal_of(crate::cst::token_issues(gt)));
        }
    } else {
        proof {
            reveal(Seq::filter);
            assert(crate::cst::token_issues(gt) =~= Seq::<Issue>::empty());
            assert(fat@ =~= fatal_of(crate::cst::token_issues(gt)));
            assert(non@ =~= nonfatal_of(crate::cst::token_issues(gt)));
        }
    }
    ParseResult {
        syntax: NodeSeq(ts),
        unsafe_character_encoding: None,
        fatal_issues: fat,
        non_fatal_issues: non,
        tracked_locations: TrackedSourceLocations::new(),
    }
}

/// Checks that the bytes are safely decodable text: valid UTF-8 with no
/// byte-order mark or surrogate inside, and hands back the decoded text.
pub fn safe_string<'i>(bytes: &'i [u8], opts: &ParseOptions) -> (r: Result<
    &'i str,
    UnsafeCharacterEncoding,
>)
    ensures
        ({
            let flag = first_unsafe(
                bytes@,
                entry_stream(bytes@, spec_skip_shebang(opts.spec_flb())),
            );
            &&& (flag matches Some(f) ==> r == Err::<&'i str, _>(f))
            &&& (flag is None && vstd::utf8::valid_utf8(bytes@) ==> ({
                &&& r matches Ok(s)
                &&& s@ == vstd::utf8::decode_utf8(bytes@)
            }))
            &&& (flag is None && !vstd::utf8::valid_utf8(bytes@) ==> r == Err::<&'i str, _>(
                UnsafeCharacterEncoding::IncompleteUTF8Sequence,
            ))
        }),
{
    let v = vstd::slice::slice_to_vec(bytes);
    let skip = !matches!(opts.spec_flb_ex(), FirstLineBehavior::NotScript);
    let (_ts, flag) = tokenize_core(v, opts.spec_conv_ex(), opts.spec_tab_ex(), skip);
    match flag {
        Some(f) => Err(f),
        None => match crate::strutil::str_from_utf8(bytes) {
            Some(s) => Ok(s),
            None => Err(UnsafeCharacterEncoding::IncompleteUTF8Sequence),
        },
    }
}

/// A sequence of tokens.
pub type TokenSeq = NodeSeq<Token>;

/// A concrete syntax tree parse.
pub type CstResult = ParseResult<Cst>;

/// A parse of a sequence of concrete syntax trees.
pub type CstSeqResult = ParseResult<NodeSeq<Cst>>;

/// An abstract syntax tree parse.
pub type AstResult = ParseResult<Ast>;

/// A parse of a sequence of abstract syntax trees.
pub type AstSeqResult = ParseResult<NodeSeq<Ast>>;

/// A sequence of concrete syntax trees.
pub type CstSeq = NodeSeq<Cst>;

/// A filtered issue list is empty exactly when no issue passes the
/// filter.
pub proof fn lemma_fatal_of_empty(s: Seq<Issue>)
    ensures
        (fatal_of(s).len() == 0) <==> (forall|k: int|
            0 <= k < s.len() ==> !((#[trigger] s[k]).sev is Fatal)),
    decreases s.len(),
{
    reveal(Seq::filter);
    if s.len() > 0 {
        lemma_fatal_of_empty(s.drop_last());
        assert forall|k: int| 0 <= k < s.len() && (fatal_of(s).len() == 0) implies !((
        #[trigger] s[k]).sev is Fatal) by {
            if k < s.len() - 1 {
                assert(s.drop_last()[k] == s[k]);
            }
        }
        if forall|k: int| 0 <= k < s.len() ==> !((#[trigger] s[k]).sev is Fatal) {
            assert forall|k: int| 0 <= k < s.drop_last().len() implies !((
            #[trigger] s.drop_last()[k]).sev is Fatal) by {
                assert(s.drop_last()[k] == s[k]);
            }
            assert(!(s.last().sev is Fatal));
        }
    }
}

/// The abstract-syntax totality law: when the concrete parse of an input
/// carries no fatal diagnostic, the aggregated and abstracted stream
/// holds no syntax-error node anywhere. Together with the parse
/// contracts, which fix each result's fatal issues as exactly the fatal
/// part of the stream's issues, this gives: empty fatal issues imply an
/// abstract tree without a syntax-error head.
pub proof fn lemma_ast_totality(items: Seq<GCst>)
    requires
        fatal_of(crate::cst::issues_of(items)).len() == 0,
    ensures
        !crate::ast::gasts_have_error(ab_stream(items)),
{
    lemma_fatal_of_empty(crate::cst::issues_of(items));
    lemma_ast_totality_rec(items);
}

/// The induction behind [`lemma_ast_totality`].
proof fn lemma_ast_totality_rec(items: Seq<GCst>)
    requires
        forall|k: int|
            0 <= k < crate::cst::issues_of(items).len() ==> !((
            #[trigger] crate::cst::issues_of(items)[k]).sev is Fatal),
    ensures
        !crate::ast::gasts_have_error(ab_stream(items)),
    decreases items.len(),
{
    if items.len() > 0 {
        let first = gcst_issues(items[0]);
        let rest = crate::cst::issues_of(items.drop_first());
        assert(crate::cst::issues_of(items) == first + rest);
        assert forall|k: int| 0 <= k < first.len() implies !((#[trigger] first[k]).sev
            is Fatal) by {
            assert(first[k] == crate::cst::issues_of(items)[k]);
        }
        assert forall|k: int| 0 <= k < rest.len() implies !((#[trigger] rest[k]).sev
            is Fatal) by {
            assert(rest[k] == crate::cst::issues_of(items)[first.len() + k]);
        }
        lemma_ast_totality_rec(items.drop_first());
        if !crate::agg::is_trivia_leaf(items[0]) {
            crate::abstract_cst::lemma_no_fatal_issue_ff(items[0]);
            crate::abstract_cst::lemma_agg_ff(items[0]);
            let a = crate::abstract_cst::ab(crate::agg::agg(items[0]));
            crate::abstract_cst::lemma_ab_no_error(crate::agg::agg(items[0]));
            crate::abstract_cst::lemma_err_concat(seq![a], ab_stream(items.drop_first()));
            crate::abstract_cst::lemma_err_one(a);
        }
    }
}

} // verus!
