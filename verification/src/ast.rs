//! The abstract syntax tree: trivia gone, every operator a call of its
//! head symbol, compound operators desugared.

use vstd::prelude::*;
use crate::source::Span;
use crate::token::TokenKind;
use crate::cst::SyntaxErrorKind;

verus! {

/// What every node carries: the span of the source it came from.
#[derive(Debug, Clone, Copy, PartialEq, Eq, Structural)]
pub struct AstMetadata {
    pub span: Span,
}

impl AstMetadata {
    /// Metadata for a node with the given span.
    pub fn from_span(span: Span) -> (r: AstMetadata)
        ensures
            r.span == span,
    {
        AstMetadata { span }
    }
}

/// An abstract syntax tree node.
#[derive(Debug)]
pub enum Ast {
    /// An atom: a number, string or symbol, with its exact source bytes.
    Leaf { kind: TokenKind, text: Vec<u8>, data: AstMetadata },
    /// An application of a head to arguments.
    Call { head: Box<Ast>, args: Vec<Ast>, data: AstMetadata },
    /// An unrecoverable piece of input, kept with its parts.
    SyntaxError { kind: SyntaxErrorKind, children: Vec<Ast>, data: AstMetadata },
}

/// The ghost mirror of an abstract syntax tree.
pub ghost enum GAst {
    Leaf { kind: TokenKind, text: Seq<u8>, span: Span },
    Call { head: Box<GAst>, args: Seq<GAst>, span: Span },
    SyntaxError { kind: SyntaxErrorKind, children: Seq<GAst>, span: Span },
}

/// The mirror of a node.
pub open spec fn ast_g(a: Ast) -> GAst
    decreases a,
{
    match a {
        Ast::Leaf { kind, text, data } => GAst::Leaf { kind, text: text@, span: data.span },
        Ast::Call { head, args, data } => GAst::Call {
            head: Box::new(ast_g(*head)),
            args: ast_gs(args@),
            span: data.span,
        },
        Ast::SyntaxError { kind, children, data } => GAst::SyntaxError {
            kind,
            children: ast_gs(children@),
            span: data.span,
        },
    }
}

/// The mirrors of a node list.
pub open spec fn ast_gs(cs: Seq<Ast>) -> Seq<GAst>
    decreases cs,
{
    if cs.len() == 0 {
        Seq::empty()
    } else {
        seq![ast_g(cs[0])] + ast_gs(cs.drop_first())
    }
}

/// Mirroring a node list distributes over push.
pub proof fn lemma_ast_gs_push(cs: Seq<Ast>, c: Ast)
    ensures
        ast_gs(cs.push(c)) == ast_gs(cs).push(ast_g(c)),
    decreases cs.len(),
{
    assert(cs.push(c)[0] == if cs.len() == 0 {
        c
    } else {
        cs[0]
    });
    if cs.len() == 0 {
        assert(cs.push(c).drop_first() =~= Seq::<Ast>::empty());
        assert(ast_gs(cs.push(c)) == seq![ast_g(c)] + ast_gs(Seq::<Ast>::empty()));
        assert(ast_gs(cs.push(c)) =~= ast_gs(cs).push(ast_g(c)));
    } else {
        assert(cs.push(c).drop_first() =~= cs.drop_first().push(c));
        lemma_ast_gs_push(cs.drop_first(), c);
        assert(ast_gs(cs.push(c)) == seq![ast_g(cs[0])] + ast_gs(cs.drop_first().push(c)));
        assert(ast_gs(cs.push(c)) =~= ast_gs(cs).push(ast_g(c)));
    }
}

/// Whether a mirrored tree holds a syntax-error node anywhere.
pub open spec fn gast_has_error(a: GAst) -> bool
    decreases a,
{
    match a {
        GAst::Leaf { .. } => false,
        GAst::Call { head, args, .. } => gast_has_error(*head) || gasts_have_error(args),
        GAst::SyntaxError { .. } => true,
    }
}

/// Whether any tree of the list holds a syntax-error node.
pub open spec fn gasts_have_error(cs: Seq<GAst>) -> bool
    decreases cs,
{
    if cs.len() == 0 {
        false
    } else {
        gast_has_error(cs[0]) || gasts_have_error(cs.drop_first())
    }
}

} // verus!
