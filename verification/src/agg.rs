//! Aggregation: the pass from the concrete tree to the aggregated tree.
//!
//! Aggregation removes trivia leaves everywhere, removes the comma tokens
//! inside comma chains, and collapses a parenthesized group to its inner
//! expression. Aggregating an already-aggregated tree changes nothing.

use vstd::prelude::*;
use crate::cst::{Cst, GCst, GToken, NodeTag, GroupOperator, InfixOperator};
use crate::token::TokenKind;

verus! {

/// A trivia leaf: whitespace, a comment or a newline.
pub open spec fn is_trivia_leaf(c: GCst) -> bool {
    match c {
        GCst::Leaf(t) => crate::token::is_trivia(t.kind),
        _ => false,
    }
}

/// A comma token leaf.
pub open spec fn is_comma_leaf(c: GCst) -> bool {
    match c {
        GCst::Leaf(t) => t.kind is Comma,
        _ => false,
    }
}

/// Whether aggregation drops a child at this position: trivia always, and
/// comma tokens inside a comma chain.
pub open spec fn agg_drops(tag: NodeTag, c: GCst) -> bool {
    is_trivia_leaf(c) || (tag == NodeTag::InfixT(InfixOperator::Comma) && is_comma_leaf(c))
}

/// The aggregated tree: trivia gone, separators gone from comma chains,
/// parenthesized groups collapsed to their contents.
pub open spec fn agg(c: GCst) -> GCst
    decreases c, 1int,
{
    match c {
        GCst::Leaf(t) => GCst::Leaf(t),
        GCst::Node(tag, cs) => {
            let stripped = agg_children(tag, cs);
            if tag == NodeTag::GroupT(GroupOperator::Paren) && stripped.len() == 3
                && stripped[0] is Leaf && stripped[2] is Leaf && !is_comma_leaf(stripped[1]) {
                stripped[1]
            } else {
                GCst::Node(tag, stripped)
            }
        },
    }
}

/// The aggregated children of a node: dropped ones removed, the rest
/// aggregated.
pub open spec fn agg_children(tag: NodeTag, cs: Seq<GCst>) -> Seq<GCst>
    decreases cs, 0int,
{
    if cs.len() == 0 {
        Seq::empty()
    } else if agg_drops(tag, cs[0]) {
        agg_children(tag, cs.drop_first())
    } else {
        seq![agg(cs[0])] + agg_children(tag, cs.drop_first())
    }
}

/// Whether a tree is already aggregated: no trivia leaf anywhere, no
/// comma token in a comma chain, and no collapsible parenthesized group.
pub open spec fn is_aggregated(c: GCst) -> bool
    decreases c, 1int,
{
    match c {
        GCst::Leaf(_) => true,
        GCst::Node(tag, cs) => {
            &&& all_aggregated(tag, cs)
            &&& !(tag == NodeTag::GroupT(GroupOperator::Paren) && cs.len() == 3 && cs[0] is Leaf
                && cs[2] is Leaf && !is_comma_leaf(cs[1]))
        },
    }
}

/// Whether every child is kept and aggregated.
pub open spec fn all_aggregated(tag: NodeTag, cs: Seq<GCst>) -> bool
    decreases cs, 0int,
{
    if cs.len() == 0 {
        true
    } else {
        &&& !agg_drops(tag, cs[0])
        &&& is_aggregated(cs[0])
        &&& all_aggregated(tag, cs.drop_first())
    }
}

/// Aggregation yields an aggregated tree.
pub proof fn lemma_agg_aggregated(c: GCst)
    ensures
        is_aggregated(agg(c)),
    decreases c, 1int,
{
    match c {
        GCst::Leaf(_) => {},
        GCst::Node(tag, cs) => {
            lemma_agg_children_aggregated(tag, cs);
            let stripped = agg_children(tag, cs);
            if tag == NodeTag::GroupT(GroupOperator::Paren) && stripped.len() == 3
                && stripped[0] is Leaf && stripped[2] is Leaf && !is_comma_leaf(stripped[1]) {
                lemma_all_aggregated_index(tag, cs, 1);
            }
        },
    }
}

/// Every child of an aggregated child list is itself aggregated, and the
/// whole list is free of dropped children.
proof fn lemma_agg_children_aggregated(tag: NodeTag, cs: Seq<GCst>)
    ensures
        all_aggregated(tag, agg_children(tag, cs)),
    decreases cs, 2int,
{
    if cs.len() == 0 {
    } else if agg_drops(tag, cs[0]) {
        lemma_agg_children_aggregated(tag, cs.drop_first());
    } else {
        lemma_agg_children_aggregated(tag, cs.drop_first());
        lemma_agg_aggregated(cs[0]);
        lemma_agg_not_dropped(tag, cs[0]);
        assert((seq![agg(cs[0])] + agg_children(tag, cs.drop_first())).drop_first()
            =~= agg_children(tag, cs.drop_first()));
    }
}

/// Aggregating a kept child never turns it into a dropped one.
proof fn lemma_agg_not_dropped(tag: NodeTag, c: GCst)
    requires
        !agg_drops(tag, c),
    ensures
        !agg_drops(tag, agg(c)),
    decreases c,
{
    match c {
        GCst::Leaf(_) => {},
        GCst::Node(tag2, cs) => {
            let stripped = agg_children(tag2, cs);
            if tag2 == NodeTag::GroupT(GroupOperator::Paren) && stripped.len() == 3
                && stripped[0] is Leaf && stripped[2] is Leaf && !is_comma_leaf(stripped[1]) {
                lemma_agg_children_kept(tag2, cs, 1);
            }
        },
    }
}

/// Each element of an aggregated child list is not dropped.
proof fn lemma_agg_children_kept(tag: NodeTag, cs: Seq<GCst>, k: int)
    requires
        0 <= k < agg_children(tag, cs).len(),
    ensures
        !agg_drops(tag, agg_children(tag, cs)[k]),
    decreases cs,
{
    if cs.len() > 0 {
        if agg_drops(tag, cs[0]) {
            lemma_agg_children_kept(tag, cs.drop_first(), k);
        } else if k == 0 {
            lemma_agg_not_dropped(tag, cs[0]);
            assert(agg_children(tag, cs)[0] == agg(cs[0]));
        } else {
            lemma_agg_children_kept(tag, cs.drop_first(), k - 1);
            assert(agg_children(tag, cs)[k] == agg_children(tag, cs.drop_first())[k - 1]);
        }
    }
}

/// Every element of an all-aggregated list satisfies both conditions.
proof fn lemma_all_aggregated_index(tag: NodeTag, cs: Seq<GCst>, k: int)
    requires
        0 <= k < agg_children(tag, cs).len(),
    ensures
        is_aggregated(agg_children(tag, cs)[k]),
    decreases cs,
{
    if cs.len() > 0 {
        if agg_drops(tag, cs[0]) {
            lemma_all_aggregated_index(tag, cs.drop_first(), k);
        } else if k == 0 {
            lemma_agg_aggregated(cs[0]);
            assert(agg_children(tag, cs)[0] == agg(cs[0]));
        } else {
            lemma_all_aggregated_index(tag, cs.drop_first(), k - 1);
            assert(agg_children(tag, cs)[k] == agg_children(tag, cs.drop_first())[k - 1]);
        }
    }
}

/// An aggregated tree is a fixed point of aggregation.
pub proof fn lemma_aggregated_fixed(c: GCst)
    requires
        is_aggregated(c),
    ensures
        agg(c) == c,
    decreases c, 1int,
{
    match c {
        GCst::Leaf(_) => {},
        GCst::Node(tag, cs) => {
            lemma_aggregated_children_fixed(tag, cs);
        },
    }
}

/// A fully kept, aggregated child list is a fixed point of stripping.
proof fn lemma_aggregated_children_fixed(tag: NodeTag, cs: Seq<GCst>)
    requires
        all_aggregated(tag, cs),
    ensures
        agg_children(tag, cs) == cs,
    decreases cs, 2int,
{
    if cs.len() == 0 {
        assert(agg_children(tag, cs) =~= cs);
    } else {
        lemma_aggregated_children_fixed(tag, cs.drop_first());
        lemma_aggregated_fixed(cs[0]);
        assert(agg_children(tag, cs) =~= cs);
    }
}

/// Aggregation is idempotent: aggregating twice gives the same tree as
/// aggregating once.
pub proof fn lemma_aggregate_idempotent(c: GCst)
    ensures
        agg(agg(c)) == agg(c),
{
    lemma_agg_aggregated(c);
    lemma_aggregated_fixed(agg(c));
}

/// Aggregates a concrete tree; see [`agg`].
pub fn aggregate(c: Cst) -> (r: Cst)
    ensures
        crate::cst::cst_g(r) == agg(crate::cst::cst_g(c)),
    decreases crate::cst::gsize(crate::cst::cst_g(c)), 0int,
{
    let ghost g0 = crate::cst::cst_g(c);
    match c {
        Cst::Token(t) => Cst::Token(t),
        Cst::Prefix { op, children } => Cst::Prefix {
            op,
            children: aggregate_children(children, false, Ghost(NodeTag::PrefixT(op))),
        },
        Cst::Infix { op, children } => {
            let dropc = matches!(op, InfixOperator::Comma);
            Cst::Infix {
                op,
                children: aggregate_children(children, dropc, Ghost(NodeTag::InfixT(op))),
            }
        },
        Cst::Binary { op, children } => Cst::Binary {
            op,
            children: aggregate_children(children, false, Ghost(NodeTag::BinaryT(op))),
        },
        Cst::Postfix { op, children } => Cst::Postfix {
            op,
            children: aggregate_children(children, false, Ghost(NodeTag::PostfixT(op))),
        },
        Cst::Ternary { op, children } => Cst::Ternary {
            op,
            children: aggregate_children(children, false, Ghost(NodeTag::TernaryT(op))),
        },
        Cst::Group { op, children } => {
            let mut stripped = aggregate_children(children, false, Ghost(NodeTag::GroupT(op)));
            let ghost gst = crate::cst::cst_gs(stripped@);
            proof {
                crate::cst::lemma_cst_gs_len(stripped@);
                if stripped@.len() == 3 {
                    crate::cst::lemma_cst_gs_index(stripped@, 0);
                    crate::cst::lemma_cst_gs_index(stripped@, 1);
                    crate::cst::lemma_cst_gs_index(stripped@, 2);
                }
            }
            let collapsible = matches!(op, GroupOperator::Paren) && stripped.len() == 3
                && matches!(stripped[0], Cst::Token(_)) && matches!(stripped[2], Cst::Token(_))
                && !matches!(
                &stripped[1],
                Cst::Token(tk) if matches!(tk.tok, TokenKind::Comma),
            );
            proof {
                assert(collapsible == (NodeTag::GroupT(op)
                    == NodeTag::GroupT(GroupOperator::Paren) && gst.len() == 3 && gst[0] is Leaf
                    && gst[2] is Leaf && !is_comma_leaf(gst[1])));
            }
            if collapsible {
                let mid = stripped.remove(1);
                proof {
                    assert(crate::cst::cst_g(mid) == gst[1]);
                }
                mid
            } else {
                Cst::Group { op, children: stripped }
            }
        },
        Cst::GroupMissingCloser { op, children } => Cst::GroupMissingCloser {
            op,
            children: aggregate_children(
                children,
                false,
                Ghost(NodeTag::GroupMissingCloserT(op)),
            ),
        },
        Cst::Call { children } => Cst::Call {
            children: aggregate_children(children, false, Ghost(NodeTag::CallT)),
        },
        Cst::Compound { op, children } => Cst::Compound {
            op,
            children: aggregate_children(children, false, Ghost(NodeTag::CompoundT(op))),
        },
        Cst::SyntaxError { kind, children } => Cst::SyntaxError {
            kind,
            children: aggregate_children(children, false, Ghost(NodeTag::SyntaxErrorT(kind))),
        },
    }
}

/// Aggregates a child list; see [`agg_children`].
fn aggregate_children(cs: Vec<Cst>, drop_commas: bool, Ghost(tag): Ghost<NodeTag>) -> (r: Vec<
    Cst,
>)
    requires
        drop_commas == (tag == NodeTag::InfixT(InfixOperator::Comma)),
    ensures
        crate::cst::cst_gs(r@) == agg_children(tag, crate::cst::cst_gs(cs@)),
    decreases crate::cst::gs_size(crate::cst::cst_gs(cs@)), 1int,
{
    let ghost gcs = crate::cst::cst_gs(cs@);
    let mut rest = cs;
    if rest.len() == 0 {
        let r: Vec<Cst> = Vec::new();
        proof {
            assert(crate::cst::cst_gs(r@) =~= agg_children(tag, gcs));
        }
        return r;
    }
    let c0 = rest.remove(0);
    let ghost gc0 = crate::cst::cst_g(c0);
    proof {
        assert(rest@ =~= cs@.drop_first());
        assert(gcs =~= seq![gc0] + crate::cst::cst_gs(rest@));
        assert((seq![gc0] + crate::cst::cst_gs(rest@))[0] == gc0);
        assert((seq![gc0] + crate::cst::cst_gs(rest@)).drop_first() =~= crate::cst::cst_gs(
            rest@,
        ));
        assert(crate::cst::gs_size(gcs) == crate::cst::gsize(gc0) + crate::cst::gs_size(
            crate::cst::cst_gs(rest@),
        ));
    }
    let dropped = match &c0 {
        Cst::Token(t) => t.is_trivia() || (drop_commas && matches!(t.tok, TokenKind::Comma)),
        _ => false,
    };
    proof {
        assert(dropped == agg_drops(tag, gc0));
    }
    if dropped {
        let r = aggregate_children(rest, drop_commas, Ghost(tag));
        r
    } else {
        let a0 = aggregate(c0);
        let mut r: Vec<Cst> = Vec::new();
        let ghost ga0 = crate::cst::cst_g(a0);
        let ghost av = a0;
        r.push(a0);
        proof {
            assert(r@ =~= seq![av]);
            assert(r@[0] == av);
            assert(r@.drop_first() =~= Seq::<Cst>::empty());
            assert(crate::cst::cst_gs(Seq::<Cst>::empty()) =~= Seq::<GCst>::empty());
            assert(crate::cst::cst_gs(r@) =~= seq![ga0]);
        }
        let more = aggregate_children(rest, drop_commas, Ghost(tag));
        let ghost gr1 = crate::cst::cst_gs(r@);
        crate::parse::append_children(&mut r, more);
        proof {
            assert(crate::cst::cst_gs(r@) =~= agg_children(tag, gcs));
        }
        r
    }
}

} // verus!
