//! Abstraction: the pass from the aggregated concrete tree to the
//! abstract tree. Every operator node becomes a call of its head symbol;
//! compound operators, slots and blanks desugar to their canonical calls;
//! subtraction and division desugar through `Times` and `Power`.

use vstd::prelude::*;
use crate::source::Span;
use crate::token::TokenKind;
use crate::cst::{
    Cst, GCst, GToken, NodeTag, PrefixOperator, InfixOperator, BinaryOperator, PostfixOperator,
    TernaryOperator, CompoundOperator, GroupOperator, SyntaxErrorKind, gcst_span, cst_g, cst_gs,
    gsize, gs_size,
};
use crate::ast::{Ast, AstMetadata, GAst, ast_g, ast_gs};
use crate::quirks::QuirkSettings;

verus! {


/// The head symbol name of this operator.
pub open spec fn binary_name(op: BinaryOperator) -> Seq<u8> {
    match op {
        BinaryOperator::Power => seq![80u8, 111u8, 119u8, 101u8, 114u8],
        BinaryOperator::MapAt => seq![77u8, 97u8, 112u8],
        BinaryOperator::MapAll => seq![77u8, 97u8, 112u8, 65u8, 108u8, 108u8],
        BinaryOperator::Apply => seq![65u8, 112u8, 112u8, 108u8, 121u8],
        BinaryOperator::MapApply => seq![77u8, 97u8, 112u8, 65u8, 112u8, 112u8, 108u8, 121u8],
        BinaryOperator::Rule => seq![82u8, 117u8, 108u8, 101u8],
        BinaryOperator::RuleDelayed => seq![82u8, 117u8, 108u8, 101u8, 68u8, 101u8, 108u8, 97u8, 121u8, 101u8, 100u8],
        BinaryOperator::TwoWayRule => seq![84u8, 119u8, 111u8, 87u8, 97u8, 121u8, 82u8, 117u8, 108u8, 101u8],
        BinaryOperator::ReplaceAll => seq![82u8, 101u8, 112u8, 108u8, 97u8, 99u8, 101u8, 65u8, 108u8, 108u8],
        BinaryOperator::ReplaceRepeated => seq![82u8, 101u8, 112u8, 108u8, 97u8, 99u8, 101u8, 82u8, 101u8, 112u8, 101u8, 97u8, 116u8, 101u8, 100u8],
        BinaryOperator::Condition => seq![67u8, 111u8, 110u8, 100u8, 105u8, 116u8, 105u8, 111u8, 110u8],
        BinaryOperator::PatternTest => seq![80u8, 97u8, 116u8, 116u8, 101u8, 114u8, 110u8, 84u8, 101u8, 115u8, 116u8],
        BinaryOperator::AddTo => seq![65u8, 100u8, 100u8, 84u8, 111u8],
        BinaryOperator::SubtractFrom => seq![83u8, 117u8, 98u8, 116u8, 114u8, 97u8, 99u8, 116u8, 70u8, 114u8, 111u8, 109u8],
        BinaryOperator::TimesBy => seq![84u8, 105u8, 109u8, 101u8, 115u8, 66u8, 121u8],
        BinaryOperator::DivideBy => seq![68u8, 105u8, 118u8, 105u8, 100u8, 101u8, 66u8, 121u8],
        BinaryOperator::ApplyTo => seq![65u8, 112u8, 112u8, 108u8, 121u8, 84u8, 111u8],
        BinaryOperator::UpSet => seq![85u8, 112u8, 83u8, 101u8, 116u8],
        BinaryOperator::UpSetDelayed => seq![85u8, 112u8, 83u8, 101u8, 116u8, 68u8, 101u8, 108u8, 97u8, 121u8, 101u8, 100u8],
        BinaryOperator::Assign => seq![83u8, 101u8, 116u8],
        BinaryOperator::AssignDelayed => seq![83u8, 101u8, 116u8, 68u8, 101u8, 108u8, 97u8, 121u8, 101u8, 100u8],
        BinaryOperator::Unset => seq![85u8, 110u8, 115u8, 101u8, 116u8],
        BinaryOperator::Put => seq![80u8, 117u8, 116u8],
        BinaryOperator::PutAppend => seq![80u8, 117u8, 116u8, 65u8, 112u8, 112u8, 101u8, 110u8, 100u8],
        BinaryOperator::Pattern => seq![80u8, 97u8, 116u8, 116u8, 101u8, 114u8, 110u8],
        BinaryOperator::Optional => seq![79u8, 112u8, 116u8, 105u8, 111u8, 110u8, 97u8, 108u8],
        BinaryOperator::Span => seq![83u8, 112u8, 97u8, 110u8],
        BinaryOperator::Element => seq![69u8, 108u8, 101u8, 109u8, 101u8, 110u8, 116u8],
        BinaryOperator::Function => seq![70u8, 117u8, 110u8, 99u8, 116u8, 105u8, 111u8, 110u8],
        BinaryOperator::Divide => seq![68u8, 105u8, 118u8, 105u8, 100u8, 101u8],
        BinaryOperator::BinaryAt => seq![67u8, 111u8, 100u8, 101u8, 80u8, 97u8, 114u8, 115u8, 101u8, 114u8, 96u8, 66u8, 105u8, 110u8, 97u8, 114u8, 121u8, 65u8, 116u8],
        BinaryOperator::BinarySlashSlash => seq![67u8, 111u8, 100u8, 101u8, 80u8, 97u8, 114u8, 115u8, 101u8, 114u8, 96u8, 66u8, 105u8, 110u8, 97u8, 114u8, 121u8, 83u8, 108u8, 97u8, 115u8, 104u8, 83u8, 108u8, 97u8, 115u8, 104u8],
    }
}

/// The head symbol name of this operator, as bytes.
fn ex_binary_name(op: BinaryOperator) -> (r: Vec<u8>)
    ensures
        r@ == binary_name(op),
{
    match op {
        BinaryOperator::Power => vec![80u8, 111u8, 119u8, 101u8, 114u8],
        BinaryOperator::MapAt => vec![77u8, 97u8, 112u8],
        BinaryOperator::MapAll => vec![77u8, 97u8, 112u8, 65u8, 108u8, 108u8],
        BinaryOperator::Apply => vec![65u8, 112u8, 112u8, 108u8, 121u8],
        BinaryOperator::MapApply => vec![77u8, 97u8, 112u8, 65u8, 112u8, 112u8, 108u8, 121u8],
        BinaryOperator::Rule => vec![82u8, 117u8, 108u8, 101u8],
        BinaryOperator::RuleDelayed => vec![82u8, 117u8, 108u8, 101u8, 68u8, 101u8, 108u8, 97u8, 121u8, 101u8, 100u8],
        BinaryOperator::TwoWayRule => vec![84u8, 119u8, 111u8, 87u8, 97u8, 121u8, 82u8, 117u8, 108u8, 101u8],
        BinaryOperator::ReplaceAll => vec![82u8, 101u8, 112u8, 108u8, 97u8, 99u8, 101u8, 65u8, 108u8, 108u8],
        BinaryOperator::ReplaceRepeated => vec![82u8, 101u8, 112u8, 108u8, 97u8, 99u8, 101u8, 82u8, 101u8, 112u8, 101u8, 97u8, 116u8, 101u8, 100u8],
        BinaryOperator::Condition => vec![67u8, 111u8, 110u8, 100u8, 105u8, 116u8, 105u8, 111u8, 110u8],
        BinaryOperator::PatternTest => vec![80u8, 97u8, 116u8, 116u8, 101u8, 114u8, 110u8, 84u8, 101u8, 115u8, 116u8],
        BinaryOperator::AddTo => vec![65u8, 100u8, 100u8, 84u8, 111u8],
        BinaryOperator::SubtractFrom => vec![83u8, 117u8, 98u8, 116u8, 114u8, 97u8, 99u8, 116u8, 70u8, 114u8, 111u8, 109u8],
        BinaryOperator::TimesBy => vec![84u8, 105u8, 109u8, 101u8, 115u8, 66u8, 121u8],
        BinaryOperator::DivideBy => vec![68u8, 105u8, 118u8, 105u8, 100u8, 101u8, 66u8, 121u8],
        BinaryOperator::ApplyTo => vec![65u8, 112u8, 112u8, 108u8, 121u8, 84u8, 111u8],
        BinaryOperator::UpSet => vec![85u8, 112u8, 83u8, 101u8, 116u8],
        BinaryOperator::UpSetDelayed => vec![85u8, 112u8, 83u8, 101u8, 116u8, 68u8, 101u8, 108u8, 97u8, 121u8, 101u8, 100u8],
        BinaryOperator::Assign => vec![83u8, 101u8, 116u8],
        BinaryOperator::AssignDelayed => vec![83u8, 101u8, 116u8, 68u8, 101u8, 108u8, 97u8, 121u8, 101u8, 100u8],
        BinaryOperator::Unset => vec![85u8, 110u8, 115u8, 101u8, 116u8],
        BinaryOperator::Put => vec![80u8, 117u8, 116u8],
        BinaryOperator::PutAppend => vec![80u8, 117u8, 116u8, 65u8, 112u8, 112u8, 101u8, 110u8, 100u8],
        BinaryOperator::Pattern => vec![80u8, 97u8, 116u8, 116u8, 101u8, 114u8, 110u8],
        BinaryOperator::Optional => vec![79u8, 112u8, 116u8, 105u8, 111u8, 110u8, 97u8, 108u8],
        BinaryOperator::Span => vec![83u8, 112u8, 97u8, 110u8],
        BinaryOperator::Element => vec![69u8, 108u8, 101u8, 109u8, 101u8, 110u8, 116u8],
        BinaryOperator::Function => vec![70u8, 117u8, 110u8, 99u8, 116u8, 105u8, 111u8, 110u8],
        BinaryOperator::Divide => vec![68u8, 105u8, 118u8, 105u8, 100u8, 101u8],
        BinaryOperator::BinaryAt => vec![67u8, 111u8, 100u8, 101u8, 80u8, 97u8, 114u8, 115u8, 101u8, 114u8, 96u8, 66u8, 105u8, 110u8, 97u8, 114u8, 121u8, 65u8, 116u8],
        BinaryOperator::BinarySlashSlash => vec![67u8, 111u8, 100u8, 101u8, 80u8, 97u8, 114u8, 115u8, 101u8, 114u8, 96u8, 66u8, 105u8, 110u8, 97u8, 114u8, 121u8, 83u8, 108u8, 97u8, 115u8, 104u8, 83u8, 108u8, 97u8, 115u8, 104u8],
    }
}

/// The head symbol name of this operator.
pub open spec fn infix_name(op: InfixOperator) -> Seq<u8> {
    match op {
        InfixOperator::Plus => seq![80u8, 108u8, 117u8, 115u8],
        InfixOperator::Times => seq![84u8, 105u8, 109u8, 101u8, 115u8],
        InfixOperator::Dot => seq![68u8, 111u8, 116u8],
        InfixOperator::Alternatives => seq![65u8, 108u8, 116u8, 101u8, 114u8, 110u8, 97u8, 116u8, 105u8, 118u8, 101u8, 115u8],
        InfixOperator::And => seq![65u8, 110u8, 100u8],
        InfixOperator::Or => seq![79u8, 114u8],
        InfixOperator::SameQ => seq![83u8, 97u8, 109u8, 101u8, 81u8],
        InfixOperator::UnsameQ => seq![85u8, 110u8, 115u8, 97u8, 109u8, 101u8, 81u8],
        InfixOperator::StringJoin => seq![83u8, 116u8, 114u8, 105u8, 110u8, 103u8, 74u8, 111u8, 105u8, 110u8],
        InfixOperator::StringExpression => seq![83u8, 116u8, 114u8, 105u8, 110u8, 103u8, 69u8, 120u8, 112u8, 114u8, 101u8, 115u8, 115u8, 105u8, 111u8, 110u8],
        InfixOperator::NonCommutativeMultiply => seq![78u8, 111u8, 110u8, 67u8, 111u8, 109u8, 109u8, 117u8, 116u8, 97u8, 116u8, 105u8, 118u8, 101u8, 77u8, 117u8, 108u8, 116u8, 105u8, 112u8, 108u8, 121u8],
        InfixOperator::Composition => seq![67u8, 111u8, 109u8, 112u8, 111u8, 115u8, 105u8, 116u8, 105u8, 111u8, 110u8],
        InfixOperator::RightComposition => seq![82u8, 105u8, 103u8, 104u8, 116u8, 67u8, 111u8, 109u8, 112u8, 111u8, 115u8, 105u8, 116u8, 105u8, 111u8, 110u8],
        InfixOperator::CompoundExpression => seq![67u8, 111u8, 109u8, 112u8, 111u8, 117u8, 110u8, 100u8, 69u8, 120u8, 112u8, 114u8, 101u8, 115u8, 115u8, 105u8, 111u8, 110u8],
        InfixOperator::Comma => seq![67u8, 111u8, 100u8, 101u8, 80u8, 97u8, 114u8, 115u8, 101u8, 114u8, 96u8, 67u8, 111u8, 109u8, 109u8, 97u8],
        InfixOperator::InfixInequality => seq![73u8, 110u8, 101u8, 113u8, 117u8, 97u8, 108u8, 105u8, 116u8, 121u8],
        InfixOperator::MessageName => seq![77u8, 101u8, 115u8, 115u8, 97u8, 103u8, 101u8, 78u8, 97u8, 109u8, 101u8],
    }
}

/// The head symbol name of this operator, as bytes.
fn ex_infix_name(op: InfixOperator) -> (r: Vec<u8>)
    ensures
        r@ == infix_name(op),
{
    match op {
        InfixOperator::Plus => vec![80u8, 108u8, 117u8, 115u8],
        InfixOperator::Times => vec![84u8, 105u8, 109u8, 101u8, 115u8],
        InfixOperator::Dot => vec![68u8, 111u8, 116u8],
        InfixOperator::Alternatives => vec![65u8, 108u8, 116u8, 101u8, 114u8, 110u8, 97u8, 116u8, 105u8, 118u8, 101u8, 115u8],
        InfixOperator::And => vec![65u8, 110u8, 100u8],
        InfixOperator::Or => vec![79u8, 114u8],
        InfixOperator::SameQ => vec![83u8, 97u8, 109u8, 101u8, 81u8],
        InfixOperator::UnsameQ => vec![85u8, 110u8, 115u8, 97u8, 109u8, 101u8, 81u8],
        InfixOperator::StringJoin => vec![83u8, 116u8, 114u8, 105u8, 110u8, 103u8, 74u8, 111u8, 105u8, 110u8],
        InfixOperator::StringExpression => vec![83u8, 116u8, 114u8, 105u8, 110u8, 103u8, 69u8, 120u8, 112u8, 114u8, 101u8, 115u8, 115u8, 105u8, 111u8, 110u8],
        InfixOperator::NonCommutativeMultiply => vec![78u8, 111u8, 110u8, 67u8, 111u8, 109u8, 109u8, 117u8, 116u8, 97u8, 116u8, 105u8, 118u8, 101u8, 77u8, 117u8, 108u8, 116u8, 105u8, 112u8, 108u8, 121u8],
        InfixOperator::Composition => vec![67u8, 111u8, 109u8, 112u8, 111u8, 115u8, 105u8, 116u8, 105u8, 111u8, 110u8],
        InfixOperator::RightComposition => vec![82u8, 105u8, 103u8, 104u8, 116u8, 67u8, 111u8, 109u8, 112u8, 111u8, 115u8, 105u8, 116u8, 105u8, 111u8, 110u8],
        InfixOperator::CompoundExpression => vec![67u8, 111u8, 109u8, 112u8, 111u8, 117u8, 110u8, 100u8, 69u8, 120u8, 112u8, 114u8, 101u8, 115u8, 115u8, 105u8, 111u8, 110u8],
        InfixOperator::Comma => vec![67u8, 111u8, 100u8, 101u8, 80u8, 97u8, 114u8, 115u8, 101u8, 114u8, 96u8, 67u8, 111u8, 109u8, 109u8, 97u8],
        InfixOperator::InfixInequality => vec![73u8, 110u8, 101u8, 113u8, 117u8, 97u8, 108u8, 105u8, 116u8, 121u8],
        InfixOperator::MessageName => vec![77u8, 101u8, 115u8, 115u8, 97u8, 103u8, 101u8, 78u8, 97u8, 109u8, 101u8],
    }
}

/// The head symbol name of this operator.
pub open spec fn prefix_name(op: PrefixOperator) -> Seq<u8> {
    match op {
        PrefixOperator::Minus => seq![77u8, 105u8, 110u8, 117u8, 115u8],
        PrefixOperator::Plus => seq![80u8, 108u8, 117u8, 115u8],
        PrefixOperator::Not => seq![78u8, 111u8, 116u8],
        PrefixOperator::PreIncrement => seq![80u8, 114u8, 101u8, 73u8, 110u8, 99u8, 114u8, 101u8, 109u8, 101u8, 110u8, 116u8],
        PrefixOperator::PreDecrement => seq![80u8, 114u8, 101u8, 68u8, 101u8, 99u8, 114u8, 101u8, 109u8, 101u8, 110u8, 116u8],
        PrefixOperator::Not2 => seq![78u8, 111u8, 116u8],
        PrefixOperator::Get => seq![71u8, 101u8, 116u8],
    }
}

/// The head symbol name of this operator, as bytes.
fn ex_prefix_name(op: PrefixOperator) -> (r: Vec<u8>)
    ensures
        r@ == prefix_name(op),
{
    match op {
        PrefixOperator::Minus => vec![77u8, 105u8, 110u8, 117u8, 115u8],
        PrefixOperator::Plus => vec![80u8, 108u8, 117u8, 115u8],
        PrefixOperator::Not => vec![78u8, 111u8, 116u8],
        PrefixOperator::PreIncrement => vec![80u8, 114u8, 101u8, 73u8, 110u8, 99u8, 114u8, 101u8, 109u8, 101u8, 110u8, 116u8],
        PrefixOperator::PreDecrement => vec![80u8, 114u8, 101u8, 68u8, 101u8, 99u8, 114u8, 101u8, 109u8, 101u8, 110u8, 116u8],
        PrefixOperator::Not2 => vec![78u8, 111u8, 116u8],
        PrefixOperator::Get => vec![71u8, 101u8, 116u8],
    }
}

/// The head symbol name of this operator.
pub open spec fn postfix_name(op: PostfixOperator) -> Seq<u8> {
    match op {
        PostfixOperator::Function => seq![70u8, 117u8, 110u8, 99u8, 116u8, 105u8, 111u8, 110u8],
        PostfixOperator::Repeated => seq![82u8, 101u8, 112u8, 101u8, 97u8, 116u8, 101u8, 100u8],
        PostfixOperator::RepeatedNull => seq![82u8, 101u8, 112u8, 101u8, 97u8, 116u8, 101u8, 100u8, 78u8, 117u8, 108u8, 108u8],
        PostfixOperator::Factorial => seq![70u8, 97u8, 99u8, 116u8, 111u8, 114u8, 105u8, 97u8, 108u8],
        PostfixOperator::Factorial2 => seq![70u8, 97u8, 99u8, 116u8, 111u8, 114u8, 105u8, 97u8, 108u8, 50u8],
        PostfixOperator::Decrement => seq![68u8, 101u8, 99u8, 114u8, 101u8, 109u8, 101u8, 110u8, 116u8],
        PostfixOperator::Increment => seq![73u8, 110u8, 99u8, 114u8, 101u8, 109u8, 101u8, 110u8, 116u8],
        PostfixOperator::Derivative => seq![68u8, 101u8, 114u8, 105u8, 118u8, 97u8, 116u8, 105u8, 118u8, 101u8],
    }
}

/// The head symbol name of this operator, as bytes.
fn ex_postfix_name(op: PostfixOperator) -> (r: Vec<u8>)
    ensures
        r@ == postfix_name(op),
{
    match op {
        PostfixOperator::Function => vec![70u8, 117u8, 110u8, 99u8, 116u8, 105u8, 111u8, 110u8],
        PostfixOperator::Repeated => vec![82u8, 101u8, 112u8, 101u8, 97u8, 116u8, 101u8, 100u8],
        PostfixOperator::RepeatedNull => vec![82u8, 101u8, 112u8, 101u8, 97u8, 116u8, 101u8, 100u8, 78u8, 117u8, 108u8, 108u8],
        PostfixOperator::Factorial => vec![70u8, 97u8, 99u8, 116u8, 111u8, 114u8, 105u8, 97u8, 108u8],
        PostfixOperator::Factorial2 => vec![70u8, 97u8, 99u8, 116u8, 111u8, 114u8, 105u8, 97u8, 108u8, 50u8],
        PostfixOperator::Decrement => vec![68u8, 101u8, 99u8, 114u8, 101u8, 109u8, 101u8, 110u8, 116u8],
        PostfixOperator::Increment => vec![73u8, 110u8, 99u8, 114u8, 101u8, 109u8, 101u8, 110u8, 116u8],
        PostfixOperator::Derivative => vec![68u8, 101u8, 114u8, 105u8, 118u8, 97u8, 116u8, 105u8, 118u8, 101u8],
    }
}

/// The head symbol name of this operator.
pub open spec fn ternary_name(op: TernaryOperator) -> Seq<u8> {
    match op {
        TernaryOperator::TagSet => seq![84u8, 97u8, 103u8, 83u8, 101u8, 116u8],
        TernaryOperator::TagSetDelayed => seq![84u8, 97u8, 103u8, 83u8, 101u8, 116u8, 68u8, 101u8, 108u8, 97u8, 121u8, 101u8, 100u8],
        TernaryOperator::TagUnset => seq![84u8, 97u8, 103u8, 85u8, 110u8, 115u8, 101u8, 116u8],
        TernaryOperator::Span => seq![83u8, 112u8, 97u8, 110u8],
        TernaryOperator::TernaryTilde => seq![67u8, 111u8, 100u8, 101u8, 80u8, 97u8, 114u8, 115u8, 101u8, 114u8, 96u8, 84u8, 101u8, 114u8, 110u8, 97u8, 114u8, 121u8, 84u8, 105u8, 108u8, 100u8, 101u8],
    }
}

/// The head symbol name of this operator, as bytes.
fn ex_ternary_name(op: TernaryOperator) -> (r: Vec<u8>)
    ensures
        r@ == ternary_name(op),
{
    match op {
        TernaryOperator::TagSet => vec![84u8, 97u8, 103u8, 83u8, 101u8, 116u8],
        TernaryOperator::TagSetDelayed => vec![84u8, 97u8, 103u8, 83u8, 101u8, 116u8, 68u8, 101u8, 108u8, 97u8, 121u8, 101u8, 100u8],
        TernaryOperator::TagUnset => vec![84u8, 97u8, 103u8, 85u8, 110u8, 115u8, 101u8, 116u8],
        TernaryOperator::Span => vec![83u8, 112u8, 97u8, 110u8],
        TernaryOperator::TernaryTilde => vec![67u8, 111u8, 100u8, 101u8, 80u8, 97u8, 114u8, 115u8, 101u8, 114u8, 96u8, 84u8, 101u8, 114u8, 110u8, 97u8, 114u8, 121u8, 84u8, 105u8, 108u8, 100u8, 101u8],
    }
}

/// The head symbol name of this operator.
pub open spec fn group_name(op: GroupOperator) -> Seq<u8> {
    match op {
        GroupOperator::List => seq![76u8, 105u8, 115u8, 116u8],
        GroupOperator::Association => seq![65u8, 115u8, 115u8, 111u8, 99u8, 105u8, 97u8, 116u8, 105u8, 111u8, 110u8],
        GroupOperator::Square => seq![67u8, 111u8, 100u8, 101u8, 80u8, 97u8, 114u8, 115u8, 101u8, 114u8, 96u8, 71u8, 114u8, 111u8, 117u8, 112u8, 83u8, 113u8, 117u8, 97u8, 114u8, 101u8],
        GroupOperator::Paren => seq![67u8, 111u8, 100u8, 101u8, 80u8, 97u8, 114u8, 115u8, 101u8, 114u8, 96u8, 71u8, 114u8, 111u8, 117u8, 112u8, 80u8, 97u8, 114u8, 101u8, 110u8],
    }
}

/// The head symbol name of this operator, as bytes.
fn ex_group_name(op: GroupOperator) -> (r: Vec<u8>)
    ensures
        r@ == group_name(op),
{
    match op {
        GroupOperator::List => vec![76u8, 105u8, 115u8, 116u8],
        GroupOperator::Association => vec![65u8, 115u8, 115u8, 111u8, 99u8, 105u8, 97u8, 116u8, 105u8, 111u8, 110u8],
        GroupOperator::Square => vec![67u8, 111u8, 100u8, 101u8, 80u8, 97u8, 114u8, 115u8, 101u8, 114u8, 96u8, 71u8, 114u8, 111u8, 117u8, 112u8, 83u8, 113u8, 117u8, 97u8, 114u8, 101u8],
        GroupOperator::Paren => vec![67u8, 111u8, 100u8, 101u8, 80u8, 97u8, 114u8, 115u8, 101u8, 114u8, 96u8, 71u8, 114u8, 111u8, 117u8, 112u8, 80u8, 97u8, 114u8, 101u8, 110u8],
    }
}

/// The head symbol name of this operator.
pub open spec fn ineq_name(op: TokenKind) -> Seq<u8> {
    match op {
        TokenKind::EqualEqual => seq![69u8, 113u8, 117u8, 97u8, 108u8],
        TokenKind::LongName_Equal => seq![69u8, 113u8, 117u8, 97u8, 108u8],
        TokenKind::BangEqual => seq![85u8, 110u8, 101u8, 113u8, 117u8, 97u8, 108u8],
        TokenKind::LongName_NotEqual => seq![85u8, 110u8, 101u8, 113u8, 117u8, 97u8, 108u8],
        TokenKind::Less => seq![76u8, 101u8, 115u8, 115u8],
        TokenKind::Greater => seq![71u8, 114u8, 101u8, 97u8, 116u8, 101u8, 114u8],
        TokenKind::LessEqual => seq![76u8, 101u8, 115u8, 115u8, 69u8, 113u8, 117u8, 97u8, 108u8],
        TokenKind::LongName_LessEqual => seq![76u8, 101u8, 115u8, 115u8, 69u8, 113u8, 117u8, 97u8, 108u8],
        TokenKind::GreaterEqual => seq![71u8, 114u8, 101u8, 97u8, 116u8, 101u8, 114u8, 69u8, 113u8, 117u8, 97u8, 108u8],
        TokenKind::LongName_GreaterEqual => seq![71u8, 114u8, 101u8, 97u8, 116u8, 101u8, 114u8, 69u8, 113u8, 117u8, 97u8, 108u8],
        _ => seq![73u8, 110u8, 101u8, 113u8, 117u8, 97u8, 108u8, 105u8, 116u8, 121u8],
    }
}

/// The head symbol name of this operator, as bytes.
fn ex_ineq_name(op: TokenKind) -> (r: Vec<u8>)
    ensures
        r@ == ineq_name(op),
{
    match op {
        TokenKind::EqualEqual => vec![69u8, 113u8, 117u8, 97u8, 108u8],
        TokenKind::LongName_Equal => vec![69u8, 113u8, 117u8, 97u8, 108u8],
        TokenKind::BangEqual => vec![85u8, 110u8, 101u8, 113u8, 117u8, 97u8, 108u8],
        TokenKind::LongName_NotEqual => vec![85u8, 110u8, 101u8, 113u8, 117u8, 97u8, 108u8],
        TokenKind::Less => vec![76u8, 101u8, 115u8, 115u8],
        TokenKind::Greater => vec![71u8, 114u8, 101u8, 97u8, 116u8, 101u8, 114u8],
        TokenKind::LessEqual => vec![76u8, 101u8, 115u8, 115u8, 69u8, 113u8, 117u8, 97u8, 108u8],
        TokenKind::LongName_LessEqual => vec![76u8, 101u8, 115u8, 115u8, 69u8, 113u8, 117u8, 97u8, 108u8],
        TokenKind::GreaterEqual => vec![71u8, 114u8, 101u8, 97u8, 116u8, 101u8, 114u8, 69u8, 113u8, 117u8, 97u8, 108u8],
        TokenKind::LongName_GreaterEqual => vec![71u8, 114u8, 101u8, 97u8, 116u8, 101u8, 114u8, 69u8, 113u8, 117u8, 97u8, 108u8],
        _ => vec![73u8, 110u8, 101u8, 113u8, 117u8, 97u8, 108u8, 105u8, 116u8, 121u8],
    }
}

/// The bytes of the name `Times`.
pub open spec fn SEQ_TIMES_fn() -> Seq<u8> {
    seq![84u8, 105u8, 109u8, 101u8, 115u8]
}

/// The bytes of the name `Plus`.
pub open spec fn SEQ_PLUS_fn() -> Seq<u8> {
    seq![80u8, 108u8, 117u8, 115u8]
}

/// The bytes of the name `Power`.
pub open spec fn SEQ_POWER_fn() -> Seq<u8> {
    seq![80u8, 111u8, 119u8, 101u8, 114u8]
}

/// The bytes of the name `Optional`.
pub open spec fn SEQ_OPTIONAL_fn() -> Seq<u8> {
    seq![79u8, 112u8, 116u8, 105u8, 111u8, 110u8, 97u8, 108u8]
}

/// The bytes of the name `Blank`.
pub open spec fn SEQ_BLANK_fn() -> Seq<u8> {
    seq![66u8, 108u8, 97u8, 110u8, 107u8]
}

/// The bytes of the name `BlankSequence`.
pub open spec fn SEQ_BLANKSEQ_fn() -> Seq<u8> {
    seq![66u8, 108u8, 97u8, 110u8, 107u8, 83u8, 101u8, 113u8, 117u8, 101u8, 110u8, 99u8, 101u8]
}

/// The bytes of the name `BlankNullSequence`.
pub open spec fn SEQ_BLANKNULLSEQ_fn() -> Seq<u8> {
    seq![66u8, 108u8, 97u8, 110u8, 107u8, 78u8, 117u8, 108u8, 108u8, 83u8, 101u8, 113u8, 117u8, 101u8, 110u8, 99u8, 101u8]
}

/// The bytes of the name `Pattern`.
pub open spec fn SEQ_PATTERN_fn() -> Seq<u8> {
    seq![80u8, 97u8, 116u8, 116u8, 101u8, 114u8, 110u8]
}

/// The bytes of the name `Slot`.
pub open spec fn SEQ_SLOT_fn() -> Seq<u8> {
    seq![83u8, 108u8, 111u8, 116u8]
}

/// The bytes of the name `SlotSequence`.
pub open spec fn SEQ_SLOTSEQ_fn() -> Seq<u8> {
    seq![83u8, 108u8, 111u8, 116u8, 83u8, 101u8, 113u8, 117u8, 101u8, 110u8, 99u8, 101u8]
}

/// The bytes of the name `Out`.
pub open spec fn SEQ_OUT_fn() -> Seq<u8> {
    seq![79u8, 117u8, 116u8]
}

/// The bytes of the name `Null`.
pub open spec fn SEQ_NULL_fn() -> Seq<u8> {
    seq![78u8, 117u8, 108u8, 108u8]
}

/// The bytes of the name `All`.
pub open spec fn SEQ_ALL_fn() -> Seq<u8> {
    seq![65u8, 108u8, 108u8]
}

/// The bytes of the name `Unset`.
pub open spec fn SEQ_UNSET_fn() -> Seq<u8> {
    seq![85u8, 110u8, 115u8, 101u8, 116u8]
}

/// The bytes of the name `Inequality`.
pub open spec fn SEQ_INEQUALITY_fn() -> Seq<u8> {
    seq![73u8, 110u8, 101u8, 113u8, 117u8, 97u8, 108u8, 105u8, 116u8, 121u8]
}

/// The bytes of the name `MessageName`.
pub open spec fn SEQ_MESSAGENAME_fn() -> Seq<u8> {
    seq![77u8, 101u8, 115u8, 115u8, 97u8, 103u8, 101u8, 78u8, 97u8, 109u8, 101u8]
}

/// The bytes of the name `TagUnset`.
pub open spec fn SEQ_TAGUNSET_fn() -> Seq<u8> {
    seq![84u8, 97u8, 103u8, 85u8, 110u8, 115u8, 101u8, 116u8]
}

/// A symbol leaf.
pub open spec fn gsym(name: Seq<u8>, span: Span) -> GAst {
    GAst::Leaf { kind: TokenKind::Symbol, text: name, span }
}

/// A call of a named head.
pub open spec fn gcall(name: Seq<u8>, args: Seq<GAst>, span: Span) -> GAst {
    GAst::Call { head: Box::new(gsym(name, span)), args, span }
}

/// The negation of an abstracted operand: a number literal gets a minus
/// sign; anything else becomes `Times` of -1 and the operand.
pub open spec fn gnegate(x: GAst, span: Span) -> GAst {
    match x {
        GAst::Leaf { kind, text, span: ls } => if kind is Integer || kind is Real {
            GAst::Leaf { kind, text: seq![45u8] + text, span: ls }
        } else {
            gcall(MINUS_ONE_TIMES(), seq![gminus_one(span), x], span)
        },
        _ => gcall(MINUS_ONE_TIMES(), seq![gminus_one(span), x], span),
    }
}

/// The name `Times`, for negation.
pub open spec fn MINUS_ONE_TIMES() -> Seq<u8> {
    SEQ_TIMES_fn()
}

/// The literal -1.
pub open spec fn gminus_one(span: Span) -> GAst {
    GAst::Leaf { kind: TokenKind::Integer, text: seq![45u8, 49u8], span }
}

/// The abstracted tree of an aggregated concrete tree.
pub open spec fn ab(c: GCst) -> GAst
    decreases c, 3int,
{
    let span = gcst_span(c);
    match c {
        GCst::Leaf(t) => ab_leaf(t),
        GCst::Node(tag, cs) => match tag {
            NodeTag::PrefixT(op) => ab_prefix(op, cs, span),
            NodeTag::InfixT(op) => ab_infix(op, cs, span),
            NodeTag::BinaryT(op) => ab_binary(op, cs, span),
            NodeTag::PostfixT(op) => ab_postfix(op, cs, span),
            NodeTag::TernaryT(op) => ab_ternary(op, cs, span),
            NodeTag::GroupT(op) => gcall(group_name(op), group_args(cs), span),
            NodeTag::GroupMissingCloserT(_) => GAst::SyntaxError {
                kind: SyntaxErrorKind::MissingCloser,
                children: ab_list(cs),
                span,
            },
            NodeTag::CallT => ab_call(cs, span),
            NodeTag::CompoundT(op) => ab_compound(op, cs, span),
            NodeTag::SyntaxErrorT(kind) => GAst::SyntaxError { kind, children: ab_list(cs), span },
        },
    }
}

/// The abstraction of one token: a lone `_.` desugars to
/// `Optional[Blank[]]`; everything else stays an atom.
pub open spec fn ab_leaf(t: GToken) -> GAst {
    if t.kind is UnderDot {
        gcall(
            SEQ_OPTIONAL_fn(),
            seq![gcall(SEQ_BLANK_fn(), Seq::empty(), t.span)],
            t.span,
        )
    } else if t.kind is Fake_ImplicitNull || t.kind is Error_InfixImplicitNull {
        gsym(SEQ_NULL_fn(), t.span)
    } else if t.kind is Fake_ImplicitOne {
        GAst::Leaf { kind: TokenKind::Integer, text: seq![49u8], span: t.span }
    } else if t.kind is Fake_ImplicitAll {
        gsym(SEQ_ALL_fn(), t.span)
    } else {
        GAst::Leaf { kind: t.kind, text: t.text, span: t.span }
    }
}

/// The abstractions of every child.
pub open spec fn ab_list(cs: Seq<GCst>) -> Seq<GAst>
    decreases cs, 0int,
{
    if cs.len() == 0 {
        Seq::empty()
    } else {
        seq![ab(cs[0])] + ab_list(cs.drop_first())
    }
}

/// The abstractions of every other child, starting with the first: the
/// operands of a flat chain whose operator tokens sit in between.
pub open spec fn ab_operands(cs: Seq<GCst>) -> Seq<GAst>
    decreases cs, 0int,
{
    if cs.len() == 0 {
        Seq::empty()
    } else if cs.len() <= 2 {
        seq![ab(cs[0])]
    } else {
        seq![ab(cs[0])] + ab_operands(cs.skip(2))
    }
}

/// The operands of a plus chain: an operand after a minus token is
/// negated.
pub open spec fn ab_plus_rest(cs: Seq<GCst>) -> Seq<GAst>
    decreases cs, 0int,
{
    if cs.len() < 2 {
        Seq::empty()
    } else {
        let neg = cs[0] matches GCst::Leaf(t) && t.kind is Minus;
        let x = ab(cs[1]);
        let y = if neg {
            gnegate(x, gcst_span(cs[1]))
        } else {
            x
        };
        seq![y] + ab_plus_rest(cs.skip(2))
    }
}

/// The arguments of a mixed comparison chain: operands interleaved with
/// the comparison head symbols.
pub open spec fn ab_ineq_rest(cs: Seq<GCst>) -> Seq<GAst>
    decreases cs, 0int,
{
    if cs.len() < 2 {
        Seq::empty()
    } else {
        let opname = match cs[0] {
            GCst::Leaf(t) => ineq_name(t.kind),
            _ => ineq_name(TokenKind::EqualEqual),
        };
        seq![gsym(opname, gcst_span(cs[0])), ab(cs[1])] + ab_ineq_rest(cs.skip(2))
    }
}

/// Whether every operator token of a comparison chain spells the same
/// head.
pub open spec fn ineq_uniform(cs: Seq<GCst>, name: Seq<u8>) -> bool
    decreases cs,
{
    if cs.len() < 2 {
        true
    } else {
        &&& (cs[0] matches GCst::Leaf(t) && ineq_name(t.kind) == name)
        &&& ineq_uniform(cs.skip(2), name)
    }
}

/// The abstraction of a flat chain.
pub open spec fn ab_infix(op: InfixOperator, cs: Seq<GCst>, span: Span) -> GAst
    decreases cs, 2int,
{
    if cs.len() == 0 {
        gcall(infix_name(op), Seq::empty(), span)
    } else {
        match op {
            InfixOperator::Plus => gcall(
                SEQ_PLUS_fn(),
                seq![ab(cs[0])] + ab_plus_rest(cs.skip(1)),
                span,
            ),
            InfixOperator::InfixInequality => {
                let first = if cs.len() > 1 {
                    match cs[1] {
                        GCst::Leaf(t) => ineq_name(t.kind),
                        _ => ineq_name(TokenKind::EqualEqual),
                    }
                } else {
                    ineq_name(TokenKind::EqualEqual)
                };
                if ineq_uniform(cs.skip(1), first) {
                    gcall(first, ab_operands(cs), span)
                } else {
                    gcall(
                        SEQ_INEQUALITY_fn(),
                        seq![ab(cs[0])] + ab_ineq_rest(cs.skip(1)),
                        span,
                    )
                }
            },
            InfixOperator::Comma => gcall(infix_name(op), ab_list(cs), span),
            InfixOperator::MessageName => gcall(
                SEQ_MESSAGENAME_fn(),
                seq![ab(cs[0])] + ab_tags(cs.skip(1)),
                span,
            ),
            _ => gcall(infix_name(op), ab_operands(cs), span),
        }
    }
}

/// The tag arguments of a message name: every other child, quoted when
/// the tag was written bare.
pub open spec fn ab_tags(cs: Seq<GCst>) -> Seq<GAst>
    decreases cs, 0int,
{
    if cs.len() < 2 {
        Seq::empty()
    } else {
        let q = match cs[1] {
            GCst::Leaf(t) => GAst::Leaf {
                kind: TokenKind::String,
                text: quoted(t.text),
                span: t.span,
            },
            _ => ab(cs[1]),
        };
        seq![q] + ab_tags(cs.skip(2))
    }
}

/// The text with quotes added when it does not already begin with one.
pub open spec fn quoted(text: Seq<u8>) -> Seq<u8> {
    if text.len() > 0 && text[0] == 34 {
        text
    } else {
        seq![34u8] + text + seq![34u8]
    }
}

/// The abstraction of a prefix construct.
pub open spec fn ab_prefix(op: PrefixOperator, cs: Seq<GCst>, span: Span) -> GAst
    decreases cs, 2int,
{
    if cs.len() < 2 {
        gcall(prefix_name(op), ab_list(cs), span)
    } else {
        let x = ab(cs[cs.len() - 1]);
        match op {
            PrefixOperator::Minus => gnegate(x, span),
            PrefixOperator::Plus => x,
            _ => gcall(prefix_name(op), seq![x], span),
        }
    }
}

/// The abstraction of a postfix construct.
pub open spec fn ab_postfix(op: PostfixOperator, cs: Seq<GCst>, span: Span) -> GAst
    decreases cs, 2int,
{
    if cs.len() < 1 {
        gcall(postfix_name(op), Seq::empty(), span)
    } else {
        gcall(postfix_name(op), seq![ab(cs[0])], span)
    }
}

/// The abstraction of a binary construct.
pub open spec fn ab_binary(op: BinaryOperator, cs: Seq<GCst>, span: Span) -> GAst
    decreases cs, 2int,
{
    if cs.len() < 3 {
        if op is Unset && cs.len() >= 1 {
            gcall(SEQ_UNSET_fn(), seq![ab(cs[0])], span)
        } else {
            gcall(binary_name(op), ab_list(cs), span)
        }
    } else {
        let a = ab(cs[0]);
        let b = ab(cs[cs.len() - 1]);
        match op {
            BinaryOperator::Divide => gcall(
                SEQ_TIMES_fn(),
                seq![
                    a,
                    gcall(SEQ_POWER_fn(), seq![b, gminus_one(span)], span),
                ],
                span,
            ),
            BinaryOperator::BinaryAt => GAst::Call { head: Box::new(a), args: seq![b], span },
            BinaryOperator::BinarySlashSlash => GAst::Call {
                head: Box::new(b),
                args: seq![a],
                span,
            },
            BinaryOperator::Unset => gcall(SEQ_UNSET_fn(), seq![a], span),
            _ => gcall(binary_name(op), seq![a, b], span),
        }
    }
}

/// The abstraction of a ternary construct.
pub open spec fn ab_ternary(op: TernaryOperator, cs: Seq<GCst>, span: Span) -> GAst
    decreases cs, 2int,
{
    match op {
        TernaryOperator::TernaryTilde => if cs.len() == 5 {
            GAst::Call {
                head: Box::new(ab(cs[2])),
                args: seq![ab(cs[0]), ab(cs[4])],
                span,
            }
        } else {
            gcall(ternary_name(op), ab_operands(cs), span)
        },
        TernaryOperator::TagUnset => if cs.len() >= 4 {
            gcall(SEQ_TAGUNSET_fn(), seq![ab(cs[0]), ab(cs[2])], span)
        } else {
            gcall(ternary_name(op), ab_operands(cs), span)
        },
        _ => gcall(ternary_name(op), ab_operands(cs), span),
    }
}

/// The arguments inside a bracket pair: the children between the opener
/// and closer; one comma chain inside becomes the argument list itself.
pub open spec fn group_args(cs: Seq<GCst>) -> Seq<GAst>
    decreases cs, 2int,
{
    let inner = if cs.len() >= 2 {
        cs.subrange(1, cs.len() - 1)
    } else {
        cs
    };
    if inner.len() == 1 && inner[0] matches GCst::Node(
        NodeTag::InfixT(InfixOperator::Comma),
        ics,
    ) {
        ab_list(inner[0]->1)
    } else {
        ab_list(inner)
    }
}

/// The abstraction of a call: the head applied to the bracket group's
/// arguments. When the bracket group lost its closer, the head is applied
/// to the abstracted remainder instead, and the fatal diagnostic comes
/// from the unclosed group itself.
pub open spec fn ab_call(cs: Seq<GCst>, span: Span) -> GAst
    decreases cs, 2int,
{
    if cs.len() == 0 {
        gcall(SEQ_CALL_fn(), Seq::empty(), span)
    } else if cs.len() >= 2 && (cs[cs.len() - 1] matches GCst::Node(NodeTag::GroupT(_), gcs)) {
        GAst::Call {
            head: Box::new(ab(cs[0])),
            args: group_args(cs[cs.len() - 1]->1),
            span,
        }
    } else {
        GAst::Call { head: Box::new(ab(cs[0])), args: ab_list(cs.drop_first()), span }
    }
}

/// The bytes of the name `CodeParser` + backquote + `Call`.
pub open spec fn SEQ_CALL_fn() -> Seq<u8> {
    seq![67u8, 111u8, 100u8, 101u8, 80u8, 97u8, 114u8, 115u8, 101u8, 114u8, 96u8, 67u8, 97u8, 108u8, 108u8]
}

/// The abstraction of a fused compound: blanks, patterns, slots and
/// history references.
pub open spec fn ab_compound(op: CompoundOperator, cs: Seq<GCst>, span: Span) -> GAst
    decreases cs, 2int,
{
    match op {
        CompoundOperator::Blank => ab_blank(SEQ_BLANK_fn(), cs, 1, span),
        CompoundOperator::BlankSequence => ab_blank(SEQ_BLANKSEQ_fn(), cs, 1, span),
        CompoundOperator::BlankNullSequence => ab_blank(SEQ_BLANKNULLSEQ_fn(), cs, 1, span),
        CompoundOperator::PatternBlank => ab_pattern_blank(SEQ_BLANK_fn(), cs, span),
        CompoundOperator::PatternBlankSequence => ab_pattern_blank(SEQ_BLANKSEQ_fn(), cs, span),
        CompoundOperator::PatternBlankNullSequence => ab_pattern_blank(
            SEQ_BLANKNULLSEQ_fn(),
            cs,
            span,
        ),
        CompoundOperator::PatternOptionalDefault => if cs.len() >= 1 {
            gcall(
                SEQ_OPTIONAL_fn(),
                seq![
                    gcall(
                        SEQ_PATTERN_fn(),
                        seq![ab(cs[0]), gcall(SEQ_BLANK_fn(), Seq::empty(), span)],
                        span,
                    ),
                ],
                span,
            )
        } else {
            gcall(SEQ_OPTIONAL_fn(), Seq::empty(), span)
        },
        CompoundOperator::Slot => ab_slotlike(SEQ_SLOT_fn(), cs, span),
        CompoundOperator::SlotSequence => ab_slotlike(SEQ_SLOTSEQ_fn(), cs, span),
        CompoundOperator::Out => if cs.len() >= 2 {
            gcall(SEQ_OUT_fn(), seq![ab(cs[1])], span)
        } else {
            gcall(SEQ_OUT_fn(), Seq::empty(), span)
        },
    }
}

/// A bare blank, with its head when one is fused on.
pub open spec fn ab_blank(name: Seq<u8>, cs: Seq<GCst>, head_at: int, span: Span) -> GAst
    decreases cs, 0int,
{
    if 0 <= head_at < cs.len() {
        gcall(name, seq![ab(cs[head_at])], span)
    } else {
        gcall(name, Seq::empty(), span)
    }
}

/// A named pattern over a blank: `x_` and its relatives.
pub open spec fn ab_pattern_blank(name: Seq<u8>, cs: Seq<GCst>, span: Span) -> GAst
    decreases cs, 1int,
{
    if cs.len() >= 1 {
        gcall(
            SEQ_PATTERN_fn(),
            seq![ab(cs[0]), ab_blank(name, cs, 2, span)],
            span,
        )
    } else {
        gcall(SEQ_PATTERN_fn(), Seq::empty(), span)
    }
}

/// A slot or slot sequence: index 1 unless one is fused on; a fused name
/// becomes a quoted string.
pub open spec fn ab_slotlike(name: Seq<u8>, cs: Seq<GCst>, span: Span) -> GAst
    decreases cs, 1int,
{
    if cs.len() >= 2 {
        match cs[1] {
            GCst::Leaf(t) => if t.kind is Integer {
                gcall(name, seq![ab(cs[1])], span)
            } else {
                gcall(
                    name,
                    seq![
                        GAst::Leaf { kind: TokenKind::String, text: quoted(t.text), span: t.span },
                    ],
                    span,
                )
            },
            _ => gcall(name, seq![ab(cs[1])], span),
        }
    } else {
        gcall(name, seq![GAst::Leaf {
            kind: TokenKind::Integer,
            text: seq![49u8],
            span,
        }], span)
    }
}

/// The span of a concrete node, computed from its first and last leaves.
pub fn ex_cst_span(c: &Cst) -> (r: Span)
    ensures
        r == gcst_span(cst_g(*c)),
    decreases gsize(cst_g(*c)),
{
    match c {
        Cst::Token(t) => t.src,
        Cst::Prefix { children, .. } => ex_children_span(children, Ghost(cst_g(*c))),
        Cst::Infix { children, .. } => ex_children_span(children, Ghost(cst_g(*c))),
        Cst::Binary { children, .. } => ex_children_span(children, Ghost(cst_g(*c))),
        Cst::Postfix { children, .. } => ex_children_span(children, Ghost(cst_g(*c))),
        Cst::Ternary { children, .. } => ex_children_span(children, Ghost(cst_g(*c))),
        Cst::Group { children, .. } => ex_children_span(children, Ghost(cst_g(*c))),
        Cst::GroupMissingCloser { children, .. } => ex_children_span(children, Ghost(cst_g(*c))),
        Cst::Call { children, .. } => ex_children_span(children, Ghost(cst_g(*c))),
        Cst::Compound { children, .. } => ex_children_span(children, Ghost(cst_g(*c))),
        Cst::SyntaxError { children, .. } => ex_children_span(children, Ghost(cst_g(*c))),
    }
}

/// The span of a composite node from its child list.
fn ex_children_span(children: &Vec<Cst>, Ghost(gc): Ghost<GCst>) -> (r: Span)
    requires
        gc matches GCst::Node(t, cs) && cs == crate::cst::cst_gs(children@),
    ensures
        r == gcst_span(gc),
    decreases gsize(gc), 0int,
{
    proof {
        crate::cst::lemma_cst_gs_len(children@);
    }
    if children.len() == 0 {
        Span {
            start_loc: crate::source::Location::CharacterIndex { index: 0 },
            end_loc: crate::source::Location::CharacterIndex { index: 0 },
        }
    } else {
        proof {
            crate::cst::lemma_cst_gs_index(children@, 0);
            crate::cst::lemma_cst_gs_index(children@, children@.len() - 1);
            crate::cst::lemma_gs_size_index(crate::cst::cst_gs(children@), 0);
            crate::cst::lemma_gs_size_index(
                crate::cst::cst_gs(children@),
                children@.len() - 1,
            );
        }
        let s = ex_cst_span(&children[0]);
        let e = ex_cst_span(&children[children.len() - 1]);
        Span { start_loc: s.start_loc, end_loc: e.end_loc }
    }
}

/// A symbol leaf, as a node.
fn ex_gsym(name: Vec<u8>, span: Span) -> (r: Ast)
    ensures
        ast_g(r) == gsym(name@, span),
{
    Ast::Leaf { kind: TokenKind::Symbol, text: name, data: AstMetadata { span } }
}

/// A call of a named head, as a node.
fn ex_gcall(name: Vec<u8>, args: Vec<Ast>, span: Span) -> (r: Ast)
    ensures
        ast_g(r) == gcall(name@, ast_gs(args@), span),
{
    let ghost gname = name@;
    let ghost gargs = ast_gs(args@);
    let leaf = Ast::Leaf { kind: TokenKind::Symbol, text: name, data: AstMetadata { span } };
    proof {
        assert(ast_g(leaf) == gsym(gname, span));
    }
    let r = Ast::Call { head: Box::new(leaf), args, data: AstMetadata { span } };
    proof {
        assert(ast_g(r) == GAst::Call { head: Box::new(gsym(gname, span)), args: gargs, span });
    }
    r
}

/// The literal -1, as a node.
fn ex_minus_one(span: Span) -> (r: Ast)
    ensures
        ast_g(r) == gminus_one(span),
{
    Ast::Leaf { kind: TokenKind::Integer, text: vec![45u8, 49u8], data: AstMetadata { span } }
}

/// The negation of an abstracted operand; see [`gnegate`].
fn ex_negate(x: Ast, span: Span) -> (r: Ast)
    ensures
        ast_g(r) == gnegate(ast_g(x), span),
{
    match x {
        Ast::Leaf { kind, text, data } => {
            if matches!(kind, TokenKind::Integer | TokenKind::Real) {
                let mut t2: Vec<u8> = Vec::new();
                t2.push(45u8);
                let ghost told = text@;
                let t3 = crate::parse::concat_bytes(t2, text);
                proof {
                    assert(t3@ =~= seq![45u8] + told);
                }
                Ast::Leaf { kind, text: t3, data }
            } else {
                let mut args: Vec<Ast> = Vec::new();
                args.push(ex_minus_one(span));
                let ghost gx = ast_g(Ast::Leaf { kind, text: args@[0]->Leaf_text, data });
                let x2 = Ast::Leaf { kind, text, data };
                let ghost gx2 = ast_g(x2);
                args.push(x2);
                proof {
                    lemma_gs2(args@, gminus_one(span), gx2);
                }
                ex_gcall(ex_name_times(), args, span)
            }
        },
        other => {
            let mut args: Vec<Ast> = Vec::new();
            args.push(ex_minus_one(span));
            let ghost gx2 = ast_g(other);
            args.push(other);
            proof {
                lemma_gs2(args@, gminus_one(span), gx2);
            }
            ex_gcall(ex_name_times(), args, span)
        },
    }
}

/// A two-element node list mirrors to the pair of mirrors.
proof fn lemma_gs2(cs: Seq<Ast>, a: GAst, b: GAst)
    requires
        cs.len() == 2,
        ast_g(cs[0]) == a,
        ast_g(cs[1]) == b,
    ensures
        ast_gs(cs) == seq![a, b],
{
    assert(cs.drop_first().len() == 1);
    assert(cs.drop_first()[0] == cs[1]);
    assert(cs.drop_first().drop_first() =~= Seq::<Ast>::empty());
    assert(ast_gs(cs.drop_first().drop_first()) =~= Seq::<GAst>::empty());
    assert(ast_gs(cs.drop_first()) =~= seq![b]);
    assert(ast_gs(cs) =~= seq![a, b]);
}

/// A one-element node list mirrors to the one mirror.
proof fn lemma_gs1(cs: Seq<Ast>, a: GAst)
    requires
        cs.len() == 1,
        ast_g(cs[0]) == a,
    ensures
        ast_gs(cs) == seq![a],
{
    assert(cs.drop_first() =~= Seq::<Ast>::empty());
    assert(ast_gs(cs.drop_first()) =~= Seq::<GAst>::empty());
    assert(ast_gs(cs) =~= seq![a]);
}

/// The bytes of the name `Times`.
fn ex_name_times() -> (r: Vec<u8>)
    ensures
        r@ == SEQ_TIMES_fn(),
{
    vec![84u8, 105u8, 109u8, 101u8, 115u8]
}

/// The bytes of the name `Plus`.
fn ex_name_plus() -> (r: Vec<u8>)
    ensures
        r@ == SEQ_PLUS_fn(),
{
    vec![80u8, 108u8, 117u8, 115u8]
}

/// The bytes of the name `Power`.
fn ex_name_power() -> (r: Vec<u8>)
    ensures
        r@ == SEQ_POWER_fn(),
{
    vec![80u8, 111u8, 119u8, 101u8, 114u8]
}

/// The bytes of the name `Optional`.
fn ex_name_optional() -> (r: Vec<u8>)
    ensures
        r@ == SEQ_OPTIONAL_fn(),
{
    vec![79u8, 112u8, 116u8, 105u8, 111u8, 110u8, 97u8, 108u8]
}

/// The bytes of the name `Blank`.
fn ex_name_blank() -> (r: Vec<u8>)
    ensures
        r@ == SEQ_BLANK_fn(),
{
    vec![66u8, 108u8, 97u8, 110u8, 107u8]
}

/// The bytes of the name `BlankSequence`.
fn ex_name_blankseq() -> (r: Vec<u8>)
    ensures
        r@ == SEQ_BLANKSEQ_fn(),
{
    vec![66u8, 108u8, 97u8, 110u8, 107u8, 83u8, 101u8, 113u8, 117u8, 101u8, 110u8, 99u8, 101u8]
}

/// The bytes of the name `BlankNullSequence`.
fn ex_name_blanknullseq() -> (r: Vec<u8>)
    ensures
        r@ == SEQ_BLANKNULLSEQ_fn(),
{
    vec![66u8, 108u8, 97u8, 110u8, 107u8, 78u8, 117u8, 108u8, 108u8, 83u8, 101u8, 113u8, 117u8, 101u8, 110u8, 99u8, 101u8]
}

/// The bytes of the name `Pattern`.
fn ex_name_pattern() -> (r: Vec<u8>)
    ensures
        r@ == SEQ_PATTERN_fn(),
{
    vec![80u8, 97u8, 116u8, 116u8, 101u8, 114u8, 110u8]
}

/// The bytes of the name `Slot`.
fn ex_name_slot() -> (r: Vec<u8>)
    ensures
        r@ == SEQ_SLOT_fn(),
{
    vec![83u8, 108u8, 111u8, 116u8]
}

/// The bytes of the name `SlotSequence`.
fn ex_name_slotseq() -> (r: Vec<u8>)
    ensures
        r@ == SEQ_SLOTSEQ_fn(),
{
    vec![83u8, 108u8, 111u8, 116u8, 83u8, 101u8, 113u8, 117u8, 101u8, 110u8, 99u8, 101u8]
}

/// The bytes of the name `Out`.
fn ex_name_out() -> (r: Vec<u8>)
    ensures
        r@ == SEQ_OUT_fn(),
{
    vec![79u8, 117u8, 116u8]
}

/// The bytes of the name `Null`.
fn ex_name_null() -> (r: Vec<u8>)
    ensures
        r@ == SEQ_NULL_fn(),
{
    vec![78u8, 117u8, 108u8, 108u8]
}

/// The bytes of the name `All`.
fn ex_name_all() -> (r: Vec<u8>)
    ensures
        r@ == SEQ_ALL_fn(),
{
    vec![65u8, 108u8, 108u8]
}

/// The bytes of the name `Unset`.
fn ex_name_unset() -> (r: Vec<u8>)
    ensures
        r@ == SEQ_UNSET_fn(),
{
    vec![85u8, 110u8, 115u8, 101u8, 116u8]
}

/// The bytes of the name `Inequality`.
fn ex_name_inequality() -> (r: Vec<u8>)
    ensures
        r@ == SEQ_INEQUALITY_fn(),
{
    vec![73u8, 110u8, 101u8, 113u8, 117u8, 97u8, 108u8, 105u8, 116u8, 121u8]
}

/// The bytes of the name `MessageName`.
fn ex_name_messagename() -> (r: Vec<u8>)
    ensures
        r@ == SEQ_MESSAGENAME_fn(),
{
    vec![77u8, 101u8, 115u8, 115u8, 97u8, 103u8, 101u8, 78u8, 97u8, 109u8, 101u8]
}

/// The bytes of the name `TagUnset`.
fn ex_name_tagunset() -> (r: Vec<u8>)
    ensures
        r@ == SEQ_TAGUNSET_fn(),
{
    vec![84u8, 97u8, 103u8, 85u8, 110u8, 115u8, 101u8, 116u8]
}

/// Abstracts every child; see [`ab_list`].
fn ex_ab_list(cs: Vec<Cst>) -> (r: Vec<Ast>)
    ensures
        ast_gs(r@) == ab_list(cst_gs(cs@)),
    decreases gs_size(cst_gs(cs@)), 1int,
{
    let ghost gcs = cst_gs(cs@);
    let mut rest = cs;
    if rest.len() == 0 {
        let r: Vec<Ast> = Vec::new();
        proof {
            assert(ast_gs(r@) =~= ab_list(gcs));
        }
        return r;
    }
    let c0 = rest.remove(0);
    let ghost gc0 = cst_g(c0);
    proof {
        lemma_split_first(cs@, rest@, gc0);
    }
    let a0 = ex_abstract(c0);
    let more = ex_ab_list(rest);
    let mut r: Vec<Ast> = Vec::new();
    let ghost ga0 = ast_g(a0);
    push_ast(&mut r, a0);
    append_asts(&mut r, more);
    proof {
        assert(ast_gs(r@) =~= ab_list(gcs));
    }
    r
}

/// The first child splits off a mirrored list.
proof fn lemma_split_first(cs: Seq<Cst>, rest: Seq<Cst>, gc0: GCst)
    requires
        cs.len() > 0,
        rest =~= cs.drop_first(),
        gc0 == cst_g(cs[0]),
    ensures
        cst_gs(cs) == seq![gc0] + cst_gs(rest),
        cst_gs(cs)[0] == gc0,
        cst_gs(cs).drop_first() =~= cst_gs(rest),
        gs_size(cst_gs(cs)) == gsize(gc0) + gs_size(cst_gs(rest)),
        gsize(gc0) >= 1,
{
    assert(cst_gs(cs) =~= seq![gc0] + cst_gs(rest));
    assert((seq![gc0] + cst_gs(rest))[0] == gc0);
    assert((seq![gc0] + cst_gs(rest)).drop_first() =~= cst_gs(rest));
}

/// Appends an abstracted node, tracking the mirror.
fn push_ast(ch: &mut Vec<Ast>, c: Ast)
    ensures
        ast_gs(final(ch)@) == ast_gs(old(ch)@).push(ast_g(c)),
        final(ch)@ == old(ch)@.push(c),
{
    proof {
        crate::ast::lemma_ast_gs_push(ch@, c);
    }
    ch.push(c);
}

/// Appends a whole abstracted list, tracking the mirror.
fn append_asts(ch: &mut Vec<Ast>, mut more: Vec<Ast>)
    ensures
        ast_gs(final(ch)@) == ast_gs(old(ch)@) + ast_gs(more@),
{
    let ghost more0 = more@;
    while more.len() > 0
        invariant
            ast_gs(ch@) + ast_gs(more@) == ast_gs(old(ch)@) + ast_gs(more0),
        decreases more@.len(),
    {
        let c = more.remove(0);
        proof {
            crate::ast::lemma_ast_gs_push(ch@, c);
        }
        let ghost chpre = ch@;
        ch.push(c);
        proof {
            assert(ast_gs(chpre).push(ast_g(c)) + ast_gs(more@) =~= ast_gs(chpre) + (seq![
                ast_g(c),
            ] + ast_gs(more@)));
        }
    }
    proof {
        assert(ast_gs(more@) =~= Seq::<GAst>::empty());
        assert(ast_gs(old(ch)@) + ast_gs(more0) =~= ast_gs(final(ch)@));
    }
}

/// Abstracts every other child; see [`ab_operands`].
fn ex_ab_operands(cs: Vec<Cst>) -> (r: Vec<Ast>)
    ensures
        ast_gs(r@) == ab_operands(cst_gs(cs@)),
    decreases gs_size(cst_gs(cs@)), 1int,
{
    let ghost gcs = cst_gs(cs@);
    proof {
        crate::cst::lemma_cst_gs_len(cs@);
    }
    let mut rest = cs;
    if rest.len() == 0 {
        let r: Vec<Ast> = Vec::new();
        proof {
            assert(ast_gs(r@) =~= ab_operands(gcs));
        }
        return r;
    }
    let c0 = rest.remove(0);
    let ghost gc0 = cst_g(c0);
    proof {
        lemma_split_first(cs@, rest@, gc0);
    }
    let a0 = ex_abstract(c0);
    let ghost ga0 = ast_g(a0);
    if rest.len() <= 1 {
        let mut r: Vec<Ast> = Vec::new();
        push_ast(&mut r, a0);
        proof {
            assert(ast_gs(r@) =~= seq![ga0]);
            assert(ast_gs(r@) =~= ab_operands(gcs));
        }
        r
    } else {
        let op = rest.remove(0);
        let ghost gop = cst_g(op);
        proof {
            lemma_split_first(cs@.drop_first(), rest@, gop);
            assert(gcs.skip(2) =~= cst_gs(rest@)) by {
                assert(cst_gs(cs@.drop_first()).drop_first() =~= cst_gs(rest@));
                assert(gcs.drop_first().drop_first() =~= gcs.skip(2));
            }
            crate::cst::lemma_gs_size_index(gcs, 0);
        }
        let more = ex_ab_operands(rest);
        let mut r: Vec<Ast> = Vec::new();
        push_ast(&mut r, a0);
        append_asts(&mut r, more);
        proof {
            assert(ast_gs(r@) =~= seq![ga0] + ab_operands(gcs.skip(2)));
            assert(ast_gs(r@) =~= ab_operands(gcs));
        }
        r
    }
}

/// Abstracts one aggregated concrete tree; see [`ab`].
pub fn ex_abstract(c: Cst) -> (r: Ast)
    ensures
        ast_g(r) == ab(cst_g(c)),
    decreases gsize(cst_g(c)), 0int,
{
    let ghost g0 = cst_g(c);
    let span = ex_cst_span(&c);
    proof {
        assert(span == gcst_span(g0));
    }
    match c {
        Cst::Token(t) => ex_ab_leaf(t),
        Cst::Prefix { op, children } => {
            proof {
                assert(gsize(g0) == 1 + gs_size(cst_gs(children@)));
            }
            ex_ab_prefix(op, children, span)
        },
        Cst::Infix { op, children } => {
            proof {
                assert(gsize(g0) == 1 + gs_size(cst_gs(children@)));
            }
            ex_ab_infix(op, children, span)
        },
        Cst::Binary { op, children } => {
            proof {
                assert(gsize(g0) == 1 + gs_size(cst_gs(children@)));
            }
            ex_ab_binary(op, children, span)
        },
        Cst::Postfix { op, children } => {
            proof {
                assert(gsize(g0) == 1 + gs_size(cst_gs(children@)));
            }
            ex_ab_postfix(op, children, span)
        },
        Cst::Ternary { op, children } => {
            proof {
                assert(gsize(g0) == 1 + gs_size(cst_gs(children@)));
            }
            ex_ab_ternary(op, children, span)
        },
        Cst::Group { op, children } => {
            proof {
                assert(gsize(g0) == 1 + gs_size(cst_gs(children@)));
            }
            let args = ex_group_args(children);
            ex_gcall(ex_group_name(op), args, span)
        },
        Cst::GroupMissingCloser { op: _, children } => {
            proof {
                assert(gsize(g0) == 1 + gs_size(cst_gs(children@)));
            }
            let ch = ex_ab_list(children);
            Ast::SyntaxError {
                kind: SyntaxErrorKind::MissingCloser,
                children: ch,
                data: AstMetadata { span },
            }
        },
        Cst::Call { children } => {
            proof {
                assert(gsize(g0) == 1 + gs_size(cst_gs(children@)));
            }
            ex_ab_call(children, span)
        },
        Cst::Compound { op, children } => {
            proof {
                assert(gsize(g0) == 1 + gs_size(cst_gs(children@)));
            }
            ex_ab_compound(op, children, span)
        },
        Cst::SyntaxError { kind, children } => {
            proof {
                assert(gsize(g0) == 1 + gs_size(cst_gs(children@)));
            }
            let ch = ex_ab_list(children);
            Ast::SyntaxError { kind, children: ch, data: AstMetadata { span } }
        },
    }
}

/// Abstracts one token; see [`ab_leaf`].
fn ex_ab_leaf(t: crate::token::Token) -> (r: Ast)
    ensures
        ast_g(r) == ab_leaf(crate::cst::tok_g(t)),
{
    let span = t.src;
    if matches!(t.tok, TokenKind::UnderDot) {
        proof {
            assert(ast_gs(Seq::<Ast>::empty()) =~= Seq::<GAst>::empty());
        }
        let inner = ex_gcall(ex_name_blank(), Vec::new(), span);
        let ghost gi = ast_g(inner);
        let mut args: Vec<Ast> = Vec::new();
        push_ast(&mut args, inner);
        proof {
            lemma_gs1(args@, gi);
        }
        ex_gcall(ex_name_optional(), args, span)
    } else if matches!(t.tok, TokenKind::Fake_ImplicitNull | TokenKind::Error_InfixImplicitNull) {
        ex_gsym(ex_name_null(), span)
    } else if matches!(t.tok, TokenKind::Fake_ImplicitOne) {
        let tx: Vec<u8> = vec![49u8];
        proof {
            assert(tx@ =~= seq![49u8]);
        }
        Ast::Leaf { kind: TokenKind::Integer, text: tx, data: AstMetadata { span } }
    } else if matches!(t.tok, TokenKind::Fake_ImplicitAll) {
        ex_gsym(ex_name_all(), span)
    } else {
        Ast::Leaf { kind: t.tok, text: t.text, data: AstMetadata { span } }
    }
}

/// Abstracts a prefix construct; see [`ab_prefix`].
fn ex_ab_prefix(op: PrefixOperator, cs: Vec<Cst>, span: Span) -> (r: Ast)
    ensures
        ast_g(r) == ab_prefix(op, cst_gs(cs@), span),
    decreases gs_size(cst_gs(cs@)), 3int,
{
    let ghost gcs = cst_gs(cs@);
    proof {
        crate::cst::lemma_cst_gs_len(cs@);
    }
    if cs.len() < 2 {
        let args = ex_ab_list(cs);
        ex_gcall(ex_prefix_name(op), args, span)
    } else {
        let mut rest = cs;
        let x = rest.remove(rest.len() - 1);
        let ghost gx = cst_g(x);
        proof {
            assert(x == cs@[cs@.len() - 1]);
            crate::cst::lemma_cst_gs_index(cs@, cs@.len() - 1);
            crate::cst::lemma_gs_size_index(gcs, gcs.len() - 1);
        }
        let ax = ex_abstract(x);
        let ghost gax = ast_g(ax);
        match op {
            PrefixOperator::Minus => ex_negate(ax, span),
            PrefixOperator::Plus => ax,
            _ => {
                let mut args: Vec<Ast> = Vec::new();
                push_ast(&mut args, ax);
                proof {
                    lemma_gs1(args@, gax);
                }
                ex_gcall(ex_prefix_name(op), args, span)
            },
        }
    }
}

/// Abstracts a postfix construct; see [`ab_postfix`].
fn ex_ab_postfix(op: PostfixOperator, cs: Vec<Cst>, span: Span) -> (r: Ast)
    ensures
        ast_g(r) == ab_postfix(op, cst_gs(cs@), span),
    decreases gs_size(cst_gs(cs@)), 3int,
{
    let ghost gcs = cst_gs(cs@);
    proof {
        crate::cst::lemma_cst_gs_len(cs@);
    }
    if cs.len() < 1 {
        proof {
            assert(ast_gs(Seq::<Ast>::empty()) =~= Seq::<GAst>::empty());
        }
        ex_gcall(ex_postfix_name(op), Vec::new(), span)
    } else {
        let mut rest = cs;
        let x = rest.remove(0);
        let ghost gx = cst_g(x);
        proof {
            lemma_split_first(cs@, rest@, gx);
        }
        let ax = ex_abstract(x);
        let ghost gax = ast_g(ax);
        let mut args: Vec<Ast> = Vec::new();
        push_ast(&mut args, ax);
        proof {
            lemma_gs1(args@, gax);
        }
        ex_gcall(ex_postfix_name(op), args, span)
    }
}

/// Abstracts a binary construct; see [`ab_binary`].
fn ex_ab_binary(op: BinaryOperator, cs: Vec<Cst>, span: Span) -> (r: Ast)
    ensures
        ast_g(r) == ab_binary(op, cst_gs(cs@), span),
    decreases gs_size(cst_gs(cs@)), 3int,
{
    let ghost gcs = cst_gs(cs@);
    proof {
        crate::cst::lemma_cst_gs_len(cs@);
    }
    if cs.len() < 3 {
        if matches!(op, BinaryOperator::Unset) && cs.len() >= 1 {
            let mut rest = cs;
            let x = rest.remove(0);
            let ghost gx = cst_g(x);
            proof {
                lemma_split_first(cs@, rest@, gx);
            }
            let ax = ex_abstract(x);
            let ghost gax = ast_g(ax);
            let mut args: Vec<Ast> = Vec::new();
            push_ast(&mut args, ax);
            proof {
                lemma_gs1(args@, gax);
            }
            ex_gcall(ex_name_unset(), args, span)
        } else {
            let args = ex_ab_list(cs);
            ex_gcall(ex_binary_name(op), args, span)
        }
    } else {
        let mut rest = cs;
        let a = rest.remove(0);
        let ghost ga = cst_g(a);
        proof {
            lemma_split_first(cs@, rest@, ga);
            crate::cst::lemma_cst_gs_index(cs@, cs@.len() - 1);
            crate::cst::lemma_gs_size_index(gcs, 0);
            crate::cst::lemma_gs_size_index(gcs, gcs.len() - 1);
        }
        let b = rest.remove(rest.len() - 1);
        let ghost gb = cst_g(b);
        proof {
            assert(gb == gcs[gcs.len() - 1]) by {
                assert(b == cs@[cs@.len() - 1]);
            }
        }
        let aa = ex_abstract(a);
        let ghost gaa = ast_g(aa);
        let ab2 = ex_abstract(b);
        let ghost gab = ast_g(ab2);
        match op {
            BinaryOperator::Divide => {
                let m1 = ex_minus_one(span);
                let ghost gm1 = ast_g(m1);
                let mut pargs: Vec<Ast> = Vec::new();
                push_ast(&mut pargs, ab2);
                push_ast(&mut pargs, m1);
                proof {
                    lemma_gs2(pargs@, gab, gm1);
                }
                let pw = ex_gcall(ex_name_power(), pargs, span);
                let ghost gpw = ast_g(pw);
                let mut targs: Vec<Ast> = Vec::new();
                push_ast(&mut targs, aa);
                push_ast(&mut targs, pw);
                proof {
                    lemma_gs2(targs@, gaa, gpw);
                }
                ex_gcall(ex_name_times(), targs, span)
            },
            BinaryOperator::BinaryAt => {
                let mut args: Vec<Ast> = Vec::new();
                push_ast(&mut args, ab2);
                proof {
                    lemma_gs1(args@, gab);
                }
                Ast::Call { head: Box::new(aa), args, data: AstMetadata { span } }
            },
            BinaryOperator::BinarySlashSlash => {
                let mut args: Vec<Ast> = Vec::new();
                push_ast(&mut args, aa);
                proof {
                    lemma_gs1(args@, gaa);
                }
                Ast::Call { head: Box::new(ab2), args, data: AstMetadata { span } }
            },
            BinaryOperator::Unset => {
                let mut args: Vec<Ast> = Vec::new();
                push_ast(&mut args, aa);
                proof {
                    lemma_gs1(args@, gaa);
                }
                ex_gcall(ex_name_unset(), args, span)
            },
            _ => {
                let mut args: Vec<Ast> = Vec::new();
                push_ast(&mut args, aa);
                push_ast(&mut args, ab2);
                proof {
                    lemma_gs2(args@, gaa, gab);
                }
                ex_gcall(ex_binary_name(op), args, span)
            },
        }
    }
}

/// Abstracts a ternary construct; see [`ab_ternary`].
fn ex_ab_ternary(op: TernaryOperator, cs: Vec<Cst>, span: Span) -> (r: Ast)
    ensures
        ast_g(r) == ab_ternary(op, cst_gs(cs@), span),
    decreases gs_size(cst_gs(cs@)), 3int,
{
    let ghost gcs = cst_gs(cs@);
    proof {
        crate::cst::lemma_cst_gs_len(cs@);
    }
    if matches!(op, TernaryOperator::TernaryTilde) && cs.len() == 5 {
        let mut rest = cs;
        let a = rest.remove(0);
        let _o1 = rest.remove(0);
        let f = rest.remove(0);
        let _o2 = rest.remove(0);
        let b = rest.remove(0);
        let ghost gaa = cst_g(a);
        let ghost gf = cst_g(f);
        let ghost gb = cst_g(b);
        proof {
            crate::cst::lemma_cst_gs_index(cs@, 0);
            crate::cst::lemma_cst_gs_index(cs@, 2);
            crate::cst::lemma_cst_gs_index(cs@, 4);
            crate::cst::lemma_gs_size_index(gcs, 0);
            crate::cst::lemma_gs_size_index(gcs, 2);
            crate::cst::lemma_gs_size_index(gcs, 4);
            assert(a == cs@[0] && f == cs@[2] && b == cs@[4]);
        }
        let fa = ex_abstract(f);
        let aa = ex_abstract(a);
        let ba = ex_abstract(b);
        let ghost gfa = ast_g(fa);
        let ghost gaaa = ast_g(aa);
        let ghost gba = ast_g(ba);
        let mut args: Vec<Ast> = Vec::new();
        push_ast(&mut args, aa);
        push_ast(&mut args, ba);
        proof {
            lemma_gs2(args@, gaaa, gba);
        }
        Ast::Call { head: Box::new(fa), args, data: AstMetadata { span } }
    } else if matches!(op, TernaryOperator::TagUnset) && cs.len() >= 4 {
        let mut rest = cs;
        let a = rest.remove(0);
        let _o1 = rest.remove(0);
        let b = rest.remove(0);
        let ghost gaa = cst_g(a);
        let ghost gb = cst_g(b);
        proof {
            crate::cst::lemma_cst_gs_index(cs@, 0);
            crate::cst::lemma_cst_gs_index(cs@, 2);
            crate::cst::lemma_gs_size_index(gcs, 0);
            crate::cst::lemma_gs_size_index(gcs, 2);
            assert(a == cs@[0] && b == cs@[2]);
        }
        let aa = ex_abstract(a);
        let ba = ex_abstract(b);
        let ghost gaaa = ast_g(aa);
        let ghost gba = ast_g(ba);
        let mut args: Vec<Ast> = Vec::new();
        push_ast(&mut args, aa);
        push_ast(&mut args, ba);
        proof {
            lemma_gs2(args@, gaaa, gba);
        }
        ex_gcall(ex_name_tagunset(), args, span)
    } else {
        let args = ex_ab_operands(cs);
        ex_gcall(ex_ternary_name(op), args, span)
    }
}

/// Abstracts the operands of a plus chain; see [`ab_plus_rest`].
fn ex_ab_plus_rest(cs: Vec<Cst>) -> (r: Vec<Ast>)
    ensures
        ast_gs(r@) == ab_plus_rest(cst_gs(cs@)),
    decreases gs_size(cst_gs(cs@)), 1int,
{
    let ghost gcs = cst_gs(cs@);
    proof {
        crate::cst::lemma_cst_gs_len(cs@);
    }
    if cs.len() < 2 {
        let r: Vec<Ast> = Vec::new();
        proof {
            assert(ast_gs(r@) =~= ab_plus_rest(gcs));
        }
        return r;
    }
    let mut rest = cs;
    let opt = rest.remove(0);
    let ghost gop = cst_g(opt);
    proof {
        lemma_split_first(cs@, rest@, gop);
    }
    let x = rest.remove(0);
    let ghost gx = cst_g(x);
    proof {
        lemma_split_first(cs@.drop_first(), rest@, gx);
        assert(gcs.skip(2) =~= cst_gs(rest@)) by {
            assert(cst_gs(cs@.drop_first()).drop_first() =~= cst_gs(rest@));
            assert(gcs.drop_first().drop_first() =~= gcs.skip(2));
        }
        assert(gcs[1] == gx) by {
            assert(cst_gs(cs@.drop_first())[0] == gx);
        }
    }
    let neg = match &opt {
        Cst::Token(tk) => matches!(tk.tok, TokenKind::Minus),
        _ => false,
    };
    proof {
        assert(neg == (gcs[0] matches GCst::Leaf(t) && t.kind is Minus));
    }
    let xspan = ex_cst_span(&x);
    let ax = ex_abstract(x);
    let ghost gax = ast_g(ax);
    let y = if neg {
        ex_negate(ax, xspan)
    } else {
        ax
    };
    let ghost gy = ast_g(y);
    let more = ex_ab_plus_rest(rest);
    let mut r: Vec<Ast> = Vec::new();
    push_ast(&mut r, y);
    append_asts(&mut r, more);
    proof {
        assert(ast_gs(r@) =~= seq![gy] + ab_plus_rest(gcs.skip(2)));
        assert(ast_gs(r@) =~= ab_plus_rest(gcs));
    }
    r
}

/// Abstracts the tail of a mixed comparison chain; see [`ab_ineq_rest`].
fn ex_ab_ineq_rest(cs: Vec<Cst>) -> (r: Vec<Ast>)
    ensures
        ast_gs(r@) == ab_ineq_rest(cst_gs(cs@)),
    decreases gs_size(cst_gs(cs@)), 1int,
{
    let ghost gcs = cst_gs(cs@);
    proof {
        crate::cst::lemma_cst_gs_len(cs@);
    }
    if cs.len() < 2 {
        let r: Vec<Ast> = Vec::new();
        proof {
            assert(ast_gs(r@) =~= ab_ineq_rest(gcs));
        }
        return r;
    }
    let mut rest = cs;
    let opt = rest.remove(0);
    let ghost gop = cst_g(opt);
    proof {
        lemma_split_first(cs@, rest@, gop);
    }
    let x = rest.remove(0);
    let ghost gx = cst_g(x);
    proof {
        lemma_split_first(cs@.drop_first(), rest@, gx);
        assert(gcs.skip(2) =~= cst_gs(rest@)) by {
            assert(cst_gs(cs@.drop_first()).drop_first() =~= cst_gs(rest@));
            assert(gcs.drop_first().drop_first() =~= gcs.skip(2));
        }
        assert(gcs[1] == gx) by {
            assert(cst_gs(cs@.drop_first())[0] == gx);
        }
    }
    let opspan = ex_cst_span(&opt);
    let nm = match &opt {
        Cst::Token(tk) => ex_ineq_name(tk.tok),
        _ => ex_ineq_name(TokenKind::EqualEqual),
    };
    let osym = ex_gsym(nm, opspan);
    let ghost gos = ast_g(osym);
    let ax = ex_abstract(x);
    let ghost gax = ast_g(ax);
    let more = ex_ab_ineq_rest(rest);
    let mut r: Vec<Ast> = Vec::new();
    push_ast(&mut r, osym);
    push_ast(&mut r, ax);
    append_asts(&mut r, more);
    proof {
        assert(ast_gs(r@) =~= seq![gos, gax] + ab_ineq_rest(gcs.skip(2)));
        assert(ast_gs(r@) =~= ab_ineq_rest(gcs));
    }
    r
}

/// Abstracts the tags of a message name; see [`ab_tags`].
fn ex_ab_tags(cs: Vec<Cst>) -> (r: Vec<Ast>)
    ensures
        ast_gs(r@) == ab_tags(cst_gs(cs@)),
    decreases gs_size(cst_gs(cs@)), 1int,
{
    let ghost gcs = cst_gs(cs@);
    proof {
        crate::cst::lemma_cst_gs_len(cs@);
    }
    if cs.len() < 2 {
        let r: Vec<Ast> = Vec::new();
        proof {
            assert(ast_gs(r@) =~= ab_tags(gcs));
        }
        return r;
    }
    let mut rest = cs;
    let opt = rest.remove(0);
    let ghost gop = cst_g(opt);
    proof {
        lemma_split_first(cs@, rest@, gop);
    }
    let x = rest.remove(0);
    let ghost gx = cst_g(x);
    proof {
        lemma_split_first(cs@.drop_first(), rest@, gx);
        assert(gcs.skip(2) =~= cst_gs(rest@)) by {
            assert(cst_gs(cs@.drop_first()).drop_first() =~= cst_gs(rest@));
            assert(gcs.drop_first().drop_first() =~= gcs.skip(2));
        }
        assert(gcs[1] == gx) by {
            assert(cst_gs(cs@.drop_first())[0] == gx);
        }
    }
    let q = match x {
        Cst::Token(tk) => {
            let tspan = tk.src;
            let qt = ex_quoted(tk.text);
            Ast::Leaf { kind: TokenKind::String, text: qt, data: AstMetadata { span: tspan } }
        },
        other => ex_abstract(other),
    };
    let ghost gq = ast_g(q);
    let more = ex_ab_tags(rest);
    let mut r: Vec<Ast> = Vec::new();
    push_ast(&mut r, q);
    append_asts(&mut r, more);
    proof {
        assert(ast_gs(r@) =~= seq![gq] + ab_tags(gcs.skip(2)));
        assert(ast_gs(r@) =~= ab_tags(gcs));
    }
    r
}

/// Adds quotes around bare text; see [`quoted`].
fn ex_quoted(text: Vec<u8>) -> (r: Vec<u8>)
    ensures
        r@ == quoted(text@),
{
    if text.len() > 0 && text[0] == 34 {
        text
    } else {
        let ghost t0 = text@;
        let mut q: Vec<u8> = Vec::new();
        q.push(34u8);
        let q2 = crate::parse::concat_bytes(q, text);
        let mut tail: Vec<u8> = Vec::new();
        tail.push(34u8);
        let q3 = crate::parse::concat_bytes(q2, tail);
        proof {
            assert(q3@ =~= seq![34u8] + t0 + seq![34u8]);
        }
        q3
    }
}

/// Whether every comparison token of a chain spells this head name; see
/// [`ineq_uniform`].
fn ex_ineq_uniform(cs: &Vec<Cst>, start: usize, name: &Vec<u8>) -> (r: bool)
    requires
        start <= cs@.len(),
    ensures
        r == ineq_uniform(cst_gs(cs@).skip(start as int), name@),
    decreases cs@.len() - start,
{
    let ghost gcs = cst_gs(cs@);
    proof {
        crate::cst::lemma_cst_gs_len(cs@);
    }
    if cs.len() - start < 2 {
        proof {
            assert(gcs.skip(start as int).len() < 2);
        }
        true
    } else {
        proof {
            crate::cst::lemma_cst_gs_index(cs@, start as int);
            assert(gcs.skip(start as int)[0] == cst_g(cs@[start as int]));
            assert(gcs.skip(start as int).skip(2) =~= gcs.skip(start + 2));
        }
        let ok = match &cs[start] {
            Cst::Token(tk) => {
                let nm = ex_ineq_name(tk.tok);
                bytes_eq(&nm, name)
            },
            _ => false,
        };
        if ok {
            ex_ineq_uniform(cs, start + 2, name)
        } else {
            false
        }
    }
}

/// Whether two byte vectors hold the same bytes.
fn bytes_eq(a: &Vec<u8>, b: &Vec<u8>) -> (r: bool)
    ensures
        r == (a@ == b@),
{
    if a.len() != b.len() {
        proof {
            assert(a@.len() != b@.len());
        }
        return false;
    }
    let mut k: usize = 0;
    while k < a.len()
        invariant
            k <= a@.len(),
            a@.len() == b@.len(),
            forall|m: int| 0 <= m < k ==> a@[m] == b@[m],
        decreases a@.len() - k,
    {
        if a[k] != b[k] {
            return false;
        }
        k = k + 1;
    }
    proof {
        assert(a@ =~= b@);
    }
    true
}

/// Abstracts a flat chain; see [`ab_infix`].
#[verifier::rlimit(60)]
fn ex_ab_infix(op: InfixOperator, cs: Vec<Cst>, span: Span) -> (r: Ast)
    ensures
        ast_g(r) == ab_infix(op, cst_gs(cs@), span),
    decreases gs_size(cst_gs(cs@)), 3int,
{
    let ghost gcs = cst_gs(cs@);
    proof {
        crate::cst::lemma_cst_gs_len(cs@);
    }
    if cs.len() == 0 {
        proof {
            assert(ast_gs(Seq::<Ast>::empty()) =~= Seq::<GAst>::empty());
        }
        return ex_gcall(ex_infix_name(op), Vec::new(), span);
    }
    match op {
        InfixOperator::Plus => {
            let mut rest = cs;
            let a0 = rest.remove(0);
            let ghost g0 = cst_g(a0);
            proof {
                lemma_split_first(cs@, rest@, g0);
                assert(gcs.skip(1) =~= cst_gs(rest@));
            }
            let aa = ex_abstract(a0);
            let ghost gaa = ast_g(aa);
            let more = ex_ab_plus_rest(rest);
            let mut args: Vec<Ast> = Vec::new();
            push_ast(&mut args, aa);
            append_asts(&mut args, more);
            proof {
                assert(ast_gs(args@) =~= seq![gaa] + ab_plus_rest(gcs.skip(1)));
            }
            ex_gcall(ex_name_plus(), args, span)
        },
        InfixOperator::InfixInequality => {
            proof {
                crate::cst::lemma_cst_gs_index(cs@, 0);
            }
            let firstname = if cs.len() > 1 {
                match &cs[1] {
                    Cst::Token(tk) => ex_ineq_name(tk.tok),
                    _ => ex_ineq_name(TokenKind::EqualEqual),
                }
            } else {
                ex_ineq_name(TokenKind::EqualEqual)
            };
            proof {
                if cs@.len() > 1 {
                    crate::cst::lemma_cst_gs_index(cs@, 1);
                }
            }
            let uni = ex_ineq_uniform(&cs, 1, &firstname);
            if uni {
                let args = ex_ab_operands(cs);
                ex_gcall(firstname, args, span)
            } else {
                let mut rest = cs;
                let a0 = rest.remove(0);
                let ghost g0 = cst_g(a0);
                proof {
                    lemma_split_first(cs@, rest@, g0);
                    assert(gcs.skip(1) =~= cst_gs(rest@));
                }
                let aa = ex_abstract(a0);
                let ghost gaa = ast_g(aa);
                let more = ex_ab_ineq_rest(rest);
                let mut args: Vec<Ast> = Vec::new();
                push_ast(&mut args, aa);
                append_asts(&mut args, more);
                proof {
                    assert(ast_gs(args@) =~= seq![gaa] + ab_ineq_rest(gcs.skip(1)));
                }
                ex_gcall(ex_name_inequality(), args, span)
            }
        },
        InfixOperator::Comma => {
            let args = ex_ab_list(cs);
            ex_gcall(ex_infix_name(InfixOperator::Comma), args, span)
        },
        InfixOperator::MessageName => {
            let mut rest = cs;
            let a0 = rest.remove(0);
            let ghost g0 = cst_g(a0);
            proof {
                lemma_split_first(cs@, rest@, g0);
                assert(gcs.skip(1) =~= cst_gs(rest@));
            }
            let aa = ex_abstract(a0);
            let ghost gaa = ast_g(aa);
            let more = ex_ab_tags(rest);
            let mut args: Vec<Ast> = Vec::new();
            push_ast(&mut args, aa);
            append_asts(&mut args, more);
            proof {
                assert(ast_gs(args@) =~= seq![gaa] + ab_tags(gcs.skip(1)));
            }
            ex_gcall(ex_name_messagename(), args, span)
        },
        _ => {
            let ghost gop = op;
            let args = ex_ab_operands(cs);
            ex_gcall(ex_infix_name(op), args, span)
        },
    }
}

/// Abstracts the arguments inside a bracket pair; see [`group_args`].
fn ex_group_args(cs: Vec<Cst>) -> (r: Vec<Ast>)
    ensures
        ast_gs(r@) == group_args(cst_gs(cs@)),
    decreases gs_size(cst_gs(cs@)), 3int,
{
    let ghost gcs = cst_gs(cs@);
    proof {
        crate::cst::lemma_cst_gs_len(cs@);
    }
    let mut inner = cs;
    if inner.len() >= 2 {
        let _open = inner.remove(0);
        let _close = inner.remove(inner.len() - 1);
        proof {
            assert(cst_gs(inner@) =~= gcs.subrange(1, gcs.len() - 1)) by {
                assert(inner@ =~= cs@.subrange(1, cs@.len() - 1));
                lemma_cst_gs_subrange(cs@, 1, cs@.len() - 1);
            }
        }
    } else {
        proof {
            assert(cst_gs(inner@) == gcs);
        }
    }
    let ghost ginner = cst_gs(inner@);
    proof {
        crate::cst::lemma_cst_gs_len(inner@);
        if inner@.len() == 1 {
            crate::cst::lemma_cst_gs_index(inner@, 0);
            crate::cst::lemma_gs_size_index(ginner, 0);
        }
        lemma_gs_size_subrange_le(gcs, ginner);
    }
    let is_comma_chain = inner.len() == 1 && matches!(
        &inner[0],
        Cst::Infix { op: InfixOperator::Comma, .. },
    );
    if is_comma_chain {
        let chain = inner.remove(0);
        match chain {
            Cst::Infix { op: _, children: ics } => {
                proof {
                    assert(ginner[0] matches GCst::Node(
                        NodeTag::InfixT(InfixOperator::Comma),
                        x,
                    ) && x == cst_gs(ics@));
                }
                ex_ab_list(ics)
            },
            _ => {
                proof {
                    assert(false);
                }
                Vec::new()
            },
        }
    } else {
        ex_ab_list(inner)
    }
}

/// A mirrored sublist weighs no more than the whole.
proof fn lemma_gs_size_subrange_le(a: Seq<GCst>, b: Seq<GCst>)
    requires
        b == a || (a.len() >= 2 && b =~= a.subrange(1, a.len() - 1)),
    ensures
        gs_size(b) <= gs_size(a),
    decreases a,
{
    if b != a {
        assert(a.len() >= 1);
        let rest = a.drop_first();
        if a.len() == 2 {
            assert(b =~= Seq::<GCst>::empty());
        } else {
            assert(b =~= rest.subrange(0, rest.len() - 1));
            lemma_gs_size_drop_last(rest);
        }
    }
}

/// Dropping the last element never increases the weight.
proof fn lemma_gs_size_drop_last(a: Seq<GCst>)
    requires
        a.len() >= 1,
    ensures
        gs_size(a.subrange(0, a.len() - 1)) <= gs_size(a),
    decreases a,
{
    if a.len() == 1 {
        assert(a.subrange(0, 0) =~= Seq::<GCst>::empty());
    } else {
        lemma_gs_size_drop_last(a.drop_first());
        assert(a.subrange(0, a.len() - 1).drop_first() =~= a.drop_first().subrange(
            0,
            a.drop_first().len() - 1,
        ));
        assert(a.subrange(0, a.len() - 1)[0] == a[0]);
    }
}

/// The mirror of a subrange is the subrange of the mirror.
proof fn lemma_cst_gs_subrange(cs: Seq<Cst>, i: int, j: int)
    requires
        0 <= i <= j <= cs.len(),
    ensures
        cst_gs(cs.subrange(i, j)) =~= cst_gs(cs).subrange(i, j),
{
    crate::cst::lemma_cst_gs_len(cs);
    crate::cst::lemma_cst_gs_len(cs.subrange(i, j));
    assert forall|k: int| 0 <= k < j - i implies cst_gs(cs.subrange(i, j))[k] == cst_gs(
        cs,
    ).subrange(i, j)[k] by {
        crate::cst::lemma_cst_gs_index(cs.subrange(i, j), k);
        crate::cst::lemma_cst_gs_index(cs, i + k);
    }
}

/// Abstracts a call; see [`ab_call`].
fn ex_ab_call(cs: Vec<Cst>, span: Span) -> (r: Ast)
    ensures
        ast_g(r) == ab_call(cst_gs(cs@), span),
    decreases gs_size(cst_gs(cs@)), 3int,
{
    let ghost gcs = cst_gs(cs@);
    proof {
        crate::cst::lemma_cst_gs_len(cs@);
        if cs@.len() > 0 {
            crate::cst::lemma_cst_gs_index(cs@, cs@.len() - 1);
            crate::cst::lemma_gs_size_index(gcs, gcs.len() - 1);
            crate::cst::lemma_cst_gs_index(cs@, 0);
            crate::cst::lemma_gs_size_index(gcs, 0);
        }
    }
    if cs.len() == 0 {
        proof {
            assert(ast_gs(Seq::<Ast>::empty()) =~= Seq::<crate::ast::GAst>::empty());
        }
        return ex_gcall(ex_name_call(), Vec::new(), span);
    }
    let good = cs.len() >= 2 && matches!(&cs[cs.len() - 1], Cst::Group { .. });
    if good {
        let mut rest = cs;
        let head = rest.remove(0);
        let ghost ghead = cst_g(head);
        let last = rest.remove(rest.len() - 1);
        let ghost glast = cst_g(last);
        proof {
            assert(head == cs@[0] && last == cs@[cs@.len() - 1]);
        }
        let ha = ex_abstract(head);
        let ghost gha = ast_g(ha);
        match last {
            Cst::Group { op: _, children: gch } => {
                proof {
                    assert(glast matches GCst::Node(NodeTag::GroupT(_), x) && x == cst_gs(
                        gch@,
                    ));
                }
                let args = ex_group_args(gch);
                Ast::Call { head: Box::new(ha), args, data: AstMetadata { span } }
            },
            _ => {
                proof {
                    assert(false);
                }
                ha
            },
        }
    } else {
        let mut rest = cs;
        let head = rest.remove(0);
        let ghost ghead = cst_g(head);
        proof {
            lemma_split_first(cs@, rest@, ghead);
        }
        let ha = ex_abstract(head);
        let ghost gha = ast_g(ha);
        let args = ex_ab_list(rest);
        Ast::Call { head: Box::new(ha), args, data: AstMetadata { span } }
    }
}

/// Abstracts a fused compound; see [`ab_compound`].
#[verifier::rlimit(60)]
fn ex_ab_compound(op: CompoundOperator, cs: Vec<Cst>, span: Span) -> (r: Ast)
    ensures
        ast_g(r) == ab_compound(op, cst_gs(cs@), span),
    decreases gs_size(cst_gs(cs@)), 3int,
{
    let ghost gcs = cst_gs(cs@);
    proof {
        crate::cst::lemma_cst_gs_len(cs@);
        if cs@.len() > 0 {
            crate::cst::lemma_cst_gs_index(cs@, 0);
            crate::cst::lemma_gs_size_index(gcs, 0);
        }
        if cs@.len() > 1 {
            crate::cst::lemma_cst_gs_index(cs@, 1);
            crate::cst::lemma_gs_size_index(gcs, 1);
        }
        if cs@.len() > 2 {
            crate::cst::lemma_cst_gs_index(cs@, 2);
            crate::cst::lemma_gs_size_index(gcs, 2);
        }
    }
    match op {
        CompoundOperator::Blank => ex_ab_blank(ex_name_blank(), Ghost(SEQ_BLANK_fn()), cs, 1, span),
        CompoundOperator::BlankSequence => ex_ab_blank(
            ex_name_blankseq(),
            Ghost(SEQ_BLANKSEQ_fn()),
            cs,
            1,
            span,
        ),
        CompoundOperator::BlankNullSequence => ex_ab_blank(
            ex_name_blanknullseq(),
            Ghost(SEQ_BLANKNULLSEQ_fn()),
            cs,
            1,
            span,
        ),
        CompoundOperator::PatternBlank => ex_ab_pattern_blank(
            ex_name_blank(),
            Ghost(SEQ_BLANK_fn()),
            cs,
            span,
        ),
        CompoundOperator::PatternBlankSequence => ex_ab_pattern_blank(
            ex_name_blankseq(),
            Ghost(SEQ_BLANKSEQ_fn()),
            cs,
            span,
        ),
        CompoundOperator::PatternBlankNullSequence => ex_ab_pattern_blank(
            ex_name_blanknullseq(),
            Ghost(SEQ_BLANKNULLSEQ_fn()),
            cs,
            span,
        ),
        CompoundOperator::PatternOptionalDefault => {
            if cs.len() >= 1 {
                let mut rest = cs;
                let x = rest.remove(0);
                let ghost gx = cst_g(x);
                proof {
                    lemma_split_first(cs@, rest@, gx);
                }
                let ax = ex_abstract(x);
                let ghost gax = ast_g(ax);
                proof {
                    assert(ast_gs(Seq::<Ast>::empty()) =~= Seq::<GAst>::empty());
                }
                let bl = ex_gcall(ex_name_blank(), Vec::new(), span);
                let ghost gbl = ast_g(bl);
                let mut pargs: Vec<Ast> = Vec::new();
                push_ast(&mut pargs, ax);
                push_ast(&mut pargs, bl);
                proof {
                    lemma_gs2(pargs@, gax, gbl);
                }
                let pat = ex_gcall(ex_name_pattern(), pargs, span);
                let ghost gpat = ast_g(pat);
                let mut oargs: Vec<Ast> = Vec::new();
                push_ast(&mut oargs, pat);
                proof {
                    lemma_gs1(oargs@, gpat);
                }
                ex_gcall(ex_name_optional(), oargs, span)
            } else {
                proof {
                    assert(ast_gs(Seq::<Ast>::empty()) =~= Seq::<GAst>::empty());
                }
                ex_gcall(ex_name_optional(), Vec::new(), span)
            }
        },
        CompoundOperator::Slot => ex_ab_slotlike(ex_name_slot(), Ghost(SEQ_SLOT_fn()), cs, span),
        CompoundOperator::SlotSequence => ex_ab_slotlike(
            ex_name_slotseq(),
            Ghost(SEQ_SLOTSEQ_fn()),
            cs,
            span,
        ),
        CompoundOperator::Out => {
            if cs.len() >= 2 {
                let mut rest = cs;
                let _pc = rest.remove(0);
                let x = rest.remove(0);
                let ghost gx = cst_g(x);
                proof {
                    assert(x == cs@[1]);
                }
                let ax = ex_abstract(x);
                let ghost gax = ast_g(ax);
                let mut args: Vec<Ast> = Vec::new();
                push_ast(&mut args, ax);
                proof {
                    lemma_gs1(args@, gax);
                }
                ex_gcall(ex_name_out(), args, span)
            } else {
                proof {
                    assert(ast_gs(Seq::<Ast>::empty()) =~= Seq::<GAst>::empty());
                }
                ex_gcall(ex_name_out(), Vec::new(), span)
            }
        },
    }
}

/// Abstracts a bare blank; see [`ab_blank`].
fn ex_ab_blank(
    name: Vec<u8>,
    Ghost(gname): Ghost<Seq<u8>>,
    cs: Vec<Cst>,
    head_at: usize,
    span: Span,
) -> (r: Ast)
    requires
        name@ == gname,
    ensures
        ast_g(r) == ab_blank(gname, cst_gs(cs@), head_at as int, span),
    decreases gs_size(cst_gs(cs@)), 2int,
{
    let ghost gcs = cst_gs(cs@);
    proof {
        crate::cst::lemma_cst_gs_len(cs@);
    }
    if head_at < cs.len() {
        let mut rest = cs;
        let mut k: usize = 0;
        proof {
            crate::cst::lemma_cst_gs_index(rest@, head_at as int);
            crate::cst::lemma_gs_size_index(gcs, head_at as int);
        }
        let x = rest.remove(head_at);
        let ghost gx = cst_g(x);
        proof {
            assert(x == cs@[head_at as int]);
        }
        let ax = ex_abstract(x);
        let ghost gax = ast_g(ax);
        let mut args: Vec<Ast> = Vec::new();
        push_ast(&mut args, ax);
        proof {
            lemma_gs1(args@, gax);
        }
        ex_gcall(name, args, span)
    } else {
        proof {
            assert(ast_gs(Seq::<Ast>::empty()) =~= Seq::<GAst>::empty());
        }
        ex_gcall(name, Vec::new(), span)
    }
}

/// Abstracts a named pattern over a blank; see [`ab_pattern_blank`].
fn ex_ab_pattern_blank(
    name: Vec<u8>,
    Ghost(gname): Ghost<Seq<u8>>,
    cs: Vec<Cst>,
    span: Span,
) -> (r: Ast)
    requires
        name@ == gname,
    ensures
        ast_g(r) == ab_pattern_blank(gname, cst_gs(cs@), span),
    decreases gs_size(cst_gs(cs@)), 2int,
{
    let ghost gcs = cst_gs(cs@);
    proof {
        crate::cst::lemma_cst_gs_len(cs@);
    }
    if cs.len() >= 1 {
        let head_present = cs.len() > 2;
        let mut rest = cs;
        let x = rest.remove(0);
        let ghost gx = cst_g(x);
        proof {
            lemma_split_first(cs@, rest@, gx);
        }
        let ax = ex_abstract(x);
        let ghost gax = ast_g(ax);
        let bl = if head_present {
            proof {
                crate::cst::lemma_cst_gs_index(cs@, 2);
                crate::cst::lemma_gs_size_index(gcs, 2);
            }
            let _u = rest.remove(0);
            let h = rest.remove(0);
            let ghost gh = cst_g(h);
            proof {
                assert(h == cs@[2]);
            }
            let ah = ex_abstract(h);
            let ghost gah = ast_g(ah);
            let mut bargs: Vec<Ast> = Vec::new();
            push_ast(&mut bargs, ah);
            proof {
                lemma_gs1(bargs@, gah);
            }
            ex_gcall(name, bargs, span)
        } else {
            proof {
                assert(ast_gs(Seq::<Ast>::empty()) =~= Seq::<GAst>::empty());
            }
            ex_gcall(name, Vec::new(), span)
        };
        let ghost gbl = ast_g(bl);
        proof {
            assert(gbl == ab_blank(gname, gcs, 2, span));
        }
        let mut pargs: Vec<Ast> = Vec::new();
        push_ast(&mut pargs, ax);
        push_ast(&mut pargs, bl);
        proof {
            lemma_gs2(pargs@, gax, gbl);
        }
        ex_gcall(ex_name_pattern(), pargs, span)
    } else {
        proof {
            assert(ast_gs(Seq::<Ast>::empty()) =~= Seq::<GAst>::empty());
        }
        ex_gcall(ex_name_pattern(), Vec::new(), span)
    }
}

/// Abstracts a slot or slot sequence; see [`ab_slotlike`].
fn ex_ab_slotlike(name: Vec<u8>, Ghost(gname): Ghost<Seq<u8>>, cs: Vec<Cst>, span: Span) -> (r:
    Ast)
    requires
        name@ == gname,
    ensures
        ast_g(r) == ab_slotlike(gname, cst_gs(cs@), span),
    decreases gs_size(cst_gs(cs@)), 2int,
{
    let ghost gcs = cst_gs(cs@);
    proof {
        crate::cst::lemma_cst_gs_len(cs@);
        if cs@.len() >= 2 {
            crate::cst::lemma_cst_gs_index(cs@, 1);
            crate::cst::lemma_gs_size_index(gcs, 1);
        }
    }
    if cs.len() >= 2 {
        let mut rest = cs;
        let _mark = rest.remove(0);
        let x = rest.remove(0);
        let ghost gx = cst_g(x);
        proof {
            assert(x == cs@[1]);
        }
        match x {
            Cst::Token(tk) => {
                if matches!(tk.tok, TokenKind::Integer) {
                    let ax = ex_ab_leaf(tk);
                    let ghost gax = ast_g(ax);
                    proof {
                        assert(gax == ab(gx));
                    }
                    let mut args: Vec<Ast> = Vec::new();
                    push_ast(&mut args, ax);
                    proof {
                        lemma_gs1(args@, gax);
                    }
                    ex_gcall(name, args, span)
                } else {
                    let tspan = tk.src;
                    let qt = ex_quoted(tk.text);
                    let leaf = Ast::Leaf {
                        kind: TokenKind::String,
                        text: qt,
                        data: AstMetadata { span: tspan },
                    };
                    let ghost gl = ast_g(leaf);
                    let mut args: Vec<Ast> = Vec::new();
                    push_ast(&mut args, leaf);
                    proof {
                        lemma_gs1(args@, gl);
                    }
                    ex_gcall(name, args, span)
                }
            },
            other => {
                let ax = ex_abstract(other);
                let ghost gax = ast_g(ax);
                let mut args: Vec<Ast> = Vec::new();
                push_ast(&mut args, ax);
                proof {
                    lemma_gs1(args@, gax);
                }
                ex_gcall(name, args, span)
            },
        }
    } else {
        let tx: Vec<u8> = vec![49u8];
        proof {
            assert(tx@ =~= seq![49u8]);
        }
        let one = Ast::Leaf { kind: TokenKind::Integer, text: tx, data: AstMetadata { span } };
        let ghost g1 = ast_g(one);
        let mut args: Vec<Ast> = Vec::new();
        push_ast(&mut args, one);
        proof {
            lemma_gs1(args@, g1);
        }
        ex_gcall(name, args, span)
    }
}

/// The bytes of the name `CodeParser\u{60}Call`.
fn ex_name_call() -> (r: Vec<u8>)
    ensures
        r@ == SEQ_CALL_fn(),
{
    vec![67u8, 111u8, 100u8, 101u8, 80u8, 97u8, 114u8, 115u8, 101u8, 114u8, 96u8, 67u8, 97u8, 108u8, 108u8]
}

/// Whether a concrete tree is free of every fatal shape: no error-kind
/// leaf (except the advisory fake argument), no group missing its closer,
/// no syntax-error node.
pub open spec fn fatal_free(c: GCst) -> bool
    decreases c, 1int,
{
    match c {
        GCst::Leaf(t) => !crate::token::is_error_kind(t.kind) || t.kind
            is Error_InfixImplicitNull,
        GCst::Node(tag, cs) => {
            &&& !(tag matches NodeTag::GroupMissingCloserT(_))
            &&& !(tag matches NodeTag::SyntaxErrorT(_))
            &&& fatal_free_list(cs)
        },
    }
}

/// Whether every tree of a child list is free of fatal shapes.
pub open spec fn fatal_free_list(cs: Seq<GCst>) -> bool
    decreases cs, 0int,
{
    if cs.len() == 0 {
        true
    } else {
        fatal_free(cs[0]) && fatal_free_list(cs.drop_first())
    }
}

/// A tree whose issue list holds nothing fatal is free of fatal shapes.
pub proof fn lemma_no_fatal_issue_ff(c: GCst)
    requires
        forall|k: int|
            0 <= k < crate::cst::gcst_issues(c).len() ==> !((#[trigger] crate::cst::gcst_issues(
                c,
            )[k]).sev is Fatal),
    ensures
        fatal_free(c),
    decreases c, 1int,
{
    match c {
        GCst::Leaf(t) => {
            if crate::token::is_error_kind(t.kind) && !(t.kind is Error_InfixImplicitNull) {
                assert(crate::cst::gcst_issues(c)[0].sev is Fatal);
            }
        },
        GCst::Node(tag, cs) => {
            let own = crate::cst::node_issues(tag, crate::cst::gcst_span(c));
            assert(crate::cst::gcst_issues(c) == own + crate::cst::issues_of(cs));
            if tag matches NodeTag::GroupMissingCloserT(_) {
                assert(crate::cst::gcst_issues(c)[0].sev is Fatal);
            } else if tag matches NodeTag::SyntaxErrorT(_) {
                assert(crate::cst::gcst_issues(c)[0].sev is Fatal);
            } else {
                assert(own =~= Seq::<crate::issue::Issue>::empty());
                assert forall|k: int| 0 <= k < crate::cst::issues_of(cs).len() implies !((
                #[trigger] crate::cst::issues_of(cs)[k]).sev is Fatal) by {
                    assert(crate::cst::issues_of(cs)[k] == crate::cst::gcst_issues(c)[k]);
                }
                lemma_no_fatal_issue_ff_list(cs);
            }
        },
    }
}

/// A child list whose issue list holds nothing fatal is free of fatal
/// shapes.
pub proof fn lemma_no_fatal_issue_ff_list(cs: Seq<GCst>)
    requires
        forall|k: int|
            0 <= k < crate::cst::issues_of(cs).len() ==> !((#[trigger] crate::cst::issues_of(
                cs,
            )[k]).sev is Fatal),
    ensures
        fatal_free_list(cs),
    decreases cs, 0int,
{
    if cs.len() > 0 {
        let first = crate::cst::gcst_issues(cs[0]);
        let rest = crate::cst::issues_of(cs.drop_first());
        assert(crate::cst::issues_of(cs) == first + rest);
        assert forall|k: int| 0 <= k < first.len() implies !((#[trigger] first[k]).sev
            is Fatal) by {
            assert(first[k] == crate::cst::issues_of(cs)[k]);
        }
        lemma_no_fatal_issue_ff(cs[0]);
        assert forall|k: int| 0 <= k < rest.len() implies !((#[trigger] rest[k]).sev
            is Fatal) by {
            assert(rest[k] == crate::cst::issues_of(cs)[first.len() + k]);
        }
        lemma_no_fatal_issue_ff_list(cs.drop_first());
    }
}

/// Aggregation preserves freedom from fatal shapes.
pub proof fn lemma_agg_ff(c: GCst)
    requires
        fatal_free(c),
    ensures
        fatal_free(crate::agg::agg(c)),
    decreases c, 1int,
{
    match c {
        GCst::Leaf(_) => {},
        GCst::Node(tag, cs) => {
            lemma_agg_ff_list(tag, cs);
            let stripped = crate::agg::agg_children(tag, cs);
            if tag == NodeTag::GroupT(GroupOperator::Paren) && stripped.len() == 3
                && stripped[0] is Leaf && stripped[2] is Leaf && !crate::agg::is_comma_leaf(
                stripped[1],
            ) {
                lemma_ff_list_index(stripped, 1);
            }
        },
    }
}

/// Aggregating a fatal-free child list yields a fatal-free list.
proof fn lemma_agg_ff_list(tag: NodeTag, cs: Seq<GCst>)
    requires
        fatal_free_list(cs),
    ensures
        fatal_free_list(crate::agg::agg_children(tag, cs)),
    decreases cs, 2int,
{
    if cs.len() > 0 {
        if crate::agg::agg_drops(tag, cs[0]) {
            lemma_agg_ff_list(tag, cs.drop_first());
        } else {
            lemma_agg_ff(cs[0]);
            lemma_agg_ff_list(tag, cs.drop_first());
            assert((seq![crate::agg::agg(cs[0])] + crate::agg::agg_children(
                tag,
                cs.drop_first(),
            )).drop_first() =~= crate::agg::agg_children(tag, cs.drop_first()));
        }
    }
}

/// Every tree of a fatal-free list is fatal-free.
proof fn lemma_ff_list_index(cs: Seq<GCst>, k: int)
    requires
        fatal_free_list(cs),
        0 <= k < cs.len(),
    ensures
        fatal_free(cs[k]),
    decreases cs,
{
    if k > 0 {
        lemma_ff_list_index(cs.drop_first(), k - 1);
    }
}

/// A fatal-free sublist of a fatal-free list.
proof fn lemma_ff_list_subrange(cs: Seq<GCst>, i: int, j: int)
    requires
        fatal_free_list(cs),
        0 <= i <= j <= cs.len(),
    ensures
        fatal_free_list(cs.subrange(i, j)),
    decreases j - i,
{
    if i < j {
        lemma_ff_list_index(cs, i);
        lemma_ff_list_subrange(cs, i + 1, j);
        assert(cs.subrange(i, j).drop_first() =~= cs.subrange(i + 1, j));
    }
}

/// A syntax-error node in a concatenation comes from one of the parts.
pub proof fn lemma_err_concat(a: Seq<GAst>, b: Seq<GAst>)
    ensures
        crate::ast::gasts_have_error(a + b) == (crate::ast::gasts_have_error(a)
            || crate::ast::gasts_have_error(b)),
    decreases a.len(),
{
    if a.len() == 0 {
        assert(a + b =~= b);
    } else {
        assert((a + b).drop_first() =~= a.drop_first() + b);
        assert((a + b)[0] == a[0]);
        lemma_err_concat(a.drop_first(), b);
    }
}

/// An empty list holds no syntax-error node.
proof fn lemma_err_empty()
    ensures
        !crate::ast::gasts_have_error(Seq::<GAst>::empty()),
{
}

/// A one-element list holds an error exactly when its element does.
pub proof fn lemma_err_one(x: GAst)
    ensures
        crate::ast::gasts_have_error(seq![x]) == crate::ast::gast_has_error(x),
{
    assert(seq![x].drop_first() =~= Seq::<GAst>::empty());
    assert(!crate::ast::gasts_have_error(Seq::<GAst>::empty()));
    assert(seq![x][0] == x);
}

/// A call of a named head holds an error exactly when an argument does.
proof fn lemma_err_gcall(name: Seq<u8>, args: Seq<GAst>, span: Span)
    ensures
        crate::ast::gast_has_error(gcall(name, args, span)) == crate::ast::gasts_have_error(
            args,
        ),
{
    assert(!crate::ast::gast_has_error(gsym(name, span)));
}

/// Negation introduces no syntax-error node.
proof fn lemma_err_negate(x: GAst, span: Span)
    requires
        !crate::ast::gast_has_error(x),
    ensures
        !crate::ast::gast_has_error(gnegate(x, span)),
{
    match x {
        GAst::Leaf { kind, text, span: ls } => {
            if !(kind is Integer || kind is Real) {
                lemma_err_one(x);
                lemma_err_concat(seq![gminus_one(span)], seq![x]);
                assert(seq![gminus_one(span), x] =~= seq![gminus_one(span)] + seq![x]);
                lemma_err_one(gminus_one(span));
                lemma_err_gcall(MINUS_ONE_TIMES(), seq![gminus_one(span), x], span);
            }
        },
        _ => {
            lemma_err_one(x);
            lemma_err_concat(seq![gminus_one(span)], seq![x]);
            assert(seq![gminus_one(span), x] =~= seq![gminus_one(span)] + seq![x]);
            lemma_err_one(gminus_one(span));
            lemma_err_gcall(MINUS_ONE_TIMES(), seq![gminus_one(span), x], span);
        },
    }
}

/// Abstracting a fatal-free tree yields a tree without syntax-error
/// nodes.
pub proof fn lemma_ab_no_error(c: GCst)
    requires
        fatal_free(c),
    ensures
        !crate::ast::gast_has_error(ab(c)),
    decreases c, 3int,
{
    let span = crate::cst::gcst_span(c);
    match c {
        GCst::Leaf(t) => {
            if t.kind is UnderDot {
                lemma_err_empty();
                lemma_err_gcall(SEQ_BLANK_fn(), Seq::empty(), t.span);
                lemma_err_one(gcall(SEQ_BLANK_fn(), Seq::empty(), t.span));
                lemma_err_gcall(
                    SEQ_OPTIONAL_fn(),
                    seq![gcall(SEQ_BLANK_fn(), Seq::empty(), t.span)],
                    t.span,
                );
            }
        },
        GCst::Node(tag, cs) => match tag {
            NodeTag::PrefixT(op) => {
                lemma_ab_prefix_ne(op, cs, span);
            },
            NodeTag::InfixT(op) => {
                lemma_ab_infix_ne(op, cs, span);
            },
            NodeTag::BinaryT(op) => {
                lemma_ab_binary_ne(op, cs, span);
            },
            NodeTag::PostfixT(op) => {
                if cs.len() >= 1 {
                    lemma_ff_list_index(cs, 0);
                    lemma_ab_no_error(cs[0]);
                    lemma_err_one(ab(cs[0]));
                    lemma_err_gcall(postfix_name(op), seq![ab(cs[0])], span);
                } else {
                    lemma_err_empty();
                    lemma_err_gcall(postfix_name(op), Seq::empty(), span);
                }
            },
            NodeTag::TernaryT(op) => {
                lemma_ab_ternary_ne(op, cs, span);
            },
            NodeTag::GroupT(op) => {
                lemma_group_args_ne(cs);
                lemma_err_gcall(group_name(op), group_args(cs), span);
            },
            NodeTag::GroupMissingCloserT(_) => {
                assert(false);
            },
            NodeTag::CallT => {
                lemma_ab_call_ne(cs, span);
            },
            NodeTag::CompoundT(op) => {
                lemma_ab_compound_ne(op, cs, span);
            },
            NodeTag::SyntaxErrorT(_) => {
                assert(false);
            },
        },
    }
}

/// Abstracting a fatal-free child list yields no syntax-error node.
proof fn lemma_ab_list_ne(cs: Seq<GCst>)
    requires
        fatal_free_list(cs),
    ensures
        !crate::ast::gasts_have_error(ab_list(cs)),
    decreases cs, 0int,
{
    if cs.len() > 0 {
        lemma_ab_no_error(cs[0]);
        lemma_ab_list_ne(cs.drop_first());
        lemma_err_concat(seq![ab(cs[0])], ab_list(cs.drop_first()));
        lemma_err_one(ab(cs[0]));
    }
}

/// Abstracting every other child of a fatal-free list yields no
/// syntax-error node.
proof fn lemma_ab_operands_ne(cs: Seq<GCst>)
    requires
        fatal_free_list(cs),
    ensures
        !crate::ast::gasts_have_error(ab_operands(cs)),
    decreases cs, 0int,
{
    if cs.len() == 0 {
    } else if cs.len() <= 2 {
        lemma_ab_no_error(cs[0]);
        lemma_err_one(ab(cs[0]));
    } else {
        lemma_ab_no_error(cs[0]);
        lemma_ff_list_subrange(cs, 2, cs.len() as int);
        assert(cs.skip(2) =~= cs.subrange(2, cs.len() as int));
        lemma_ab_operands_ne(cs.skip(2));
        lemma_err_concat(seq![ab(cs[0])], ab_operands(cs.skip(2)));
        lemma_err_one(ab(cs[0]));
    }
}

/// The plus-chain operands of a fatal-free list hold no syntax-error
/// node.
proof fn lemma_ab_plus_rest_ne(cs: Seq<GCst>)
    requires
        fatal_free_list(cs),
    ensures
        !crate::ast::gasts_have_error(ab_plus_rest(cs)),
    decreases cs, 0int,
{
    if cs.len() >= 2 {
        lemma_ff_list_index(cs, 1);
        lemma_ab_no_error(cs[1]);
        let x = ab(cs[1]);
        let neg = cs[0] matches GCst::Leaf(t) && t.kind is Minus;
        let y = if neg {
            gnegate(x, crate::cst::gcst_span(cs[1]))
        } else {
            x
        };
        if neg {
            lemma_err_negate(x, crate::cst::gcst_span(cs[1]));
        }
        lemma_ff_list_subrange(cs, 2, cs.len() as int);
        assert(cs.skip(2) =~= cs.subrange(2, cs.len() as int));
        lemma_ab_plus_rest_ne(cs.skip(2));
        lemma_err_concat(seq![y], ab_plus_rest(cs.skip(2)));
        lemma_err_one(y);
    }
}

/// The interleaved comparison arguments of a fatal-free list hold no
/// syntax-error node.
proof fn lemma_ab_ineq_rest_ne(cs: Seq<GCst>)
    requires
        fatal_free_list(cs),
    ensures
        !crate::ast::gasts_have_error(ab_ineq_rest(cs)),
    decreases cs, 0int,
{
    if cs.len() >= 2 {
        lemma_ff_list_index(cs, 1);
        lemma_ab_no_error(cs[1]);
        let opname = match cs[0] {
            GCst::Leaf(t) => ineq_name(t.kind),
            _ => ineq_name(TokenKind::EqualEqual),
        };
        let os = gsym(opname, crate::cst::gcst_span(cs[0]));
        lemma_ff_list_subrange(cs, 2, cs.len() as int);
        assert(cs.skip(2) =~= cs.subrange(2, cs.len() as int));
        lemma_ab_ineq_rest_ne(cs.skip(2));
        lemma_err_concat(seq![os, ab(cs[1])], ab_ineq_rest(cs.skip(2)));
        assert(seq![os, ab(cs[1])] =~= seq![os] + seq![ab(cs[1])]);
        lemma_err_concat(seq![os], seq![ab(cs[1])]);
        lemma_err_one(os);
        lemma_err_one(ab(cs[1]));
    }
}

/// The tag arguments of a fatal-free list hold no syntax-error node.
proof fn lemma_ab_tags_ne(cs: Seq<GCst>)
    requires
        fatal_free_list(cs),
    ensures
        !crate::ast::gasts_have_error(ab_tags(cs)),
    decreases cs, 0int,
{
    if cs.len() >= 2 {
        lemma_ff_list_index(cs, 1);
        let q = match cs[1] {
            GCst::Leaf(t) => GAst::Leaf {
                kind: TokenKind::String,
                text: quoted(t.text),
                span: t.span,
            },
            _ => ab(cs[1]),
        };
        if !(cs[1] is Leaf) {
            lemma_ab_no_error(cs[1]);
        }
        lemma_ff_list_subrange(cs, 2, cs.len() as int);
        assert(cs.skip(2) =~= cs.subrange(2, cs.len() as int));
        lemma_ab_tags_ne(cs.skip(2));
        lemma_err_concat(seq![q], ab_tags(cs.skip(2)));
        lemma_err_one(q);
    }
}

/// The bracket arguments of a fatal-free child list hold no syntax-error
/// node.
proof fn lemma_group_args_ne(cs: Seq<GCst>)
    requires
        fatal_free_list(cs),
    ensures
        !crate::ast::gasts_have_error(group_args(cs)),
    decreases cs, 2int,
{
    let inner = if cs.len() >= 2 {
        cs.subrange(1, cs.len() - 1)
    } else {
        cs
    };
    if cs.len() >= 2 {
        lemma_ff_list_subrange(cs, 1, cs.len() - 1);
    }
    if inner.len() == 1 && inner[0] matches GCst::Node(
        NodeTag::InfixT(InfixOperator::Comma),
        ics,
    ) {
        lemma_ff_list_index(inner, 0);
        lemma_ab_list_ne(inner[0]->1);
    } else {
        lemma_ab_list_ne(inner);
    }
}

/// Abstracting a fatal-free prefix construct yields no syntax-error
/// node.
proof fn lemma_ab_prefix_ne(op: PrefixOperator, cs: Seq<GCst>, span: Span)
    requires
        fatal_free_list(cs),
    ensures
        !crate::ast::gast_has_error(ab_prefix(op, cs, span)),
    decreases cs, 2int,
{
    if cs.len() < 2 {
        lemma_ab_list_ne(cs);
        lemma_err_gcall(prefix_name(op), ab_list(cs), span);
    } else {
        lemma_ff_list_index(cs, cs.len() - 1);
        lemma_ab_no_error(cs[cs.len() - 1]);
        let x = ab(cs[cs.len() - 1]);
        match op {
            PrefixOperator::Minus => {
                lemma_err_negate(x, span);
            },
            PrefixOperator::Plus => {},
            _ => {
                lemma_err_one(x);
                lemma_err_gcall(prefix_name(op), seq![x], span);
            },
        }
    }
}

/// Abstracting a fatal-free binary construct yields no syntax-error
/// node.
proof fn lemma_ab_binary_ne(op: BinaryOperator, cs: Seq<GCst>, span: Span)
    requires
        fatal_free_list(cs),
    ensures
        !crate::ast::gast_has_error(ab_binary(op, cs, span)),
    decreases cs, 2int,
{
    if cs.len() < 3 {
        if op is Unset && cs.len() >= 1 {
            lemma_ff_list_index(cs, 0);
            lemma_ab_no_error(cs[0]);
            lemma_err_one(ab(cs[0]));
            lemma_err_gcall(SEQ_UNSET_fn(), seq![ab(cs[0])], span);
        } else {
            lemma_ab_list_ne(cs);
            lemma_err_gcall(binary_name(op), ab_list(cs), span);
        }
    } else {
        lemma_ff_list_index(cs, 0);
        lemma_ff_list_index(cs, cs.len() - 1);
        lemma_ab_no_error(cs[0]);
        lemma_ab_no_error(cs[cs.len() - 1]);
        let a = ab(cs[0]);
        let b = ab(cs[cs.len() - 1]);
        match op {
            BinaryOperator::Divide => {
                lemma_err_one(gminus_one(span));
                assert(seq![b, gminus_one(span)] =~= seq![b] + seq![gminus_one(span)]);
                lemma_err_concat(seq![b], seq![gminus_one(span)]);
                lemma_err_one(b);
                lemma_err_gcall(SEQ_POWER_fn(), seq![b, gminus_one(span)], span);
                let pw = gcall(SEQ_POWER_fn(), seq![b, gminus_one(span)], span);
                assert(seq![a, pw] =~= seq![a] + seq![pw]);
                lemma_err_concat(seq![a], seq![pw]);
                lemma_err_one(a);
                lemma_err_one(pw);
                lemma_err_gcall(SEQ_TIMES_fn(), seq![a, pw], span);
            },
            BinaryOperator::BinaryAt => {
                lemma_err_one(b);
            },
            BinaryOperator::BinarySlashSlash => {
                lemma_err_one(a);
            },
            BinaryOperator::Unset => {
                lemma_err_one(a);
                lemma_err_gcall(SEQ_UNSET_fn(), seq![a], span);
            },
            _ => {
                assert(seq![a, b] =~= seq![a] + seq![b]);
                lemma_err_concat(seq![a], seq![b]);
                lemma_err_one(a);
                lemma_err_one(b);
                lemma_err_gcall(binary_name(op), seq![a, b], span);
            },
        }
    }
}

/// Abstracting a fatal-free ternary construct yields no syntax-error
/// node.
proof fn lemma_ab_ternary_ne(op: TernaryOperator, cs: Seq<GCst>, span: Span)
    requires
        fatal_free_list(cs),
    ensures
        !crate::ast::gast_has_error(ab_ternary(op, cs, span)),
    decreases cs, 2int,
{
    match op {
        TernaryOperator::TernaryTilde => {
            if cs.len() == 5 {
                lemma_ff_list_index(cs, 0);
                lemma_ff_list_index(cs, 2);
                lemma_ff_list_index(cs, 4);
                lemma_ab_no_error(cs[0]);
                lemma_ab_no_error(cs[2]);
                lemma_ab_no_error(cs[4]);
                assert(seq![ab(cs[0]), ab(cs[4])] =~= seq![ab(cs[0])] + seq![ab(cs[4])]);
                lemma_err_concat(seq![ab(cs[0])], seq![ab(cs[4])]);
                lemma_err_one(ab(cs[0]));
                lemma_err_one(ab(cs[4]));
            } else {
                lemma_ab_operands_ne(cs);
                lemma_err_gcall(ternary_name(op), ab_operands(cs), span);
            }
        },
        TernaryOperator::TagUnset => {
            if cs.len() >= 4 {
                lemma_ff_list_index(cs, 0);
                lemma_ff_list_index(cs, 2);
                lemma_ab_no_error(cs[0]);
                lemma_ab_no_error(cs[2]);
                assert(seq![ab(cs[0]), ab(cs[2])] =~= seq![ab(cs[0])] + seq![ab(cs[2])]);
                lemma_err_concat(seq![ab(cs[0])], seq![ab(cs[2])]);
                lemma_err_one(ab(cs[0]));
                lemma_err_one(ab(cs[2]));
                lemma_err_gcall(SEQ_TAGUNSET_fn(), seq![ab(cs[0]), ab(cs[2])], span);
            } else {
                lemma_ab_operands_ne(cs);
                lemma_err_gcall(ternary_name(op), ab_operands(cs), span);
            }
        },
        _ => {
            lemma_ab_operands_ne(cs);
            lemma_err_gcall(ternary_name(op), ab_operands(cs), span);
        },
    }
}

/// Abstracting a fatal-free call yields no syntax-error node.
proof fn lemma_ab_call_ne(cs: Seq<GCst>, span: Span)
    requires
        fatal_free_list(cs),
    ensures
        !crate::ast::gast_has_error(ab_call(cs, span)),
    decreases cs, 2int,
{
    if cs.len() == 0 {
        lemma_err_empty();
        lemma_err_gcall(SEQ_CALL_fn(), Seq::empty(), span);
    } else if cs.len() >= 2 && (cs[cs.len() - 1] matches GCst::Node(NodeTag::GroupT(_), gcs)) {
        lemma_ff_list_index(cs, 0);
        lemma_ab_no_error(cs[0]);
        lemma_ff_list_index(cs, cs.len() - 1);
        lemma_group_args_ne(cs[cs.len() - 1]->1);
    } else {
        lemma_ff_list_index(cs, 0);
        lemma_ab_no_error(cs[0]);
        lemma_ff_list_drop_first(cs);
        lemma_ab_list_ne(cs.drop_first());
    }
}

/// The tail of a fatal-free list is fatal-free.
proof fn lemma_ff_list_drop_first(cs: Seq<GCst>)
    requires
        fatal_free_list(cs),
        cs.len() >= 1,
    ensures
        fatal_free_list(cs.drop_first()),
{
}

/// Abstracting a fatal-free compound yields no syntax-error node.
proof fn lemma_ab_compound_ne(op: CompoundOperator, cs: Seq<GCst>, span: Span)
    requires
        fatal_free_list(cs),
    ensures
        !crate::ast::gast_has_error(ab_compound(op, cs, span)),
    decreases cs, 2int,
{
    match op {
        CompoundOperator::Blank => lemma_ab_blank_ne(SEQ_BLANK_fn(), cs, 1, span),
        CompoundOperator::BlankSequence => lemma_ab_blank_ne(SEQ_BLANKSEQ_fn(), cs, 1, span),
        CompoundOperator::BlankNullSequence => lemma_ab_blank_ne(
            SEQ_BLANKNULLSEQ_fn(),
            cs,
            1,
            span,
        ),
        CompoundOperator::PatternBlank => lemma_ab_pattern_blank_ne(SEQ_BLANK_fn(), cs, span),
        CompoundOperator::PatternBlankSequence => lemma_ab_pattern_blank_ne(
            SEQ_BLANKSEQ_fn(),
            cs,
            span,
        ),
        CompoundOperator::PatternBlankNullSequence => lemma_ab_pattern_blank_ne(
            SEQ_BLANKNULLSEQ_fn(),
            cs,
            span,
        ),
        CompoundOperator::PatternOptionalDefault => {
            if cs.len() >= 1 {
                lemma_ff_list_index(cs, 0);
                lemma_ab_no_error(cs[0]);
                lemma_err_empty();
                lemma_err_gcall(SEQ_BLANK_fn(), Seq::empty(), span);
                let bl = gcall(SEQ_BLANK_fn(), Seq::empty(), span);
                assert(seq![ab(cs[0]), bl] =~= seq![ab(cs[0])] + seq![bl]);
                lemma_err_concat(seq![ab(cs[0])], seq![bl]);
                lemma_err_one(ab(cs[0]));
                lemma_err_one(bl);
                lemma_err_gcall(SEQ_PATTERN_fn(), seq![ab(cs[0]), bl], span);
                let pat = gcall(SEQ_PATTERN_fn(), seq![ab(cs[0]), bl], span);
                lemma_err_one(pat);
                lemma_err_gcall(SEQ_OPTIONAL_fn(), seq![pat], span);
            } else {
                lemma_err_empty();
                lemma_err_gcall(SEQ_OPTIONAL_fn(), Seq::empty(), span);
            }
        },
        CompoundOperator::Slot => lemma_ab_slotlike_ne(SEQ_SLOT_fn(), cs, span),
        CompoundOperator::SlotSequence => lemma_ab_slotlike_ne(SEQ_SLOTSEQ_fn(), cs, span),
        CompoundOperator::Out => {
            if cs.len() >= 2 {
                lemma_ff_list_index(cs, 1);
                lemma_ab_no_error(cs[1]);
                lemma_err_one(ab(cs[1]));
                lemma_err_gcall(SEQ_OUT_fn(), seq![ab(cs[1])], span);
            } else {
                lemma_err_empty();
                lemma_err_gcall(SEQ_OUT_fn(), Seq::empty(), span);
            }
        },
    }
}

/// Abstracting a fatal-free blank yields no syntax-error node.
proof fn lemma_ab_blank_ne(name: Seq<u8>, cs: Seq<GCst>, head_at: int, span: Span)
    requires
        fatal_free_list(cs),
    ensures
        !crate::ast::gast_has_error(ab_blank(name, cs, head_at, span)),
    decreases cs, 0int,
{
    if 0 <= head_at < cs.len() {
        lemma_ff_list_index(cs, head_at);
        lemma_ab_no_error(cs[head_at]);
        lemma_err_one(ab(cs[head_at]));
        lemma_err_gcall(name, seq![ab(cs[head_at])], span);
    } else {
        assert(!crate::ast::gasts_have_error(Seq::<GAst>::empty()));
        lemma_err_gcall(name, Seq::empty(), span);
    }
}

/// Abstracting a fatal-free named pattern yields no syntax-error node.
proof fn lemma_ab_pattern_blank_ne(name: Seq<u8>, cs: Seq<GCst>, span: Span)
    requires
        fatal_free_list(cs),
    ensures
        !crate::ast::gast_has_error(ab_pattern_blank(name, cs, span)),
    decreases cs, 1int,
{
    if cs.len() >= 1 {
        lemma_ff_list_index(cs, 0);
        lemma_ab_no_error(cs[0]);
        lemma_ab_blank_ne(name, cs, 2, span);
        let bl = ab_blank(name, cs, 2, span);
        assert(seq![ab(cs[0]), bl] =~= seq![ab(cs[0])] + seq![bl]);
        lemma_err_concat(seq![ab(cs[0])], seq![bl]);
        lemma_err_one(ab(cs[0]));
        lemma_err_one(bl);
        lemma_err_gcall(SEQ_PATTERN_fn(), seq![ab(cs[0]), bl], span);
    } else {
        assert(!crate::ast::gasts_have_error(Seq::<GAst>::empty()));
        lemma_err_gcall(SEQ_PATTERN_fn(), Seq::empty(), span);
    }
}

/// Abstracting a fatal-free slot yields no syntax-error node.
proof fn lemma_ab_slotlike_ne(name: Seq<u8>, cs: Seq<GCst>, span: Span)
    requires
        fatal_free_list(cs),
    ensures
        !crate::ast::gast_has_error(ab_slotlike(name, cs, span)),
    decreases cs, 1int,
{
    if cs.len() >= 2 {
        match cs[1] {
            GCst::Leaf(t) => {
                if t.kind is Integer {
                    lemma_ff_list_index(cs, 1);
                    lemma_ab_no_error(cs[1]);
                    lemma_err_one(ab(cs[1]));
                    lemma_err_gcall(name, seq![ab(cs[1])], span);
                } else {
                    let leaf = GAst::Leaf {
                        kind: TokenKind::String,
                        text: quoted(t.text),
                        span: t.span,
                    };
                    lemma_err_one(leaf);
                    lemma_err_gcall(name, seq![leaf], span);
                }
            },
            _ => {
                lemma_ff_list_index(cs, 1);
                lemma_ab_no_error(cs[1]);
                lemma_err_one(ab(cs[1]));
                lemma_err_gcall(name, seq![ab(cs[1])], span);
            },
        }
    } else {
        let one = GAst::Leaf { kind: TokenKind::Integer, text: seq![49u8], span };
        lemma_err_one(one);
        lemma_err_gcall(name, seq![one], span);
    }
}

/// Abstracting a fatal-free infix chain yields no syntax-error node.
proof fn lemma_ab_infix_ne(op: InfixOperator, cs: Seq<GCst>, span: Span)
    requires
        fatal_free_list(cs),
    ensures
        !crate::ast::gast_has_error(ab_infix(op, cs, span)),
    decreases cs, 2int,
{
    if cs.len() == 0 {
        lemma_err_empty();
        lemma_err_gcall(infix_name(op), Seq::empty(), span);
        return ;
    }
    match op {
        InfixOperator::Plus => {
            lemma_ff_list_index(cs, 0);
            lemma_ab_no_error(cs[0]);
            lemma_ff_list_drop_first(cs);
            assert(cs.skip(1) =~= cs.drop_first());
            lemma_ab_plus_rest_ne(cs.skip(1));
            lemma_err_concat(seq![ab(cs[0])], ab_plus_rest(cs.skip(1)));
            lemma_err_one(ab(cs[0]));
            lemma_err_gcall(SEQ_PLUS_fn(), seq![ab(cs[0])] + ab_plus_rest(cs.skip(1)), span);
        },
        InfixOperator::InfixInequality => {
            let first = if cs.len() > 1 {
                match cs[1] {
                    GCst::Leaf(t) => ineq_name(t.kind),
                    _ => ineq_name(TokenKind::EqualEqual),
                }
            } else {
                ineq_name(TokenKind::EqualEqual)
            };
            if ineq_uniform(cs.skip(1), first) {
                lemma_ab_operands_ne(cs);
                lemma_err_gcall(first, ab_operands(cs), span);
            } else {
                lemma_ff_list_index(cs, 0);
                lemma_ab_no_error(cs[0]);
                lemma_ff_list_drop_first(cs);
                assert(cs.skip(1) =~= cs.drop_first());
                lemma_ab_ineq_rest_ne(cs.skip(1));
                lemma_err_concat(seq![ab(cs[0])], ab_ineq_rest(cs.skip(1)));
                lemma_err_one(ab(cs[0]));
                lemma_err_gcall(
                    SEQ_INEQUALITY_fn(),
                    seq![ab(cs[0])] + ab_ineq_rest(cs.skip(1)),
                    span,
                );
            }
        },
        InfixOperator::Comma => {
            lemma_ab_list_ne(cs);
            lemma_err_gcall(infix_name(op), ab_list(cs), span);
        },
        InfixOperator::MessageName => {
            lemma_ff_list_index(cs, 0);
            lemma_ab_no_error(cs[0]);
            lemma_ff_list_drop_first(cs);
            assert(cs.skip(1) =~= cs.drop_first());
            lemma_ab_tags_ne(cs.skip(1));
            lemma_err_concat(seq![ab(cs[0])], ab_tags(cs.skip(1)));
            lemma_err_one(ab(cs[0]));
            lemma_err_gcall(SEQ_MESSAGENAME_fn(), seq![ab(cs[0])] + ab_tags(cs.skip(1)), span);
        },
        _ => {
            lemma_ab_operands_ne(cs);
            lemma_err_gcall(infix_name(op), ab_operands(cs), span);
        },
    }
}

} // verus!
