//! Declarations of outside types that appear in the library's data model.
//!
//! These types are opaque to the verifier: the library stores and moves
//! values of them but never inspects them.

use vstd::prelude::*;

verus! {

/// Declares `std::io::Error` so that [`crate::error_handling::ParseError`]
/// can carry one; the library never constructs or inspects it.
#[verifier::external_type_specification]
#[verifier::external_body]
pub struct ExIoError(std::io::Error);

/// Declares `wolfram_expr::Expr` so that metadata can carry an expression
/// produced by a host runtime; the library never constructs or inspects it.
#[verifier::external_type_specification]
#[verifier::external_body]
pub struct ExExpr(wolfram_expr::Expr);

/// Declares `wolfram_expr::Number` for the same purpose.
#[verifier::external_type_specification]
#[verifier::external_body]
pub struct ExNumber(wolfram_expr::Number);

} // verus!
