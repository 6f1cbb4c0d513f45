//! Switches for a handful of legacy parsing behaviors.
//!
//! This library implements the modern behavior for every switch; the
//! settings are stored and passed through so that callers written against
//! the full option surface keep working.

use vstd::prelude::*;

verus! {

/// Per-quirk boolean switches for legacy desugarings. The abstracter in
/// this library always applies the modern desugarings, whatever these
/// switches say; the record is kept so the option surface stays complete.
#[derive(Debug, Clone, Copy, PartialEq, Eq, Structural)]
pub struct QuirkSettings {
    /// Whether `a @ b` desugars treating the `@` as a textual infix rather
    /// than an ordinary application.
    pub infix_binary_at: bool,
    /// Whether `-x^y` groups the minus with the base, as very old versions
    /// of the language did.
    pub flatten_times: bool,
    /// Whether an inequality chain that mixes `<` and `>` is kept as a
    /// single chain rather than rejected.
    pub old_at_at_at: bool,
}

impl QuirkSettings {
    /// The settings that modern inputs expect: every legacy behavior off.
    pub fn default() -> (r: QuirkSettings)
        ensures
            r == (QuirkSettings { infix_binary_at: false, flatten_times: false, old_at_at_at: false }),
    {
        QuirkSettings { infix_binary_at: false, flatten_times: false, old_at_at_at: false }
    }
}

} // verus!
