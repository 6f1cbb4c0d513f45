//! A per-parse interner for operator strings and common names.
//!
//! The interner itself comes from the string-interner crate and is held
//! behind trusted declarations: the contracts state what its source shows
//! — strings are numbered in insertion order, an existing string keeps
//! its number, and resolution is by number. A process-wide shared variant
//! lives outside the library, which keeps no global state.

use vstd::prelude::*;
use vstd::string::StringSliceAdditionalSpecFns;

verus! {

/// Holds the string-interner crate's interner. The declaration is opaque
/// because the interner's own generics name types of its private
/// dependencies; the wrappers below carry its contract.
#[verifier::external_body]
pub struct InternerCore {
    inner: string_interner::DefaultStringInterner,
}

/// Declares the string-interner crate's default symbol type.
#[verifier::external_type_specification]
#[verifier::external_body]
pub struct ExSymbolU32(string_interner::symbol::SymbolU32);

/// An interned string's handle.
pub type InternedString = string_interner::DefaultSymbol;

/// The strings an interner holds, in insertion order, each exactly once.
pub uninterp spec fn interner_strings(t: &InternerCore) -> Seq<Seq<u8>>;

/// The insertion index a symbol stands for.
pub uninterp spec fn sym_index(s: string_interner::DefaultSymbol) -> int;

/// Relies on `StringInterner::new`: a fresh interner holds no strings.
#[verifier::external_body]
fn interner_new() -> (r: InternerCore)
    ensures
        interner_strings(&r) == Seq::<Seq<u8>>::empty(),
{
    InternerCore { inner: string_interner::StringInterner::new() }
}

/// Relies on `StringInterner::get_or_intern`: a string already present
/// keeps its symbol, the index where it first stands; a new string is
/// appended and numbered next. The symbol type runs out at `u32::MAX`
/// strings, so that many are excluded.
#[verifier::external_body]
fn interner_get_or_intern(t: &mut InternerCore, s: &str) -> (r:
    string_interner::DefaultSymbol)
    requires
        interner_strings(old(t)).len() < 0xFFFF_FFFF,
    ensures
        ({
            let before = interner_strings(old(t));
            let after = interner_strings(final(t));
            if before.contains(s.spec_bytes()) {
                &&& after == before
                &&& sym_index(r) == before.index_of(s.spec_bytes())
            } else {
                &&& after == before.push(s.spec_bytes())
                &&& sym_index(r) == before.len()
            }
        }),
{
    t.inner.get_or_intern(s)
}

/// Relies on `StringInterner::resolve`: resolution is by index, and
/// succeeds exactly when the index is in range.
#[verifier::external_body]
fn interner_resolve<'a>(t: &'a InternerCore, sym: string_interner::DefaultSymbol) -> (r:
    Option<&'a str>)
    ensures
        r is Some <==> 0 <= sym_index(sym) < interner_strings(t).len(),
        r matches Some(s) ==> s.spec_bytes() == interner_strings(t)[sym_index(sym)],
{
    t.inner.resolve(sym)
}

/// Relies on `StringInterner::len`: one entry per distinct string.
#[verifier::external_body]
fn interner_len(t: &InternerCore) -> (r: usize)
    ensures
        r as int == interner_strings(t).len(),
{
    t.inner.len()
}

/// A per-parse interner, pre-populated with the most common operator
/// spellings and function names.
pub struct LocalInterner {
    interner: InternerCore,
}

impl LocalInterner {
    /// The strings held, in insertion order.
    pub closed spec fn strings(&self) -> Seq<Seq<u8>> {
        interner_strings(&self.interner)
    }

    /// A new interner holding only the pre-populated strings.
    pub fn new() -> (r: LocalInterner)
        ensures
            r.strings().len() <= 41,
    {
        let mut interner = interner_new();
        Self::prepopulate(&mut interner);
        LocalInterner { interner }
    }

    /// Interns the common operator spellings and function names.
    fn prepopulate(interner: &mut InternerCore)
        requires
            interner_strings(old(interner)).len() == 0,
        ensures
            interner_strings(final(interner)).len() <= 41,
    {
        let names: Vec<&str> = vec![
            "+", "-", "*", "/", "=", "^", "(", ")", "[", "]", "{", "}", ":=", "->", "==",
            "!=", "<=", ">=", "&&", "||", "<>", "~~", ":>", "/@", "//", "@@@", "@@", "@",
            "Plus", "Times", "Power", "List", "Set", "Rule", "If", "While", "Module",
            "Block", "Function", "Apply", "Map",
        ];
        let ghost n0 = interner_strings(interner).len();
        let mut k: usize = 0;
        while k < names.len()
            invariant
                names@.len() == 41,
                k <= names@.len(),
                interner_strings(interner).len() <= k,
            decreases names@.len() - k,
        {
            let _sym = interner_get_or_intern(interner, names[k]);
            k = k + 1;
        }
    }

    /// Interns a string: an existing string keeps its symbol, a new one
    /// is appended and numbered next.
    pub fn intern(&mut self, s: &str) -> (r: InternedString)
        requires
            old(self).strings().len() < 0xFFFF_FFFF,
        ensures
            old(self).strings().contains(s.spec_bytes()) ==> ({
                &&& final(self).strings() == old(self).strings()
                &&& sym_index(r) == old(self).strings().index_of(s.spec_bytes())
            }),
            !old(self).strings().contains(s.spec_bytes()) ==> ({
                &&& final(self).strings() == old(self).strings().push(s.spec_bytes())
                &&& sym_index(r) == old(self).strings().len()
            }),
            final(self).strings().contains(s.spec_bytes()),
    {
        let ghost before = interner_strings(&self.interner);
        let r = interner_get_or_intern(&mut self.interner, s);
        proof {
            if !before.contains(s.spec_bytes()) {
                assert(interner_strings(&self.interner)[before.len() as int]
                    == s.spec_bytes());
            }
        }
        r
    }

    /// Resolves a symbol of this interner back to its string. A symbol
    /// from another interner with an out-of-range index is excluded.
    pub fn resolve(&self, symbol: InternedString) -> (r: &str)
        requires
            0 <= sym_index(symbol) < self.strings().len(),
        ensures
            r.spec_bytes() == self.strings()[sym_index(symbol)],
    {
        match interner_resolve(&self.interner, symbol) {
            Some(s) => s,
            None => {
                proof {
                    assert(false);
                }
                ""
            },
        }
    }

    /// How many distinct strings this interner holds.
    pub fn len(&self) -> (r: usize)
        ensures
            r as int == self.strings().len(),
    {
        interner_len(&self.interner)
    }

    /// Whether the interner has grown past its cleanup threshold.
    pub fn should_cleanup(&self) -> (r: bool)
        ensures
            r == (self.strings().len() > 10000),
    {
        self.len() > 10_000
    }

    /// Resets the interner to only the pre-populated strings.
    pub fn cleanup(&mut self)
        ensures
            final(self).strings().len() <= 41,
    {
        let mut interner = interner_new();
        Self::prepopulate(&mut interner);
        self.interner = interner;
    }
}

} // verus!
