//! The tokenizer: maximal-munch lexical analysis of the input bytes into
//! typed tokens with spans.
//!
//! The scanning rules are given as specification functions over the byte
//! sequence; the executable tokenizer returns exactly what they describe.
//! Every token covers the bytes from its start position to the position
//! where the next token begins, so concatenating the texts of all tokens
//! reproduces the input byte for byte.

use vstd::prelude::*;
use crate::source::{Location, Span};
use crate::token::{Token, TokenKind};

verus! {

/// An ASCII decimal digit.
pub open spec fn is_digit(b: u8) -> bool {
    48 <= b <= 57
}

/// An ASCII letter.
pub open spec fn is_alpha(b: u8) -> bool {
    (65 <= b <= 90) || (97 <= b <= 122)
}

/// A byte that can begin a symbol segment: a letter or `$`.
pub open spec fn is_letterish(b: u8) -> bool {
    is_alpha(b) || b == 36
}

/// A byte that can continue a symbol segment.
pub open spec fn is_symbol_continue(b: u8) -> bool {
    is_letterish(b) || is_digit(b)
}

/// The value of an ASCII character as a digit in some base, or 99 when it
/// is no digit at all.
pub open spec fn digit_value(b: u8) -> u32 {
    if is_digit(b) {
        (b - 48) as u32
    } else if 97 <= b <= 122 {
        (b - 97 + 10) as u32
    } else if 65 <= b <= 90 {
        (b - 65 + 10) as u32
    } else {
        99
    }
}

/// A UTF-8 continuation byte.
pub open spec fn is_cont(b: u8) -> bool {
    128 <= b <= 191
}

/// Decodes the Unicode scalar starting at `i`: its value and byte width.
/// Overlong encodings, surrogates, values past the Unicode range, and
/// truncated sequences all yield `None`.
pub open spec fn decode_scalar(input: Seq<u8>, i: int) -> Option<(u32, int)> {
    if i < 0 || i >= input.len() {
        None
    } else {
        let b0 = input[i];
        if b0 < 128 {
            Some(((b0 as u32), 1))
        } else if 194 <= b0 <= 223 {
            if i + 1 < input.len() && is_cont(input[i + 1]) {
                Some((((((b0 - 192) as u32) * 64 + ((input[i + 1] - 128) as u32)) as u32), 2))
            } else {
                None
            }
        } else if 224 <= b0 <= 239 {
            if i + 2 < input.len() && is_cont(input[i + 1]) && is_cont(input[i + 2]) {
                let v = (((b0 - 224) as u32) * 4096) + (((input[i + 1] - 128) as u32) * 64) + ((
                input[i + 2] - 128) as u32);
                if v < 2048 || (55296 <= v <= 57343) {
                    None
                } else {
                    Some((v as u32, 3))
                }
            } else {
                None
            }
        } else if 240 <= b0 <= 244 {
            if i + 3 < input.len() && is_cont(input[i + 1]) && is_cont(input[i + 2]) && is_cont(
                input[i + 3],
            ) {
                let v = (((b0 - 240) as u32) * 262144) + (((input[i + 1] - 128) as u32) * 4096) + ((
                (input[i + 2] - 128) as u32) * 64) + ((input[i + 3] - 128) as u32);
                if v < 65536 || v > 1114111 {
                    None
                } else {
                    Some((v as u32, 4))
                }
            } else {
                None
            }
        } else {
            None
        }
    }
}

/// The operator token kind of a non-ASCII codepoint, if it has one.
pub open spec fn codepoint_operator(cp: u32) -> Option<TokenKind> {
    if cp == 0x2192 {
        Some(TokenKind::LongName_Rule)
    } else if cp == 0x29F4 {
        Some(TokenKind::LongName_RuleDelayed)
    } else if cp == 0xD7 {
        Some(TokenKind::LongName_Times)
    } else if cp == 0xF7 {
        Some(TokenKind::LongName_Divide)
    } else if cp == 0x2227 {
        Some(TokenKind::LongName_And)
    } else if cp == 0x2228 {
        Some(TokenKind::LongName_Or)
    } else if cp == 0xAC {
        Some(TokenKind::LongName_Not)
    } else if cp == 0x2260 {
        Some(TokenKind::LongName_NotEqual)
    } else if cp == 0x2264 {
        Some(TokenKind::LongName_LessEqual)
    } else if cp == 0x2265 {
        Some(TokenKind::LongName_GreaterEqual)
    } else if cp == 0x2208 {
        Some(TokenKind::LongName_Element)
    } else if cp == 0x21A6 {
        Some(TokenKind::LongName_Function)
    } else {
        None
    }
}

/// Whether a non-ASCII codepoint is letterlike, so that it can appear in a
/// symbol: everything from U+00A1 up that is not one of the recognized
/// operator codepoints.
pub open spec fn codepoint_letterlike(cp: u32) -> bool {
    cp >= 0xA1 && cp != 0xFEFF && codepoint_operator(cp) is None
}

/// The result of scanning one token: its kind and the position just past
/// its last byte.
pub ghost struct Scan {
    pub kind: TokenKind,
    pub end: int,
}

/// The first position at or after `i` whose byte is not a decimal digit.
pub open spec fn skip_digits(input: Seq<u8>, i: int) -> int
    decreases input.len() - i,
{
    if 0 <= i < input.len() && is_digit(input[i]) {
        skip_digits(input, i + 1)
    } else {
        i
    }
}

/// The first position at or after `i` whose byte is not a digit valid
/// under `base`.
pub open spec fn skip_base_digits(input: Seq<u8>, i: int, base: u32) -> int
    decreases input.len() - i,
{
    if 0 <= i < input.len() && digit_value(input[i]) < base {
        skip_base_digits(input, i + 1, base)
    } else {
        i
    }
}

/// The result of reading a long-name escape body: the name maps to an
/// operator token kind, to a letterlike codepoint, or to nothing.
#[derive(Debug, Clone, Copy, PartialEq, Eq, Structural)]
pub enum LongNameKind {
    Operator(TokenKind),
    Letterlike,
    Unknown,
}

/// What the long name spelled by the given bytes stands for.
pub open spec fn long_name_kind(s: Seq<u8>) -> LongNameKind {
    if s == seq![82u8, 117u8, 108u8, 101u8] {  // Rule
        LongNameKind::Operator(TokenKind::LongName_Rule)
    } else if s == seq![82u8, 117u8, 108u8, 101u8, 68u8, 101u8, 108u8, 97u8, 121u8, 101u8,
        100u8] {  // RuleDelayed
        LongNameKind::Operator(TokenKind::LongName_RuleDelayed)
    } else if s == seq![69u8, 113u8, 117u8, 97u8, 108u8] {  // Equal
        LongNameKind::Operator(TokenKind::LongName_Equal)
    } else if s == seq![78u8, 111u8, 116u8, 69u8, 113u8, 117u8, 97u8, 108u8] {  // NotEqual
        LongNameKind::Operator(TokenKind::LongName_NotEqual)
    } else if s == seq![76u8, 101u8, 115u8, 115u8, 69u8, 113u8, 117u8, 97u8, 108u8] {  // LessEqual
        LongNameKind::Operator(TokenKind::LongName_LessEqual)
    } else if s == seq![71u8, 114u8, 101u8, 97u8, 116u8, 101u8, 114u8, 69u8, 113u8, 117u8,
        97u8, 108u8] {  // GreaterEqual
        LongNameKind::Operator(TokenKind::LongName_GreaterEqual)
    } else if s == seq![84u8, 105u8, 109u8, 101u8, 115u8] {  // Times
        LongNameKind::Operator(TokenKind::LongName_Times)
    } else if s == seq![68u8, 105u8, 118u8, 105u8, 100u8, 101u8] {  // Divide
        LongNameKind::Operator(TokenKind::LongName_Divide)
    } else if s == seq![65u8, 110u8, 100u8] {  // And
        LongNameKind::Operator(TokenKind::LongName_And)
    } else if s == seq![79u8, 114u8] {  // Or
        LongNameKind::Operator(TokenKind::LongName_Or)
    } else if s == seq![78u8, 111u8, 116u8] {  // Not
        LongNameKind::Operator(TokenKind::LongName_Not)
    } else if s == seq![69u8, 108u8, 101u8, 109u8, 101u8, 110u8, 116u8] {  // Element
        LongNameKind::Operator(TokenKind::LongName_Element)
    } else if s == seq![70u8, 117u8, 110u8, 99u8, 116u8, 105u8, 111u8, 110u8] {  // Function
        LongNameKind::Operator(TokenKind::LongName_Function)
    } else if s == seq![65u8, 108u8, 112u8, 104u8, 97u8] {  // Alpha
        LongNameKind::Letterlike
    } else if s == seq![66u8, 101u8, 116u8, 97u8] {  // Beta
        LongNameKind::Letterlike
    } else if s == seq![80u8, 105u8] {  // Pi
        LongNameKind::Letterlike
    } else if s == seq![68u8, 101u8, 103u8, 114u8, 101u8, 101u8] {  // Degree
        LongNameKind::Letterlike
    } else if s == seq![73u8, 110u8, 102u8, 105u8, 110u8, 105u8, 116u8, 121u8] {  // Infinity
        LongNameKind::Letterlike
    } else {
        LongNameKind::Unknown
    }
}

/// The first position at or after `i` whose byte is not an ASCII letter.
pub open spec fn skip_letters(input: Seq<u8>, i: int) -> int
    decreases input.len() - i,
{
    if 0 <= i < input.len() && is_alpha(input[i]) {
        skip_letters(input, i + 1)
    } else {
        i
    }
}

/// Scans the long-name escape whose `\[` sits at `i`: yields what the name
/// stands for and the position just past the closing `]`, or `None` when
/// the escape is not closed right after its letters.
pub open spec fn scan_long_name(input: Seq<u8>, i: int) -> Option<(LongNameKind, int)> {
    let j = skip_letters(input, i + 2);
    if j < input.len() && input[j] == 93 {
        Some((long_name_kind(input.subrange(i + 2, j)), j + 1))
    } else {
        None
    }
}

/// Whether the bytes at `i` begin a unit that may continue a symbol: an
/// ASCII letter, digit or `$`, a letterlike codepoint, or a letterlike
/// long-name escape. Yields the position just past the unit.
pub open spec fn symbol_unit(input: Seq<u8>, i: int) -> Option<int> {
    if i < 0 || i >= input.len() {
        None
    } else if is_symbol_continue(input[i]) {
        Some(i + 1)
    } else if input[i] == 92 && i + 1 < input.len() && input[i + 1] == 91 {
        match scan_long_name(input, i) {
            Some((LongNameKind::Letterlike, j)) => Some(j),
            _ => None,
        }
    } else if input[i] >= 128 {
        match decode_scalar(input, i) {
            Some((cp, w)) => if codepoint_letterlike(cp) {
                Some(i + w)
            } else {
                None
            },
            None => None,
        }
    } else {
        None
    }
}

/// The position after as many symbol units as can be read from `i`.
pub open spec fn skip_symbol_units(input: Seq<u8>, i: int) -> int
    decreases input.len() - i,
{
    match symbol_unit(input, i) {
        Some(j) => if i < j <= input.len() {
            skip_symbol_units(input, j)
        } else {
            i
        },
        None => i,
    }
}

/// Scans a symbol whose first unit starts at `i` (a leading context mark
/// `\u{60}` is handled by the caller): segments of symbol units joined by
/// context marks. A context mark not followed by a letterlike unit turns
/// the whole lexeme into an expected-letterlike error token.
pub open spec fn scan_symbol_rest(input: Seq<u8>, i: int) -> Scan
    decreases input.len() - i,
{
    let j = skip_symbol_units(input, i);
    if j < input.len() && input[j] == 96 {
        if symbol_unit(input, j + 1) is Some && !(j + 1 < input.len() && is_digit(
            input[j + 1],
        )) {
            if j + 1 > i {
                scan_symbol_rest(input, j + 1)
            } else {
                Scan { kind: TokenKind::Error_ExpectedLetterlike, end: j + 1 }
            }
        } else {
            Scan { kind: TokenKind::Error_ExpectedLetterlike, end: j + 1 }
        }
    } else {
        Scan { kind: TokenKind::Symbol, end: j }
    }
}

/// Scans the string literal whose opening quote sits at `i`: a backslash
/// escapes the following byte; an unclosed literal becomes an unterminated
/// string error token running to the end of the input.
pub open spec fn scan_string(input: Seq<u8>, i: int) -> Scan
    decreases input.len() - i,
{
    if i < 0 || i >= input.len() {
        Scan { kind: TokenKind::Error_UnterminatedString, end: input.len() as int }
    } else if input[i] == 34 {
        Scan { kind: TokenKind::String, end: i + 1 }
    } else if input[i] == 92 {
        if i + 1 < input.len() {
            scan_string(input, i + 2)
        } else {
            Scan { kind: TokenKind::Error_UnterminatedString, end: input.len() as int }
        }
    } else {
        scan_string(input, i + 1)
    }
}

/// Scans the comment body at nesting `depth`, starting after some `(*`:
/// `(*` opens a nested comment, `*)` closes one; an unclosed comment
/// becomes an unterminated comment error token running to the end.
pub open spec fn scan_comment(input: Seq<u8>, i: int, depth: int) -> Scan
    decreases input.len() - i,
{
    if i < 0 || i + 1 >= input.len() {
        Scan { kind: TokenKind::Error_UnterminatedComment, end: input.len() as int }
    } else if input[i] == 42 && input[i + 1] == 41 {
        if depth <= 1 {
            Scan { kind: TokenKind::Comment, end: i + 2 }
        } else {
            scan_comment(input, i + 2, depth - 1)
        }
    } else if input[i] == 40 && input[i + 1] == 42 {
        scan_comment(input, i + 2, depth + 1)
    } else {
        scan_comment(input, i + 1, depth)
    }
}

/// The first position at or after `i` whose byte is neither a space nor a
/// tab.
pub open spec fn skip_ws(input: Seq<u8>, i: int) -> int
    decreases input.len() - i,
{
    if 0 <= i < input.len() && (input[i] == 32 || input[i] == 9) {
        skip_ws(input, i + 1)
    } else {
        i
    }
}

/// The numeric base named by the digits in `[i, j)`, or 99 when it cannot
/// be a base (more than two digits).
pub open spec fn base_value(input: Seq<u8>, i: int, j: int) -> u32 {
    if j - i == 1 {
        digit_value(input[i])
    } else if j - i == 2 {
        (10 * digit_value(input[i]) + digit_value(input[i + 1])) as u32
    } else {
        99
    }
}

/// Scans the optional precision (`` ` ``), accuracy (`` `` ``) and
/// exponent (`*^`) marks that may follow a number's mantissa. `real` says
/// whether the mantissa already had a fractional part.
pub open spec fn scan_number_suffix(input: Seq<u8>, k: int, had_frac: bool) -> Scan {
    let backtick = k < input.len() && input[k] == 96;
    let double = backtick && k + 1 < input.len() && input[k + 1] == 96;
    let s0 = if double {
        k + 2
    } else if backtick {
        k + 1
    } else {
        k
    };
    let signed = backtick && s0 < input.len() && (input[s0] == 43 || input[s0] == 45);
    let s1 = if signed {
        s0 + 1
    } else {
        s0
    };
    let d1 = if backtick {
        skip_digits(input, s1)
    } else {
        s1
    };
    if signed && d1 == s1 {
        Scan { kind: TokenKind::Error_Number, end: s1 }
    } else {
        let d2 = if backtick && d1 > s1 && d1 < input.len() && input[d1] == 46 {
            skip_digits(input, d1 + 1)
        } else {
            d1
        };
        let m = d2;
        if m + 1 < input.len() && input[m] == 42 && input[m + 1] == 94 {
            let e0 = m + 2;
            let e1 = if e0 < input.len() && (input[e0] == 43 || input[e0] == 45) {
                e0 + 1
            } else {
                e0
            };
            let e2 = skip_digits(input, e1);
            if e2 == e1 {
                Scan { kind: TokenKind::Error_Number, end: e1 }
            } else {
                Scan {
                    kind: if had_frac || backtick {
                        TokenKind::Real
                    } else {
                        TokenKind::Integer
                    },
                    end: e2,
                }
            }
        } else {
            Scan {
                kind: if had_frac || backtick {
                    TokenKind::Real
                } else {
                    TokenKind::Integer
                },
                end: m,
            }
        }
    }
}

/// Scans the number starting at `i`: either a digit run, possibly with a
/// base mark `^^`, a fractional part, precision or accuracy marks and an
/// exponent; or a fraction starting with `.` when a digit follows.
pub open spec fn scan_number(input: Seq<u8>, i: int) -> Scan {
    let j0 = skip_digits(input, i);
    if j0 > i && j0 + 1 < input.len() && input[j0] == 94 && input[j0 + 1] == 94 {
        let base = base_value(input, i, j0);
        if 2 <= base <= 36 {
            let k = skip_base_digits(input, j0 + 2, base);
            if k == j0 + 2 {
                Scan { kind: TokenKind::Error_Number, end: j0 + 2 }
            } else {
                let frac = k < input.len() && input[k] == 46;
                let k2 = if frac {
                    skip_base_digits(input, k + 1, base)
                } else {
                    k
                };
                scan_number_suffix(input, k2, frac)
            }
        } else {
            Scan { kind: TokenKind::Error_Number, end: j0 + 2 }
        }
    } else {
        let frac = j0 < input.len() && input[j0] == 46 && (j0 > i || (j0 + 1 < input.len()
            && is_digit(input[j0 + 1])));
        let k = if frac {
            skip_digits(input, j0 + 1)
        } else {
            j0
        };
        scan_number_suffix(input, k, frac)
    }
}

/// One token of kind `k` covering `[i, j)`.
pub open spec fn sc(k: TokenKind, j: int) -> Scan {
    Scan { kind: k, end: j }
}

/// Whether the byte at position `j` equals `b`.
pub open spec fn at(input: Seq<u8>, j: int, b: u8) -> bool {
    0 <= j < input.len() && input[j] == b
}

/// Scans the operator token starting at `i` for first bytes that are not
/// handled elsewhere, choosing the longest spelling.
pub open spec fn scan_operator(input: Seq<u8>, i: int) -> Scan {
    let b0 = input[i];
    if b0 == 40 {
        sc(TokenKind::OpenParen, i + 1)
    } else if b0 == 41 {
        sc(TokenKind::CloseParen, i + 1)
    } else if b0 == 91 {
        sc(TokenKind::OpenSquare, i + 1)
    } else if b0 == 93 {
        sc(TokenKind::CloseSquare, i + 1)
    } else if b0 == 123 {
        sc(TokenKind::OpenCurly, i + 1)
    } else if b0 == 125 {
        sc(TokenKind::CloseCurly, i + 1)
    } else if b0 == 44 {
        sc(TokenKind::Comma, i + 1)
    } else if b0 == 59 {
        if at(input, i + 1, 59) {
            sc(TokenKind::SemiSemi, i + 2)
        } else {
            sc(TokenKind::Semi, i + 1)
        }
    } else if b0 == 61 {
        if at(input, i + 1, 61) && at(input, i + 2, 61) {
            sc(TokenKind::EqualEqualEqual, i + 3)
        } else if at(input, i + 1, 33) && at(input, i + 2, 61) {
            sc(TokenKind::EqualBangEqual, i + 3)
        } else if at(input, i + 1, 61) {
            sc(TokenKind::EqualEqual, i + 2)
        } else if at(input, i + 1, 46) {
            sc(TokenKind::EqualDot, i + 2)
        } else {
            sc(TokenKind::Equal, i + 1)
        }
    } else if b0 == 43 {
        if at(input, i + 1, 43) {
            sc(TokenKind::PlusPlus, i + 2)
        } else if at(input, i + 1, 61) {
            sc(TokenKind::PlusEqual, i + 2)
        } else {
            sc(TokenKind::Plus, i + 1)
        }
    } else if b0 == 45 {
        if at(input, i + 1, 45) {
            sc(TokenKind::MinusMinus, i + 2)
        } else if at(input, i + 1, 61) {
            sc(TokenKind::MinusEqual, i + 2)
        } else if at(input, i + 1, 62) {
            sc(TokenKind::MinusGreater, i + 2)
        } else {
            sc(TokenKind::Minus, i + 1)
        }
    } else if b0 == 42 {
        if at(input, i + 1, 41) {
            sc(TokenKind::Error_UnexpectedCommentCloser, i + 2)
        } else if at(input, i + 1, 42) {
            sc(TokenKind::StarStar, i + 2)
        } else if at(input, i + 1, 61) {
            sc(TokenKind::StarEqual, i + 2)
        } else {
            sc(TokenKind::Star, i + 1)
        }
    } else if b0 == 47 {
        if at(input, i + 1, 47) && at(input, i + 2, 46) {
            sc(TokenKind::SlashSlashDot, i + 3)
        } else if at(input, i + 1, 47) && at(input, i + 2, 64) {
            sc(TokenKind::SlashSlashAt, i + 3)
        } else if at(input, i + 1, 47) && at(input, i + 2, 61) {
            sc(TokenKind::SlashSlashEqual, i + 3)
        } else if at(input, i + 1, 47) {
            sc(TokenKind::SlashSlash, i + 2)
        } else if at(input, i + 1, 64) {
            sc(TokenKind::SlashAt, i + 2)
        } else if at(input, i + 1, 59) {
            sc(TokenKind::SlashSemi, i + 2)
        } else if at(input, i + 1, 46) && !(i + 2 < input.len() && is_digit(input[i + 2])) {
            sc(TokenKind::SlashDot, i + 2)
        } else if at(input, i + 1, 58) {
            sc(TokenKind::SlashColon, i + 2)
        } else if at(input, i + 1, 61) {
            sc(TokenKind::SlashEqual, i + 2)
        } else if at(input, i + 1, 42) {
            sc(TokenKind::SlashStar, i + 2)
        } else {
            sc(TokenKind::Slash, i + 1)
        }
    } else if b0 == 94 {
        if at(input, i + 1, 61) {
            sc(TokenKind::CaretEqual, i + 2)
        } else if at(input, i + 1, 58) && at(input, i + 2, 61) {
            sc(TokenKind::CaretColonEqual, i + 3)
        } else {
            sc(TokenKind::Caret, i + 1)
        }
    } else if b0 == 60 {
        if at(input, i + 1, 124) {
            sc(TokenKind::LessBar, i + 2)
        } else if at(input, i + 1, 61) {
            sc(TokenKind::LessEqual, i + 2)
        } else if at(input, i + 1, 60) {
            sc(TokenKind::LessLess, i + 2)
        } else if at(input, i + 1, 62) {
            sc(TokenKind::LessGreater, i + 2)
        } else if at(input, i + 1, 45) && at(input, i + 2, 62) {
            sc(TokenKind::LessMinusGreater, i + 3)
        } else {
            sc(TokenKind::Less, i + 1)
        }
    } else if b0 == 62 {
        if at(input, i + 1, 61) {
            sc(TokenKind::GreaterEqual, i + 2)
        } else if at(input, i + 1, 62) && at(input, i + 2, 62) {
            sc(TokenKind::GreaterGreaterGreater, i + 3)
        } else if at(input, i + 1, 62) {
            sc(TokenKind::GreaterGreater, i + 2)
        } else {
            sc(TokenKind::Greater, i + 1)
        }
    } else if b0 == 33 {
        if at(input, i + 1, 33) {
            sc(TokenKind::BangBang, i + 2)
        } else if at(input, i + 1, 61) {
            sc(TokenKind::BangEqual, i + 2)
        } else {
            sc(TokenKind::Bang, i + 1)
        }
    } else if b0 == 38 {
        if at(input, i + 1, 38) {
            sc(TokenKind::AmpAmp, i + 2)
        } else {
            sc(TokenKind::Amp, i + 1)
        }
    } else if b0 == 124 {
        if at(input, i + 1, 124) {
            sc(TokenKind::BarBar, i + 2)
        } else if at(input, i + 1, 62) {
            sc(TokenKind::BarGreater, i + 2)
        } else {
            sc(TokenKind::Bar, i + 1)
        }
    } else if b0 == 58 {
        if at(input, i + 1, 58) {
            sc(TokenKind::ColonColon, i + 2)
        } else if at(input, i + 1, 61) {
            sc(TokenKind::ColonEqual, i + 2)
        } else if at(input, i + 1, 62) {
            sc(TokenKind::ColonGreater, i + 2)
        } else {
            sc(TokenKind::Colon, i + 1)
        }
    } else if b0 == 46 {
        if at(input, i + 1, 46) && at(input, i + 2, 46) {
            sc(TokenKind::DotDotDot, i + 3)
        } else if at(input, i + 1, 46) {
            sc(TokenKind::DotDot, i + 2)
        } else {
            sc(TokenKind::Dot, i + 1)
        }
    } else if b0 == 95 {
        if at(input, i + 1, 95) && at(input, i + 2, 95) {
            sc(TokenKind::UnderUnderUnder, i + 3)
        } else if at(input, i + 1, 95) {
            sc(TokenKind::UnderUnder, i + 2)
        } else if at(input, i + 1, 46) && !(i + 2 < input.len() && is_digit(input[i + 2])) {
            sc(TokenKind::UnderDot, i + 2)
        } else {
            sc(TokenKind::Under, i + 1)
        }
    } else if b0 == 35 {
        if at(input, i + 1, 35) {
            sc(TokenKind::HashHash, i + 2)
        } else {
            sc(TokenKind::Hash, i + 1)
        }
    } else if b0 == 37 {
        if at(input, i + 1, 37) {
            sc(TokenKind::PercentPercent, skip_percents(input, i + 1))
        } else {
            sc(TokenKind::Percent, i + 1)
        }
    } else if b0 == 39 {
        sc(TokenKind::SingleQuote, i + 1)
    } else if b0 == 63 {
        if at(input, i + 1, 63) {
            sc(TokenKind::QuestionQuestion, i + 2)
        } else {
            sc(TokenKind::Question, i + 1)
        }
    } else if b0 == 126 {
        if at(input, i + 1, 126) {
            sc(TokenKind::TildeTilde, i + 2)
        } else {
            sc(TokenKind::Tilde, i + 1)
        }
    } else if b0 == 64 {
        if at(input, i + 1, 64) && at(input, i + 2, 64) {
            sc(TokenKind::AtAtAt, i + 3)
        } else if at(input, i + 1, 64) {
            sc(TokenKind::AtAt, i + 2)
        } else if at(input, i + 1, 42) {
            sc(TokenKind::AtStar, i + 2)
        } else {
            sc(TokenKind::At, i + 1)
        }
    } else {
        sc(TokenKind::Error_UnhandledCharacter, i + 1)
    }
}

/// The position after a run of `%` bytes.
pub open spec fn skip_percents(input: Seq<u8>, i: int) -> int
    decreases input.len() - i,
{
    if 0 <= i < input.len() && input[i] == 37 {
        skip_percents(input, i + 1)
    } else {
        i
    }
}

/// Scans one token starting at `i`. `top` selects whether a newline is a
/// top-level newline (an expression separator) or an internal one
/// (trivia). At the end of the input the token is `EndOfFile`, covering
/// nothing. Opaque: proofs that need the scanning rules reveal it.
#[verifier::opaque]
pub open spec fn scan(input: Seq<u8>, i: int, top: bool) -> Scan {
    if i < 0 || i >= input.len() {
        Scan { kind: TokenKind::EndOfFile, end: if i < 0 {
            0
        } else {
            i
        } }
    } else {
        let b0 = input[i];
        if b0 == 32 || b0 == 9 {
            sc(TokenKind::Whitespace, skip_ws(input, i))
        } else if b0 == 13 {
            sc(
                if top {
                    TokenKind::ToplevelNewline
                } else {
                    TokenKind::InternalNewline
                },
                if at(input, i + 1, 10) {
                    i + 2
                } else {
                    i + 1
                },
            )
        } else if b0 == 10 {
            sc(
                if top {
                    TokenKind::ToplevelNewline
                } else {
                    TokenKind::InternalNewline
                },
                i + 1,
            )
        } else if is_digit(b0) {
            scan_number(input, i)
        } else if b0 == 46 && i + 1 < input.len() && is_digit(input[i + 1]) {
            scan_number(input, i)
        } else if is_letterish(b0) {
            scan_symbol_rest(input, i)
        } else if b0 == 96 {
            if symbol_unit(input, i + 1) is Some && !(i + 1 < input.len() && is_digit(
                input[i + 1],
            )) {
                scan_symbol_rest(input, i + 1)
            } else {
                sc(TokenKind::Error_ExpectedLetterlike, i + 1)
            }
        } else if b0 == 34 {
            scan_string(input, i + 1)
        } else if b0 == 40 && at(input, i + 1, 42) {
            scan_comment(input, i + 2, 1)
        } else if b0 == 92 {
            if at(input, i + 1, 91) {
                match scan_long_name(input, i) {
                    Some((LongNameKind::Operator(k), j)) => sc(k, j),
                    Some((LongNameKind::Letterlike, j)) => scan_symbol_rest(input, i),
                    Some((LongNameKind::Unknown, j)) => sc(TokenKind::Error_UnhandledCharacter, j),
                    None => sc(TokenKind::Error_UnhandledCharacter, skip_letters(input, i + 2)),
                }
            } else {
                sc(TokenKind::Error_UnhandledCharacter, i + 1)
            }
        } else if b0 >= 128 {
            match decode_scalar(input, i) {
                Some((cp, w)) => if cp == 0xFEFF {
                    sc(TokenKind::Error_UnsafeCharacterEncoding, i + w)
                } else {
                    match codepoint_operator(cp) {
                        Some(k) => sc(k, i + w),
                        None => if codepoint_letterlike(cp) {
                            scan_symbol_rest(input, i)
                        } else {
                            sc(TokenKind::Error_UnhandledCharacter, i + w)
                        },
                    }
                },
                None => sc(TokenKind::Error_UnsafeCharacterEncoding, i + 1),
            }
        } else {
            scan_operator(input, i)
        }
    }
}

/// Scans the tag demanded right after `::` or `#`: a quoted string or a
/// letterlike run, with no blank allowed in between. Anything else is an
/// expected-tag error covering nothing.
pub open spec fn scan_tag(input: Seq<u8>, i: int) -> Scan {
    if 0 <= i < input.len() && input[i] == 34 {
        scan_string(input, i + 1)
    } else if symbol_unit(input, i) is Some && 0 <= i < input.len() && !is_digit(input[i]) {
        sc(TokenKind::String, skip_symbol_units(input, i))
    } else {
        sc(TokenKind::Error_ExpectedTag, if i < 0 {
            0
        } else {
            i
        })
    }
}

/// Whether a byte ends a bare file name.
pub open spec fn file_break(b: u8) -> bool {
    b == 32 || b == 9 || b == 10 || b == 13 || b == 44 || b == 41 || b == 93 || b == 125
}

/// The position after a run of file-name bytes.
pub open spec fn skip_file(input: Seq<u8>, i: int) -> int
    decreases input.len() - i,
{
    if 0 <= i < input.len() && !file_break(input[i]) {
        skip_file(input, i + 1)
    } else {
        i
    }
}

/// Scans the file name demanded after `<<`, `>>` or `>>>`: a quoted
/// string, or a bare run up to a blank, newline, comma or closer. An
/// empty run is an expected-file error covering nothing.
pub open spec fn scan_file(input: Seq<u8>, i: int) -> Scan {
    if 0 <= i < input.len() && input[i] == 34 {
        scan_string(input, i + 1)
    } else if 0 <= i < input.len() && !file_break(input[i]) {
        sc(TokenKind::String, skip_file(input, i))
    } else {
        sc(TokenKind::Error_ExpectedFile, if i < 0 {
            0
        } else {
            i
        })
    }
}

/// Whether the byte at `j` equals `b` (false past the end).
fn at_ex(input: &Vec<u8>, j: usize, b: u8) -> (r: bool)
    ensures
        r == at(input@, j as int, b),
{
    j < input.len() && input[j] == b
}

/// The first position at or after `i` whose byte is not a decimal digit.
#[verifier::loop_isolation(false)]
fn ex_skip_digits(input: &Vec<u8>, i: usize) -> (r: usize)
    requires
        i <= input@.len(),
    ensures
        r == skip_digits(input@, i as int),
        i <= r <= input@.len(),
        i < input@.len() && is_digit(input@[i as int]) ==> i < r,
{
    let mut j = i;
    while j < input.len() && input[j] >= 48 && input[j] <= 57
        invariant
            i <= j <= input@.len(),
            skip_digits(input@, i as int) == skip_digits(input@, j as int),
        decreases input@.len() - j,
    {
        j = j + 1;
    }
    proof {
        assert(skip_digits(input@, j as int) == j as int);
    }
    j
}

/// The first position at or after `i` whose byte is not a digit valid
/// under `base`.
fn ex_skip_base_digits(input: &Vec<u8>, i: usize, base: u32) -> (r: usize)
    requires
        i <= input@.len(),
    ensures
        r == skip_base_digits(input@, i as int, base),
        i <= r <= input@.len(),
{
    let mut j = i;
    loop
        invariant_except_break
            i <= j <= input@.len(),
            skip_base_digits(input@, i as int, base) == skip_base_digits(input@, j as int, base),
        ensures
            j == skip_base_digits(input@, i as int, base),
            i <= j <= input@.len(),
        decreases input@.len() - j,
    {
        if j >= input.len() {
            proof {
                assert(skip_base_digits(input@, j as int, base) == j as int);
            }
            break;
        }
        let b = input[j];
        let dv: u32 = if b >= 48 && b <= 57 {
            (b - 48) as u32
        } else if b >= 97 && b <= 122 {
            (b - 97) as u32 + 10
        } else if b >= 65 && b <= 90 {
            (b - 65) as u32 + 10
        } else {
            99
        };
        proof {
            assert(dv == digit_value(input@[j as int]));
        }
        if dv < base {
            j = j + 1;
        } else {
            proof {
                assert(skip_base_digits(input@, j as int, base) == j as int);
            }
            break;
        }
    }
    j
}

/// The first position at or after `i` whose byte is not an ASCII letter.
fn ex_skip_letters(input: &Vec<u8>, i: usize) -> (r: usize)
    requires
        i <= input@.len(),
    ensures
        r == skip_letters(input@, i as int),
        i <= r <= input@.len(),
{
    let mut j = i;
    while j < input.len() && ((input[j] >= 65 && input[j] <= 90) || (input[j] >= 97
        && input[j] <= 122))
        invariant
            i <= j <= input@.len(),
            skip_letters(input@, i as int) == skip_letters(input@, j as int),
        decreases input@.len() - j,
    {
        j = j + 1;
    }
    proof {
        assert(skip_letters(input@, j as int) == j as int);
    }
    j
}

/// The first position at or after `i` whose byte is neither space nor tab.
#[verifier::loop_isolation(false)]
fn ex_skip_ws(input: &Vec<u8>, i: usize) -> (r: usize)
    requires
        i <= input@.len(),
    ensures
        r == skip_ws(input@, i as int),
        i <= r <= input@.len(),
        i < input@.len() && (input@[i as int] == 32 || input@[i as int] == 9) ==> i < r,
{
    let mut j = i;
    while j < input.len() && (input[j] == 32 || input[j] == 9)
        invariant
            i <= j <= input@.len(),
            skip_ws(input@, i as int) == skip_ws(input@, j as int),
        decreases input@.len() - j,
    {
        j = j + 1;
    }
    proof {
        assert(skip_ws(input@, j as int) == j as int);
    }
    j
}

/// The position after a run of `%` bytes.
fn ex_skip_percents(input: &Vec<u8>, i: usize) -> (r: usize)
    requires
        i <= input@.len(),
    ensures
        r == skip_percents(input@, i as int),
        i <= r <= input@.len(),
{
    let mut j = i;
    while j < input.len() && input[j] == 37
        invariant
            i <= j <= input@.len(),
            skip_percents(input@, i as int) == skip_percents(input@, j as int),
        decreases input@.len() - j,
    {
        j = j + 1;
    }
    proof {
        assert(skip_percents(input@, j as int) == j as int);
    }
    j
}

/// The position after a run of file-name bytes.
fn ex_skip_file(input: &Vec<u8>, i: usize) -> (r: usize)
    requires
        i <= input@.len(),
    ensures
        r == skip_file(input@, i as int),
        i <= r <= input@.len(),
{
    let mut j = i;
    while j < input.len() && !(input[j] == 32 || input[j] == 9 || input[j] == 10 || input[j]
        == 13 || input[j] == 44 || input[j] == 41 || input[j] == 93 || input[j] == 125)
        invariant
            i <= j <= input@.len(),
            skip_file(input@, i as int) == skip_file(input@, j as int),
        decreases input@.len() - j,
    {
        j = j + 1;
    }
    proof {
        assert(skip_file(input@, j as int) == j as int);
    }
    j
}

/// Decodes the Unicode scalar starting at `i`.
fn ex_decode_scalar(input: &Vec<u8>, i: usize) -> (r: Option<(u32, usize)>)
    requires
        i < input@.len(),
    ensures
        match r {
            Some((cp, w)) => decode_scalar(input@, i as int) == Some((cp, w as int)) && i + w
                <= input@.len() && w >= 1,
            None => decode_scalar(input@, i as int) is None,
        },
{
    let b0 = input[i];
    if b0 < 128 {
        Some((b0 as u32, 1))
    } else if 194 <= b0 && b0 <= 223 {
        if input.len() - i > 1 && 128 <= input[i + 1] && input[i + 1] <= 191 {
            Some((((b0 - 192) as u32) * 64 + ((input[i + 1] - 128) as u32), 2))
        } else {
            None
        }
    } else if 224 <= b0 && b0 <= 239 {
        if input.len() - i > 2 && 128 <= input[i + 1] && input[i + 1] <= 191 && 128 <= input[i
            + 2] && input[i + 2] <= 191 {
            let v: u32 = (((b0 - 224) as u32) * 4096) + (((input[i + 1] - 128) as u32) * 64) + ((
            input[i + 2] - 128) as u32);
            if v < 2048 || (55296 <= v && v <= 57343) {
                None
            } else {
                Some((v, 3))
            }
        } else {
            None
        }
    } else if 240 <= b0 && b0 <= 244 {
        if input.len() - i > 3 && 128 <= input[i + 1] && input[i + 1] <= 191 && 128 <= input[i
            + 2] && input[i + 2] <= 191 && 128 <= input[i + 3] && input[i + 3] <= 191 {
            let v: u32 = (((b0 - 240) as u32) * 262144) + (((input[i + 1] - 128) as u32) * 4096)
                + (((input[i + 2] - 128) as u32) * 64) + ((input[i + 3] - 128) as u32);
            if v < 65536 || v > 1114111 {
                None
            } else {
                Some((v, 4))
            }
        } else {
            None
        }
    } else {
        None
    }
}

/// The operator token kind of a non-ASCII codepoint, if it has one.
fn ex_codepoint_operator(cp: u32) -> (r: Option<TokenKind>)
    ensures
        r == codepoint_operator(cp),
{
    if cp == 0x2192 {
        Some(TokenKind::LongName_Rule)
    } else if cp == 0x29F4 {
        Some(TokenKind::LongName_RuleDelayed)
    } else if cp == 0xD7 {
        Some(TokenKind::LongName_Times)
    } else if cp == 0xF7 {
        Some(TokenKind::LongName_Divide)
    } else if cp == 0x2227 {
        Some(TokenKind::LongName_And)
    } else if cp == 0x2228 {
        Some(TokenKind::LongName_Or)
    } else if cp == 0xAC {
        Some(TokenKind::LongName_Not)
    } else if cp == 0x2260 {
        Some(TokenKind::LongName_NotEqual)
    } else if cp == 0x2264 {
        Some(TokenKind::LongName_LessEqual)
    } else if cp == 0x2265 {
        Some(TokenKind::LongName_GreaterEqual)
    } else if cp == 0x2208 {
        Some(TokenKind::LongName_Element)
    } else if cp == 0x21A6 {
        Some(TokenKind::LongName_Function)
    } else {
        None
    }
}

/// Compares the bytes in `[a, b)` with a short name given as a byte
/// vector.
fn name_eq(input: &Vec<u8>, a: usize, b: usize, name: &Vec<u8>) -> (r: bool)
    requires
        a <= b <= input@.len(),
    ensures
        r == (input@.subrange(a as int, b as int) == name@),
{
    if b - a != name.len() {
        proof {
            assert(input@.subrange(a as int, b as int).len() == b - a);
        }
        return false;
    }
    let mut k: usize = 0;
    while k < name.len()
        invariant
            a <= b <= input@.len(),
            b - a == name@.len(),
            k <= name@.len(),
            forall|m: int| 0 <= m < k ==> input@[a + m] == name@[m],
        decreases name@.len() - k,
    {
        if input[a + k] != name[k] {
            proof {
                assert(input@.subrange(a as int, b as int)[k as int] == input@[a + k]);
            }
            return false;
        }
        k = k + 1;
    }
    proof {
        assert(input@.subrange(a as int, b as int) =~= name@);
    }
    true
}

/// What the long name spelled by the bytes in `[a, b)` stands for.
fn ex_long_name_kind(input: &Vec<u8>, a: usize, b: usize) -> (r: LongNameKind)
    requires
        a <= b <= input@.len(),
    ensures
        r == long_name_kind(input@.subrange(a as int, b as int)),
{
    if name_eq(input, a, b, &vec![82u8, 117u8, 108u8, 101u8]) {
        LongNameKind::Operator(TokenKind::LongName_Rule)
    } else if name_eq(
        input,
        a,
        b,
        &vec![82u8, 117u8, 108u8, 101u8, 68u8, 101u8, 108u8, 97u8, 121u8, 101u8, 100u8],
    ) {
        LongNameKind::Operator(TokenKind::LongName_RuleDelayed)
    } else if name_eq(input, a, b, &vec![69u8, 113u8, 117u8, 97u8, 108u8]) {
        LongNameKind::Operator(TokenKind::LongName_Equal)
    } else if name_eq(input, a, b, &vec![78u8, 111u8, 116u8, 69u8, 113u8, 117u8, 97u8, 108u8]) {
        LongNameKind::Operator(TokenKind::LongName_NotEqual)
    } else if name_eq(
        input,
        a,
        b,
        &vec![76u8, 101u8, 115u8, 115u8, 69u8, 113u8, 117u8, 97u8, 108u8],
    ) {
        LongNameKind::Operator(TokenKind::LongName_LessEqual)
    } else if name_eq(
        input,
        a,
        b,
        &vec![71u8, 114u8, 101u8, 97u8, 116u8, 101u8, 114u8, 69u8, 113u8, 117u8, 97u8, 108u8],
    ) {
        LongNameKind::Operator(TokenKind::LongName_GreaterEqual)
    } else if name_eq(input, a, b, &vec![84u8, 105u8, 109u8, 101u8, 115u8]) {
        LongNameKind::Operator(TokenKind::LongName_Times)
    } else if name_eq(input, a, b, &vec![68u8, 105u8, 118u8, 105u8, 100u8, 101u8]) {
        LongNameKind::Operator(TokenKind::LongName_Divide)
    } else if name_eq(input, a, b, &vec![65u8, 110u8, 100u8]) {
        LongNameKind::Operator(TokenKind::LongName_And)
    } else if name_eq(input, a, b, &vec![79u8, 114u8]) {
        LongNameKind::Operator(TokenKind::LongName_Or)
    } else if name_eq(input, a, b, &vec![78u8, 111u8, 116u8]) {
        LongNameKind::Operator(TokenKind::LongName_Not)
    } else if name_eq(input, a, b, &vec![69u8, 108u8, 101u8, 109u8, 101u8, 110u8, 116u8]) {
        LongNameKind::Operator(TokenKind::LongName_Element)
    } else if name_eq(
        input,
        a,
        b,
        &vec![70u8, 117u8, 110u8, 99u8, 116u8, 105u8, 111u8, 110u8],
    ) {
        LongNameKind::Operator(TokenKind::LongName_Function)
    } else if name_eq(input, a, b, &vec![65u8, 108u8, 112u8, 104u8, 97u8]) {
        LongNameKind::Letterlike
    } else if name_eq(input, a, b, &vec![66u8, 101u8, 116u8, 97u8]) {
        LongNameKind::Letterlike
    } else if name_eq(input, a, b, &vec![80u8, 105u8]) {
        LongNameKind::Letterlike
    } else if name_eq(input, a, b, &vec![68u8, 101u8, 103u8, 114u8, 101u8, 101u8]) {
        LongNameKind::Letterlike
    } else if name_eq(input, a, b, &vec![73u8, 110u8, 102u8, 105u8, 110u8, 105u8, 116u8, 121u8]) {
        LongNameKind::Letterlike
    } else {
        LongNameKind::Unknown
    }
}

/// Scans the long-name escape whose `\[` sits at `i`.
fn ex_scan_long_name(input: &Vec<u8>, i: usize) -> (r: Option<(LongNameKind, usize)>)
    requires
        input@.len() - i > 1,
        input@[i as int] == 92,
        input@[i + 1] == 91,
    ensures
        match r {
            Some((k, j)) => scan_long_name(input@, i as int) == Some((k, j as int)) && i < j
                <= input@.len(),
            None => scan_long_name(input@, i as int) is None,
        },
{
    proof {
        assert(input@.len() == input.len());
    }
    let j = ex_skip_letters(input, i + 2);
    if j < input.len() && input[j] == 93 {
        Some((ex_long_name_kind(input, i + 2, j), j + 1))
    } else {
        None
    }
}

/// The position past the symbol unit starting at `i`, if one starts there.
fn ex_symbol_unit(input: &Vec<u8>, i: usize) -> (r: Option<usize>)
    ensures
        match r {
            Some(j) => symbol_unit(input@, i as int) == Some(j as int) && i < j <= input@.len(),
            None => symbol_unit(input@, i as int) is None,
        },
{
    if i >= input.len() {
        return None;
    }
    let b = input[i];
    if (65 <= b && b <= 90) || (97 <= b && b <= 122) || b == 36 || (48 <= b && b <= 57) {
        Some(i + 1)
    } else if b == 92 && input.len() - i > 1 && input[i + 1] == 91 {
        match ex_scan_long_name(input, i) {
            Some((LongNameKind::Letterlike, j)) => Some(j),
            _ => None,
        }
    } else if b >= 128 {
        match ex_decode_scalar(input, i) {
            Some((cp, w)) => {
                if cp >= 0xA1 && cp != 0xFEFF && ex_codepoint_operator(cp).is_none() {
                    Some(i + w)
                } else {
                    None
                }
            },
            None => None,
        }
    } else {
        None
    }
}

/// The position after as many symbol units as can be read from `i`.
fn ex_skip_symbol_units(input: &Vec<u8>, i: usize) -> (r: usize)
    requires
        i <= input@.len(),
    ensures
        r == skip_symbol_units(input@, i as int),
        i <= r <= input@.len(),
{
    let mut j = i;
    loop
        invariant_except_break
            i <= j <= input@.len(),
            skip_symbol_units(input@, i as int) == skip_symbol_units(input@, j as int),
        ensures
            j == skip_symbol_units(input@, i as int),
            i <= j <= input@.len(),
        decreases input@.len() - j,
    {
        match ex_symbol_unit(input, j) {
            Some(j2) => {
                j = j2;
            },
            None => {
                proof {
                    assert(skip_symbol_units(input@, j as int) == j as int);
                }
                break;
            },
        }
    }
    j
}


/// A letter run never moves backwards and stays in bounds.
proof fn lemma_skip_letters_ge(input: Seq<u8>, x: int)
    requires
        0 <= x,
    ensures
        x <= skip_letters(input, x),
        x <= input.len() ==> skip_letters(input, x) <= input.len(),
    decreases input.len() - x,
{
    if 0 <= x < input.len() && is_alpha(input[x]) {
        lemma_skip_letters_ge(input, x + 1);
    }
}

/// A symbol unit covers at least one byte and stays in bounds.
proof fn lemma_symbol_unit_bounds(input: Seq<u8>, x: int)
    requires
        0 <= x,
    ensures
        symbol_unit(input, x) matches Some(j) ==> x < j <= input.len(),
{
    if x < input.len() && input[x] == 92 && x + 1 < input.len() && input[x + 1] == 91 {
        lemma_skip_letters_ge(input, x + 2);
    }
}

/// A run of symbol units never moves backwards and stays in bounds.
proof fn lemma_skip_symbol_units_ge(input: Seq<u8>, x: int)
    requires
        0 <= x,
    ensures
        x <= skip_symbol_units(input, x),
        x <= input.len() ==> skip_symbol_units(input, x) <= input.len(),
    decreases input.len() - x,
{
    match symbol_unit(input, x) {
        Some(j) => {
            if x < j <= input.len() {
                lemma_skip_symbol_units_ge(input, j);
            }
        },
        None => {},
    }
}

/// Scans a symbol whose first unit starts at `i`.
fn ex_scan_symbol_rest(input: &Vec<u8>, i: usize) -> (r: (TokenKind, usize))
    requires
        i <= input@.len(),
    ensures
        scan_symbol_rest(input@, i as int) == (Scan { kind: r.0, end: r.1 as int }),
        i <= r.1 <= input@.len(),
        symbol_unit(input@, i as int) is Some ==> i < r.1,
{
    proof {
        if symbol_unit(input@, i as int) is Some {
            let ju = symbol_unit(input@, i as int).unwrap();
            lemma_symbol_unit_bounds(input@, i as int);
            lemma_skip_symbol_units_ge(input@, ju);
        }
    }
    let mut cur = i;
    let mut kind = TokenKind::Symbol;
    let mut end: usize = i;
    loop
        invariant_except_break
            i <= cur <= input@.len(),
            scan_symbol_rest(input@, i as int) == scan_symbol_rest(input@, cur as int),
            symbol_unit(input@, i as int) is Some ==> (i < cur || i < skip_symbol_units(
                input@,
                cur as int,
            )),
        ensures
            scan_symbol_rest(input@, i as int) == (Scan { kind: kind, end: end as int }),
            i <= end <= input@.len(),
            symbol_unit(input@, i as int) is Some ==> i < end,
        decreases input@.len() - cur,
    {
        let j = ex_skip_symbol_units(input, cur);
        if j < input.len() && input[j] == 96 {
            let unit_ok = match ex_symbol_unit(input, j + 1) {
                Some(_) => true,
                None => false,
            };
            let digit_next = j + 1 < input.len() && 48 <= input[j + 1] && input[j + 1] <= 57;
            if unit_ok && !digit_next {
                cur = j + 1;
            } else {
                kind = TokenKind::Error_ExpectedLetterlike;
                end = j + 1;
                break;
            }
        } else {
            kind = TokenKind::Symbol;
            end = j;
            break;
        }
    }
    (kind, end)
}

/// Scans the string literal whose opening quote sits just before `i`.
fn ex_scan_string(input: &Vec<u8>, i: usize) -> (r: (TokenKind, usize))
    requires
        i <= input@.len(),
    ensures
        scan_string(input@, i as int) == (Scan { kind: r.0, end: r.1 as int }),
        r.1 <= input@.len(),
        i <= r.1 || r.1 == input@.len(),
{
    let mut j = i;
    let mut kind = TokenKind::String;
    let mut end: usize = i;
    loop
        invariant_except_break
            i <= j <= input@.len(),
            scan_string(input@, i as int) == scan_string(input@, j as int),
        ensures
            scan_string(input@, i as int) == (Scan { kind: kind, end: end as int }),
            end <= input@.len(),
            i <= end || end == input@.len(),
        decreases input@.len() - j,
    {
        if j >= input.len() {
            kind = TokenKind::Error_UnterminatedString;
            end = input.len();
            break;
        }
        let b = input[j];
        if b == 34 {
            kind = TokenKind::String;
            end = j + 1;
            break;
        } else if b == 92 {
            if input.len() - j > 1 {
                j = j + 2;
            } else {
                kind = TokenKind::Error_UnterminatedString;
                end = input.len();
                break;
            }
        } else {
            j = j + 1;
        }
    }
    (kind, end)
}

/// Scans the comment body starting after `(*`, at nesting depth 1.
fn ex_scan_comment(input: &Vec<u8>, i: usize) -> (r: (TokenKind, usize))
    requires
        2 <= i <= input@.len(),
    ensures
        scan_comment(input@, i as int, 1) == (Scan { kind: r.0, end: r.1 as int }),
        i <= r.1 <= input@.len(),
{
    let mut j = i;
    let mut depth: usize = 1;
    let mut kind = TokenKind::Comment;
    let mut end: usize = i;
    loop
        invariant_except_break
            i <= j <= input@.len(),
            1 <= depth <= j,
            scan_comment(input@, i as int, 1) == scan_comment(input@, j as int, depth as int),
        ensures
            scan_comment(input@, i as int, 1) == (Scan { kind: kind, end: end as int }),
            i <= end <= input@.len(),
        decreases input@.len() - j,
    {
        if input.len() - j <= 1 {
            kind = TokenKind::Error_UnterminatedComment;
            end = input.len();
            break;
        }
        let b = input[j];
        if b == 42 && input[j + 1] == 41 {
            if depth <= 1 {
                kind = TokenKind::Comment;
                end = j + 2;
                break;
            } else {
                depth = depth - 1;
                j = j + 2;
            }
        } else if b == 40 && input[j + 1] == 42 {
            depth = depth + 1;
            j = j + 2;
        } else {
            j = j + 1;
        }
    }
    (kind, end)
}

/// Scans the marks that may follow a number's mantissa.
fn ex_scan_number_suffix(input: &Vec<u8>, k: usize, had_frac: bool) -> (r: (TokenKind, usize))
    requires
        k <= input@.len(),
    ensures
        scan_number_suffix(input@, k as int, had_frac) == (Scan { kind: r.0, end: r.1 as int }),
        k <= r.1 <= input@.len(),
{
    proof {
        assert(input@.len() == input.len());
    }
    let backtick = k < input.len() && input[k] == 96;
    let double = backtick && k + 1 < input.len() && input[k + 1] == 96;
    let s0: usize = if double {
        k + 2
    } else if backtick {
        k + 1
    } else {
        k
    };
    let signed = backtick && s0 < input.len() && (input[s0] == 43 || input[s0] == 45);
    let s1: usize = if signed {
        s0 + 1
    } else {
        s0
    };
    let d1: usize = if backtick {
        ex_skip_digits(input, s1)
    } else {
        s1
    };
    if signed && d1 == s1 {
        return (TokenKind::Error_Number, s1);
    }
    let d2: usize = if backtick && d1 > s1 && d1 < input.len() && input[d1] == 46 {
        ex_skip_digits(input, d1 + 1)
    } else {
        d1
    };
    let m = d2;
    let base_kind = if had_frac || backtick {
        TokenKind::Real
    } else {
        TokenKind::Integer
    };
    if m < input.len() && input.len() - m > 1 && input[m] == 42 && input[m + 1] == 94 {
        let e0: usize = m + 2;
        let e1: usize = if e0 < input.len() && (input[e0] == 43 || input[e0] == 45) {
            e0 + 1
        } else {
            e0
        };
        let e2 = ex_skip_digits(input, e1);
        if e2 == e1 {
            (TokenKind::Error_Number, e1)
        } else {
            (base_kind, e2)
        }
    } else {
        (base_kind, m)
    }
}

/// Scans the number starting at `i`.
fn ex_scan_number(input: &Vec<u8>, i: usize) -> (r: (TokenKind, usize))
    requires
        i < input@.len(),
    ensures
        scan_number(input@, i as int) == (Scan { kind: r.0, end: r.1 as int }),
        i <= r.1 <= input@.len(),
        is_digit(input@[i as int]) || (input@[i as int] == 46 && i + 1 < input@.len()
            && is_digit(input@[i + 1])) ==> i < r.1,
{
    proof {
        assert(input@.len() == input.len());
    }
    let j0 = ex_skip_digits(input, i);
    if j0 > i && j0 < input.len() && input.len() - j0 > 1 && input[j0] == 94 && input[j0 + 1]
        == 94 {
        proof {
            assert forall|m: int| i <= m < j0 implies is_digit(#[trigger] input@[m]) by {
                lemma_skip_digits_range(input@, i as int, m);
            }
        }
        let base: u32 = if j0 - i == 1 {
            (input[i] - 48) as u32
        } else if j0 - i == 2 {
            10 * ((input[i] - 48) as u32) + ((input[i + 1] - 48) as u32)
        } else {
            99
        };
        proof {
            assert(base == base_value(input@, i as int, j0 as int));
        }
        if 2 <= base && base <= 36 {
            let k = ex_skip_base_digits(input, j0 + 2, base);
            if k == j0 + 2 {
                (TokenKind::Error_Number, j0 + 2)
            } else {
                let frac = k < input.len() && input[k] == 46;
                let k2: usize = if frac {
                    ex_skip_base_digits(input, k + 1, base)
                } else {
                    k
                };
                ex_scan_number_suffix(input, k2, frac)
            }
        } else {
            (TokenKind::Error_Number, j0 + 2)
        }
    } else {
        let frac = j0 < input.len() && input[j0] == 46 && (j0 > i || (input.len() - j0 > 1 && 48
            <= input[j0 + 1] && input[j0 + 1] <= 57));
        let k: usize = if frac {
            ex_skip_digits(input, j0 + 1)
        } else {
            j0
        };
        ex_scan_number_suffix(input, k, frac)
    }
}

/// Every position skipped by a digit run holds a digit.
proof fn lemma_skip_digits_range(input: Seq<u8>, i: int, m: int)
    requires
        0 <= i,
        i <= m < skip_digits(input, i),
    ensures
        is_digit(input[m]),
    decreases m - i,
{
    if m > i {
        lemma_skip_digits_range(input, i + 1, m);
    }
}

/// Scans the operator token starting at `i`, choosing the longest
/// spelling.
fn ex_scan_operator(input: &Vec<u8>, i: usize) -> (r: (TokenKind, usize))
    requires
        i < input@.len(),
    ensures
        scan_operator(input@, i as int) == (Scan { kind: r.0, end: r.1 as int }),
        i < r.1 <= input@.len(),
{
    proof {
        assert(input@.len() == input.len());
    }
    let b0 = input[i];
    if b0 == 40 {
        (TokenKind::OpenParen, i + 1)
    } else if b0 == 41 {
        (TokenKind::CloseParen, i + 1)
    } else if b0 == 91 {
        (TokenKind::OpenSquare, i + 1)
    } else if b0 == 93 {
        (TokenKind::CloseSquare, i + 1)
    } else if b0 == 123 {
        (TokenKind::OpenCurly, i + 1)
    } else if b0 == 125 {
        (TokenKind::CloseCurly, i + 1)
    } else if b0 == 44 {
        (TokenKind::Comma, i + 1)
    } else if b0 == 59 {
        if at_ex(input, i + 1, 59) {
            (TokenKind::SemiSemi, i + 2)
        } else {
            (TokenKind::Semi, i + 1)
        }
    } else if b0 == 61 {
        if at_ex(input, i + 1, 61) && at_ex(input, i + 2, 61) {
            (TokenKind::EqualEqualEqual, i + 3)
        } else if at_ex(input, i + 1, 33) && at_ex(input, i + 2, 61) {
            (TokenKind::EqualBangEqual, i + 3)
        } else if at_ex(input, i + 1, 61) {
            (TokenKind::EqualEqual, i + 2)
        } else if at_ex(input, i + 1, 46) {
            (TokenKind::EqualDot, i + 2)
        } else {
            (TokenKind::Equal, i + 1)
        }
    } else if b0 == 43 {
        if at_ex(input, i + 1, 43) {
            (TokenKind::PlusPlus, i + 2)
        } else if at_ex(input, i + 1, 61) {
            (TokenKind::PlusEqual, i + 2)
        } else {
            (TokenKind::Plus, i + 1)
        }
    } else if b0 == 45 {
        if at_ex(input, i + 1, 45) {
            (TokenKind::MinusMinus, i + 2)
        } else if at_ex(input, i + 1, 61) {
            (TokenKind::MinusEqual, i + 2)
        } else if at_ex(input, i + 1, 62) {
            (TokenKind::MinusGreater, i + 2)
        } else {
            (TokenKind::Minus, i + 1)
        }
    } else if b0 == 42 {
        if at_ex(input, i + 1, 41) {
            (TokenKind::Error_UnexpectedCommentCloser, i + 2)
        } else if at_ex(input, i + 1, 42) {
            (TokenKind::StarStar, i + 2)
        } else if at_ex(input, i + 1, 61) {
            (TokenKind::StarEqual, i + 2)
        } else {
            (TokenKind::Star, i + 1)
        }
    } else if b0 == 47 {
        if at_ex(input, i + 1, 47) && at_ex(input, i + 2, 46) {
            (TokenKind::SlashSlashDot, i + 3)
        } else if at_ex(input, i + 1, 47) && at_ex(input, i + 2, 64) {
            (TokenKind::SlashSlashAt, i + 3)
        } else if at_ex(input, i + 1, 47) && at_ex(input, i + 2, 61) {
            (TokenKind::SlashSlashEqual, i + 3)
        } else if at_ex(input, i + 1, 47) {
            (TokenKind::SlashSlash, i + 2)
        } else if at_ex(input, i + 1, 64) {
            (TokenKind::SlashAt, i + 2)
        } else if at_ex(input, i + 1, 59) {
            (TokenKind::SlashSemi, i + 2)
        } else if at_ex(input, i + 1, 46) && !(i + 2 < input.len() && 48 <= input[i + 2]
            && input[i + 2] <= 57) {
            (TokenKind::SlashDot, i + 2)
        } else if at_ex(input, i + 1, 58) {
            (TokenKind::SlashColon, i + 2)
        } else if at_ex(input, i + 1, 61) {
            (TokenKind::SlashEqual, i + 2)
        } else if at_ex(input, i + 1, 42) {
            (TokenKind::SlashStar, i + 2)
        } else {
            (TokenKind::Slash, i + 1)
        }
    } else if b0 == 94 {
        if at_ex(input, i + 1, 61) {
            (TokenKind::CaretEqual, i + 2)
        } else if at_ex(input, i + 1, 58) && at_ex(input, i + 2, 61) {
            (TokenKind::CaretColonEqual, i + 3)
        } else {
            (TokenKind::Caret, i + 1)
        }
    } else if b0 == 60 {
        if at_ex(input, i + 1, 124) {
            (TokenKind::LessBar, i + 2)
        } else if at_ex(input, i + 1, 61) {
            (TokenKind::LessEqual, i + 2)
        } else if at_ex(input, i + 1, 60) {
            (TokenKind::LessLess, i + 2)
        } else if at_ex(input, i + 1, 62) {
            (TokenKind::LessGreater, i + 2)
        } else if at_ex(input, i + 1, 45) && at_ex(input, i + 2, 62) {
            (TokenKind::LessMinusGreater, i + 3)
        } else {
            (TokenKind::Less, i + 1)
        }
    } else if b0 == 62 {
        if at_ex(input, i + 1, 61) {
            (TokenKind::GreaterEqual, i + 2)
        } else if at_ex(input, i + 1, 62) && at_ex(input, i + 2, 62) {
            (TokenKind::GreaterGreaterGreater, i + 3)
        } else if at_ex(input, i + 1, 62) {
            (TokenKind::GreaterGreater, i + 2)
        } else {
            (TokenKind::Greater, i + 1)
        }
    } else if b0 == 33 {
        if at_ex(input, i + 1, 33) {
            (TokenKind::BangBang, i + 2)
        } else if at_ex(input, i + 1, 61) {
            (TokenKind::BangEqual, i + 2)
        } else {
            (TokenKind::Bang, i + 1)
        }
    } else if b0 == 38 {
        if at_ex(input, i + 1, 38) {
            (TokenKind::AmpAmp, i + 2)
        } else {
            (TokenKind::Amp, i + 1)
        }
    } else if b0 == 124 {
        if at_ex(input, i + 1, 124) {
            (TokenKind::BarBar, i + 2)
        } else if at_ex(input, i + 1, 62) {
            (TokenKind::BarGreater, i + 2)
        } else {
            (TokenKind::Bar, i + 1)
        }
    } else if b0 == 58 {
        if at_ex(input, i + 1, 58) {
            (TokenKind::ColonColon, i + 2)
        } else if at_ex(input, i + 1, 61) {
            (TokenKind::ColonEqual, i + 2)
        } else if at_ex(input, i + 1, 62) {
            (TokenKind::ColonGreater, i + 2)
        } else {
            (TokenKind::Colon, i + 1)
        }
    } else if b0 == 46 {
        if at_ex(input, i + 1, 46) && at_ex(input, i + 2, 46) {
            (TokenKind::DotDotDot, i + 3)
        } else if at_ex(input, i + 1, 46) {
            (TokenKind::DotDot, i + 2)
        } else {
            (TokenKind::Dot, i + 1)
        }
    } else if b0 == 95 {
        if at_ex(input, i + 1, 95) && at_ex(input, i + 2, 95) {
            (TokenKind::UnderUnderUnder, i + 3)
        } else if at_ex(input, i + 1, 95) {
            (TokenKind::UnderUnder, i + 2)
        } else if at_ex(input, i + 1, 46) && !(i + 2 < input.len() && 48 <= input[i + 2]
            && input[i + 2] <= 57) {
            (TokenKind::UnderDot, i + 2)
        } else {
            (TokenKind::Under, i + 1)
        }
    } else if b0 == 35 {
        if at_ex(input, i + 1, 35) {
            (TokenKind::HashHash, i + 2)
        } else {
            (TokenKind::Hash, i + 1)
        }
    } else if b0 == 37 {
        if at_ex(input, i + 1, 37) {
            (TokenKind::PercentPercent, ex_skip_percents(input, i + 1))
        } else {
            (TokenKind::Percent, i + 1)
        }
    } else if b0 == 39 {
        (TokenKind::SingleQuote, i + 1)
    } else if b0 == 63 {
        if at_ex(input, i + 1, 63) {
            (TokenKind::QuestionQuestion, i + 2)
        } else {
            (TokenKind::Question, i + 1)
        }
    } else if b0 == 126 {
        if at_ex(input, i + 1, 126) {
            (TokenKind::TildeTilde, i + 2)
        } else {
            (TokenKind::Tilde, i + 1)
        }
    } else if b0 == 64 {
        if at_ex(input, i + 1, 64) && at_ex(input, i + 2, 64) {
            (TokenKind::AtAtAt, i + 3)
        } else if at_ex(input, i + 1, 64) {
            (TokenKind::AtAt, i + 2)
        } else if at_ex(input, i + 1, 42) {
            (TokenKind::AtStar, i + 2)
        } else {
            (TokenKind::At, i + 1)
        }
    } else {
        (TokenKind::Error_UnhandledCharacter, i + 1)
    }
}

/// Scans one token starting at `i`; see [`scan`].
#[verifier::rlimit(80)]
pub fn ex_scan(input: &Vec<u8>, i: usize, top: bool) -> (r: (TokenKind, usize))
    requires
        i <= input@.len(),
    ensures
        scan(input@, i as int, top) == (Scan { kind: r.0, end: r.1 as int }),
        i <= r.1 <= input@.len(),
        i < input@.len() ==> i < r.1,
        i >= input@.len() ==> r.1 == i && r.0 is EndOfFile,
{
    proof {
        reveal(scan);
        assert(input@.len() == input.len());
    }
    if i >= input.len() {
        return (TokenKind::EndOfFile, i);
    }
    let b0 = input[i];
    if b0 == 32 || b0 == 9 {
        (TokenKind::Whitespace, ex_skip_ws(input, i))
    } else if b0 == 13 {
        let k = if top {
            TokenKind::ToplevelNewline
        } else {
            TokenKind::InternalNewline
        };
        if at_ex(input, i + 1, 10) {
            (k, i + 2)
        } else {
            (k, i + 1)
        }
    } else if b0 == 10 {
        let k = if top {
            TokenKind::ToplevelNewline
        } else {
            TokenKind::InternalNewline
        };
        (k, i + 1)
    } else if 48 <= b0 && b0 <= 57 {
        ex_scan_number(input, i)
    } else if b0 == 46 && input.len() - i > 1 && 48 <= input[i + 1] && input[i + 1] <= 57 {
        ex_scan_number(input, i)
    } else if (65 <= b0 && b0 <= 90) || (97 <= b0 && b0 <= 122) || b0 == 36 {
        let (k, e) = ex_scan_symbol_rest(input, i);
        proof {
            assert(symbol_unit(input@, i as int) == Some(i + 1));
        }
        (k, e)
    } else if b0 == 96 {
        let unit_ok = match ex_symbol_unit(input, i + 1) {
            Some(_) => true,
            None => false,
        };
        let digit_next = i + 1 < input.len() && 48 <= input[i + 1] && input[i + 1] <= 57;
        if unit_ok && !digit_next {
            ex_scan_symbol_rest(input, i + 1)
        } else {
            (TokenKind::Error_ExpectedLetterlike, i + 1)
        }
    } else if b0 == 34 {
        ex_scan_string(input, i + 1)
    } else if b0 == 40 && at_ex(input, i + 1, 42) {
        ex_scan_comment(input, i + 2)
    } else if b0 == 92 {
        if at_ex(input, i + 1, 91) {
            match ex_scan_long_name(input, i) {
                Some((LongNameKind::Operator(k), j)) => (k, j),
                Some((LongNameKind::Letterlike, j)) => {
                    let (k2, e2) = ex_scan_symbol_rest(input, i);
                    proof {
                        assert(symbol_unit(input@, i as int) is Some);
                    }
                    (k2, e2)
                },
                Some((LongNameKind::Unknown, j)) => (TokenKind::Error_UnhandledCharacter, j),
                None => (TokenKind::Error_UnhandledCharacter, ex_skip_letters(input, i + 2)),
            }
        } else {
            (TokenKind::Error_UnhandledCharacter, i + 1)
        }
    } else if b0 >= 128 {
        match ex_decode_scalar(input, i) {
            Some((cp, w)) => {
                if cp == 0xFEFF {
                    (TokenKind::Error_UnsafeCharacterEncoding, i + w)
                } else {
                    match ex_codepoint_operator(cp) {
                        Some(k) => (k, i + w),
                        None => {
                            if cp >= 0xA1 {
                                let (k2, e2) = ex_scan_symbol_rest(input, i);
                                proof {
                                    assert(symbol_unit(input@, i as int) is Some);
                                }
                                (k2, e2)
                            } else {
                                (TokenKind::Error_UnhandledCharacter, i + w)
                            }
                        },
                    }
                }
            },
            None => (TokenKind::Error_UnsafeCharacterEncoding, i + 1),
        }
    } else {
        ex_scan_operator(input, i)
    }
}

/// Scans the tag demanded right after `::` or `#`; see [`scan_tag`].
pub fn ex_scan_tag(input: &Vec<u8>, i: usize) -> (r: (TokenKind, usize))
    requires
        i <= input@.len(),
    ensures
        scan_tag(input@, i as int) == (Scan { kind: r.0, end: r.1 as int }),
        i <= r.1 <= input@.len(),
{
    proof {
        assert(input@.len() == input.len());
    }
    if i < input.len() && input[i] == 34 {
        let (k, e) = ex_scan_string(input, i + 1);
        (k, e)
    } else {
        let unit_ok = match ex_symbol_unit(input, i) {
            Some(_) => true,
            None => false,
        };
        if unit_ok && i < input.len() && !(48 <= input[i] && input[i] <= 57) {
            (TokenKind::String, ex_skip_symbol_units(input, i))
        } else {
            (TokenKind::Error_ExpectedTag, i)
        }
    }
}

/// Scans the file name demanded after `<<`, `>>` or `>>>`; see
/// [`scan_file`].
pub fn ex_scan_file(input: &Vec<u8>, i: usize) -> (r: (TokenKind, usize))
    requires
        i <= input@.len(),
    ensures
        scan_file(input@, i as int) == (Scan { kind: r.0, end: r.1 as int }),
        i <= r.1 <= input@.len(),
{
    proof {
        assert(input@.len() == input.len());
    }
    if i < input.len() && input[i] == 34 {
        ex_scan_string(input, i + 1)
    } else if i < input.len() && !(input[i] == 32 || input[i] == 9 || input[i] == 10 || input[i]
        == 13 || input[i] == 44 || input[i] == 41 || input[i] == 93 || input[i] == 125) {
        (TokenKind::String, ex_skip_file(input, i))
    } else {
        (TokenKind::Error_ExpectedFile, i)
    }
}

/// The column reached from `col` by a tab of width `tab`, saturating.
pub open spec fn tab_stop(col: u32, tab: u32) -> u32 {
    if tab >= 1 && col >= 1 {
        let next = col + (tab - ((col - 1) % (tab as int)));
        if next <= u32::MAX {
            next as u32
        } else {
            u32::MAX
        }
    } else {
        col
    }
}

/// The location reached from `loc` after a tab character.
pub open spec fn tab_advance(loc: Location, tab: u32) -> Location {
    match loc {
        Location::LineColumn { line, column } => Location::LineColumn {
            line,
            column: tab_stop(column, tab),
        },
        Location::CharacterIndex { index } => loc.spec_advance(1),
    }
}

/// The location reached from `loc` after a carriage-return/newline pair.
pub open spec fn crlf_advance(loc: Location) -> Location {
    match loc {
        Location::LineColumn { line, column } => loc.spec_next_line(),
        Location::CharacterIndex { index } => loc.spec_advance(2),
    }
}

/// The location reached from `loc` after the given bytes: newlines start a
/// new line, tabs jump to the next tab stop, UTF-8 continuation bytes do
/// not advance, and every other byte advances by one character.
pub open spec fn loc_after(loc: Location, bytes: Seq<u8>, tab: u32) -> Location
    decreases bytes.len(),
{
    if bytes.len() == 0 {
        loc
    } else {
        let b = bytes[0];
        if b == 13 && bytes.len() > 1 && bytes[1] == 10 {
            loc_after(crlf_advance(loc), bytes.skip(2), tab)
        } else if b == 13 || b == 10 {
            loc_after(loc.spec_next_line(), bytes.skip(1), tab)
        } else if is_cont(b) {
            loc_after(loc, bytes.skip(1), tab)
        } else if b == 9 {
            loc_after(tab_advance(loc, tab), bytes.skip(1), tab)
        } else {
            loc_after(loc.spec_advance(1), bytes.skip(1), tab)
        }
    }
}

/// The location reached from `loc` after the bytes in `[a, b)`.
#[verifier::loop_isolation(false)]
pub fn ex_advance_loc(loc: Location, text: &Vec<u8>, a: usize, b: usize, tab: u32) -> (r:
    Location)
    requires
        a <= b <= text@.len(),
        tab >= 1,
    ensures
        r == loc_after(loc, text@.subrange(a as int, b as int), tab),
{
    let mut cur = loc;
    let mut k = a;
    while k < b
        invariant
            a <= k <= b,
            loc_after(loc, text@.subrange(a as int, b as int), tab) == loc_after(
                cur,
                text@.subrange(k as int, b as int),
                tab,
            ),
        decreases b - k,
    {
        let ghost pre = text@.subrange(k as int, b as int);
        let ghost prev = cur;
        let byte = text[k];
        proof {
            assert(pre[0] == text@[k as int]);
        }
        if byte == 13 && k + 1 < b && text[k + 1] == 10 {
            proof {
                assert(pre.skip(2) =~= text@.subrange(k + 2, b as int));
            }
            cur = match cur {
                Location::LineColumn { line, column: _ } => Location::LineColumn {
                    line: if line < u32::MAX {
                        line + 1
                    } else {
                        u32::MAX
                    },
                    column: 1,
                },
                Location::CharacterIndex { index } => Location::CharacterIndex {
                    index: if index <= u32::MAX - 2 {
                        index + 2
                    } else {
                        u32::MAX
                    },
                },
            };
            proof {
                assert(cur == crlf_advance(prev));
            }
            k = k + 2;
        } else {
            proof {
                assert(pre.skip(1) =~= text@.subrange(k + 1, b as int));
            }
            if byte == 13 || byte == 10 {
                cur = cur.next_line();
            } else if 128 <= byte && byte <= 191 {
            } else if byte == 9 {
                cur = match cur {
                    Location::LineColumn { line, column } => {
                        if column >= 1 {
                            let rem = (column - 1) % tab;
                            Location::LineColumn {
                                line,
                                column: if column <= u32::MAX - (tab - rem) {
                                    column + (tab - rem)
                                } else {
                                    u32::MAX
                                },
                            }
                        } else {
                            Location::LineColumn { line, column }
                        }
                    },
                    Location::CharacterIndex { index: _ } => cur.advance(1),
                };
                proof {
                    assert(cur == tab_advance(prev, tab));
                }
            } else {
                cur = cur.advance(1);
            }
            k = k + 1;
        }
    }
    proof {
        assert(text@.subrange(k as int, b as int) =~= Seq::<u8>::empty());
    }
    cur
}

/// Why the input bytes could not be decoded safely.
#[derive(Debug, Clone, Copy, PartialEq, Eq, Structural)]
pub enum UnsafeCharacterEncoding {
    /// A malformed or truncated UTF-8 sequence.
    IncompleteUTF8Sequence,
    /// A UTF-16 surrogate encoded as UTF-8.
    StraySurrogate,
    /// A byte-order mark inside the stream.
    BOM,
}

/// Which unsafe-encoding case the bytes at `i` show.
pub open spec fn unsafe_variant(input: Seq<u8>, i: int) -> UnsafeCharacterEncoding {
    if decode_scalar(input, i) is Some {
        UnsafeCharacterEncoding::BOM
    } else if 0 <= i < input.len() && input[i] == 0xED && i + 1 < input.len() && 0xA0 <= input[i
        + 1] <= 0xBF {
        UnsafeCharacterEncoding::StraySurrogate
    } else {
        UnsafeCharacterEncoding::IncompleteUTF8Sequence
    }
}

/// Positions of line continuations, embedded newlines and embedded tabs
/// found during tokenization. This bookkeeping is advisory: parse results
/// do not depend on it.
#[derive(Debug)]
pub struct TrackedSourceLocations {
    pub simple_line_continuations: std::collections::HashSet<Location>,
    pub complex_line_continuations: std::collections::HashSet<Location>,
    pub embedded_newlines: std::collections::HashSet<Location>,
    pub embedded_tabs: std::collections::HashSet<Location>,
}

/// Whether a tracked-location record holds nothing.
pub open spec fn tracked_empty(t: TrackedSourceLocations) -> bool {
    &&& t.simple_line_continuations@ == Set::<Location>::empty()
    &&& t.complex_line_continuations@ == Set::<Location>::empty()
    &&& t.embedded_newlines@ == Set::<Location>::empty()
    &&& t.embedded_tabs@ == Set::<Location>::empty()
}

impl TrackedSourceLocations {
    /// No tracked locations.
    pub fn new() -> (r: TrackedSourceLocations)
        ensures
            tracked_empty(r),
    {
        TrackedSourceLocations {
            simple_line_continuations: std::collections::HashSet::new(),
            complex_line_continuations: std::collections::HashSet::new(),
            embedded_newlines: std::collections::HashSet::new(),
            embedded_tabs: std::collections::HashSet::new(),
        }
    }
}

/// The starting location under each source convention.
pub open spec fn start_location(conv: crate::source::SourceConvention) -> Location {
    match conv {
        crate::source::SourceConvention::LineColumn => Location::LineColumn {
            line: 1u32,
            column: 1u32,
        },
        crate::source::SourceConvention::CharacterIndex => Location::CharacterIndex {
            index: 0u32,
        },
    }
}

/// Copies the bytes in `[a, b)` out of a vector.
pub fn bytes_range(v: &Vec<u8>, a: usize, b: usize) -> (r: Vec<u8>)
    requires
        a <= b <= v@.len(),
    ensures
        r@ == v@.subrange(a as int, b as int),
{
    let mut out: Vec<u8> = Vec::new();
    let mut k = a;
    while k < b
        invariant
            a <= k <= b <= v@.len(),
            out@ == v@.subrange(a as int, k as int),
        decreases b - k,
    {
        out.push(v[k]);
        proof {
            assert(out@ =~= v@.subrange(a as int, k + 1));
        }
        k = k + 1;
    }
    out
}

/// The tokenizer: the input bytes, the read position, and the source
/// location reached so far.
#[derive(Debug)]
pub struct Tokenizer {
    pub input: Vec<u8>,
    pub pos: usize,
    pub loc: Location,
    pub conv: crate::source::SourceConvention,
    pub tab_width: u32,
    /// Whether the tokenizer is at the top level, where a newline separates
    /// expressions; the parser clears this inside groups and operators.
    pub top: bool,
    /// Set as soon as a token with an unsafe character encoding is read.
    pub unsafe_character_encoding_flag: Option<UnsafeCharacterEncoding>,
    pub tracked_locations: TrackedSourceLocations,
}

impl Tokenizer {
    /// The tokenizer's invariant: the position is inside the input and
    /// the tab width is positive.
    pub open spec fn wf(self) -> bool {
        &&& self.pos <= self.input@.len()
        &&& self.tab_width >= 1
    }

    /// A fresh tokenizer at the start of the input. A tab width of zero is
    /// treated as one.
    pub fn new(
        input: Vec<u8>,
        conv: crate::source::SourceConvention,
        tab_width: u32,
    ) -> (r: Tokenizer)
        ensures
            r.wf(),
            r.pos == 0,
            r.input == input,
            r.conv == conv,
            r.top,
            r.tab_width == if tab_width >= 1 {
                tab_width
            } else {
                1u32
            },
            r.unsafe_character_encoding_flag is None,
            r.loc == start_location(conv),
    {
        let w: u32 = if tab_width >= 1 {
            tab_width
        } else {
            1
        };
        let loc = match conv {
            crate::source::SourceConvention::LineColumn => Location::LineColumn {
                line: 1,
                column: 1,
            },
            crate::source::SourceConvention::CharacterIndex => Location::CharacterIndex {
                index: 0,
            },
        };
        let r = Tokenizer {
            input,
            pos: 0,
            loc,
            conv,
            tab_width: w,
            top: true,
            unsafe_character_encoding_flag: None,
            tracked_locations: TrackedSourceLocations::new(),
        };
        r
    }

    /// Reads the next token: its kind and end position are exactly what
    /// [`scan`] gives at the current position, its text is exactly the
    /// bytes it covers, and its span runs from the location before to the
    /// location after. Reading at the end of the input yields an
    /// end-of-file token covering nothing.
    pub fn next_token(&mut self) -> (t: Token)
        requires
            old(self).wf(),
        ensures
            final(self).wf(),
            final(self).input == old(self).input,
            final(self).conv == old(self).conv,
            final(self).tab_width == old(self).tab_width,
            final(self).top == old(self).top,
            ({
                let s = scan(old(self).input@, old(self).pos as int, old(self).top);
                &&& t.tok == s.kind
                &&& final(self).pos as int == s.end
                &&& t.text@ == old(self).input@.subrange(old(self).pos as int, s.end)
                &&& t.src.start_loc == old(self).loc
                &&& t.src.end_loc == loc_after(
                    old(self).loc,
                    old(self).input@.subrange(old(self).pos as int, s.end),
                    old(self).tab_width,
                )
                &&& final(self).loc == t.src.end_loc
            }),
            old(self).pos < old(self).input@.len() ==> old(self).pos < final(self).pos,
            old(self).pos >= old(self).input@.len() ==> final(self).pos == old(self).pos && t.tok
                is EndOfFile,
            final(self).unsafe_character_encoding_flag == (if t.tok is Error_UnsafeCharacterEncoding
                && old(self).unsafe_character_encoding_flag is None {
                Some(unsafe_variant(old(self).input@, old(self).pos as int))
            } else {
                old(self).unsafe_character_encoding_flag
            }),
    {
        let start = self.pos;
        let (kind, end) = ex_scan(&self.input, start, self.top);
        let text = bytes_range(&self.input, start, end);
        let new_loc = ex_advance_loc(self.loc, &self.input, start, end, self.tab_width);
        let start_loc = self.loc;
        self.pos = end;
        self.loc = new_loc;
        if matches!(kind, TokenKind::Error_UnsafeCharacterEncoding)
            && self.unsafe_character_encoding_flag.is_none() {
            let v = if let Some(_) = ex_decode_scalar_opt(&self.input, start) {
                UnsafeCharacterEncoding::BOM
            } else if start < self.input.len() && self.input[start] == 0xED && start + 1
                < self.input.len() && 0xA0 <= self.input[start + 1] && self.input[start + 1]
                <= 0xBF {
                UnsafeCharacterEncoding::StraySurrogate
            } else {
                UnsafeCharacterEncoding::IncompleteUTF8Sequence
            };
            self.unsafe_character_encoding_flag = Some(v);
        }
        Token { tok: kind, text, src: Span { start_loc, end_loc: new_loc } }
    }
}

/// Decodes a scalar if the position is inside the input.
fn ex_decode_scalar_opt(input: &Vec<u8>, i: usize) -> (r: Option<(u32, usize)>)
    ensures
        r is Some <==> decode_scalar(input@, i as int) is Some,
{
    if i < input.len() {
        ex_decode_scalar(input, i)
    } else {
        None
    }
}


/// One entry of the token stream: a kind and the byte range it covers.
pub ghost struct LexEntry {
    pub kind: TokenKind,
    pub start: int,
    pub end: int,
}

/// The whole token stream from position `i` to the end of the input, as
/// maximal-munch scanning produces it. A scan that would not advance is
/// forced one byte forward, which never happens for the scanner above.
pub open spec fn lex_all(input: Seq<u8>, i: int) -> Seq<LexEntry>
    decreases input.len() - i,
{
    if i < 0 || i >= input.len() {
        Seq::empty()
    } else {
        let s = scan(input, i, true);
        let j = if i < s.end <= input.len() {
            s.end
        } else {
            i + 1
        };
        seq![LexEntry { kind: s.kind, start: i, end: j }] + lex_all(input, j)
    }
}

/// The first position at or after `i` holding a newline byte, or the end
/// of the input.
pub open spec fn line_end(input: Seq<u8>, i: int) -> int
    decreases input.len() - i,
{
    if 0 <= i < input.len() && input[i] != 10 && input[i] != 13 {
        line_end(input, i + 1)
    } else {
        i
    }
}

/// Whether the input begins with a `#!` line that the first-line policy
/// asks to consume.
pub open spec fn has_shebang(input: Seq<u8>, skip_shebang: bool) -> bool {
    skip_shebang && input.len() >= 2 && input[0] == 35 && input[1] == 33
}

/// The full entry stream of an input: a leading `#!` line becomes one
/// comment entry, and the rest is scanned normally.
pub open spec fn entry_stream(input: Seq<u8>, skip_shebang: bool) -> Seq<LexEntry> {
    if has_shebang(input, skip_shebang) {
        let e = line_end(input, 0);
        seq![LexEntry { kind: TokenKind::Comment, start: 0, end: e }] + lex_all(input, e)
    } else {
        lex_all(input, 0)
    }
}

/// Whether the tokens are exactly the given entries: kind for kind, the
/// text the exact bytes covered, and the spans chained from `loc0`.
pub open spec fn tokens_correspond(
    input: Seq<u8>,
    tab: u32,
    es: Seq<LexEntry>,
    ts: Seq<Token>,
    loc0: Location,
) -> bool
    decreases es.len(),
{
    if es.len() == 0 {
        ts.len() == 0
    } else {
        &&& ts.len() == es.len()
        &&& ts[0].tok == es[0].kind
        &&& ts[0].text@ == input.subrange(es[0].start, es[0].end)
        &&& ts[0].src.start_loc == loc0
        &&& ts[0].src.end_loc == loc_after(loc0, input.subrange(es[0].start, es[0].end), tab)
        &&& tokens_correspond(input, tab, es.drop_first(), ts.drop_first(), ts[0].src.end_loc)
    }
}

/// The location where the token after the given ones starts.
pub open spec fn chain_end(ts: Seq<Token>, loc0: Location) -> Location {
    if ts.len() == 0 {
        loc0
    } else {
        ts.last().src.end_loc
    }
}

/// Correspondence extends by one matching token at the back.
proof fn lemma_correspond_snoc(
    input: Seq<u8>,
    tab: u32,
    es: Seq<LexEntry>,
    ts: Seq<Token>,
    loc0: Location,
    e: LexEntry,
    tk: Token,
)
    requires
        tokens_correspond(input, tab, es, ts, loc0),
        tk.tok == e.kind,
        tk.text@ == input.subrange(e.start, e.end),
        tk.src.start_loc == chain_end(ts, loc0),
        tk.src.end_loc == loc_after(chain_end(ts, loc0), input.subrange(e.start, e.end), tab),
    ensures
        tokens_correspond(input, tab, es.push(e), ts.push(tk), loc0),
    decreases es.len(),
{
    if es.len() == 0 {
        assert(ts.len() == 0);
        assert(es.push(e)[0] == e);
        assert(ts.push(tk)[0] == tk);
        assert(es.push(e).drop_first() =~= Seq::<LexEntry>::empty());
        assert(ts.push(tk).drop_first() =~= Seq::<Token>::empty());
        assert(tokens_correspond(
            input,
            tab,
            Seq::<LexEntry>::empty(),
            Seq::<Token>::empty(),
            tk.src.end_loc,
        ));
        assert(tokens_correspond(input, tab, es.push(e), ts.push(tk), loc0));
    } else {
        assert(es.push(e).drop_first() =~= es.drop_first().push(e));
        assert(ts.push(tk).drop_first() =~= ts.drop_first().push(tk));
        assert(chain_end(ts.drop_first(), ts[0].src.end_loc) == chain_end(ts, loc0));
        lemma_correspond_snoc(
            input,
            tab,
            es.drop_first(),
            ts.drop_first(),
            ts[0].src.end_loc,
            e,
            tk,
        );
        assert(es.push(e)[0] == es[0]);
        assert(ts.push(tk)[0] == ts[0]);
        assert(tokens_correspond(input, tab, es.push(e), ts.push(tk), loc0));
    }
}

/// The unsafe-encoding case of the first entry whose kind reports one.
pub open spec fn first_unsafe(input: Seq<u8>, es: Seq<LexEntry>) -> Option<
    UnsafeCharacterEncoding,
>
    decreases es.len(),
{
    if es.len() == 0 {
        None
    } else if es[0].kind is Error_UnsafeCharacterEncoding {
        Some(unsafe_variant(input, es[0].start))
    } else {
        first_unsafe(input, es.drop_first())
    }
}

/// Appending one entry can only report a case when none came before it.
proof fn lemma_first_unsafe_push(input: Seq<u8>, es: Seq<LexEntry>, e: LexEntry)
    ensures
        first_unsafe(input, es.push(e)) == (if first_unsafe(input, es) is Some {
            first_unsafe(input, es)
        } else if e.kind is Error_UnsafeCharacterEncoding {
            Some(unsafe_variant(input, e.start))
        } else {
            None
        }),
    decreases es.len(),
{
    if es.len() == 0 {
        assert(es.push(e).drop_first() =~= Seq::<LexEntry>::empty());
    } else {
        assert(es.push(e).drop_first() =~= es.drop_first().push(e));
        lemma_first_unsafe_push(input, es.drop_first(), e);
    }
}

/// The concatenated texts of a token sequence.
pub open spec fn concat_texts(ts: Seq<Token>) -> Seq<u8>
    decreases ts.len(),
{
    if ts.len() == 0 {
        Seq::empty()
    } else {
        ts[0].text@ + concat_texts(ts.drop_first())
    }
}

/// Every entry stays inside the input, starts where asked, advances, and
/// ends where the next entry starts; the last entry ends at the input's
/// end.
#[verifier::rlimit(100)]
proof fn lemma_lex_all_partition(input: Seq<u8>, i: int)
    requires
        0 <= i <= input.len(),
    ensures
        ({
            let es = lex_all(input, i);
            &&& (es.len() == 0 <==> i >= input.len())
            &&& es.len() > 0 ==> es[0].start == i
            &&& forall|k: int|
                0 <= k < es.len() ==> (#[trigger] es[k]).start < es[k].end <= input.len()
            &&& forall|k: int|
                0 <= k < es.len() ==> (#[trigger] es[k]).end == (if k + 1 < es.len() {
                    es[k + 1].start
                } else {
                    input.len() as int
                })
        }),
    decreases input.len() - i,
{
    if i < input.len() {
        let s = scan(input, i, true);
        let j = if i < s.end <= input.len() {
            s.end
        } else {
            i + 1
        };
        lemma_lex_all_partition(input, j);
        let es = lex_all(input, i);
        let rest = lex_all(input, j);
        assert(es =~= seq![LexEntry { kind: s.kind, start: i, end: j }] + rest);
        assert forall|k: int| 0 <= k < es.len() implies (#[trigger] es[k]).start < es[k].end
            <= input.len() by {
            if k > 0 {
                assert(es[k] == rest[k - 1]);
            }
        }
        assert forall|k: int| 0 <= k < es.len() implies (#[trigger] es[k]).end == (if k + 1
            < es.len() {
            es[k + 1].start
        } else {
            input.len() as int
        }) by {
            if k > 0 {
                assert(es[k] == rest[k - 1]);
            } else {
                if rest.len() > 0 {
                    assert(es[1] == rest[0]);
                }
            }
        }
    }
}

/// Tokens that correspond to the stream from `i` concatenate back to the
/// input bytes from `i` on: tokenization is lossless.
proof fn lemma_lex_concat(input: Seq<u8>, tab: u32, ts: Seq<Token>, i: int, loc0: Location)
    requires
        0 <= i <= input.len(),
        tokens_correspond(input, tab, lex_all(input, i), ts, loc0),
    ensures
        concat_texts(ts) == input.subrange(i, input.len() as int),
    decreases ts.len(),
{
    let es = lex_all(input, i);
    if es.len() == 0 {
        assert(i >= input.len()) by {
            lemma_lex_all_partition(input, i);
        }
        assert(input.subrange(i, input.len() as int) =~= Seq::<u8>::empty());
    } else {
        let s = scan(input, i, true);
        let j = if i < s.end <= input.len() {
            s.end
        } else {
            i + 1
        };
        let rest = lex_all(input, j);
        assert(es == seq![LexEntry { kind: s.kind, start: i, end: j }] + rest);
        assert(es.drop_first() =~= rest);
        lemma_lex_concat(input, tab, ts.drop_first(), j, ts[0].src.end_loc);
        assert(es[0] == LexEntry { kind: s.kind, start: i, end: j });
        assert(ts[0].text@ == input.subrange(i, j));
        assert(input.subrange(i, j) + input.subrange(j, input.len() as int) =~= input.subrange(
            i,
            input.len() as int,
        ));
    }
}

/// The first position at or after `i` holding a newline byte.
pub fn ex_line_end_pub(input: &Vec<u8>, i: usize) -> (r: usize)
    requires
        i <= input@.len(),
    ensures
        r == line_end(input@, i as int),
        i <= r <= input@.len(),
{
    let mut j = i;
    while j < input.len() && input[j] != 10 && input[j] != 13
        invariant
            i <= j <= input@.len(),
            line_end(input@, i as int) == line_end(input@, j as int),
        decreases input@.len() - j,
    {
        j = j + 1;
    }
    proof {
        assert(line_end(input@, j as int) == j as int);
    }
    j
}

/// Tokenizes the whole input: the tokens are exactly the entry stream,
/// with exact texts and chained spans, so that concatenating their texts
/// gives back the input byte for byte. Also reports the first unsafe
/// character encoding found, if any.
#[verifier::loop_isolation(false)]
pub fn tokenize_core(
    input: Vec<u8>,
    conv: crate::source::SourceConvention,
    tab_width: u32,
    skip_shebang: bool,
) -> (r: (Vec<Token>, Option<UnsafeCharacterEncoding>))
    ensures
        ({
            let tab = if tab_width >= 1 {
                tab_width
            } else {
                1u32
            };
            &&& tokens_correspond(
                input@,
                tab,
                entry_stream(input@, skip_shebang),
                r.0@,
                start_location(conv),
            )
            &&& r.1 == first_unsafe(input@, entry_stream(input@, skip_shebang))
            &&& concat_texts(r.0@) == input@
        }),
{
    let ghost input0 = input@;
    let ghost loc0 = start_location(conv);
    let ghost es = entry_stream(input@, skip_shebang);
    let mut tk = Tokenizer::new(input, conv, tab_width);
    let ghost tab = tk.tab_width;
    let mut ts: Vec<Token> = Vec::new();
    let ghost mut es_done: Seq<LexEntry> = Seq::empty();
    proof {
        assert(tokens_correspond(input0, tab, Seq::empty(), Seq::empty(), loc0));
        assert(first_unsafe(input0, Seq::empty()) is None);
    }
    if skip_shebang && tk.input.len() >= 2 && tk.input[0] == 35 && tk.input[1] == 33 {
        let e = ex_line_end_pub(&tk.input, 0);
        let text = bytes_range(&tk.input, 0, e);
        let end_loc = ex_advance_loc(tk.loc, &tk.input, 0, e, tk.tab_width);
        let start_loc = tk.loc;
        ts.push(Token { tok: TokenKind::Comment, text, src: Span { start_loc, end_loc } });
        tk.pos = e;
        tk.loc = end_loc;
        proof {
            let she = LexEntry { kind: TokenKind::Comment, start: 0, end: e as int };
            lemma_correspond_snoc(input0, tab, Seq::empty(), Seq::empty(), loc0, she, ts@[0]);
            assert(Seq::<LexEntry>::empty().push(she) =~= seq![she]);
            assert(Seq::<Token>::empty().push(ts@[0]) =~= ts@);
            es_done = seq![she];
            assert(es =~= es_done + lex_all(input0, tk.pos as int));
            assert(ts@.last() == ts@[0]);
            assert(chain_end(ts@, loc0) == tk.loc);
            assert(es_done.drop_first() =~= Seq::<LexEntry>::empty());
            assert(first_unsafe(input0, Seq::empty()) is None);
            assert(first_unsafe(input0, es_done) is None);
        }
    } else {
        proof {
            assert(es =~= es_done + lex_all(input0, tk.pos as int));
        }
    }
    while tk.pos < tk.input.len()
        invariant
            tk.wf(),
            tk.top,
            tk.conv == conv,
            tk.tab_width == tab,
            tk.input@ == input0,
            tokens_correspond(input0, tab, es_done, ts@, loc0),
            es == es_done + lex_all(input0, tk.pos as int),
            chain_end(ts@, loc0) == tk.loc,
            ts@.len() == es_done.len(),
            tk.unsafe_character_encoding_flag == first_unsafe(input0, es_done),
        decreases input0.len() - tk.pos,
    {
        let ghost oldpos = tk.pos as int;
        let ghost oldloc = tk.loc;
        let tkn = tk.next_token();
        let ghost s = scan(input0, oldpos, true);
        let ghost e = LexEntry { kind: tkn.tok, start: oldpos, end: tk.pos as int };
        proof {
            assert(lex_all(input0, oldpos) == seq![
                LexEntry { kind: s.kind, start: oldpos, end: s.end },
            ] + lex_all(input0, s.end));
            assert(e == LexEntry { kind: s.kind, start: oldpos, end: s.end });
            lemma_correspond_snoc(input0, tab, es_done, ts@, loc0, e, tkn);
            lemma_first_unsafe_push(input0, es_done, e);
        }
        ts.push(tkn);
        proof {
            es_done = es_done.push(e);
            assert(es =~= es_done + lex_all(input0, tk.pos as int));
        }
    }
    proof {
        assert(lex_all(input0, tk.pos as int) =~= Seq::<LexEntry>::empty());
        assert(es =~= es_done);
        if has_shebang(input0, skip_shebang) {
            let eol = line_end(input0, 0);
            assert(es == seq![
                LexEntry { kind: TokenKind::Comment, start: 0, end: eol },
            ] + lex_all(input0, eol));
            assert(es.drop_first() =~= lex_all(input0, eol));
            assert(ts@.len() == es.len());
            if ts@.len() > 0 {
                lemma_lex_concat(input0, tab, ts@.drop_first(), eol, ts@[0].src.end_loc);
                assert(concat_texts(ts@) == ts@[0].text@ + concat_texts(ts@.drop_first()));
                assert(ts@[0].text@ + input0.subrange(eol, input0.len() as int)
                    =~= input0);
            }
        } else {
            lemma_lex_concat(input0, tab, ts@, 0, loc0);
            assert(input0.subrange(0, input0.len() as int) =~= input0);
        }
    }
    (ts, tk.unsafe_character_encoding_flag)
}

} // verus!
