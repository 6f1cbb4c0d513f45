//! Detection and decoding of paclet containers: Wolfram Language sources
//! compressed with a fixed Huffman code and packed two characters per 13-bit
//! group in base 95, between a short header and the payload.
//!
//! The inverse direction, [`encode_paclet`], produces the same container
//! format from plain source text.

use vstd::prelude::*;
use crate::error_handling::{EncodingError, ParseError};
use crate::strutil::string_push;

verus! {

/// The fixed Huffman code: for each of the 128 ASCII characters, the length
/// of its code in bits and the code itself, most significant bit first.
pub open spec fn huffman_table_spec() -> Seq<(u32, u32)> {
    seq![
        (22u32, 4151554u32), (22u32, 4151555u32), (22u32, 4151556u32), (22u32, 4151557u32),
        (22u32, 4151558u32), (22u32, 4151559u32), (22u32, 4151560u32), (22u32, 4151561u32),
        (22u32, 4151562u32), (5u32, 7u32), (5u32, 21u32), (22u32, 4151563u32),
        (22u32, 4151564u32), (22u32, 4151565u32), (22u32, 4151566u32), (22u32, 4151567u32),
        (22u32, 4151568u32), (22u32, 4151569u32), (22u32, 4151570u32), (22u32, 4151571u32),
        (22u32, 4151572u32), (22u32, 4151573u32), (22u32, 4151574u32), (22u32, 4151575u32),
        (22u32, 4151576u32), (22u32, 4151577u32), (22u32, 4151578u32), (22u32, 4151579u32),
        (22u32, 4151580u32), (22u32, 4151581u32), (22u32, 4151582u32), (22u32, 4151583u32),
        (3u32, 6u32), (11u32, 773u32), (7u32, 3u32), (11u32, 1463u32),
        (12u32, 2924u32), (13u32, 8109u32), (10u32, 1012u32), (14u32, 16216u32),
        (7u32, 36u32), (7u32, 37u32), (8u32, 236u32), (8u32, 190u32),
        (5u32, 28u32), (7u32, 123u32), (7u32, 119u32), (7u32, 79u32),
        (6u32, 44u32), (6u32, 60u32), (6u32, 22u32), (7u32, 94u32),
        (7u32, 90u32), (7u32, 46u32), (7u32, 2u32), (7u32, 49u32),
        (7u32, 47u32), (7u32, 33u32), (7u32, 117u32), (8u32, 191u32),
        (12u32, 2925u32), (6u32, 21u32), (8u32, 124u32), (12u32, 4052u32),
        (13u32, 4068u32), (9u32, 157u32), (9u32, 474u32), (7u32, 38u32),
        (9u32, 367u32), (9u32, 194u32), (9u32, 314u32), (9u32, 192u32),
        (10u32, 630u32), (8u32, 125u32), (12u32, 1545u32), (12u32, 4055u32),
        (9u32, 364u32), (9u32, 507u32), (9u32, 366u32), (10u32, 509u32),
        (8u32, 252u32), (10u32, 511u32), (8u32, 126u32), (7u32, 32u32),
        (8u32, 79u32), (12u32, 2035u32), (11u32, 1016u32), (10u32, 631u32),
        (17u32, 129737u32), (12u32, 1544u32), (16u32, 64869u32), (5u32, 5u32),
        (12u32, 4053u32), (5u32, 6u32), (8u32, 156u32), (7u32, 116u32),
        (10u32, 387u32), (5u32, 17u32), (7u32, 40u32), (6u32, 25u32),
        (7u32, 122u32), (4u32, 1u32), (7u32, 77u32), (7u32, 125u32),
        (6u32, 2u32), (5u32, 20u32), (9u32, 156u32), (9u32, 475u32),
        (6u32, 46u32), (6u32, 17u32), (5u32, 18u32), (5u32, 13u32),
        (6u32, 30u32), (10u32, 730u32), (5u32, 14u32), (5u32, 4u32),
        (5u32, 16u32), (6u32, 3u32), (7u32, 41u32), (9u32, 195u32),
        (7u32, 124u32), (7u32, 76u32), (10u32, 510u32), (7u32, 127u32),
        (13u32, 4069u32), (6u32, 0u32), (15u32, 32435u32), (21u32, 2075776u32),
    ]
}

/// The same table as an executable vector.
pub fn huffman_table() -> (t: Vec<(u32, u32)>)
    ensures
        t@ == huffman_table_spec(),
{
    let t: Vec<(u32, u32)> = vec![
        (22u32, 4151554u32), (22u32, 4151555u32), (22u32, 4151556u32), (22u32, 4151557u32),
        (22u32, 4151558u32), (22u32, 4151559u32), (22u32, 4151560u32), (22u32, 4151561u32),
        (22u32, 4151562u32), (5u32, 7u32), (5u32, 21u32), (22u32, 4151563u32),
        (22u32, 4151564u32), (22u32, 4151565u32), (22u32, 4151566u32), (22u32, 4151567u32),
        (22u32, 4151568u32), (22u32, 4151569u32), (22u32, 4151570u32), (22u32, 4151571u32),
        (22u32, 4151572u32), (22u32, 4151573u32), (22u32, 4151574u32), (22u32, 4151575u32),
        (22u32, 4151576u32), (22u32, 4151577u32), (22u32, 4151578u32), (22u32, 4151579u32),
        (22u32, 4151580u32), (22u32, 4151581u32), (22u32, 4151582u32), (22u32, 4151583u32),
        (3u32, 6u32), (11u32, 773u32), (7u32, 3u32), (11u32, 1463u32),
        (12u32, 2924u32), (13u32, 8109u32), (10u32, 1012u32), (14u32, 16216u32),
        (7u32, 36u32), (7u32, 37u32), (8u32, 236u32), (8u32, 190u32),
        (5u32, 28u32), (7u32, 123u32), (7u32, 119u32), (7u32, 79u32),
        (6u32, 44u32), (6u32, 60u32), (6u32, 22u32), (7u32, 94u32),
        (7u32, 90u32), (7u32, 46u32), (7u32, 2u32), (7u32, 49u32),
        (7u32, 47u32), (7u32, 33u32), (7u32, 117u32), (8u32, 191u32),
        (12u32, 2925u32), (6u32, 21u32), (8u32, 124u32), (12u32, 4052u32),
        (13u32, 4068u32), (9u32, 157u32), (9u32, 474u32), (7u32, 38u32),
        (9u32, 367u32), (9u32, 194u32), (9u32, 314u32), (9u32, 192u32),
        (10u32, 630u32), (8u32, 125u32), (12u32, 1545u32), (12u32, 4055u32),
        (9u32, 364u32), (9u32, 507u32), (9u32, 366u32), (10u32, 509u32),
        (8u32, 252u32), (10u32, 511u32), (8u32, 126u32), (7u32, 32u32),
        (8u32, 79u32), (12u32, 2035u32), (11u32, 1016u32), (10u32, 631u32),
        (17u32, 129737u32), (12u32, 1544u32), (16u32, 64869u32), (5u32, 5u32),
        (12u32, 4053u32), (5u32, 6u32), (8u32, 156u32), (7u32, 116u32),
        (10u32, 387u32), (5u32, 17u32), (7u32, 40u32), (6u32, 25u32),
        (7u32, 122u32), (4u32, 1u32), (7u32, 77u32), (7u32, 125u32),
        (6u32, 2u32), (5u32, 20u32), (9u32, 156u32), (9u32, 475u32),
        (6u32, 46u32), (6u32, 17u32), (5u32, 18u32), (5u32, 13u32),
        (6u32, 30u32), (10u32, 730u32), (5u32, 14u32), (5u32, 4u32),
        (5u32, 16u32), (6u32, 3u32), (7u32, 41u32), (9u32, 195u32),
        (7u32, 124u32), (7u32, 76u32), (10u32, 510u32), (7u32, 127u32),
        (13u32, 4069u32), (6u32, 0u32), (15u32, 32435u32), (21u32, 2075776u32),
    ];
    proof {
        assert(t@ =~= huffman_table_spec());
    }
    t
}

/// Whether the code of `len` bits with value `val` (most significant bit
/// first) appears in `bits` starting at position `i`.
pub open spec fn code_matches(bits: Seq<bool>, i: int, len: u32, val: u32) -> bool {
    &&& i + len <= bits.len()
    &&& forall|k: int|
        0 <= k < len ==> #[trigger] bits[i + k] == (((val >> ((len - 1 - k) as u32)) & 1u32)
            == 1u32)
}

/// Decodes the bit stream from position `i`, having already ruled out the
/// codes of the characters below `c`: the first code that matches is
/// emitted and decoding restarts after it; the end-of-transmission
/// character (code 4) and dead ends both stop the decoding.
pub open spec fn decode_step(bits: Seq<bool>, i: int, c: int) -> Seq<char>
    decreases bits.len() - i, 128 - c,
{
    if c < 0 || c >= 128 || i < 0 || i > bits.len() {
        Seq::empty()
    } else {
        let l = huffman_table_spec()[c].0;
        let v = huffman_table_spec()[c].1;
        if l > 0 && code_matches(bits, i, l, v) {
            if c == 4 {
                Seq::empty()
            } else {
                seq![(c as u8) as char] + decode_step(bits, i + l, 0)
            }
        } else {
            decode_step(bits, i, c + 1)
        }
    }
}

/// Whether the given code matches `bits` at position `i`.
fn code_match_at(bits: &Vec<bool>, i: usize, len: u32, val: u32) -> (r: bool)
    requires
        i <= bits@.len(),
        len <= 22,
    ensures
        r == code_matches(bits@, i as int, len, val),
{
    if bits.len() - i < len as usize {
        return false;
    }
    proof {
        assert(bits@.len() == bits.len());
    }
    let mut k: usize = 0;
    while k < len as usize
        invariant
            bits@.len() <= usize::MAX,
            i + len <= bits@.len(),
            len <= 22,
            k <= len,
            forall|j: int|
                0 <= j < k ==> #[trigger] bits@[i + j] == (((val >> ((len - 1 - j) as u32))
                    & 1u32) == 1u32),
        decreases len as int - k,
    {
        let bit = ((val >> (len - 1 - k as u32)) & 1) == 1;
        if bits[i + k] != bit {
            return false;
        }
        k = k + 1;
    }
    true
}

/// Finds the character whose code matches `bits` at `i`, together with the
/// code's length, or reports that no code matches.
fn find_code(bits: &Vec<bool>, i: usize, table: &Vec<(u32, u32)>) -> (r: Option<(u8, u32)>)
    requires
        i <= bits@.len(),
        table@ == huffman_table_spec(),
    ensures
        r is None ==> decode_step(bits@, i as int, 0) == Seq::<char>::empty(),
        r matches Some((c, l)) ==> ({
            &&& c < 128
            &&& huffman_table_spec()[c as int].0 == l
            &&& l > 0
            &&& code_matches(bits@, i as int, l, huffman_table_spec()[c as int].1)
            &&& decode_step(bits@, i as int, 0) == decode_step(bits@, i as int, c as int)
        }),
{
    let mut c: usize = 0;
    while c < 128
        invariant
            i <= bits@.len(),
            table@ == huffman_table_spec(),
            c <= 128,
            decode_step(bits@, i as int, 0) == decode_step(bits@, i as int, c as int),
        decreases 128 - c,
    {
        let l = table[c].0;
        let v = table[c].1;
        assert(l <= 22) by {
            assert(huffman_table_spec()[c as int].0 <= 22);
        }
        if l > 0 && code_match_at(bits, i, l, v) {
            return Some((c as u8, l));
        }
        proof {
            assert(decode_step(bits@, i as int, c as int) == decode_step(
                bits@,
                i as int,
                c as int + 1,
            ));
        }
        c = c + 1;
    }
    proof {
        assert(decode_step(bits@, i as int, 128) == Seq::<char>::empty());
    }
    None
}

/// Decodes a whole bit stream with the Huffman code.
fn huffman_decode(bits: &Vec<bool>) -> (out: Vec<char>)
    ensures
        out@ == decode_step(bits@, 0, 0),
{
    let table = huffman_table();
    let mut out: Vec<char> = Vec::new();
    proof {
        assert(bits@.len() == bits.len());
    }
    let mut i: usize = 0;
    loop
        invariant_except_break
            bits@.len() <= usize::MAX,
            i <= bits@.len(),
            table@ == huffman_table_spec(),
            decode_step(bits@, 0, 0) == out@ + decode_step(bits@, i as int, 0),
        ensures
            out@ == decode_step(bits@, 0, 0),
        decreases bits@.len() - i,
    {
        match find_code(bits, i, &table) {
            None => {
                proof {
                    assert(decode_step(bits@, 0, 0) =~= out@);
                }
                break;
            },
            Some((c, l)) => {
                if c == 4 {
                    proof {
                        assert(decode_step(bits@, i as int, c as int) == Seq::<char>::empty());
                        assert(decode_step(bits@, 0, 0) =~= out@);
                    }
                    break;
                }
                proof {
                    assert(decode_step(bits@, i as int, c as int) == seq![(c as u8) as char]
                        + decode_step(bits@, i + huffman_table_spec()[c as int].0, 0));
                }
                out.push(c as char);
                let ghost old_out = out@;
                i = i + l as usize;
                proof {
                    assert(decode_step(bits@, 0, 0) =~= out@ + decode_step(
                        bits@,
                        i as int,
                        0,
                    ));
                }
            },
        }
    }
    out
}

/// The 13 or 14 bits that one base-95 pair `(a, b)` contributes to the bit
/// stream, least significant bit first: 13 bits normally, 14 when the pair
/// value needs them.
pub open spec fn pair_value(a: char, b: char) -> int {
    (a as u32 - 32) * 95 + (b as u32 - 32)
}

pub open spec fn pair_bits(a: char, b: char) -> Seq<bool> {
    let v = pair_value(a, b) as u32;
    let n: int = if v < 8192 {
        13
    } else {
        14
    };
    Seq::new(n as nat, |k: int| ((v >> (k as u32)) & 1u32) == 1u32)
}

/// Whether a body character is in the base-95 range (codes 32 to 126).
pub open spec fn body_char_ok(c: char) -> bool {
    32 <= (c as u32) && (c as u32) < 127
}

/// The bit stream contributed by the first `k` pairs of the cleaned body.
pub open spec fn body_bits_upto(s: Seq<char>, k: int) -> Seq<bool>
    decreases k,
{
    if k <= 0 {
        Seq::empty()
    } else {
        body_bits_upto(s, k - 1) + pair_bits(s[2 * (k - 1)], s[2 * (k - 1) + 1])
    }
}

/// The body with carriage returns and newlines removed, considering only
/// the first `k` characters.
pub open spec fn strip_newlines_upto(s: Seq<char>, k: int) -> Seq<char>
    decreases k,
{
    if k <= 0 {
        Seq::empty()
    } else if s[k - 1] == '\n' || s[k - 1] == '\r' {
        strip_newlines_upto(s, k - 1)
    } else {
        strip_newlines_upto(s, k - 1).push(s[k - 1])
    }
}

/// The body with carriage returns and newlines removed.
pub open spec fn strip_newlines(s: Seq<char>) -> Seq<char> {
    strip_newlines_upto(s, s.len() as int)
}

/// Whether the character sequence begins with the container header shape
/// `(*!` _v_ _c_ `!*)`.
pub open spec fn header_shape(cs: Seq<char>) -> bool {
    &&& cs.len() >= 8
    &&& cs[0] == '('
    &&& cs[1] == '*'
    &&& cs[2] == '!'
    &&& cs[5] == '!'
    &&& cs[6] == '*'
    &&& cs[7] == ')'
}

/// Whether the header names the one supported version and table variant.
pub open spec fn header_supported(cs: Seq<char>) -> bool {
    cs.len() >= 8 && cs[3] == '1' && cs[4] == 'N'
}

/// Whether the `mcm` mark follows the header.
pub open spec fn has_mcm(cs: Seq<char>) -> bool {
    cs.len() >= 11 && cs[8] == 'm' && cs[9] == 'c' && cs[10] == 'm'
}

/// Where the encoded body begins: after the mark, skipping one newline.
pub open spec fn body_start(cs: Seq<char>) -> int {
    if cs.len() > 11 && cs[11] == '\n' {
        12
    } else {
        11
    }
}

/// The cleaned encoded body of a container.
pub open spec fn clean_body(cs: Seq<char>) -> Seq<char> {
    strip_newlines(cs.subrange(body_start(cs), cs.len() as int))
}

/// Whether every character of the cleaned body is in the base-95 range.
pub open spec fn body_all_ok(s: Seq<char>) -> bool {
    forall|k: int| 0 <= k < s.len() ==> body_char_ok(#[trigger] s[k])
}

/// The whole bit stream of a cleaned body.
pub open spec fn paclet_bits(s: Seq<char>) -> Seq<bool> {
    body_bits_upto(s, s.len() as int / 2)
}

/// Whether a container passes every check that decoding makes.
pub open spec fn decode_paclet_ok(cs: Seq<char>) -> bool {
    &&& cs.len() >= 11
    &&& header_shape(cs)
    &&& header_supported(cs)
    &&& has_mcm(cs)
    &&& clean_body(cs).len() % 2 == 0
    &&& body_all_ok(clean_body(cs))
}

/// The plain source text that a valid container decodes to.
pub open spec fn decoded_text(cs: Seq<char>) -> Seq<char> {
    decode_step(paclet_bits(clean_body(cs)), 0, 0)
}

/// The version and table variant named in a container header.
#[derive(Debug, Clone, Copy, PartialEq, Eq, Structural)]
pub struct PackletHeader {
    pub version: char,
    pub variant: char,
}

impl PackletHeader {
    /// Only version `1` with table variant `N` is supported.
    pub fn is_supported(&self) -> (r: bool)
        ensures
            r == (self.version == '1' && self.variant == 'N'),
    {
        self.version == '1' && self.variant == 'N'
    }
}

/// Reports the header of a container, or `None` when the input does not
/// begin with the header shape.
pub fn detect_paclet_header(input: &str) -> (r: Option<PackletHeader>)
    ensures
        header_shape(input@) ==> r == Some(
            PackletHeader { version: input@[3], variant: input@[4] },
        ),
        !header_shape(input@) ==> r is None,
{
    let cs = crate::strutil::chars_of(input);
    if cs.len() < 8 {
        return None;
    }
    if *cs.get(0).unwrap() == '(' && *cs.get(1).unwrap() == '*' && *cs.get(2).unwrap() == '!'
        && *cs.get(5).unwrap() == '!' && *cs.get(6).unwrap() == '*' && *cs.get(7).unwrap()
        == ')' {
        Some(PackletHeader { version: *cs.get(3).unwrap(), variant: *cs.get(4).unwrap() })
    } else {
        None
    }
}

/// Decodes a paclet container to plain source text.
///
/// Every malformed input is reported as an encoding error: a short input, a
/// missing or unsupported header, a missing `mcm` mark, a body of odd
/// length, or a body character outside the base-95 range.
#[verifier::loop_isolation(false)]
pub fn decode_paclet(content: &str) -> (r: Result<String, ParseError>)
    ensures
        decode_paclet_ok(content@) ==> ({
            &&& r matches Ok(s)
            &&& s@ == decoded_text(content@)
        }),
        !decode_paclet_ok(content@) ==> ({
            &&& r matches Err(e)
            &&& e matches ParseError::Encoding(en)
            &&& (if content@.len() >= 11 && header_shape(content@) && !header_supported(
                content@,
            ) {
                en is UnsupportedEncoding
            } else {
                en is DecodeError
            })
        }),
{
    let cs = crate::strutil::chars_of(content);
    if cs.len() < 11 {
        return Err(ParseError::Encoding(EncodingError::DecodeError {
            details: "File too short to be a valid paclet".to_owned(),
        }));
    }
    match detect_paclet_header(content) {
        None => {
            return Err(ParseError::Encoding(EncodingError::DecodeError {
                details: "Invalid paclet header".to_owned(),
            }));
        },
        Some(h) => {
            if !h.is_supported() {
                return Err(ParseError::Encoding(EncodingError::UnsupportedEncoding {
                    encoding: "unsupported paclet version".to_owned(),
                }));
            }
        },
    }
    if !(*cs.get(8).unwrap() == 'm' && *cs.get(9).unwrap() == 'c' && *cs.get(10).unwrap()
        == 'm') {
        return Err(ParseError::Encoding(EncodingError::DecodeError {
            details: "Missing 'mcm' suffix in paclet header".to_owned(),
        }));
    }
    let bstart: usize = if cs.len() > 11 && *cs.get(11).unwrap() == '\n' {
        12
    } else {
        11
    };
    let ghost sub = cs@.subrange(bstart as int, cs@.len() as int);
    let mut clean: Vec<char> = Vec::new();
    let mut j: usize = 0;
    while j < cs.len() - bstart
        invariant
            bstart <= cs@.len(),
            j <= cs@.len() - bstart,
            sub == cs@.subrange(bstart as int, cs@.len() as int),
            clean@ == strip_newlines_upto(sub, j as int),
        decreases cs@.len() - bstart - j,
    {
        let c = *cs.get(bstart + j).unwrap();
        proof {
            assert(sub[j as int] == cs@[bstart + j]);
        }
        if c != '\n' && c != '\r' {
            clean.push(c);
        }
        j = j + 1;
    }
    proof {
        assert(clean@ == clean_body(content@));
    }
    if clean.len() % 2 != 0 {
        return Err(ParseError::Encoding(EncodingError::DecodeError {
            details: "Packlet body length is not even".to_owned(),
        }));
    }
    let mut bits: Vec<bool> = Vec::new();
    let mut p: usize = 0;
    while p < clean.len() / 2
        invariant
            clean@.len() % 2 == 0,
            p <= clean@.len() / 2,
            bits@ == body_bits_upto(clean@, p as int),
            forall|k: int| 0 <= k < 2 * p ==> body_char_ok(#[trigger] clean@[k]),
        decreases clean@.len() / 2 - p,
    {
        let a = *clean.get(2 * p).unwrap();
        let b = *clean.get(2 * p + 1).unwrap();
        let ca = a as u32;
        let cb = b as u32;
        if ca < 32 || ca >= 127 || cb < 32 || cb >= 127 {
            return Err(ParseError::Encoding(EncodingError::DecodeError {
                details: "Invalid character values in paclet body".to_owned(),
            }));
        }
        let v: u32 = (ca - 32) * 95 + (cb - 32);
        let n: u32 = if v < 8192 {
            13
        } else {
            14
        };
        let ghost bits_before = bits@;
        let mut k: u32 = 0;
        while k < n
            invariant
                n <= 14,
                k <= n,
                v == pair_value(a, b) as u32,
                n == pair_bits(a, b).len(),
                bits@ == bits_before + pair_bits(a, b).subrange(0, k as int),
            decreases n - k,
        {
            bits.push(((v >> k) & 1) == 1);
            proof {
                assert(bits@ =~= bits_before + pair_bits(a, b).subrange(0, k + 1));
            }
            k = k + 1;
        }
        proof {
            assert(pair_bits(a, b).subrange(0, n as int) =~= pair_bits(a, b));
            assert(bits@ == body_bits_upto(clean@, p + 1));
        }
        p = p + 1;
    }
    proof {
        assert(bits@ == paclet_bits(clean@));
        assert(body_all_ok(clean@));
    }
    let out = huffman_decode(&bits);
    let mut s = String::new();
    let mut k: usize = 0;
    while k < out.len()
        invariant
            k <= out@.len(),
            s@ == out@.subrange(0, k as int),
        decreases out@.len() - k,
    {
        string_push(&mut s, *out.get(k).unwrap());
        proof {
            assert(s@ =~= out@.subrange(0, k + 1));
        }
        k = k + 1;
    }
    proof {
        assert(s@ =~= out@);
    }
    Ok(s)
}

/// Decodes the input when it is a supported paclet container, passes it
/// through unchanged when it has no container header, and reports an error
/// when it has a header of an unsupported version.
pub fn maybe_decode_paclet(input: &str) -> (r: Result<String, ParseError>)
    ensures
        !header_shape(input@) ==> ({
            &&& r matches Ok(s)
            &&& s@ == input@
        }),
        header_shape(input@) && !header_supported(input@) ==> ({
            &&& r matches Err(e)
            &&& e matches ParseError::Encoding(en)
            &&& en is UnsupportedEncoding
        }),
        header_shape(input@) && header_supported(input@) && decode_paclet_ok(input@) ==> ({
            &&& r matches Ok(s)
            &&& s@ == decoded_text(input@)
        }),
        header_shape(input@) && header_supported(input@) && !decode_paclet_ok(input@) ==> ({
            &&& r matches Err(e)
            &&& e matches ParseError::Encoding(en)
            &&& en is DecodeError
        }),
{
    match detect_paclet_header(input) {
        Some(h) => {
            if h.is_supported() {
                decode_paclet(input)
            } else {
                Err(ParseError::Encoding(EncodingError::UnsupportedEncoding {
                    encoding: "unsupported paclet version".to_owned(),
                }))
            }
        },
        None => Ok(input.to_owned()),
    }
}

/// The code of character `c`, most significant bit first.
pub open spec fn code_bits_of(c: int) -> Seq<bool> {
    let l = huffman_table_spec()[c].0;
    let v = huffman_table_spec()[c].1;
    Seq::new(l as nat, |k: int| ((v >> ((l - 1 - k) as u32)) & 1u32) == 1u32)
}

/// The concatenated codes of the first `k` characters of `s`.
pub open spec fn encode_bits_upto(s: Seq<char>, k: int) -> Seq<bool>
    decreases k,
{
    if k <= 0 {
        Seq::empty()
    } else {
        encode_bits_upto(s, k - 1) + code_bits_of(s[k - 1] as u32 as int)
    }
}

/// The full bit stream of an encoded text: every character's code, the
/// end-of-transmission code, and zero padding up to a multiple of 13 bits.
pub open spec fn encoded_bits(s: Seq<char>) -> Seq<bool> {
    let b = encode_bits_upto(s, s.len() as int) + code_bits_of(4);
    let pad = (13 - (b.len() as int % 13)) % 13;
    b + Seq::new(pad as nat, |k: int| false)
}

/// The bits written out as `0` and `1` characters.
pub open spec fn bits_chars(b: Seq<bool>) -> Seq<char> {
    b.map(|k: int, x: bool| if x { '1' } else { '0' })
}

/// Whether every character of the text has a code in the table.
pub open spec fn all_in_table(s: Seq<char>) -> bool {
    forall|k: int| 0 <= k < s.len() ==> (#[trigger] s[k] as u32) < 128
}

/// Appends the code of character `c` to `bits` as `0`/`1` characters.
#[verifier::loop_isolation(false)]
fn push_code(bits: &mut Vec<char>, table: &Vec<(u32, u32)>, c: u32)
    requires
        c < 128,
        table@ == huffman_table_spec(),
    ensures
        final(bits)@ == old(bits)@ + bits_chars(code_bits_of(c as int)),
{
    let l = table[c as usize].0;
    let v = table[c as usize].1;
    let ghost before = bits@;
    let mut k: u32 = 0;
    while k < l
        invariant
            k <= l,
            bits@ == before + bits_chars(code_bits_of(c as int)).subrange(0, k as int),
        decreases l - k,
    {
        assert(l <= 22) by {
            assert(huffman_table_spec()[c as int].0 <= 22);
        }
        let bit = ((v >> (l - 1 - k)) & 1) == 1;
        bits.push(if bit { '1' } else { '0' });
        proof {
            assert(bits@ =~= before + bits_chars(code_bits_of(c as int)).subrange(
                0,
                k + 1,
            ));
        }
        k = k + 1;
    }
    proof {
        assert(bits_chars(code_bits_of(c as int)).subrange(
            0,
            code_bits_of(c as int).len() as int,
        ) =~= bits_chars(code_bits_of(c as int)));
    }
}

/// Encodes plain text into the Huffman bit stream, written as `0` and `1`
/// characters. Characters outside the 128-entry table are reported as an
/// error.
#[verifier::loop_isolation(false)]
fn huffman_encode(body: &str) -> (r: Result<String, String>)
    ensures
        all_in_table(body@) ==> ({
            &&& r matches Ok(s)
            &&& s@ == bits_chars(encoded_bits(body@))
        }),
        !all_in_table(body@) ==> r is Err,
{
    let cs = crate::strutil::chars_of(body);
    let table = huffman_table();
    let mut bits: Vec<char> = Vec::new();
    let mut i: usize = 0;
    while i < cs.len()
        invariant
            i <= cs@.len(),
            bits@ == bits_chars(encode_bits_upto(cs@, i as int)),
            forall|k: int| 0 <= k < i ==> (#[trigger] cs@[k] as u32) < 128,
        decreases cs@.len() - i,
    {
        let c = *cs.get(i).unwrap();
        let code = c as u32;
        if code >= 128 {
            return Err("character not in Huffman table".to_owned());
        }
        let ghost before = bits@;
        push_code(&mut bits, &table, code);
        proof {
            assert(encode_bits_upto(cs@, i + 1) == encode_bits_upto(cs@, i as int)
                + code_bits_of(cs@[i as int] as u32 as int));
            assert(bits@ =~= bits_chars(encode_bits_upto(cs@, i + 1)));
        }
        i = i + 1;
    }
    push_code(&mut bits, &table, 4u32);
    proof {
        assert(bits@ =~= bits_chars(encode_bits_upto(cs@, cs@.len() as int) + code_bits_of(
            4,
        )));
    }
    let ghost core_bits = encode_bits_upto(cs@, cs@.len() as int) + code_bits_of(4);
    let rem: usize = bits.len() % 13;
    let pad: usize = if rem == 0 {
        0
    } else {
        13 - rem
    };
    let ghost before_pad = bits@;
    let mut k: usize = 0;
    while k < pad
        invariant
            k <= pad,
            bits@ == before_pad + bits_chars(Seq::new(k as nat, |j: int| false)),
        decreases pad - k,
    {
        bits.push('0');
        proof {
            assert(bits@ =~= before_pad + bits_chars(Seq::new((k + 1) as nat, |j: int| false)));
        }
        k = k + 1;
    }
    proof {
        assert(pad == (13 - (core_bits.len() as int % 13)) % 13);
        assert(bits@ =~= bits_chars(encoded_bits(cs@)));
    }
    let mut s = String::new();
    let mut k2: usize = 0;
    while k2 < bits.len()
        invariant
            k2 <= bits@.len(),
            s@ == bits@.subrange(0, k2 as int),
        decreases bits@.len() - k2,
    {
        string_push(&mut s, *bits.get(k2).unwrap());
        proof {
            assert(s@ =~= bits@.subrange(0, k2 + 1));
        }
        k2 = k2 + 1;
    }
    proof {
        assert(s@ =~= bits@);
    }
    Ok(s)
}

/// Whether a character is a binary digit.
pub open spec fn is_binary_char(c: char) -> bool {
    c == '0' || c == '1'
}

/// Whether a text consists of binary digits only.
pub open spec fn all_binary(s: Seq<char>) -> bool {
    forall|k: int| 0 <= k < s.len() ==> is_binary_char(#[trigger] s[k])
}

/// The value of the 13-bit group starting at `13 * p`, read least
/// significant bit first, considering only the first `k` of its bits.
pub open spec fn group_value_upto(s: Seq<char>, p: int, k: int) -> int
    decreases k,
{
    if k <= 0 {
        0
    } else {
        group_value_upto(s, p, k - 1) + (if s[13 * p + (k - 1)] == '1' {
            (1u32 << ((k - 1) as u32)) as int
        } else {
            0
        })
    }
}

/// The two base-95 characters of one 13-bit group.
pub open spec fn group_chars(s: Seq<char>, p: int) -> Seq<char> {
    let v = group_value_upto(s, p, 13);
    seq![((v / 95 + 32) as u8) as char, ((v % 95 + 32) as u8) as char]
}

/// The base-95 text of the first `p` groups.
pub open spec fn b95_upto(s: Seq<char>, p: int) -> Seq<char>
    decreases p,
{
    if p <= 0 {
        Seq::empty()
    } else {
        b95_upto(s, p - 1) + group_chars(s, p - 1)
    }
}

/// The base-95 text of a whole bit text.
pub open spec fn b95_of(s: Seq<char>) -> Seq<char> {
    b95_upto(s, s.len() as int / 13)
}

/// Packs a text of binary digits, 13 bits at a time, into pairs of base-95
/// characters. A length that is not a multiple of 13, or a character that
/// is not a binary digit, is reported as an error.
#[verifier::loop_isolation(false)]
fn base95_encode(bits: &str) -> (r: Result<String, String>)
    ensures
        bits@.len() % 13 == 0 && all_binary(bits@) ==> ({
            &&& r matches Ok(s)
            &&& s@ == b95_of(bits@)
        }),
        !(bits@.len() % 13 == 0 && all_binary(bits@)) ==> r is Err,
{
    let cs = crate::strutil::chars_of(bits);
    if cs.len() % 13 != 0 {
        return Err("bit string length must be a multiple of 13".to_owned());
    }
    let mut out: Vec<char> = Vec::new();
    let mut p: usize = 0;
    while p < cs.len() / 13
        invariant
            cs@.len() % 13 == 0,
            p <= cs@.len() / 13,
            out@ == b95_upto(cs@, p as int),
            forall|k: int| 0 <= k < 13 * p ==> is_binary_char(#[trigger] cs@[k]),
        decreases cs@.len() / 13 - p,
    {
        let mut v: u32 = 0;
        let mut k: usize = 0;
        while k < 13
            invariant
                k <= 13,
                p < cs@.len() / 13,
                v == group_value_upto(cs@, p as int, k as int),
                v < 8192,
                forall|j: int|
                    13 * p <= j < 13 * p + k ==> is_binary_char(#[trigger] cs@[j]),
            decreases 13 - k,
        {
            let c = *cs.get(13 * p + k).unwrap();
            let k32: u32 = k as u32;
            if c == '1' {
                proof {
                    assert((1u32 << k32) <= 4096) by (bit_vector)
                        requires
                            k32 < 13,
                    ;
                }
                v = v + (1u32 << k32);
                proof {
                    assert(v == group_value_upto(cs@, p as int, k + 1));
                    lemma_group_value_bound(cs@, p as int, k + 1);
                    assert((1u32 << ((k32 + 1) as u32)) <= 8192) by (bit_vector)
                        requires
                            k32 < 13,
                    ;
                    assert(v < 8192);
                }
            } else if c != '0' {
                return Err("invalid binary digit".to_owned());
            } else {
                proof {
                    assert(v == group_value_upto(cs@, p as int, k + 1));
                }
            }
            k = k + 1;
        }
        let hi = v / 95;
        let lo = v % 95;
        out.push((hi + 32) as u8 as char);
        out.push((lo + 32) as u8 as char);
        proof {
            assert(out@ =~= b95_upto(cs@, p + 1));
        }
        p = p + 1;
    }
    proof {
        assert(out@ == b95_of(cs@));
    }
    let mut s = String::new();
    let mut k2: usize = 0;
    while k2 < out.len()
        invariant
            k2 <= out@.len(),
            s@ == out@.subrange(0, k2 as int),
        decreases out@.len() - k2,
    {
        string_push(&mut s, *out.get(k2).unwrap());
        proof {
            assert(s@ =~= out@.subrange(0, k2 + 1));
        }
        k2 = k2 + 1;
    }
    proof {
        assert(s@ =~= out@);
    }
    Ok(s)
}

/// The value of a 13-bit group is below two to the number of bits read.
proof fn lemma_group_value_bound(s: Seq<char>, p: int, k: int)
    requires
        0 <= k <= 13,
    ensures
        0 <= group_value_upto(s, p, k) < (1u32 << (k as u32)),
    decreases k,
{
    if k == 0 {
        assert((1u32 << 0u32) == 1) by (bit_vector);
    } else {
        lemma_group_value_bound(s, p, k - 1);
        let ku = (k - 1) as u32;
        assert((1u32 << ku) + (1u32 << ku) == (1u32 << (ku + 1))) by (bit_vector)
            requires
                ku <= 12,
        ;
        assert(k as u32 == ku + 1);
    }
}

/// The text cut into lines of `w` characters, each line followed by a
/// newline, considering only whole groups up to `p`.
pub open spec fn lines_upto(s: Seq<char>, w: int, p: int) -> Seq<char>
    decreases p,
{
    if p <= 0 {
        Seq::empty()
    } else {
        let start = (p - 1) * w;
        let end = if start + w <= s.len() {
            start + w
        } else {
            s.len() as int
        };
        lines_upto(s, w, p - 1) + s.subrange(start, end) + seq!['\n']
    }
}

/// How many lines a text of this length fills at width `w`, the last line
/// possibly short.
pub open spec fn line_count(len: int, w: int) -> int {
    (len + w - 1) / w
}

/// The text cut into newline-terminated lines of at most `w` characters.
pub open spec fn split_lines(s: Seq<char>, w: int) -> Seq<char> {
    lines_upto(s, w, line_count(s.len() as int, w))
}

/// Cuts the text into lines of at most `line_length` characters.
#[verifier::loop_isolation(false)]
fn split_into_lines(s: &Vec<char>, line_length: usize) -> (r: Vec<char>)
    requires
        1 <= line_length,
    ensures
        r@ == split_lines(s@, line_length as int),
{
    let mut out: Vec<char> = Vec::new();
    let mut p: usize = 0;
    let total: usize = if s.len() == 0 {
        0
    } else {
        (s.len() - 1) / line_length + 1
    };
    proof {
        assert(total == line_count(s@.len() as int, line_length as int))
            by (nonlinear_arith)
            requires
                1 <= line_length,
                total == (if s@.len() == 0 {
                    0int
                } else {
                    (s@.len() - 1) as int / line_length as int + 1
                }),
        ;
    }
    while p < total
        invariant
            total == line_count(s@.len() as int, line_length as int),
            p <= total,
            out@ == lines_upto(s@, line_length as int, p as int),
        decreases total - p,
    {
        proof {
            assert(p * line_length < s@.len()) by (nonlinear_arith)
                requires
                    p < total,
                    total == line_count(s@.len() as int, line_length as int),
                    1 <= line_length,
            ;
        }
        let start = p * line_length;
        let end = if s.len() - start < line_length {
            s.len()
        } else {
            start + line_length
        };
        let ghost before = out@;
        let mut j: usize = start;
        while j < end
            invariant
                start <= j <= end <= s@.len(),
                out@ == before + s@.subrange(start as int, j as int),
            decreases end - j,
        {
            out.push(*s.get(j).unwrap());
            proof {
                assert(out@ =~= before + s@.subrange(start as int, j + 1));
            }
            j = j + 1;
        }
        out.push('\n');
        proof {
            assert(out@ =~= lines_upto(s@, line_length as int, p + 1));
        }
        p = p + 1;
    }
    out
}

/// The full container text for a plain source text: the header line, then
/// the base-95 encoding of the Huffman bit stream in lines of 70
/// characters.
pub open spec fn encoded_container(s: Seq<char>) -> Seq<char> {
    "(*!1N!*)mcm\n"@ + split_lines(b95_of(bits_chars(encoded_bits(s))), 70)
}

/// Encodes plain source text as a paclet container. A character outside
/// the 128-entry code table is reported as an error.
pub fn encode_paclet(content: &str) -> (r: Result<String, String>)
    ensures
        all_in_table(content@) ==> ({
            &&& r matches Ok(s)
            &&& s@ == encoded_container(content@)
        }),
        !all_in_table(content@) ==> r is Err,
{
    let bits = match huffman_encode(content) {
        Ok(b) => b,
        Err(e) => {
            return Err(e);
        },
    };
    proof {
        lemma_encoded_bits_multiple(content@);
    }
    let body = match base95_encode(bits.as_str()) {
        Ok(b) => b,
        Err(e) => {
            return Err(e);
        },
    };
    let body_chars = crate::strutil::chars_of(body.as_str());
    let lines = split_into_lines(&body_chars, 70);
    let mut s = String::from_str("(*!1N!*)mcm\n");
    let mut k: usize = 0;
    proof {
        reveal_strlit("(*!1N!*)mcm\n");
    }
    while k < lines.len()
        invariant
            k <= lines@.len(),
            s@ == "(*!1N!*)mcm\n"@ + lines@.subrange(0, k as int),
        decreases lines@.len() - k,
    {
        crate::strutil::string_push(&mut s, *lines.get(k).unwrap());
        proof {
            assert(s@ =~= "(*!1N!*)mcm\n"@ + lines@.subrange(0, k + 1));
        }
        k = k + 1;
    }
    proof {
        assert(lines@.subrange(0, lines@.len() as int) =~= lines@);
        assert(s@ == encoded_container(content@));
    }
    Ok(s)
}

/// The padded bit stream's length is a multiple of 13, and every character
/// of its textual form is a binary digit.
proof fn lemma_encoded_bits_multiple(s: Seq<char>)
    ensures
        bits_chars(encoded_bits(s)).len() % 13 == 0,
        all_binary(bits_chars(encoded_bits(s))),
{
    let b = encode_bits_upto(s, s.len() as int) + code_bits_of(4);
    let pad = (13 - (b.len() as int % 13)) % 13;
    assert(encoded_bits(s).len() == b.len() + pad);
    assert((b.len() + pad) % 13 == 0) by (nonlinear_arith)
        requires
            pad == (13 - (b.len() as int % 13)) % 13,
            b.len() >= 0,
    ;
    assert forall|k: int| 0 <= k < bits_chars(encoded_bits(s)).len() implies is_binary_char(
        bits_chars(encoded_bits(s))[k],
    ) by {
        assert(bits_chars(encoded_bits(s))[k] == (if encoded_bits(s)[k] {
            '1'
        } else {
            '0'
        }));
    }
}

} // verus!
