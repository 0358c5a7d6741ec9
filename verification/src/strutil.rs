//! Character classes and ASCII string helpers shared by the parser, the
//! symbol table and the opcode table.

use vstd::prelude::*;
use vstd::string::StringSliceAdditionalSpecFns;

verus! {

/// Whitespace as the grammar understands it: space, tab, newline, return.
pub open spec fn is_ws_char(c: char) -> bool {
    c == ' ' || c == '\t' || c == '\n' || c == '\r'
}

/// A decimal digit.
pub open spec fn is_digit_char(c: char) -> bool {
    '0' <= c && c <= '9'
}

/// A letter, in either case.
pub open spec fn is_alpha_char(c: char) -> bool {
    ('a' <= c && c <= 'z') || ('A' <= c && c <= 'Z')
}

/// A label character: letter, digit or underscore.
pub open spec fn is_word_char(c: char) -> bool {
    is_alpha_char(c) || is_digit_char(c) || c == '_'
}

/// Case folding for a single ASCII character.
pub open spec fn lower_char(c: char) -> char {
    if 'A' <= c && c <= 'Z' {
        (((c as u8) + 32) as char)
    } else {
        c
    }
}

/// Case folding for a character sequence.
pub open spec fn lower_chars(s: Seq<char>) -> Seq<char> {
    s.map_values(|c: char| lower_char(c))
}

/// The numeric value of a sequence of decimal digits.
pub open spec fn digits_val(s: Seq<char>) -> int
    decreases s.len(),
{
    if s.len() == 0 {
        0
    } else {
        digits_val(s.drop_last()) * 10 + (s.last() as u32 - '0' as u32)
    }
}

/// Reads the ASCII character at `i` as a byte.
pub fn byte_at(s: &str, i: usize) -> (b: u8)
    requires
        s.is_ascii(),
        i < s@.len(),
    ensures
        b == s@[i as int] as u8,
        b <= 127,
        b as char == s@[i as int],
{
    let b = s.get_ascii(i);
    proof {
        let c = s@[i as int];
        assert(c <= '\u{7f}');
        assert(c as u32 <= 127);
        assert((c as u8) as char == c);
    }
    b
}

/// Whitespace test for the character at `i`.
pub fn ws_at(s: &str, i: usize) -> (r: bool)
    requires
        s.is_ascii(),
        i < s@.len(),
    ensures
        r == is_ws_char(s@[i as int]),
{
    let b = byte_at(s, i);
    b == 32 || b == 9 || b == 10 || b == 13
}

/// Digit test for the character at `i`.
pub fn digit_at(s: &str, i: usize) -> (r: bool)
    requires
        s.is_ascii(),
        i < s@.len(),
    ensures
        r == is_digit_char(s@[i as int]),
{
    let b = byte_at(s, i);
    48 <= b && b <= 57
}

/// Letter test for the character at `i`.
pub fn alpha_at(s: &str, i: usize) -> (r: bool)
    requires
        s.is_ascii(),
        i < s@.len(),
    ensures
        r == is_alpha_char(s@[i as int]),
{
    let b = byte_at(s, i);
    (97 <= b && b <= 122) || (65 <= b && b <= 90)
}

/// Label-character test for the character at `i`.
pub fn word_at(s: &str, i: usize) -> (r: bool)
    requires
        s.is_ascii(),
        i < s@.len(),
    ensures
        r == is_word_char(s@[i as int]),
{
    let b = byte_at(s, i);
    (97 <= b && b <= 122) || (65 <= b && b <= 90) || (48 <= b && b <= 57) || b == 95
}

/// Exact comparison of two strings, by their UTF-8 bytes.
pub fn str_eq(a: &str, b: &str) -> (r: bool)
    ensures
        r == (a@ == b@),
{
    let va = a.as_bytes_vec();
    let vb = b.as_bytes_vec();
    let r = va == vb;
    proof {
        broadcast use vstd::utf8::encode_utf8_decode_utf8;

        if r {
            assert(va@ =~= vb@);
            assert(vstd::utf8::decode_utf8(a.spec_bytes()) == a@);
            assert(vstd::utf8::decode_utf8(b.spec_bytes()) == b@);
        } else {
            if a@ == b@ {
                assert(va@ =~= vb@);
            }
        }
    }
    r
}

/// Case-insensitive comparison of the region `[from, to)` of `s` against
/// a lower-case ASCII literal.
pub fn region_eq_lower(s: &str, from: usize, to: usize, lit: &str) -> (r: bool)
    requires
        s.is_ascii(),
        lit.is_ascii(),
        from <= to <= s@.len(),
    ensures
        r == (lower_chars(s@.subrange(from as int, to as int)) == lit@),
{
    let ghost region = s@.subrange(from as int, to as int);
    let ll = lit.unicode_len();
    if to - from != ll {
        proof {
            assert(lower_chars(region).len() == region.len());
            assert(lower_chars(region) != lit@);
        }
        return false;
    }
    let mut i: usize = 0;
    while i < ll
        invariant
            i <= ll,
            ll == lit@.len(),
            from <= to <= s@.len(),
            to - from == ll,
            s.is_ascii(),
            lit.is_ascii(),
            region == s@.subrange(from as int, to as int),
            forall|j: int| 0 <= j < i ==> lower_char(region[j]) == lit@[j],
        decreases ll - i,
    {
        let cs = byte_at(s, from + i);
        let folded: u8 = if 65 <= cs && cs <= 90 {
            cs + 32
        } else {
            cs
        };
        let cl = byte_at(lit, i);
        proof {
            let c = s@[(from + i) as int];
            assert(region[i as int] == c);
            assert(folded == lower_char(c) as u8);
            assert(lower_char(c) <= '\u{7f}');
            assert((lower_char(c) as u8) as char == lower_char(c));
        }
        if folded != cl {
            proof {
                assert(lower_char(region[i as int]) != lit@[i as int]);
                assert(lower_chars(region)[i as int] != lit@[i as int]);
            }
            return false;
        }
        i += 1;
    }
    proof {
        assert(lower_chars(region) =~= lit@);
    }
    true
}

} // verus!
