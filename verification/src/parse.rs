//! Parsing of breakpoint address specifications.
//!
//! A breakpoint specification is an optional leading `*` sigil, an optional
//! `0x`/`0X` prefix, and hexadecimal digits. Anything else, an empty digit
//! string, or a value that does not fit a machine word is rejected.

use vstd::prelude::*;

verus! {

/// True of an ASCII hexadecimal digit.
pub open spec fn is_hex_digit(c: char) -> bool {
    ('0' <= c && c <= '9') || ('a' <= c && c <= 'f') || ('A' <= c && c <= 'F')
}

/// Numeric value of a hexadecimal digit.
pub open spec fn hex_digit_value(c: char) -> nat
    recommends
        is_hex_digit(c),
{
    if '0' <= c && c <= '9' {
        (c as u32 - '0' as u32) as nat
    } else if 'a' <= c && c <= 'f' {
        (c as u32 - 'a' as u32 + 10) as nat
    } else {
        (c as u32 - 'A' as u32 + 10) as nat
    }
}

/// True when every character of `s` is a hexadecimal digit.
pub open spec fn all_hex_digits(s: Seq<char>) -> bool {
    forall|i: int| 0 <= i < s.len() ==> is_hex_digit(#[trigger] s[i])
}

/// Value of a string of hexadecimal digits, most significant first.
pub open spec fn hex_value(s: Seq<char>) -> nat
    recommends
        all_hex_digits(s),
    decreases s.len(),
{
    if s.len() == 0 {
        0
    } else {
        16 * hex_value(s.drop_last()) + hex_digit_value(s.last())
    }
}

/// `s` without its optional leading `*` sigil.
pub open spec fn strip_star(s: Seq<char>) -> Seq<char> {
    if s.len() >= 1 && s[0] == '*' {
        s.skip(1)
    } else {
        s
    }
}

/// `s` without its optional `0x`/`0X` prefix.
pub open spec fn strip_hex_prefix(s: Seq<char>) -> Seq<char> {
    if s.len() >= 2 && s[0] == '0' && (s[1] == 'x' || s[1] == 'X') {
        s.skip(2)
    } else {
        s
    }
}

/// The address denoted by a breakpoint specification, if any: after the
/// optional sigil and prefix are removed, a non-empty string of hexadecimal
/// digits whose value fits a machine word.
pub open spec fn spec_parse_address(s: Seq<char>) -> Option<usize> {
    let t = strip_hex_prefix(strip_star(s));
    if t.len() > 0 && all_hex_digits(t) && hex_value(t) <= usize::MAX {
        Some(hex_value(t) as usize)
    } else {
        None
    }
}

/// Dropping digits from the end of a digit string never increases its value.
proof fn lemma_hex_value_prefix_le(s: Seq<char>, m: int)
    requires
        0 <= m <= s.len(),
    ensures
        hex_value(s.take(m)) <= hex_value(s),
    decreases s.len() - m,
{
    if m == s.len() {
        assert(s.take(m) =~= s);
    } else {
        assert(s.take(m + 1).drop_last() =~= s.take(m));
        assert(s.take(m + 1).last() == s[m]);
        assert(hex_value(s.take(m)) <= hex_value(s.take(m + 1)));
        lemma_hex_value_prefix_le(s, m + 1);
    }
}

/// Parses a breakpoint address specification: accepts `*0xHEX`, `0xHEX` and
/// bare `HEX` forms, and yields nothing on any malformed input.
pub fn parse_address(addr: &str) -> (r: Option<usize>)
    ensures
        r == spec_parse_address(addr@),
{
    let n: usize = addr.unicode_len();
    let mut i: usize = 0;
    if n >= 1 && addr.get_char(0) == '*' {
        i = 1;
    }
    assert(addr@.skip(i as int) =~= strip_star(addr@));
    if i + 1 < n && addr.get_char(i) == '0' {
        let c1 = addr.get_char(i + 1);
        if c1 == 'x' || c1 == 'X' {
            i = i + 2;
        }
    }
    let ghost t = strip_hex_prefix(strip_star(addr@));
    assert(addr@.skip(i as int) =~= t);
    if i == n {
        return None;
    }
    let mut val: usize = 0;
    let mut j: usize = i;
    while j < n
        invariant
            i <= j <= n,
            n == addr@.len(),
            t == strip_hex_prefix(strip_star(addr@)),
            t == addr@.skip(i as int),
            all_hex_digits(addr@.subrange(i as int, j as int)),
            val == hex_value(addr@.subrange(i as int, j as int)),
        decreases n - j,
    {
        let c = addr.get_char(j);
        assert(t[j - i] == addr@[j as int]);
        let d: usize;
        if '0' <= c && c <= '9' {
            d = (c as u32 - '0' as u32) as usize;
        } else if 'a' <= c && c <= 'f' {
            d = (c as u32 - 'a' as u32 + 10) as usize;
        } else if 'A' <= c && c <= 'F' {
            d = (c as u32 - 'A' as u32 + 10) as usize;
        } else {
            proof {
                assert(0 <= j - i < t.len());
                assert(t[j - i] == c);
                assert(!is_hex_digit(t[j - i]));
                assert(!all_hex_digits(t));
            }
            return None;
        }
        assert(d == hex_digit_value(c));
        assert(addr@.subrange(i as int, j + 1).drop_last() =~= addr@.subrange(
            i as int,
            j as int,
        ));
        assert(addr@.subrange(i as int, j + 1).last() == c);
        if val > (usize::MAX - d) / 16 {
            proof {
                assert(16 * val + d > usize::MAX) by (nonlinear_arith)
                    requires
                        val > (usize::MAX - d) / 16,
                        d <= usize::MAX,
                ;
                assert(hex_value(addr@.subrange(i as int, j + 1)) == 16 * val + d);
                assert(addr@.subrange(i as int, j + 1) =~= t.take(j + 1 - i));
                lemma_hex_value_prefix_le(t, j + 1 - i);
                assert(hex_value(t) > usize::MAX);
                assert(!(hex_value(t) <= usize::MAX));
                assert(spec_parse_address(addr@) is None);
            }
            return None;
        }
        proof {
            assert(16 * val + d <= usize::MAX) by (nonlinear_arith)
                requires
                    val <= (usize::MAX - d) / 16,
                    d <= usize::MAX,
            ;
        }
        val = val * 16 + d;
        j = j + 1;
    }
    assert(addr@.subrange(i as int, n as int) =~= t);
    Some(val)
}

} // verus!
