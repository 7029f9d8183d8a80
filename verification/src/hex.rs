//! Hexadecimal numeric fields.
//!
//! Every numeric field of a mapping line is written in base 16. A field is
//! accepted exactly when `usize::from_str_radix(field, 16)` would accept it:
//! an optional leading `+`, then at least one hexadecimal digit (either
//! case), with a value that fits in `usize`. The parser here is written out
//! and verified against that statement rather than calling into std.

use vstd::prelude::*;

verus! {

/// The sixteen hexadecimal digit characters, upper or lower case.
pub open spec fn is_hex_digit(c: char) -> bool {
    ('0' as u32 <= c as u32 && c as u32 <= '9' as u32)
    || ('a' as u32 <= c as u32 && c as u32 <= 'f' as u32)
    || ('A' as u32 <= c as u32 && c as u32 <= 'F' as u32)
}

/// The numeric value of a hexadecimal digit character (0 for anything else).
pub open spec fn hex_digit_value(c: char) -> nat {
    if '0' as u32 <= c as u32 && c as u32 <= '9' as u32 {
        (c as u32 - '0' as u32) as nat
    } else if 'a' as u32 <= c as u32 && c as u32 <= 'f' as u32 {
        (c as u32 - 'a' as u32 + 10) as nat
    } else if 'A' as u32 <= c as u32 && c as u32 <= 'F' as u32 {
        (c as u32 - 'A' as u32 + 10) as nat
    } else {
        0
    }
}

pub open spec fn all_hex_digits(s: Seq<char>) -> bool {
    forall|i: int| 0 <= i < s.len() ==> is_hex_digit(#[trigger] s[i])
}

/// The value of a string of hexadecimal digits, most significant first.
pub open spec fn hex_value(s: Seq<char>) -> nat
    decreases s.len(),
{
    if s.len() == 0 {
        0
    } else {
        16 * hex_value(s.drop_last()) + hex_digit_value(s.last())
    }
}

/// The digit characters of a numeric field: a single leading `+` is
/// stripped, anything else is kept as it stands.
pub open spec fn hex_digits_of(t: Seq<char>) -> Seq<char> {
    if t.len() > 0 && t[0] == '+' {
        t.drop_first()
    } else {
        t
    }
}

/// A numeric field that parses: at least one digit after the optional sign,
/// every character a hexadecimal digit, and a value that fits in `usize`.
pub open spec fn is_hex_token(t: Seq<char>) -> bool {
    let d = hex_digits_of(t);
    d.len() > 0 && all_hex_digits(d) && hex_value(d) <= usize::MAX as nat
}

/// The value a numeric field denotes.
pub open spec fn hex_token_value(t: Seq<char>) -> nat {
    hex_value(hex_digits_of(t))
}

/// The value of a digit string never falls below the value of any of its
/// prefixes: appending digits only multiplies and adds.
proof fn lemma_hex_value_prefix_le(s: Seq<char>, i: int)
    requires
        0 <= i <= s.len(),
    ensures
        hex_value(s.subrange(0, i)) <= hex_value(s),
    decreases s.len() - i,
{
    if i == s.len() {
        assert(s.subrange(0, i) =~= s);
    } else {
        let p = s.subrange(0, i + 1);
        assert(p.drop_last() =~= s.subrange(0, i));
        assert(hex_value(p) == 16 * hex_value(s.subrange(0, i)) + hex_digit_value(s[i]));
        lemma_hex_value_prefix_le(s, i + 1);
    }
}

/// The numeric value of one hexadecimal digit character.
fn hex_digit(c: char) -> (r: Option<u8>)
    ensures
        r is Some <==> is_hex_digit(c),
        r matches Some(d) ==> d as nat == hex_digit_value(c),
{
    let u = c as u32;
    if 48 <= u && u <= 57 {
        // '0' ..= '9'
        Some((u - 48) as u8)
    } else if 97 <= u && u <= 102 {
        // 'a' ..= 'f'
        Some((u - 97 + 10) as u8)
    } else if 65 <= u && u <= 70 {
        // 'A' ..= 'F'
        Some((u - 65 + 10) as u8)
    } else {
        None
    }
}

/// Parses a base-16 numeric field: `Some` exactly on the fields
/// [`is_hex_token`] accepts, and then the exact value they denote.
pub fn parse_hex(t: &str) -> (r: Option<usize>)
    ensures
        r is Some <==> is_hex_token(t@),
        r matches Some(v) ==> v as nat == hex_token_value(t@),
{
    let n = t.unicode_len();
    let has_sign = n > 0 && t.get_char(0) == '+';
    let start: usize = if has_sign { 1 } else { 0 };
    let ghost d = hex_digits_of(t@);
    proof {
        if has_sign {
            assert(d =~= t@.subrange(1, n as int));
        } else {
            assert(d =~= t@.subrange(0, n as int));
        }
    }
    if n == start {
        // empty, or a lone sign: no digits at all
        return None;
    }
    let mut val: usize = 0;
    let mut i: usize = start;
    while i < n
        invariant
            start <= i <= n,
            n == t@.len(),
            start <= 1,
            d == t@.subrange(start as int, n as int),
            d == hex_digits_of(t@),
            all_hex_digits(d.subrange(0, i - start)),
            val as nat == hex_value(d.subrange(0, i - start)),
        decreases n - i,
    {
        let ghost k = i - start;
        let c = t.get_char(i);
        proof {
            assert(d[k as int] == c);
            assert(d.subrange(0, k + 1).drop_last() =~= d.subrange(0, k as int));
            assert(d.subrange(0, k + 1).last() == c);
        }
        let dv = match hex_digit(c) {
            Some(dv) => dv,
            None => {
                proof {
                    assert(!all_hex_digits(d));
                }
                return None;
            },
        };
        let shifted = match val.checked_mul(16) {
            Some(s) => s,
            None => {
                proof {
                    assert(hex_value(d.subrange(0, k + 1)) > usize::MAX as nat);
                    lemma_hex_value_prefix_le(d, k + 1);
                }
                return None;
            },
        };
        val = match shifted.checked_add(dv as usize) {
            Some(s) => s,
            None => {
                proof {
                    assert(hex_value(d.subrange(0, k + 1)) > usize::MAX as nat);
                    lemma_hex_value_prefix_le(d, k + 1);
                }
                return None;
            },
        };
        i += 1;
        proof {
            assert(all_hex_digits(d.subrange(0, i - start))) by {
                assert(forall|m: int| 0 <= m < k + 1 ==> is_hex_digit(
                    #[trigger] d.subrange(0, k + 1)[m],
                ));
            }
        }
    }
    proof {
        assert(d.subrange(0, (n - start) as int) =~= d);
    }
    Some(val)
}

} // verus!
