//! The numeric literal decoder.
//!
//! Integer literals in the source document come with radix prefixes: `0x`/`0X`
//! for hexadecimal, `0o`/`0O` for octal, `0b`/`0B` for binary, plain digits for
//! decimal.  Two rule sets exist, chosen by the caller according to the field's
//! semantics:
//!
//! - [`parse_uint`] (addresses, sizes, masks, values): additionally treats a
//!   single leading `0` as an octal prefix, with `"0"` alone decoding to zero.
//! - [`parse`] (bare indices, e.g. signal pins): a leading `0` is a legitimate
//!   decimal digit and never selects octal.

use vstd::prelude::*;

use crate::err::Error;

verus! {

/// The value of `c` as a digit in the given base, if it is one.
pub open spec fn spec_digit(c: char, base: u32) -> Option<u32> {
    let v = c as u32;
    let d: Option<u32> = if 48 <= v && v <= 57 {
        Some((v - 48) as u32)
    } else if 97 <= v && v <= 102 {
        Some((v - 87) as u32)
    } else if 65 <= v && v <= 70 {
        Some((v - 55) as u32)
    } else {
        None
    };
    match d {
        Some(x) => if x < base { Some(x) } else { None },
        None => None,
    }
}

/// Whether every character of `s` is a digit in the given base.
pub open spec fn digits_ok(s: Seq<char>, base: u32) -> bool {
    forall|i: int| 0 <= i < s.len() ==> (#[trigger] spec_digit(s[i], base)) is Some
}

/// The magnitude of the digit string `s` in the given base; characters that
/// are not digits contribute zero (only meaningful under [`digits_ok`]).
pub open spec fn digits_val(s: Seq<char>, base: u32) -> nat
    decreases s.len(),
{
    if s.len() == 0 {
        0
    } else {
        digits_val(s.drop_last(), base) * (base as nat) + (match spec_digit(s.last(), base) {
            Some(d) => d as nat,
            None => 0,
        })
    }
}

/// The magnitude of a digit string: defined exactly when `s` is nonempty and
/// all of its characters are digits in the given base.
pub open spec fn radix_opt(s: Seq<char>, base: u32) -> Option<nat> {
    if s.len() > 0 && digits_ok(s, base) {
        Some(digits_val(s, base))
    } else {
        None
    }
}

/// The intended magnitude of a literal under the address/size/mask rule set:
/// `"0"` alone is zero; `0x`/`0X` selects hexadecimal, `0o`/`0O` octal,
/// `0b`/`0B` binary; any other leading `0` selects octal; otherwise decimal.
pub open spec fn addr_literal(s: Seq<char>) -> Option<nat> {
    if s.len() == 1 && s[0] == '0' {
        Some(0)
    } else if s.len() >= 2 && s[0] == '0' && (s[1] == 'x' || s[1] == 'X') {
        radix_opt(s.subrange(2, s.len() as int), 16)
    } else if s.len() >= 2 && s[0] == '0' && (s[1] == 'o' || s[1] == 'O') {
        radix_opt(s.subrange(2, s.len() as int), 8)
    } else if s.len() >= 2 && s[0] == '0' && (s[1] == 'b' || s[1] == 'B') {
        radix_opt(s.subrange(2, s.len() as int), 2)
    } else if s.len() >= 1 && s[0] == '0' {
        radix_opt(s.subrange(1, s.len() as int), 8)
    } else {
        radix_opt(s, 10)
    }
}

/// The intended magnitude of a literal under the bare-index rule set: the
/// same radix prefixes, but a leading `0` alone never selects octal.
pub open spec fn index_literal(s: Seq<char>) -> Option<nat> {
    if s.len() >= 2 && s[0] == '0' && (s[1] == 'x' || s[1] == 'X') {
        radix_opt(s.subrange(2, s.len() as int), 16)
    } else if s.len() >= 2 && s[0] == '0' && (s[1] == 'o' || s[1] == 'O') {
        radix_opt(s.subrange(2, s.len() as int), 8)
    } else if s.len() >= 2 && s[0] == '0' && (s[1] == 'b' || s[1] == 'B') {
        radix_opt(s.subrange(2, s.len() as int), 2)
    } else {
        radix_opt(s, 10)
    }
}

/// The literal `"0"` alone decodes to zero under every rule set: the
/// address rule set takes it as its special zero case, the bare-index rule
/// set as plain decimal.
pub proof fn lemma_zero_literal(s: Seq<char>)
    requires
        s.len() == 1,
        s[0] == '0',
    ensures
        addr_literal(s) == Some(0 as nat),
        index_literal(s) == Some(0 as nat),
{
    assert(spec_digit(s[0], 10) == Some(0u32));
    assert(s.drop_last() =~= Seq::<char>::empty());
    assert(digits_val(Seq::<char>::empty(), 10) == 0);
    assert(digits_val(s, 10) == digits_val(s.drop_last(), 10) * 10);
}

/// A digit-string prefix never exceeds the value of the whole string.
proof fn lemma_digits_val_prefix(t: Seq<char>, base: u32, j: int)
    requires
        1 <= base,
        0 <= j <= t.len(),
    ensures
        digits_val(t.subrange(0, j), base) <= digits_val(t, base),
    decreases t.len() - j,
{
    if j == t.len() {
        assert(t.subrange(0, j) =~= t);
    } else {
        lemma_digits_val_prefix(t, base, j + 1);
        assert(t.subrange(0, j + 1).drop_last() =~= t.subrange(0, j));
        let v = digits_val(t.subrange(0, j), base);
        assert(v * (base as nat) >= v * 1) by (nonlinear_arith)
            requires base >= 1, v >= 0;
    }
}

/// The value of `c` as a digit in the given base, if it is one.
fn digit_of(c: char, base: u32) -> (r: Option<u32>)
    ensures
        r == spec_digit(c, base),
{
    let v = c as u32;
    let d: Option<u32> = if 48 <= v && v <= 57 {
        Some(v - 48)
    } else if 97 <= v && v <= 102 {
        Some(v - 87)
    } else if 65 <= v && v <= 70 {
        Some(v - 55)
    } else {
        None
    };
    match d {
        Some(x) => if x < base { Some(x) } else { None },
        None => None,
    }
}

/// Decodes the digits of `s` from character position `skip` onward in the
/// given base.  Fails exactly when no digits remain, a character is not a
/// digit of the base, or the magnitude does not fit in 32 bits.
fn parse_radix(s: &str, skip: usize, base: u32) -> (r: Result<u32, Error>)
    requires
        base == 2 || base == 8 || base == 10 || base == 16,
        skip <= s@.len(),
    ensures
        match r {
            Ok(v) => radix_opt(s@.subrange(skip as int, s@.len() as int), base) == Some(v as nat),
            Err(e) => {
                &&& {
                    let m = radix_opt(s@.subrange(skip as int, s@.len() as int), base);
                    m is None || m->Some_0 >= 0x1_0000_0000
                }
                &&& e matches Error::InvalidLiteral(l) && l@ == s@
            },
        },
{
    let ghost t = s@.subrange(skip as int, s@.len() as int);
    let n = s.unicode_len();
    if n == skip {
        return Err(Error::InvalidLiteral(s.to_owned()));
    }
    let mut acc: u64 = 0;
    let mut i: usize = skip;
    while i < n
        invariant
            base == 2 || base == 8 || base == 10 || base == 16,
            skip <= i <= n,
            n == s@.len(),
            t == s@.subrange(skip as int, s@.len() as int),
            digits_ok(t.subrange(0, i - skip), base),
            acc == digits_val(t.subrange(0, i - skip), base),
            acc < 0x1_0000_0000,
        decreases n - i,
    {
        let c = s.get_char(i);
        proof {
            assert(t[i - skip] == s@[i as int]);
        }
        match digit_of(c, base) {
            None => {
                proof {
                    assert(!digits_ok(t, base));
                }
                return Err(Error::InvalidLiteral(s.to_owned()));
            },
            Some(d) => {
                proof {
                    assert(acc * base <= 0xffff_ffffu64 * 16) by (nonlinear_arith)
                        requires acc <= 0xffff_ffffu64, base <= 16;
                }
                let next: u64 = acc * (base as u64) + (d as u64);
                proof {
                    assert(t.subrange(0, i + 1 - skip).drop_last() =~= t.subrange(0, i - skip));
                    assert(t.subrange(0, i + 1 - skip).last() == t[i - skip]);
                    assert(digits_val(t.subrange(0, i + 1 - skip), base) == next);
                }
                if next > 0xffff_ffff {
                    proof {
                        if digits_ok(t, base) {
                            lemma_digits_val_prefix(t, base, i + 1 - skip);
                        }
                    }
                    return Err(Error::InvalidLiteral(s.to_owned()));
                }
                acc = next;
                i += 1;
            },
        }
    }
    proof {
        assert(t.subrange(0, n - skip) =~= t);
    }
    Ok(acc as u32)
}

/// Decodes a plain decimal digit string (no radix prefixes).
pub(crate) fn parse_decimal(s: &str) -> (r: Result<u32, Error>)
    ensures
        match r {
            Ok(v) => radix_opt(s@, 10) == Some(v as nat),
            Err(e) => {
                &&& (radix_opt(s@, 10) is None || radix_opt(s@, 10)->Some_0 >= 0x1_0000_0000)
                &&& e matches Error::InvalidLiteral(l) && l@ == s@
            },
        },
{
    let r = parse_radix(s, 0, 10);
    proof {
        assert(s@.subrange(0, s@.len() as int) =~= s@);
    }
    r
}

/// Decodes an integer literal under the bare-index rule set: radix prefixes
/// `0x`/`0X`, `0o`/`0O`, `0b`/`0B`, otherwise decimal (a leading zero is a
/// decimal digit).  Returns the exact magnitude when it fits in 32 bits, and
/// an [`Error::InvalidLiteral`] otherwise.
pub fn parse(s: &str) -> (r: Result<u32, Error>)
    ensures
        match r {
            Ok(v) => index_literal(s@) == Some(v as nat),
            Err(e) => {
                &&& (index_literal(s@) is None || index_literal(s@)->Some_0 >= 0x1_0000_0000)
                &&& e matches Error::InvalidLiteral(l) && l@ == s@
            },
        },
{
    let n = s.unicode_len();
    if n >= 2 && s.get_char(0) == '0' {
        let c1 = s.get_char(1);
        if c1 == 'x' || c1 == 'X' {
            return parse_radix(s, 2, 16);
        }
        if c1 == 'o' || c1 == 'O' {
            return parse_radix(s, 2, 8);
        }
        if c1 == 'b' || c1 == 'B' {
            return parse_radix(s, 2, 2);
        }
    }
    let r = parse_radix(s, 0, 10);
    proof {
        assert(s@.subrange(0, s@.len() as int) =~= s@);
    }
    r
}

/// Decodes an integer literal under the address/size/mask rule set: `"0"`
/// alone is zero; radix prefixes `0x`/`0X`, `0o`/`0O`, `0b`/`0B`; any other
/// leading `0` selects octal; otherwise decimal.  Returns the exact magnitude
/// when it fits in 32 bits, and an [`Error::InvalidLiteral`] otherwise.
pub fn parse_uint(s: &str) -> (r: Result<u32, Error>)
    ensures
        match r {
            Ok(v) => addr_literal(s@) == Some(v as nat),
            Err(e) => {
                &&& (addr_literal(s@) is None || addr_literal(s@)->Some_0 >= 0x1_0000_0000)
                &&& e matches Error::InvalidLiteral(l) && l@ == s@
            },
        },
{
    let n = s.unicode_len();
    if n == 1 && s.get_char(0) == '0' {
        return Ok(0);
    }
    if n >= 2 && s.get_char(0) == '0' {
        let c1 = s.get_char(1);
        if c1 == 'x' || c1 == 'X' {
            return parse_radix(s, 2, 16);
        }
        if c1 == 'o' || c1 == 'O' {
            return parse_radix(s, 2, 8);
        }
        if c1 == 'b' || c1 == 'B' {
            return parse_radix(s, 2, 2);
        }
        return parse_radix(s, 1, 8);
    }
    let r = parse_radix(s, 0, 10);
    proof {
        assert(s@.subrange(0, s@.len() as int) =~= s@);
    }
    r
}

} // verus!
