//! Decimal integer parsing for instruction operands.
//!
//! Distances are signed 32-bit values with an optional `+` or `-` sign;
//! durations are unsigned 64-bit values with an optional `+` sign. A token
//! parses exactly when it has at least one digit after the sign, only
//! digits, and a value within the target range.

use vstd::prelude::*;

verus! {

/// Decimal digit test.
pub open spec fn is_dec_digit(c: char) -> bool {
    48 <= c as u32 <= 57
}

/// The numeric value of one decimal digit.
pub open spec fn spec_digit_val(c: char) -> int {
    c as u32 - 48
}

/// Every character of `s` is a decimal digit.
pub open spec fn all_digits(s: Seq<char>) -> bool {
    forall|i: int| 0 <= i < s.len() ==> is_dec_digit(#[trigger] s[i])
}

/// The value of a digit string read in base ten.
pub open spec fn spec_dec_value(s: Seq<char>) -> int
    decreases s.len(),
{
    if s.len() == 0 {
        0
    } else {
        spec_dec_value(s.drop_last()) * 10 + spec_digit_val(s.last())
    }
}

/// The digit part of an unsigned token: an optional leading `+` is dropped.
pub open spec fn spec_unsigned_digits(s: Seq<char>) -> Seq<char> {
    if s.len() >= 1 && s[0] == '+' {
        s.drop_first()
    } else {
        s
    }
}

/// Whether `s` is a valid `u64` literal.
pub open spec fn is_u64_string(s: Seq<char>) -> bool {
    let d = spec_unsigned_digits(s);
    d.len() >= 1 && all_digits(d) && spec_dec_value(d) <= u64::MAX
}

/// The value of a valid `u64` literal.
pub open spec fn spec_u64_value(s: Seq<char>) -> int {
    spec_dec_value(spec_unsigned_digits(s))
}

/// Whether a signed token is negative: it starts with `-`.
pub open spec fn spec_signed_neg(s: Seq<char>) -> bool {
    s.len() >= 1 && s[0] == '-'
}

/// The digit part of a signed token: an optional leading `+` or `-` is
/// dropped.
pub open spec fn spec_signed_digits(s: Seq<char>) -> Seq<char> {
    if s.len() >= 1 && (s[0] == '+' || s[0] == '-') {
        s.drop_first()
    } else {
        s
    }
}

/// Whether `s` is a valid `i32` literal.
pub open spec fn is_i32_string(s: Seq<char>) -> bool {
    let d = spec_signed_digits(s);
    d.len() >= 1 && all_digits(d) && i32::MIN <= spec_i32_value(s) <= i32::MAX
}

/// The value of a signed decimal token, before any range check.
pub open spec fn spec_i32_value(s: Seq<char>) -> int {
    if spec_signed_neg(s) {
        -spec_dec_value(spec_signed_digits(s))
    } else {
        spec_dec_value(spec_signed_digits(s))
    }
}

/// A digit string never has a negative value.
proof fn lemma_dec_value_nonneg(s: Seq<char>)
    requires
        all_digits(s),
    ensures
        spec_dec_value(s) >= 0,
    decreases s.len(),
{
    if s.len() > 0 {
        lemma_dec_value_nonneg(s.drop_last());
        assert(spec_dec_value(s.drop_last()) * 10 >= 0) by (nonlinear_arith)
            requires
                spec_dec_value(s.drop_last()) >= 0,
        ;
    }
}

/// Extending a digit string can only increase its value.
proof fn lemma_dec_value_grows(s: Seq<char>, i: int)
    requires
        all_digits(s),
        0 <= i <= s.len(),
    ensures
        spec_dec_value(s.subrange(0, i)) <= spec_dec_value(s),
    decreases s.len() - i,
{
    if i < s.len() {
        let p = s.subrange(0, i);
        let q = s.subrange(0, i + 1);
        assert(q.drop_last() =~= p);
        lemma_dec_value_nonneg(p);
        assert(spec_dec_value(p) * 10 >= spec_dec_value(p)) by (nonlinear_arith)
            requires
                spec_dec_value(p) >= 0,
        ;
        lemma_dec_value_grows(s, i + 1);
    } else {
        assert(s.subrange(0, i) =~= s);
    }
}

/// Parse the digit run of `s` from position `from` to the end.
fn parse_digits(s: &str, from: usize, limit: u64) -> (r: Option<u64>)
    requires
        from <= s@.len(),
    ensures
        ({
            let d = s@.subrange(from as int, s@.len() as int);
            match r {
                Some(v) => d.len() >= 1 && all_digits(d) && spec_dec_value(d) == v && v <= limit,
                None => !(d.len() >= 1 && all_digits(d) && spec_dec_value(d) <= limit),
            }
        }),
{
    let ghost d = s@.subrange(from as int, s@.len() as int);
    let len = s.unicode_len();
    if from >= len {
        return None;
    }
    let mut acc: u64 = 0;
    let mut i: usize = from;
    while i < len
        invariant
            from <= i <= len,
            len == s@.len(),
            d == s@.subrange(from as int, s@.len() as int),
            all_digits(d.subrange(0, i - from)),
            acc == spec_dec_value(d.subrange(0, i - from)),
            acc <= limit,
        decreases len - i,
    {
        let c = s.get_char(i);
        let cu = c as u32;
        proof {
            assert(d[i - from] == s@[i as int]);
        }
        if cu < 48 || cu > 57 {
            return None;
        }
        let dv: u64 = (cu - 48) as u64;
        let wide: u128 = acc as u128 * 10 + dv as u128;
        proof {
            assert(d.subrange(0, i - from + 1).drop_last() =~= d.subrange(0, i - from));
            assert(d.subrange(0, i - from + 1).last() == d[i - from]);
        }
        if wide > limit as u128 {
            proof {
                if all_digits(d) {
                    lemma_dec_value_grows(d, i - from + 1);
                    lemma_dec_value_nonneg(d.subrange(0, i - from + 1));
                }
            }
            return None;
        }
        acc = wide as u64;
        i += 1;
    }
    proof {
        assert(d.subrange(0, d.len() as int) =~= d);
    }
    Some(acc)
}

/// Parse an unsigned 64-bit decimal token, exactly as `is_u64_string`
/// describes.
pub fn parse_u64(s: &str) -> (r: Option<u64>)
    ensures
        match r {
            Some(v) => is_u64_string(s@) && v == spec_u64_value(s@),
            None => !is_u64_string(s@),
        },
{
    let len = s.unicode_len();
    if len == 0 {
        return None;
    }
    let first = s.get_char(0);
    let from: usize = if first == '+' {
        1
    } else {
        0
    };
    let r = parse_digits(s, from, u64::MAX);
    proof {
        assert(s@.subrange(from as int, s@.len() as int) =~= spec_unsigned_digits(s@));
    }
    r
}

/// Parse a signed 32-bit decimal token, exactly as `is_i32_string`
/// describes.
pub fn parse_i32(s: &str) -> (r: Option<i32>)
    ensures
        match r {
            Some(v) => is_i32_string(s@) && v == spec_i32_value(s@),
            None => !is_i32_string(s@),
        },
{
    let len = s.unicode_len();
    if len == 0 {
        return None;
    }
    let first = s.get_char(0);
    let neg = first == '-';
    let from: usize = if first == '+' || first == '-' {
        1
    } else {
        0
    };
    proof {
        assert(s@.subrange(from as int, s@.len() as int) =~= spec_signed_digits(s@));
    }
    let mag = match parse_digits(s, from, 0x8000_0000u64) {
        Some(m) => m,
        None => {
            proof {
                let d = spec_signed_digits(s@);
                if d.len() >= 1 && all_digits(d) {
                    lemma_dec_value_nonneg(d);
                }
            }
            return None;
        },
    };
    if neg {
        Some((-(mag as i64)) as i32)
    } else {
        if mag <= 0x7fff_ffffu64 {
            Some(mag as i32)
        } else {
            None
        }
    }
}

} // verus!
