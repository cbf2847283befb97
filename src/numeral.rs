//! Decimal text of a signed 32-bit integer: an optional `+` or `-`
//! followed by one or more ASCII digits, nothing else.
use vstd::prelude::*;

verus! {

broadcast use vstd::string::is_ascii_spec_bytes;

/// ASCII codes of the characters a numeral is made of.
const MINUS: u8 = 45;

const PLUS: u8 = 43;

const ZERO: u8 = 48;

const NINE: u8 = 57;

pub open spec fn is_digit(c: char) -> bool {
    '0' <= c && c <= '9'
}

pub open spec fn digit_value(c: char) -> nat {
    (c as u32 - '0' as u32) as nat
}

/// The value of a run of decimal digits, most significant first.
pub open spec fn digits_value(s: Seq<char>) -> nat
    decreases s.len(),
{
    if s.len() == 0 {
        0
    } else {
        10 * digits_value(s.drop_last()) + digit_value(s.last())
    }
}

/// Length of the leading sign of `t`: 1 where `t` starts with `+` or `-`.
pub open spec fn sign_len(t: Seq<char>) -> int {
    if t.len() > 0 && (t[0] == '+' || t[0] == '-') {
        1
    } else {
        0
    }
}

/// `t` is a sign, if any, followed by at least one digit.
pub open spec fn is_numeral(t: Seq<char>) -> bool {
    &&& t.len() > sign_len(t)
    &&& forall|i: int| sign_len(t) <= i < t.len() ==> is_digit(#[trigger] t[i])
}

pub open spec fn magnitude(t: Seq<char>) -> nat {
    digits_value(t.subrange(sign_len(t), t.len() as int))
}

pub open spec fn numeral_value(t: Seq<char>) -> int {
    if t.len() > 0 && t[0] == '-' {
        -magnitude(t)
    } else {
        magnitude(t) as int
    }
}

/// The 32-bit integer that `t` writes, if it writes one within range.
pub open spec fn i32_of_text(t: Seq<char>) -> Option<i32> {
    if is_numeral(t) && i32::MIN <= numeral_value(t) <= i32::MAX {
        Some(numeral_value(t) as i32)
    } else {
        None
    }
}

/// A longer run of digits never has a smaller value than its prefix.
proof fn lemma_digits_value_prefix(s: Seq<char>, j: int)
    requires
        0 <= j <= s.len(),
        forall|i: int| 0 <= i < s.len() ==> is_digit(#[trigger] s[i]),
    ensures
        digits_value(s.subrange(0, j)) <= digits_value(s),
    decreases s.len(),
{
    if j < s.len() {
        let t = s.drop_last();
        assert(t.subrange(0, j) =~= s.subrange(0, j));
        lemma_digits_value_prefix(t, j);
    } else {
        assert(s.subrange(0, j) =~= s);
    }
}

/// A text that writes a number is made of ASCII characters only.
proof fn lemma_numeral_is_ascii(t: Seq<char>)
    requires
        is_numeral(t),
    ensures
        vstd::utf8::is_ascii_chars(t),
{
    assert forall|i: int| 0 <= i < t.len() implies '\0' <= #[trigger] t[i] <= '\u{7f}' by {
        if i >= sign_len(t) {
            assert(is_digit(t[i]));
        }
    }
}

/// Reads the signed 32-bit integer that `s` writes in decimal; `None` where
/// `s` is not a sign and digits, or its value does not fit in 32 bits.
pub fn parse_i32(s: &str) -> (r: Option<i32>)
    ensures
        r == i32_of_text(s@),
{
    if !s.is_ascii() {
        proof {
            if is_numeral(s@) {
                lemma_numeral_is_ascii(s@);
            }
        }
        return None;
    }
    let b = s.as_bytes();
    let n = b.len();
    let ghost t = s@;
    assert(n == t.len());
    if n == 0 {
        return None;
    }
    let negative = b[0] == MINUS;
    let start: usize = if b[0] == MINUS || b[0] == PLUS { 1 } else { 0 };
    assert(start == sign_len(t));
    if start == n {
        return None;
    }
    let ghost rest = t.subrange(start as int, n as int);
    let limit: u64 = if negative { 2147483648 } else { 2147483647 };
    let mut acc: u64 = 0;
    let mut i: usize = start;
    while i < n
        invariant
            start <= i <= n,
            n == b@.len(),
            t == s@,
            n == t.len(),
            start == sign_len(t),
            rest == t.subrange(start as int, n as int),
            forall|j: int| 0 <= j < n ==> t[j] as u8 == #[trigger] b@[j],
            forall|j: int| 0 <= j < n ==> '\0' <= #[trigger] t[j] <= '\u{7f}',
            forall|j: int| start <= j < i ==> is_digit(#[trigger] t[j]),
            acc == digits_value(rest.subrange(0, i - start)),
            acc <= limit,
            limit == (if negative { 2147483648u64 } else { 2147483647u64 }),
            negative == (t[0] == '-'),
        decreases n - i,
    {
        let c = b[i];
        if c < ZERO || c > NINE {
            proof {
                if is_numeral(t) {
                    assert(is_digit(t[i as int]));
                }
            }
            return None;
        }
        assert(is_digit(t[i as int]));
        proof {
            let p = rest.subrange(0, i + 1 - start);
            assert(p.drop_last() =~= rest.subrange(0, i - start));
            assert(p.last() == t[i as int]);
        }
        assert(acc * 10 <= limit * 10) by (nonlinear_arith)
            requires
                acc <= limit,
            limit == (if negative { 2147483648u64 } else { 2147483647u64 }),
            negative == (t[0] == '-'),
        ;
        acc = acc * 10 + (c - ZERO) as u64;
        i = i + 1;
        if acc > limit {
            proof {
                if is_numeral(t) {
                    assert forall|j: int| 0 <= j < rest.len() implies is_digit(
                        #[trigger] rest[j],
                    ) by {
                        assert(is_digit(t[start + j]));
                    }
                    lemma_digits_value_prefix(rest, i - start);
                    assert(magnitude(t) == digits_value(rest));
                }
            }
            return None;
        }
    }
    assert(rest.subrange(0, n - start) =~= rest);
    assert(is_numeral(t));
    if negative {
        Some((0 - acc as i64) as i32)
    } else {
        Some(acc as i32)
    }
}

} // verus!
