//! Decimal text of integers, as it stands on the wire.

use vstd::prelude::*;

verus! {

pub const DIGIT_ZERO: u8 = 48;

pub const DIGIT_NINE: u8 = 57;

pub const PLUS: u8 = 43;

pub const MINUS: u8 = 45;

/// The magnitude of `i64::MIN`.
pub const MIN_MAGNITUDE: u128 = 0x8000_0000_0000_0000;

pub open spec fn is_digit(b: u8) -> bool {
    DIGIT_ZERO <= b <= DIGIT_NINE
}

pub open spec fn all_digits(s: Seq<u8>) -> bool {
    forall|i: int| 0 <= i < s.len() ==> is_digit(#[trigger] s[i])
}

/// What one digit byte stands for; 0 for a byte that is no digit.
pub open spec fn digit_value(b: u8) -> nat {
    if is_digit(b) {
        (b - DIGIT_ZERO) as nat
    } else {
        0
    }
}

/// The number that a run of digits writes, most significant digit first.
pub open spec fn digits_value(s: Seq<u8>) -> nat
    decreases s.len(),
{
    if s.len() == 0 {
        0
    } else {
        digits_value(s.drop_last()) * 10 + digit_value(s.last())
    }
}

/// The digits of `n`, without leading zeros.
pub open spec fn digits_of(n: nat) -> Seq<u8>
    decreases n,
{
    if n < 10 {
        seq![(DIGIT_ZERO + n) as u8]
    } else {
        digits_of(n / 10).push((DIGIT_ZERO + n % 10) as u8)
    }
}

/// The canonical decimal text of `i`: a minus sign for negatives, no plus
/// sign, no leading zeros.
pub open spec fn int_text(i: int) -> Seq<u8> {
    if i < 0 {
        seq![MINUS] + digits_of((-i) as nat)
    } else {
        digits_of(i as nat)
    }
}

/// The integer that `s` writes: an optional sign, then one or more digits.
pub open spec fn parse_int(s: Seq<u8>) -> Option<int> {
    if s.len() > 0 && (s[0] == MINUS || s[0] == PLUS) {
        let d = s.skip(1);
        if d.len() > 0 && all_digits(d) {
            Some(
                if s[0] == MINUS {
                    -(digits_value(d) as int)
                } else {
                    digits_value(d) as int
                },
            )
        } else {
            None
        }
    } else if s.len() > 0 && all_digits(s) {
        Some(digits_value(s) as int)
    } else {
        None
    }
}

/// `parse_int`, kept to what a signed 64-bit integer holds.
pub open spec fn parse_i64(s: Seq<u8>) -> Option<i64> {
    match parse_int(s) {
        Some(v) => if i64::MIN <= v <= i64::MAX {
            Some(v as i64)
        } else {
            None
        },
        None => None,
    }
}

/// Adding a digit at the end never lowers the value.
pub proof fn lemma_digits_value_prefix(s: Seq<u8>, k: int)
    requires
        0 <= k <= s.len(),
    ensures
        digits_value(s.take(k)) <= digits_value(s),
    decreases s.len(),
{
    if k == s.len() {
        assert(s.take(k) =~= s);
    } else {
        assert(s.drop_last().take(k) =~= s.take(k));
        lemma_digits_value_prefix(s.drop_last(), k);
    }
}

/// The digits of `n` are digits, at least one of them, and write `n`.
pub proof fn lemma_digits_of(n: nat)
    ensures
        digits_of(n).len() >= 1,
        all_digits(digits_of(n)),
        digits_value(digits_of(n)) == n,
    decreases n,
{
    if n < 10 {
        let s = digits_of(n);
        assert(digits_value(s.drop_last()) == 0);
    } else {
        lemma_digits_of(n / 10);
        let s = digits_of(n);
        assert(s.drop_last() =~= digits_of(n / 10));
    }
}

/// Reading the canonical text of an integer gives the integer back.
pub proof fn lemma_parse_int_text(i: int)
    ensures
        parse_int(int_text(i)) == Some(i),
{
    if i < 0 {
        let n = (-i) as nat;
        lemma_digits_of(n);
        assert(int_text(i).skip(1) =~= digits_of(n));
    } else {
        lemma_digits_of(i as nat);
    }
}

/// Appends the digits of `n` to `out`.
pub fn push_digits(out: &mut Vec<u8>, n: u64)
    ensures
        final(out)@ == old(out)@ + digits_of(n as nat),
    decreases n,
{
    if n >= 10 {
        push_digits(out, n / 10);
    }
    let d: u8 = (n % 10) as u8;
    out.push(DIGIT_ZERO + d);
}

/// Appends the canonical decimal text of `i` to `out`.
pub fn push_i64(out: &mut Vec<u8>, i: i64)
    ensures
        final(out)@ == old(out)@ + int_text(i as int),
{
    if i < 0 {
        out.push(MINUS);
        let magnitude: u64 = if i == i64::MIN {
            0x8000_0000_0000_0000u64
        } else {
            (-i) as u64
        };
        push_digits(out, magnitude);
    } else {
        push_digits(out, i as u64);
    }
}

/// Appends the decimal text of a length to `out`.
pub fn push_len(out: &mut Vec<u8>, n: usize)
    ensures
        final(out)@ == old(out)@ + int_text(n as int),
{
    push_digits(out, n as u64);
}

/// Reads a signed 64-bit integer: an optional `+` or `-`, then digits only.
pub fn read_i64(s: &[u8]) -> (r: Option<i64>)
    ensures
        r == parse_i64(s@),
{
    let n = s.len();
    if n == 0 {
        return None;
    }
    let negative = s[0] == MINUS;
    let start: usize = if s[0] == MINUS || s[0] == PLUS {
        1
    } else {
        0
    };
    if start == n {
        return None;
    }
    let ghost digits = s@.skip(start as int);
    let mut acc: u128 = 0;
    let mut i: usize = start;
    while i < n
        invariant
            start <= i <= n,
            start < n,
            n == s@.len(),
            negative == (s@[0] == MINUS),
            start == if s@[0] == MINUS || s@[0] == PLUS { 1usize } else { 0usize },
            digits == s@.skip(start as int),
            acc == digits_value(digits.take(i - start)),
            acc <= MIN_MAGNITUDE,
            all_digits(digits.take(i - start)),
        decreases n - i,
    {
        let b = s[i];
        if b < DIGIT_ZERO || b > DIGIT_NINE {
            return None;
        }
        proof {
            let next = digits.take(i - start + 1);
            assert(next.drop_last() =~= digits.take(i - start));
        }
        acc = acc * 10 + (b - DIGIT_ZERO) as u128;
        if acc > MIN_MAGNITUDE {
            proof {
                lemma_digits_value_prefix(digits, i - start + 1);
                assert(start == 0 ==> digits =~= s@);
            }
            return None;
        }
        i += 1;
    }
    assert(digits.take(n - start) =~= digits);
    assert(start == 0 ==> digits =~= s@);
    if negative {
        if acc == MIN_MAGNITUDE {
            Some(i64::MIN)
        } else {
            Some(-(acc as i64))
        }
    } else if acc == MIN_MAGNITUDE {
        None
    } else {
        Some(acc as i64)
    }
}

} // verus!
