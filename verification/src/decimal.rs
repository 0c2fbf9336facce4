//! Decimal numbers as a user types them.

use vstd::prelude::*;

verus! {

/// Whether `c` is one of the digits `0` to `9`.
pub open spec fn is_digit(c: char) -> bool {
    0x30 <= c as u32 <= 0x39
}

/// The value of the digit `c`.
pub open spec fn digit_value(c: char) -> nat {
    (c as u32 - 0x30) as nat
}

/// The number that a sequence of digits writes in base ten.
pub open spec fn decimal_value(digits: Seq<char>) -> nat
    decreases digits.len(),
{
    if digits.len() == 0 {
        0
    } else {
        10 * decimal_value(digits.drop_last()) + digit_value(digits.last())
    }
}

/// `text` without the one `+` that may stand in front.
pub open spec fn unsigned_part(text: Seq<char>) -> Seq<char> {
    if text.len() > 0 && text[0] == '+' {
        text.skip(1)
    } else {
        text
    }
}

/// Whether `text` is a decimal number: at least one digit and nothing but digits,
/// behind at most one `+`.
pub open spec fn is_decimal(text: Seq<char>) -> bool {
    let digits = unsigned_part(text);
    digits.len() > 0 && forall|i: int| 0 <= i < digits.len() ==> is_digit(#[trigger] digits[i])
}

/// The number that `text` writes, where it is a decimal number of at most 64 bits.
pub open spec fn parsed_u64(text: Seq<char>) -> Option<u64> {
    if is_decimal(text) && decimal_value(unsigned_part(text)) <= u64::MAX {
        Some(decimal_value(unsigned_part(text)) as u64)
    } else {
        None
    }
}

/// The first digits of a number write no more than all of them.
proof fn lemma_prefix_value(digits: Seq<char>, k: int)
    requires
        0 <= k <= digits.len(),
        forall|i: int| 0 <= i < digits.len() ==> is_digit(#[trigger] digits[i]),
    ensures
        decimal_value(digits.take(k)) <= decimal_value(digits),
    decreases digits.len(),
{
    if k == digits.len() {
        assert(digits.take(k) == digits);
    } else {
        let shorter = digits.drop_last();
        assert(shorter.take(k) == digits.take(k));
        assert(is_digit(digits[digits.len() - 1]));
        lemma_prefix_value(shorter, k);
    }
}

/// Reads a decimal number of at most 64 bits: digits only, with at most one `+`
/// in front.
pub fn parse_u64(text: &str) -> (value: Option<u64>)
    ensures
        value == parsed_u64(text@),
{
    let n: usize = text.unicode_len();
    let mut i: usize = 0;
    if n > 0 && text.get_char(0) == '+' {
        i = 1;
    }
    let first: usize = i;
    let ghost digits = unsigned_part(text@);
    proof {
        assert(digits == text@.skip(first as int));
    }
    if i == n {
        return None;
    }
    let mut acc: u64 = 0;
    proof {
        assert(digits.take(0) == Seq::<char>::empty());
    }
    while i < n
        invariant
            n == text@.len(),
            first <= i <= n,
            first < n,
            digits == text@.skip(first as int),
            digits == unsigned_part(text@),
            forall|j: int| 0 <= j < i - first ==> is_digit(#[trigger] digits[j]),
            acc == decimal_value(digits.take(i - first)),
        decreases n - i,
    {
        let c: char = text.get_char(i);
        let u: u32 = c as u32;
        proof {
            assert(digits[i - first] == c);
        }
        if u < 0x30 || u > 0x39 {
            return None;
        }
        let d: u64 = (u - 0x30) as u64;
        proof {
            let longer = digits.take(i - first + 1);
            assert(longer.drop_last() == digits.take(i - first));
            assert(longer.last() == c);
            assert(decimal_value(longer) == 10 * acc + d);
        }
        if acc > (u64::MAX - d) / 10 {
            proof {
                if is_decimal(text@) {
                    lemma_prefix_value(digits, i - first + 1);
                }
            }
            return None;
        }
        acc = acc * 10 + d;
        i = i + 1;
    }
    proof {
        assert(digits.take(i - first) == digits);
    }
    Some(acc)
}

} // verus!
