//! Decimal numbers in text: what a text reads as, digit by digit, and how a
//! number is written.

use crate::text::to_chars;
use vstd::prelude::*;

verus! {

/// Whether `c` is one of the ten decimal digits `0` to `9`.
pub open spec fn is_digit_char(c: char) -> bool {
    '0' <= c <= '9'
}

/// The number that the decimal digit `c` stands for.
pub open spec fn digit_value(c: char) -> int {
    c as int - '0' as int
}

/// Whether `text` holds decimal digits only.
pub open spec fn all_digits(text: Seq<char>) -> bool {
    forall|i: int| 0 <= i < text.len() ==> is_digit_char(#[trigger] text[i])
}

/// The number that a sequence of decimal digits writes; 0 for the empty one.
pub open spec fn decimal_value(digits: Seq<char>) -> int
    decreases digits.len(),
{
    if digits.len() == 0 {
        0
    } else {
        decimal_value(digits.drop_last()) * 10 + digit_value(digits.last())
    }
}

/// The number written by an optional `+` and at least one decimal digit.
pub open spec fn unsigned_text_value(text: Seq<char>) -> Option<int> {
    let digits = if text.len() > 0 && text[0] == '+' {
        text.skip(1)
    } else {
        text
    };
    if digits.len() > 0 && all_digits(digits) {
        Some(decimal_value(digits))
    } else {
        None
    }
}

/// The number written by an optional `+` or `-` and at least one decimal digit.
pub open spec fn signed_text_value(text: Seq<char>) -> Option<int> {
    if text.len() > 0 && text[0] == '-' {
        let digits = text.skip(1);
        if digits.len() > 0 && all_digits(digits) {
            Some(-decimal_value(digits))
        } else {
            None
        }
    } else {
        unsigned_text_value(text)
    }
}

/// What `text` reads as a `u32`: the number it writes, where it writes one
/// that fits.
pub open spec fn parse_u32_text(text: Seq<char>) -> Option<u32> {
    match unsigned_text_value(text) {
        Some(v) => if v <= u32::MAX {
            Some(v as u32)
        } else {
            None
        },
        None => None,
    }
}

/// What `text` reads as an `i32`: the number it writes, where it writes one
/// that fits.
pub open spec fn parse_i32_text(text: Seq<char>) -> Option<i32> {
    match signed_text_value(text) {
        Some(v) => if i32::MIN <= v <= i32::MAX {
            Some(v as i32)
        } else {
            None
        },
        None => None,
    }
}

/// A sequence of digits writes at least what any of its prefixes writes.
pub proof fn lemma_decimal_value_prefix(digits: Seq<char>, k: int)
    requires
        all_digits(digits),
        0 <= k <= digits.len(),
    ensures
        0 <= decimal_value(digits.take(k)) <= decimal_value(digits),
    decreases digits.len() - k,
{
    if k == digits.len() {
        assert(digits.take(k) =~= digits);
        lemma_decimal_value_nonnegative(digits);
    } else {
        let shorter = digits.drop_last();
        assert(shorter.take(k) =~= digits.take(k));
        assert(all_digits(shorter)) by {
            assert forall|i: int| 0 <= i < shorter.len() implies is_digit_char(
                #[trigger] shorter[i],
            ) by {
                assert(shorter[i] == digits[i]);
            }
        }
        lemma_decimal_value_prefix(shorter, k);
        assert(is_digit_char(digits[digits.len() - 1]));
    }
}

/// A sequence of digits writes no negative number.
pub proof fn lemma_decimal_value_nonnegative(digits: Seq<char>)
    requires
        all_digits(digits),
    ensures
        0 <= decimal_value(digits),
    decreases digits.len(),
{
    if digits.len() > 0 {
        let shorter = digits.drop_last();
        assert(all_digits(shorter)) by {
            assert forall|i: int| 0 <= i < shorter.len() implies is_digit_char(
                #[trigger] shorter[i],
            ) by {
                assert(shorter[i] == digits[i]);
            }
        }
        lemma_decimal_value_nonnegative(shorter);
        assert(is_digit_char(digits[digits.len() - 1]));
    }
}

fn digit_of(c: char) -> (d: Option<u64>)
    ensures
        match d {
            Some(v) => is_digit_char(c) && v == digit_value(c),
            None => !is_digit_char(c),
        },
{
    if '0' <= c && c <= '9' {
        Some(c as u64 - '0' as u64)
    } else {
        None
    }
}

/// Reads the digits of `chars` from position `from` on, as long as the number
/// stays within `limit`.
fn read_digits(chars: &Vec<char>, from: usize, limit: u64) -> (value: Option<u64>)
    requires
        from <= chars.len(),
        limit <= 0x1_0000_0000,
    ensures
        ({
            let digits = chars@.skip(from as int);
            if digits.len() > 0 && all_digits(digits) && decimal_value(digits) <= limit {
                value == Some(decimal_value(digits) as u64)
            } else {
                value is None
            }
        }),
{
    let n: usize = chars.len();
    let ghost digits = chars@.skip(from as int);
    if from == n {
        return None;
    }
    let mut acc: u64 = 0;
    let mut i: usize = from;
    assert(digits.take(0) =~= Seq::<char>::empty());
    while i < n
        invariant
            from <= i <= n,
            n == chars.len(),
            from < n,
            limit <= 0x1_0000_0000,
            digits == chars@.skip(from as int),
            all_digits(digits.take(i - from)),
            acc == decimal_value(digits.take(i - from)),
            acc <= limit,
        decreases n - i,
    {
        let ghost read = digits.take(i - from);
        let ghost next = digits.take(i - from + 1);
        proof {
            assert(next.drop_last() =~= read);
            assert(next.last() == chars@[i as int]);
        }
        match digit_of(chars[i]) {
            Some(d) => {
                acc = acc * 10 + d;
                proof {
                    assert(all_digits(next)) by {
                        assert forall|j: int| 0 <= j < next.len() implies is_digit_char(
                            #[trigger] next[j],
                        ) by {
                            if j < next.len() - 1 {
                                assert(next[j] == read[j]);
                            }
                        }
                    }
                }
                if acc > limit {
                    proof {
                        if all_digits(digits) {
                            lemma_decimal_value_prefix(digits, i - from + 1);
                        }
                    }
                    return None;
                }
            },
            None => {
                assert(!is_digit_char(digits[i - from]));
                return None;
            },
        }
        i += 1;
    }
    assert(digits.take(n - from) =~= digits);
    Some(acc)
}

/// Reads `text` as a `u32`: an optional `+`, then decimal digits.
pub fn parse_u32(text: &str) -> (value: Option<u32>)
    ensures
        value == parse_u32_text(text@),
{
    let chars = to_chars(text);
    let from: usize = if chars.len() > 0 && chars[0] == '+' {
        1
    } else {
        0
    };
    proof {
        assert(chars@.skip(0) =~= chars@);
        if all_digits(chars@.skip(from as int)) {
            lemma_decimal_value_nonnegative(chars@.skip(from as int));
        }
    }
    match read_digits(&chars, from, 0xffff_ffff) {
        Some(v) => Some(v as u32),
        None => None,
    }
}

/// Reads `text` as an `i32`: an optional `+` or `-`, then decimal digits.
pub fn parse_i32(text: &str) -> (value: Option<i32>)
    ensures
        value == parse_i32_text(text@),
{
    let chars = to_chars(text);
    assert(chars@.skip(0) =~= chars@);
    if chars.len() > 0 && chars[0] == '-' {
        proof {
            if all_digits(chars@.skip(1)) {
                lemma_decimal_value_nonnegative(chars@.skip(1));
            }
        }
        match read_digits(&chars, 1, 0x8000_0000) {
            Some(v) => Some((0 - v as i64) as i32),
            None => None,
        }
    } else {
        let from: usize = if chars.len() > 0 && chars[0] == '+' {
            1
        } else {
            0
        };
        proof {
            if all_digits(chars@.skip(from as int)) {
                lemma_decimal_value_nonnegative(chars@.skip(from as int));
            }
        }
        match read_digits(&chars, from, 0x7fff_ffff) {
            Some(v) => Some(v as i32),
            None => None,
        }
    }
}

/// The character that writes the digit `d`, for `d` from 0 to 9.
pub open spec fn digit_char(d: int) -> char {
    ('0' as int + d) as char
}

/// The decimal digits of `n`, without leading zeros.
pub open spec fn decimal_digits(n: nat) -> Seq<char>
    decreases n,
{
    if n < 10 {
        seq![digit_char(n as int)]
    } else {
        decimal_digits(n / 10).push(digit_char((n % 10) as int))
    }
}

/// The decimal digits of `n`, with zeros in front up to `width` digits.
pub open spec fn zero_padded(n: nat, width: nat) -> Seq<char> {
    let digits = decimal_digits(n);
    if digits.len() >= width {
        digits
    } else {
        Seq::new((width - digits.len()) as nat, |i: int| '0') + digits
    }
}

proof fn lemma_digit_char(d: int)
    requires
        0 <= d <= 9,
    ensures
        is_digit_char(digit_char(d)),
        digit_value(digit_char(d)) == d,
{
}

/// The digits of a number are digits, and write that number.
pub proof fn lemma_decimal_digits(n: nat)
    ensures
        decimal_digits(n).len() >= 1,
        all_digits(decimal_digits(n)),
        decimal_value(decimal_digits(n)) == n,
    decreases n,
{
    let digits = decimal_digits(n);
    if n < 10 {
        lemma_digit_char(n as int);
        assert(digits.drop_last() =~= Seq::<char>::empty());
        assert(digits.last() == digit_char(n as int));
        assert(decimal_value(digits.drop_last()) == 0);
        assert(decimal_value(digits) == decimal_value(digits.drop_last()) * 10 + digit_value(
            digits.last(),
        ));
    } else {
        lemma_decimal_digits(n / 10);
        lemma_digit_char((n % 10) as int);
        let front = decimal_digits(n / 10);
        assert(digits.drop_last() =~= front);
        assert(digits.last() == digit_char((n % 10) as int));
        assert(decimal_value(digits) == decimal_value(digits.drop_last()) * 10 + digit_value(
            digits.last(),
        ));
        assert forall|i: int| 0 <= i < digits.len() implies is_digit_char(#[trigger] digits[i]) by {
            if i < front.len() {
                assert(digits[i] == front[i]);
            }
        }
    }
}

proof fn lemma_zeros(count: nat)
    ensures
        decimal_value(Seq::new(count, |i: int| '0')) == 0,
    decreases count,
{
    let zeros = Seq::new(count, |i: int| '0');
    if count > 0 {
        assert(zeros.drop_last() =~= Seq::new((count - 1) as nat, |i: int| '0'));
        lemma_zeros((count - 1) as nat);
    }
}

proof fn lemma_leading_zeros(count: nat, digits: Seq<char>)
    requires
        all_digits(digits),
    ensures
        all_digits(Seq::new(count, |i: int| '0') + digits),
        decimal_value(Seq::new(count, |i: int| '0') + digits) == decimal_value(digits),
    decreases digits.len(),
{
    let zeros = Seq::new(count, |i: int| '0');
    let padded = zeros + digits;
    assert forall|i: int| 0 <= i < padded.len() implies is_digit_char(#[trigger] padded[i]) by {
        if i >= count {
            assert(padded[i] == digits[i - count]);
        }
    }
    if digits.len() == 0 {
        assert(padded =~= zeros);
        lemma_zeros(count);
    } else {
        let shorter = digits.drop_last();
        assert(all_digits(shorter)) by {
            assert forall|i: int| 0 <= i < shorter.len() implies is_digit_char(
                #[trigger] shorter[i],
            ) by {
                assert(shorter[i] == digits[i]);
            }
        }
        assert(padded.drop_last() =~= zeros + shorter);
        assert(padded.last() == digits.last());
        lemma_leading_zeros(count, shorter);
    }
}

/// A number written with zeros in front is written in digits, in at least
/// the asked width, and reads back as that number.
pub proof fn lemma_zero_padded(n: nat, width: nat)
    ensures
        zero_padded(n, width).len() >= 1,
        zero_padded(n, width).len() >= width,
        all_digits(zero_padded(n, width)),
        decimal_value(zero_padded(n, width)) == n,
{
    lemma_decimal_digits(n);
    let digits = decimal_digits(n);
    if digits.len() < width {
        lemma_leading_zeros((width - digits.len()) as nat, digits);
    }
}

} // verus!
