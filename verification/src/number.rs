//! Positions written in decimal, and read back.

use vstd::prelude::*;

verus! {

/// The character that stands for the digit `d`, for `d` below ten.
pub open spec fn digit(d: nat) -> char {
    seq!['0', '1', '2', '3', '4', '5', '6', '7', '8', '9'][d as int]
}

/// `n` in decimal, without sign or leading zeros.
pub open spec fn decimal(n: nat) -> Seq<char>
    decreases n,
{
    if n < 10 {
        seq![digit(n)]
    } else {
        decimal(n / 10).push(digit(n % 10))
    }
}

fn digit_char(d: u8) -> (c: char)
    requires
        d < 10,
    ensures
        c == digit(d as nat),
{
    ('0' as u8 + d) as char
}

/// Writes `n` in decimal at the end of `out`.
pub fn push_decimal(out: &mut String, n: usize)
    ensures
        final(out)@ == old(out)@ + decimal(n as nat),
    decreases n,
{
    if n >= 10 {
        push_decimal(out, n / 10);
    }
    out.push(digit_char((n % 10) as u8));
}

/// Whether `c` is one of the ten decimal digits.
pub open spec fn is_digit(c: char) -> bool {
    '0' <= c <= '9'
}

/// The number that a string of decimal digits stands for.
pub open spec fn digits_value(digits: Seq<char>) -> nat
    decreases digits.len(),
{
    if digits.len() == 0 {
        0
    } else {
        digits_value(digits.drop_last()) * 10 + (digits.last() as nat - '0' as nat) as nat
    }
}

/// Whether `digits` holds decimal digits only.
pub open spec fn all_digits(digits: Seq<char>) -> bool {
    forall|i: int| 0 <= i < digits.len() ==> is_digit(#[trigger] digits[i])
}

/// `text` without the `+` that it starts with, if it does.
pub open spec fn without_plus(text: Seq<char>) -> Seq<char> {
    if text.len() > 0 && text[0] == '+' {
        text.drop_first()
    } else {
        text
    }
}

/// The number that `text` stands for: one or more decimal digits, with at most
/// one `+` before them and nothing else before, between or after.
pub open spec fn number_of(text: Seq<char>) -> Option<nat> {
    let digits = without_plus(text);
    if digits.len() > 0 && all_digits(digits) {
        Some(digits_value(digits))
    } else {
        None
    }
}

/// A longer string of digits stands for no smaller a number than its start.
pub proof fn lemma_digits_value_grows(digits: Seq<char>, k: int)
    requires
        0 <= k <= digits.len(),
    ensures
        digits_value(digits.take(k)) <= digits_value(digits),
    decreases digits.len(),
{
    if k == digits.len() {
        assert(digits.take(k) =~= digits);
    } else {
        lemma_digits_value_grows(digits.drop_last(), k);
        assert(digits.drop_last().take(k) =~= digits.take(k));
    }
}

/// Reads a position. `None` where `text` is no number or the number does not
/// fit in a `usize`.
pub fn parse_index(text: &str) -> (index: Option<usize>)
    ensures
        index == (if number_of(text@) is Some && number_of(text@)->0 <= usize::MAX {
            Some(number_of(text@)->0 as usize)
        } else {
            None
        }),
{
    let mut value: usize = 0;
    let mut first = true;
    let mut any_digit = false;
    let ghost digits = without_plus(text@);
    let ghost from = text@.len() - digits.len();
    for c in it: text.chars()
        invariant
            it.seq() == text@,
            0 <= from <= 1,
            from == 1 <==> text@.len() > 0 && text@[0] == '+',
            digits == without_plus(text@),
            digits == text@.skip(from),
            first <==> it.index() == 0,
            any_digit <==> it.index() > from,
            it.index() >= from ==> all_digits(digits.take(it.index() - from)),
            it.index() >= from ==> value == digits_value(digits.take(it.index() - from)),
            it.index() < from ==> value == 0,
    {
        let ghost at = it.index();
        if first && c == '+' {
            first = false;
        } else {
            first = false;
            if !('0' <= c && c <= '9') {
                return None;
            }
            let d: usize = (c as u8 - '0' as u8) as usize;
            proof {
                assert(digits.take(at + 1 - from).drop_last() =~= digits.take(at - from));
                lemma_digits_value_grows(digits, at + 1 - from);
            }
            let tens = match value.checked_mul(10) {
                Some(tens) => tens,
                None => {
                    return None;
                },
            };
            value = match tens.checked_add(d) {
                Some(sum) => sum,
                None => {
                    return None;
                },
            };
            any_digit = true;
        }
    }
    proof {
        assert(digits.take(digits.len() as int) =~= digits);
    }
    if any_digit {
        Some(value)
    } else {
        None
    }
}

/// The decimal form of a number is a string of digits that stands for it.
pub proof fn lemma_decimal_is_digits(n: nat)
    ensures
        decimal(n).len() > 0,
        all_digits(decimal(n)),
        digits_value(decimal(n)) == n,
    decreases n,
{
    assert(digit(n % 10) as nat - '0' as nat == n % 10);
    assert(decimal(n).last() == digit(n % 10));
    if n < 10 {
        assert(decimal(n).drop_last() =~= Seq::<char>::empty());
        assert(digits_value(Seq::<char>::empty()) == 0);
    } else {
        lemma_decimal_is_digits(n / 10);
        assert(decimal(n).drop_last() =~= decimal(n / 10));
    }
}

/// A number written in decimal reads back as itself.
pub proof fn lemma_decimal_reads_back(n: nat)
    ensures
        number_of(decimal(n)) == Some(n),
{
    lemma_decimal_is_digits(n);
    assert(is_digit(decimal(n)[0]));
}

} // verus!
