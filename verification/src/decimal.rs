//! Unsigned numbers written in base 10 with ASCII digits.

use vstd::prelude::*;
use crate::error::ParseError;

verus! {

/// Whether `byte` is one of the ASCII digits `0` to `9`.
pub open spec fn is_digit(byte: u8) -> bool {
    0x30 <= byte <= 0x39
}

/// The number that the digit `byte` stands for.
pub open spec fn digit_value(byte: u8) -> nat {
    (byte - 0x30) as nat
}

/// Whether every byte of `text` is a digit.
pub open spec fn all_digits(text: Seq<u8>) -> bool {
    forall|i: int| 0 <= i < text.len() ==> is_digit(#[trigger] text[i])
}

/// How many digits `text` starts with.
pub open spec fn digit_run(text: Seq<u8>) -> nat
    decreases text.len(),
{
    if text.len() > 0 && is_digit(text[0]) {
        1 + digit_run(text.skip(1))
    } else {
        0
    }
}

/// The number that `digits` spell in base 10, the most significant digit
/// first. Leading zeros count for nothing, and no digits at all spell zero.
pub open spec fn decimal_value(digits: Seq<u8>) -> nat
    decreases digits.len(),
{
    if digits.len() == 0 {
        0
    } else {
        10 * decimal_value(digits.drop_last()) + digit_value(digits.last())
    }
}

/// The shortest way to write `n` in base 10.
pub open spec fn decimal_digits(n: nat) -> Seq<u8>
    decreases n,
{
    if n < 10 {
        seq![(0x30 + n) as u8]
    } else {
        decimal_digits(n / 10).push((0x30 + n % 10) as u8)
    }
}

/// The number at the start of `text`, as a `usize` reads it: the value of the
/// whole run of digits there, together with the length of that run.
pub open spec fn usize_token(text: Seq<u8>) -> Result<(nat, nat), ParseError> {
    let len = digit_run(text);
    let value = decimal_value(text.take(len as int));
    if len == 0 {
        Err(ParseError::Digit)
    } else if value > usize::MAX {
        Err(ParseError::Overflow)
    } else {
        Ok((value, len))
    }
}

/// The run of digits at the start of `text` lies within `text`, holds digits
/// only, and ends where `text` ends or a byte that is no digit stands.
pub proof fn lemma_digit_run(text: Seq<u8>)
    ensures
        digit_run(text) <= text.len(),
        all_digits(text.take(digit_run(text) as int)),
        digit_run(text) < text.len() ==> !is_digit(text[digit_run(text) as int]),
    decreases text.len(),
{
    if text.len() > 0 && is_digit(text[0]) {
        let rest = text.skip(1);
        lemma_digit_run(rest);
        let run = digit_run(text);
        assert forall|i: int| 0 <= i < run implies is_digit(#[trigger] text.take(run as int)[i]) by {
            if i > 0 {
                assert(text[i] == rest.take(run - 1)[i - 1]);
            }
        }
    }
}

/// Behind digits the run of digits goes on as it would without them.
pub proof fn lemma_digit_run_behind_digits(digits: Seq<u8>, rest: Seq<u8>)
    requires
        all_digits(digits),
    ensures
        digit_run(digits + rest) == digits.len() + digit_run(rest),
    decreases digits.len(),
{
    if digits.len() == 0 {
        assert(digits + rest =~= rest);
    } else {
        let text = digits + rest;
        assert(text[0] == digits[0]);
        let shorter = digits.skip(1);
        assert forall|i: int| 0 <= i < shorter.len() implies is_digit(#[trigger] shorter[i]) by {
            assert(shorter[i] == digits[i + 1]);
        }
        assert(text.skip(1) =~= shorter + rest);
        lemma_digit_run_behind_digits(shorter, rest);
    }
}

/// Reading one digit more never makes the number smaller.
pub proof fn lemma_decimal_value_grows(text: Seq<u8>, shorter: nat, longer: nat)
    requires
        shorter <= longer <= text.len(),
    ensures
        decimal_value(text.take(shorter as int)) <= decimal_value(text.take(longer as int)),
    decreases longer,
{
    if shorter < longer {
        assert(text.take(longer as int).drop_last() =~= text.take(longer - 1));
        lemma_decimal_value_grows(text, shorter, (longer - 1) as nat);
    }
}

/// Writing a number out and reading it back gives the number: its shortest
/// decimal text is not empty, holds digits only, and spells it.
pub proof fn lemma_decimal_digits(n: nat)
    ensures
        decimal_digits(n).len() >= 1,
        all_digits(decimal_digits(n)),
        decimal_value(decimal_digits(n)) == n,
    decreases n,
{
    if n < 10 {
        let text = decimal_digits(n);
        assert(text.drop_last() =~= Seq::<u8>::empty());
        assert(decimal_value(text.drop_last()) == 0);
    } else {
        lemma_decimal_digits(n / 10);
        let head = decimal_digits(n / 10);
        let text = decimal_digits(n);
        assert(text.drop_last() =~= head);
    }
}

/// Recognizes an unsigned number in base 10 at the start of `input` and
/// converts it to a `usize`.
///
/// The number is the whole run of digits there. On success the result holds
/// its value and the count of bytes it takes up. There is no number where
/// `input` does not start with a digit, and one too large for a `usize` is
/// refused rather than cut down.
pub fn parse_usize(input: &[u8]) -> (result: Result<(usize, usize), ParseError>)
    ensures
        match result {
            Ok((value, consumed)) => usize_token(input@) == Ok::<(nat, nat), ParseError>(
                (value as nat, consumed as nat),
            ),
            Err(error) => usize_token(input@) == Err::<(nat, nat), ParseError>(error),
        },
{
    let mut value: usize = 0;
    let mut end: usize = 0;
    assert(input@.skip(0) =~= input@);
    while end < input.len() && 0x30 <= input[end] && input[end] <= 0x39
        invariant
            end <= input.len(),
            digit_run(input@) == end + digit_run(input@.skip(end as int)),
            value == decimal_value(input@.take(end as int)),
        decreases input.len() - end,
    {
        let digit: usize = (input[end] - 0x30) as usize;
        proof {
            let rest = input@.skip(end as int);
            assert(rest[0] == input@[end as int]);
            assert(rest.skip(1) =~= input@.skip(end + 1));
            assert(input@.take(end + 1).drop_last() =~= input@.take(end as int));
            lemma_digit_run(input@);
            lemma_decimal_value_grows(input@, (end + 1) as nat, digit_run(input@));
        }
        let scaled = match value.checked_mul(10) {
            Some(scaled) => scaled,
            None => { return Err(ParseError::Overflow); },
        };
        value = match scaled.checked_add(digit) {
            Some(sum) => sum,
            None => { return Err(ParseError::Overflow); },
        };
        end += 1;
    }
    if end == 0 {
        Err(ParseError::Digit)
    } else {
        Ok((value, end))
    }
}

} // verus!
