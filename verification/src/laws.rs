//! What holds of the line parser on every text: which texts it accepts, what
//! it reads from them, and how it refuses the others.

use vstd::prelude::*;
use crate::decimal::{
    all_digits, decimal_digits, decimal_value, digit_run, is_digit, lemma_decimal_digits,
    lemma_decimal_value_grows, lemma_digit_run, lemma_digit_run_behind_digits, usize_token,
};
use crate::error::ParseError;
use crate::parser::{number_then_line_ending, number_then_space, schedstat_line};
use crate::record::Schedstat;
use crate::whitespace::{is_blank, line_ending_len, single_space};

verus! {

/// Whether `digits` can stand for a field of the record: at least one digit,
/// nothing but digits, and a value within the range of `usize`.
pub open spec fn is_field(digits: Seq<u8>) -> bool {
    &&& digits.len() >= 1
    &&& all_digits(digits)
    &&& decimal_value(digits) <= usize::MAX
}

/// Whether `ending` is one of the two line endings, `\n` and `\r\n`.
pub open spec fn is_line_ending(ending: Seq<u8>) -> bool {
    ending == seq![0x0au8] || ending == seq![0x0du8, 0x0au8]
}

/// The separator of two fields: one space.
pub open spec fn separator() -> Seq<u8> {
    seq![0x20u8]
}

/// The line made of three fields, with a space between two of them and
/// `ending` behind the third.
pub open spec fn line(a: Seq<u8>, b: Seq<u8>, c: Seq<u8>, ending: Seq<u8>) -> Seq<u8> {
    a + separator() + b + separator() + c + ending
}

/// The record whose fields are spelled by `a`, `b` and `c`.
pub open spec fn record(a: Seq<u8>, b: Seq<u8>, c: Seq<u8>) -> Schedstat {
    Schedstat {
        sum_exec_runtime: decimal_value(a) as usize,
        run_delay: decimal_value(b) as usize,
        pcount: decimal_value(c) as usize,
    }
}

/// The line that the kernel writes for `stats`: each counter in its shortest
/// decimal form, and a line feed at the end.
pub open spec fn schedstat_text(stats: Schedstat) -> Seq<u8> {
    line(
        decimal_digits(stats.sum_exec_runtime as nat),
        decimal_digits(stats.run_delay as nat),
        decimal_digits(stats.pcount as nat),
        seq![0x0au8],
    )
}

/// Digits with no digit behind them are read as one number, whole.
proof fn lemma_token(digits: Seq<u8>, rest: Seq<u8>)
    requires
        digits.len() >= 1,
        all_digits(digits),
        rest.len() == 0 || !is_digit(rest[0]),
    ensures
        digit_run(digits + rest) == digits.len(),
        (digits + rest).take(digits.len() as int) == digits,
        (digits + rest).skip(digits.len() as int) == rest,
        usize_token(digits + rest) == if decimal_value(digits) > usize::MAX {
            Err::<(nat, nat), ParseError>(ParseError::Overflow)
        } else {
            Ok::<(nat, nat), ParseError>((decimal_value(digits), digits.len()))
        },
{
    lemma_digit_run_behind_digits(digits, rest);
    assert((digits + rest).take(digits.len() as int) =~= digits);
    assert((digits + rest).skip(digits.len() as int) =~= rest);
}

/// A field, a space and then no blank: the field is read and the space taken.
proof fn lemma_field_then_space(field: Seq<u8>, rest: Seq<u8>)
    requires
        is_field(field),
        rest.len() == 0 || !is_blank(rest[0]),
    ensures
        number_then_space(field + (separator() + rest)) == Ok::<(nat, Seq<u8>), ParseError>(
            (decimal_value(field), rest),
        ),
{
    let behind = separator() + rest;
    let text = field + behind;
    lemma_token(field, behind);
    if rest.len() > 0 {
        assert(behind[1] == rest[0]);
    }
    assert(text.skip(field.len() as int + 1) =~= rest);
}

/// A field and a line ending: the field is read.
proof fn lemma_field_then_line_ending(field: Seq<u8>, ending: Seq<u8>, rest: Seq<u8>)
    requires
        is_field(field),
        is_line_ending(ending),
    ensures
        number_then_line_ending(field + (ending + rest)) == Ok::<nat, ParseError>(
            decimal_value(field),
        ),
{
    let behind = ending + rest;
    assert(behind[0] == ending[0]);
    if ending.len() == 2 {
        assert(behind[1] == ending[1]);
    }
    lemma_token(field, behind);
}

/// Every text that starts with a line of three fields is accepted, and the
/// record read from it holds the three numbers in the order in which they
/// stand. What follows the line makes no difference.
pub proof fn lemma_line_is_accepted(
    text: Seq<u8>,
    a: Seq<u8>,
    b: Seq<u8>,
    c: Seq<u8>,
    ending: Seq<u8>,
)
    requires
        is_field(a),
        is_field(b),
        is_field(c),
        is_line_ending(ending),
        line(a, b, c, ending).is_prefix_of(text),
    ensures
        schedstat_line(text) == Ok::<Schedstat, ParseError>(record(a, b, c)),
{
    let whole = line(a, b, c, ending);
    let rest = text.skip(whole.len() as int);
    let third = c + (ending + rest);
    let second = b + (separator() + third);
    assert(text =~= whole + rest);
    assert(whole + rest =~= a + (separator() + second));
    assert(second[0] == b[0]);
    assert(third[0] == c[0]);
    lemma_field_then_space(a, second);
    lemma_field_then_space(b, third);
    lemma_field_then_line_ending(c, ending, rest);
}

/// Writing a record out as the kernel does and parsing that line gives the
/// record back.
pub proof fn lemma_round_trip(stats: Schedstat)
    ensures
        schedstat_line(schedstat_text(stats)) == Ok::<Schedstat, ParseError>(stats),
{
    let a = decimal_digits(stats.sum_exec_runtime as nat);
    let b = decimal_digits(stats.run_delay as nat);
    let c = decimal_digits(stats.pcount as nat);
    lemma_decimal_digits(stats.sum_exec_runtime as nat);
    lemma_decimal_digits(stats.run_delay as nat);
    lemma_decimal_digits(stats.pcount as nat);
    lemma_line_is_accepted(schedstat_text(stats), a, b, c, seq![0x0au8]);
}

/// Nothing but a line of three fields is accepted: a text from which a record
/// is read starts with three fields, one space between two of them and a line
/// ending behind the third, and the record holds the numbers they spell.
/// The result names the three fields and the line ending.
pub proof fn lemma_accepted_is_line(text: Seq<u8>) -> (parts: (Seq<u8>, Seq<u8>, Seq<u8>, Seq<u8>))
    requires
        schedstat_line(text) is Ok,
    ensures
        is_field(parts.0),
        is_field(parts.1),
        is_field(parts.2),
        is_line_ending(parts.3),
        line(parts.0, parts.1, parts.2, parts.3).is_prefix_of(text),
        schedstat_line(text) == Ok::<Schedstat, ParseError>(record(parts.0, parts.1, parts.2)),
{
    let first_len = digit_run(text) as int;
    let a = text.take(first_len);
    let second = text.skip(first_len + 1);
    let second_len = digit_run(second) as int;
    let b = second.take(second_len);
    let third = second.skip(second_len + 1);
    let third_len = digit_run(third) as int;
    let c = third.take(third_len);
    let behind = third.skip(third_len);
    let ending = behind.take(line_ending_len(behind)->0 as int);
    lemma_digit_run(text);
    lemma_digit_run(second);
    lemma_digit_run(third);
    assert(text.skip(first_len)[0] == text[first_len]);
    assert(second.skip(second_len)[0] == second[second_len]);
    assert(behind[0] == third[third_len]);
    if ending.len() == 2 {
        assert(behind[1] == third[third_len + 1]);
    }
    assert(ending =~= seq![0x0au8] || ending =~= seq![0x0du8, 0x0au8]);
    let whole = line(a, b, c, ending);
    assert(whole =~= text.subrange(0, whole.len() as int));
    (a, b, c, ending)
}

/// A text that does not start with a digit is refused at once: the empty
/// text, an empty line, a sign, a letter, a space.
pub proof fn lemma_refuses_a_start_without_digit(text: Seq<u8>)
    requires
        text.len() == 0 || !is_digit(text[0]),
    ensures
        schedstat_line(text) == Err::<Schedstat, ParseError>(ParseError::Digit),
{
}

/// A number too large for a `usize` is refused in each of the three places,
/// whatever stands behind it: it is neither cut down nor wrapped around.
pub proof fn lemma_refuses_overflow(a: Seq<u8>, b: Seq<u8>, large: Seq<u8>, rest: Seq<u8>)
    requires
        is_field(a),
        is_field(b),
        all_digits(large),
        decimal_value(large) > usize::MAX,
    ensures
        usize_token(large + rest) == Err::<(nat, nat), ParseError>(ParseError::Overflow),
        schedstat_line(large + rest) == Err::<Schedstat, ParseError>(ParseError::Overflow),
        schedstat_line(a + separator() + large + rest) == Err::<Schedstat, ParseError>(
            ParseError::Overflow,
        ),
        schedstat_line(a + separator() + b + separator() + large + rest) == Err::<
            Schedstat,
            ParseError,
        >(ParseError::Overflow),
{
    let third = large + rest;
    lemma_digit_run_behind_digits(large, rest);
    lemma_digit_run(third);
    lemma_decimal_value_grows(third, large.len(), digit_run(third));
    assert(third.take(large.len() as int) =~= large);
    assert(large.len() > 0) by {
        if large.len() == 0 {
            assert(decimal_value(large) == 0);
        }
    }
    assert(third[0] == large[0]);
    let second = b + (separator() + third);
    assert(second[0] == b[0]);
    lemma_field_then_space(a, third);
    lemma_field_then_space(a, second);
    lemma_field_then_space(b, third);
    assert(a + separator() + large + rest =~= a + (separator() + third));
    assert(a + separator() + b + separator() + large + rest =~= a + (separator() + second));
}

/// Behind a field, anything but a single space is refused: the end of the
/// text, a line ending, a letter, a tab, and a space with a second space or a
/// tab behind it. This holds behind the first field and behind the second.
pub proof fn lemma_refuses_a_wrong_separator(a: Seq<u8>, b: Seq<u8>, rest: Seq<u8>)
    requires
        is_field(a),
        is_field(b),
        rest.len() == 0 || !is_digit(rest[0]),
        !single_space(rest),
    ensures
        schedstat_line(a + rest) == Err::<Schedstat, ParseError>(ParseError::Space),
        schedstat_line(a + separator() + b + rest) == Err::<Schedstat, ParseError>(
            ParseError::Space,
        ),
{
    lemma_token(a, rest);
    lemma_token(b, rest);
    let second = b + rest;
    assert(second[0] == b[0]);
    lemma_field_then_space(a, second);
    assert(a + separator() + b + rest =~= a + (separator() + second));
}

/// Behind a space, anything but a digit is refused: the end of the text, a
/// sign, a letter. This holds for the second field and for the third.
pub proof fn lemma_refuses_a_field_without_digit(a: Seq<u8>, b: Seq<u8>, rest: Seq<u8>)
    requires
        is_field(a),
        is_field(b),
        rest.len() == 0 || (!is_digit(rest[0]) && !is_blank(rest[0])),
    ensures
        schedstat_line(a + separator() + rest) == Err::<Schedstat, ParseError>(
            ParseError::Digit,
        ),
        schedstat_line(a + separator() + b + separator() + rest) == Err::<
            Schedstat,
            ParseError,
        >(ParseError::Digit),
{
    let second = b + (separator() + rest);
    assert(second[0] == b[0]);
    lemma_field_then_space(a, rest);
    lemma_field_then_space(a, second);
    lemma_field_then_space(b, rest);
    assert(a + separator() + rest =~= a + (separator() + rest));
    assert(a + separator() + b + separator() + rest =~= a + (separator() + second));
}

/// Behind the third field, anything but a line ending is refused: the end of
/// the text, a space, a letter, a carriage return with no line feed.
pub proof fn lemma_refuses_a_missing_line_ending(
    a: Seq<u8>,
    b: Seq<u8>,
    c: Seq<u8>,
    rest: Seq<u8>,
)
    requires
        is_field(a),
        is_field(b),
        is_field(c),
        rest.len() == 0 || !is_digit(rest[0]),
        line_ending_len(rest) is None,
    ensures
        schedstat_line(a + separator() + b + separator() + c + rest) == Err::<
            Schedstat,
            ParseError,
        >(ParseError::LineEnding),
{
    let third = c + rest;
    let second = b + (separator() + third);
    assert(second[0] == b[0]);
    assert(third[0] == c[0]);
    lemma_token(c, rest);
    lemma_field_then_space(a, second);
    lemma_field_then_space(b, third);
    assert(a + separator() + b + separator() + c + rest =~= a + (separator() + second));
}

/// The result of parsing depends on the bytes of the text and on nothing
/// else: texts with the same bytes give the same record or the same refusal.
pub proof fn lemma_parsing_is_deterministic(first: Seq<u8>, second: Seq<u8>)
    requires
        first =~= second,
    ensures
        schedstat_line(first) == schedstat_line(second),
{
}

} // verus!
