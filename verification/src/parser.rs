//! The line parser: from the text of the resource to a [`Schedstat`].
//!
//! The text is one line, `<sum_exec_runtime> <run_delay> <pcount>`, ended by a
//! line ending. Whatever follows that line is not looked at.

use vstd::prelude::*;
use vstd::slice::slice_subrange;
use crate::decimal::{parse_usize, usize_token};
use crate::error::ParseError;
use crate::record::Schedstat;
use crate::whitespace::{line_ending, line_ending_len, single_space, starts_with_single_space};

verus! {

/// A number and the single space behind it, at the start of `text`: the
/// number's value, and the text that follows the space.
pub open spec fn number_then_space(text: Seq<u8>) -> Result<(nat, Seq<u8>), ParseError> {
    match usize_token(text) {
        Err(error) => Err(error),
        Ok((value, len)) => if single_space(text.skip(len as int)) {
            Ok((value, text.skip(len as int + 1)))
        } else {
            Err(ParseError::Space)
        },
    }
}

/// A number and the line ending behind it, at the start of `text`: the
/// number's value.
pub open spec fn number_then_line_ending(text: Seq<u8>) -> Result<nat, ParseError> {
    match usize_token(text) {
        Err(error) => Err(error),
        Ok((value, len)) => if line_ending_len(text.skip(len as int)) is Some {
            Ok(value)
        } else {
            Err(ParseError::LineEnding)
        },
    }
}

/// The record that `text` starts with, or the first place where `text` is not
/// the line of a record.
pub open spec fn schedstat_line(text: Seq<u8>) -> Result<Schedstat, ParseError> {
    match number_then_space(text) {
        Err(error) => Err(error),
        Ok((sum_exec_runtime, text)) => match number_then_space(text) {
            Err(error) => Err(error),
            Ok((run_delay, text)) => match number_then_line_ending(text) {
                Err(error) => Err(error),
                Ok(pcount) => Ok(
                    Schedstat {
                        sum_exec_runtime: sum_exec_runtime as usize,
                        run_delay: run_delay as usize,
                        pcount: pcount as usize,
                    },
                ),
            },
        },
    }
}

/// Reads a number and the single space behind it from the start of `input`.
fn parse_number_then_space(input: &[u8]) -> (result: Result<(usize, &[u8]), ParseError>)
    ensures
        match result {
            Ok((value, rest)) => number_then_space(input@) == Ok::<(nat, Seq<u8>), ParseError>(
                (value as nat, rest@),
            ),
            Err(error) => number_then_space(input@) == Err::<(nat, Seq<u8>), ParseError>(error),
        },
{
    let (value, len) = match parse_usize(input) {
        Ok(number) => number,
        Err(error) => { return Err(error); },
    };
    proof {
        crate::decimal::lemma_digit_run(input@);
    }
    let behind = slice_subrange(input, len, input.len());
    if starts_with_single_space(behind) {
        Ok((value, slice_subrange(input, len + 1, input.len())))
    } else {
        Err(ParseError::Space)
    }
}

/// Reads a number and the line ending behind it from the start of `input`.
fn parse_number_then_line_ending(input: &[u8]) -> (result: Result<usize, ParseError>)
    ensures
        match result {
            Ok(value) => number_then_line_ending(input@) == Ok::<nat, ParseError>(value as nat),
            Err(error) => number_then_line_ending(input@) == Err::<nat, ParseError>(error),
        },
{
    let (value, len) = match parse_usize(input) {
        Ok(number) => number,
        Err(error) => { return Err(error); },
    };
    proof {
        crate::decimal::lemma_digit_run(input@);
    }
    match line_ending(slice_subrange(input, len, input.len())) {
        Some(_) => Ok(value),
        None => Err(ParseError::LineEnding),
    }
}

/// Parses the schedstat file format.
///
/// `input` has to start with three unsigned numbers in base 10, each within
/// the range of `usize`, with one space between two of them and a line ending
/// behind the third. They become the record's fields in the order in which
/// they stand. Any other text is refused, with the first thing found missing,
/// and no field of a record is ever given out for it.
pub fn parse_schedstat(input: &[u8]) -> (result: Result<Schedstat, ParseError>)
    ensures
        result == schedstat_line(input@),
{
    let (sum_exec_runtime, input) = match parse_number_then_space(input) {
        Ok(read) => read,
        Err(error) => { return Err(error); },
    };
    let (run_delay, input) = match parse_number_then_space(input) {
        Ok(read) => read,
        Err(error) => { return Err(error); },
    };
    let pcount = match parse_number_then_line_ending(input) {
        Ok(read) => read,
        Err(error) => { return Err(error); },
    };
    Ok(Schedstat { sum_exec_runtime, run_delay, pcount })
}

} // verus!
