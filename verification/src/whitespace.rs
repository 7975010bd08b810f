//! What stands between and behind the numbers of a record: the single space
//! and the line ending. Both are recognized by `nom`.

use vstd::prelude::*;

verus! {

/// Whether `byte` is a space or a tab.
pub open spec fn is_blank(byte: u8) -> bool {
    byte == 0x20 || byte == 0x09
}

/// How many spaces and tabs `text` starts with.
pub open spec fn blank_run(text: Seq<u8>) -> nat
    decreases text.len(),
{
    if text.len() > 0 && is_blank(text[0]) {
        1 + blank_run(text.skip(1))
    } else {
        0
    }
}

/// Whether `text` starts with the separator of two numbers: one space, with
/// neither a second space nor a tab behind it.
pub open spec fn single_space(text: Seq<u8>) -> bool {
    &&& text.len() >= 1
    &&& text[0] == 0x20
    &&& text.len() >= 2 ==> !is_blank(text[1])
}

/// The length of the line ending that `text` starts with, `\n` or `\r\n`, if
/// it starts with one.
pub open spec fn line_ending_len(text: Seq<u8>) -> Option<nat> {
    if text.len() >= 1 && text[0] == 0x0a {
        Some(1)
    } else if text.len() >= 2 && text[0] == 0x0d && text[1] == 0x0a {
        Some(2)
    } else {
        None
    }
}

/// Calls `nom::space`, which recognizes one or more spaces and tabs.
///
/// Trusted: that `nom::space` matches the whole run of spaces and tabs at the
/// start of `input`, and matches nothing where `input` is empty or starts
/// with another byte. The result is the length of what it matched.
#[verifier::external_body]
fn space(input: &[u8]) -> (matched: Option<usize>)
    ensures
        match matched {
            Some(len) => len > 0 && len == blank_run(input@),
            None => blank_run(input@) == 0,
        },
{
    match nom::space(input) {
        nom::IResult::Done(_, blanks) => Some(blanks.len()),
        nom::IResult::Error(_) => None,
        nom::IResult::Incomplete(_) => None,
    }
}

/// Calls `nom::line_ending`, which recognizes an end of line, both `\n` and
/// `\r\n`.
///
/// Trusted: that `nom::line_ending` matches a line feed at the start of
/// `input`, or else a carriage return with a line feed behind it, and nothing
/// else. The result is the length of what it matched.
#[verifier::external_body]
pub(crate) fn line_ending(input: &[u8]) -> (matched: Option<usize>)
    ensures
        match matched {
            Some(len) => line_ending_len(input@) == Some(len as nat),
            None => line_ending_len(input@) is None,
        },
{
    match nom::line_ending(input) {
        nom::IResult::Done(_, ending) => Some(ending.len()),
        nom::IResult::Error(_) => None,
        nom::IResult::Incomplete(_) => None,
    }
}

/// A run of exactly one blank is a blank with no blank behind it.
proof fn lemma_blank_run_of_one(text: Seq<u8>)
    ensures
        blank_run(text) == 1 <==> {
            &&& text.len() >= 1
            &&& is_blank(text[0])
            &&& text.len() >= 2 ==> !is_blank(text[1])
        },
{
    if text.len() >= 1 && is_blank(text[0]) {
        let rest = text.skip(1);
        assert(blank_run(text) == 1 + blank_run(rest));
        if rest.len() > 0 {
            assert(rest[0] == text[1]);
            assert(is_blank(rest[0]) ==> blank_run(rest) == 1 + blank_run(rest.skip(1)));
        }
    }
}

/// Whether `input` starts with the separator of two numbers.
///
/// `nom::space` takes every space and tab that it finds. The record allows a
/// single space, so the run that it matched has to be that and no more.
pub fn starts_with_single_space(input: &[u8]) -> (found: bool)
    ensures
        found == single_space(input@),
{
    proof {
        lemma_blank_run_of_one(input@);
    }
    match space(input) {
        Some(len) => len == 1 && input[0] == 0x20,
        None => false,
    }
}

} // verus!
