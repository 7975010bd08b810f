//! The ways in which a query for scheduling statistics fails.

use vstd::prelude::*;

verus! {

/// Why a line of text is not a scheduling statistics record: what the
/// grammar needed at the place where the text departs from it.
#[derive(Debug, Clone, Copy, PartialEq, Eq, Hash, Structural)]
pub enum ParseError {
    /// A number has to start here, and the next byte is no decimal digit
    /// (or the text is at its end).
    Digit,
    /// The digits here spell a number that a `usize` cannot hold.
    Overflow,
    /// One space has to separate two numbers here, and what stands here is
    /// something else: another byte, a tab, or more than a single space.
    Space,
    /// The third number has to be followed by a line ending.
    LineEnding,
}

/// Why a query for scheduling statistics gave no record.
#[derive(Debug, PartialEq, Eq)]
pub enum Error<E> {
    /// The resource could not be opened or read whole: there is no such
    /// process or thread, access was denied, the content is larger than the
    /// buffer, or the system failed the call in another way. Holds the cause
    /// as the caller gave it.
    Io(E),
    /// The resource was read, and its content is not the line of a record.
    Format(ParseError),
}

} // verus!
