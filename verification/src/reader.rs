//! Reading the resource whole into a buffer of fixed size.
//!
//! The resource is read with as many calls as it takes. This module decides,
//! after each of them, whether to go on, and where in the buffer; the caller
//! owns the buffer and makes the calls.

use vstd::prelude::*;

verus! {

/// The largest content that is accepted, in bytes. A record's line is far
/// shorter.
pub const CAPACITY: usize = 256;

/// The length of the buffer to read into: one byte more than the largest
/// content, so that a content that is too large shows by filling it.
pub const BUFFER_LEN: usize = CAPACITY + 1;

/// What to do after a call that read into the buffer.
#[derive(Debug, PartialEq, Eq)]
pub enum ReadStep {
    /// The content goes on: read again, into the part of the buffer that
    /// the new state names.
    Continue(ReadState),
    /// The content is complete: it is the first `len` bytes of the buffer.
    Complete { len: usize },
    /// The content is larger than `CAPACITY`: the read has failed, and what
    /// the buffer holds is not to be used.
    TooLarge,
}

/// How far the reading of one resource has got.
#[derive(Debug, PartialEq, Eq)]
pub struct ReadState {
    filled: usize,
}

/// A step of a reading, with the number of bytes that the buffer holds in
/// place of the state.
pub enum Step {
    /// The content goes on, and the buffer holds `filled` bytes of it.
    Continue { filled: nat },
    /// The content is complete, `len` bytes long.
    Complete { len: nat },
    /// The content is larger than `CAPACITY`.
    TooLarge,
}

/// What follows a call that read `n` bytes while the buffer held `filled`:
/// the end of the content if it read none, a failure if the content has
/// outgrown `CAPACITY`, and else `n` bytes more in the buffer.
pub open spec fn step(filled: nat, n: usize) -> Step {
    if n == 0 {
        Step::Complete { len: filled }
    } else if filled + n > CAPACITY {
        Step::TooLarge
    } else {
        Step::Continue { filled: filled + n as nat }
    }
}

/// Where a reading stands after calls that read `counts` bytes, one after
/// the other, if the buffer held `filled` bytes before the first of them.
/// Nothing is read after the step that ends the reading.
pub open spec fn reading(filled: nat, counts: Seq<usize>) -> Step
    decreases counts.len(),
{
    if counts.len() == 0 {
        Step::Continue { filled }
    } else {
        match step(filled, counts[0]) {
            Step::Continue { filled } => reading(filled, counts.skip(1)),
            end => end,
        }
    }
}

/// The sum of `counts`.
pub open spec fn total(counts: Seq<usize>) -> nat
    decreases counts.len(),
{
    if counts.len() == 0 {
        0
    } else {
        counts[0] as nat + total(counts.skip(1))
    }
}

impl View for ReadState {
    type V = nat;

    /// The number of bytes of the content that the buffer holds so far.
    closed spec fn view(&self) -> nat {
        self.filled as nat
    }
}

impl View for ReadStep {
    type V = Step;

    open spec fn view(&self) -> Step {
        match *self {
            ReadStep::Continue(state) => Step::Continue { filled: state@ },
            ReadStep::Complete { len } => Step::Complete { len: len as nat },
            ReadStep::TooLarge => Step::TooLarge,
        }
    }
}

impl ReadState {
    #[verifier::type_invariant]
    spec fn within_capacity(self) -> bool {
        self.filled <= CAPACITY
    }

    /// The state before the first call: nothing has been read.
    pub fn new() -> (state: ReadState)
        ensures
            state@ == 0,
    {
        ReadState { filled: 0 }
    }

    /// Where in the buffer the next call reads: from the first of these two
    /// indices up to, and without, the second. The range starts behind what
    /// the buffer holds, is never empty, and ends with the buffer.
    pub fn window(&self) -> (range: (usize, usize))
        ensures
            range.0 == self@,
            range.1 == BUFFER_LEN,
            range.0 < range.1,
    {
        proof {
            use_type_invariant(self);
        }
        (self.filled, BUFFER_LEN)
    }

    /// Takes in that the last call read `n` bytes into the window, and says
    /// how to go on: the content is complete if the call read nothing, it is
    /// too large if it has outgrown `CAPACITY`, and else the buffer holds `n`
    /// bytes more and the reading continues.
    pub fn advance(self, n: usize) -> (next: ReadStep)
        ensures
            next@ == step(self@, n),
            self@ <= CAPACITY,
    {
        proof {
            use_type_invariant(&self);
        }
        if n == 0 {
            ReadStep::Complete { len: self.filled }
        } else if n > CAPACITY - self.filled {
            ReadStep::TooLarge
        } else {
            ReadStep::Continue(ReadState { filled: self.filled + n })
        }
    }
}

/// A content that arrives in pieces is read whole or not at all: when the
/// call behind the last piece reads nothing, the reading is complete with
/// the sum of the pieces if that is at most `CAPACITY`, and it has failed
/// if the sum is larger. It never ends with a part of the content.
pub proof fn lemma_reading_is_whole(filled: nat, pieces: Seq<usize>)
    requires
        filled <= CAPACITY,
        forall|i: int| 0 <= i < pieces.len() ==> pieces[i] > 0,
    ensures
        reading(filled, pieces.push(0)) == if filled + total(pieces) <= CAPACITY {
            Step::Complete { len: filled + total(pieces) }
        } else {
            Step::TooLarge
        },
    decreases pieces.len(),
{
    let counts = pieces.push(0);
    if pieces.len() == 0 {
        assert(counts[0] == 0);
    } else {
        assert(counts[0] == pieces[0]);
        assert(counts.skip(1) =~= pieces.skip(1).push(0));
        if filled + pieces[0] <= CAPACITY {
            lemma_reading_is_whole(filled + pieces[0] as nat, pieces.skip(1));
        }
    }
}

} // verus!
