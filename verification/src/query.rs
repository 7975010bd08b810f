//! One query from start to end: the resource is read, and what was read is
//! parsed. The first failure ends the query and is its result.

use vstd::prelude::*;
use crate::error::{Error, ParseError};
use crate::parser::{parse_schedstat, schedstat_line};
use crate::record::Schedstat;

verus! {

/// The result of a query whose resource was read with the result `read`.
pub open spec fn query_result<E>(read: Result<Seq<u8>, E>) -> Result<Schedstat, Error<E>> {
    match read {
        Err(cause) => Err(Error::Io(cause)),
        Ok(content) => match schedstat_line(content) {
            Err(error) => Err(Error::Format(error)),
            Ok(stats) => Ok(stats),
        },
    }
}

/// Ends a query: from the result of reading the resource, the record or the
/// reason why there is none.
///
/// Where the resource could not be read, the query fails with the cause of
/// that, and never with a format failure or a record. Where it was read, the
/// content is parsed, and the query gives the record or fails with what the
/// content lacks.
pub fn schedstat_from_read<E>(read: Result<&[u8], E>) -> (result: Result<Schedstat, Error<E>>)
    ensures
        result == query_result(
            match read {
                Ok(content) => Ok(content@),
                Err(cause) => Err(cause),
            },
        ),
{
    match read {
        Err(cause) => Err(Error::Io(cause)),
        Ok(content) => match parse_schedstat(content) {
            Err(error) => Err(Error::Format(error)),
            Ok(stats) => Ok(stats),
        },
    }
}

/// A query whose resource could not be read fails with an I/O failure that
/// holds the cause: it gives neither a format failure nor a record, not even
/// one with zeros.
pub proof fn lemma_failed_read_is_io_failure<E>(cause: E)
    ensures
        query_result(Err::<Seq<u8>, E>(cause)) == Err::<Schedstat, Error<E>>(Error::Io(cause)),
{
}

/// A query gives a record only if its resource was read and the content
/// starts with the line of that record.
pub proof fn lemma_record_comes_from_content<E>(read: Result<Seq<u8>, E>)
    requires
        query_result(read) is Ok,
    ensures
        read is Ok,
        schedstat_line(read->Ok_0) == Ok::<Schedstat, ParseError>(query_result(read)->Ok_0),
{
}

} // verus!
