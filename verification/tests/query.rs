use schedstat::{schedstat_from_read, Error, ParseError, Schedstat};
use std::io;

#[test]
fn content_that_was_read_is_parsed() {
    let read: Result<&[u8], io::Error> = Ok(b"297751702229 1936831953 8028005\n");
    let stats = schedstat_from_read(read).unwrap();
    assert_eq!(
        Schedstat { sum_exec_runtime: 297751702229, run_delay: 1936831953, pcount: 8028005 },
        stats
    );
}

#[test]
fn missing_resource_is_an_io_failure() {
    let read: Result<&[u8], io::Error> = Err(io::Error::from(io::ErrorKind::NotFound));
    match schedstat_from_read(read) {
        Err(Error::Io(cause)) => assert_eq!(io::ErrorKind::NotFound, cause.kind()),
        other => panic!("no I/O failure: {:?}", other),
    }
}

#[test]
fn denied_access_is_an_io_failure() {
    let read: Result<&[u8], io::Error> = Err(io::Error::from(io::ErrorKind::PermissionDenied));
    match schedstat_from_read(read) {
        Err(Error::Io(cause)) => assert_eq!(io::ErrorKind::PermissionDenied, cause.kind()),
        other => panic!("no I/O failure: {:?}", other),
    }
}

#[test]
fn cause_of_an_io_failure_is_kept() {
    let read: Result<&[u8], &str> = Err("content exceeds the buffer");
    assert_eq!(Err(Error::Io("content exceeds the buffer")), schedstat_from_read(read));
}

#[test]
fn failed_read_gives_no_record() {
    let read: Result<&[u8], u8> = Err(2);
    let result = schedstat_from_read(read);
    assert_ne!(Ok(Schedstat::default()), result);
    assert_ne!(Err(Error::Format(ParseError::Digit)), result);
    assert_eq!(Err(Error::Io(2)), result);
}

#[test]
fn content_that_is_no_record_is_a_format_failure() {
    let read: Result<&[u8], &str> = Ok(b"");
    assert_eq!(Err(Error::Format(ParseError::Digit)), schedstat_from_read(read));
    let read: Result<&[u8], &str> = Ok(b"1 2\n");
    assert_eq!(Err(Error::Format(ParseError::Space)), schedstat_from_read(read));
    let read: Result<&[u8], &str> = Ok(b"1 2 3");
    assert_eq!(Err(Error::Format(ParseError::LineEnding)), schedstat_from_read(read));
    let read: Result<&[u8], &str> = Ok(b"1 2 99999999999999999999999999999999999999999\n");
    assert_eq!(Err(Error::Format(ParseError::Overflow)), schedstat_from_read(read));
}
