use schedstat::{parse_schedstat, Schedstat};
use std::collections::HashSet;

#[test]
fn records_are_equal_field_by_field() {
    let stats = Schedstat { sum_exec_runtime: 1, run_delay: 2, pcount: 3 };
    assert_eq!(Schedstat { sum_exec_runtime: 1, run_delay: 2, pcount: 3 }, stats);
    assert_ne!(Schedstat { sum_exec_runtime: 0, run_delay: 2, pcount: 3 }, stats);
    assert_ne!(Schedstat { sum_exec_runtime: 1, run_delay: 0, pcount: 3 }, stats);
    assert_ne!(Schedstat { sum_exec_runtime: 1, run_delay: 2, pcount: 0 }, stats);
    assert_ne!(Schedstat { sum_exec_runtime: 3, run_delay: 2, pcount: 1 }, stats);
}

#[test]
fn equal_records_are_one_key() {
    let mut seen = HashSet::new();
    assert!(seen.insert(parse_schedstat(b"1 2 3\n").unwrap()));
    assert!(!seen.insert(parse_schedstat(b"01 02 03\r\n").unwrap()));
    assert!(seen.insert(parse_schedstat(b"1 2 4\n").unwrap()));
    assert!(seen.insert(Schedstat::default()));
    assert!(!seen.insert(parse_schedstat(b"0 0 0\n").unwrap()));
    assert_eq!(3, seen.len());
}

#[test]
fn each_call_gives_a_record_of_its_own() {
    let text = b"5 6 7\n";
    let mut first = parse_schedstat(text).unwrap();
    let second = parse_schedstat(text).unwrap();
    first.pcount = 8;
    assert_eq!(7, second.pcount);
    assert_eq!(8, first.pcount);
}
