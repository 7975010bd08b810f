//! Where the kernel keeps the scheduling statistics of a task.

use vstd::prelude::*;
use libc::pid_t;
use crate::decimal::decimal_digits;

verus! {

/// `text` as a string: each byte becomes the character with its code.
pub open spec fn ascii(text: Seq<u8>) -> Seq<char> {
    text.map_values(|byte: u8| byte as char)
}

/// An id as the kernel's paths spell it: in base 10, shortest form, with a
/// minus sign in front if it is negative.
pub open spec fn id_text(id: int) -> Seq<char> {
    if id < 0 {
        seq!['-'] + ascii(decimal_digits((-id) as nat))
    } else {
        ascii(decimal_digits(id as nat))
    }
}

/// The path of the statistics of the process `pid`.
pub open spec fn process_path(pid: int) -> Seq<char> {
    "/proc/"@ + id_text(pid) + "/schedstat"@
}

/// The path of the statistics of the thread `thread_id` of the process
/// `process_id`.
pub open spec fn task_path(process_id: int, thread_id: int) -> Seq<char> {
    "/proc/"@ + id_text(process_id) + "/task/"@ + id_text(thread_id) + "/schedstat"@
}

/// The digit `value` as a string.
fn digit_str(value: u32) -> (digit: &'static str)
    requires
        value < 10,
    ensures
        digit@ == seq![(0x30 + value) as u8 as char],
{
    proof {
        reveal_strlit("0");
        reveal_strlit("1");
        reveal_strlit("2");
        reveal_strlit("3");
        reveal_strlit("4");
        reveal_strlit("5");
        reveal_strlit("6");
        reveal_strlit("7");
        reveal_strlit("8");
        reveal_strlit("9");
    }
    let digit = if value == 0 {
        "0"
    } else if value == 1 {
        "1"
    } else if value == 2 {
        "2"
    } else if value == 3 {
        "3"
    } else if value == 4 {
        "4"
    } else if value == 5 {
        "5"
    } else if value == 6 {
        "6"
    } else if value == 7 {
        "7"
    } else if value == 8 {
        "8"
    } else {
        "9"
    };
    assert(digit@ =~= seq![(0x30 + value) as u8 as char]);
    digit
}

/// Appends `n` to `path`, in base 10.
fn push_number(path: &mut String, n: u32)
    ensures
        final(path)@ == old(path)@ + ascii(decimal_digits(n as nat)),
    decreases n,
{
    if n >= 10 {
        push_number(path, n / 10);
    }
    path.append(digit_str(n % 10));
    proof {
        let digits = decimal_digits(n as nat);
        if n >= 10 {
            let head = decimal_digits((n / 10) as nat);
            assert(ascii(digits) =~= ascii(head) + seq![(0x30 + n % 10) as u8 as char]);
        } else {
            assert(ascii(digits) =~= seq![(0x30 + n) as u8 as char]);
        }
    }
}

/// Appends `id` to `path`, as the kernel's paths spell it.
fn push_id(path: &mut String, id: pid_t)
    ensures
        final(path)@ == old(path)@ + id_text(id as int),
{
    if id < 0 {
        proof {
            reveal_strlit("-");
        }
        path.append("-");
        assert(path@ =~= old(path)@ + seq!['-']);
        let magnitude: i64 = 0 - (id as i64);
        push_number(path, magnitude as u32);
    } else {
        push_number(path, id as u32);
    }
}

/// The path of the scheduler information of the process with the provided
/// pid.
pub fn schedstat_path(pid: pid_t) -> (path: String)
    ensures
        path@ == process_path(pid as int),
{
    let mut path = String::from_str("/proc/");
    push_id(&mut path, pid);
    path.append("/schedstat");
    path
}

/// The path of the scheduler information of the current process.
pub fn schedstat_self_path() -> (path: &'static str)
    ensures
        path@ == "/proc/self/schedstat"@,
{
    "/proc/self/schedstat"
}

/// The path of the scheduler information of the thread with the provided
/// parent process ID and thread ID.
pub fn schedstat_task_path(process_id: pid_t, thread_id: pid_t) -> (path: String)
    ensures
        path@ == task_path(process_id as int, thread_id as int),
{
    let mut path = String::from_str("/proc/");
    push_id(&mut path, process_id);
    path.append("/task/");
    push_id(&mut path, thread_id);
    path.append("/schedstat");
    path
}

} // verus!
