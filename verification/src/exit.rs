//! Exit statuses: how a finished process is recorded, and how a record reads.
use crate::records::ExitStatusRecord;
use crate::text::{int_text, push_int, starts_with};
use vstd::prelude::*;

verus! {

/// The name shown for a signal number.
pub open spec fn signal_name_spec(signal: int) -> Seq<char> {
    if signal == 2 {
        "SIGINT (Interrupted)"@
    } else if signal == 9 {
        "SIGKILL (Potential OOM)"@
    } else if signal == 11 {
        "SIGSEGV (Segmentation Fault)"@
    } else if signal == 15 {
        "SIGTERM (Terminated)"@
    } else {
        "UNKNOWN_SIGNAL"@
    }
}

/// The name shown for a signal number.
pub fn signal_name(signal: i32) -> (name: &'static str)
    ensures
        name@ == signal_name_spec(signal as int),
{
    if signal == 2 {
        "SIGINT (Interrupted)"
    } else if signal == 9 {
        "SIGKILL (Potential OOM)"
    } else if signal == 11 {
        "SIGSEGV (Segmentation Fault)"
    } else if signal == 15 {
        "SIGTERM (Terminated)"
    } else {
        "UNKNOWN_SIGNAL"
    }
}

/// Whether a record can be shown: the shell-style code `128 + signal` of a
/// signalled record must fit in an `i32`.
pub open spec fn printable_status(status: ExitStatusRecord) -> bool {
    match status {
        ExitStatusRecord::Signaled(signal, _) => signal <= i32::MAX - 128,
        _ => true,
    }
}

/// How a record reads: `exit <code>`, `<128 + signal> (signal <signal>:
/// <name>)` or `failed to start: <message>`.
pub open spec fn exit_status_text_spec(status: ExitStatusRecord) -> Seq<char> {
    match status {
        ExitStatusRecord::Exited(code) => "exit "@ + int_text(code as int),
        ExitStatusRecord::Signaled(signal, name) => int_text(128 + signal) + " (signal "@ + int_text(
            signal as int,
        ) + ": "@ + name@ + ")"@,
        ExitStatusRecord::FailedToStart(message) => "failed to start: "@ + message@,
    }
}

/// How an exit status reads in status listings and completion events.
pub fn exit_status_text(status: &ExitStatusRecord) -> (t: String)
    requires
        printable_status(*status),
    ensures
        t@ == exit_status_text_spec(*status),
{
    let mut t = String::new();
    match status {
        ExitStatusRecord::Exited(code) => {
            t.append("exit ");
            push_int(&mut t, *code as i64);
        },
        ExitStatusRecord::Signaled(signal, name) => {
            push_int(&mut t, (128 + *signal) as i64);
            t.append(" (signal ");
            push_int(&mut t, *signal as i64);
            t.append(": ");
            t.append(name.as_str());
            t.append(")");
        },
        ExitStatusRecord::FailedToStart(message) => {
            t.append("failed to start: ");
            t.append(message.as_str());
        },
    }
    proof {
        assert(t@ =~= exit_status_text_spec(*status));
    }
    t
}

/// The record of a shell exit code: 129 to 192 become the signal
/// `code - 128` with its name, any other code a plain exit.
pub fn status_record_from_code(code: i32) -> (r: ExitStatusRecord)
    ensures
        129 <= code <= 192 ==> (r matches ExitStatusRecord::Signaled(signal, name) && signal == code
            - 128 && name@ == signal_name_spec(code - 128)),
        !(129 <= code <= 192) ==> r == ExitStatusRecord::Exited(code),
{
    if 129 <= code && code <= 192 {
        let signal = code - 128;
        ExitStatusRecord::Signaled(signal, signal_name(signal).to_owned())
    } else {
        ExitStatusRecord::Exited(code)
    }
}

/// The record of a finished local process, from the signal that ended it
/// (if any) and its exit code (if any): a signal is recorded with its name,
/// otherwise the exit code (1 when there is none) is read as
/// `status_record_from_code` does.
pub fn status_record(signal: Option<i32>, code: Option<i32>) -> (r: ExitStatusRecord)
    ensures
        signal matches Some(s) ==> (r matches ExitStatusRecord::Signaled(t, name) && t == s
            && name@ == signal_name_spec(s as int)),
        signal is None ==> ({
            let c = match code {
                Some(c) => c,
                None => 1i32,
            };
            &&& 129 <= c <= 192 ==> (r matches ExitStatusRecord::Signaled(t, name) && t == c - 128
                && name@ == signal_name_spec(c - 128))
            &&& !(129 <= c <= 192) ==> r == ExitStatusRecord::Exited(c)
        }),
{
    if let Some(s) = signal {
        return ExitStatusRecord::Signaled(s, signal_name(s).to_owned());
    }
    let c = match code {
        Some(c) => c,
        None => 1,
    };
    status_record_from_code(c)
}

/// A shell exit code reads back from the record made of it: codes from 129 to
/// 192 show the code itself before the signal they stand for, any other code
/// reads `exit <code>`.
pub proof fn lemma_status_text_shows_code(code: i32, r: ExitStatusRecord)
    requires
        129 <= code <= 192 ==> (r matches ExitStatusRecord::Signaled(signal, _) && signal == code
            - 128),
        !(129 <= code <= 192) ==> r == ExitStatusRecord::Exited(code),
    ensures
        printable_status(r),
        129 <= code <= 192 ==> starts_with(exit_status_text_spec(r), int_text(code as int)),
        !(129 <= code <= 192) ==> exit_status_text_spec(r) == "exit "@ + int_text(code as int),
{
    if 129 <= code <= 192 {
        let t = exit_status_text_spec(r);
        let n = int_text(code as int);
        assert(t.subrange(0, n.len() as int) =~= n);
    }
}

} // verus!
