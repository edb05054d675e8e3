//! The daemon's side of the protocol: which requests it accepts, what it
//! answers, how it counts the work it supervises, when it stops, and the
//! protocol stamp it leaves for clients.
use crate::records::{DaemonRequest, JobSubmitRequest, DAEMON_PROTOCOL_VERSION};
use crate::text::{nat_text, push_nat, trim, trim_str, text_eq, lemma_int_text_not_white, lemma_trim_of_unpadded};
use vstd::prelude::*;

verus! {

/// The largest request line, newline included, that either side accepts.
pub const MAX_REQUEST_BYTES: usize = 1048576;

/// The daemon's shared state: how many submissions, job monitors and
/// wake-up hooks are under way, and whether it is stopping.
#[derive(Debug, Clone, PartialEq, Eq)]
pub struct DaemonState {
    pub active: usize,
    pub stopping: bool,
}

/// An answer written back to a client.
#[derive(Debug, Clone, PartialEq, Eq)]
pub enum Reply {
    /// The request was refused with this message.
    Error(String),
    /// The answer to a ping: the protocol version and the active count.
    Status { protocol: String, active: usize },
    /// A plain message.
    Message(String),
}

/// What the daemon does with one request.
#[derive(Debug, Clone, PartialEq, Eq)]
pub enum Step {
    /// Write this reply and go on serving.
    Answer(Reply),
    /// Write this reply, then stop serving.
    AnswerThenStop(Reply),
    /// Start this job (the active count already holds it), then answer with
    /// the submission response or the error.
    Submit(JobSubmitRequest),
    /// Retry the failed wake-up of this job, then answer.
    Retry(String),
}

/// One more unit of work under way (`fetch_add(1)`, which wraps).
pub open spec fn count_up(n: usize) -> usize {
    if n == usize::MAX {
        0
    } else {
        (n + 1) as usize
    }
}

/// One unit of work fewer (`fetch_sub(1)`, which wraps).
pub open spec fn count_down(n: usize) -> usize {
    if n == 0 {
        usize::MAX
    } else {
        (n - 1) as usize
    }
}

fn up(n: usize) -> (r: usize)
    ensures
        r == count_up(n),
{
    if n == usize::MAX {
        0
    } else {
        n + 1
    }
}

fn down(n: usize) -> (r: usize)
    ensures
        r == count_down(n),
{
    if n == 0 {
        usize::MAX
    } else {
        n - 1
    }
}

/// The message with which a stop is refused while work is under way.
pub open spec fn busy_message() -> Seq<char> {
    "jobs or wake-up commands are still active; wait for them to finish before stopping"@
}

/// The daemon's state after a request that parsed as `request` (`None` when
/// the line did not parse): an accepted stop marks it stopping, an accepted
/// submission holds one more unit of work, nothing else changes it.
pub open spec fn next_state_spec(state: DaemonState, request: Option<DaemonRequest>) -> DaemonState {
    match request {
        Some(DaemonRequest::Stop) => if state.active == 0 {
            DaemonState { stopping: true, ..state }
        } else {
            state
        },
        Some(DaemonRequest::Submit(_)) => if state.stopping {
            state
        } else {
            DaemonState { active: count_up(state.active), ..state }
        },
        _ => state,
    }
}

/// Whether `step` is what the daemon does with the request: `invalid daemon
/// request` for a line that did not parse; protocol `5` and the active
/// count for a ping; the busy message for a stop while work is under way,
/// `Daemon stopped.` and an end of serving otherwise; `daemon is stopping`
/// for a submission or retry asked of a stopping daemon; otherwise the
/// submission or retry itself.
pub open spec fn step_spec(state: DaemonState, request: Option<DaemonRequest>, step: Step) -> bool {
    match request {
        None => step matches Step::Answer(Reply::Error(m)) && m@ == "invalid daemon request"@,
        Some(DaemonRequest::Ping) => step matches Step::Answer(Reply::Status { protocol, active })
            && protocol@ == DAEMON_PROTOCOL_VERSION@ && active == state.active,
        Some(DaemonRequest::Stop) => if state.active != 0 {
            step matches Step::Answer(Reply::Error(m)) && m@ == busy_message()
        } else {
            step matches Step::AnswerThenStop(Reply::Message(m)) && m@ == "Daemon stopped."@
        },
        Some(DaemonRequest::Submit(r)) => if state.stopping {
            step matches Step::Answer(Reply::Error(m)) && m@ == "daemon is stopping"@
        } else {
            step == Step::Submit(r)
        },
        Some(DaemonRequest::Retry { job_id }) => if state.stopping {
            step matches Step::Answer(Reply::Error(m)) && m@ == "daemon is stopping"@
        } else {
            step == Step::Retry(job_id)
        },
    }
}

/// What the daemon does with one parsed request (`None` when the line did
/// not parse), and its state afterwards.
pub fn handle_request(state: &DaemonState, request: Option<DaemonRequest>) -> (r: (DaemonState, Step))
    ensures
        r.0 == next_state_spec(*state, request),
        step_spec(*state, request, r.1),
{
    let same = DaemonState { active: state.active, stopping: state.stopping };
    match request {
        None => (same, Step::Answer(Reply::Error("invalid daemon request".to_owned()))),
        Some(DaemonRequest::Ping) => (
            same,
            Step::Answer(
                Reply::Status { protocol: DAEMON_PROTOCOL_VERSION.to_owned(), active: state.active },
            ),
        ),
        Some(DaemonRequest::Stop) => {
            if state.active != 0 {
                (
                    same,
                    Step::Answer(
                        Reply::Error(
                            "jobs or wake-up commands are still active; wait for them to finish before stopping".to_owned(),
                        ),
                    ),
                )
            } else {
                (
                    DaemonState { active: state.active, stopping: true },
                    Step::AnswerThenStop(Reply::Message("Daemon stopped.".to_owned())),
                )
            }
        },
        Some(DaemonRequest::Submit(r)) => {
            if state.stopping {
                (same, Step::Answer(Reply::Error("daemon is stopping".to_owned())))
            } else {
                (DaemonState { active: up(state.active), stopping: state.stopping }, Step::Submit(r))
            }
        },
        Some(DaemonRequest::Retry { job_id }) => {
            if state.stopping {
                (same, Step::Answer(Reply::Error("daemon is stopping".to_owned())))
            } else {
                (same, Step::Retry(job_id))
            }
        },
    }
}

/// The state once a submission has been handled: its own unit of work ends,
/// and a started job adds the unit of its monitor.
pub fn submit_finished(state: &DaemonState, started: bool) -> (r: DaemonState)
    ensures
        r.stopping == state.stopping,
        r.active == if started {
            count_down(count_up(state.active))
        } else {
            count_down(state.active)
        },
{
    let active = if started {
        up(state.active)
    } else {
        state.active
    };
    DaemonState { active: down(active), stopping: state.stopping }
}

/// The state once a retry has been handled: a started wake-up adds a unit
/// of work.
pub fn retry_finished(state: &DaemonState, started: bool) -> (r: DaemonState)
    ensures
        r.stopping == state.stopping,
        r.active == if started {
            count_up(state.active)
        } else {
            state.active
        },
{
    DaemonState {
        active: if started {
            up(state.active)
        } else {
            state.active
        },
        stopping: state.stopping,
    }
}

/// The state once a job monitor or wake-up hook has ended.
pub fn completion_finished(state: &DaemonState) -> (r: DaemonState)
    ensures
        r.stopping == state.stopping,
        r.active == count_down(state.active),
{
    DaemonState { active: down(state.active), stopping: state.stopping }
}

/// The state when supervision of a recovered job begins.
pub fn completion_started(state: &DaemonState) -> (r: DaemonState)
    ensures
        r.stopping == state.stopping,
        r.active == count_up(state.active),
{
    DaemonState { active: up(state.active), stopping: state.stopping }
}

/// The daemon stops only when idle: a stop is refused, and the state kept,
/// whenever any submission, monitor or wake-up hook is under way; accepted,
/// ending the service, otherwise.
pub proof fn lemma_stop_only_when_idle(state: DaemonState, step: Step)
    requires
        step_spec(state, Some(DaemonRequest::Stop), step),
    ensures
        state.active != 0 ==> next_state_spec(state, Some(DaemonRequest::Stop)) == state
            && step is Answer,
        state.active == 0 ==> next_state_spec(state, Some(DaemonRequest::Stop)).stopping
            && step is AnswerThenStop,
{
}

/// A stopping daemon starts no new work: submissions and retries are
/// refused and leave the state as it was.
pub proof fn lemma_stopping_refuses_work(state: DaemonState, request: DaemonRequest, step: Step)
    requires
        state.stopping,
        request is Submit || request is Retry,
        step_spec(state, Some(request), step),
    ensures
        next_state_spec(state, Some(request)) == state,
        step is Answer,
{
}

/// The active count balances: a submission that starts a job, followed by
/// the end of that job's supervision, leaves the count where it was (below
/// the counter's limit); one that fails to start leaves it unchanged at once.
pub proof fn lemma_submission_balances(state: DaemonState, request: JobSubmitRequest)
    requires
        !state.stopping,
        state.active < usize::MAX - 1,
    ensures
        ({
            let during = next_state_spec(state, Some(DaemonRequest::Submit(request)));
            &&& during.active == state.active + 1
            &&& count_down(count_down(count_up(during.active))) == state.active
            &&& count_down(during.active) == state.active
        }),
{
}

/// How a request line is judged before it is parsed.
#[derive(Debug, Clone, PartialEq, Eq)]
pub enum LineCheck {
    /// Nothing was sent: close without an answer.
    Empty,
    /// Longer than the limit, or cut off before its newline.
    Refused,
    /// A complete line within the limit.
    Accepted,
}

/// How the daemon judges a request line of `len` bytes.
pub open spec fn line_check_spec(len: nat, ends_with_newline: bool) -> LineCheck {
    if len == 0 {
        LineCheck::Empty
    } else if len > MAX_REQUEST_BYTES || !ends_with_newline {
        LineCheck::Refused
    } else {
        LineCheck::Accepted
    }
}

/// How the daemon judges a request line of `len` bytes.
pub fn check_request_line(len: usize, ends_with_newline: bool) -> (r: LineCheck)
    ensures
        r == line_check_spec(len as nat, ends_with_newline),
{
    if len == 0 {
        LineCheck::Empty
    } else if len > MAX_REQUEST_BYTES || !ends_with_newline {
        LineCheck::Refused
    } else {
        LineCheck::Accepted
    }
}

/// Whether a client sends a request line of `len` bytes, newline included.
pub open spec fn client_sends(len: nat) -> bool {
    len <= MAX_REQUEST_BYTES
}

/// Whether a client sends a request line of `len` bytes.
pub fn request_fits(len: usize) -> (b: bool)
    ensures
        b == client_sends(len as nat),
{
    len <= MAX_REQUEST_BYTES
}

/// Every line a client sends is accepted by the daemon: the client appends
/// the newline and keeps to the same limit.
pub proof fn lemma_sent_lines_are_accepted(len: nat)
    requires
        client_sends(len),
        len > 0,
    ensures
        line_check_spec(len, true) == LineCheck::Accepted,
{
}

/// The stamp the daemon writes to `slumberd.protocol`: the protocol version,
/// `:` and its process number.
pub open spec fn protocol_stamp_spec(pid: nat) -> Seq<char> {
    DAEMON_PROTOCOL_VERSION@ + ":"@ + nat_text(pid)
}

/// The protocol stamp of the daemon process `pid`.
pub fn protocol_stamp(pid: u32) -> (s: String)
    ensures
        s@ == protocol_stamp_spec(pid as nat),
{
    let mut s = DAEMON_PROTOCOL_VERSION.to_owned();
    s.append(":");
    push_nat(&mut s, pid as u64);
    s
}

/// Whether a client accepts the running daemon: the stamp file, trimmed,
/// is the protocol version, `:` and the trimmed contents of the pid file.
pub open spec fn protocol_matches_spec(stamp: Seq<char>, pid_file: Seq<char>) -> bool {
    trim(stamp) == DAEMON_PROTOCOL_VERSION@ + ":"@ + trim(pid_file)
}

/// Whether the daemon's recorded protocol is this client's.
pub fn protocol_matches(stamp: &str, pid_file: &str) -> (b: bool)
    ensures
        b == protocol_matches_spec(stamp@, pid_file@),
{
    let mut expected = DAEMON_PROTOCOL_VERSION.to_owned();
    expected.append(":");
    let pid = trim_str(pid_file);
    expected.append(pid.as_str());
    let found = trim_str(stamp);
    text_eq(found.as_str(), expected.as_str())
}

/// A client accepts the daemon that wrote the stamp and pid file it reads:
/// the daemon's stamp matches its own process number.
pub proof fn lemma_own_stamp_matches(pid: nat)
    ensures
        protocol_matches_spec(protocol_stamp_spec(pid), nat_text(pid)),
{
    let stamp = protocol_stamp_spec(pid);
    lemma_int_text_not_white(pid as int);
    let n = nat_text(pid);
    lemma_trim_of_unpadded(n);
    reveal_strlit("5");
    reveal_strlit(":");
    assert(stamp[0] == '5');
    assert(stamp.last() == n.last());
    assert(!crate::text::is_white(n[n.len() - 1]));
    lemma_trim_of_unpadded(stamp);
}

} // verus!
