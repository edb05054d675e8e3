//! The life of a job record from submission to wake-up: identifiers, the
//! record at each step, the answer to the submitter, what recovery does
//! after a restart, and when a failed wake-up may be retried.
use crate::exit::{status_record_from_code, signal_name_spec};
use crate::paths::{job_dir, valid_job_id};
use crate::records::{
    copy_agent_kind, copy_meta, copy_opt, env_names_unique, ExitStatusRecord, JobMeta,
    JobSubmitRequest, JobSubmitResponse,
};
use crate::remote::{
    parse_probe_report, probe_report_spec, remote_exit_code_spec, remote_log_paths,
    remote_log_paths_spec, parse_remote_exit_code, ProbeReport, RemoteError,
};
use crate::text::{join_path, nat_text, path_join, push_nat, lemma_nat_text_digits, is_digit};
use crate::paths::is_id_char;
use crate::listing::{status_note, status_word};
use vstd::prelude::*;

verus! {

/// The identifier of a job created at `created_at` by the daemon process
/// `pid` as its `sequence`-th job: `job_<created_at>_<pid>_<sequence>`.
pub open spec fn job_id_spec(created_at: nat, pid: nat, sequence: nat) -> Seq<char> {
    "job_"@ + nat_text(created_at) + "_"@ + nat_text(pid) + "_"@ + nat_text(sequence)
}

/// A new job identifier.
pub fn new_job_id(created_at: u64, pid: u32, sequence: u64) -> (id: String)
    ensures
        id@ == job_id_spec(created_at as nat, pid as nat, sequence as nat),
{
    let mut id = "job_".to_owned();
    push_nat(&mut id, created_at);
    id.append("_");
    push_nat(&mut id, pid as u64);
    id.append("_");
    push_nat(&mut id, sequence);
    assert(id@ =~= job_id_spec(created_at as nat, pid as nat, sequence as nat));
    id
}

/// Every identifier the daemon gives a job is one that `job_dir` accepts.
pub proof fn lemma_new_job_ids_are_valid(created_at: nat, pid: nat, sequence: nat)
    ensures
        valid_job_id(job_id_spec(created_at, pid, sequence)),
{
    let id = job_id_spec(created_at, pid, sequence);
    let a = nat_text(created_at);
    let b = nat_text(pid);
    let c = nat_text(sequence);
    lemma_nat_text_digits(created_at);
    lemma_nat_text_digits(pid);
    lemma_nat_text_digits(sequence);
    reveal_strlit("job_");
    reveal_strlit("_");
    assert(id.subrange(0, 4) =~= "job_"@);
    assert forall|i: int| 0 <= i < id.len() implies is_id_char(#[trigger] id[i]) by {
        let la = a.len() as int;
        let lb = b.len() as int;
        if i < 4 {
        } else if i < 4 + la {
            assert(id[i] == a[i - 4]);
            assert(is_digit(a[i - 4]));
        } else if i == 4 + la {
        } else if i < 5 + la + lb {
            assert(id[i] == b[i - 5 - la]);
            assert(is_digit(b[i - 5 - la]));
        } else if i == 5 + la + lb {
        } else {
            assert(id[i] == c[i - 6 - la - lb]);
            assert(is_digit(c[i - 6 - la - lb]));
        }
    }
}

/// The record of a job just created: identifier, command, working directory
/// and creation time from the submission, the SSH target for a remote job,
/// nothing else yet.
pub open spec fn initial_meta_spec(
    job_id: Seq<char>,
    request: JobSubmitRequest,
    created_at: u64,
    ssh_target: Option<String>,
    m: JobMeta,
) -> bool {
    &&& m.job_id@ == job_id
    &&& m.command == request.command
    &&& m.cwd == request.cwd
    &&& m.created_at == created_at
    &&& m.started_at is None
    &&& m.finished_at is None
    &&& m.pgid is None
    &&& m.exit_status is None
    &&& m.ssh_target == ssh_target
    &&& m.resumed_at is None
    &&& m.tmux_pane_id is None
    &&& m.resume_error is None
}

/// The first record of a job; `remote` selects whether the submission's SSH
/// target is recorded.
pub fn initial_meta(job_id: &str, request: &JobSubmitRequest, created_at: u64, remote: bool) -> (m: JobMeta)
    ensures
        initial_meta_spec(
            job_id@,
            *request,
            created_at,
            if remote {
                request.ssh_target
            } else {
                None
            },
            m,
        ),
{
    JobMeta {
        job_id: job_id.to_owned(),
        command: request.command.clone(),
        cwd: request.cwd.clone(),
        created_at,
        started_at: None,
        finished_at: None,
        pgid: None,
        exit_status: None,
        ssh_target: if remote {
            copy_opt(&request.ssh_target)
        } else {
            None
        },
        resumed_at: None,
        tmux_pane_id: None,
        resume_error: None,
    }
}

/// The record once the job's process has started as `pgid` at `now`.
pub fn started_meta(meta: &JobMeta, now: u64, pgid: u32) -> (m: JobMeta)
    ensures
        m == (JobMeta { started_at: Some(now), pgid: Some(pgid), ..*meta }),
{
    let mut m = copy_meta(meta);
    m.started_at = Some(now);
    m.pgid = Some(pgid);
    m
}

/// The record of a local job whose process could not be started.
pub fn failed_local_start(meta: &JobMeta, now: u64, message: &str) -> (m: JobMeta)
    ensures
        m.exit_status matches Some(ExitStatusRecord::FailedToStart(msg)) && msg@ == message@,
        m == (JobMeta { finished_at: Some(now), exit_status: m.exit_status, ..*meta }),
{
    let mut m = copy_meta(meta);
    m.finished_at = Some(now);
    m.exit_status = Some(ExitStatusRecord::FailedToStart(message.to_owned()));
    m
}

/// The record of a remote job whose launch failed: it is finished, failed
/// to start, and counts as woken up, since there is nothing to report.
pub fn failed_remote_start(meta: &JobMeta, finished: u64, resumed: u64, message: &str) -> (m: JobMeta)
    ensures
        m.exit_status matches Some(ExitStatusRecord::FailedToStart(msg)) && msg@ == message@,
        m == (JobMeta {
            finished_at: Some(finished),
            exit_status: m.exit_status,
            resumed_at: Some(resumed),
            ..*meta
        }),
{
    let mut m = copy_meta(meta);
    m.finished_at = Some(finished);
    m.exit_status = Some(ExitStatusRecord::FailedToStart(message.to_owned()));
    m.resumed_at = Some(resumed);
    m
}

/// The record once the job has ended at `now` with `status`.
pub fn finished_meta(meta: &JobMeta, now: u64, status: ExitStatusRecord) -> (m: JobMeta)
    ensures
        m == (JobMeta { finished_at: Some(now), exit_status: Some(status), ..*meta }),
{
    let mut m = copy_meta(meta);
    m.finished_at = Some(now);
    m.exit_status = Some(status);
    m
}

/// What became of the request for a log pane.
#[derive(Debug, Clone, PartialEq, Eq)]
pub enum PaneOutcome {
    /// A pane was opened with this identifier.
    Opened(String),
    /// No pane was asked for.
    NotRequested,
    /// Opening the pane failed for the reason given; the job goes on
    /// without one.
    Failed(String),
}

/// The warning for the submitter that a pane outcome calls for: only a
/// failure gives one, naming its reason.
pub open spec fn pane_warning_spec(outcome: PaneOutcome) -> Option<Seq<char>> {
    match outcome {
        PaneOutcome::Failed(reason) => Some("could not open tmux log pane: "@ + reason@),
        _ => None,
    }
}

/// Records a pane outcome in the submission and the job record: an opened
/// pane is named in both, a failed one clears the submission's request.
/// Returns the warning for the submitter.
pub fn attach_log_pane(
    request: &mut JobSubmitRequest,
    meta: &mut JobMeta,
    outcome: PaneOutcome,
) -> (warning: Option<String>)
    ensures
        match warning {
            Some(w) => pane_warning_spec(outcome) == Some(w@),
            None => pane_warning_spec(outcome) is None,
        },
        match outcome {
            PaneOutcome::Opened(id) => {
                &&& *final(request) == (JobSubmitRequest { tmux_pane_id: Some(id), ..*old(request) })
                &&& *final(meta) == (JobMeta { tmux_pane_id: Some(id), ..*old(meta) })
            },
            PaneOutcome::NotRequested => {
                &&& *final(request) == *old(request)
                &&& *final(meta) == *old(meta)
            },
            PaneOutcome::Failed(_) => {
                &&& *final(request) == (JobSubmitRequest { tmux_pane_id: None, ..*old(request) })
                &&& *final(meta) == *old(meta)
            },
        },
{
    match outcome {
        PaneOutcome::Opened(id) => {
            request.tmux_pane_id = Some(id.clone());
            meta.tmux_pane_id = Some(id);
            None
        },
        PaneOutcome::NotRequested => None,
        PaneOutcome::Failed(reason) => {
            request.tmux_pane_id = None;
            let mut w = "could not open tmux log pane: ".to_owned();
            w.append(reason.as_str());
            Some(w)
        },
    }
}

/// The stdout and stderr files of a local job.
pub open spec fn local_log_paths_spec(dir: Seq<char>) -> (Seq<char>, Seq<char>) {
    (join_path(dir, "stdout.log"@), join_path(dir, "stderr.log"@))
}

/// The stdout and stderr files in the job directory `dir`.
pub fn local_log_paths(dir: &str) -> (r: (String, String))
    ensures
        (r.0@, r.1@) == local_log_paths_spec(dir@),
{
    (path_join(dir, "stdout.log"), path_join(dir, "stderr.log"))
}

/// The answer to the submitter of a local job.
pub fn local_submit_response(
    job_id: &str,
    pgid: u32,
    stdout_path: &str,
    stderr_path: &str,
    request: &JobSubmitRequest,
    tail_warning: Option<String>,
) -> (r: JobSubmitResponse)
    ensures
        r.job_id@ == job_id@,
        r.pgid == pgid,
        r.stdout_path@ == stdout_path@,
        r.stderr_path@ == stderr_path@,
        r.message@ == "Task is running; it is safe for the agent to exit."@,
        r.tmux_pane_id == request.tmux_pane_id,
        r.tail_warning == tail_warning,
{
    JobSubmitResponse {
        job_id: job_id.to_owned(),
        pgid,
        stdout_path: stdout_path.to_owned(),
        stderr_path: stderr_path.to_owned(),
        message: "Task is running; it is safe for the agent to exit.".to_owned(),
        tmux_pane_id: copy_opt(&request.tmux_pane_id),
        tail_warning,
    }
}

/// The answer to the submitter of a remote job running on `target`.
pub fn remote_submit_response(
    job_id: &str,
    pgid: u32,
    stdout_path: &str,
    stderr_path: &str,
    target: &str,
    request: &JobSubmitRequest,
    tail_warning: Option<String>,
) -> (r: JobSubmitResponse)
    ensures
        r.job_id@ == job_id@,
        r.pgid == pgid,
        r.stdout_path@ == stdout_path@,
        r.stderr_path@ == stderr_path@,
        r.message@ == "Remote task is running on "@ + target@
            + "; it is safe for the agent to exit."@,
        r.tmux_pane_id == request.tmux_pane_id,
        r.tail_warning == tail_warning,
{
    let mut message = "Remote task is running on ".to_owned();
    message.append(target);
    message.append("; it is safe for the agent to exit.");
    JobSubmitResponse {
        job_id: job_id.to_owned(),
        pgid,
        stdout_path: stdout_path.to_owned(),
        stderr_path: stderr_path.to_owned(),
        message,
        tmux_pane_id: copy_opt(&request.tmux_pane_id),
        tail_warning,
    }
}

/// The submission as it is kept once its environment may go: everything but
/// the environment, which is emptied.
pub fn clear_persisted_environment(request: &JobSubmitRequest) -> (r: JobSubmitRequest)
    ensures
        r.env_vars@.len() == 0,
        env_names_unique(r.env_vars@),
        r.command == request.command,
        r.cwd == request.cwd,
        r.session_id == request.session_id,
        r.agent_kind == request.agent_kind,
        r.ssh_target == request.ssh_target,
        r.tmux_pane_id == request.tmux_pane_id,
{
    JobSubmitRequest {
        command: request.command.clone(),
        cwd: request.cwd.clone(),
        env_vars: Vec::new(),
        session_id: copy_opt(&request.session_id),
        agent_kind: copy_agent_kind(&request.agent_kind),
        ssh_target: copy_opt(&request.ssh_target),
        tmux_pane_id: copy_opt(&request.tmux_pane_id),
    }
}

/// The record after a wake-up attempt: a failure is recorded with its
/// message; a success records the time and clears any earlier failure.
pub fn record_resume_outcome(meta: &JobMeta, outcome: Result<(), String>, now: u64) -> (m: JobMeta)
    ensures
        match outcome {
            Ok(()) => m == (JobMeta { resumed_at: Some(now), resume_error: None, ..*meta }),
            Err(message) => m == (JobMeta { resume_error: Some(message), ..*meta }),
        },
{
    let mut m = copy_meta(meta);
    match outcome {
        Ok(()) => {
            m.resumed_at = Some(now);
            m.resume_error = None;
        },
        Err(message) => {
            m.resume_error = Some(message);
        },
    }
    m
}

/// The record of a job that finished at `now` with the exit code `code`:
/// a code of 129 to 192 stands for the signal `code - 128`, any other for a
/// plain exit.
pub open spec fn finished_with_code(meta: JobMeta, code: i32, now: u64, m: JobMeta) -> bool {
    &&& m == (JobMeta { finished_at: Some(now), exit_status: m.exit_status, ..meta })
    &&& 129 <= code <= 192 ==> (m.exit_status matches Some(ExitStatusRecord::Signaled(signal, name))
        && signal == code - 128 && name@ == signal_name_spec(code - 128))
    &&& !(129 <= code <= 192) ==> m.exit_status == Some(ExitStatusRecord::Exited(code))
}

/// Why monitoring of a remote job stopped without an exit status.
pub open spec fn lost_message() -> Seq<char> {
    "remote process and exit record are both missing; exit status is unknown; inspect the remote workload and logs before relaunching"@
}

/// What the monitor of a remote job does after one probe.
#[derive(Debug, Clone, PartialEq, Eq)]
pub enum MonitorStep {
    /// Probe again later: SSH failed, or the job is still running.
    Wait,
    /// The job finished; this is its record.
    Finished(JobMeta),
    /// The job is gone without an exit record; monitoring stops with this
    /// record, whose status is unknown.
    Lost(JobMeta),
}

/// The monitor's next step after a probe whose output is `probe` (`None` when
/// SSH itself failed): wait while SSH fails or the job runs; finish with the
/// recorded code; stop as unknown when neither the process nor its record is
/// there. An unreadable answer is refused.
pub fn monitor_step(meta: &JobMeta, probe: Option<&str>, now: u64) -> (r: Result<
    MonitorStep,
    RemoteError,
>)
    ensures
        probe is None ==> r == Ok::<MonitorStep, RemoteError>(MonitorStep::Wait),
        probe matches Some(out) ==> match probe_report_spec(out@) {
            Err(e) => r == Err::<MonitorStep, RemoteError>(e),
            Ok(ProbeReport::Running) => r == Ok::<MonitorStep, RemoteError>(MonitorStep::Wait),
            Ok(ProbeReport::Gone) => r matches Ok(MonitorStep::Lost(m)) && m.resume_error matches Some(
                e,
            ) && e@ == lost_message() && m == (JobMeta { resume_error: m.resume_error, ..*meta }),
            Ok(ProbeReport::Recorded(code)) => r matches Ok(MonitorStep::Finished(m))
                && finished_with_code(*meta, code, now, m),
        },
{
    let out = match probe {
        None => return Ok(MonitorStep::Wait),
        Some(out) => out,
    };
    match parse_probe_report(out) {
        Err(e) => Err(e),
        Ok(ProbeReport::Running) => Ok(MonitorStep::Wait),
        Ok(ProbeReport::Gone) => {
            let mut m = copy_meta(meta);
            m.resume_error = Some(
                "remote process and exit record are both missing; exit status is unknown; inspect the remote workload and logs before relaunching".to_owned(),
            );
            Ok(MonitorStep::Lost(m))
        },
        Ok(ProbeReport::Recorded(code)) => {
            let status = status_record_from_code(code);
            Ok(MonitorStep::Finished(finished_meta(meta, now, status)))
        },
    }
}

/// A remote job that monitoring lost reads as unknown, stays out of
/// recovery's supervision and cannot be retried.
pub proof fn lemma_lost_remote_job_reads_unknown(meta: JobMeta, m: JobMeta)
    requires
        meta.exit_status is None,
        meta.resumed_at is None,
        m.resume_error matches Some(e) && e@ == lost_message(),
        m == (JobMeta { resume_error: m.resume_error, ..meta }),
    ensures
        status_word(m) == "unknown"@,
        status_note(m) == Some("  monitoring: STOPPED: "@ + lost_message()),
        recovery_action_spec(m) == RecoveryAction::Skip,
        !retryable(m),
{
}

/// What the daemon does with a job record when it starts.
#[derive(Debug, Clone, PartialEq, Eq)]
pub enum RecoveryAction {
    /// Wake-up already succeeded: only clear the stored environment again.
    ClearEnvironment,
    /// Wake-up failed earlier: leave the job for an explicit retry.
    Skip,
    /// A local job whose supervisor was lost: its exit status cannot be
    /// known; record that and clear the stored environment.
    MarkInterrupted,
    /// Resume supervision: monitor a remote job, or deliver the wake-up of a
    /// local job that has an exit status.
    Resume,
}

/// What recovery does with a job record.
pub open spec fn recovery_action_spec(meta: JobMeta) -> RecoveryAction {
    if meta.resumed_at is Some {
        RecoveryAction::ClearEnvironment
    } else if meta.resume_error is Some {
        RecoveryAction::Skip
    } else if meta.ssh_target is None && meta.exit_status is None {
        RecoveryAction::MarkInterrupted
    } else {
        RecoveryAction::Resume
    }
}

/// What recovery does with a job record.
pub fn recovery_action(meta: &JobMeta) -> (a: RecoveryAction)
    ensures
        a == recovery_action_spec(*meta),
{
    if meta.resumed_at.is_some() {
        RecoveryAction::ClearEnvironment
    } else if meta.resume_error.is_some() {
        RecoveryAction::Skip
    } else if meta.ssh_target.is_none() && meta.exit_status.is_none() {
        RecoveryAction::MarkInterrupted
    } else {
        RecoveryAction::Resume
    }
}

/// The message recorded for a local job whose supervisor was lost.
pub open spec fn interrupted_message() -> Seq<char> {
    "local supervisor was interrupted; exit status is unknown; inspect the process and logs manually"@
}

/// The record of a local job whose supervisor was lost.
pub fn interrupted_meta(meta: &JobMeta) -> (m: JobMeta)
    ensures
        m.resume_error matches Some(e) && e@ == interrupted_message(),
        m == (JobMeta { resume_error: m.resume_error, ..*meta }),
{
    let mut m = copy_meta(meta);
    m.resume_error = Some(
        "local supervisor was interrupted; exit status is unknown; inspect the process and logs manually".to_owned(),
    );
    m
}

/// Where the logs of a job are: on the server for a remote job, in the job
/// directory otherwise.
pub open spec fn job_log_paths_spec(dir: Seq<char>, job_id: Seq<char>, ssh_target: Option<String>) -> (
    Seq<char>,
    Seq<char>,
) {
    match ssh_target {
        Some(target) => remote_log_paths_spec(target@, job_id),
        None => local_log_paths_spec(dir),
    }
}

/// The log locations of a job whose directory is `dir`.
pub fn job_log_paths(dir: &str, job_id: &str, request: &JobSubmitRequest) -> (r: (String, String))
    ensures
        (r.0@, r.1@) == job_log_paths_spec(dir@, job_id@, request.ssh_target),
{
    match &request.ssh_target {
        Some(target) => remote_log_paths(target.as_str(), job_id),
        None => local_log_paths(dir),
    }
}

/// Why a wake-up cannot be retried.
#[derive(Debug, Clone, PartialEq, Eq)]
pub enum RetryError {
    /// The job identifier is not valid.
    InvalidJobId,
    /// Only completed jobs with a failed wake-up can be retried.
    NotRetryable,
}

/// Whether a job's wake-up may be retried: it has an exit status, was never
/// woken successfully, and its last wake-up failed.
pub open spec fn retryable(meta: JobMeta) -> bool {
    meta.exit_status is Some && meta.resumed_at is None && meta.resume_error is Some
}

/// The record with which a failed wake-up is retried: the failure is
/// cleared, nothing else changes. Refused for an invalid identifier and for
/// any job that is not `retryable`.
pub fn retry_resume(state: &str, job_id: &str, meta: &JobMeta) -> (r: Result<JobMeta, RetryError>)
    ensures
        !valid_job_id(job_id@) ==> r == Err::<JobMeta, RetryError>(RetryError::InvalidJobId),
        valid_job_id(job_id@) && !retryable(*meta) ==> r == Err::<JobMeta, RetryError>(
            RetryError::NotRetryable,
        ),
        valid_job_id(job_id@) && retryable(*meta) ==> r == Ok::<JobMeta, RetryError>(
            JobMeta { resume_error: None, ..*meta },
        ),
{
    match job_dir(state, job_id) {
        Err(_) => return Err(RetryError::InvalidJobId),
        Ok(_) => {},
    }
    if meta.exit_status.is_none() || meta.resumed_at.is_some() || meta.resume_error.is_none() {
        return Err(RetryError::NotRetryable);
    }
    let mut m = copy_meta(meta);
    m.resume_error = None;
    Ok(m)
}

/// A local job whose supervisor was lost is never reported as a success: it
/// reads `unknown` with a monitoring stop, recovery leaves it alone from
/// then on, and its wake-up cannot be retried.
pub proof fn lemma_interrupted_job_reads_unknown(meta: JobMeta, m: JobMeta)
    requires
        recovery_action_spec(meta) == RecoveryAction::MarkInterrupted,
        m.resume_error matches Some(e) && e@ == interrupted_message(),
        m == (JobMeta { resume_error: m.resume_error, ..meta }),
    ensures
        status_word(m) == "unknown"@,
        status_note(m) == Some("  monitoring: STOPPED: "@ + interrupted_message()),
        recovery_action_spec(m) == RecoveryAction::Skip,
        !retryable(m),
{
}

/// After a successful wake-up the job reads as complete, recovery only
/// clears its stored environment, and it cannot be woken again by retry.
pub proof fn lemma_woken_job_is_complete(meta: JobMeta, now: u64, m: JobMeta)
    requires
        m == (JobMeta { resumed_at: Some(now), resume_error: None, ..meta }),
    ensures
        status_note(m) == Some("  wake-up: complete"@),
        recovery_action_spec(m) == RecoveryAction::ClearEnvironment,
        !retryable(m),
{
}

/// A finished job whose wake-up failed reads as a failed wake-up with its
/// message, is left alone by recovery, and may be retried; the retry starts
/// from the same record without the failure.
pub proof fn lemma_failed_wakeup_is_retryable(meta: JobMeta, message: String, m: JobMeta)
    requires
        meta.exit_status is Some,
        meta.resumed_at is None,
        m == (JobMeta { resume_error: Some(message), ..meta }),
    ensures
        status_note(m) == Some("  wake-up: FAILED: "@ + message@),
        recovery_action_spec(m) == RecoveryAction::Skip,
        retryable(m),
        (JobMeta { resume_error: None, ..m }) == (JobMeta { resume_error: None, ..meta }),
{
}

/// A job that has started and not ended reads as running with no note, is
/// always listed, and after a daemon restart is monitored again when remote
/// but marked as interrupted when local (its process cannot be recovered).
pub proof fn lemma_started_job_reads_running(
    job_id: Seq<char>,
    request: JobSubmitRequest,
    created_at: u64,
    ssh_target: Option<String>,
    m: JobMeta,
    now: u64,
    pgid: u32,
)
    requires
        initial_meta_spec(job_id, request, created_at, ssh_target, m),
    ensures
        ({
            let s = JobMeta { started_at: Some(now), pgid: Some(pgid), ..m };
            &&& status_word(s) == "running"@
            &&& status_note(s) is None
            &&& s.resumed_at is None
            &&& recovery_action_spec(s) == if ssh_target is Some {
                RecoveryAction::Resume
            } else {
                RecoveryAction::MarkInterrupted
            }
        }),
{
}


/// Recovery resumes every finished job whose wake-up neither happened nor
/// failed, local or remote: its completion event is still owed.
pub proof fn lemma_recovery_resumes_pending_wakeups(meta: JobMeta)
    requires
        meta.exit_status is Some,
        meta.resumed_at is None,
        meta.resume_error is None,
    ensures
        recovery_action_spec(meta) == RecoveryAction::Resume,
{
}

/// A local job's logs are the job directory's `stdout.log` (first) and
/// `stderr.log` (second).
pub proof fn lemma_local_log_paths(dir: Seq<char>, job_id: Seq<char>, ssh_target: Option<String>)
    requires
        ssh_target is None,
    ensures
        job_log_paths_spec(dir, job_id, ssh_target).0 == join_path(dir, "stdout.log"@),
        job_log_paths_spec(dir, job_id, ssh_target).1 == join_path(dir, "stderr.log"@),
{
}

} // verus!
