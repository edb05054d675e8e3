use slumber::paths::job_dir;
use slumber::records::{AgentKind, ExitStatusRecord, JobMeta, JobSubmitRequest};
use slumber::remote::RemoteError;
use slumber::supervisor::{
    attach_log_pane, clear_persisted_environment, failed_local_start, failed_remote_start,
    finished_meta, initial_meta, interrupted_meta, job_log_paths, local_log_paths,
    local_submit_response, new_job_id, record_resume_outcome, recovery_action, monitor_step,
    remote_submit_response, retry_resume, started_meta, MonitorStep, PaneOutcome, RecoveryAction,
    RetryError,
};

fn request() -> JobSubmitRequest {
    JobSubmitRequest {
        command: "make".to_owned(),
        cwd: "/w".to_owned(),
        env_vars: vec![("SECRET".to_owned(), "x".to_owned())],
        session_id: Some("s".to_owned()),
        agent_kind: AgentKind::CodeX,
        ssh_target: Some("gpu-box".to_owned()),
        tmux_pane_id: Some(String::new()),
    }
}

#[test]
fn job_ids_name_valid_directories() {
    let id = new_job_id(1700000000, 4242, 0);
    assert_eq!(id, "job_1700000000_4242_0");
    assert!(job_dir("/st", &id).is_ok());
    assert!(job_dir("/st", &new_job_id(u64::MAX, u32::MAX, u64::MAX)).is_ok());
}

#[test]
fn records_through_a_local_job() {
    let r = request();
    let m = initial_meta("job_1", &r, 10, false);
    assert_eq!(m.ssh_target, None);
    assert_eq!((m.command.as_str(), m.cwd.as_str(), m.created_at), ("make", "/w", 10));
    assert_eq!(initial_meta("job_1", &r, 10, true).ssh_target, Some("gpu-box".to_owned()));
    let started = started_meta(&m, 11, 99);
    assert_eq!((started.started_at, started.pgid), (Some(11), Some(99)));
    let done = finished_meta(&started, 20, ExitStatusRecord::Exited(7));
    assert_eq!((done.finished_at, done.exit_status.clone()), (Some(20), Some(ExitStatusRecord::Exited(7))));
    let failed = failed_local_start(&m, 12, "boom");
    assert_eq!(failed.exit_status, Some(ExitStatusRecord::FailedToStart("boom".to_owned())));
    assert_eq!(failed.resumed_at, None);
    let remote_failed = failed_remote_start(&m, 12, 13, "ssh down");
    assert_eq!((remote_failed.finished_at, remote_failed.resumed_at), (Some(12), Some(13)));
}

#[test]
fn pane_outcomes() {
    let mut r = request();
    let mut m = initial_meta("job_1", &r, 10, false);
    assert_eq!(attach_log_pane(&mut r, &mut m, PaneOutcome::Opened("%7".to_owned())), None);
    assert_eq!((r.tmux_pane_id.clone(), m.tmux_pane_id.clone()), (Some("%7".to_owned()), Some("%7".to_owned())));
    let mut r2 = request();
    let mut m2 = initial_meta("job_2", &r2, 10, false);
    assert_eq!(
        attach_log_pane(&mut r2, &mut m2, PaneOutcome::Failed("TMUX is not set".to_owned())),
        Some("could not open tmux log pane: TMUX is not set".to_owned())
    );
    assert_eq!((r2.tmux_pane_id, m2.tmux_pane_id), (None, None));
    let mut r3 = request();
    let mut m3 = initial_meta("job_3", &r3, 10, false);
    assert_eq!(attach_log_pane(&mut r3, &mut m3, PaneOutcome::NotRequested), None);
    assert_eq!(r3.tmux_pane_id, Some(String::new()));
}

#[test]
fn submit_responses() {
    let r = request();
    let local = local_submit_response("job_1", 5, "/o", "/e", &r, None);
    assert_eq!(local.message, "Task is running; it is safe for the agent to exit.");
    assert_eq!(local.tail_warning, None);
    let warned = local_submit_response("job_1", 5, "/o", "/e", &r, Some("could not open tmux log pane: x".to_owned()));
    assert_eq!(warned.tail_warning, Some("could not open tmux log pane: x".to_owned()));
    let remote = remote_submit_response("job_1", 5, "/o", "/e", "gpu-box", &r, None);
    assert_eq!(remote.message, "Remote task is running on gpu-box; it is safe for the agent to exit.");
    assert_eq!(remote.tmux_pane_id, Some(String::new()));
    assert_eq!(local_log_paths("/st/jobs/job_1"), ("/st/jobs/job_1/stdout.log".to_owned(), "/st/jobs/job_1/stderr.log".to_owned()));
    assert_eq!(
        job_log_paths("/st/jobs/job_1", "job_1", &r),
        ("gpu-box:~/.slumber/jobs/job_1/stdout.log".to_owned(), "gpu-box:~/.slumber/jobs/job_1/stderr.log".to_owned())
    );
}

#[test]
fn clears_only_the_environment() {
    let r = request();
    let cleared = clear_persisted_environment(&r);
    assert!(cleared.env_vars.is_empty());
    assert_eq!(JobSubmitRequest { env_vars: r.env_vars.clone(), ..cleared }, r);
}

fn finished() -> JobMeta {
    let r = request();
    finished_meta(&initial_meta("job_1", &r, 10, true), 20, ExitStatusRecord::Exited(0))
}

#[test]
fn wake_up_outcomes_and_retry() {
    let failed = record_resume_outcome(&finished(), Err("hook failed".to_owned()), 30);
    assert_eq!(failed.resume_error, Some("hook failed".to_owned()));
    assert_eq!(failed.resumed_at, None);
    assert_eq!(recovery_action(&failed), RecoveryAction::Skip);
    let retried = retry_resume("/st", "job_1", &failed).unwrap();
    assert_eq!(retried.resume_error, None);
    assert_eq!(retried.exit_status, failed.exit_status);
    let woken = record_resume_outcome(&retried, Ok(()), 40);
    assert_eq!((woken.resumed_at, woken.resume_error.clone()), (Some(40), None));
    assert_eq!(recovery_action(&woken), RecoveryAction::ClearEnvironment);
    assert_eq!(retry_resume("/st", "job_1", &woken), Err(RetryError::NotRetryable));
    assert_eq!(retry_resume("/st", "../x", &failed), Err(RetryError::InvalidJobId));
    assert_eq!(retry_resume("/st", "job_1", &finished()), Err(RetryError::NotRetryable));
}

#[test]
fn recovery_of_interrupted_local_job() {
    let r = request();
    let running = started_meta(&initial_meta("job_1", &r, 10, false), 11, 5);
    assert_eq!(recovery_action(&running), RecoveryAction::MarkInterrupted);
    let marked = interrupted_meta(&running);
    assert_eq!(
        marked.resume_error.as_deref(),
        Some("local supervisor was interrupted; exit status is unknown; inspect the process and logs manually")
    );
    assert_eq!(recovery_action(&marked), RecoveryAction::Skip);
    assert_eq!(retry_resume("/st", "job_1", &marked), Err(RetryError::NotRetryable));
    let remote = started_meta(&initial_meta("job_2", &r, 10, true), 11, 5);
    assert_eq!(recovery_action(&remote), RecoveryAction::Resume);
    assert_eq!(recovery_action(&finished()), RecoveryAction::Resume);
}

#[test]
fn remote_monitor_steps() {
    let r = request();
    let m = started_meta(&initial_meta("job_1", &r, 10, true), 11, 4242);
    assert_eq!(monitor_step(&m, None, 50), Ok(MonitorStep::Wait));
    assert_eq!(monitor_step(&m, Some("running\n"), 50), Ok(MonitorStep::Wait));
    let done = match monitor_step(&m, Some("exit 23\n"), 50).unwrap() {
        MonitorStep::Finished(done) => done,
        other => panic!("unexpected step {other:?}"),
    };
    assert_eq!((done.finished_at, done.exit_status), (Some(50), Some(ExitStatusRecord::Exited(23))));
    let killed = match monitor_step(&m, Some("exit 137\n"), 50).unwrap() {
        MonitorStep::Finished(killed) => killed,
        other => panic!("unexpected step {other:?}"),
    };
    assert_eq!(killed.exit_status, Some(ExitStatusRecord::Signaled(9, "SIGKILL (Potential OOM)".to_owned())));
    let lost = match monitor_step(&m, Some("gone\n"), 50).unwrap() {
        MonitorStep::Lost(lost) => lost,
        other => panic!("unexpected step {other:?}"),
    };
    assert_eq!(lost.exit_status, None);
    assert_eq!(lost.finished_at, None);
    assert_eq!(
        lost.resume_error.as_deref(),
        Some("remote process and exit record are both missing; exit status is unknown; inspect the remote workload and logs before relaunching")
    );
    assert_eq!(recovery_action(&lost), RecoveryAction::Skip);
    assert_eq!(monitor_step(&m, Some("exit nope"), 50), Err(RemoteError::InvalidExitCode));
    assert_eq!(monitor_step(&m, Some("what"), 50), Err(RemoteError::InvalidProbe));
}
