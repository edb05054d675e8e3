use slumber::daemon::{
    check_request_line, completion_finished, completion_started, handle_request, protocol_matches,
    protocol_stamp, request_fits, retry_finished, submit_finished, DaemonState, LineCheck, Reply,
    Step,
};
use slumber::records::{AgentKind, DaemonRequest, JobSubmitRequest};

fn idle() -> DaemonState {
    DaemonState { active: 0, stopping: false }
}

fn submission() -> JobSubmitRequest {
    JobSubmitRequest {
        command: "true".to_owned(),
        cwd: "/".to_owned(),
        env_vars: Vec::new(),
        session_id: None,
        agent_kind: AgentKind::NoResume,
        ssh_target: None,
        tmux_pane_id: None,
    }
}

#[test]
fn answers_ping_and_bad_lines() {
    let state = DaemonState { active: 3, stopping: false };
    let (next, step) = handle_request(&state, Some(DaemonRequest::Ping));
    assert_eq!(next, state);
    assert_eq!(step, Step::Answer(Reply::Status { protocol: "5".to_owned(), active: 3 }));
    let (_, step) = handle_request(&state, None);
    assert_eq!(step, Step::Answer(Reply::Error("invalid daemon request".to_owned())));
}

#[test]
fn stops_only_when_idle() {
    let busy = DaemonState { active: 1, stopping: false };
    let (next, step) = handle_request(&busy, Some(DaemonRequest::Stop));
    assert_eq!(next, busy);
    assert_eq!(
        step,
        Step::Answer(Reply::Error(
            "jobs or wake-up commands are still active; wait for them to finish before stopping".to_owned()
        ))
    );
    let (next, step) = handle_request(&idle(), Some(DaemonRequest::Stop));
    assert!(next.stopping);
    assert_eq!(step, Step::AnswerThenStop(Reply::Message("Daemon stopped.".to_owned())));
    let (after, step) = handle_request(&next, Some(DaemonRequest::Submit(submission())));
    assert_eq!(after, next);
    assert_eq!(step, Step::Answer(Reply::Error("daemon is stopping".to_owned())));
    let (_, step) = handle_request(&next, Some(DaemonRequest::Retry { job_id: "job_1".to_owned() }));
    assert_eq!(step, Step::Answer(Reply::Error("daemon is stopping".to_owned())));
}

#[test]
fn active_count_balances() {
    let (during, step) = handle_request(&idle(), Some(DaemonRequest::Submit(submission())));
    assert_eq!(step, Step::Submit(submission()));
    assert_eq!(during.active, 1);
    let started = submit_finished(&during, true);
    assert_eq!(started.active, 1);
    assert_eq!(completion_finished(&started).active, 0);
    assert_eq!(submit_finished(&during, false).active, 0);
    let (same, step) = handle_request(&idle(), Some(DaemonRequest::Retry { job_id: "job_1".to_owned() }));
    assert_eq!(step, Step::Retry("job_1".to_owned()));
    assert_eq!(retry_finished(&same, true).active, 1);
    assert_eq!(retry_finished(&same, false).active, 0);
    assert_eq!(completion_started(&idle()).active, 1);
    let full = DaemonState { active: usize::MAX, stopping: false };
    assert_eq!(completion_started(&full).active, 0);
    assert_eq!(completion_finished(&idle()).active, usize::MAX);
}

#[test]
fn request_line_limits() {
    assert_eq!(check_request_line(0, false), LineCheck::Empty);
    assert_eq!(check_request_line(10, false), LineCheck::Refused);
    assert_eq!(check_request_line(1024 * 1024 + 1, true), LineCheck::Refused);
    assert_eq!(check_request_line(1024 * 1024, true), LineCheck::Accepted);
    assert!(request_fits(1024 * 1024));
    assert!(!request_fits(1024 * 1024 + 1));
}

#[test]
fn protocol_stamps() {
    assert_eq!(protocol_stamp(4242), "5:4242");
    assert!(protocol_matches(&protocol_stamp(4242), "4242"));
    assert!(protocol_matches(" 5:4242\n", "4242\n"));
    assert!(!protocol_matches("4:4242", "4242"));
    assert!(!protocol_matches("5:4242", "4243"));
    assert!(!protocol_matches("", ""));
}
