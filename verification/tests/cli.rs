use slumber::cli::{
    build_submit_request, check_daemon_identity, check_log_job_id, check_run, installer_args,
    log_file_name, next_poll_delay, select_session_id, submission_report, submission_warning,
    tmux_tail_enabled,
    update_allowed, ConfigError, IdentityError, LogsError, RunError,
};
use slumber::records::{AgentKind, JobSubmitResponse};

fn s(text: &str) -> Option<String> {
    Some(text.to_owned())
}

#[test]
fn session_selection() {
    assert_eq!(select_session_id(s("a"), s("b"), s("c")), s("a"));
    assert_eq!(select_session_id(None, s("b"), s("c")), s("b"));
    assert_eq!(select_session_id(None, None, s("c")), s("c"));
    assert_eq!(select_session_id(s("  "), s("b"), s("c")), None);
    assert_eq!(select_session_id(None, None, None), None);
}

#[test]
fn run_refusals() {
    assert_eq!(check_run("  ", &s("x"), false, false), Err(RunError::EmptyCommand));
    assert_eq!(check_run("make", &None, false, false), Err(RunError::NoSession));
    assert_eq!(check_run("make", &None, true, false), Ok(()));
    assert_eq!(check_run("make", &None, false, true), Ok(()));
    assert_eq!(check_run("make", &s("x"), false, false), Ok(()));
}

#[test]
fn builds_submissions() {
    let r = build_submit_request("make".to_owned(), "/w".to_owned(), vec![], None, false, s("hook"), s("gpu"), true);
    assert_eq!(r.agent_kind, AgentKind::GenericCommand { resume_template: "hook".to_owned() });
    assert_eq!(r.tmux_pane_id, Some(String::new()));
    let r = build_submit_request("make".to_owned(), "/w".to_owned(), vec![], s("t"), false, None, None, false);
    assert_eq!(r.agent_kind, AgentKind::CodeX);
    assert_eq!(r.tmux_pane_id, None);
    let r = build_submit_request("make".to_owned(), "/w".to_owned(), vec![], None, true, None, None, false);
    assert_eq!(r.agent_kind, AgentKind::NoResume);
}

#[test]
fn submitted_environment_holds_each_name_once() {
    let pair = |k: &str, v: &str| (k.to_owned(), v.to_owned());
    let env = vec![pair("A", "1"), pair("B", "2"), pair("A", "3"), pair("C", "4")];
    let r = build_submit_request("make".to_owned(), "/w".to_owned(), env, None, true, None, None, false);
    assert_eq!(r.env_vars, vec![pair("B", "2"), pair("A", "3"), pair("C", "4")]);
}

#[test]
fn submission_report_lines() {
    let response = JobSubmitResponse {
        job_id: "job_1_2_3".to_owned(),
        pgid: 42,
        stdout_path: "/o".to_owned(),
        stderr_path: "/e".to_owned(),
        message: "Task is running; it is safe for the agent to exit.".to_owned(),
        tmux_pane_id: s("%7"),
        tail_warning: None,
    };
    assert_eq!(
        submission_report(&response),
        vec!["Submitted job_1_2_3 (process 42)", "stdout: /o", "stderr: /e", "tail pane: %7", "Task is running; it is safe for the agent to exit."]
    );
    assert_eq!(submission_warning(&response), None);
    let warned = JobSubmitResponse {
        tmux_pane_id: None,
        tail_warning: s("could not open tmux log pane: TMUX is not set"),
        ..response
    };
    assert_eq!(
        submission_report(&warned),
        vec!["Submitted job_1_2_3 (process 42)", "stdout: /o", "stderr: /e", "Task is running; it is safe for the agent to exit."]
    );
    assert_eq!(
        submission_warning(&warned),
        s("Warning: could not open tmux log pane: TMUX is not set. Task submission succeeded; use `slumber logs job_1_2_3` to inspect output.")
    );
}

#[test]
fn tail_setting() {
    assert_eq!(tmux_tail_enabled(true, true, None), Ok(false));
    assert_eq!(tmux_tail_enabled(false, false, None), Ok(false));
    assert_eq!(tmux_tail_enabled(false, true, None), Ok(true));
    assert_eq!(tmux_tail_enabled(false, true, Some("auto_tmux_tail = false\n")), Ok(false));
    assert_eq!(tmux_tail_enabled(false, true, Some("# note\nother = 1\n auto_tmux_tail=true # yes\r\n")), Ok(true));
    assert_eq!(tmux_tail_enabled(false, true, Some("#auto_tmux_tail = false\n")), Ok(true));
    assert_eq!(tmux_tail_enabled(false, true, Some("auto_tmux_tail = false\nauto_tmux_tail = true")), Ok(false));
    assert_eq!(
        tmux_tail_enabled(false, true, Some("auto_tmux_tail = yes")),
        Err(ConfigError::InvalidTailSetting("yes".to_owned()))
    );
}

#[test]
fn logs_and_update_choices() {
    assert_eq!(check_log_job_id("job_1"), Ok(()));
    for bad in ["a/b", ".", ".."] {
        assert_eq!(check_log_job_id(bad), Err(LogsError::InvalidJobId));
    }
    assert_eq!(log_file_name(true), "stderr.log");
    assert_eq!(log_file_name(false), "stdout.log");
    assert!(update_allowed(Some("slumber")));
    assert!(!update_allowed(Some("slumber-old")));
    assert!(!update_allowed(None));
    assert_eq!(installer_args(None, None, false), vec!["-s", "--"]);
    assert_eq!(
        installer_args(Some("v0.1.2"), Some("/tmp/slumber"), true),
        vec!["-s", "--", "--version", "v0.1.2", "--from", "/tmp/slumber", "--github"]
    );
}

#[test]
fn daemon_identity() {
    assert_eq!(check_daemon_identity(false, 1, 1, 1), Err(IdentityError::NotSocket));
    assert_eq!(check_daemon_identity(true, 2, 1, 1), Err(IdentityError::Untrusted));
    assert_eq!(check_daemon_identity(true, 1, 2, 1), Err(IdentityError::Untrusted));
    assert_eq!(check_daemon_identity(true, 1, 1, 1), Ok(()));
}

#[test]
fn polling_backs_off() {
    let mut delay = 25;
    let mut seen = Vec::new();
    for _ in 0..6 {
        seen.push(delay);
        delay = next_poll_delay(delay);
    }
    assert_eq!(seen, vec![25, 50, 100, 200, 250, 250]);
}
