use slumber::payload::{build_payload, job_duration, resume_delivery, WakeStep};
use slumber::paths::PathError;
use slumber::records::{AgentKind, ExitStatusRecord, JobMeta, JobSubmitRequest};

fn request(agent_kind: AgentKind, session_id: Option<&str>, ssh_target: Option<&str>) -> JobSubmitRequest {
    JobSubmitRequest {
        command: "make all".to_owned(),
        cwd: "/work".to_owned(),
        env_vars: vec![("PATH".to_owned(), "/bin".to_owned())],
        session_id: session_id.map(str::to_owned),
        agent_kind,
        ssh_target: ssh_target.map(str::to_owned),
        tmux_pane_id: None,
    }
}

fn meta(job_id: &str, status: Option<ExitStatusRecord>) -> JobMeta {
    JobMeta {
        job_id: job_id.to_owned(),
        command: "make all".to_owned(),
        cwd: "/work".to_owned(),
        created_at: 100,
        started_at: Some(110),
        finished_at: Some(3832),
        pgid: Some(42),
        exit_status: status,
        ssh_target: None,
        resumed_at: None,
        tmux_pane_id: None,
        resume_error: None,
    }
}

#[test]
fn builds_completion_event() {
    let text = build_payload(
        &request(AgentKind::CodeX, Some("s"), None),
        &ExitStatusRecord::Exited(7),
        3722,
        "/st/jobs/job_1/stdout.log",
        "/st/jobs/job_1/stderr.log",
    );
    assert_eq!(
        text,
        "[SLUMBER EVENT: TASK TERMINATED]\n--------------------------------------------------\n\
         • Command          : make all\n• Working Directory: /work\n\
         • Exit Status      : exit 7\n• Duration         : 1h 2m 2s\n• Logs:\n\
         - STDOUT Log     : /st/jobs/job_1/stdout.log\n- STDERR Log     : /st/jobs/job_1/stderr.log\n\
         --------------------------------------------------\n\
         INSTRUCTION: Inspect logs if needed and decide on next actions."
    );
    let remote = build_payload(
        &request(AgentKind::CodeX, Some("s"), Some("gpu-box")),
        &ExitStatusRecord::Exited(23),
        5,
        "gpu-box:~/.slumber/jobs/job_1/stdout.log",
        "gpu-box:~/.slumber/jobs/job_1/stderr.log",
    );
    assert!(remote.contains("• Working Directory: /work\n• Remote Target    : gpu-box\n• Exit Status      : exit 23\n"));
}

#[test]
fn durations_are_clamped() {
    let mut m = meta("job_1", None);
    assert_eq!(job_duration(&m, 0), 3722);
    m.finished_at = None;
    assert_eq!(job_duration(&m, 200), 90);
    m.started_at = None;
    assert_eq!(job_duration(&m, 160), 60);
    assert_eq!(job_duration(&m, 50), 0);
}

#[test]
fn delivery_for_each_wake_up_kind() {
    let done = Some(ExitStatusRecord::Exited(0));
    assert_eq!(resume_delivery("/st", &request(AgentKind::CodeX, Some("s"), None), &meta("job_1", None), 0, "o", "e"), Ok(None));
    assert_eq!(
        resume_delivery("/st", &request(AgentKind::CodeX, Some("s"), None), &meta("bad", done.clone()), 0, "o", "e"),
        Err(PathError::InvalidJobId)
    );

    let codex = resume_delivery("/st", &request(AgentKind::CodeX, Some("thread-1"), None), &meta("job_1", done.clone()), 0, "o", "e")
        .unwrap()
        .unwrap();
    assert_eq!(codex.payload_path, "/st/jobs/job_1/payload.md");
    match codex.wake {
        WakeStep::Run(c) => {
            assert_eq!(c.program, "codex");
            assert_eq!(c.args, vec!["queue", "--thread", "thread-1", "--message", codex.payload.as_str()]);
            assert_eq!(c.cwd, "/work");
            assert_eq!(c.env[0], ("PATH".to_owned(), "/bin".to_owned()));
            assert_eq!(c.env[1], ("SLUMBER_SESSION_ID".to_owned(), "thread-1".to_owned()));
            assert_eq!(c.env[2], ("SLUMBER_PAYLOAD".to_owned(), codex.payload.clone()));
            assert_eq!(c.env[3], ("SLUMBER_PAYLOAD_PATH".to_owned(), "/st/jobs/job_1/payload.md".to_owned()));
        }
        other => panic!("unexpected {other:?}"),
    }

    let missing = resume_delivery("/st", &request(AgentKind::CodeX, None, None), &meta("job_1", done.clone()), 0, "o", "e")
        .unwrap()
        .unwrap();
    assert_eq!(missing.wake, WakeStep::MissingSessionId);

    let hook = resume_delivery(
        "/st",
        &request(AgentKind::GenericCommand { resume_template: "true".to_owned() }, None, None),
        &meta("job_1", done.clone()),
        0,
        "o",
        "e",
    )
    .unwrap()
    .unwrap();
    match hook.wake {
        WakeStep::Run(c) => {
            assert_eq!(c.program, "sh");
            assert_eq!(c.args, vec!["-c", "true"]);
            assert_eq!(c.env[1], ("SLUMBER_SESSION_ID".to_owned(), String::new()));
        }
        other => panic!("unexpected {other:?}"),
    }

    let none = resume_delivery("/st", &request(AgentKind::NoResume, None, None), &meta("job_1", done), 0, "o", "e")
        .unwrap()
        .unwrap();
    assert_eq!(none.wake, WakeStep::Nothing);
}

#[test]
fn remote_line_stands_before_exit_status() {
    let status = ExitStatusRecord::Exited(23);
    let local = build_payload(&request(AgentKind::NoResume, None, None), &status, 5, "/o", "/e");
    let remote = build_payload(&request(AgentKind::NoResume, None, Some("gpu-box")), &status, 5, "/o", "/e");
    assert!(!local.contains("Remote Target"));
    assert_eq!(
        remote,
        local.replacen("• Exit Status", "• Remote Target    : gpu-box\n• Exit Status", 1)
    );
}
