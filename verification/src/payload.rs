//! The completion event: how long a job ran, the text handed to the agent,
//! and the wake-up command that delivers it.
use crate::exit::{exit_status_text, exit_status_text_spec, printable_status};
use crate::paths::{job_dir, job_dir_spec, PathError};
use crate::records::{copy_env, AgentKind, ExitStatusRecord, JobMeta, JobSubmitRequest};
use crate::text::{
    contains_text, join_path, lemma_replace_first_at, nat_text, occurs_at, path_join, push_nat,
    replace_first, starts_with, views,
};
use vstd::prelude::*;

verus! {

/// A duration in seconds as the completion event shows it: `<h>h <m>m <s>s`
/// from one hour on, `<m>m <s>s` from one minute on, otherwise `<s>s`.
pub open spec fn duration_text(seconds: nat) -> Seq<char> {
    let hours = seconds / 3600;
    let minutes = (seconds % 3600) / 60;
    let secs = seconds % 60;
    if hours > 0 {
        nat_text(hours) + "h "@ + nat_text(minutes) + "m "@ + nat_text(secs) + "s"@
    } else if minutes > 0 {
        nat_text(minutes) + "m "@ + nat_text(secs) + "s"@
    } else {
        nat_text(secs) + "s"@
    }
}

/// A duration in seconds in compact form.
pub fn format_duration(seconds: u64) -> (t: String)
    ensures
        t@ == duration_text(seconds as nat),
{
    let hours = seconds / 3600;
    let minutes = (seconds % 3600) / 60;
    let secs = seconds % 60;
    let mut t = String::new();
    if hours > 0 {
        push_nat(&mut t, hours);
        t.append("h ");
        push_nat(&mut t, minutes);
        t.append("m ");
        push_nat(&mut t, secs);
        t.append("s");
    } else if minutes > 0 {
        push_nat(&mut t, minutes);
        t.append("m ");
        push_nat(&mut t, secs);
        t.append("s");
    } else {
        push_nat(&mut t, secs);
        t.append("s");
    }
    assert(t@ =~= duration_text(seconds as nat));
    t
}

/// The parts of a compact duration add up to the duration.
pub proof fn lemma_duration_parts(seconds: nat)
    ensures
        (seconds / 3600) * 3600 + ((seconds % 3600) / 60) * 60 + seconds % 60 == seconds,
        (seconds % 3600) / 60 < 60,
        seconds % 60 < 60,
{
}

/// Whether `text` shows the hours `h`, minutes `m` and seconds `s`: as
/// `<h>h <m>m <s>s` when there are hours, as `<m>m <s>s` when there are
/// minutes but no hours, as `<s>s` otherwise.
pub open spec fn shows_duration(text: Seq<char>, h: nat, m: nat, s: nat) -> bool {
    if h > 0 {
        text == nat_text(h) + "h "@ + nat_text(m) + "m "@ + nat_text(s) + "s"@
    } else if m > 0 {
        text == nat_text(m) + "m "@ + nat_text(s) + "s"@
    } else {
        text == nat_text(s) + "s"@
    }
}

/// The numbers a duration text shows add back to the duration, and the
/// minutes and seconds shown are each under 60.
pub proof fn lemma_duration_text_reads_back(seconds: nat)
    ensures
        exists|h: nat, m: nat, s: nat|
            #[trigger] shows_duration(duration_text(seconds), h, m, s) && m < 60 && s < 60 && h
                * 3600 + m * 60 + s == seconds,
{
    let h = seconds / 3600;
    let m = (seconds % 3600) / 60;
    let s = seconds % 60;
    lemma_duration_parts(seconds);
    assert(shows_duration(duration_text(seconds), h, m, s));
}

/// How long a finished job ran: from its start (its creation when it never
/// started) to its end (or `now` when no end is recorded), zero when the end
/// comes first.
pub open spec fn run_duration(meta: JobMeta, now: u64) -> nat {
    let started = match meta.started_at {
        Some(t) => t,
        None => meta.created_at,
    };
    let finished = match meta.finished_at {
        Some(t) => t,
        None => now,
    };
    if finished >= started {
        (finished - started) as nat
    } else {
        0
    }
}

/// How long a finished job ran, in seconds.
pub fn job_duration(meta: &JobMeta, now: u64) -> (d: u64)
    ensures
        d == run_duration(*meta, now),
{
    let started = match meta.started_at {
        Some(t) => t,
        None => meta.created_at,
    };
    let finished = match meta.finished_at {
        Some(t) => t,
        None => now,
    };
    finished.saturating_sub(started)
}

/// The completion event handed to the agent: the command, its working
/// directory, the remote target when there is one, the exit status, the
/// duration and where the two logs are. The logs' contents are not part of
/// it.
pub open spec fn payload_spec(
    request: JobSubmitRequest,
    status: ExitStatusRecord,
    duration: nat,
    stdout_path: Seq<char>,
    stderr_path: Seq<char>,
) -> Seq<char> {
    let remote = match request.ssh_target {
        Some(target) => "• Remote Target    : "@ + target@ + "\n"@,
        None => Seq::empty(),
    };
    "[SLUMBER EVENT: TASK TERMINATED]\n--------------------------------------------------\n• Command          : "@
        + request.command@ + "\n• Working Directory: "@ + request.cwd@ + "\n"@ + remote
        + "• Exit Status      : "@ + exit_status_text_spec(status) + "\n• Duration         : "@
        + duration_text(duration) + "\n• Logs:\n- STDOUT Log     : "@ + stdout_path
        + "\n- STDERR Log     : "@ + stderr_path
        + "\n--------------------------------------------------\nINSTRUCTION: Inspect logs if needed and decide on next actions."@
}

/// The part of the completion event before the remote-target line: the
/// banner, the command and the working directory.
pub open spec fn payload_head(request: JobSubmitRequest) -> Seq<char> {
    "[SLUMBER EVENT: TASK TERMINATED]\n--------------------------------------------------\n• Command          : "@
        + request.command@ + "\n• Working Directory: "@ + request.cwd@ + "\n"@
}

/// The part of the completion event from the exit-status line on.
pub open spec fn payload_tail(
    status: ExitStatusRecord,
    duration: nat,
    stdout_path: Seq<char>,
    stderr_path: Seq<char>,
) -> Seq<char> {
    "• Exit Status      : "@ + exit_status_text_spec(status) + "\n• Duration         : "@
        + duration_text(duration) + "\n• Logs:\n- STDOUT Log     : "@ + stdout_path
        + "\n- STDERR Log     : "@ + stderr_path
        + "\n--------------------------------------------------\nINSTRUCTION: Inspect logs if needed and decide on next actions."@
}

/// A remote job's completion event differs from the same local job's only by
/// the remote-target line, which stands right before the exit-status line:
/// without a target the event is head then tail, with target `t` it is head,
/// `• Remote Target    : t`, then the same tail, which begins with the
/// exit status.
pub proof fn lemma_remote_line_before_exit_status(
    request: JobSubmitRequest,
    target: String,
    status: ExitStatusRecord,
    duration: nat,
    stdout_path: Seq<char>,
    stderr_path: Seq<char>,
)
    requires
        request.ssh_target is None,
    ensures
        payload_spec(request, status, duration, stdout_path, stderr_path) == payload_head(request)
            + payload_tail(status, duration, stdout_path, stderr_path),
        payload_spec(
            JobSubmitRequest { ssh_target: Some(target), ..request },
            status,
            duration,
            stdout_path,
            stderr_path,
        ) == payload_head(request) + "• Remote Target    : "@ + target@ + "\n"@ + payload_tail(
            status,
            duration,
            stdout_path,
            stderr_path,
        ),
        starts_with(payload_tail(status, duration, stdout_path, stderr_path), "• Exit Status      : "@),
{
    let tail = payload_tail(status, duration, stdout_path, stderr_path);
    assert(payload_spec(request, status, duration, stdout_path, stderr_path) =~= payload_head(request)
        + tail);
    assert(payload_spec(
        JobSubmitRequest { ssh_target: Some(target), ..request },
        status,
        duration,
        stdout_path,
        stderr_path,
    ) =~= payload_head(request) + "• Remote Target    : "@ + target@ + "\n"@ + tail);
    assert(tail.take("• Exit Status      : "@.len() as int) =~= "• Exit Status      : "@);
}

/// No text made of `l1`, `c`, `l2`, `w` and a newline holds `p` starting
/// inside it, when `p` begins with `•`, a character and `E`, has no newline,
/// and neither `c` nor `w` holds it while `l1` and `l2` have no `E` two
/// places after any `•`.
proof fn lemma_no_occurrence_in_head(
    p: Seq<char>,
    l1: Seq<char>,
    c: Seq<char>,
    l2: Seq<char>,
    w: Seq<char>,
    t: Seq<char>,
)
    requires
        p.len() >= 3,
        p[0] == '•',
        p[2] == 'E',
        forall|k: int| 0 <= k < p.len() ==> p[k] != '\n',
        forall|k: int| 0 <= k < l1.len() && #[trigger] l1[k] == '•' ==> k + 2 < l1.len() && l1[k + 2] != 'E',
        l2.len() > 0,
        l2[0] == '\n',
        forall|k: int| 0 <= k < l2.len() && #[trigger] l2[k] == '•' ==> k + 2 < l2.len() && l2[k + 2] != 'E',
        !contains_text(c, p),
        !contains_text(w, p),
    ensures
        forall|i: int|
            0 <= i < (l1 + c + l2 + w + seq!['\n']).len() ==> !occurs_at(
                l1 + c + l2 + w + seq!['\n'] + t,
                p,
                i,
            ),
{
    let s = l1 + c + l2 + w + seq!['\n'] + t;
    let n = p.len() as int;
    let a = l1.len() as int;
    let b = a + c.len();
    let d = b + l2.len();
    let e = d + w.len();
    assert forall|i: int| 0 <= i < e + 1 implies !occurs_at(s, p, i) by {
        if occurs_at(s, p, i) {
            let sub = s.subrange(i, i + n);
            assert(sub == p);
            assert(s[i] == p[0]) by { assert(sub[0] == s[i]); }
            if i < a {
                assert(s[i] == l1[i]);
                assert(s[i + 2] == l1[i + 2]);
                assert(sub[2] == s[i + 2]);
            } else if i < b {
                if i + n <= b {
                    assert(c.subrange(i - a, i - a + n) =~= sub);
                    assert(occurs_at(c, p, i - a));
                } else {
                    assert(s[b] == '\n');
                    assert(sub[b - i] == s[b]);
                }
            } else if i < d {
                assert(s[i] == l2[i - b]);
                assert(s[i + 2] == l2[i - b + 2]);
                assert(sub[2] == s[i + 2]);
            } else if i < e {
                if i + n <= e {
                    assert(w.subrange(i - d, i - d + n) =~= sub);
                    assert(occurs_at(w, p, i - d));
                } else {
                    assert(s[e] == '\n');
                    assert(sub[e - i] == s[e]);
                }
            } else {
                assert(s[e] == '\n');
            }
        }
    }
}

/// The texts of the completion event that the law below reads character by
/// character.
proof fn lemma_payload_texts()
    ensures
        "• Exit Status"@.len() == 13,
        "• Exit Status"@[0] == '•',
        "• Exit Status"@[2] == 'E',
        forall|k: int| 0 <= k < 13 ==> "• Exit Status"@[k] != '\n',
        forall|k: int|
            0 <= k < "[SLUMBER EVENT: TASK TERMINATED]\n--------------------------------------------------\n• Command          : "@.len() && #[trigger] "[SLUMBER EVENT: TASK TERMINATED]\n--------------------------------------------------\n• Command          : "@[k] == '•' ==> k + 2 < "[SLUMBER EVENT: TASK TERMINATED]\n--------------------------------------------------\n• Command          : "@.len() && "[SLUMBER EVENT: TASK TERMINATED]\n--------------------------------------------------\n• Command          : "@[k + 2] != 'E',
        "\n• Working Directory: "@.len() > 0,
        "\n• Working Directory: "@[0] == '\n',
        forall|k: int|
            0 <= k < "\n• Working Directory: "@.len() && #[trigger] "\n• Working Directory: "@[k] == '•' ==> k + 2 < "\n• Working Directory: "@.len() && "\n• Working Directory: "@[k + 2] != 'E',
        "\n"@ == seq!['\n'],
        "• Exit Status      : "@.len() == 21,
        "• Exit Status      : "@.take(13) == "• Exit Status"@,
        "\n• Exit Status"@ == "\n"@ + "• Exit Status"@,
{
    reveal_strlit("• Exit Status");
    reveal_strlit("[SLUMBER EVENT: TASK TERMINATED]\n--------------------------------------------------\n• Command          : ");
    reveal_strlit("\n• Working Directory: ");
    reveal_strlit("\n");
    reveal_strlit("• Exit Status      : ");
    reveal_strlit("\n• Exit Status");
    assert("\n"@ =~= seq!['\n']);
    assert("• Exit Status      : "@.take(13) =~= "• Exit Status"@);
    assert("\n• Exit Status"@ =~= "\n"@ + "• Exit Status"@);
}

/// A remote job's completion event is the same local job's event with
/// `• Remote Target    : <target>` inserted before its first `• Exit Status`,
/// when neither the command nor the working directory holds that text.
pub proof fn lemma_remote_event_inserts_target_line(
    request: JobSubmitRequest,
    target: String,
    status: ExitStatusRecord,
    duration: nat,
    stdout_path: Seq<char>,
    stderr_path: Seq<char>,
)
    requires
        request.ssh_target is None,
        !contains_text(request.command@, "• Exit Status"@),
        !contains_text(request.cwd@, "• Exit Status"@),
    ensures
        payload_spec(
            JobSubmitRequest { ssh_target: Some(target), ..request },
            status,
            duration,
            stdout_path,
            stderr_path,
        ) == replace_first(
            payload_spec(request, status, duration, stdout_path, stderr_path),
            "• Exit Status"@,
            "• Remote Target    : "@ + target@ + "\n• Exit Status"@,
        ),
{
    lemma_payload_texts();
    lemma_remote_line_before_exit_status(request, target, status, duration, stdout_path, stderr_path);
    let p = "• Exit Status"@;
    let head = payload_head(request);
    let tail = payload_tail(status, duration, stdout_path, stderr_path);
    let local = payload_spec(request, status, duration, stdout_path, stderr_path);
    assert(head == "[SLUMBER EVENT: TASK TERMINATED]\n--------------------------------------------------\n• Command          : "@ + request.command@ + "\n• Working Directory: "@ + request.cwd@ + seq!['\n']);
    lemma_no_occurrence_in_head(p, "[SLUMBER EVENT: TASK TERMINATED]\n--------------------------------------------------\n• Command          : "@, request.command@, "\n• Working Directory: "@, request.cwd@, tail);
    let h = head.len() as int;
    assert(tail.take(13) =~= p) by {
        assert(tail.take(13) =~= "• Exit Status      : "@.take(13));
    }
    assert(local == head + tail);
    assert(local.subrange(h, h + 13) =~= tail.take(13));
    assert(occurs_at(local, p, h));
    let new = "• Remote Target    : "@ + target@ + "\n• Exit Status"@;
    lemma_replace_first_at(local, p, new, h);
    assert(local.take(h) =~= head);
    assert(local.skip(h + 13) =~= tail.skip(13));
    assert(tail =~= p + tail.skip(13));
    assert(replace_first(local, p, new) =~= head + "• Remote Target    : "@ + target@ + "\n"@ + tail);
}

/// The completion event for a job that ended with `status` after
/// `duration_secs` seconds.
pub fn build_payload(
    request: &JobSubmitRequest,
    status: &ExitStatusRecord,
    duration_secs: u64,
    stdout_path: &str,
    stderr_path: &str,
) -> (p: String)
    requires
        printable_status(*status),
    ensures
        p@ == payload_spec(*request, *status, duration_secs as nat, stdout_path@, stderr_path@),
{
    let mut p =
        "[SLUMBER EVENT: TASK TERMINATED]\n--------------------------------------------------\n• Command          : ".to_owned();
    p.append(request.command.as_str());
    p.append("\n• Working Directory: ");
    p.append(request.cwd.as_str());
    p.append("\n");
    let ghost before_remote = p@;
    match &request.ssh_target {
        Some(target) => {
            p.append("• Remote Target    : ");
            p.append(target.as_str());
            p.append("\n");
        },
        None => {},
    }
    p.append("• Exit Status      : ");
    let status_text = exit_status_text(status);
    p.append(status_text.as_str());
    p.append("\n• Duration         : ");
    let duration = format_duration(duration_secs);
    p.append(duration.as_str());
    p.append("\n• Logs:\n- STDOUT Log     : ");
    p.append(stdout_path);
    p.append("\n- STDERR Log     : ");
    p.append(stderr_path);
    p.append(
        "\n--------------------------------------------------\nINSTRUCTION: Inspect logs if needed and decide on next actions.",
    );
    proof {
        assert(p@ =~= payload_spec(
            *request,
            *status,
            duration_secs as nat,
            stdout_path@,
            stderr_path@,
        ));
    }
    p
}

/// A wake-up command: the program, its arguments, the directory it runs in
/// and its whole environment (later pairs override earlier ones).
#[derive(Debug, Clone, PartialEq, Eq)]
pub struct WakeCommand {
    pub program: String,
    pub args: Vec<String>,
    pub cwd: String,
    pub env: Vec<(String, String)>,
}

/// What wake-up does after the event has been written.
#[derive(Debug, Clone, PartialEq, Eq)]
pub enum WakeStep {
    /// The job was submitted without wake-up.
    Nothing,
    /// Run this command; a failing exit is a failed wake-up.
    Run(WakeCommand),
    /// Codex wake-up was asked for but no session is known.
    MissingSessionId,
}

/// The delivery of a completion event: the event, the file it is written to
/// (`payload.md` in the job directory) and the wake-up step.
#[derive(Debug, Clone, PartialEq, Eq)]
pub struct Delivery {
    pub payload: String,
    pub payload_path: String,
    pub wake: WakeStep,
}

/// The environment of the wake-up command: the submitter's environment,
/// then `SLUMBER_SESSION_ID` (empty without a session), `SLUMBER_PAYLOAD`
/// and `SLUMBER_PAYLOAD_PATH`.
pub open spec fn wake_env_spec(request: JobSubmitRequest, payload: Seq<char>, payload_path: Seq<char>) -> Seq<(Seq<char>, Seq<char>)> {
    let session = match request.session_id {
        Some(s) => s@,
        None => Seq::empty(),
    };
    request.env_vars@.map_values(|p: (String, String)| (p.0@, p.1@)) + seq![
        ("SLUMBER_SESSION_ID"@, session),
        ("SLUMBER_PAYLOAD"@, payload),
        ("SLUMBER_PAYLOAD_PATH"@, payload_path),
    ]
}

/// The views of an environment list.
pub open spec fn env_views(env: Seq<(String, String)>) -> Seq<(Seq<char>, Seq<char>)> {
    env.map_values(|p: (String, String)| (p.0@, p.1@))
}

/// Whether `c` is the wake-up command for the event `payload` written to
/// `payload_path`: `codex queue --thread <session> --message <payload>` for
/// Codex, `sh -c <template>` for a custom hook; in the submitter's working
/// directory with the environment `wake_env_spec`.
pub open spec fn wake_command_for(
    c: WakeCommand,
    request: JobSubmitRequest,
    payload: Seq<char>,
    payload_path: Seq<char>,
) -> bool {
    &&& c.cwd@ == request.cwd@
    &&& env_views(c.env@) == wake_env_spec(request, payload, payload_path)
    &&& match request.agent_kind {
        AgentKind::CodeX => request.session_id matches Some(session) && c.program@ == "codex"@
            && views(c.args@) == seq![
            "queue"@,
            "--thread"@,
            session@,
            "--message"@,
            payload,
        ],
        AgentKind::GenericCommand { resume_template } => c.program@ == "sh"@ && views(c.args@)
            == seq!["-c"@, resume_template@],
        AgentKind::NoResume => false,
    }
}

/// The delivery for a finished job, or `None` when the job has no exit
/// status yet. Refused when the job identifier is not valid.
pub fn resume_delivery(
    state: &str,
    request: &JobSubmitRequest,
    meta: &JobMeta,
    now: u64,
    stdout_path: &str,
    stderr_path: &str,
) -> (r: Result<Option<Delivery>, PathError>)
    requires
        meta.exit_status matches Some(status) ==> printable_status(status),
    ensures
        meta.exit_status is None ==> r == Ok::<Option<Delivery>, PathError>(None),
        meta.exit_status matches Some(status) ==> match job_dir_spec(state@, meta.job_id@) {
            Err(e) => r == Err::<Option<Delivery>, PathError>(e),
            Ok(dir) => r matches Ok(Some(d)) && d.payload@ == payload_spec(
                *request,
                status,
                run_duration(*meta, now),
                stdout_path@,
                stderr_path@,
            ) && d.payload_path@ == join_path(dir, "payload.md"@) && match request.agent_kind {
                AgentKind::NoResume => d.wake == WakeStep::Nothing,
                AgentKind::CodeX => match request.session_id {
                    Some(_) => d.wake matches WakeStep::Run(c) && wake_command_for(
                        c,
                        *request,
                        d.payload@,
                        d.payload_path@,
                    ),
                    None => d.wake == WakeStep::MissingSessionId,
                },
                AgentKind::GenericCommand { .. } => d.wake matches WakeStep::Run(c)
                    && wake_command_for(c, *request, d.payload@, d.payload_path@),
            },
        },
{
    let status = match &meta.exit_status {
        Some(status) => status,
        None => return Ok(None),
    };
    let duration = job_duration(meta, now);
    let payload = build_payload(request, status, duration, stdout_path, stderr_path);
    let dir = match job_dir(state, meta.job_id.as_str()) {
        Ok(dir) => dir,
        Err(e) => return Err(e),
    };
    let payload_path = path_join(dir.as_str(), "payload.md");
    let (program, args) = match &request.agent_kind {
        AgentKind::NoResume => {
            return Ok(Some(Delivery { payload, payload_path, wake: WakeStep::Nothing }));
        },
        AgentKind::CodeX => {
            let session = match &request.session_id {
                Some(s) => s,
                None => {
                    return Ok(
                        Some(Delivery { payload, payload_path, wake: WakeStep::MissingSessionId }),
                    );
                },
            };
            let args = vec![
                "queue".to_owned(),
                "--thread".to_owned(),
                session.clone(),
                "--message".to_owned(),
                payload.clone(),
            ];
            assert(views(args@) =~= seq!["queue"@, "--thread"@, session@, "--message"@, payload@]);
            ("codex".to_owned(), args)
        },
        AgentKind::GenericCommand { resume_template } => {
            let args = vec!["-c".to_owned(), resume_template.clone()];
            assert(views(args@) =~= seq!["-c"@, resume_template@]);
            ("sh".to_owned(), args)
        },
    };
    let mut env = copy_env(&request.env_vars);
    let session_value = match &request.session_id {
        Some(s) => s.clone(),
        None => String::new(),
    };
    env.push(("SLUMBER_SESSION_ID".to_owned(), session_value));
    env.push(("SLUMBER_PAYLOAD".to_owned(), payload.clone()));
    env.push(("SLUMBER_PAYLOAD_PATH".to_owned(), payload_path.clone()));
    proof {
        assert(env_views(env@) =~= wake_env_spec(*request, payload@, payload_path@));
    }
    let command = WakeCommand { program, args, cwd: request.cwd.clone(), env };
    Ok(Some(Delivery { payload, payload_path, wake: WakeStep::Run(command) }))
}

} // verus!
