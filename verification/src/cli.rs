//! The decisions of the command-line client: what `run` submits and when it
//! refuses, the log-pane setting, `logs`, `update`, the daemon identity
//! check, the start-up polling delays, and the `run` report.
use crate::init::InitAgent;
use crate::records::{
    dedup_env, env_dedup, env_last_value, env_names_unique, env_value, AgentKind, JobSubmitRequest,
    JobSubmitResponse,
};
use crate::text::{
    lines_spec, split_once, split_once_spec, text_before, prefix_before, text_eq, text_lines, trim,
    trim_str, views, push_nat, nat_text, text_contains, contains_text,
};
use vstd::prelude::*;

verus! {

/// Why `run` refuses before submitting anything.
#[derive(Debug, Clone, PartialEq, Eq)]
pub enum RunError {
    /// The command is empty or only white space.
    EmptyCommand,
    /// No agent session is known and neither a template nor `--no-resume`
    /// was given.
    NoSession,
    /// The running daemon records another protocol.
    IncompatibleDaemon,
}

/// The session a submission names: the explicit one, else
/// `CODEX_THREAD_ID`, else `CODEX_SESSION_ID`; none when the chosen value
/// is blank.
pub open spec fn chosen_session(
    explicit: Option<String>,
    thread: Option<String>,
    session: Option<String>,
) -> Option<String> {
    let chosen = match explicit {
        Some(e) => Some(e),
        None => match thread {
            Some(t) => Some(t),
            None => session,
        },
    };
    match chosen {
        Some(c) => if trim(c@).len() == 0 {
            None
        } else {
            Some(c)
        },
        None => None,
    }
}

/// The session a submission names.
pub fn select_session_id(explicit: Option<String>, thread: Option<String>, session: Option<String>) -> (r: Option<String>)
    ensures
        r == chosen_session(explicit, thread, session),
{
    let chosen = match explicit {
        Some(e) => Some(e),
        None => match thread {
            Some(t) => Some(t),
            None => session,
        },
    };
    match chosen {
        Some(c) => {
            let t = trim_str(c.as_str());
            if t.as_str().is_empty() {
                None
            } else {
                Some(c)
            }
        },
        None => None,
    }
}

/// Whether `run` may go on: the command must not be blank, and some way of
/// waking up (a session, a template, or `--no-resume`) must be chosen.
pub open spec fn run_check_spec(
    command: Seq<char>,
    session: Option<String>,
    has_template: bool,
    no_resume: bool,
) -> Result<(), RunError> {
    if trim(command).len() == 0 {
        Err(RunError::EmptyCommand)
    } else if !no_resume && !has_template && session is None {
        Err(RunError::NoSession)
    } else {
        Ok(())
    }
}

/// Whether `run` may go on with this command and wake-up choice.
pub fn check_run(command: &str, session: &Option<String>, has_template: bool, no_resume: bool) -> (r: Result<(), RunError>)
    ensures
        r == run_check_spec(command@, *session, has_template, no_resume),
{
    let t = trim_str(command);
    if t.as_str().is_empty() {
        Err(RunError::EmptyCommand)
    } else if !no_resume && !has_template && session.is_none() {
        Err(RunError::NoSession)
    } else {
        Ok(())
    }
}

/// The wake-up kind of a submission: none with `--no-resume`, the template
/// when one is given, Codex otherwise.
pub open spec fn agent_kind_spec(no_resume: bool, template: Option<String>) -> AgentKind {
    if no_resume {
        AgentKind::NoResume
    } else {
        match template {
            Some(t) => AgentKind::GenericCommand { resume_template: t },
            None => AgentKind::CodeX,
        }
    }
}

/// The submission that `run` sends: the command, the working directory, the
/// environment with each name once (its last value winning), the session, the wake-up kind, the SSH target, and a request
/// for a log pane (`Some("")`) when the pane is enabled.
pub fn build_submit_request(
    command: String,
    cwd: String,
    env_vars: Vec<(String, String)>,
    session_id: Option<String>,
    no_resume: bool,
    resume_template: Option<String>,
    ssh_target: Option<String>,
    tail: bool,
) -> (r: JobSubmitRequest)
    ensures
        r.command == command,
        r.cwd == cwd,
        r.env_vars@ == env_dedup(env_vars@),
        env_names_unique(r.env_vars@),
        forall|name: Seq<char>| #[trigger] env_value(r.env_vars@, name) == env_last_value(env_vars@, name),
        r.session_id == session_id,
        r.agent_kind == agent_kind_spec(no_resume, resume_template),
        r.ssh_target == ssh_target,
        tail ==> (r.tmux_pane_id matches Some(p) && p@.len() == 0),
        !tail ==> r.tmux_pane_id is None,
{
    let agent_kind = if no_resume {
        AgentKind::NoResume
    } else {
        match resume_template {
            Some(t) => AgentKind::GenericCommand { resume_template: t },
            None => AgentKind::CodeX,
        }
    };
    let env_vars = dedup_env(env_vars);
    JobSubmitRequest {
        command,
        cwd,
        env_vars,
        session_id,
        agent_kind,
        ssh_target,
        tmux_pane_id: if tail {
            Some(String::new())
        } else {
            None
        },
    }
}

/// The lines `run` prints to standard output for an accepted submission: the
/// job and its process, both log locations, the pane when one opened, and the
/// daemon's message. A pane warning goes to standard error
/// (`submission_warning_spec`), before the message.
pub open spec fn submission_report_spec(r: JobSubmitResponse) -> Seq<Seq<char>> {
    let head = seq![
        "Submitted "@ + r.job_id@ + " (process "@ + nat_text(r.pgid as nat) + ")"@,
        "stdout: "@ + r.stdout_path@,
        "stderr: "@ + r.stderr_path@,
    ];
    let pane = match r.tmux_pane_id {
        Some(p) => seq!["tail pane: "@ + p@],
        None => Seq::empty(),
    };
    head + pane + seq![r.message@]
}

/// What `run` prints to standard error when the daemon could not open the
/// requested log pane: the reason, and that the task was accepted all the same.
pub open spec fn submission_warning_spec(r: JobSubmitResponse) -> Option<Seq<char>> {
    match r.tail_warning {
        Some(w) => Some(
            "Warning: "@ + w@ + ". Task submission succeeded; use `slumber logs "@ + r.job_id@
                + "` to inspect output."@,
        ),
        None => None,
    }
}

/// The warning `run` prints for an accepted submission whose log pane did not
/// open, if any.
pub fn submission_warning(r: &JobSubmitResponse) -> (line: Option<String>)
    ensures
        match submission_warning_spec(*r) {
            Some(w) => line matches Some(l) && l@ == w,
            None => line is None,
        },
{
    match &r.tail_warning {
        Some(w) => {
            let mut l = "Warning: ".to_owned();
            l.append(w.as_str());
            l.append(". Task submission succeeded; use `slumber logs ");
            l.append(r.job_id.as_str());
            l.append("` to inspect output.");
            Some(l)
        },
        None => None,
    }
}

/// The lines `run` prints for an accepted submission.
pub fn submission_report(r: &JobSubmitResponse) -> (lines: Vec<String>)
    ensures
        views(lines@) == submission_report_spec(*r),
{
    let mut first = "Submitted ".to_owned();
    first.append(r.job_id.as_str());
    first.append(" (process ");
    push_nat(&mut first, r.pgid as u64);
    first.append(")");
    let mut out = "stdout: ".to_owned();
    out.append(r.stdout_path.as_str());
    let mut err = "stderr: ".to_owned();
    err.append(r.stderr_path.as_str());
    let mut lines = vec![first, out, err];
    match &r.tmux_pane_id {
        Some(p) => {
            let mut l = "tail pane: ".to_owned();
            l.append(p.as_str());
            lines.push(l);
        },
        None => {},
    }
    lines.push(r.message.clone());
    assert(views(lines@) =~= submission_report_spec(*r));
    lines
}

/// Why the configuration file is refused.
#[derive(Debug, Clone, PartialEq, Eq)]
pub enum ConfigError {
    /// `auto_tmux_tail` is set to something other than `true` or `false`;
    /// the value is kept.
    InvalidTailSetting(String),
}

/// The `auto_tmux_tail` setting of one configuration line, if it sets it:
/// the line's text before any `#`, trimmed, split at its first `=`; the key,
/// trimmed, must be `auto_tmux_tail`; the value, trimmed, is `true`, `false`
/// or refused.
pub open spec fn line_setting(line: Seq<char>) -> Option<Result<bool, Seq<char>>> {
    let content = trim(prefix_before(line, '#'));
    match split_once_spec(content, '=') {
        Some((key, value)) => if trim(key) == "auto_tmux_tail"@ {
            if trim(value) == "true"@ {
                Some(Ok(true))
            } else if trim(value) == "false"@ {
                Some(Ok(false))
            } else {
                Some(Err(trim(value)))
            }
        } else {
            None
        },
        None => None,
    }
}

/// The setting of the first line that sets `auto_tmux_tail`, if any.
pub open spec fn config_setting(lines: Seq<Seq<char>>) -> Option<Result<bool, Seq<char>>>
    decreases lines.len(),
{
    if lines.len() == 0 {
        None
    } else if line_setting(lines[0]) is Some {
        line_setting(lines[0])
    } else {
        config_setting(lines.drop_first())
    }
}

/// Whether a log pane opens for a submission: never with `--no-tail` or
/// outside tmux; otherwise as the first `auto_tmux_tail` line of the
/// configuration says, and yes when there is no file or no such line.
pub open spec fn tail_enabled_spec(no_tail: bool, in_tmux: bool, config: Option<Seq<char>>) -> Result<
    bool,
    Seq<char>,
> {
    if no_tail || !in_tmux {
        Ok(false)
    } else {
        match config {
            None => Ok(true),
            Some(c) => match config_setting(lines_spec(c)) {
                None => Ok(true),
                Some(r) => r,
            },
        }
    }
}

/// The `auto_tmux_tail` setting of one line, if it sets it.
pub fn parse_line_setting(line: &str) -> (r: Option<Result<bool, ConfigError>>)
    ensures
        match line_setting(line@) {
            None => r is None,
            Some(Ok(b)) => r == Some(Ok::<bool, ConfigError>(b)),
            Some(Err(v)) => r matches Some(Err(ConfigError::InvalidTailSetting(w))) && w@ == v,
        },
{
    let before = text_before(line, '#');
    let content = trim_str(before.as_str());
    match split_once(content.as_str(), '=') {
        Some((key, value)) => {
            let k = trim_str(key.as_str());
            if text_eq(k.as_str(), "auto_tmux_tail") {
                let v = trim_str(value.as_str());
                if text_eq(v.as_str(), "true") {
                    Some(Ok(true))
                } else if text_eq(v.as_str(), "false") {
                    Some(Ok(false))
                } else {
                    Some(Err(ConfigError::InvalidTailSetting(v)))
                }
            } else {
                None
            }
        },
        None => None,
    }
}

/// Whether a log pane opens for a submission, from `--no-tail`, whether
/// `TMUX` is set, and the configuration file's text (`None` when there is no
/// file).
pub fn tmux_tail_enabled(no_tail: bool, in_tmux: bool, config: Option<&str>) -> (r: Result<bool, ConfigError>)
    ensures
        match tail_enabled_spec(no_tail, in_tmux, match config {
            Some(c) => Some(c@),
            None => None,
        }) {
            Ok(b) => r == Ok::<bool, ConfigError>(b),
            Err(v) => r matches Err(ConfigError::InvalidTailSetting(w)) && w@ == v,
        },
{
    if no_tail || !in_tmux {
        return Ok(false);
    }
    let text = match config {
        None => return Ok(true),
        Some(c) => c,
    };
    let lines = text_lines(text);
    let mut i: usize = 0;
    assert(views(lines@).skip(0) =~= views(lines@));
    while i < lines.len()
        invariant
            i <= lines@.len(),
            config == Some(text),
            !no_tail && in_tmux,
            views(lines@) == lines_spec(text@),
            config_setting(views(lines@).skip(i as int)) == config_setting(lines_spec(text@)),
        decreases lines@.len() - i,
    {
        let ghost rest = views(lines@).skip(i as int);
        assert(rest[0] == lines@[i as int]@);
        assert(rest.drop_first() =~= views(lines@).skip(i + 1));
        let res = parse_line_setting(lines[i].as_str());
        proof {
            if line_setting(rest[0]) is Some {
                assert(config_setting(rest) == line_setting(rest[0]));
            } else {
                assert(config_setting(rest) == config_setting(rest.drop_first()));
            }
        }
        match res {
            Some(r) => return r,
            None => {},
        }
        i = i + 1;
    }
    assert(views(lines@).skip(lines@.len() as int) =~= Seq::<Seq<char>>::empty());
    Ok(true)
}

/// Why `logs` refuses a job identifier.
#[derive(Debug, Clone, PartialEq, Eq)]
pub enum LogsError {
    /// The identifier holds `/` or is `.` or `..`.
    InvalidJobId,
}

/// Whether `logs` accepts a job identifier before looking it up: it holds
/// no `/` and is neither `.` nor `..`.
pub open spec fn log_id_allowed(job_id: Seq<char>) -> bool {
    !contains_text(job_id, "/"@) && job_id != "."@ && job_id != ".."@
}

/// Accepts the identifiers that `log_id_allowed` describes.
pub fn check_log_job_id(job_id: &str) -> (r: Result<(), LogsError>)
    ensures
        r is Ok <==> log_id_allowed(job_id@),
        r is Err ==> r == Err::<(), LogsError>(LogsError::InvalidJobId),
{
    if text_contains(job_id, "/") || text_eq(job_id, ".") || text_eq(job_id, "..") {
        Err(LogsError::InvalidJobId)
    } else {
        Ok(())
    }
}

/// The log file that `logs` prints: `stderr.log` with `--err`, else
/// `stdout.log`.
pub fn log_file_name(err: bool) -> (name: &'static str)
    ensures
        name@ == if err {
            "stderr.log"@
        } else {
            "stdout.log"@
        },
{
    if err {
        "stderr.log"
    } else {
        "stdout.log"
    }
}

/// Whether self-update may replace the running binary: its file name must
/// be `slumber`.
pub fn update_allowed(file_name: Option<&str>) -> (b: bool)
    ensures
        b == (file_name matches Some(n) && n@ == "slumber"@),
{
    match file_name {
        Some(n) => text_eq(n, "slumber"),
        None => false,
    }
}

/// The arguments of the embedded installer: `-s --`, then `--version <v>`,
/// `--from <path>` and `--github` as chosen.
pub open spec fn installer_args_spec(version: Option<Seq<char>>, from: Option<Seq<char>>, github: bool) -> Seq<Seq<char>> {
    seq!["-s"@, "--"@] + match version {
        Some(v) => seq!["--version"@, v],
        None => Seq::empty(),
    } + match from {
        Some(f) => seq!["--from"@, f],
        None => Seq::empty(),
    } + if github {
        seq!["--github"@]
    } else {
        Seq::empty()
    }
}

/// The arguments of the embedded installer.
pub fn installer_args(version: Option<&str>, from: Option<&str>, github: bool) -> (r: Vec<String>)
    ensures
        views(r@) == installer_args_spec(
            match version {
                Some(v) => Some(v@),
                None => None,
            },
            match from {
                Some(f) => Some(f@),
                None => None,
            },
            github,
        ),
{
    let mut r = vec!["-s".to_owned(), "--".to_owned()];
    match version {
        Some(v) => {
            r.push("--version".to_owned());
            r.push(v.to_owned());
        },
        None => {},
    }
    match from {
        Some(f) => {
            r.push("--from".to_owned());
            r.push(f.to_owned());
        },
        None => {},
    }
    if github {
        r.push("--github".to_owned());
    }
    proof {
        assert(views(r@) =~= installer_args_spec(
            match version {
                Some(v) => Some(v@),
                None => None,
            },
            match from {
                Some(f) => Some(f@),
                None => None,
            },
            github,
        ));
    }
    r
}

/// Why the client refuses to talk to a daemon.
#[derive(Debug, Clone, PartialEq, Eq)]
pub enum IdentityError {
    /// The daemon path is not a Unix socket.
    NotSocket,
    /// The socket or the peer belongs to another user.
    Untrusted,
}

/// Whether the client trusts the daemon behind a socket: the path must be a
/// socket, and both the socket's owner and the connected peer must be the
/// client's effective user.
pub fn check_daemon_identity(is_socket: bool, socket_uid: u32, peer_uid: u32, expected_uid: u32) -> (r: Result<(), IdentityError>)
    ensures
        !is_socket ==> r == Err::<(), IdentityError>(IdentityError::NotSocket),
        is_socket && (socket_uid != expected_uid || peer_uid != expected_uid) ==> r == Err::<
            (),
            IdentityError,
        >(IdentityError::Untrusted),
        is_socket && socket_uid == expected_uid && peer_uid == expected_uid ==> r is Ok,
{
    if !is_socket {
        Err(IdentityError::NotSocket)
    } else if socket_uid != expected_uid || peer_uid != expected_uid {
        Err(IdentityError::Untrusted)
    } else {
        Ok(())
    }
}

/// The first delay between pings while a new daemon starts, in
/// milliseconds.
pub const FIRST_POLL_DELAY_MS: u64 = 25;

/// The longest delay between pings, in milliseconds.
pub const MAX_POLL_DELAY_MS: u64 = 250;

/// The delay after `delay_ms`: doubled, at most 250 ms.
pub open spec fn next_delay_spec(delay_ms: nat) -> nat {
    if 2 * delay_ms <= MAX_POLL_DELAY_MS {
        2 * delay_ms
    } else {
        MAX_POLL_DELAY_MS as nat
    }
}

/// The delay before the next ping.
pub fn next_poll_delay(delay_ms: u64) -> (r: u64)
    requires
        delay_ms <= MAX_POLL_DELAY_MS,
    ensures
        r == next_delay_spec(delay_ms as nat),
{
    let doubled = delay_ms * 2;
    if doubled <= MAX_POLL_DELAY_MS {
        doubled
    } else {
        MAX_POLL_DELAY_MS
    }
}

/// Polling backs off without ever waiting longer than 250 ms: from any delay
/// up to the limit, the next delay is no shorter and within the limit.
pub proof fn lemma_poll_delays_bounded(delay_ms: nat)
    requires
        delay_ms <= MAX_POLL_DELAY_MS,
    ensures
        delay_ms <= next_delay_spec(delay_ms) <= MAX_POLL_DELAY_MS,
{
}

/// A parsed command line.
#[derive(Debug, Clone, PartialEq, Eq)]
pub struct Cli {
    pub command: Commands,
}

/// The subcommands of `slumber`.
#[derive(Debug, Clone, PartialEq, Eq)]
pub enum Commands {
    /// Submit one noninteractive shell command locally or over SSH.
    Run {
        command: String,
        session_id: Option<String>,
        resume_template: Option<String>,
        ssh: Option<String>,
        no_tail: bool,
        no_resume: bool,
    },
    /// Show running and recently completed jobs.
    Status { limit: usize },
    /// Print a job's stdout (or stderr) log.
    Logs { job_id: String, err: bool },
    /// Add the handoff protocol to an agent instructions file.
    Init { file: Option<String>, agent: Option<InitAgent> },
    /// Check local prerequisites.
    Doctor,
    /// Install another release beside the current binary.
    Update { version: Option<String>, from: Option<String>, github: bool },
    /// Retry a completed job's failed wake-up.
    Retry { job_id: String },
    /// Run the daemon, or manage it.
    Daemon { action: Option<DaemonAction> },
}

/// What `slumber daemon` does with the background daemon.
#[derive(Debug, Clone, Copy, PartialEq, Eq)]
pub enum DaemonAction {
    /// Start in the background if not already running.
    Start,
    /// Query the daemon without starting it.
    Status,
    /// Stop an idle daemon.
    Stop,
}

} // verus!
