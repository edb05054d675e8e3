//! The records that pass between the command line, the daemon and the job
//! directory: submissions, their answers, job metadata and exit statuses.
//!
//! Paths are held as text. The environment of a submission is a list of
//! name/value pairs; a submission built by `run` holds each name once
//! (`env_names_unique`), and a lookup takes the pair with the wanted name.
use crate::text::text_eq;
use vstd::prelude::*;

verus! {

/// The version of the client/daemon protocol; a client refuses a daemon
/// whose recorded protocol differs.
pub const DAEMON_PROTOCOL_VERSION: &'static str = "5";

/// How the agent is woken once a job has ended.
#[derive(Debug, Clone, PartialEq, Eq)]
pub enum AgentKind {
    /// Queue a message to a Codex thread.
    CodeX,
    /// Do not wake anything.
    NoResume,
    /// Run a trusted shell command.
    GenericCommand { resume_template: String },
}

/// A job as submitted to the daemon.
#[derive(Debug, Clone, PartialEq, Eq)]
pub struct JobSubmitRequest {
    pub command: String,
    pub cwd: String,
    pub env_vars: Vec<(String, String)>,
    pub session_id: Option<String>,
    pub agent_kind: AgentKind,
    pub ssh_target: Option<String>,
    /// `Some("")` asks for a log pane; `Some(id)` names the open pane.
    pub tmux_pane_id: Option<String>,
}

/// The daemon's answer to an accepted submission.
#[derive(Debug, Clone, PartialEq, Eq)]
pub struct JobSubmitResponse {
    pub job_id: String,
    pub pgid: u32,
    pub stdout_path: String,
    pub stderr_path: String,
    pub message: String,
    pub tmux_pane_id: Option<String>,
    /// Why the requested log pane did not open, when it did not; the task
    /// runs all the same.
    pub tail_warning: Option<String>,
}

/// What is recorded of a job in its `meta.json`.
#[derive(Debug, Clone, PartialEq, Eq)]
pub struct JobMeta {
    pub job_id: String,
    pub command: String,
    pub cwd: String,
    pub created_at: u64,
    pub started_at: Option<u64>,
    pub finished_at: Option<u64>,
    pub pgid: Option<u32>,
    pub exit_status: Option<ExitStatusRecord>,
    pub ssh_target: Option<String>,
    pub resumed_at: Option<u64>,
    pub tmux_pane_id: Option<String>,
    pub resume_error: Option<String>,
}

/// How a job's process ended.
#[derive(Debug, Clone, PartialEq, Eq)]
pub enum ExitStatusRecord {
    Exited(i32),
    Signaled(i32, String),
    FailedToStart(String),
}

/// A request sent by a client to the daemon.
#[derive(Debug, Clone, PartialEq, Eq)]
pub enum DaemonRequest {
    Submit(JobSubmitRequest),
    Ping,
    Stop,
    Retry { job_id: String },
}

/// A copy of an optional string.
pub fn copy_opt(o: &Option<String>) -> (r: Option<String>)
    ensures
        r == *o,
{
    match o {
        Some(s) => Some(s.clone()),
        None => None,
    }
}

/// A copy of an exit status.
pub fn copy_status(status: &ExitStatusRecord) -> (r: ExitStatusRecord)
    ensures
        r == *status,
{
    match status {
        ExitStatusRecord::Exited(code) => ExitStatusRecord::Exited(*code),
        ExitStatusRecord::Signaled(signal, name) => ExitStatusRecord::Signaled(*signal, name.clone()),
        ExitStatusRecord::FailedToStart(message) => ExitStatusRecord::FailedToStart(message.clone()),
    }
}

/// A copy of an agent kind.
pub fn copy_agent_kind(kind: &AgentKind) -> (r: AgentKind)
    ensures
        r == *kind,
{
    match kind {
        AgentKind::CodeX => AgentKind::CodeX,
        AgentKind::NoResume => AgentKind::NoResume,
        AgentKind::GenericCommand { resume_template } => AgentKind::GenericCommand {
            resume_template: resume_template.clone(),
        },
    }
}

/// A copy of an environment list.
pub fn copy_env(env: &Vec<(String, String)>) -> (r: Vec<(String, String)>)
    ensures
        r@ == env@,
{
    let mut r: Vec<(String, String)> = Vec::new();
    let mut i: usize = 0;
    while i < env.len()
        invariant
            i <= env@.len(),
            r@ == env@.take(i as int),
        decreases env@.len() - i,
    {
        let pair = (env[i].0.clone(), env[i].1.clone());
        r.push(pair);
        i = i + 1;
        assert(r@ =~= env@.take(i as int));
    }
    assert(env@.take(env@.len() as int) =~= env@);
    r
}

/// A copy of a job record.
pub fn copy_meta(meta: &JobMeta) -> (r: JobMeta)
    ensures
        r == *meta,
{
    JobMeta {
        job_id: meta.job_id.clone(),
        command: meta.command.clone(),
        cwd: meta.cwd.clone(),
        created_at: meta.created_at,
        started_at: meta.started_at,
        finished_at: meta.finished_at,
        pgid: meta.pgid,
        exit_status: match &meta.exit_status {
            Some(status) => Some(copy_status(status)),
            None => None,
        },
        ssh_target: copy_opt(&meta.ssh_target),
        resumed_at: meta.resumed_at,
        tmux_pane_id: copy_opt(&meta.tmux_pane_id),
        resume_error: copy_opt(&meta.resume_error),
    }
}

/// The value that the environment list gives to `name`: that of the first
/// pair with this name.
pub open spec fn env_value(env: Seq<(String, String)>, name: Seq<char>) -> Option<Seq<char>>
    decreases env.len(),
{
    if env.len() == 0 {
        None
    } else if env[0].0@ == name {
        Some(env[0].1@)
    } else {
        env_value(env.drop_first(), name)
    }
}

/// Whether no name occurs twice in the environment list.
pub open spec fn env_names_unique(env: Seq<(String, String)>) -> bool {
    forall|i: int, j: int| 0 <= i < j < env.len() ==> env[i].0@ != env[j].0@
}

/// Whether `name` is set anywhere in the list after position `from`.
pub open spec fn env_set_after(env: Seq<(String, String)>, from: int, name: Seq<char>) -> bool {
    exists|j: int| #![trigger env[j]] from < j < env.len() && env[j].0@ == name
}

/// The environment with each name once: a pair is kept when its name is not
/// set again later in the list, so the last value of each name wins, as when
/// the pairs are inserted into a map one after another.
pub open spec fn env_dedup(env: Seq<(String, String)>) -> Seq<(String, String)>
    decreases env.len(),
{
    if env.len() == 0 {
        Seq::empty()
    } else if env_set_after(env, 0, env[0].0@) {
        env_dedup(env.drop_first())
    } else {
        seq![env[0]] + env_dedup(env.drop_first())
    }
}

/// The last value given to `name` in the list, if any.
pub open spec fn env_last_value(env: Seq<(String, String)>, name: Seq<char>) -> Option<Seq<char>>
    decreases env.len(),
{
    if env.len() == 0 {
        None
    } else {
        match env_last_value(env.drop_first(), name) {
            Some(v) => Some(v),
            None => if env[0].0@ == name {
                Some(env[0].1@)
            } else {
                None
            },
        }
    }
}

proof fn lemma_dedup_from_list(env: Seq<(String, String)>)
    ensures
        forall|k: int|
            0 <= k < env_dedup(env).len() ==> exists|j: int|
                0 <= j < env.len() && #[trigger] env_dedup(env)[k] == env[j],
    decreases env.len(),
{
    if env.len() > 0 {
        let rest = env.drop_first();
        lemma_dedup_from_list(rest);
        let d = env_dedup(env);
        assert forall|k: int| 0 <= k < d.len() implies exists|j: int|
            0 <= j < env.len() && #[trigger] d[k] == env[j] by {
            if env_set_after(env, 0, env[0].0@) {
                let j = choose|j: int| #![trigger rest[j]] 0 <= j < rest.len() && env_dedup(rest)[k] == rest[j];
                assert(d[k] == env[j + 1]);
            } else if k == 0 {
                assert(d[0] == env[0]);
            } else {
                let j = choose|j: int| #![trigger rest[j]] 0 <= j < rest.len() && env_dedup(rest)[k - 1] == rest[j];
                assert(d[k] == env[j + 1]);
            }
        }
    }
}

proof fn lemma_last_value_when_set(env: Seq<(String, String)>, j: int)
    requires
        0 <= j < env.len(),
    ensures
        env_last_value(env, env[j].0@) is Some,
    decreases env.len(),
{
    if j > 0 {
        lemma_last_value_when_set(env.drop_first(), j - 1);
    }
}

/// The deduplicated environment holds each name once, and every name reads
/// as its last value in the original list.
pub proof fn lemma_env_dedup(env: Seq<(String, String)>)
    ensures
        env_names_unique(env_dedup(env)),
        forall|name: Seq<char>| #[trigger] env_value(env_dedup(env), name) == env_last_value(env, name),
    decreases env.len(),
{
    if env.len() > 0 {
        let rest = env.drop_first();
        lemma_env_dedup(rest);
        lemma_dedup_from_list(rest);
        let d = env_dedup(env);
        if env_set_after(env, 0, env[0].0@) {
            let j = choose|j: int| #![trigger env[j]] 0 < j < env.len() && env[j].0@ == env[0].0@;
            assert(rest[j - 1] == env[j]);
            lemma_last_value_when_set(rest, j - 1);
        } else {
            let dr = env_dedup(rest);
            assert forall|k: int| 0 <= k < dr.len() implies #[trigger] dr[k].0@ != env[0].0@ by {
                let j = choose|j: int| #![trigger rest[j]] 0 <= j < rest.len() && dr[k] == rest[j];
                assert(rest[j] == env[j + 1]);
            }
            assert forall|i: int, j: int| 0 <= i < j < d.len() implies d[i].0@ != d[j].0@ by {
                if i == 0 {
                    assert(d[j] == dr[j - 1]);
                } else {
                    assert(d[i] == dr[i - 1]);
                    assert(d[j] == dr[j - 1]);
                }
            }
            assert forall|name: Seq<char>| #[trigger] env_value(d, name) == env_last_value(env, name) by {
                assert(d.drop_first() =~= dr);
                if env[0].0@ == name {
                    if env_last_value(rest, name) is Some {
                        assert(env_value(dr, name) is Some);
                        lemma_value_found(dr, name);
                    }
                }
            }
        }
    }
}

proof fn lemma_value_found(env: Seq<(String, String)>, name: Seq<char>)
    requires
        env_value(env, name) is Some,
    ensures
        exists|k: int| 0 <= k < env.len() && #[trigger] env[k].0@ == name,
    decreases env.len(),
{
    if env[0].0@ != name {
        lemma_value_found(env.drop_first(), name);
        let k = choose|k: int| 0 <= k < env.len() - 1 && #[trigger] env.drop_first()[k].0@ == name;
        assert(env[k + 1].0@ == name);
    } else {
        assert(env[0].0@ == name);
    }
}

/// The environment with each name once, the last value of each name winning.
pub fn dedup_env(env: Vec<(String, String)>) -> (r: Vec<(String, String)>)
    ensures
        r@ == env_dedup(env@),
        env_names_unique(r@),
        forall|name: Seq<char>| #[trigger] env_value(r@, name) == env_last_value(env@, name),
{
    let mut out: Vec<(String, String)> = Vec::new();
    let mut i: usize = 0;
    assert(env@.skip(0) =~= env@);
    while i < env.len()
        invariant
            i <= env@.len(),
            out@ + env_dedup(env@.skip(i as int)) == env_dedup(env@),
        decreases env@.len() - i,
    {
        let ghost rest = env@.skip(i as int);
        assert(rest.drop_first() =~= env@.skip(i + 1));
        let mut later = false;
        let mut j: usize = i + 1;
        while j < env.len()
            invariant
                i < j <= env@.len(),
                rest == env@.skip(i as int),
                later <==> exists|k: int| #![trigger env@[k]] i < k < j && env@[k].0@ == env@[i as int].0@,
            decreases env@.len() - j,
        {
            if text_eq(env[j].0.as_str(), env[i].0.as_str()) {
                later = true;
            }
            j = j + 1;
        }
        proof {
            if later {
                let k = choose|k: int| #![trigger env@[k]] i < k < env@.len() && env@[k].0@ == env@[i as int].0@;
                assert(rest[k - i] == env@[k]);
                assert(env_set_after(rest, 0, rest[0].0@));
            } else {
                if env_set_after(rest, 0, rest[0].0@) {
                    let k = choose|k: int| #![trigger rest[k]] 0 < k < rest.len() && rest[k].0@ == rest[0].0@;
                    assert(rest[k] == env@[i + k]);
                }
            }
        }
        if !later {
            let ghost before = out@;
            out.push((env[i].0.clone(), env[i].1.clone()));
            assert(out@ =~= before + seq![env@[i as int]]);
        }
        i = i + 1;
    }
    assert(env@.skip(env@.len() as int) =~= Seq::<(String, String)>::empty());
    assert(out@ =~= env_dedup(env@));
    proof {
        lemma_env_dedup(env@);
    }
    out
}

/// The value of `name` in the environment list, if it is set.
pub fn env_get(env: &Vec<(String, String)>, name: &str) -> (r: Option<String>)
    ensures
        r matches Some(v) ==> env_value(env@, name@) == Some(v@),
        r is None ==> env_value(env@, name@) is None,
{
    let mut i: usize = 0;
    assert(env@.skip(0) =~= env@);
    while i < env.len()
        invariant
            i <= env@.len(),
            env_value(env@, name@) == env_value(env@.skip(i as int), name@),
        decreases env@.len() - i,
    {
        assert(env@.skip(i as int).drop_first() =~= env@.skip(i + 1));
        if text_eq(env[i].0.as_str(), name) {
            return Some(env[i].1.clone());
        }
        i = i + 1;
    }
    None
}

} // verus!
