//! The tmux pane that follows a job's logs: the command that opens it beside
//! the submitting pane, reading the new pane's identifier, and the command
//! that closes it before wake-up.
use crate::records::{env_get, env_value, JobSubmitRequest};
use crate::remote::remote_dir_spec;
use crate::shell::{shell_quote, shell_quote_spec};
use crate::text::{parse_u32, parse_u32_spec, split_once, split_once_spec, trim, trim_str, views};
use vstd::prelude::*;

verus! {

/// Why no pane could be opened.
#[derive(Debug, Clone, PartialEq, Eq)]
pub enum PaneError {
    /// The submitting environment has no `TMUX`.
    TmuxNotSet,
    /// tmux printed no pane identifier.
    NoPaneId,
}

/// A tmux invocation: its arguments and the `TMUX` value it runs with, if any.
#[derive(Debug, Clone, PartialEq, Eq)]
pub struct TmuxCommand {
    pub args: Vec<String>,
    pub tmux_env: Option<String>,
}

/// Whether the submission asks for a log pane: its pane field is `Some("")`.
pub open spec fn wants_pane(request: JobSubmitRequest) -> bool {
    request.tmux_pane_id matches Some(id) && id@.len() == 0
}

/// The remote command that follows the last 20 lines of both logs of a
/// remote job.
pub open spec fn remote_tail_spec(job_id: Seq<char>) -> Seq<char> {
    "tail -f -n 20 \""@ + remote_dir_spec(job_id) + "/stdout.log\" \""@ + remote_dir_spec(job_id)
        + "/stderr.log\""@
}

/// The command the pane runs: `tail -f -n 20` of both logs, over
/// `ssh -t` for a remote job.
pub open spec fn tail_command_spec(
    request: JobSubmitRequest,
    job_id: Seq<char>,
    stdout_path: Seq<char>,
    stderr_path: Seq<char>,
) -> Seq<char> {
    match request.ssh_target {
        Some(target) => "ssh -t -o BatchMode=yes -o ConnectTimeout=10 "@ + shell_quote_spec(target@)
            + " "@ + shell_quote_spec(remote_tail_spec(job_id)),
        None => "tail -f -n 20 "@ + shell_quote_spec(stdout_path) + " "@ + shell_quote_spec(
            stderr_path,
        ),
    }
}

/// The arguments of `tmux display-message` that print the width and height,
/// in character cells, of the submitting pane (the one `TMUX_PANE` names, else
/// the session's active pane).
pub open spec fn size_query_args_spec(source_pane: Option<Seq<char>>) -> Seq<Seq<char>> {
    let tail = seq!["#{pane_width} #{pane_height}"@];
    match source_pane {
        Some(pane) => seq!["display-message"@, "-p"@, "-t"@, pane] + tail,
        None => seq!["display-message"@, "-p"@] + tail,
    }
}

/// The tmux command that asks for the submitting pane's size, `None` when
/// the submission asks for no pane or its environment has no `TMUX`.
pub fn pane_size_command(request: &JobSubmitRequest) -> (r: Option<TmuxCommand>)
    ensures
        wants_pane(*request) && env_value(request.env_vars@, "TMUX"@) is Some ==> (r matches Some(
            c,
        ) && c.tmux_env matches Some(t) && Some(t@) == env_value(request.env_vars@, "TMUX"@)
            && views(c.args@) == size_query_args_spec(env_value(request.env_vars@, "TMUX_PANE"@))),
        !(wants_pane(*request) && env_value(request.env_vars@, "TMUX"@) is Some) ==> r is None,
{
    let wanted = match &request.tmux_pane_id {
        Some(id) => id.as_str().is_empty(),
        None => false,
    };
    if !wanted {
        return None;
    }
    let tmux_env = match env_get(&request.env_vars, "TMUX") {
        Some(t) => t,
        None => return None,
    };
    let mut args = vec!["display-message".to_owned(), "-p".to_owned()];
    match env_get(&request.env_vars, "TMUX_PANE") {
        Some(pane) => {
            args.push("-t".to_owned());
            args.push(pane);
        },
        None => {},
    }
    args.push("#{pane_width} #{pane_height}".to_owned());
    proof {
        assert(views(args@) =~= size_query_args_spec(env_value(request.env_vars@, "TMUX_PANE"@)));
    }
    Some(TmuxCommand { args, tmux_env: Some(tmux_env) })
}

/// The pane size that the size query printed: its output, trimmed, is a
/// width and a height in decimal, separated by the first space.
pub open spec fn pane_size_spec(output: Seq<char>) -> Option<(u32, u32)> {
    match split_once_spec(trim(output), ' ') {
        Some((w, h)) => match (parse_u32_spec(w), parse_u32_spec(h)) {
            (Some(width), Some(height)) => Some((width, height)),
            _ => None,
        },
        None => None,
    }
}

/// The width and height of the submitting pane from the size query's output;
/// `None` when the output does not hold them.
pub fn pane_size_from_output(output: &str) -> (r: Option<(u32, u32)>)
    ensures
        r == pane_size_spec(output@),
{
    let t = trim_str(output);
    match split_once(t.as_str(), ' ') {
        Some((w, h)) => match (parse_u32(w.as_str()), parse_u32(h.as_str())) {
            (Some(width), Some(height)) => Some((width, height)),
            _ => None,
        },
        None => None,
    }
}

/// How the log pane splits the submitting pane: a pane taller than it is
/// wide (in character cells) splits top/bottom (`-v`); a wider one, or one
/// whose size is unknown, splits left/right (`-h`).
pub open spec fn split_flag_spec(size: Option<(u32, u32)>) -> Seq<char> {
    match size {
        Some((width, height)) => if height > width {
            "-v"@
        } else {
            "-h"@
        },
        None => "-h"@,
    }
}

/// The arguments of `tmux split-window` that open the log pane: a detached
/// split, in the direction the pane's size calls for, that prints the new
/// pane's identifier, next to the submitting pane when `TMUX_PANE` names it.
pub open spec fn split_args_spec(
    source_pane: Option<Seq<char>>,
    size: Option<(u32, u32)>,
    tail: Seq<char>,
) -> Seq<Seq<char>> {
    let head = seq!["split-window"@, split_flag_spec(size), "-d"@, "-P"@, "-F"@, "#{pane_id}"@];
    match source_pane {
        Some(pane) => head + seq!["-t"@, pane, tail],
        None => head + seq![tail],
    }
}

/// The tmux command that opens a log pane for the job, `None` when the
/// submission did not ask for one; `size` is the submitting pane's width and
/// height, when known.
pub fn log_pane_command(
    request: &JobSubmitRequest,
    size: Option<(u32, u32)>,
    job_id: &str,
    stdout_path: &str,
    stderr_path: &str,
) -> (r: Result<Option<TmuxCommand>, PaneError>)
    ensures
        !wants_pane(*request) ==> r == Ok::<Option<TmuxCommand>, PaneError>(None),
        wants_pane(*request) && env_value(request.env_vars@, "TMUX"@) is None ==> r == Err::<
            Option<TmuxCommand>,
            PaneError,
        >(PaneError::TmuxNotSet),
        wants_pane(*request) && env_value(request.env_vars@, "TMUX"@) is Some ==> (r matches Ok(
            Some(c),
        ) && c.tmux_env matches Some(t) && Some(t@) == env_value(request.env_vars@, "TMUX"@)
            && views(c.args@) == split_args_spec(
            env_value(request.env_vars@, "TMUX_PANE"@),
            size,
            tail_command_spec(*request, job_id@, stdout_path@, stderr_path@),
        )),
{
    let wanted = match &request.tmux_pane_id {
        Some(id) => id.as_str().is_empty(),
        None => false,
    };
    if !wanted {
        return Ok(None);
    }
    let tmux_env = match env_get(&request.env_vars, "TMUX") {
        Some(t) => t,
        None => return Err(PaneError::TmuxNotSet),
    };
    let tail = match &request.ssh_target {
        Some(target) => {
            let mut remote_tail = "tail -f -n 20 \"".to_owned();
            remote_tail.append("$HOME/.slumber/jobs/");
            remote_tail.append(job_id);
            remote_tail.append("/stdout.log\" \"");
            remote_tail.append("$HOME/.slumber/jobs/");
            remote_tail.append(job_id);
            remote_tail.append("/stderr.log\"");
            let mut t = "ssh -t -o BatchMode=yes -o ConnectTimeout=10 ".to_owned();
            let qt = shell_quote(target.as_str());
            t.append(qt.as_str());
            t.append(" ");
            let qr = shell_quote(remote_tail.as_str());
            t.append(qr.as_str());
            proof {
                assert(remote_tail@ =~= remote_tail_spec(job_id@));
            }
            t
        },
        None => {
            let mut t = "tail -f -n 20 ".to_owned();
            let qo = shell_quote(stdout_path);
            t.append(qo.as_str());
            t.append(" ");
            let qe = shell_quote(stderr_path);
            t.append(qe.as_str());
            t
        },
    };
    assert(tail@ =~= tail_command_spec(*request, job_id@, stdout_path@, stderr_path@));
    let flag = match size {
        Some((width, height)) => if height > width {
            "-v".to_owned()
        } else {
            "-h".to_owned()
        },
        None => "-h".to_owned(),
    };
    let mut args = vec![
        "split-window".to_owned(),
        flag,
        "-d".to_owned(),
        "-P".to_owned(),
        "-F".to_owned(),
        "#{pane_id}".to_owned(),
    ];
    let ghost head = args@;
    let source = env_get(&request.env_vars, "TMUX_PANE");
    match source {
        Some(pane) => {
            args.push("-t".to_owned());
            args.push(pane);
        },
        None => {},
    }
    args.push(tail);
    proof {
        assert(views(args@) =~= split_args_spec(
            env_value(request.env_vars@, "TMUX_PANE"@),
            size,
            tail_command_spec(*request, job_id@, stdout_path@, stderr_path@),
        ));
    }
    Ok(Some(TmuxCommand { args, tmux_env: Some(tmux_env) }))
}

/// The pane identifier that `split-window -P` printed: its output, trimmed;
/// refused when that is empty.
pub open spec fn pane_id_spec(output: Seq<char>) -> Result<Seq<char>, PaneError> {
    if trim(output).len() == 0 {
        Err(PaneError::NoPaneId)
    } else {
        Ok(trim(output))
    }
}

/// The new pane's identifier from the output of `tmux split-window -P`.
pub fn pane_id_from_output(output: &str) -> (r: Result<String, PaneError>)
    ensures
        match pane_id_spec(output@) {
            Ok(id) => r matches Ok(s) && s@ == id,
            Err(e) => r == Err::<String, PaneError>(e),
        },
{
    let id = trim_str(output);
    if id.as_str().is_empty() {
        Err(PaneError::NoPaneId)
    } else {
        Ok(id)
    }
}

/// The tmux command that closes the job's log pane: `kill-pane -t <id>`
/// with the submitter's `TMUX`, when a pane was opened (its identifier is
/// set and not empty).
pub fn kill_pane_command(request: &JobSubmitRequest) -> (r: Option<TmuxCommand>)
    ensures
        match request.tmux_pane_id {
            Some(id) if id@.len() > 0 => r matches Some(c) && views(c.args@) == seq![
                "kill-pane"@,
                "-t"@,
                id@,
            ] && match c.tmux_env {
                Some(t) => env_value(request.env_vars@, "TMUX"@) == Some(t@),
                None => env_value(request.env_vars@, "TMUX"@) is None,
            },
            _ => r is None,
        },
{
    let id = match &request.tmux_pane_id {
        Some(id) => id,
        None => return None,
    };
    if id.as_str().is_empty() {
        return None;
    }
    let args = vec!["kill-pane".to_owned(), "-t".to_owned(), id.clone()];
    assert(views(args@) =~= seq!["kill-pane"@, "-t"@, id@]);
    Some(TmuxCommand { args, tmux_env: env_get(&request.env_vars, "TMUX") })
}

} // verus!
