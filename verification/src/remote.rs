//! Remote jobs over SSH: the destination check, the options of every SSH
//! call, the wrapper script that detaches the job on the server and records
//! its exit code, the remote paths, and reading what the server answers.
use crate::paths::{is_id_char, valid_job_id};
use crate::shell::{
    run_command_line, run_script, sh_word_value, shell_quote, shell_quote_spec, unquoted,
    word_expansion, lemma_shell_quote_round_trip, ShellState,
};
use crate::text::{
    chars_of, find_last_char, int_text, is_white, is_whitespace, last_index_of, nat_text,
    parse_i32, parse_i32_spec, parse_u32, parse_u32_spec, push_nat, split_once, split_once_spec,
    starts_with, string_between, text_eq, trim, trim_str, views, first_pos, occurs_at,
    lemma_first_pos_after, lemma_first_pos_absent,
    lemma_int_text_not_white, lemma_parse_int_text, lemma_parse_nat_text, lemma_trim_of_unpadded,
    lemma_trim_end_at, lemma_trim_start_at,
};
use vstd::prelude::*;

verus! {

/// Why a remote step was refused.
#[derive(Debug, Clone, PartialEq, Eq)]
pub enum RemoteError {
    /// The SSH destination is empty, begins with `-` or holds white space.
    InvalidSshTarget,
    /// The wrapper printed no line.
    NoPid,
    /// The wrapper's last line is not a process number.
    InvalidPid,
    /// The recorded remote exit code is not an integer.
    InvalidExitCode,
    /// The monitoring probe answered none of the words it can answer.
    InvalidProbe,
}

/// Whether `target` may be handed to `ssh` as its destination: it is not
/// empty, does not begin with `-` (which `ssh` would read as an option) and
/// holds no white space.
pub open spec fn valid_ssh_target(target: Seq<char>) -> bool {
    &&& target.len() > 0
    &&& target[0] != '-'
    &&& forall|i: int| 0 <= i < target.len() ==> !is_white(#[trigger] target[i])
}

/// Accepts exactly the SSH destinations that `valid_ssh_target` describes.
pub fn validate_ssh_target(target: &str) -> (r: Result<(), RemoteError>)
    ensures
        r is Ok <==> valid_ssh_target(target@),
        r is Err ==> r == Err::<(), RemoteError>(RemoteError::InvalidSshTarget),
{
    let v = chars_of(target);
    if v.len() == 0 || v[0] == '-' {
        return Err(RemoteError::InvalidSshTarget);
    }
    let mut i: usize = 0;
    while i < v.len()
        invariant
            i <= v@.len(),
            v@ == target@,
            forall|k: int| 0 <= k < i ==> !is_white(#[trigger] v@[k]),
        decreases v@.len() - i,
    {
        if is_whitespace(v[i]) {
            return Err(RemoteError::InvalidSshTarget);
        }
        i = i + 1;
    }
    Ok(())
}

/// The arguments of every SSH call before the remote command: batch mode, a
/// connection timeout, keep-alives, then the destination.
pub open spec fn ssh_args_spec(target: Seq<char>) -> Seq<Seq<char>> {
    seq![
        "-o"@,
        "BatchMode=yes"@,
        "-o"@,
        "ConnectTimeout=10"@,
        "-o"@,
        "ServerAliveInterval=15"@,
        "-o"@,
        "ServerAliveCountMax=2"@,
        target,
    ]
}

/// The arguments of an SSH call to `target`, before the remote command.
pub fn ssh_args(target: &str) -> (r: Vec<String>)
    ensures
        views(r@) == ssh_args_spec(target@),
{
    let r = vec![
        "-o".to_owned(),
        "BatchMode=yes".to_owned(),
        "-o".to_owned(),
        "ConnectTimeout=10".to_owned(),
        "-o".to_owned(),
        "ServerAliveInterval=15".to_owned(),
        "-o".to_owned(),
        "ServerAliveCountMax=2".to_owned(),
        target.to_owned(),
    ];
    assert(views(r@) =~= ssh_args_spec(target@));
    r
}

/// The job's directory on the server, as the remote shell spells it.
pub open spec fn remote_dir_spec(job_id: Seq<char>) -> Seq<char> {
    "$HOME/.slumber/jobs/"@ + job_id
}

/// Where the logs of a remote job are shown to live: `<target>:~/.slumber/
/// jobs/<job_id>/stdout.log` and `.../stderr.log`.
pub open spec fn remote_log_paths_spec(target: Seq<char>, job_id: Seq<char>) -> (Seq<char>, Seq<char>) {
    let base = target + ":~/.slumber/jobs/"@ + job_id;
    (base + "/stdout.log"@, base + "/stderr.log"@)
}

/// The stdout and stderr locations of a remote job, as shown to the user.
pub fn remote_log_paths(target: &str, job_id: &str) -> (r: (String, String))
    ensures
        (r.0@, r.1@) == remote_log_paths_spec(target@, job_id@),
{
    let mut base = target.to_owned();
    base.append(":~/.slumber/jobs/");
    base.append(job_id);
    let mut out = base.clone();
    out.append("/stdout.log");
    let mut err = base;
    err.append("/stderr.log");
    (out, err)
}

/// The script that runs `command` on the server after the wrapper has
/// returned: it runs the command with `sh -c`, writes its exit status to
/// `exit_code.tmp`, renames that to `exit_code` and exits with the status.
pub open spec fn remote_worker_spec(job_id: Seq<char>, command: Seq<char>) -> Seq<char> {
    let dir = remote_dir_spec(job_id);
    "sh -c "@ + shell_quote_spec(command) + "\nstatus=$?\nprintf '%s\\n' \"$status\" > \""@ + dir
        + "/exit_code.tmp\"\nmv \""@ + dir + "/exit_code.tmp\" \""@ + dir + "/exit_code\"\nexit \"$status\""@
}

/// The text before the quoted worker in the wrapper script.
pub open spec fn remote_wrapper_head(job_id: Seq<char>) -> Seq<char> {
    "set -eu\numask 077\njob_dir=\""@ + remote_dir_spec(job_id)
        + "\"\nmkdir -p \"$HOME/.slumber/jobs\"\nmkdir \"$job_dir\"\n: > \"$job_dir/stdout.log\"\n: > \"$job_dir/stderr.log\"\nnohup sh -c "@
}

/// The text after the quoted worker in the wrapper script.
pub open spec fn remote_wrapper_tail() -> Seq<char> {
    " > \"$job_dir/stdout.log\" 2> \"$job_dir/stderr.log\" < /dev/null &\nprintf '%s\\n' \"$!\"\n"@
}

/// The script that SSH feeds to `sh -s` on the server: it creates the job
/// directory privately, starts the worker detached with `nohup` and its
/// output in the job's log files, and prints the worker's process number.
pub open spec fn remote_wrapper_spec(job_id: Seq<char>, command: Seq<char>) -> Seq<char> {
    remote_wrapper_head(job_id) + shell_quote_spec(remote_worker_spec(job_id, command))
        + remote_wrapper_tail()
}

/// The wrapper script that launches `command` as the remote job `job_id`.
pub fn remote_wrapper(job_id: &str, command: &str) -> (script: String)
    ensures
        script@ == remote_wrapper_spec(job_id@, command@),
{
    let mut dir = "$HOME/.slumber/jobs/".to_owned();
    dir.append(job_id);
    let mut worker = "sh -c ".to_owned();
    let quoted = shell_quote(command);
    worker.append(quoted.as_str());
    worker.append("\nstatus=$?\nprintf '%s\\n' \"$status\" > \"");
    worker.append(dir.as_str());
    worker.append("/exit_code.tmp\"\nmv \"");
    worker.append(dir.as_str());
    worker.append("/exit_code.tmp\" \"");
    worker.append(dir.as_str());
    worker.append("/exit_code\"\nexit \"$status\"");
    let mut script = "set -eu\numask 077\njob_dir=\"".to_owned();
    script.append(dir.as_str());
    script.append(
        "\"\nmkdir -p \"$HOME/.slumber/jobs\"\nmkdir \"$job_dir\"\n: > \"$job_dir/stdout.log\"\n: > \"$job_dir/stderr.log\"\nnohup sh -c ",
    );
    let quoted_worker = shell_quote(worker.as_str());
    script.append(quoted_worker.as_str());
    script.append(
        " > \"$job_dir/stdout.log\" 2> \"$job_dir/stderr.log\" < /dev/null &\nprintf '%s\\n' \"$!\"\n",
    );
    proof {
        assert(worker@ =~= remote_worker_spec(job_id@, command@));
        assert(script@ =~= remote_wrapper_spec(job_id@, command@));
    }
    script
}

/// The wrapper runs the submitted command unchanged: the word after
/// `nohup sh -c` reads back as the worker script, and the word after the
/// worker's own `sh -c` reads back as the command.
pub proof fn lemma_remote_wrapper_runs_command(job_id: Seq<char>, command: Seq<char>)
    ensures
        ({
            let worker = remote_worker_spec(job_id, command);
            &&& remote_wrapper_spec(job_id, command) == remote_wrapper_head(job_id)
                + shell_quote_spec(worker) + remote_wrapper_tail()
            &&& sh_word_value(shell_quote_spec(worker)) == Some(worker)
            &&& worker.take(6 + shell_quote_spec(command).len() as int) == "sh -c "@ + shell_quote_spec(
                command,
            )
            &&& sh_word_value(shell_quote_spec(command)) == Some(command)
        }),
{
    let worker = remote_worker_spec(job_id, command);
    lemma_shell_quote_round_trip(worker);
    lemma_shell_quote_round_trip(command);
    reveal_strlit("sh -c ");
    assert(worker.take(6 + shell_quote_spec(command).len() as int) =~= "sh -c "@ + shell_quote_spec(
        command,
    ));
}

/// The shell right after the worker's command has ended with exit status
/// `code`: nothing else has happened yet.
pub open spec fn after_command(code: int) -> ShellState {
    ShellState { last: code, vars: Map::empty(), files: Map::empty(), exited: false }
}

spec fn status_line() -> Seq<char> {
    "status=$?"@
}

spec fn printf_line(dir: Seq<char>) -> Seq<char> {
    "printf '%s\\n' "@ + "\"$status\" > \""@ + dir + "/exit_code.tmp\""@
}

spec fn mv_line(dir: Seq<char>) -> Seq<char> {
    "mv \""@ + dir + "/exit_code.tmp\" \""@ + dir + "/exit_code\""@
}

spec fn exit_line() -> Seq<char> {
    "exit \"$status\""@
}

spec fn printf_word() -> Seq<char> {
    seq!['p', 'r', 'i', 'n', 't', 'f', ' ', '\'', '%', 's', '\\', 'n', '\'', ' ']
}

/// Whether `s` holds neither a space nor a newline.
spec fn plain_path(s: Seq<char>) -> bool {
    forall|k: int| 0 <= k < s.len() ==> #[trigger] s[k] != ' ' && s[k] != '\n'
}

proof fn lemma_status_line(st: ShellState)
    ensures
        run_command_line(status_line(), st) == (ShellState {
            last: 0,
            vars: st.vars.insert(seq!['s', 't', 'a', 't', 'u', 's'], int_text(st.last)),
            ..st
        }),
        status_line().len() == 9,
        forall|k: int| 0 <= k < status_line().len() ==> #[trigger] status_line()[k] != '\n',
{
    reveal_strlit("status=$?");
    let s1 = status_line();
    assert(!starts_with(s1, printf_word()));
    assert(!starts_with(s1, seq!['m', 'v', ' '])) by {
        assert(s1[0] != 'm');
    }
    assert(!starts_with(s1, seq!['e', 'x', 'i', 't', ' '])) by {
        assert(s1[0] != 'e');
    }
    assert(s1 =~= seq!['s', 't', 'a', 't', 'u', 's'] + seq!['='] + seq!['$', '?']);
    lemma_first_pos_after(seq!['s', 't', 'a', 't', 'u', 's'], '=', seq!['$', '?']);
    assert(s1.take(6) =~= seq!['s', 't', 'a', 't', 'u', 's']);
    assert(s1.skip(7) =~= seq!['$', '?']);
    assert(unquoted(seq!['$', '?']) == seq!['$', '?']);
}

proof fn lemma_printf_line(dir: Seq<char>, st: ShellState)
    requires
        plain_path(dir),
        st.vars.contains_key(seq!['s', 't', 'a', 't', 'u', 's']),
    ensures
        run_command_line(printf_line(dir), st) == (ShellState {
            last: 0,
            files: st.files.insert(
                dir + "/exit_code.tmp"@,
                st.vars[seq!['s', 't', 'a', 't', 'u', 's']] + seq!['\n'],
            ),
            ..st
        }),
        forall|k: int| 0 <= k < printf_line(dir).len() ==> #[trigger] printf_line(dir)[k] != '\n',
{
    reveal_strlit("printf '%s\\n' ");
    reveal_strlit("\"$status\" > \"");
    reveal_strlit("/exit_code.tmp\"");
    reveal_strlit("/exit_code.tmp");
    let s2 = printf_line(dir);
    let printf = printf_word();
    let tmp = dir + "/exit_code.tmp"@;
    let w2 = seq!['"', '$', 's', 't', 'a', 't', 'u', 's', '"'];
    let redirect = seq!['>', ' '] + seq!['"'] + tmp + seq!['"'];
    assert(s2 =~= printf + w2 + seq![' '] + redirect);
    assert forall|k: int| 0 <= k < s2.len() implies #[trigger] s2[k] != '\n' by {
        if 27 <= k < 27 + dir.len() {
            assert(s2[k] == dir[k - 27]);
        }
    }
    assert(s2.take(14) =~= printf);
    assert(s2.skip(14) =~= w2 + seq![' '] + redirect);
    lemma_first_pos_after(w2, ' ', redirect);
    assert((w2 + seq![' '] + redirect).take(9) =~= w2);
    assert((w2 + seq![' '] + redirect).skip(10) =~= redirect);
    assert(redirect.take(2) =~= seq!['>', ' ']);
    assert(redirect.skip(2).subrange(1, redirect.skip(2).len() - 1) =~= tmp);
    assert(unquoted(w2) =~= seq!['$', 's', 't', 'a', 't', 'u', 's']);
    assert(unquoted(w2).skip(1) =~= seq!['s', 't', 'a', 't', 'u', 's']);
    assert(unquoted(w2) != seq!['$', '?']);
}

proof fn lemma_mv_line(dir: Seq<char>, st: ShellState)
    requires
        plain_path(dir),
        st.files.contains_key(dir + "/exit_code.tmp"@),
    ensures
        run_command_line(mv_line(dir), st) == (ShellState {
            last: 0,
            files: st.files.remove(dir + "/exit_code.tmp"@).insert(
                dir + "/exit_code"@,
                st.files[dir + "/exit_code.tmp"@],
            ),
            ..st
        }),
        forall|k: int| 0 <= k < mv_line(dir).len() ==> #[trigger] mv_line(dir)[k] != '\n',
{
    reveal_strlit("mv \"");
    reveal_strlit("/exit_code.tmp\" \"");
    reveal_strlit("/exit_code\"");
    reveal_strlit("/exit_code.tmp");
    reveal_strlit("/exit_code");
    let s3 = mv_line(dir);
    let tmp = dir + "/exit_code.tmp"@;
    let fin = dir + "/exit_code"@;
    let from = seq!['"'] + tmp + seq!['"'];
    let to = seq!['"'] + fin + seq!['"'];
    assert(s3 =~= seq!['m', 'v', ' '] + from + seq![' '] + to);
    assert forall|k: int| 0 <= k < from.len() implies #[trigger] from[k] != ' ' by {
        if 1 <= k < 1 + dir.len() {
            assert(from[k] == dir[k - 1]);
        }
    }
    assert forall|k: int| 0 <= k < s3.len() implies #[trigger] s3[k] != '\n' by {
        if 4 <= k < 4 + dir.len() {
            assert(s3[k] == dir[k - 4]);
        } else if 4 + dir.len() + 17 <= k < 4 + dir.len() + 17 + dir.len() {
            assert(s3[k] == dir[k - 4 - dir.len() - 17]);
        }
    }
    assert(!starts_with(s3, printf_word())) by {
        assert(s3[0] != 'p');
    }
    assert(s3.take(3) =~= seq!['m', 'v', ' ']);
    assert(s3.skip(3) =~= from + seq![' '] + to);
    lemma_first_pos_after(from, ' ', to);
    assert((from + seq![' '] + to).take(from.len() as int) =~= from);
    assert((from + seq![' '] + to).skip(from.len() as int + 1) =~= to);
    assert(unquoted(from) =~= tmp);
    assert(unquoted(to) =~= fin);
}

proof fn lemma_exit_line(st: ShellState)
    ensures
        run_command_line(exit_line(), st) == (ShellState { exited: true, ..st }),
        forall|k: int| 0 <= k < exit_line().len() ==> #[trigger] exit_line()[k] != '\n',
        exit_line().len() > 0,
{
    reveal_strlit("exit \"$status\"");
    let s4 = exit_line();
    assert(!starts_with(s4, printf_word())) by {
        assert(s4[0] != 'p');
    }
    assert(!starts_with(s4, seq!['m', 'v', ' '])) by {
        assert(s4[0] != 'm');
    }
    assert(s4.take(5) =~= seq!['e', 'x', 'i', 't', ' ']);
}

proof fn lemma_worker_lines(job_id: Seq<char>, command: Seq<char>)
    ensures
        ({
            let dir = remote_dir_spec(job_id);
            let worker = remote_worker_spec(job_id, command);
            let nl = seq!['\n'];
            let start = "sh -c "@ + shell_quote_spec(command) + nl;
            &&& worker.take(start.len() as int) == start
            &&& worker.skip(start.len() as int) == status_line() + nl + printf_line(dir) + nl + mv_line(
                dir,
            ) + nl + exit_line()
        }),
{
    let q = shell_quote_spec(command);
    let dir = remote_dir_spec(job_id);
    let worker = remote_worker_spec(job_id, command);
    let nl = seq!['\n'];
    let start = "sh -c "@ + q + nl;
    reveal_strlit("sh -c ");
    reveal_strlit("\nstatus=$?\nprintf '%s\\n' \"$status\" > \"");
    reveal_strlit("/exit_code.tmp\"\nmv \"");
    reveal_strlit("/exit_code.tmp\" \"");
    reveal_strlit("/exit_code\"\nexit \"$status\"");
    reveal_strlit("status=$?");
    reveal_strlit("printf '%s\\n' ");
    reveal_strlit("\"$status\" > \"");
    reveal_strlit("/exit_code.tmp\"");
    reveal_strlit("mv \"");
    reveal_strlit("/exit_code\"");
    reveal_strlit("exit \"$status\"");
    assert(worker.take(start.len() as int) =~= start);
    assert(worker.skip(start.len() as int) =~= status_line() + nl + printf_line(dir) + nl + mv_line(dir)
        + nl + exit_line());
}

proof fn lemma_job_dir_plain(job_id: Seq<char>)
    requires
        valid_job_id(job_id),
    ensures
        plain_path(remote_dir_spec(job_id)),
{
    reveal_strlit("$HOME/.slumber/jobs/");
    let dir = remote_dir_spec(job_id);
    assert forall|k: int| 0 <= k < dir.len() implies #[trigger] dir[k] != ' ' && dir[k] != '\n' by {
        if k >= 20 {
            assert(dir[k] == job_id[k - 20]);
            assert(is_id_char(job_id[k - 20]));
        }
    }
}

proof fn lemma_run_worker_lines(dir: Seq<char>, code: int)
    requires
        plain_path(dir),
    ensures
        run_script(
            status_line() + seq!['\n'] + printf_line(dir) + seq!['\n'] + mv_line(dir) + seq!['\n']
                + exit_line(),
            after_command(code),
        ).files.get(dir + "/exit_code"@) == Some(int_text(code) + seq!['\n']),
{
    let nl = seq!['\n'];
    let s1 = status_line();
    let s2 = printf_line(dir);
    let s3 = mv_line(dir);
    let s4 = exit_line();
    let rest = s1 + nl + s2 + nl + s3 + nl + s4;
    let st0 = after_command(code);
    lemma_status_line(st0);
    let st1 = run_command_line(s1, st0);
    lemma_printf_line(dir, st1);
    let st2 = run_command_line(s2, st1);
    lemma_mv_line(dir, st2);
    let st3 = run_command_line(s3, st2);
    lemma_exit_line(st3);
    let tail1 = s2 + nl + s3 + nl + s4;
    let tail2 = s3 + nl + s4;
    lemma_first_pos_after(s1, '\n', tail1);
    assert(rest =~= s1 + nl + tail1);
    assert(rest.take(9) =~= s1);
    assert(rest.skip(10) =~= tail1);
    assert(run_script(rest, st0) == run_script(tail1, st1));
    lemma_first_pos_after(s2, '\n', tail2);
    assert(tail1 =~= s2 + nl + tail2);
    assert(tail1.take(s2.len() as int) =~= s2);
    assert(tail1.skip(s2.len() as int + 1) =~= tail2);
    assert(run_script(tail1, st1) == run_script(tail2, st2));
    lemma_first_pos_after(s3, '\n', s4);
    assert(tail2.take(s3.len() as int) =~= s3);
    assert(tail2.skip(s3.len() as int + 1) =~= s4);
    assert(run_script(tail2, st2) == run_script(s4, st3));
    lemma_first_pos_absent(s4, '\n');
    assert(run_script(s4, st3) == run_command_line(s4, st3));
}

/// The worker records the command's own exit status: it starts with
/// `sh -c` and the quoted command (which reads back as the command), and
/// when that command has ended with exit status `code`, the rest of the
/// worker leaves in the job's `exit_code` file the numeral of `code` and a
/// newline, which the monitor reads back as `code`.
pub proof fn lemma_worker_records_exit_status(job_id: Seq<char>, command: Seq<char>, code: i32)
    requires
        valid_job_id(job_id),
    ensures
        ({
            let worker = remote_worker_spec(job_id, command);
            let start = "sh -c "@ + shell_quote_spec(command) + seq!['\n'];
            &&& starts_with(worker, start)
            &&& sh_word_value(shell_quote_spec(command)) == Some(command)
            &&& run_script(worker.skip(start.len() as int), after_command(code as int)).files.get(
                remote_dir_spec(job_id) + "/exit_code"@,
            ) == Some(int_text(code as int) + seq!['\n'])
            &&& remote_exit_code_spec(int_text(code as int) + seq!['\n']) == Ok::<i32, RemoteError>(code)
        }),
{
    lemma_shell_quote_round_trip(command);
    lemma_exit_code_round_trip(code);
    lemma_worker_lines(job_id, command);
    lemma_job_dir_plain(job_id);
    lemma_run_worker_lines(remote_dir_spec(job_id), code as int);
    let worker = remote_worker_spec(job_id, command);
    let start = "sh -c "@ + shell_quote_spec(command) + seq!['\n'];
    assert(worker.len() >= start.len()) by {
        reveal_strlit("sh -c ");
        reveal_strlit("\nstatus=$?\nprintf '%s\\n' \"$status\" > \"");
    }
    assert(worker.subrange(0, start.len() as int) =~= worker.take(start.len() as int));
}

/// The remote command that prints a job's recorded exit code.
pub open spec fn remote_exit_command_spec(job_id: Seq<char>) -> Seq<char> {
    "cat \""@ + remote_dir_spec(job_id) + "/exit_code\" 2>/dev/null"@
}

/// The remote command that prints the recorded exit code of `job_id`.
pub fn remote_exit_command(job_id: &str) -> (c: String)
    ensures
        c@ == remote_exit_command_spec(job_id@),
{
    let mut c = "cat \"".to_owned();
    c.append("$HOME/.slumber/jobs/");
    c.append(job_id);
    c.append("/exit_code\" 2>/dev/null");
    proof {
        assert(c@ =~= remote_exit_command_spec(job_id@));
    }
    c
}

/// The remote command that checks on a job: `running` while its process
/// (`pid`, when known) is alive, else `exit <code>` when its exit record
/// exists, else `gone`. The process is checked first: the worker writes the
/// record before it exits, so a finished worker always has its record. Without
/// a known process the probe answers `running` until the record appears.
pub open spec fn remote_probe_command_spec(job_id: Seq<char>, pid: Option<u32>) -> Seq<char> {
    let recorded = "[ -f \""@ + remote_dir_spec(job_id) + "/exit_code\" ]; then printf 'exit '; "@
        + remote_exit_command_spec(job_id);
    match pid {
        Some(p) => "if kill -0 "@ + nat_text(p as nat) + " 2>/dev/null; then echo running; elif "@
            + recorded + "; else echo gone; fi"@,
        None => "if "@ + recorded + "; else echo running; fi"@,
    }
}

/// The remote command that checks on the job `job_id` whose worker is `pid`.
pub fn remote_probe_command(job_id: &str, pid: Option<u32>) -> (c: String)
    ensures
        c@ == remote_probe_command_spec(job_id@, pid),
{
    let mut recorded = "[ -f \"".to_owned();
    recorded.append("$HOME/.slumber/jobs/");
    recorded.append(job_id);
    recorded.append("/exit_code\" ]; then printf 'exit '; ");
    let exit = remote_exit_command(job_id);
    recorded.append(exit.as_str());
    let ghost rec = "[ -f \""@ + remote_dir_spec(job_id@) + "/exit_code\" ]; then printf 'exit '; "@
        + remote_exit_command_spec(job_id@);
    assert(recorded@ =~= rec);
    match pid {
        Some(p) => {
            let mut c = "if kill -0 ".to_owned();
            push_nat(&mut c, p as u64);
            c.append(" 2>/dev/null; then echo running; elif ");
            c.append(recorded.as_str());
            c.append("; else echo gone; fi");
            assert(c@ =~= "if kill -0 "@ + nat_text(p as nat) + " 2>/dev/null; then echo running; elif "@
                + rec + "; else echo gone; fi"@);
            c
        },
        None => {
            let mut c = "if ".to_owned();
            c.append(recorded.as_str());
            c.append("; else echo running; fi");
            assert(c@ =~= "if "@ + rec + "; else echo running; fi"@);
            c
        },
    }
}

/// What the monitoring probe found.
#[derive(Debug, Clone, PartialEq, Eq)]
pub enum ProbeReport {
    /// The worker is still alive (or no worker is known and no record exists).
    Running,
    /// Neither the worker nor its exit record exists.
    Gone,
    /// The exit record holds this code.
    Recorded(i32),
}

/// The probe's answer read from its output: trimmed, `running`, `gone`, or
/// `exit` and the recorded code after the first space.
pub open spec fn probe_report_spec(output: Seq<char>) -> Result<ProbeReport, RemoteError> {
    let t = trim(output);
    if t == "running"@ {
        Ok(ProbeReport::Running)
    } else if t == "gone"@ {
        Ok(ProbeReport::Gone)
    } else {
        match split_once_spec(t, ' ') {
            Some((word, rest)) => if word == "exit"@ {
                match remote_exit_code_spec(rest) {
                    Ok(code) => Ok(ProbeReport::Recorded(code)),
                    Err(e) => Err(e),
                }
            } else {
                Err(RemoteError::InvalidProbe)
            },
            None => Err(RemoteError::InvalidProbe),
        }
    }
}

/// The probe's answer from its output.
pub fn parse_probe_report(output: &str) -> (r: Result<ProbeReport, RemoteError>)
    ensures
        r == probe_report_spec(output@),
{
    let t = trim_str(output);
    assert(t@ == trim(output@));
    if text_eq(t.as_str(), "running") {
        Ok(ProbeReport::Running)
    } else if text_eq(t.as_str(), "gone") {
        Ok(ProbeReport::Gone)
    } else {
        let parts = split_once(t.as_str(), ' ');
        match parts {
            Some((word, rest)) => if text_eq(word.as_str(), "exit") {
                match parse_remote_exit_code(rest.as_str()) {
                    Ok(code) => Ok(ProbeReport::Recorded(code)),
                    Err(e) => Err(e),
                }
            } else {
                Err(RemoteError::InvalidProbe)
            },
            None => Err(RemoteError::InvalidProbe),
        }
    }
}

/// The remote command that prints the log file `name` of a job.
pub open spec fn remote_log_command_spec(job_id: Seq<char>, name: Seq<char>) -> Seq<char> {
    "cat \""@ + remote_dir_spec(job_id) + "/"@ + name + "\""@
}

/// The remote command that prints the log file `name` of `job_id`.
pub fn remote_log_command(job_id: &str, name: &str) -> (c: String)
    ensures
        c@ == remote_log_command_spec(job_id@, name@),
{
    let mut c = "cat \"".to_owned();
    c.append("$HOME/.slumber/jobs/");
    c.append(job_id);
    c.append("/");
    c.append(name);
    c.append("\"");
    proof {
        assert(c@ =~= remote_log_command_spec(job_id@, name@));
    }
    c
}

/// The last line of `s` as `str::lines` yields it, or `None` when `s` is
/// empty: the text after the last newline, once one final `\n` (or `\r\n`)
/// is set aside.
pub open spec fn last_line(s: Seq<char>) -> Option<Seq<char>> {
    if s.len() == 0 {
        None
    } else {
        let t = if s.last() == '\n' {
            let u = s.drop_last();
            if u.len() > 0 && u.last() == '\r' {
                u.drop_last()
            } else {
                u
            }
        } else {
            s
        };
        Some(t.skip(last_index_of(t, '\n') + 1))
    }
}

/// The last line of `s`, or `None` when `s` is empty.
#[verifier::spinoff_prover]
#[verifier::rlimit(60)]
pub fn last_line_of(s: &str) -> (r: Option<String>)
    ensures
        r matches Some(l) ==> last_line(s@) == Some(l@),
        r is None ==> last_line(s@) is None,
{
    let v = chars_of(s);
    if v.len() == 0 {
        return None;
    }
    let mut end = v.len();
    if v[end - 1] == '\n' {
        end = end - 1;
        if end > 0 && v[end - 1] == '\r' {
            end = end - 1;
        }
    }
    let ghost t = v@.take(end as int);
    proof {
        if v@.last() == '\n' {
            let u = v@.drop_last();
            if u.len() > 0 && u.last() == '\r' {
                assert(u.drop_last() =~= t);
            } else {
                assert(u =~= t);
            }
        } else {
            assert(v@ =~= t);
        }
    }
    let start = match find_last_char(v.as_slice(), end, '\n') {
        Some(i) => i + 1,
        None => 0,
    };
    let line = string_between(v.as_slice(), start, end);
    proof {
        assert(t.skip(start as int) =~= v@.subrange(start as int, end as int));
    }
    Some(line)
}

/// The process number that the wrapper printed: its last output line,
/// trimmed, read as a `u32`.
pub open spec fn remote_pid_spec(stdout: Seq<char>) -> Result<u32, RemoteError> {
    match last_line(stdout) {
        None => Err(RemoteError::NoPid),
        Some(line) => match parse_u32_spec(trim(line)) {
            Some(pid) => Ok(pid),
            None => Err(RemoteError::InvalidPid),
        },
    }
}

/// The remote process number from the wrapper's output.
pub fn parse_remote_pid(stdout: &str) -> (r: Result<u32, RemoteError>)
    ensures
        r == remote_pid_spec(stdout@),
{
    match last_line_of(stdout) {
        None => Err(RemoteError::NoPid),
        Some(line) => {
            let trimmed = trim_str(line.as_str());
            match parse_u32(trimmed.as_str()) {
                Some(pid) => Ok(pid),
                None => Err(RemoteError::InvalidPid),
            }
        },
    }
}

/// The exit code read from a job's `exit_code` file: the output, trimmed,
/// read as an `i32`.
pub open spec fn remote_exit_code_spec(output: Seq<char>) -> Result<i32, RemoteError> {
    match parse_i32_spec(trim(output)) {
        Some(code) => Ok(code),
        None => Err(RemoteError::InvalidExitCode),
    }
}

/// The exit code from the output of the remote exit-code command.
pub fn parse_remote_exit_code(output: &str) -> (r: Result<i32, RemoteError>)
    ensures
        r == remote_exit_code_spec(output@),
{
    let trimmed = trim_str(output);
    match parse_i32(trimmed.as_str()) {
        Some(code) => Ok(code),
        None => Err(RemoteError::InvalidExitCode),
    }
}

/// What the worker records is what the monitor reads: `printf '%s\n'` of an
/// exit status reads back as that status.
pub proof fn lemma_exit_code_round_trip(code: i32)
    ensures
        remote_exit_code_spec(int_text(code as int) + seq!['\n']) == Ok::<i32, RemoteError>(code),
{
    let t = int_text(code as int);
    let s = t + seq!['\n'];
    lemma_int_text_not_white(code as int);
    assert(is_white('\n'));
    lemma_trim_start_at(s, 0);
    assert(s.skip(0) =~= s);
    lemma_trim_end_at(s, t.len() as int);
    assert(s.take(t.len() as int) =~= t);
    lemma_parse_int_text(code);
}

/// What the wrapper prints is what the launcher reads: `printf '%s\n'` of a
/// process number reads back as that number.
pub proof fn lemma_pid_round_trip(pid: u32)
    ensures
        remote_pid_spec(nat_text(pid as nat) + seq!['\n']) == Ok::<u32, RemoteError>(pid),
{
    let t = nat_text(pid as nat);
    let s = t + seq!['\n'];
    assert(s.drop_last() =~= t);
    lemma_int_text_not_white(pid as int);
    assert(forall|k: int| 0 <= k < t.len() ==> t[k] != '\n') by {
        assert forall|k: int| 0 <= k < t.len() implies t[k] != '\n' by {
            assert(!is_white(int_text(pid as int)[k]));
        }
    }
    assert(t.last() != '\r') by {
        assert(!is_white(int_text(pid as int)[t.len() - 1]));
    }
    assert(last_index_of(t, '\n') == -1);
    assert(t.skip(0) =~= t);
    lemma_trim_of_unpadded(t);
    lemma_parse_nat_text(pid);
}

} // verus!
