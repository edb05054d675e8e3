use slumber::remote::{
    last_line_of, parse_probe_report, parse_remote_exit_code, parse_remote_pid,
    remote_exit_command, remote_log_command, remote_log_paths, remote_probe_command,
    remote_wrapper, ssh_args, validate_ssh_target, ProbeReport, RemoteError,
};
use slumber::shell::shell_quote;

/// Reads a word made of single- and double-quoted segments, as `sh` does.
fn sh_word(word: &str) -> Option<String> {
    let chars: Vec<char> = word.chars().collect();
    let mut out = String::new();
    let mut i = 0;
    while i < chars.len() {
        let q = chars[i];
        if q != '\'' && q != '"' {
            return None;
        }
        let end = (i + 1..chars.len()).find(|&k| chars[k] == q)?;
        for &c in &chars[i + 1..end] {
            if q == '"' && matches!(c, '"' | '\\' | '$' | '`') {
                return None;
            }
            out.push(c);
        }
        i = end + 1;
    }
    Some(out)
}

#[test]
fn shell_quote_reads_back() {
    for value in ["", "plain", "it's", "''", "a'b'c", "$HOME `x` \"q\" \\", "line\nbreak"] {
        let quoted = shell_quote(value);
        assert_eq!(sh_word(&quoted), Some(value.to_owned()), "{quoted}");
    }
    assert_eq!(shell_quote("it's"), "'it'\"'\"'s'");
}

#[test]
fn ssh_destinations() {
    assert_eq!(validate_ssh_target("gpu-box"), Ok(()));
    assert_eq!(validate_ssh_target("user@host"), Ok(()));
    for bad in ["", "-oProxyCommand=x", "a b", "a\tb", "a\u{a0}b"] {
        assert_eq!(validate_ssh_target(bad), Err(RemoteError::InvalidSshTarget), "{bad:?}");
    }
}

#[test]
fn ssh_options() {
    assert_eq!(
        ssh_args("gpu-box"),
        vec![
            "-o", "BatchMode=yes", "-o", "ConnectTimeout=10", "-o", "ServerAliveInterval=15",
            "-o", "ServerAliveCountMax=2", "gpu-box",
        ]
    );
}

#[test]
fn remote_paths_and_commands() {
    assert_eq!(
        remote_log_paths("gpu-box", "job_1"),
        (
            "gpu-box:~/.slumber/jobs/job_1/stdout.log".to_owned(),
            "gpu-box:~/.slumber/jobs/job_1/stderr.log".to_owned()
        )
    );
    assert_eq!(
        remote_exit_command("job_1"),
        "cat \"$HOME/.slumber/jobs/job_1/exit_code\" 2>/dev/null"
    );
    assert_eq!(
        remote_log_command("job_1", "stderr.log"),
        "cat \"$HOME/.slumber/jobs/job_1/stderr.log\""
    );
}

#[test]
fn remote_wrapper_detaches_and_records_exit() {
    let command = "printf \"remote's stdout\"; printf 'remote stderr' >&2; exit 7";
    let script = remote_wrapper("job_test", command);
    assert!(script.starts_with("set -eu\numask 077\njob_dir=\"$HOME/.slumber/jobs/job_test\"\n"));
    assert!(script.contains("nohup sh -c "));
    assert!(script.ends_with(" > \"$job_dir/stdout.log\" 2> \"$job_dir/stderr.log\" < /dev/null &\nprintf '%s\\n' \"$!\"\n"));
    let start = script.find("nohup sh -c ").unwrap() + "nohup sh -c ".len();
    let end = script.find(" > \"$job_dir/stdout.log\" 2>").unwrap();
    let worker = sh_word(&script[start..end]).unwrap();
    assert!(worker.contains("exit_code.tmp"));
    assert!(worker.contains("mv \"$HOME/.slumber/jobs/job_test/exit_code.tmp\" \"$HOME/.slumber/jobs/job_test/exit_code\""));
    let inner_end = worker.find("\nstatus=$?").unwrap();
    assert_eq!(sh_word(&worker["sh -c ".len()..inner_end]), Some(command.to_owned()));
}

#[test]
fn reads_remote_pid() {
    assert_eq!(parse_remote_pid("4242\n"), Ok(4242));
    assert_eq!(parse_remote_pid("banner\n 77 \r\n"), Ok(77));
    assert_eq!(parse_remote_pid(""), Err(RemoteError::NoPid));
    assert_eq!(parse_remote_pid("\n"), Err(RemoteError::InvalidPid));
    assert_eq!(parse_remote_pid("12\nabc\n"), Err(RemoteError::InvalidPid));
    assert_eq!(last_line_of("a\nb"), Some("b".to_owned()));
}

#[test]
fn reads_remote_exit_code() {
    assert_eq!(parse_remote_exit_code("23\n"), Ok(23));
    assert_eq!(parse_remote_exit_code("-1\n"), Ok(-1));
    assert_eq!(parse_remote_exit_code(" 137 "), Ok(137));
    assert_eq!(parse_remote_exit_code("x"), Err(RemoteError::InvalidExitCode));
    assert_eq!(parse_remote_exit_code(""), Err(RemoteError::InvalidExitCode));
    for code in [0, 7, 255, -9, i32::MIN, i32::MAX] {
        assert_eq!(parse_remote_exit_code(&format!("{code}\n")), Ok(code));
    }
}

#[test]
fn probe_checks_process_then_record() {
    assert_eq!(
        remote_probe_command("job_1", Some(4242)),
        "if kill -0 4242 2>/dev/null; then echo running; elif [ -f \"$HOME/.slumber/jobs/job_1/exit_code\" ]; then printf 'exit '; cat \"$HOME/.slumber/jobs/job_1/exit_code\" 2>/dev/null; else echo gone; fi"
    );
    assert_eq!(
        remote_probe_command("job_1", None),
        "if [ -f \"$HOME/.slumber/jobs/job_1/exit_code\" ]; then printf 'exit '; cat \"$HOME/.slumber/jobs/job_1/exit_code\" 2>/dev/null; else echo running; fi"
    );
}

#[test]
fn probe_answers() {
    assert_eq!(parse_probe_report("running\n"), Ok(ProbeReport::Running));
    assert_eq!(parse_probe_report("gone\n"), Ok(ProbeReport::Gone));
    assert_eq!(parse_probe_report("exit 7\n"), Ok(ProbeReport::Recorded(7)));
    assert_eq!(parse_probe_report("exit -1\n"), Ok(ProbeReport::Recorded(-1)));
    assert_eq!(parse_probe_report("exit \n"), Err(RemoteError::InvalidProbe));
    assert_eq!(parse_probe_report("exit x\n"), Err(RemoteError::InvalidExitCode));
    assert_eq!(parse_probe_report(""), Err(RemoteError::InvalidProbe));
}
