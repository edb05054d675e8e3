use slumber::records::{AgentKind, JobSubmitRequest};
use slumber::tmux::{
    kill_pane_command, log_pane_command, pane_id_from_output, pane_size_command, pane_size_from_output,
    PaneError,
};

fn request(pane: Option<&str>, env: &[(&str, &str)], ssh: Option<&str>) -> JobSubmitRequest {
    JobSubmitRequest {
        command: "sleep 1".to_owned(),
        cwd: "/".to_owned(),
        env_vars: env.iter().map(|(k, v)| (k.to_string(), v.to_string())).collect(),
        session_id: None,
        agent_kind: AgentKind::NoResume,
        ssh_target: ssh.map(str::to_owned),
        tmux_pane_id: pane.map(str::to_owned),
    }
}

#[test]
fn log_pane_follows_both_logs() {
    let r = request(Some(""), &[("TMUX", "/tmp/fake-tmux,123,0"), ("TMUX_PANE", "%1")], None);
    let c = log_pane_command(&r, Some((200, 50)), "job_1", "/st/jobs/job_1/stdout.log", "/st/jobs/job_1/stderr.log").unwrap().unwrap();
    assert_eq!(c.tmux_env, Some("/tmp/fake-tmux,123,0".to_owned()));
    assert_eq!(
        c.args,
        vec![
            "split-window", "-h", "-d", "-P", "-F", "#{pane_id}", "-t", "%1",
            "tail -f -n 20 '/st/jobs/job_1/stdout.log' '/st/jobs/job_1/stderr.log'",
        ]
    );
}

#[test]
fn remote_log_pane_uses_ssh() {
    let r = request(Some(""), &[("TMUX", "t")], Some("gpu-box"));
    let c = log_pane_command(&r, None, "job_9", "o", "e").unwrap().unwrap();
    assert_eq!(c.args.len(), 7);
    assert_eq!(
        c.args[6],
        "ssh -t -o BatchMode=yes -o ConnectTimeout=10 'gpu-box' 'tail -f -n 20 \"$HOME/.slumber/jobs/job_9/stdout.log\" \"$HOME/.slumber/jobs/job_9/stderr.log\"'"
    );
}

#[test]
fn log_pane_only_when_asked() {
    assert_eq!(log_pane_command(&request(None, &[("TMUX", "t")], None), None, "job_1", "o", "e"), Ok(None));
    assert_eq!(log_pane_command(&request(Some("%3"), &[("TMUX", "t")], None), None, "job_1", "o", "e"), Ok(None));
    assert_eq!(log_pane_command(&request(Some(""), &[], None), None, "job_1", "o", "e"), Err(PaneError::TmuxNotSet));
}

#[test]
fn pane_ids() {
    assert_eq!(pane_id_from_output("%7\n"), Ok("%7".to_owned()));
    assert_eq!(pane_id_from_output(" \n"), Err(PaneError::NoPaneId));
}

#[test]
fn closes_the_pane() {
    let c = kill_pane_command(&request(Some("%7"), &[("TMUX", "t")], None)).unwrap();
    assert_eq!(c.args, vec!["kill-pane", "-t", "%7"]);
    assert_eq!(c.tmux_env, Some("t".to_owned()));
    assert_eq!(kill_pane_command(&request(Some("%7"), &[], None)).unwrap().tmux_env, None);
    assert_eq!(kill_pane_command(&request(Some(""), &[], None)), None);
    assert_eq!(kill_pane_command(&request(None, &[], None)), None);
}

#[test]
fn tall_pane_splits_top_bottom() {
    let r = request(Some(""), &[("TMUX", "t"), ("TMUX_PANE", "%1")], None);
    let tall = log_pane_command(&r, Some((80, 120)), "job_1", "o", "e").unwrap().unwrap();
    assert_eq!(tall.args[1], "-v");
    let wide = log_pane_command(&r, Some((120, 80)), "job_1", "o", "e").unwrap().unwrap();
    assert_eq!(wide.args[1], "-h");
    let square = log_pane_command(&r, Some((80, 80)), "job_1", "o", "e").unwrap().unwrap();
    assert_eq!(square.args[1], "-h");
    let unknown = log_pane_command(&r, None, "job_1", "o", "e").unwrap().unwrap();
    assert_eq!(unknown.args[1], "-h");
}

#[test]
fn asks_for_the_pane_size() {
    let r = request(Some(""), &[("TMUX", "t"), ("TMUX_PANE", "%1")], None);
    let c = pane_size_command(&r).unwrap();
    assert_eq!(c.args, vec!["display-message", "-p", "-t", "%1", "#{pane_width} #{pane_height}"]);
    assert_eq!(c.tmux_env, Some("t".to_owned()));
    let active = pane_size_command(&request(Some(""), &[("TMUX", "t")], None)).unwrap();
    assert_eq!(active.args, vec!["display-message", "-p", "#{pane_width} #{pane_height}"]);
    assert_eq!(pane_size_command(&request(Some(""), &[], None)), None);
    assert_eq!(pane_size_command(&request(None, &[("TMUX", "t")], None)), None);
}

#[test]
fn reads_the_pane_size() {
    assert_eq!(pane_size_from_output("212 53\n"), Some((212, 53)));
    assert_eq!(pane_size_from_output("80 x"), None);
    assert_eq!(pane_size_from_output("80"), None);
    assert_eq!(pane_size_from_output(""), None);
}
