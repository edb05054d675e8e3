use slumber::listing::{order_recent, recent_order, select_status_jobs, status_lines};
use slumber::records::{ExitStatusRecord, JobMeta};

fn job(id: &str, created_at: u64) -> JobMeta {
    JobMeta {
        job_id: id.to_owned(),
        command: "cmd".to_owned(),
        cwd: "/".to_owned(),
        created_at,
        started_at: None,
        finished_at: None,
        pgid: None,
        exit_status: None,
        ssh_target: None,
        resumed_at: None,
        tmux_pane_id: None,
        resume_error: None,
    }
}

fn woken(id: &str, created_at: u64) -> JobMeta {
    JobMeta { exit_status: Some(ExitStatusRecord::Exited(0)), resumed_at: Some(created_at + 1), ..job(id, created_at) }
}

#[test]
fn newest_first_and_stable() {
    let keys = vec![5u64, 9, 5, 1, 9];
    assert_eq!(recent_order(&keys), vec![1, 4, 0, 2, 3]);
    let metas = vec![job("job_a", 5), job("job_b", 9), job("job_c", 5)];
    let ordered = order_recent(&metas, usize::MAX);
    let ids: Vec<&str> = ordered.iter().map(|m| m.job_id.as_str()).collect();
    assert_eq!(ids, vec!["job_b", "job_a", "job_c"]);
    assert_eq!(order_recent(&metas, 1).len(), 1);
    assert!(order_recent(&metas, 0).is_empty());
}

#[test]
fn limit_applies_to_woken_jobs_only() {
    let metas = vec![woken("job_1", 9), job("job_2", 8), woken("job_3", 7), woken("job_4", 6), job("job_5", 1)];
    let shown: Vec<String> = select_status_jobs(&metas, 1).into_iter().map(|m| m.job_id).collect();
    assert_eq!(shown, vec!["job_1", "job_2", "job_5"]);
    let none: Vec<String> = select_status_jobs(&metas, 0).into_iter().map(|m| m.job_id).collect();
    assert_eq!(none, vec!["job_2", "job_5"]);
}

#[test]
fn status_listing_lines() {
    assert_eq!(status_lines(&Vec::new(), 5), vec!["No jobs."]);
    let mut running = job("job_run", 3);
    running.pgid = Some(77);
    let mut remote = job("job_remote", 2);
    remote.ssh_target = Some("gpu-box".to_owned());
    remote.exit_status = Some(ExitStatusRecord::Exited(7));
    let mut lost = job("job_lost", 1);
    lost.resume_error = Some("supervisor lost".to_owned());
    let mut failed = woken("job_failed", 0);
    failed.resumed_at = None;
    failed.resume_error = Some("hook failed".to_owned());
    let lines = status_lines(&vec![running, remote, lost, failed, woken("job_done", 0)], 5);
    assert_eq!(lines[0], format!("{:<30} {:<10} {:<18} {:<10} COMMAND", "JOB", "PID", "TARGET", "STATUS"));
    assert_eq!(lines[1], format!("{:<30} {:<10} {:<18} {:<10} cmd", "job_run", "77", "local", "running"));
    assert_eq!(lines[2], format!("{:<30} {:<10} {:<18} {:<10} cmd", "job_remote", "-", "gpu-box", "exit 7"));
    assert_eq!(lines[3], "  wake-up: pending (saved state; query daemon status for live activity)");
    assert_eq!(lines[4], format!("{:<30} {:<10} {:<18} {:<10} cmd", "job_lost", "-", "local", "unknown"));
    assert_eq!(lines[5], "  monitoring: STOPPED: supervisor lost");
    assert_eq!(lines[7], "  wake-up: FAILED: hook failed");
    assert_eq!(lines[9], "  wake-up: complete");
    assert_eq!(lines.len(), 10);
}

#[test]
fn long_fields_are_not_cut() {
    let long = "job_".to_owned() + &"x".repeat(40);
    let lines = status_lines(&vec![job(&long, 1)], 5);
    assert!(lines[1].starts_with(&(long + " -")));
}

#[test]
fn order_matches_a_stable_sort() {
    let keys: Vec<u64> = (0..40u64).map(|i| (i * 7919) % 11).collect();
    let mut expected: Vec<usize> = (0..keys.len()).collect();
    expected.sort_by_key(|&i| std::cmp::Reverse(keys[i]));
    assert_eq!(recent_order(&keys), expected);
}

#[test]
fn started_job_is_listed_as_running() {
    let mut started = job("job_new", 4);
    started.started_at = Some(5);
    started.pgid = Some(9);
    let lines = status_lines(&vec![woken("job_old", 1), started], 0);
    assert_eq!(lines.len(), 2);
    assert_eq!(lines[1], format!("{:<30} {:<10} {:<18} {:<10} cmd", "job_new", "9", "local", "running"));
}
