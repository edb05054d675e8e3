use slumber::paths::{
    is_valid_job_id, job_dir, job_file, jobs_dir, private_dir_ok, socket_path, state_dir,
    PathError,
};

#[test]
fn state_dir_from_environment() {
    assert_eq!(state_dir(Some("/srv/state"), Some("/home/u")), Ok("/srv/state".to_owned()));
    assert_eq!(state_dir(Some("state"), Some("/home/u")), Err(PathError::StateDirNotAbsolute));
    assert_eq!(state_dir(Some(""), Some("/home/u")), Err(PathError::StateDirNotAbsolute));
    assert_eq!(state_dir(None, Some("/home/u")), Ok("/home/u/.slumber".to_owned()));
    assert_eq!(state_dir(None, None), Err(PathError::HomeNotSet));
}

#[test]
fn socket_path_from_environment() {
    assert_eq!(socket_path(Some("/tmp/s.sock"), Some("/run/user/1"), None, Some("/h")), Ok("/tmp/s.sock".to_owned()));
    assert_eq!(socket_path(Some("s.sock"), None, None, Some("/h")), Err(PathError::SocketNotAbsolute));
    assert_eq!(socket_path(None, Some("/run/user/1"), None, Some("/h")), Ok("/run/user/1/slumber/slumber.sock".to_owned()));
    assert_eq!(socket_path(None, None, Some("/st"), Some("/h")), Ok("/st/slumber.sock".to_owned()));
    assert_eq!(socket_path(None, None, None, Some("/h")), Ok("/h/.slumber/slumber.sock".to_owned()));
    assert_eq!(socket_path(None, None, None, None), Err(PathError::HomeNotSet));
}

#[test]
fn job_directories() {
    assert_eq!(jobs_dir("/st"), "/st/jobs");
    assert_eq!(job_dir("/st", "job_1_2_3"), Ok("/st/jobs/job_1_2_3".to_owned()));
    assert_eq!(job_file("/st", "job_1_2_3", "meta.json"), Ok("/st/jobs/job_1_2_3/meta.json".to_owned()));
    for bad in ["", "job", "jobs_1", "job_../x", "job_a/b", "job_é", "job_1-2", "../job_1"] {
        assert_eq!(job_dir("/st", bad), Err(PathError::InvalidJobId), "{bad:?}");
        assert!(!is_valid_job_id(bad));
    }
    assert!(is_valid_job_id("job_"));
    assert!(is_valid_job_id("job_AZaz09_"));
}

#[test]
fn private_directories() {
    assert!(private_dir_ok(true, 501, 501, 0o40700));
    assert!(!private_dir_ok(true, 501, 501, 0o40750));
    assert!(!private_dir_ok(true, 0, 501, 0o40700));
    assert!(!private_dir_ok(false, 501, 501, 0o100600));
}
