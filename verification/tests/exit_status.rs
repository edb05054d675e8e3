use slumber::exit::{exit_status_text, signal_name, status_record, status_record_from_code};
use slumber::records::ExitStatusRecord;

#[test]
fn records_shell_signal_exit() {
    // `sh -c "exit 137"` ends with code 137 and no signal.
    assert_eq!(
        status_record(None, Some(137)),
        ExitStatusRecord::Signaled(9, "SIGKILL (Potential OOM)".to_owned())
    );
}

#[test]
fn codes_in_signal_range_become_signals() {
    assert_eq!(
        status_record_from_code(130),
        ExitStatusRecord::Signaled(2, "SIGINT (Interrupted)".to_owned())
    );
    assert_eq!(
        status_record_from_code(192),
        ExitStatusRecord::Signaled(64, "UNKNOWN_SIGNAL".to_owned())
    );
    assert_eq!(status_record_from_code(128), ExitStatusRecord::Exited(128));
    assert_eq!(status_record_from_code(193), ExitStatusRecord::Exited(193));
    assert_eq!(status_record_from_code(-1), ExitStatusRecord::Exited(-1));
    assert_eq!(status_record_from_code(0), ExitStatusRecord::Exited(0));
}

#[test]
fn signal_and_missing_code_are_recorded() {
    assert_eq!(
        status_record(Some(15), Some(3)),
        ExitStatusRecord::Signaled(15, "SIGTERM (Terminated)".to_owned())
    );
    assert_eq!(status_record(None, None), ExitStatusRecord::Exited(1));
}

#[test]
fn signal_names() {
    assert_eq!(signal_name(2), "SIGINT (Interrupted)");
    assert_eq!(signal_name(9), "SIGKILL (Potential OOM)");
    assert_eq!(signal_name(11), "SIGSEGV (Segmentation Fault)");
    assert_eq!(signal_name(15), "SIGTERM (Terminated)");
    assert_eq!(signal_name(1), "UNKNOWN_SIGNAL");
}

#[test]
fn exit_status_texts() {
    assert_eq!(exit_status_text(&ExitStatusRecord::Exited(7)), "exit 7");
    assert_eq!(exit_status_text(&ExitStatusRecord::Exited(-3)), "exit -3");
    assert_eq!(
        exit_status_text(&ExitStatusRecord::Signaled(9, "SIGKILL (Potential OOM)".to_owned())),
        "137 (signal 9: SIGKILL (Potential OOM))"
    );
    assert_eq!(
        exit_status_text(&ExitStatusRecord::FailedToStart("no such file".to_owned())),
        "failed to start: no such file"
    );
}

#[test]
fn status_text_shows_the_shell_code() {
    for code in [0, 1, 23, 128, 129, 137, 192, 193, 255, -5] {
        let text = exit_status_text(&status_record_from_code(code));
        if (129..=192).contains(&code) {
            assert!(text.starts_with(&code.to_string()));
        } else {
            assert_eq!(text, format!("exit {code}"));
        }
    }
}
