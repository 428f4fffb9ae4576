use daemon_rendezvous::detach::{
    after_fork, after_session, daemon_argv, daemon_flag, is_daemon_mode, DetachOutcome, ForkSide,
};

#[test]
fn daemon_flag_text() {
    assert_eq!(daemon_flag(), "--for-real".to_string());
}

#[test]
fn mode_selection() {
    let prog = "/usr/bin/app".to_string();
    assert!(is_daemon_mode(&vec![prog.clone(), "--for-real".to_string()]));
    assert!(!is_daemon_mode(&vec![prog.clone()]));
    assert!(!is_daemon_mode(&vec![]));
    assert!(!is_daemon_mode(&vec![prog.clone(), "--for-fun".to_string()]));
    assert!(!is_daemon_mode(&vec!["--for-real".to_string()]));
}

#[test]
fn reexec_arguments() {
    let exe = "/opt/app/bin/app".to_string();
    assert_eq!(daemon_argv(&exe), vec![exe.clone(), "--for-real".to_string()]);
}

#[test]
fn fork_sides() {
    assert_eq!(after_fork(ForkSide::Parent), Some(DetachOutcome::Launched));
    assert_eq!(after_fork(ForkSide::Failed), Some(DetachOutcome::ForkFailed));
    assert_eq!(after_fork(ForkSide::Child), None);
}

#[test]
fn session_then_reexec() {
    let exe = "/opt/app/bin/app".to_string();
    assert_eq!(after_session(false, &exe), Err(DetachOutcome::SessionFailed));
    assert_eq!(after_session(true, &exe), Ok(vec![exe.clone(), "--for-real".to_string()]));
}
