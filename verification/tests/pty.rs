use fuso::error::FusoError;
use fuso::pty::{pty_argv, pty_envp, pty_plan};

#[test]
fn argv_is_program_then_arguments() {
    let argv = pty_argv("sh".to_string(), Some(vec!["-c".to_string(), "ls".to_string()])).unwrap();
    assert_eq!(argv, vec!["sh".to_string(), "-c".to_string(), "ls".to_string()]);
    assert_eq!(pty_argv("bash".to_string(), None).unwrap(), vec!["bash".to_string()]);
}

#[test]
fn argv_with_nul_fails() {
    assert!(matches!(pty_argv("s\0h".to_string(), None), Err(FusoError::StdIo(_))));
    assert!(matches!(
        pty_argv("sh".to_string(), Some(vec!["ok".to_string(), "b\0d".to_string()])),
        Err(FusoError::StdIo(_))
    ));
}

#[test]
fn envp_entries_are_key_equals_value() {
    let env = vec![("HOME".to_string(), "/root".to_string()), ("TERM".to_string(), "xterm".to_string())];
    assert_eq!(pty_envp(env), vec!["HOME=/root".to_string(), "TERM=xterm".to_string()]);
}

#[test]
fn plan_checks_working_directory() {
    let p = pty_plan("sh".to_string(), Some("/tmp".to_string()), None, vec![]).unwrap();
    assert_eq!(p.argv, vec!["sh".to_string()]);
    assert!(p.envp.is_empty());
    assert_eq!(p.work, Some("/tmp".to_string()));
    assert!(matches!(pty_plan("sh".to_string(), Some("/t\0mp".to_string()), None, vec![]), Err(FusoError::StdIo(_))));
}
