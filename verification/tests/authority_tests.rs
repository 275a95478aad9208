use arcana::authority::command::{
    is_confirmation, parse_command, recovery_action, ArgError, Command, RecoveryAction, RecoveryArgs,
};
use arcana::authority::log::{format_log_entry, RecordLogEntry};

fn args(v: &[&str]) -> Vec<String> {
    v.iter().map(|s| s.to_string()).collect()
}

fn entry(seq: u64, op: &str, dst: Option<&str>, is_head: bool) -> RecordLogEntry {
    RecordLogEntry {
        seq,
        op: op.to_string(),
        path: "src/a.rs".to_string(),
        dst: dst.map(|d| d.to_string()),
        ts: "2024-01-01T00:00:00Z".to_string(),
        is_head,
    }
}

#[test]
fn log_entries_are_formatted() {
    assert_eq!(
        format_log_entry(&entry(42, "write", None, true)),
        "* 000042 (HEAD) write src/a.rs [2024-01-01T00:00:00Z]"
    );
    assert_eq!(
        format_log_entry(&entry(7, "rename", Some("src/b.rs"), false)),
        "* 000007 rename src/a.rs -> src/b.rs [2024-01-01T00:00:00Z]"
    );
    assert_eq!(
        format_log_entry(&entry(1234567, "delete", Some("ignored"), false)),
        "* 1234567 delete src/a.rs [2024-01-01T00:00:00Z]"
    );
}

#[test]
fn commands_are_recognised() {
    assert!(matches!(parse_command(&args(&["aar", "auth", "instruction"])), Ok(Command::AuthInstruction)));
    match parse_command(&args(&["aar", "auth", "prompt", "/root"])) {
        Ok(Command::AuthPrompt { root }) => assert_eq!(root, Some("/root".to_string())),
        other => panic!("unexpected {other:?}"),
    }
    match parse_command(&args(&["aar", "auth", "prompt"])) {
        Ok(Command::AuthPrompt { root }) => assert_eq!(root, None),
        other => panic!("unexpected {other:?}"),
    }
    match parse_command(&args(&["aar", "/proj"])) {
        Ok(Command::Serve { root }) => assert_eq!(root, Some("/proj".to_string())),
        other => panic!("unexpected {other:?}"),
    }
    match parse_command(&args(&["aar"])) {
        Ok(Command::Serve { root }) => assert_eq!(root, None),
        other => panic!("unexpected {other:?}"),
    }
    match parse_command(&args(&["aar", "recovery"])) {
        Ok(Command::Serve { root }) => assert_eq!(root, Some("recovery".to_string())),
        other => panic!("unexpected {other:?}"),
    }
}

#[test]
fn recovery_options_are_parsed() {
    match parse_command(&args(&["aar", "recovery", "/p", "--to-sequence", "+12", "-y"])) {
        Ok(Command::Recovery(RecoveryArgs { root, list, to_seq, confirmed })) => {
            assert_eq!(root, Some("/p".to_string()));
            assert!(!list);
            assert_eq!(to_seq, Some(12));
            assert!(confirmed);
        }
        other => panic!("unexpected {other:?}"),
    }
    match parse_command(&args(&["aar", "recovery", "--list"])) {
        Ok(Command::Recovery(ra)) => {
            assert!(ra.list);
            assert_eq!(ra.root, None);
            assert_eq!(recovery_action(&ra), RecoveryAction::ListLog);
        }
        other => panic!("unexpected {other:?}"),
    }
}

#[test]
fn recovery_option_errors() {
    assert!(matches!(
        parse_command(&args(&["aar", "recovery", "--to-sequence"])),
        Err(ArgError::MissingSequence)
    ));
    match parse_command(&args(&["aar", "recovery", "--to-sequence", "12x"])) {
        Err(ArgError::InvalidSequence(msg)) => assert_eq!(msg, "invalid digit found in string"),
        other => panic!("unexpected {other:?}"),
    }
    assert!(matches!(
        parse_command(&args(&["aar", "recovery", "--to-sequence", "18446744073709551616"])),
        Err(ArgError::InvalidSequence(_))
    ));
    match parse_command(&args(&["aar", "recovery", "--force"])) {
        Err(ArgError::UnknownOption(o)) => assert_eq!(o, "--force"),
        other => panic!("unexpected {other:?}"),
    }
    match parse_command(&args(&["aar", "recovery", "/a", "/b"])) {
        Err(ArgError::UnexpectedArgument(o)) => assert_eq!(o, "/b"),
        other => panic!("unexpected {other:?}"),
    }
}

#[test]
fn recovery_actions() {
    let ra = RecoveryArgs { root: None, list: false, to_seq: None, confirmed: true };
    assert_eq!(recovery_action(&ra), RecoveryAction::MissingTarget);
    let ra = RecoveryArgs { root: None, list: false, to_seq: Some(3), confirmed: false };
    assert_eq!(recovery_action(&ra), RecoveryAction::Recover { to_seq: 3, ask_first: true });
    let ra = RecoveryArgs { root: None, list: true, to_seq: Some(3), confirmed: true };
    assert_eq!(recovery_action(&ra), RecoveryAction::ListLog);
}

#[test]
fn confirmation_answers() {
    for yes in ["y", "Y", "yes", " YeS \n", "\tyES"] {
        assert!(is_confirmation(yes), "{yes:?}");
    }
    for no in ["", "n", "no", "ye", "yess", "y es", "yes please"] {
        assert!(!is_confirmation(no), "{no:?}");
    }
}
