use arcana::hitl::config::HitlConfig;
use arcana::hitl::diff_review::{
    compute_correction, compute_diff, correction_to_context_message, format_diff, is_empty_diff,
    DiffReviewError,
};
use arcana::hitl::session::{
    apply_session_update, detect_crashed, index_path, new_session_id, new_session_meta,
    prune_sessions, remove_session, sessions_dir, start_session, update_session_index, SessionError,
};
use arcana::hitl::types::{SessionMeta, SessionStatus};

fn meta(id: &str, status: SessionStatus) -> SessionMeta {
    let mut m = new_session_meta(id, "m", "t0");
    m.status = status;
    m
}

fn ids(v: &[SessionMeta]) -> Vec<String> {
    v.iter().map(|m| m.id.clone()).collect()
}

#[test]
fn compute_diff_marks_changed_lines() {
    let h = compute_diff("f.txt", "a\nb\nc", "a\nB\nc\nd");
    assert_eq!(h.file, "f.txt");
    assert_eq!(h.old_content, "a\nb\nc");
    assert_eq!(h.new_content, "a\nB\nc\nd");
    assert_eq!(h.unified_diff, " a\n-b\n+B\n c\n+d");
}

#[test]
fn compute_diff_skips_empty_sides() {
    let h = compute_diff("f", "x\n\ny", "x\nz");
    assert_eq!(h.unified_diff, " x\n-\n+z\n-y");
    let h = compute_diff("f", "a\n\nb", "a\nx\nb");
    assert_eq!(h.unified_diff, " a\n-\n+x\n b");
    let old_side: Vec<&str> = h.unified_diff.lines().filter(|l| !l.starts_with('+')).map(|l| &l[1..]).collect();
    assert_eq!(old_side, vec!["a", "", "b"]);
    let new_side: Vec<&str> = h.unified_diff.lines().filter(|l| !l.starts_with('-')).map(|l| &l[1..]).collect();
    assert_eq!(new_side, vec!["a", "x", "b"]);
}

#[test]
fn self_diff_is_all_context() {
    let h = compute_diff("f", "one\ntwo", "one\ntwo");
    assert_eq!(h.unified_diff, " one\n two");
    assert!(h.unified_diff.lines().all(|l| l.starts_with(' ')));
    assert!(is_empty_diff("same", "same"));
    assert!(!is_empty_diff("same", "other"));
}

#[test]
fn format_diff_truncates() {
    let h = compute_diff("f.rs", "1\n2\n3", "1\n2\n3");
    assert_eq!(format_diff(&h, 5), "--- f.rs\n+++ f.rs (proposed)\n 1\n 2\n 3");
    assert_eq!(
        format_diff(&h, 2),
        "--- f.rs\n+++ f.rs (proposed)\n 1\n 2\n... (1 more lines, Ctrl+O to expand)"
    );
    assert_eq!(format_diff(&h, 0), "--- f.rs\n+++ f.rs (proposed)\n\n... (3 more lines, Ctrl+O to expand)");
}

#[test]
fn correction_only_when_changed() {
    assert!(compute_correction("f", "same", "same").is_none());
    let c = compute_correction("f", "old", "new").unwrap();
    assert_eq!(c.file, "f");
    assert_eq!(c.llm_version, "old");
    assert_eq!(c.human_version, "new");
    assert_eq!(c.diff, "-old\n+new");
    assert_eq!(
        correction_to_context_message(&c),
        "User modified your proposed change to f:\n--- Your version\n+++ User's version\n-old\n+new"
    );
}

#[test]
fn diff_review_error_variants() {
    let e = DiffReviewError::EditorFailed(3);
    assert!(matches!(e, DiffReviewError::EditorFailed(3)));
    let e = DiffReviewError::Io(std::io::Error::new(std::io::ErrorKind::Other, "x"));
    assert!(matches!(e, DiffReviewError::Io(_)));
}

#[test]
fn session_paths() {
    assert_eq!(sessions_dir("/p"), "/p/.arcana/sessions");
    assert_eq!(index_path("/p/"), "/p/.arcana/sessions/index.json");
}

#[test]
fn new_session_ids_are_prefixed_uuid_heads() {
    let a = new_session_id();
    let b = new_session_id();
    assert_eq!(a.len(), 13);
    assert!(a.starts_with("sess-"));
    assert!(a[5..].chars().all(|c| c.is_ascii_hexdigit() || c == '-'));
    assert_ne!(a, b);
}

#[test]
fn start_session_builds_fresh_entry() {
    let m = start_session("deepseek");
    assert!(m.id.starts_with("sess-"));
    assert_eq!(m.name, "Untitled session");
    assert_eq!(m.status, SessionStatus::Active);
    assert_eq!(m.created_at, m.last_active);
    assert!(!m.created_at.is_empty());
    assert_eq!(m.turn_count, 0);
    assert_eq!(m.model, "deepseek");
}

#[test]
fn apply_update_changes_first_match() {
    let mut index = vec![meta("a", SessionStatus::Active), meta("b", SessionStatus::Active), meta("a", SessionStatus::Frozen)];
    let r = apply_session_update(&mut index, "a", Some("named"), Some(SessionStatus::Completed), Some(7), "t1").unwrap();
    assert_eq!(r.name, "named");
    assert_eq!(r.status, SessionStatus::Completed);
    assert_eq!(r.turn_count, 7);
    assert_eq!(r.last_active, "t1");
    assert_eq!(r.created_at, "t0");
    assert_eq!(index[0].name, "named");
    assert_eq!(index[2].status, SessionStatus::Frozen);
    let r = apply_session_update(&mut index, "b", None, None, None, "t2").unwrap();
    assert_eq!(r.name, "Untitled session");
    assert_eq!(r.last_active, "t2");
}

#[test]
fn update_of_unknown_session_is_not_found() {
    let mut index = vec![meta("a", SessionStatus::Active)];
    match apply_session_update(&mut index, "zz", Some("n"), None, None, "t") {
        Err(SessionError::NotFound(id)) => assert_eq!(id, "zz"),
        other => panic!("unexpected {other:?}"),
    }
    assert_eq!(index[0].name, "Untitled session");
    match update_session_index(&mut index, "zz", None, None, None) {
        Err(SessionError::NotFound(id)) => assert_eq!(id, "zz"),
        other => panic!("unexpected {other:?}"),
    }
    let r = update_session_index(&mut index, "a", None, Some(SessionStatus::Frozen), None).unwrap();
    assert_eq!(r.status, SessionStatus::Frozen);
    assert_ne!(r.last_active, "t0");
}

#[test]
fn session_error_variants() {
    let e = SessionError::Io(std::io::Error::new(std::io::ErrorKind::NotFound, "x"));
    assert!(matches!(e, SessionError::Io(_)));
    let e = SessionError::Serde(serde_json::from_str::<u8>("x").unwrap_err());
    assert!(matches!(e, SessionError::Serde(_)));
}

#[test]
fn remove_session_drops_all_matches() {
    let mut index = vec![meta("a", SessionStatus::Active), meta("b", SessionStatus::Active), meta("a", SessionStatus::Completed)];
    remove_session(&mut index, "a");
    assert_eq!(ids(&index), vec!["b"]);
    remove_session(&mut index, "q");
    assert_eq!(ids(&index), vec!["b"]);
}

#[test]
fn prune_removes_oldest_completed() {
    let mut index = vec![
        meta("c1", SessionStatus::Completed),
        meta("a1", SessionStatus::Active),
        meta("c2", SessionStatus::Completed),
        meta("c3", SessionStatus::Completed),
        meta("f1", SessionStatus::Frozen),
    ];
    let pruned = prune_sessions(&mut index, 1);
    assert_eq!(pruned, vec!["c1", "c2"]);
    assert_eq!(ids(&index), vec!["a1", "c3", "f1"]);
    let completed = index.iter().filter(|m| m.status == SessionStatus::Completed).count();
    assert!(completed <= 1);
    let pruned = prune_sessions(&mut index, 5);
    assert!(pruned.is_empty());
    assert_eq!(ids(&index), vec!["a1", "c3", "f1"]);
}

#[test]
fn detect_crashed_reports_locked_inactive_sessions() {
    let index = vec![
        meta("a", SessionStatus::Active),
        meta("b", SessionStatus::Completed),
        meta("c", SessionStatus::Frozen),
        meta("d", SessionStatus::Crashed),
    ];
    let crashed = detect_crashed(&index, &vec![true, false, true, true]);
    assert_eq!(ids(&crashed), vec!["c", "d"]);
}

#[test]
fn hitl_config_defaults() {
    let c = HitlConfig::default();
    assert_eq!(c.editor.command, "nvim");
    assert!(c.editor.diff_command.is_none());
    assert!(c.editor.wait_for_close);
    assert_eq!(c.diff.max_lines, 20);
    assert!(c.diff.auto_accept_empty);
    assert_eq!(c.approval.default_timeout_secs, 0);
    assert!(c.approval.session_accept_warning);
    assert_eq!(c.session.max_sessions_kept, 50);
    assert!(c.session.auto_name);
    assert!(c.session.crash_recovery_prompt);
    assert!(c.freeze.auto_freeze_on_disconnect);
    assert!(c.freeze.checkpoint_conversation);
}
