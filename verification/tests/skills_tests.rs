use arcana::skills::daemon::{skill_to_triggered, SemanticMatch, SkillDaemon};
use arcana::skills::manifest::{
    ManifestError, RawContext, RawHooks, RawManifest, RawPermissions, RawSkill, RawTriggers, Skill,
};
use arcana::skills::types::{DaemonRequest, EventType, SkillMode, SkillPool};

fn raw(name: &str, priority: i32, events: &[&str], patterns: &[&str]) -> RawManifest {
    RawManifest {
        skill: RawSkill {
            name: name.to_string(),
            description: None,
            enabled: None,
            priority: Some(priority),
            mode: Some("action".to_string()),
        },
        context: None,
        triggers: Some(RawTriggers {
            on_events: Some(events.iter().map(|s| s.to_string()).collect()),
            file_patterns: Some(patterns.iter().map(|s| s.to_string()).collect()),
            descriptions: None,
        }),
        hooks: None,
        permissions: None,
    }
}

fn skill(name: &str, priority: i32, events: &[&str], patterns: &[&str]) -> Skill {
    Skill::from_raw(raw(name, priority, events, patterns), "/skills/x", SkillPool::User)
}

fn names(r: &arcana::skills::types::DaemonResponse) -> Vec<String> {
    r.triggered.iter().map(|t| t.skill.clone()).collect()
}

#[test]
fn manifest_defaults_fill_missing_sections() {
    let m = RawManifest {
        skill: RawSkill { name: "lint".to_string(), description: None, enabled: None, priority: None, mode: None },
        context: None,
        triggers: None,
        hooks: None,
        permissions: None,
    };
    let s = Skill::from_raw(m, "/home/u/.arcana/skills/user/lint", SkillPool::User);
    assert_eq!(s.name, "lint");
    assert_eq!(s.description, "");
    assert!(s.enabled);
    assert_eq!(s.priority, 0);
    assert_eq!(s.mode, SkillMode::Hybrid);
    assert_eq!(s.pool, SkillPool::User);
    assert_eq!(s.dir, "/home/u/.arcana/skills/user/lint");
    assert_eq!(s.context.prompt_file, None);
    assert!(s.context.memory_access);
    assert!(!s.context.memory_write);
    assert!(s.triggers.on_events.is_empty());
    assert!(s.hooks.pre.is_empty());
    assert!(s.hooks.inject_output);
    assert!(s.permissions.exec_commands.is_empty());
}

#[test]
fn manifest_values_are_kept() {
    let m = RawManifest {
        skill: RawSkill {
            name: "doc".to_string(),
            description: Some("docs".to_string()),
            enabled: Some(false),
            priority: Some(-3),
            mode: Some("context".to_string()),
        },
        context: Some(RawContext {
            prompt_file: Some("prompt.md".to_string()),
            memory_access: Some(false),
            memory_write: Some(true),
        }),
        triggers: Some(RawTriggers {
            on_events: Some(vec!["pre-write".to_string()]),
            file_patterns: None,
            descriptions: Some(vec!["write docs".to_string()]),
        }),
        hooks: Some(RawHooks { pre: Some(vec!["fmt".to_string()]), post: None, inject_output: Some(false) }),
        permissions: Some(RawPermissions {
            read_paths: Some(vec!["docs/".to_string()]),
            write_paths: None,
            exec_commands: Some(vec!["mdbook".to_string()]),
        }),
    };
    let s = Skill::from_raw(m, "/p/.arcana/skills/doc", SkillPool::Project);
    assert_eq!(s.description, "docs");
    assert!(!s.enabled);
    assert_eq!(s.priority, -3);
    assert_eq!(s.mode, SkillMode::Context);
    assert_eq!(s.context.prompt_file, Some("/p/.arcana/skills/doc/prompt.md".to_string()));
    assert!(!s.context.memory_access);
    assert!(s.context.memory_write);
    assert_eq!(s.triggers.on_events, vec!["pre-write"]);
    assert_eq!(s.triggers.descriptions, vec!["write docs"]);
    assert_eq!(s.hooks.pre, vec!["fmt"]);
    assert!(!s.hooks.inject_output);
    assert_eq!(s.permissions.read_paths, vec!["docs/"]);
    assert_eq!(s.permissions.exec_commands, vec!["mdbook"]);
    let unknown = Skill::from_raw(raw("u", 0, &[], &[]), "/d", SkillPool::System);
    assert_eq!(unknown.mode, SkillMode::Action);
}

#[test]
fn manifest_error_variants() {
    assert!(matches!(ManifestError::Missing("/d".to_string()), ManifestError::Missing(_)));
    assert!(matches!(ManifestError::Toml("bad".to_string()), ManifestError::Toml(_)));
    let e = ManifestError::Io(std::io::Error::new(std::io::ErrorKind::Other, "x"));
    assert!(matches!(e, ManifestError::Io(_)));
}

#[test]
fn event_names_round_trip() {
    let all = [
        EventType::PreWrite,
        EventType::PostWrite,
        EventType::PreExec,
        EventType::PostExec,
        EventType::PreCommit,
        EventType::SessionStart,
        EventType::SessionEnd,
    ];
    for e in all.iter() {
        let back = EventType::from_str(e.as_str()).unwrap();
        assert_eq!(back.as_str(), e.as_str());
    }
    assert_eq!(EventType::PreCommit.as_str(), "pre-commit");
    assert!(EventType::from_str("Pre-Write").is_none());
    assert!(EventType::from_str("pre-write ").is_none());
}

#[test]
fn rules_need_both_event_and_file_when_both_given() {
    let d = SkillDaemon::with_skills(vec![
        skill("both", 1, &["pre-write"], &["src/**/*.rs"]),
        skill("event", 1, &["pre-write"], &[]),
        skill("files", 1, &[], &["*.md"]),
        skill("none", 1, &[], &[]),
    ]);
    let rs = vec!["src/a/b.rs".to_string()];
    let md = vec!["README.md".to_string()];
    assert!(d.matches_rules(&d.skills()[0], "pre-write", &rs));
    assert!(!d.matches_rules(&d.skills()[0], "pre-write", &md));
    assert!(!d.matches_rules(&d.skills()[0], "post-write", &rs));
    assert!(d.matches_rules(&d.skills()[1], "pre-write", &md));
    assert!(!d.matches_rules(&d.skills()[1], "pre-exec", &md));
    assert!(d.matches_rules(&d.skills()[2], "anything", &md));
    assert!(!d.matches_rules(&d.skills()[2], "anything", &rs));
    assert!(!d.matches_rules(&d.skills()[3], "pre-write", &rs));
}

#[test]
fn evaluate_orders_by_priority_and_skips_duplicates() {
    let d = SkillDaemon::with_skills(vec![
        skill("low", 1, &["pre-write"], &[]),
        skill("high", 9, &["pre-write"], &[]),
        skill("sem", 5, &["never"], &[]),
        skill("mid", 5, &["pre-write"], &[]),
    ]);
    let files = vec!["a.rs".to_string()];
    let hits = vec![
        SemanticMatch { skill_name: "low".to_string(), reason: "semantic match (0.50): x".to_string() },
        SemanticMatch { skill_name: "sem".to_string(), reason: "semantic match (0.40): y".to_string() },
        SemanticMatch { skill_name: "ghost".to_string(), reason: "z".to_string() },
    ];
    let r = d.evaluate("pre-write", &files, Some(&hits));
    assert_eq!(names(&r), vec!["high", "mid", "sem", "low"]);
    let low = r.triggered.iter().find(|t| t.skill == "low").unwrap();
    assert_eq!(low.reason, "rule match: event=pre-write, files=[\"a.rs\"]");
    let sem = r.triggered.iter().find(|t| t.skill == "sem").unwrap();
    assert_eq!(sem.reason, "semantic match (0.40): y");
    assert_eq!(sem.mode, SkillMode::Action);
    let r = d.evaluate("post-write", &files, None);
    assert!(r.triggered.is_empty());
}

#[test]
fn query_and_handle() {
    let d = SkillDaemon::with_skills(vec![skill("a", 1, &[], &[]), skill("b", 2, &[], &[])]);
    let hits = vec![
        SemanticMatch { skill_name: "b".to_string(), reason: "r1".to_string() },
        SemanticMatch { skill_name: "zz".to_string(), reason: "r2".to_string() },
        SemanticMatch { skill_name: "a".to_string(), reason: "r3".to_string() },
    ];
    let r = d.query(&hits);
    assert_eq!(names(&r), vec!["b", "a"]);
    assert_eq!(r.triggered[1].reason, "r3");
    let req = DaemonRequest::Query { prompt: "p".to_string(), top_k: 3 };
    assert_eq!(names(&d.handle(&req, Some(&hits))), vec!["b", "a"]);
    assert!(d.handle(&req, None).triggered.is_empty());
    assert!(d.handle(&DaemonRequest::Reload, Some(&hits)).triggered.is_empty());
    let reg = DaemonRequest::Register { path: "/x".to_string() };
    assert!(d.handle(&reg, None).triggered.is_empty());
    let ev = DaemonRequest::Evaluate { prompt: "p".to_string(), event: "e".to_string(), files: vec![] };
    assert_eq!(names(&d.handle(&ev, Some(&hits))), vec!["b", "a"]);
}

#[test]
fn skill_to_triggered_copies_fields() {
    let mut s = skill("s", 4, &[], &[]);
    s.hooks.pre = vec!["p".to_string()];
    s.hooks.post = vec!["q".to_string()];
    s.context.prompt_file = Some("/d/prompt.md".to_string());
    let t = skill_to_triggered(&s, "why");
    assert_eq!(t.skill, "s");
    assert_eq!(t.reason, "why");
    assert_eq!(t.priority, 4);
    assert_eq!(t.pre_hooks, vec!["p"]);
    assert_eq!(t.post_hooks, vec!["q"]);
    assert_eq!(t.prompt_file, Some("/d/prompt.md".to_string()));
    assert!(t.inject_output);
}

#[test]
fn discovery_keeps_enabled_skills_by_priority() {
    let mut off = skill("off", 50, &[], &[]);
    off.enabled = false;
    let found = vec![
        skill("a", 1, &[], &[]),
        off,
        skill("b", 7, &[], &[]),
        skill("c", 1, &[], &[]),
        skill("d", 7, &[], &[]),
    ];
    let kept = arcana::skills::priority::select_discovered(found);
    let names: Vec<String> = kept.iter().map(|s| s.name.clone()).collect();
    assert_eq!(names, vec!["b", "d", "a", "c"]);
}
