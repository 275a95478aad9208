use arcana::agents::checkpoint::{
    agent_checkpoint_path, checkpoint_ids, checkpoints_dir, orchestrator_state_path, CheckpointError,
};
use arcana::agents::orchestrator::{Orchestrator, OrchestratorError};
use arcana::agents::types::{
    AgentScope, AgentStatus, OrchestratorRequest, OrchestratorResponse, SpawnRequest,
};

fn request(task: &str, max_turns: usize) -> SpawnRequest {
    SpawnRequest {
        task: task.to_string(),
        context: format!("ctx of {task}"),
        scope: AgentScope {
            read_paths: vec!["src/".to_string()],
            write_paths: vec!["src/lib.rs".to_string()],
            exec_commands: vec![],
        },
        model: None,
        max_turns,
    }
}

fn statuses(o: &Orchestrator) -> Vec<(String, AgentStatus)> {
    match o.status() {
        OrchestratorResponse::Status { agents } => agents.iter().map(|a| (a.id.clone(), a.status)).collect(),
        other => panic!("unexpected {other:?}"),
    }
}

#[test]
fn checkpoint_paths() {
    assert_eq!(checkpoints_dir("/p"), "/p/.arcana/checkpoints");
    assert_eq!(agent_checkpoint_path("/p", "subagent-1"), "/p/.arcana/checkpoints/subagent-1.json");
    assert_eq!(orchestrator_state_path("/p"), "/p/.arcana/checkpoints/orchestrator_state.json");
}

#[test]
fn checkpoint_ids_lists_agent_files() {
    let names = vec![
        "subagent-a.json".to_string(),
        "orchestrator_state.json".to_string(),
        "notes.txt".to_string(),
        "b.json".to_string(),
    ];
    assert_eq!(checkpoint_ids(&names), vec!["subagent-a", "b"]);
}

#[test]
fn checkpoint_error_variants() {
    let e = CheckpointError::Io(std::io::Error::new(std::io::ErrorKind::Other, "x"));
    assert!(matches!(e, CheckpointError::Io(_)));
    let e = CheckpointError::Serde(serde_json::from_str::<u8>("[").unwrap_err());
    assert!(matches!(e, CheckpointError::Serde(_)));
}

#[test]
fn spawn_collect_and_status() {
    let mut o = Orchestrator::new("/proj");
    assert_eq!(o.project_dir(), "/proj");
    match o.spawn_with(request("fix", 10), "subagent-aaaa0001".to_string(), 5) {
        OrchestratorResponse::Spawned { id, status } => {
            assert_eq!(id, "subagent-aaaa0001");
            assert_eq!(status, AgentStatus::Running);
        }
        other => panic!("unexpected {other:?}"),
    }
    match o.collect("subagent-aaaa0001").unwrap() {
        OrchestratorResponse::Collected { id, output, files_modified, status } => {
            assert_eq!(id, "subagent-aaaa0001");
            assert_eq!(output, "ctx of fix");
            assert!(files_modified.is_empty());
            assert_eq!(status, AgentStatus::Running);
        }
        other => panic!("unexpected {other:?}"),
    }
    match o.collect("nope") {
        Err(OrchestratorError::NotFound(id)) => assert_eq!(id, "nope"),
        other => panic!("unexpected {other:?}"),
    }
    match o.spawn(request("other", 3)) {
        OrchestratorResponse::Spawned { id, .. } => {
            assert_eq!(id.len(), 17);
            assert!(id.starts_with("subagent-"));
        }
        other => panic!("unexpected {other:?}"),
    }
    assert_eq!(statuses(&o).len(), 2);
}

#[test]
fn freeze_then_unfreeze_restores_running() {
    let mut o = Orchestrator::new("/proj");
    o.spawn_with(request("t", 10), "a".to_string(), 1);
    let cp = o.freeze_at("a", 99).unwrap();
    assert_eq!(cp.agent_id, "a");
    assert_eq!(cp.status, AgentStatus::Frozen);
    assert_eq!(cp.task, "t");
    assert_eq!(cp.context_snapshot, "ctx of t");
    assert_eq!(cp.scope.write_paths, vec!["src/lib.rs"]);
    assert_eq!(cp.max_turns, 10);
    assert!(cp.active_skills.is_empty());
    assert_eq!(cp.frozen_at, 99);
    assert_eq!(statuses(&o), vec![("a".to_string(), AgentStatus::Frozen)]);
    match o.freeze_at("a", 100) {
        Err(OrchestratorError::BadState(id, st)) => {
            assert_eq!(id, "a");
            assert_eq!(st, AgentStatus::Frozen);
        }
        other => panic!("unexpected {other:?}"),
    }
    o.unfreeze("a", Some("new ctx".to_string())).unwrap();
    assert_eq!(statuses(&o), vec![("a".to_string(), AgentStatus::Running)]);
    match o.collect("a").unwrap() {
        OrchestratorResponse::Collected { output, .. } => assert_eq!(output, "new ctx"),
        other => panic!("unexpected {other:?}"),
    }
    match o.unfreeze("a", None) {
        Err(OrchestratorError::BadState(_, st)) => assert_eq!(st, AgentStatus::Running),
        other => panic!("unexpected {other:?}"),
    }
    assert!(matches!(o.unfreeze("zz", None), Err(OrchestratorError::NotFound(_))));
    assert!(o.freeze("a").is_ok());
}

#[test]
fn record_turn_stalls_after_budget_or_idle_turns() {
    let mut o = Orchestrator::new("/p");
    o.spawn_with(request("budget", 2), "b".to_string(), 0);
    let files = vec!["x.rs".to_string(), "y.rs".to_string()];
    assert_eq!(o.record_turn("b", &files).unwrap(), None);
    assert_eq!(o.record_turn("b", &vec!["x.rs".to_string()]).unwrap(), Some(AgentStatus::Stalled));
    match o.collect("b").unwrap() {
        OrchestratorResponse::Collected { files_modified, status, .. } => {
            assert_eq!(files_modified, vec!["x.rs", "y.rs"]);
            assert_eq!(status, AgentStatus::Stalled);
        }
        other => panic!("unexpected {other:?}"),
    }
    o.spawn_with(request("idle", 100), "i".to_string(), 0);
    for _ in 0..4 {
        assert_eq!(o.record_turn("i", &vec![]).unwrap(), None);
    }
    assert_eq!(o.record_turn("i", &vec![]).unwrap(), Some(AgentStatus::Stalled));
    assert!(matches!(o.record_turn("nope", &vec![]), Err(OrchestratorError::NotFound(_))));
}

#[test]
fn mark_completed_and_kill() {
    let mut o = Orchestrator::new("/p");
    o.spawn_with(request("t", 5), "a".to_string(), 0);
    o.spawn_with(request("u", 5), "b".to_string(), 0);
    o.mark_completed("a").unwrap();
    assert!(matches!(o.mark_completed("zz"), Err(OrchestratorError::NotFound(_))));
    o.kill("b").unwrap();
    assert_eq!(statuses(&o), vec![("a".to_string(), AgentStatus::Completed)]);
    assert!(matches!(o.kill("b"), Err(OrchestratorError::NotFound(_))));
}

#[test]
fn freeze_all_freezes_only_running() {
    let mut o = Orchestrator::new("/p");
    o.spawn_with(request("t", 5), "a".to_string(), 0);
    o.spawn_with(request("u", 5), "b".to_string(), 0);
    o.mark_completed("b").unwrap();
    let (cps, state) = o.freeze_all_at(42);
    assert_eq!(cps.len(), 1);
    assert_eq!(cps[0].agent_id, "a");
    assert_eq!(state.frozen_at, 42);
    let st: Vec<AgentStatus> = state.agents.iter().map(|a| a.status).collect();
    assert_eq!(st, vec![AgentStatus::Frozen, AgentStatus::Completed]);
}

#[test]
fn restore_rebuilds_agents_from_checkpoints() {
    let mut o = Orchestrator::new("/p");
    o.spawn_with(request("t", 5), "a".to_string(), 7);
    let (mut cps, state) = o.freeze_all_at(8);
    let info = state.agents.into_iter().next().unwrap();
    let cp = cps.remove(0);
    let back = Orchestrator::restore("/p", vec![(info, cp)]);
    assert_eq!(back.project_dir(), "/p");
    assert_eq!(statuses(&back), vec![("a".to_string(), AgentStatus::Frozen)]);
    match back.collect("a").unwrap() {
        OrchestratorResponse::Collected { output, .. } => assert_eq!(output, "ctx of t"),
        other => panic!("unexpected {other:?}"),
    }
}

#[test]
fn handle_dispatches_requests_with_effects() {
    let mut o = Orchestrator::new("/p");
    let (resp, fx) = o
        .handle_with(OrchestratorRequest::Spawn(request("t", 5)), "0123abcd-ffff", 3)
        .unwrap();
    let id = match resp {
        OrchestratorResponse::Spawned { id, .. } => id,
        other => panic!("unexpected {other:?}"),
    };
    assert_eq!(id, "subagent-0123abcd");
    assert!(fx.save_agents.is_empty() && fx.save_state.is_none() && fx.remove_checkpoint.is_none());
    let (resp, fx) = o.handle_with(OrchestratorRequest::Freeze { id: id.clone() }, "x", 4).unwrap_or_else(|e| panic!("{e:?}"));
    assert!(matches!(resp, OrchestratorResponse::Acknowledged));
    assert_eq!(fx.save_agents.len(), 1);
    let (_, fx) = o
        .handle_with(OrchestratorRequest::Unfreeze { id: id.clone(), new_context: None }, "x", 5)
        .unwrap();
    assert_eq!(fx.remove_checkpoint, Some(id.clone()));
    assert!(!fx.ignore_remove_failure);
    let (_, fx) = o.handle_with(OrchestratorRequest::FreezeAll, "x", 6).unwrap();
    assert!(fx.save_state.is_some());
    let (_, fx) = o.handle_with(OrchestratorRequest::Kill { id: id.clone() }, "x", 7).unwrap();
    assert_eq!(fx.remove_checkpoint, Some(id.clone()));
    assert!(fx.ignore_remove_failure);
    let err = o.handle_with(OrchestratorRequest::Collect { id: id.clone() }, "x", 8);
    assert!(matches!(err, Err(OrchestratorError::NotFound(_))));
    let (resp, _) = o.handle_with(OrchestratorRequest::Status, "x", 9).unwrap();
    assert!(matches!(resp, OrchestratorResponse::Status { agents } if agents.is_empty()));
}

#[test]
fn restored_conversation_is_checkpointed_again() {
    let mut o = Orchestrator::new("/p");
    o.spawn_with(request("t", 5), "a".to_string(), 1);
    let (mut cps, state) = o.freeze_all_at(2);
    let mut cp = cps.remove(0);
    cp.conversation_history = vec![serde_json::Value::from("hello"), serde_json::Value::from(3)];
    let info = state.agents.into_iter().next().unwrap();
    let mut back = Orchestrator::restore("/p", vec![(info, cp)]);
    back.unfreeze("a", None).unwrap();
    let again = back.freeze_at("a", 9).unwrap();
    assert_eq!(
        again.conversation_history,
        vec![serde_json::Value::from("hello"), serde_json::Value::from(3)]
    );
    assert_eq!(again.frozen_at, 9);
}

#[test]
fn freeze_reports_unknown_and_non_running_agents() {
    let mut o = Orchestrator::new("/p");
    o.spawn_with(request("t", 5), "a".to_string(), 0);
    match o.freeze("zz") {
        Err(OrchestratorError::NotFound(id)) => assert_eq!(id, "zz"),
        other => panic!("unexpected {other:?}"),
    }
    o.mark_completed("a").unwrap();
    match o.freeze("a") {
        Err(OrchestratorError::BadState(id, st)) => {
            assert_eq!(id, "a");
            assert_eq!(st, AgentStatus::Completed);
        }
        other => panic!("unexpected {other:?}"),
    }
}

#[test]
fn freeze_all_then_restore_gives_agents_back() {
    let mut o = Orchestrator::new("/p");
    o.spawn_with(request("t", 5), "a".to_string(), 1);
    o.spawn_with(request("u", 5), "b".to_string(), 2);
    o.record_turn("b", &vec!["x.rs".to_string()]).unwrap();
    let (cps, state) = o.freeze_all_at(3);
    assert_eq!(cps.len(), 2);
    let entries: Vec<_> = state.agents.into_iter().zip(cps.into_iter()).collect();
    let back = Orchestrator::restore("/p", entries);
    assert_eq!(
        statuses(&back),
        vec![("a".to_string(), AgentStatus::Frozen), ("b".to_string(), AgentStatus::Frozen)]
    );
    match back.collect("b").unwrap() {
        OrchestratorResponse::Collected { output, files_modified, status, .. } => {
            assert_eq!(output, "ctx of u");
            assert_eq!(files_modified, vec!["x.rs".to_string()]);
            assert_eq!(status, AgentStatus::Frozen);
        }
        other => panic!("unexpected {other:?}"),
    }
}
