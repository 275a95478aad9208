//! Plain data of the sub-agent system.
use vstd::prelude::*;

use crate::text::{copy_opt_string, copy_string, copy_strings};

verus! {

#[derive(Debug, Clone, Copy, PartialEq, Eq, Structural)]
pub enum AgentStatus {
    Running,
    Frozen,
    Completed,
    Failed,
    Stalled,
}

#[derive(Debug)]
pub struct AgentScope {
    pub read_paths: Vec<String>,
    pub write_paths: Vec<String>,
    pub exec_commands: Vec<String>,
}

/// The plain value of an [`AgentScope`].
pub struct AgentScopeView {
    pub read_paths: Seq<Seq<char>>,
    pub write_paths: Seq<Seq<char>>,
    pub exec_commands: Seq<Seq<char>>,
}

impl View for AgentScope {
    type V = AgentScopeView;

    open spec fn view(&self) -> AgentScopeView {
        AgentScopeView {
            read_paths: self.read_paths.deep_view(),
            write_paths: self.write_paths.deep_view(),
            exec_commands: self.exec_commands.deep_view(),
        }
    }
}

impl Clone for AgentScope {
    fn clone(&self) -> (r: Self)
        ensures
            r@ == self@,
    {
        AgentScope {
            read_paths: copy_strings(&self.read_paths),
            write_paths: copy_strings(&self.write_paths),
            exec_commands: copy_strings(&self.exec_commands),
        }
    }
}

#[derive(Debug)]
pub struct SpawnRequest {
    pub task: String,
    pub context: String,
    pub scope: AgentScope,
    pub model: Option<String>,
    pub max_turns: usize,
}

/// What the orchestrator reports of an agent. `spawned_at` is in
/// microseconds since the Unix epoch.
#[derive(Debug)]
pub struct AgentInfo {
    pub id: String,
    pub task: String,
    pub status: AgentStatus,
    pub turn_count: usize,
    pub max_turns: usize,
    pub files_modified: Vec<String>,
    pub spawned_at: i64,
}

/// The plain value of an [`AgentInfo`].
pub struct AgentInfoView {
    pub id: Seq<char>,
    pub task: Seq<char>,
    pub status: AgentStatus,
    pub turn_count: usize,
    pub max_turns: usize,
    pub files_modified: Seq<Seq<char>>,
    pub spawned_at: i64,
}

impl View for AgentInfo {
    type V = AgentInfoView;

    open spec fn view(&self) -> AgentInfoView {
        AgentInfoView {
            id: self.id@,
            task: self.task@,
            status: self.status,
            turn_count: self.turn_count,
            max_turns: self.max_turns,
            files_modified: self.files_modified.deep_view(),
            spawned_at: self.spawned_at,
        }
    }
}

impl Clone for AgentInfo {
    fn clone(&self) -> (r: Self)
        ensures
            r@ == self@,
    {
        AgentInfo {
            id: copy_string(&self.id),
            task: copy_string(&self.task),
            status: self.status,
            turn_count: self.turn_count,
            max_turns: self.max_turns,
            files_modified: copy_strings(&self.files_modified),
            spawned_at: self.spawned_at,
        }
    }
}

/// The plain values of a sequence of agent reports.
pub open spec fn infos_view(s: Seq<AgentInfo>) -> Seq<AgentInfoView> {
    s.map_values(|a: AgentInfo| a@)
}

/// Request from main agent to orchestrator.
#[derive(Debug)]
pub enum OrchestratorRequest {
    Spawn(SpawnRequest),
    Status,
    Collect { id: String },
    Freeze { id: String },
    FreezeAll,
    Unfreeze { id: String, new_context: Option<String> },
    Kill { id: String },
}

/// Response from orchestrator.
#[derive(Debug)]
pub enum OrchestratorResponse {
    Spawned { id: String, status: AgentStatus },
    Status { agents: Vec<AgentInfo> },
    Collected { id: String, output: String, files_modified: Vec<String>, status: AgentStatus },
    Acknowledged,
    Error { message: String },
}

} // verus!
