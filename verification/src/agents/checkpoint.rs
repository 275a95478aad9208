//! Checkpoints of frozen agents: what is saved, and where.
use vstd::prelude::*;

use crate::agents::types::{AgentInfo, AgentScope, AgentScopeView, AgentStatus};
use crate::text::{chars_end_with, chars_of, ends_with, join_path, path_join, str_eq, string_from_prefix};

verus! {

#[derive(Debug)]
pub enum CheckpointError {
    Io(std::io::Error),
    Serde(serde_json::Error),
}

/// Serialized state of a single agent (main or sub). `frozen_at` is in
/// microseconds since the Unix epoch.
#[derive(Debug)]
pub struct AgentCheckpoint {
    pub agent_id: String,
    pub status: AgentStatus,
    pub conversation_history: Vec<serde_json::Value>,
    pub task: String,
    pub context_snapshot: String,
    pub scope: AgentScope,
    pub turn_count: usize,
    pub max_turns: usize,
    pub files_modified: Vec<String>,
    pub active_skills: Vec<String>,
    pub frozen_at: i64,
}

/// The plain value of an [`AgentCheckpoint`].
pub struct AgentCheckpointView {
    pub agent_id: Seq<char>,
    pub status: AgentStatus,
    pub conversation_history: Seq<serde_json::Value>,
    pub task: Seq<char>,
    pub context_snapshot: Seq<char>,
    pub scope: AgentScopeView,
    pub turn_count: usize,
    pub max_turns: usize,
    pub files_modified: Seq<Seq<char>>,
    pub active_skills: Seq<Seq<char>>,
    pub frozen_at: i64,
}

impl View for AgentCheckpoint {
    type V = AgentCheckpointView;

    open spec fn view(&self) -> AgentCheckpointView {
        AgentCheckpointView {
            agent_id: self.agent_id@,
            status: self.status,
            conversation_history: self.conversation_history@,
            task: self.task@,
            context_snapshot: self.context_snapshot@,
            scope: self.scope@,
            turn_count: self.turn_count,
            max_turns: self.max_turns,
            files_modified: self.files_modified.deep_view(),
            active_skills: self.active_skills.deep_view(),
            frozen_at: self.frozen_at,
        }
    }
}

/// Serialized state of the orchestrator (the full agent tree).
#[derive(Debug)]
pub struct OrchestratorState {
    pub agents: Vec<AgentInfo>,
    pub frozen_at: i64,
}

/// Directory that holds a project's checkpoints.
pub fn checkpoints_dir(project_dir: &str) -> (r: String)
    ensures
        r@ == path_join(project_dir@, ".arcana/checkpoints"@),
{
    join_path(project_dir, ".arcana/checkpoints")
}

/// File of an agent's checkpoint: `<agent_id>.json` in the checkpoint directory.
pub fn agent_checkpoint_path(project_dir: &str, agent_id: &str) -> (r: String)
    ensures
        r@ == path_join(path_join(project_dir@, ".arcana/checkpoints"@), agent_id@ + ".json"@),
{
    let dir = checkpoints_dir(project_dir);
    let mut name = agent_id.to_owned();
    name.append(".json");
    join_path(dir.as_str(), name.as_str())
}

/// File of the orchestrator's saved state.
pub fn orchestrator_state_path(project_dir: &str) -> (r: String)
    ensures
        r@ == path_join(path_join(project_dir@, ".arcana/checkpoints"@), "orchestrator_state.json"@),
{
    let dir = checkpoints_dir(project_dir);
    join_path(dir.as_str(), "orchestrator_state.json")
}

/// `s` with every trailing copy of `p` removed (`str::trim_end_matches`).
pub open spec fn strip_suffixes(s: Seq<char>, p: Seq<char>) -> Seq<char>
    decreases s.len(),
{
    if p.len() > 0 && ends_with(s, p) {
        strip_suffixes(s.take(s.len() - p.len()), p)
    } else {
        s
    }
}

/// The agent identifiers that a checkpoint directory's file names stand
/// for, up to the `k`-th name: each `.json` file but the orchestrator's
/// state, with its `.json` endings removed.
pub open spec fn checkpoint_names(names: Seq<Seq<char>>, k: nat) -> Seq<Seq<char>>
    decreases k,
{
    if k == 0 {
        seq![]
    } else {
        let prev = checkpoint_names(names, (k - 1) as nat);
        let n = names[k - 1];
        if ends_with(n, ".json"@) && n != "orchestrator_state.json"@ {
            prev.push(strip_suffixes(n, ".json"@))
        } else {
            prev
        }
    }
}

/// Removes every trailing `.json` from a name.
fn strip_json(cs: &Vec<char>, suffix: &Vec<char>) -> (r: String)
    requires
        suffix@.len() > 0,
    ensures
        r@ == strip_suffixes(cs@, suffix@),
{
    let mut n = cs.len();
    let mut cur: Vec<char> = Vec::new();
    for i in 0..n
        invariant
            n == cs.len(),
            cur@ == cs@.take(i as int),
    {
        cur.push(cs[i]);
        assert(cs@.take(i + 1) == cs@.take(i as int).push(cs@[i as int]));
    }
    assert(cs@.take(n as int) == cs@);
    while chars_end_with(&cur, suffix)
        invariant
            suffix@.len() > 0,
            strip_suffixes(cur@, suffix@) == strip_suffixes(cs@, suffix@),
        decreases cur@.len(),
    {
        let keep = cur.len() - suffix.len();
        let mut next: Vec<char> = Vec::new();
        for i in 0..keep
            invariant
                keep <= cur.len(),
                next@ == cur@.take(i as int),
        {
            next.push(cur[i]);
            assert(cur@.take(i + 1) == cur@.take(i as int).push(cur@[i as int]));
        }
        cur = next;
    }
    string_from_chars_all(&cur)
}

fn string_from_chars_all(cs: &Vec<char>) -> (r: String)
    ensures
        r@ == cs@,
{
    let r = string_from_prefix(cs, cs.len());
    assert(cs@.take(cs@.len() as int) == cs@);
    r
}

/// The agent identifiers among a checkpoint directory's file names.
pub fn checkpoint_ids(file_names: &Vec<String>) -> (r: Vec<String>)
    ensures
        r.deep_view() == checkpoint_names(file_names.deep_view(), file_names.len() as nat),
{
    let ghost fv = file_names.deep_view();
    let suffix = chars_of(".json");
    proof {
        reveal_strlit(".json");
    }
    let mut out: Vec<String> = Vec::new();
    for i in 0..file_names.len()
        invariant
            fv == file_names.deep_view(),
            suffix@ == ".json"@,
            suffix@.len() == 5,
            out.deep_view() == checkpoint_names(fv, i as nat),
    {
        assert(fv[i as int] == file_names@[i as int]@);
        let cs = chars_of(file_names[i].as_str());
        let ghost before = out.deep_view();
        if chars_end_with(&cs, &suffix) && !str_eq(file_names[i].as_str(), "orchestrator_state.json") {
            let id = strip_json(&cs, &suffix);
            out.push(id);
            assert(out.deep_view() =~= before.push(strip_suffixes(fv[i as int], ".json"@)));
        }
    }
    out
}

} // verus!
