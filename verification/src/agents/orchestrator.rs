//! The sub-agent orchestrator: the state of every managed agent and the
//! decisions of each request. Saving and removing checkpoint files is left
//! to the caller, as the [`Effects`] that a request returns.
use vstd::prelude::*;

use crate::agents::checkpoint::{AgentCheckpoint, AgentCheckpointView, OrchestratorState};
use crate::agents::types::{
    infos_view, AgentInfo, AgentInfoView, AgentScope, AgentScopeView, AgentStatus,
    OrchestratorRequest, OrchestratorResponse, SpawnRequest,
};
use crate::outside::{is_uuid_char, new_uuid_text, now_micros};
use crate::text::{chars_of, contains_string, copy_string, copy_strings, starts_with, str_eq, string_from_prefix};

verus! {

/// Copies a conversation (`Vec<serde_json::Value>::clone`). `Value`'s
/// derived `Clone` copies the JSON value exactly; the claim is that the copy
/// equals the conversation copied.
#[verifier::external_body]
fn clone_conversation(v: &Vec<serde_json::Value>) -> (r: Vec<serde_json::Value>)
    ensures
        r@ == v@,
{
    v.clone()
}

#[derive(Debug)]
pub enum OrchestratorError {
    Checkpoint(crate::agents::checkpoint::CheckpointError),
    NotFound(String),
    BadState(String, AgentStatus),
}

/// In-memory state of a managed sub-agent.
struct ManagedAgent {
    info: AgentInfo,
    scope: AgentScope,
    context: String,
    conversation: Vec<serde_json::Value>,
    stall_counter: usize,
}

/// The plain value of a managed agent.
pub struct AgentModel {
    pub info: AgentInfoView,
    pub scope: AgentScopeView,
    pub context: Seq<char>,
    pub conversation: Seq<serde_json::Value>,
    pub stall_counter: usize,
}

spec fn managed_model(a: ManagedAgent) -> AgentModel {
    AgentModel {
        info: a.info@,
        scope: a.scope@,
        context: a.context@,
        conversation: a.conversation@,
        stall_counter: a.stall_counter,
    }
}

spec fn managed_models(s: Seq<ManagedAgent>) -> Seq<AgentModel> {
    s.map_values(|a: ManagedAgent| managed_model(a))
}

/// File-system work that a request leaves to the caller, in this order:
/// save each agent checkpoint, save the orchestrator state, remove one
/// agent's checkpoint (a failed removal fails the request unless
/// `ignore_remove_failure`).
pub struct Effects {
    pub save_agents: Vec<AgentCheckpoint>,
    pub save_state: Option<OrchestratorState>,
    pub remove_checkpoint: Option<String>,
    pub ignore_remove_failure: bool,
}

/// No agent identifier occurs twice.
pub open spec fn ids_unique(m: Seq<AgentModel>) -> bool {
    forall|i: int, j: int| 0 <= i < j < m.len() ==> m[i].info.id != m[j].info.id
}

/// Every agent has had no more idle turns than turns.
pub open spec fn counters_ok(m: Seq<AgentModel>) -> bool {
    forall|i: int| 0 <= i < m.len() ==> m[i].stall_counter <= m[i].info.turn_count
}

/// Whether an agent with identifier `id` is managed.
#[verifier::opaque]
pub open spec fn has_agent(m: Seq<AgentModel>, id: Seq<char>) -> bool {
    exists|i: int| 0 <= i < m.len() && m[i].info.id == id
}

/// Position of the agent with identifier `id`.
#[verifier::opaque]
pub open spec fn agent_at(m: Seq<AgentModel>, id: Seq<char>) -> int {
    choose|i: int| 0 <= i < m.len() && m[i].info.id == id
}

/// An agent with another status.
pub open spec fn with_status(a: AgentModel, s: AgentStatus) -> AgentModel {
    AgentModel { info: AgentInfoView { status: s, ..a.info }, ..a }
}

/// The agent that a spawn request starts.
pub open spec fn spawned_agent(req: SpawnRequest, id: Seq<char>, at: i64) -> AgentModel {
    AgentModel {
        info: AgentInfoView {
            id,
            task: req.task@,
            status: AgentStatus::Running,
            turn_count: 0,
            max_turns: req.max_turns,
            files_modified: seq![],
            spawned_at: at,
        },
        scope: req.scope@,
        context: req.context@,
        conversation: seq![],
        stall_counter: 0,
    }
}

/// `a` put in place of the agent with the same identifier, or added.
pub open spec fn upsert(m: Seq<AgentModel>, a: AgentModel) -> Seq<AgentModel> {
    if has_agent(m, a.info.id) {
        m.update(agent_at(m, a.info.id), a)
    } else {
        m.push(a)
    }
}

/// The identifier of a spawned agent: `subagent-` and the first eight
/// characters of a UUID.
pub open spec fn subagent_id(uuid: Seq<char>) -> Seq<char> {
    "subagent-"@ + uuid.take(8)
}

/// The checkpoint of an agent as it is frozen at time `at`.
pub open spec fn checkpoint_of(a: AgentModel, at: i64) -> AgentCheckpointView {
    AgentCheckpointView {
        agent_id: a.info.id,
        status: AgentStatus::Frozen,
        conversation_history: a.conversation,
        task: a.info.task,
        context_snapshot: a.context,
        scope: a.scope,
        turn_count: a.info.turn_count,
        max_turns: a.info.max_turns,
        files_modified: a.info.files_modified,
        active_skills: seq![],
        frozen_at: at,
    }
}

/// Every running agent frozen.
pub open spec fn all_frozen(m: Seq<AgentModel>) -> Seq<AgentModel> {
    m.map_values(
        |a: AgentModel|
            if a.info.status == AgentStatus::Running {
                with_status(a, AgentStatus::Frozen)
            } else {
                a
            },
    )
}

/// The checkpoints that freezing every running agent saves, in agent order.
pub open spec fn running_checkpoints(m: Seq<AgentModel>, at: i64, k: nat) -> Seq<
    AgentCheckpointView,
>
    decreases k,
{
    if k == 0 {
        seq![]
    } else {
        let prev = running_checkpoints(m, at, (k - 1) as nat);
        if m[k - 1].info.status == AgentStatus::Running {
            prev.push(checkpoint_of(m[k - 1], at))
        } else {
            prev
        }
    }
}

/// An agent resumed, with its context replaced when one is given.
pub open spec fn unfrozen(a: AgentModel, new_context: Option<Seq<char>>) -> AgentModel {
    AgentModel {
        info: AgentInfoView { status: AgentStatus::Running, ..a.info },
        context: match new_context {
            Some(c) => c,
            None => a.context,
        },
        ..a
    }
}

/// The modified files after a turn: each new file not yet listed is added,
/// in order.
pub open spec fn merge_files(existing: Seq<Seq<char>>, new: Seq<Seq<char>>, k: nat) -> Seq<
    Seq<char>,
>
    decreases k,
{
    if k == 0 {
        existing
    } else {
        let prev = merge_files(existing, new, (k - 1) as nat);
        if prev.contains(new[k - 1]) {
            prev
        } else {
            prev.push(new[k - 1])
        }
    }
}

/// Idle turns after which an agent counts as stalled.
pub open spec fn stall_limit() -> nat {
    5
}

/// Whether a turn leaves the agent stalled: its turn budget is used up, or
/// it has gone the stall limit of turns without modifying a file.
pub open spec fn turn_stalls(a: AgentModel, new: Seq<Seq<char>>) -> bool {
    let turn = a.info.turn_count + 1;
    let stall = if new.len() == 0 {
        a.stall_counter + 1
    } else {
        0
    };
    turn >= a.info.max_turns || stall >= stall_limit()
}

/// An agent after one turn that modified `new`.
pub open spec fn after_turn(a: AgentModel, new: Seq<Seq<char>>) -> AgentModel {
    AgentModel {
        info: AgentInfoView {
            turn_count: (a.info.turn_count + 1) as usize,
            files_modified: merge_files(a.info.files_modified, new, new.len()),
            status: if turn_stalls(a, new) {
                AgentStatus::Stalled
            } else {
                a.info.status
            },
            ..a.info
        },
        stall_counter: (if new.len() == 0 {
            a.stall_counter + 1
        } else {
            0
        }) as usize,
        ..a
    }
}

proof fn lemma_agent_at(m: Seq<AgentModel>, id: Seq<char>, i: int)
    requires
        ids_unique(m),
        0 <= i < m.len(),
        m[i].info.id == id,
    ensures
        has_agent(m, id),
        agent_at(m, id) == i,
{
    reveal(has_agent);
    reveal(agent_at);
    let j = agent_at(m, id);
    assert(0 <= j < m.len() && m[j].info.id == id);
    if j < i {
        assert(m[j].info.id != m[i].info.id);
    }
    if i < j {
        assert(m[i].info.id != m[j].info.id);
    }
}

/// The sub-agent orchestrator. Manages lifecycle of all sub-agents.
pub struct Orchestrator {
    agents: Vec<ManagedAgent>,
    project_dir: String,
}

impl Orchestrator {
    /// The managed agents, in the order they were added.
    pub closed spec fn model(&self) -> Seq<AgentModel> {
        managed_models(self.agents@)
    }

    /// The project directory whose checkpoints this orchestrator uses.
    pub closed spec fn dir(&self) -> Seq<char> {
        self.project_dir@
    }

    /// The orchestrator's invariant.
    pub open spec fn wf(&self) -> bool {
        ids_unique(self.model()) && counters_ok(self.model())
    }

    pub fn new(project_dir: &str) -> (r: Self)
        ensures
            r.wf(),
            r.model() == Seq::<AgentModel>::empty(),
            r.dir() == project_dir@,
    {
        let r = Orchestrator { agents: Vec::new(), project_dir: project_dir.to_owned() };
        assert(r.model() =~= Seq::<AgentModel>::empty());
        r
    }

    /// The project directory whose checkpoints this orchestrator uses.
    pub fn project_dir(&self) -> (r: &str)
        ensures
            r@ == self.dir(),
    {
        self.project_dir.as_str()
    }

    /// Position of the agent with identifier `id`, if managed.
    fn find(&self, id: &str) -> (r: Option<usize>)
        requires
            self.wf(),
        ensures
            r is None <==> !has_agent(self.model(), id@),
            r matches Some(k) ==> k < self.agents.len() && k == agent_at(self.model(), id@)
                && self.model()[k as int].info.id == id@,
    {
        let ghost m = self.model();
        for i in 0..self.agents.len()
            invariant
                m == self.model(),
                self.wf(),
                forall|j: int| 0 <= j < i ==> m[j].info.id != id@,
        {
            assert(m[i as int] == managed_model(self.agents@[i as int]));
            if str_eq(self.agents[i].info.id.as_str(), id) {
                proof {
                    lemma_agent_at(m, id@, i as int);
                }
                return Some(i);
            }
        }
        assert(!has_agent(m, id@)) by {
            reveal(has_agent);
            if has_agent(m, id@) {
                let k = choose|k: int| 0 <= k < m.len() && m[k].info.id == id@;
                assert(m[k].info.id != id@);
            }
        }
        None
    }

    /// Puts an agent in place of the managed one with the same identifier,
    /// or adds it.
    fn upsert_agent(&mut self, agent: ManagedAgent)
        requires
            old(self).wf(),
            agent.stall_counter <= agent.info.turn_count,
        ensures
            final(self).wf(),
            final(self).dir() == old(self).dir(),
            final(self).model() == upsert(old(self).model(), managed_model(agent)),
    {
        let ghost m = self.model();
        let ghost e = managed_model(agent);
        let ghost id = e.info.id;
        match self.find(agent.info.id.as_str()) {
            Some(k) => {
                self.agents.set(k, agent);
                assert(self.model() =~= m.update(k as int, e));
                assert forall|i: int, j: int| 0 <= i < j < self.model().len() implies self.model()[i].info.id
                    != self.model()[j].info.id by {
                    assert(m[i].info.id != m[j].info.id);
                }
            },
            None => {
                self.agents.push(agent);
                assert(self.model() =~= m.push(e));
                assert forall|i: int, j: int| 0 <= i < j < self.model().len() implies self.model()[i].info.id
                    != self.model()[j].info.id by {
                    if j == m.len() {
                        reveal(has_agent);
                        assert(m[i].info.id != id);
                    } else {
                        assert(m[i].info.id != m[j].info.id);
                    }
                }
            },
        }
    }

    /// Adds a spawned agent under identifier `id`, started at time `at`
    /// (replacing a managed agent with the same identifier).
    pub fn spawn_with(&mut self, req: SpawnRequest, id: String, at: i64) -> (r: OrchestratorResponse)
        requires
            old(self).wf(),
        ensures
            final(self).wf(),
            final(self).dir() == old(self).dir(),
            final(self).model() == upsert(old(self).model(), spawned_agent(req, id@, at)),
            r matches OrchestratorResponse::Spawned { id: rid, status } && rid@ == id@ && status
                == AgentStatus::Running,
    {
        let ghost m = self.model();
        let ghost e = spawned_agent(req, id@, at);
        let files: Vec<String> = Vec::new();
        let conversation: Vec<serde_json::Value> = Vec::new();
        let agent = ManagedAgent {
            info: AgentInfo {
                id: copy_string(&id),
                task: req.task,
                status: AgentStatus::Running,
                turn_count: 0,
                max_turns: req.max_turns,
                files_modified: files,
                spawned_at: at,
            },
            scope: req.scope,
            context: req.context,
            conversation,
            stall_counter: 0,
        };
        assert(agent.info.files_modified.deep_view() =~= Seq::<Seq<char>>::empty());
        assert(agent.conversation@ =~= Seq::<serde_json::Value>::empty());
        assert(managed_model(agent).info == e.info);
        assert(managed_model(agent) == e);
        self.upsert_agent(agent);
        OrchestratorResponse::Spawned { id, status: AgentStatus::Running }
    }

    /// Spawns a sub-agent with a fresh identifier and the current time.
    pub fn spawn(&mut self, req: SpawnRequest) -> (r: OrchestratorResponse)
        requires
            old(self).wf(),
        ensures
            final(self).wf(),
            final(self).dir() == old(self).dir(),
            r matches OrchestratorResponse::Spawned { id: rid, status } && {
                &&& status == AgentStatus::Running
                &&& rid@.len() == 17
                &&& starts_with(rid@, "subagent-"@)
                &&& exists|at: i64|
                    final(self).model() == upsert(old(self).model(), spawned_agent(req, rid@, at))
            },
    {
        let u = new_uuid_text();
        let cs = chars_of(u.as_str());
        let head = string_from_prefix(&cs, 8);
        let mut id = "subagent-".to_owned();
        id.append(head.as_str());
        proof {
            reveal_strlit("subagent-");
            assert(id@.take(9) =~= "subagent-"@);
        }
        let at = now_micros();
        let ghost idv = id@;
        let r = self.spawn_with(req, id, at);
        r
    }

    /// The reports of every managed agent.
    pub fn status(&self) -> (r: OrchestratorResponse)
        ensures
            r matches OrchestratorResponse::Status { agents } && infos_view(agents@)
                == self.model().map_values(|a: AgentModel| a.info),
    {
        let ghost m = self.model();
        let mut agents: Vec<AgentInfo> = Vec::new();
        for i in 0..self.agents.len()
            invariant
                m == self.model(),
                infos_view(agents@) == m.take(i as int).map_values(|a: AgentModel| a.info),
        {
            assert(m[i as int] == managed_model(self.agents@[i as int]));
            let ghost before = infos_view(agents@);
            agents.push(self.agents[i].info.clone());
            assert(infos_view(agents@) =~= before.push(m[i as int].info));
            assert(m.take(i + 1) =~= m.take(i as int).push(m[i as int]));
            assert(infos_view(agents@) =~= m.take(i + 1).map_values(|a: AgentModel| a.info));
        }
        assert(m.take(m.len() as int) == m);
        OrchestratorResponse::Status { agents }
    }

    /// The output, modified files and status of an agent.
    pub fn collect(&self, id: &str) -> (r: Result<OrchestratorResponse, OrchestratorError>)
        requires
            self.wf(),
        ensures
            r is Ok <==> has_agent(self.model(), id@),
            r matches Err(e) ==> e matches OrchestratorError::NotFound(x) && x@ == id@,
            r matches Ok(resp) ==> {
                let a = self.model()[agent_at(self.model(), id@)];
                resp matches OrchestratorResponse::Collected {
                    id: rid,
                    output,
                    files_modified,
                    status,
                } && rid@ == id@ && output@ == a.context && files_modified.deep_view()
                    == a.info.files_modified && status == a.info.status
            },
    {
        match self.find(id) {
            None => Err(OrchestratorError::NotFound(id.to_owned())),
            Some(k) => {
                assert(self.model()[k as int] == managed_model(self.agents@[k as int]));
                let a = &self.agents[k];
                Ok(
                    OrchestratorResponse::Collected {
                        id: id.to_owned(),
                        output: copy_string(&a.context),
                        files_modified: copy_strings(&a.info.files_modified),
                        status: a.info.status,
                    },
                )
            },
        }
    }

    /// Freezes a running agent at time `at` and returns the checkpoint to save.
    pub fn freeze_at(&mut self, id: &str, at: i64) -> (r: Result<AgentCheckpoint, OrchestratorError>)
        requires
            old(self).wf(),
        ensures
            final(self).wf(),
            final(self).dir() == old(self).dir(),
            r is Ok <==> has_agent(old(self).model(), id@) && old(self).model()[agent_at(
                old(self).model(),
                id@,
            )].info.status == AgentStatus::Running,
            r matches Err(e) ==> {
                &&& final(self).model() == old(self).model()
                &&& if has_agent(old(self).model(), id@) {
                    e matches OrchestratorError::BadState(x, st) && x@ == id@ && st == old(
                        self,
                    ).model()[agent_at(old(self).model(), id@)].info.status
                } else {
                    e matches OrchestratorError::NotFound(x) && x@ == id@
                }
            },
            r matches Ok(cp) ==> {
                let k = agent_at(old(self).model(), id@);
                &&& final(self).model() == old(self).model().update(
                    k,
                    with_status(old(self).model()[k], AgentStatus::Frozen),
                )
                &&& cp@ == checkpoint_of(old(self).model()[k], at)
            },
    {
        let ghost m = self.model();
        match self.find(id) {
            None => Err(OrchestratorError::NotFound(id.to_owned())),
            Some(k) => {
                assert(m[k as int] == managed_model(self.agents@[k as int]));
                let st = self.agents[k].info.status;
                if st != AgentStatus::Running {
                    return Err(OrchestratorError::BadState(id.to_owned(), st));
                }
                let mut a = self.agents.remove(k);
                a.info.status = AgentStatus::Frozen;
                let cp = AgentCheckpoint {
                    agent_id: id.to_owned(),
                    status: AgentStatus::Frozen,
                    conversation_history: clone_conversation(&a.conversation),
                    task: copy_string(&a.info.task),
                    context_snapshot: copy_string(&a.context),
                    scope: a.scope.clone(),
                    turn_count: a.info.turn_count,
                    max_turns: a.info.max_turns,
                    files_modified: copy_strings(&a.info.files_modified),
                    active_skills: Vec::new(),
                    frozen_at: at,
                };
                self.agents.insert(k, a);
                let ghost e = with_status(m[k as int], AgentStatus::Frozen);
                assert(self.model() =~= m.update(k as int, e));
                assert(cp@.active_skills =~= Seq::<Seq<char>>::empty());
                assert(cp@ == checkpoint_of(m[k as int], at));
                Ok(cp)
            },
        }
    }

    /// Freezes a running agent at the current time.
    pub fn freeze(&mut self, id: &str) -> (r: Result<AgentCheckpoint, OrchestratorError>)
        requires
            old(self).wf(),
        ensures
            final(self).wf(),
            final(self).dir() == old(self).dir(),
            r is Ok <==> has_agent(old(self).model(), id@) && old(self).model()[agent_at(
                old(self).model(),
                id@,
            )].info.status == AgentStatus::Running,
            r matches Err(e) ==> {
                &&& final(self).model() == old(self).model()
                &&& if has_agent(old(self).model(), id@) {
                    e matches OrchestratorError::BadState(x, st) && x@ == id@ && st == old(
                        self,
                    ).model()[agent_at(old(self).model(), id@)].info.status
                } else {
                    e matches OrchestratorError::NotFound(x) && x@ == id@
                }
            },
            r matches Ok(cp) ==> {
                let k = agent_at(old(self).model(), id@);
                &&& final(self).model() == old(self).model().update(
                    k,
                    with_status(old(self).model()[k], AgentStatus::Frozen),
                )
                &&& cp@ == checkpoint_of(old(self).model()[k], cp.frozen_at)
            },
    {
        let at = now_micros();
        self.freeze_at(id, at)
    }

    /// Freezes every running agent at time `at`; returns their checkpoints in
    /// agent order and the orchestrator state to save.
    pub fn freeze_all_at(&mut self, at: i64) -> (r: (Vec<AgentCheckpoint>, OrchestratorState))
        requires
            old(self).wf(),
        ensures
            final(self).wf(),
            final(self).dir() == old(self).dir(),
            final(self).model() == all_frozen(old(self).model()),
            r.0@.map_values(|c: AgentCheckpoint| c@) == running_checkpoints(
                old(self).model(),
                at,
                old(self).model().len(),
            ),
            infos_view(r.1.agents@) == all_frozen(old(self).model()).map_values(
                |a: AgentModel| a.info,
            ),
            r.1.frozen_at == at,
    {
        let ghost m = self.model();
        let mut saved: Vec<AgentCheckpoint> = Vec::new();
        let n = self.agents.len();
        for i in 0..n
            invariant
                n == self.model().len(),
                n == m.len(),
                self.wf(),
                self.dir() == old(self).dir(),
                m == old(self).model(),
                forall|j: int| 0 <= j < i ==> self.model()[j] == all_frozen(m)[j],
                forall|j: int| i <= j < n ==> self.model()[j] == m[j],
                saved@.map_values(|c: AgentCheckpoint| c@) == running_checkpoints(m, at, i as nat),
        {
            assert(self.model().len() == self.agents@.len());
            assert(self.model()[i as int] == managed_model(self.agents@[i as int]));
            let ghost before = saved@.map_values(|c: AgentCheckpoint| c@);
            if self.agents[i].info.status == AgentStatus::Running {
                let ghost cur = self.model();
                let id = copy_string(&self.agents[i].info.id);
                proof {
                    lemma_agent_at(cur, id@, i as int);
                }
                match self.freeze_at(id.as_str(), at) {
                    Ok(cp) => {
                        saved.push(cp);
                        assert(saved@.map_values(|c: AgentCheckpoint| c@) =~= before.push(
                            checkpoint_of(m[i as int], at),
                        ));
                    },
                    Err(_) => {},
                }
                assert forall|j: int| 0 <= j < i + 1 implies self.model()[j] == all_frozen(m)[j] by {
                    if j < i {
                        assert(self.model()[j] == cur[j]);
                    }
                }
            }
        }
        let st = self.status();
        let agents = match st {
            OrchestratorResponse::Status { agents } => agents,
            _ => Vec::new(),
        };
        assert(self.model() =~= all_frozen(m));
        (saved, OrchestratorState { agents, frozen_at: at })
    }

    /// Freezes every running agent at the current time.
    pub fn freeze_all(&mut self) -> (r: (Vec<AgentCheckpoint>, OrchestratorState))
        requires
            old(self).wf(),
        ensures
            final(self).wf(),
            final(self).dir() == old(self).dir(),
            final(self).model() == all_frozen(old(self).model()),
            r.0@.map_values(|c: AgentCheckpoint| c@) == running_checkpoints(
                old(self).model(),
                r.1.frozen_at,
                old(self).model().len(),
            ),
            infos_view(r.1.agents@) == all_frozen(old(self).model()).map_values(
                |a: AgentModel| a.info,
            ),
    {
        let at = now_micros();
        self.freeze_all_at(at)
    }

    /// Resumes a frozen agent, replacing its context when one is given.
    pub fn unfreeze(&mut self, id: &str, new_context: Option<String>) -> (r: Result<(), OrchestratorError>)
        requires
            old(self).wf(),
        ensures
            final(self).wf(),
            final(self).dir() == old(self).dir(),
            r is Ok <==> has_agent(old(self).model(), id@) && old(self).model()[agent_at(
                old(self).model(),
                id@,
            )].info.status == AgentStatus::Frozen,
            r matches Err(e) ==> {
                &&& final(self).model() == old(self).model()
                &&& if has_agent(old(self).model(), id@) {
                    e matches OrchestratorError::BadState(x, st) && x@ == id@ && st == old(
                        self,
                    ).model()[agent_at(old(self).model(), id@)].info.status
                } else {
                    e matches OrchestratorError::NotFound(x) && x@ == id@
                }
            },
            r is Ok ==> {
                let k = agent_at(old(self).model(), id@);
                final(self).model() == old(self).model().update(
                    k,
                    unfrozen(
                        old(self).model()[k],
                        match new_context {
                            Some(c) => Some(c@),
                            None => None,
                        },
                    ),
                )
            },
    {
        let ghost m = self.model();
        match self.find(id) {
            None => Err(OrchestratorError::NotFound(id.to_owned())),
            Some(k) => {
                assert(m[k as int] == managed_model(self.agents@[k as int]));
                let st = self.agents[k].info.status;
                if st != AgentStatus::Frozen {
                    return Err(OrchestratorError::BadState(id.to_owned(), st));
                }
                let ghost nc = match &new_context {
                    Some(c) => Some(c@),
                    None => None,
                };
                let mut a = self.agents.remove(k);
                a.info.status = AgentStatus::Running;
                match new_context {
                    Some(c) => {
                        a.context = c;
                    },
                    None => {},
                }
                self.agents.insert(k, a);
                assert(self.model() =~= m.update(k as int, unfrozen(m[k as int], nc)));
                Ok(())
            },
        }
    }

    /// Stops managing an agent.
    pub fn kill(&mut self, id: &str) -> (r: Result<(), OrchestratorError>)
        requires
            old(self).wf(),
        ensures
            final(self).wf(),
            final(self).dir() == old(self).dir(),
            r is Ok <==> has_agent(old(self).model(), id@),
            r matches Err(e) ==> e matches OrchestratorError::NotFound(x) && x@ == id@
                && final(self).model() == old(self).model(),
            r is Ok ==> final(self).model() == old(self).model().remove(
                agent_at(old(self).model(), id@),
            ),
            !has_agent(final(self).model(), id@),
    {
        let ghost m = self.model();
        match self.find(id) {
            None => Err(OrchestratorError::NotFound(id.to_owned())),
            Some(k) => {
                let _gone = self.agents.remove(k);
                assert(self.model() =~= m.remove(k as int));
                assert(!has_agent(self.model(), id@)) by {
                    reveal(has_agent);
                    if has_agent(self.model(), id@) {
                        let j = choose|j: int| 0 <= j < self.model().len() && self.model()[j].info.id == id@;
                        if j < k {
                            assert(m[j].info.id != m[k as int].info.id);
                        } else {
                            assert(m[j + 1].info.id != m[k as int].info.id);
                        }
                    }
                }
                assert forall|i: int, j: int| 0 <= i < j < self.model().len() implies self.model()[i].info.id
                    != self.model()[j].info.id by {
                    let i2 = if i < k { i } else { i + 1 };
                    let j2 = if j < k { j } else { j + 1 };
                    assert(m[i2].info.id != m[j2].info.id);
                }
                Ok(())
            },
        }
    }

    /// Records a turn of an agent that modified `files_modified`, and enforces
    /// its limits: the agent is stalled once its turn budget is used up or
    /// after the stall limit of turns without modifying a file.
    pub fn record_turn(&mut self, id: &str, files_modified: &Vec<String>) -> (r: Result<
        Option<AgentStatus>,
        OrchestratorError,
    >)
        requires
            old(self).wf(),
            has_agent(old(self).model(), id@) ==> old(self).model()[agent_at(
                old(self).model(),
                id@,
            )].info.turn_count < usize::MAX,
        ensures
            final(self).wf(),
            final(self).dir() == old(self).dir(),
            r is Ok <==> has_agent(old(self).model(), id@),
            r matches Err(e) ==> e matches OrchestratorError::NotFound(x) && x@ == id@
                && final(self).model() == old(self).model(),
            r matches Ok(out) ==> {
                let k = agent_at(old(self).model(), id@);
                let a = old(self).model()[k];
                &&& final(self).model() == old(self).model().update(
                    k,
                    after_turn(a, files_modified.deep_view()),
                )
                &&& out == if turn_stalls(a, files_modified.deep_view()) {
                    Some(AgentStatus::Stalled)
                } else {
                    None
                }
            },
    {
        let ghost m = self.model();
        let ghost fv = files_modified.deep_view();
        match self.find(id) {
            None => Err(OrchestratorError::NotFound(id.to_owned())),
            Some(k) => {
                assert(m[k as int] == managed_model(self.agents@[k as int]));
                let mut a = self.agents.remove(k);
                let ghost a0 = managed_model(a);
                a.info.turn_count = a.info.turn_count + 1;
                if files_modified.len() == 0 {
                    a.stall_counter = a.stall_counter + 1;
                    assert(fv.len() == 0);
                    assert(merge_files(a0.info.files_modified, fv, fv.len()) == a0.info.files_modified);
                } else {
                    a.stall_counter = 0;
                    for i in 0..files_modified.len()
                        invariant
                            fv == files_modified.deep_view(),
                            a.info.turn_count == a0.info.turn_count + 1,
                            a.stall_counter == 0,
                            a.info.id@ == a0.info.id,
                            a.info.task@ == a0.info.task,
                            a.info.status == a0.info.status,
                            a.info.max_turns == a0.info.max_turns,
                            a.info.spawned_at == a0.info.spawned_at,
                            a.scope@ == a0.scope,
                            a.context@ == a0.context,
                            a.conversation@ == a0.conversation,
                            a.info.files_modified.deep_view() == merge_files(
                                a0.info.files_modified,
                                fv,
                                i as nat,
                            ),
                    {
                        assert(fv[i as int] == files_modified@[i as int]@);
                        let ghost before = a.info.files_modified.deep_view();
                        if !contains_string(&a.info.files_modified, files_modified[i].as_str()) {
                            a.info.files_modified.push(copy_string(&files_modified[i]));
                            assert(a.info.files_modified.deep_view() =~= before.push(fv[i as int]));
                        }
                    }
                }
                let out = if a.info.turn_count >= a.info.max_turns || a.stall_counter >= 5 {
                    a.info.status = AgentStatus::Stalled;
                    Some(AgentStatus::Stalled)
                } else {
                    None
                };
                let ghost a1 = managed_model(a);
                let ghost expect = after_turn(a0, fv);
                assert(a1.info.files_modified == expect.info.files_modified);
                assert(a1.info.turn_count == expect.info.turn_count);
                assert(a1.stall_counter == expect.stall_counter);
                assert(a1.info.status == expect.info.status);
                assert(a1.info == expect.info);
                assert(a1 == expect);
                self.agents.insert(k, a);
                assert(self.model() =~= m.update(k as int, after_turn(a0, fv)));
                Ok(out)
            },
        }
    }

    /// Marks an agent completed.
    pub fn mark_completed(&mut self, id: &str) -> (r: Result<(), OrchestratorError>)
        requires
            old(self).wf(),
        ensures
            final(self).wf(),
            final(self).dir() == old(self).dir(),
            r is Ok <==> has_agent(old(self).model(), id@),
            r matches Err(e) ==> e matches OrchestratorError::NotFound(x) && x@ == id@
                && final(self).model() == old(self).model(),
            r is Ok ==> {
                let k = agent_at(old(self).model(), id@);
                final(self).model() == old(self).model().update(
                    k,
                    with_status(old(self).model()[k], AgentStatus::Completed),
                )
            },
    {
        let ghost m = self.model();
        match self.find(id) {
            None => Err(OrchestratorError::NotFound(id.to_owned())),
            Some(k) => {
                let mut a = self.agents.remove(k);
                a.info.status = AgentStatus::Completed;
                self.agents.insert(k, a);
                assert(self.model() =~= m.update(k as int, with_status(m[k as int], AgentStatus::Completed)));
                Ok(())
            },
        }
    }
}


/// An agent as it is restored from its report and its checkpoint.
pub open spec fn restored(info: AgentInfoView, cp: AgentCheckpointView) -> AgentModel {
    AgentModel {
        info,
        scope: cp.scope,
        context: cp.context_snapshot,
        conversation: cp.conversation_history,
        stall_counter: 0,
    }
}

/// The agents restored from the first `k` loaded (report, checkpoint) pairs.
pub open spec fn restored_agents(entries: Seq<(AgentInfoView, AgentCheckpointView)>, k: nat) -> Seq<
    AgentModel,
>
    decreases k,
{
    if k == 0 {
        seq![]
    } else {
        upsert(restored_agents(entries, (k - 1) as nat), restored(entries[k - 1].0, entries[k - 1].1))
    }
}

/// The plain values of loaded (report, checkpoint) pairs.
pub open spec fn entries_view(s: Seq<(AgentInfo, AgentCheckpoint)>) -> Seq<(AgentInfoView, AgentCheckpointView)> {
    s.map_values(|e: (AgentInfo, AgentCheckpoint)| (e.0@, e.1@))
}

/// Saves of agent checkpoints, in order, as plain values.
pub open spec fn checkpoints_view(s: Seq<AgentCheckpoint>) -> Seq<AgentCheckpointView> {
    s.map_values(|c: AgentCheckpoint| c@)
}

/// What handling `req` does, at time `at` and with `uuid` as the
/// randomness of a new identifier: `m0` is the agents before, `m1` after, and
/// `r` the outcome.
pub open spec fn handled(
    m0: Seq<AgentModel>,
    m1: Seq<AgentModel>,
    req: OrchestratorRequest,
    r: Result<(OrchestratorResponse, Effects), OrchestratorError>,
    uuid: Seq<char>,
    at: i64,
) -> bool {
    &&& r matches Err(_) ==> m1 == m0
    &&& match req {
        OrchestratorRequest::Spawn(sr) => r matches Ok((resp, fx)) && {
            &&& m1 == upsert(
                m0,
                spawned_agent(sr, subagent_id(uuid), at),
            )
            &&& resp matches OrchestratorResponse::Spawned { id, status } && id@
                == subagent_id(uuid) && status == AgentStatus::Running
            &&& fx.save_agents@.len() == 0 && fx.save_state is None
                && fx.remove_checkpoint is None
        },
        OrchestratorRequest::Status => r matches Ok((resp, fx)) && {
            &&& m1 == m0
            &&& resp matches OrchestratorResponse::Status { agents } && infos_view(
                agents@,
            ) == m0.map_values(|a: AgentModel| a.info)
            &&& fx.save_agents@.len() == 0 && fx.save_state is None
                && fx.remove_checkpoint is None
        },
        OrchestratorRequest::Collect { id } => {
            &&& m1 == m0
            &&& (r is Ok <==> has_agent(m0, id@))
            &&& r matches Ok((resp, fx)) ==> {
                let a = m0[agent_at(m0, id@)];
                &&& resp matches OrchestratorResponse::Collected {
                    id: rid,
                    output,
                    files_modified,
                    status,
                } && rid@ == id@ && output@ == a.context
                    && files_modified.deep_view() == a.info.files_modified && status
                    == a.info.status
                &&& fx.save_agents@.len() == 0 && fx.save_state is None
                    && fx.remove_checkpoint is None
            }
        },
        OrchestratorRequest::Freeze { id } => {
            &&& (r is Ok <==> has_agent(m0, id@) && m0[agent_at(
                m0,
                id@,
            )].info.status == AgentStatus::Running)
            &&& r matches Ok((resp, fx)) ==> {
                let k = agent_at(m0, id@);
                &&& m1 == m0.update(
                    k,
                    with_status(m0[k], AgentStatus::Frozen),
                )
                &&& resp is Acknowledged
                &&& checkpoints_view(fx.save_agents@) == seq![
                    checkpoint_of(m0[k], at),
                ]
                &&& fx.save_state is None && fx.remove_checkpoint is None
            }
        },
        OrchestratorRequest::FreezeAll => r matches Ok((resp, fx)) && {
            &&& m1 == all_frozen(m0)
            &&& resp is Acknowledged
            &&& checkpoints_view(fx.save_agents@) == running_checkpoints(
                m0,
                at,
                m0.len(),
            )
            &&& fx.save_state matches Some(st) && st.frozen_at == at && infos_view(
                st.agents@,
            ) == all_frozen(m0).map_values(|a: AgentModel| a.info)
            &&& fx.remove_checkpoint is None
        },
        OrchestratorRequest::Unfreeze { id, new_context } => {
            &&& (r is Ok <==> has_agent(m0, id@) && m0[agent_at(
                m0,
                id@,
            )].info.status == AgentStatus::Frozen)
            &&& r matches Ok((resp, fx)) ==> {
                let k = agent_at(m0, id@);
                &&& m1 == m0.update(
                    k,
                    unfrozen(
                        m0[k],
                        match new_context {
                            Some(c) => Some(c@),
                            None => None,
                        },
                    ),
                )
                &&& resp is Acknowledged
                &&& fx.save_agents@.len() == 0 && fx.save_state is None
                &&& fx.remove_checkpoint matches Some(x) && x@ == id@
                &&& !fx.ignore_remove_failure
            }
        },
        OrchestratorRequest::Kill { id } => {
            &&& (r is Ok <==> has_agent(m0, id@))
            &&& r matches Ok((resp, fx)) ==> {
                &&& m1 == m0.remove(
                    agent_at(m0, id@),
                )
                &&& resp is Acknowledged
                &&& fx.save_agents@.len() == 0 && fx.save_state is None
                &&& fx.remove_checkpoint matches Some(x) && x@ == id@
                &&& fx.ignore_remove_failure
            }
        },
    }
}

impl Orchestrator {
    /// Restores an orchestrator from what was loaded from disk: for each agent
    /// of the saved state whose checkpoint could be read, its report and its
    /// checkpoint, in the state's order.
    pub fn restore(project_dir: &str, entries: Vec<(AgentInfo, AgentCheckpoint)>) -> (r: Self)
        ensures
            r.wf(),
            r.dir() == project_dir@,
            r.model() == restored_agents(entries_view(entries@), entries@.len()),
    {
        let ghost ev = entries_view(entries@);
        let mut orch = Orchestrator::new(project_dir);
        let mut rest = entries;
        let total = rest.len();
        let mut done: usize = 0;
        assert(entries_view(rest@) == ev.skip(0));
        while rest.len() > 0
            invariant
                orch.wf(),
                orch.dir() == project_dir@,
                done + rest@.len() == total,
                total == ev.len(),
                entries_view(rest@) == ev.skip(done as int),
                orch.model() == restored_agents(ev, done as nat),
            decreases rest@.len(),
        {
            let ghost rest_before = rest@;
            let (info, cp) = rest.remove(0);
            assert(rest@ == rest_before.drop_first());
            assert(entries_view(rest@) =~= entries_view(rest_before).drop_first());
            assert(ev.skip(done as int)[0] == ev[done as int]);
            assert(entries_view(rest_before)[0] == (info@, cp@));
            assert(ev[done as int] == (info@, cp@));
            let agent = ManagedAgent {
                info,
                scope: cp.scope,
                context: cp.context_snapshot,
                conversation: cp.conversation_history,
                stall_counter: 0,
            };
            assert(managed_model(agent) == restored(ev[done as int].0, ev[done as int].1));
            orch.upsert_agent(agent);
            assert(entries_view(rest@) =~= ev.skip(done + 1));
            done += 1;
        }
        assert(ev.len() == entries@.len());
        orch
    }

    /// Handles a request from the main agent, at time `at` and with `uuid` as
    /// the randomness of a new agent's identifier. Returns the response and
    /// the checkpoint files the caller then saves or removes.
    pub fn handle_with(&mut self, req: OrchestratorRequest, uuid: &str, at: i64) -> (r: Result<
        (OrchestratorResponse, Effects),
        OrchestratorError,
    >)
        requires
            old(self).wf(),
            uuid@.len() >= 8,
        ensures
            final(self).wf(),
            final(self).dir() == old(self).dir(),
            handled(old(self).model(), final(self).model(), req, r, uuid@, at),
    {
        match req {
            OrchestratorRequest::Spawn(sr) => {
                let cs = chars_of(uuid);
                let head = string_from_prefix(&cs, 8);
                let mut id = "subagent-".to_owned();
                id.append(head.as_str());
                let resp = self.spawn_with(sr, id, at);
                Ok((resp, Effects::none()))
            },
            OrchestratorRequest::Status => Ok((self.status(), Effects::none())),
            OrchestratorRequest::Collect { id } => match self.collect(id.as_str()) {
                Ok(resp) => Ok((resp, Effects::none())),
                Err(e) => Err(e),
            },
            OrchestratorRequest::Freeze { id } => match self.freeze_at(id.as_str(), at) {
                Ok(cp) => {
                    let mut saves: Vec<AgentCheckpoint> = Vec::new();
                    saves.push(cp);
                    assert(checkpoints_view(saves@) =~= seq![saves@[0]@]);
                    Ok(
                        (
                            OrchestratorResponse::Acknowledged,
                            Effects {
                                save_agents: saves,
                                save_state: None,
                                remove_checkpoint: None,
                                ignore_remove_failure: false,
                            },
                        ),
                    )
                },
                Err(e) => Err(e),
            },
            OrchestratorRequest::FreezeAll => {
                let (saves, state) = self.freeze_all_at(at);
                Ok(
                    (
                        OrchestratorResponse::Acknowledged,
                        Effects {
                            save_agents: saves,
                            save_state: Some(state),
                            remove_checkpoint: None,
                            ignore_remove_failure: false,
                        },
                    ),
                )
            },
            OrchestratorRequest::Unfreeze { id, new_context } => match self.unfreeze(
                id.as_str(),
                new_context,
            ) {
                Ok(()) => Ok(
                    (
                        OrchestratorResponse::Acknowledged,
                        Effects {
                            save_agents: Vec::new(),
                            save_state: None,
                            remove_checkpoint: Some(id),
                            ignore_remove_failure: false,
                        },
                    ),
                ),
                Err(e) => Err(e),
            },
            OrchestratorRequest::Kill { id } => match self.kill(id.as_str()) {
                Ok(()) => Ok(
                    (
                        OrchestratorResponse::Acknowledged,
                        Effects {
                            save_agents: Vec::new(),
                            save_state: None,
                            remove_checkpoint: Some(id),
                            ignore_remove_failure: true,
                        },
                    ),
                ),
                Err(e) => Err(e),
            },
        }
    }

    /// Handles a request from the main agent at the current time, drawing a
    /// fresh UUID for a spawned agent's identifier.
    pub fn handle(&mut self, req: OrchestratorRequest) -> (r: Result<
        (OrchestratorResponse, Effects),
        OrchestratorError,
    >)
        requires
            old(self).wf(),
        ensures
            final(self).wf(),
            final(self).dir() == old(self).dir(),
            exists|uuid: Seq<char>, at: i64|
                uuid.len() == 36 && handled(old(self).model(), final(self).model(), req, r, uuid, at),
    {
        let uuid = new_uuid_text();
        let at = now_micros();
        self.handle_with(req, uuid.as_str(), at)
    }
}

impl Effects {
    /// No file-system work.
    pub fn none() -> (r: Self)
        ensures
            r.save_agents@.len() == 0,
            r.save_state is None,
            r.remove_checkpoint is None,
            !r.ignore_remove_failure,
    {
        Effects {
            save_agents: Vec::new(),
            save_state: None,
            remove_checkpoint: None,
            ignore_remove_failure: false,
        }
    }
}

/// Freezing a running agent and resuming it without a new context gives the
/// orchestrator back the state it had.
pub proof fn law_freeze_then_unfreeze_restores(m: Seq<AgentModel>, id: Seq<char>)
    requires
        ids_unique(m),
        has_agent(m, id),
        m[agent_at(m, id)].info.status == AgentStatus::Running,
    ensures
        ({
            let k = agent_at(m, id);
            let f = m.update(k, with_status(m[k], AgentStatus::Frozen));
            &&& has_agent(f, id)
            &&& agent_at(f, id) == k
            &&& f[k].info.status == AgentStatus::Frozen
            &&& f.update(agent_at(f, id), unfrozen(f[agent_at(f, id)], None)) == m
        }),
{
    let k = agent_at(m, id);
    reveal(has_agent);
    reveal(agent_at);
    let w = choose|i: int| 0 <= i < m.len() && m[i].info.id == id;
    assert(0 <= k < m.len() && m[k].info.id == id);
    let f = m.update(k, with_status(m[k], AgentStatus::Frozen));
    assert(ids_unique(f)) by {
        assert forall|i: int, j: int| 0 <= i < j < f.len() implies f[i].info.id != f[j].info.id by {
            assert(m[i].info.id != m[j].info.id);
        }
    }
    lemma_agent_at(f, id, k);
    assert(unfrozen(f[k], None) == m[k]);
    assert(f.update(k, unfrozen(f[k], None)) =~= m);
}

/// The (report, checkpoint) pairs that freezing every running agent among the
/// first `k` of `m` at time `at` leaves to restore from, in agent order: the
/// frozen agent's report and the checkpoint saved for it.
pub open spec fn frozen_entries(m: Seq<AgentModel>, at: i64, k: nat) -> Seq<
    (AgentInfoView, AgentCheckpointView),
>
    decreases k,
{
    if k == 0 {
        seq![]
    } else {
        let prev = frozen_entries(m, at, (k - 1) as nat);
        if m[k - 1].info.status == AgentStatus::Running {
            prev.push((with_status(m[k - 1], AgentStatus::Frozen).info, checkpoint_of(m[k - 1], at)))
        } else {
            prev
        }
    }
}

/// The agents among the first `k` of `m` that were running, frozen and with
/// their idle-turn counters cleared, in agent order.
pub open spec fn frozen_running(m: Seq<AgentModel>, k: nat) -> Seq<AgentModel>
    decreases k,
{
    if k == 0 {
        seq![]
    } else {
        let prev = frozen_running(m, (k - 1) as nat);
        if m[k - 1].info.status == AgentStatus::Running {
            prev.push(AgentModel { stall_counter: 0, ..with_status(m[k - 1], AgentStatus::Frozen) })
        } else {
            prev
        }
    }
}

proof fn lemma_restored_prefix(
    s: Seq<(AgentInfoView, AgentCheckpointView)>,
    x: (AgentInfoView, AgentCheckpointView),
    j: nat,
)
    requires
        j <= s.len(),
    ensures
        restored_agents(s.push(x), j) == restored_agents(s, j),
    decreases j,
{
    if j > 0 {
        lemma_restored_prefix(s, x, (j - 1) as nat);
        assert(s.push(x)[j - 1] == s[j - 1]);
    }
}

proof fn lemma_freeze_restore_step(m: Seq<AgentModel>, at: i64, k: nat)
    requires
        ids_unique(m),
        k <= m.len(),
    ensures
        frozen_entries(m, at, k).len() == frozen_running(m, k).len(),
        frozen_entries(m, at, k).map_values(
            |e: (AgentInfoView, AgentCheckpointView)| e.1,
        ) == running_checkpoints(m, at, k),
        restored_agents(frozen_entries(m, at, k), frozen_entries(m, at, k).len())
            == frozen_running(m, k),
        forall|t: int|
            0 <= t < frozen_running(m, k).len() ==> exists|j: int|
                0 <= j < k && #[trigger] frozen_running(m, k)[t].info.id == m[j].info.id,
    decreases k,
{
    if k > 0 {
        lemma_freeze_restore_step(m, at, (k - 1) as nat);
        let e0 = frozen_entries(m, at, (k - 1) as nat);
        let f0 = frozen_running(m, (k - 1) as nat);
        if m[k - 1].info.status == AgentStatus::Running {
            let x = (with_status(m[k - 1], AgentStatus::Frozen).info, checkpoint_of(m[k - 1], at));
            let a = AgentModel { stall_counter: 0, ..with_status(m[k - 1], AgentStatus::Frozen) };
            let e1 = e0.push(x);
            lemma_restored_prefix(e0, x, e0.len());
            assert(e1[e0.len() as int] == x);
            assert(restored(x.0, x.1) == a);
            assert(!has_agent(f0, a.info.id)) by {
                reveal(has_agent);
                if has_agent(f0, a.info.id) {
                    let t = choose|t: int| 0 <= t < f0.len() && f0[t].info.id == a.info.id;
                    let j = choose|j: int| 0 <= j < k - 1 && #[trigger] f0[t].info.id == m[j].info.id;
                    assert(m[j].info.id != m[k - 1].info.id);
                }
            }
            assert(restored_agents(e1, e1.len()) == f0.push(a));
            assert(e1.map_values(|e: (AgentInfoView, AgentCheckpointView)| e.1) =~= e0.map_values(
                |e: (AgentInfoView, AgentCheckpointView)| e.1,
            ).push(checkpoint_of(m[k - 1], at)));
            let f1 = f0.push(a);
            assert forall|t: int| 0 <= t < f1.len() implies exists|j: int|
                0 <= j < k && #[trigger] f1[t].info.id == m[j].info.id by {
                if t < f0.len() {
                    assert(f1[t] == f0[t]);
                    let j = choose|j: int| 0 <= j < k - 1 && #[trigger] f0[t].info.id == m[j].info.id;
                    assert(f1[t].info.id == m[j].info.id);
                } else {
                    assert(f1[t].info.id == m[k - 1].info.id);
                }
            }
        } else {
            assert forall|t: int| 0 <= t < f0.len() implies exists|j: int|
                0 <= j < k && #[trigger] f0[t].info.id == m[j].info.id by {
                let j = choose|j: int| 0 <= j < k - 1 && #[trigger] f0[t].info.id == m[j].info.id;
            }
        }
    }
}

/// Freezing every agent and then restoring from what the freeze saved (each
/// frozen agent's report with the checkpoint saved for it) gives back every
/// agent that was running, frozen, in the same order, with its task, scope,
/// context, conversation, turns and files, and its idle-turn counter cleared.
/// The checkpoints restored from are exactly those that the freeze returns;
/// when every agent was running, all of them come back.
pub proof fn law_freeze_all_then_restore(m: Seq<AgentModel>, at: i64)
    requires
        ids_unique(m),
    ensures
        frozen_entries(m, at, m.len()).map_values(
            |e: (AgentInfoView, AgentCheckpointView)| e.1,
        ) == running_checkpoints(m, at, m.len()),
        restored_agents(frozen_entries(m, at, m.len()), frozen_entries(m, at, m.len()).len())
            == frozen_running(m, m.len()),
        (forall|i: int| 0 <= i < m.len() ==> #[trigger] m[i].info.status == AgentStatus::Running)
            ==> frozen_running(m, m.len()) == all_frozen(m).map_values(
            |a: AgentModel| AgentModel { stall_counter: 0, ..a },
        ),
{
    lemma_freeze_restore_step(m, at, m.len());
    if forall|i: int| 0 <= i < m.len() ==> #[trigger] m[i].info.status == AgentStatus::Running {
        lemma_frozen_running_all(m, m.len());
    }
}

proof fn lemma_frozen_running_all(m: Seq<AgentModel>, k: nat)
    requires
        k <= m.len(),
        forall|i: int| 0 <= i < m.len() ==> #[trigger] m[i].info.status == AgentStatus::Running,
    ensures
        frozen_running(m, k) == all_frozen(m).take(k as int).map_values(
            |a: AgentModel| AgentModel { stall_counter: 0, ..a },
        ),
    decreases k,
{
    if k > 0 {
        lemma_frozen_running_all(m, (k - 1) as nat);
        assert(m[k - 1].info.status == AgentStatus::Running);
        assert(all_frozen(m).take(k as int) =~= all_frozen(m).take(k - 1).push(all_frozen(m)[k - 1]));
        assert(frozen_running(m, k) =~= all_frozen(m).take(k as int).map_values(
            |a: AgentModel| AgentModel { stall_counter: 0, ..a },
        ));
    } else {
        assert(all_frozen(m).take(0).map_values(|a: AgentModel| AgentModel { stall_counter: 0, ..a })
            =~= Seq::<AgentModel>::empty());
    }
    if k == m.len() {
        assert(all_frozen(m).take(k as int) =~= all_frozen(m));
    }
}

/// A turn that modifies a file clears the idle-turn count, whatever it was;
/// a turn that modifies none adds one to it. So an agent stalls for
/// idleness only after the stall limit of consecutive idle turns: a turn
/// stalls it exactly when its turn budget is then used up, or when the turn
/// modifies no file and ends the limit-th idle turn in a row. Every turn is
/// counted, and the files already listed stay listed.
pub proof fn law_productive_turn_resets_idle_count(a: AgentModel, new: Seq<Seq<char>>)
    requires
        a.stall_counter < usize::MAX,
        a.info.turn_count < usize::MAX,
    ensures
        new.len() > 0 ==> after_turn(a, new).stall_counter == 0,
        new.len() == 0 ==> after_turn(a, new).stall_counter == a.stall_counter + 1,
        turn_stalls(a, new) <==> (a.info.turn_count + 1 >= a.info.max_turns || (new.len() == 0
            && a.stall_counter + 1 >= 5)),
        after_turn(a, new).info.status == if turn_stalls(a, new) {
            AgentStatus::Stalled
        } else {
            a.info.status
        },
        after_turn(a, new).info.turn_count == a.info.turn_count + 1,
        after_turn(a, new).info.files_modified.take(a.info.files_modified.len() as int)
            == a.info.files_modified,
{
    law_merge_files(a.info.files_modified, new, new.len());
}

/// After a turn that modifies a file, an agent with turns left in its
/// budget is not stalled by the next idle turns until the stall limit of
/// them have passed: `k` idle turns (fewer than the limit) after a
/// productive turn leave its idle-turn count at `k`.
pub proof fn law_idle_turns_after_productive_turn(a: AgentModel, new: Seq<Seq<char>>)
    requires
        new.len() > 0,
        a.info.turn_count < usize::MAX,
    ensures
        ({
            let b = after_turn(a, new);
            let c = after_turn(b, seq![]);
            &&& b.stall_counter == 0
            &&& c.stall_counter == 1
            &&& (b.info.turn_count + 1 < b.info.max_turns ==> !turn_stalls(b, seq![]))
        }),
{
}

/// Merging a turn's modified files keeps every file listed before, adds
/// every new one, lists nothing else, and adds no duplicates.
pub proof fn law_merge_files(existing: Seq<Seq<char>>, new: Seq<Seq<char>>, k: nat)
    requires
        k <= new.len(),
    ensures
        merge_files(existing, new, k).len() >= existing.len(),
        merge_files(existing, new, k).take(existing.len() as int) == existing,
        forall|f: Seq<char>|
            #[trigger] merge_files(existing, new, k).contains(f) <==> (existing.contains(f) || new.take(
                k as int,
            ).contains(f)),
        existing.no_duplicates() ==> merge_files(existing, new, k).no_duplicates(),
    decreases k,
{
    if k > 0 {
        law_merge_files(existing, new, (k - 1) as nat);
        let prev = merge_files(existing, new, (k - 1) as nat);
        let x = new[k - 1];
        let nk = new.take(k as int);
        let nk1 = new.take(k - 1);
        assert(nk == nk1.push(x));
        assert forall|f: Seq<char>| nk.contains(f) <==> (nk1.contains(f) || f == x) by {
            if nk.contains(f) {
                let i = choose|i: int| 0 <= i < nk.len() && nk[i] == f;
                if i < k - 1 {
                    assert(nk1[i] == f);
                }
            }
            if nk1.contains(f) {
                let i = choose|i: int| 0 <= i < nk1.len() && nk1[i] == f;
                assert(nk[i] == f);
            }
            if f == x {
                assert(nk[k - 1] == f);
            }
        }
        if prev.contains(x) {
            assert(merge_files(existing, new, k) == prev);
        } else {
            let cur = prev.push(x);
            assert(merge_files(existing, new, k) == cur);
            assert forall|f: Seq<char>| cur.contains(f) <==> (prev.contains(f) || f == x) by {
                if cur.contains(f) {
                    let i = choose|i: int| 0 <= i < cur.len() && cur[i] == f;
                    if i < prev.len() {
                        assert(prev[i] == f);
                    }
                }
                if prev.contains(f) {
                    let i = choose|i: int| 0 <= i < prev.len() && prev[i] == f;
                    assert(cur[i] == f);
                }
                if f == x {
                    assert(cur[prev.len() as int] == f);
                }
            }
            assert(cur.take(existing.len() as int) =~= prev.take(existing.len() as int));
            if existing.no_duplicates() {
                assert forall|i: int, j: int| 0 <= i < cur.len() && 0 <= j < cur.len() && i != j
                    implies cur[i] != cur[j] by {
                    if i == prev.len() {
                        assert(prev.contains(cur[j]) ==> cur[j] != x);
                        assert(prev[j] == cur[j]);
                    } else if j == prev.len() {
                        assert(prev[i] == cur[i]);
                    }
                }
            }
        }
    } else {
        assert(new.take(0) =~= Seq::<Seq<char>>::empty());
        assert(existing.take(existing.len() as int) == existing);
    }
}

} // verus!
