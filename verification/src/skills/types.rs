//! Plain data exchanged between the agent and the skill daemon.
use vstd::prelude::*;
use vstd::string::*;

use crate::text::str_eq;

verus! {

#[derive(Debug, Clone, Copy, PartialEq, Eq, Structural)]
pub enum SkillMode {
    Context,
    Action,
    Hybrid,
}

#[derive(Debug, Clone, Copy, PartialEq, Eq, Structural)]
pub enum SkillPool {
    System,
    User,
    Project,
}

#[derive(Debug, Clone)]
pub enum EventType {
    PreWrite,
    PostWrite,
    PreExec,
    PostExec,
    PreCommit,
    SessionStart,
    SessionEnd,
}

/// The wire name of an event.
pub open spec fn event_name(e: EventType) -> Seq<char> {
    match e {
        EventType::PreWrite => "pre-write"@,
        EventType::PostWrite => "post-write"@,
        EventType::PreExec => "pre-exec"@,
        EventType::PostExec => "post-exec"@,
        EventType::PreCommit => "pre-commit"@,
        EventType::SessionStart => "session-start"@,
        EventType::SessionEnd => "session-end"@,
    }
}

/// The event that a wire name denotes, if any.
pub open spec fn event_of_name(s: Seq<char>) -> Option<EventType> {
    if s == "pre-write"@ {
        Some(EventType::PreWrite)
    } else if s == "post-write"@ {
        Some(EventType::PostWrite)
    } else if s == "pre-exec"@ {
        Some(EventType::PreExec)
    } else if s == "post-exec"@ {
        Some(EventType::PostExec)
    } else if s == "pre-commit"@ {
        Some(EventType::PreCommit)
    } else if s == "session-start"@ {
        Some(EventType::SessionStart)
    } else if s == "session-end"@ {
        Some(EventType::SessionEnd)
    } else {
        None
    }
}

impl EventType {
    pub fn as_str(&self) -> (r: &'static str)
        ensures
            r@ == event_name(*self),
    {
        match self {
            EventType::PreWrite => "pre-write",
            EventType::PostWrite => "post-write",
            EventType::PreExec => "pre-exec",
            EventType::PostExec => "post-exec",
            EventType::PreCommit => "pre-commit",
            EventType::SessionStart => "session-start",
            EventType::SessionEnd => "session-end",
        }
    }

    pub fn from_str(s: &str) -> (r: Option<Self>)
        ensures
            r == event_of_name(s@),
    {
        if str_eq(s, "pre-write") {
            Some(EventType::PreWrite)
        } else if str_eq(s, "post-write") {
            Some(EventType::PostWrite)
        } else if str_eq(s, "pre-exec") {
            Some(EventType::PreExec)
        } else if str_eq(s, "post-exec") {
            Some(EventType::PostExec)
        } else if str_eq(s, "pre-commit") {
            Some(EventType::PreCommit)
        } else if str_eq(s, "session-start") {
            Some(EventType::SessionStart)
        } else if str_eq(s, "session-end") {
            Some(EventType::SessionEnd)
        } else {
            None
        }
    }
}

/// Parsing an event's wire name gives the event back.
pub proof fn law_event_name_round_trip(e: EventType)
    ensures
        event_of_name(event_name(e)) == Some(e),
{
    reveal_strlit("pre-write");
    reveal_strlit("post-write");
    reveal_strlit("pre-exec");
    reveal_strlit("post-exec");
    reveal_strlit("pre-commit");
    reveal_strlit("session-start");
    reveal_strlit("session-end");
    assert("pre-write"@.len() == 9 && "post-write"@.len() == 10 && "pre-exec"@.len() == 8);
    assert("post-exec"@.len() == 9 && "pre-commit"@.len() == 10);
    assert("session-start"@.len() == 13 && "session-end"@.len() == 11);
    assert("pre-write"@[1] != "post-exec"@[1]);
    assert("post-write"@[1] != "pre-commit"@[1]);
    assert("pre-write"@ != "post-write"@);
    assert("pre-write"@ != "pre-exec"@);
    assert("pre-write"@ != "post-exec"@);
    assert("pre-write"@ != "pre-commit"@);
    assert("pre-write"@ != "session-start"@);
    assert("pre-write"@ != "session-end"@);
    assert("post-write"@ != "pre-exec"@);
    assert("post-write"@ != "post-exec"@);
    assert("post-write"@ != "pre-commit"@);
    assert("post-write"@ != "session-start"@);
    assert("post-write"@ != "session-end"@);
    assert("pre-exec"@ != "post-exec"@);
    assert("pre-exec"@ != "pre-commit"@);
    assert("pre-exec"@ != "session-start"@);
    assert("pre-exec"@ != "session-end"@);
    assert("post-exec"@ != "pre-commit"@);
    assert("post-exec"@ != "session-start"@);
    assert("post-exec"@ != "session-end"@);
    assert("pre-commit"@ != "session-start"@);
    assert("pre-commit"@ != "session-end"@);
    assert("session-start"@ != "session-end"@);
}

/// A name that parses to an event is that event's wire name.
pub proof fn law_event_parse_is_exact(s: Seq<char>)
    ensures
        event_of_name(s) matches Some(e) ==> event_name(e) == s,
{
}

/// A triggered skill result returned by the daemon.
#[derive(Debug)]
pub struct TriggeredSkill {
    pub skill: String,
    pub mode: SkillMode,
    pub reason: String,
    pub priority: i32,
    pub pre_hooks: Vec<String>,
    pub post_hooks: Vec<String>,
    pub prompt_file: Option<String>,
    pub inject_output: bool,
}

/// The plain value of a [`TriggeredSkill`].
pub struct TriggeredSkillView {
    pub skill: Seq<char>,
    pub mode: SkillMode,
    pub reason: Seq<char>,
    pub priority: i32,
    pub pre_hooks: Seq<Seq<char>>,
    pub post_hooks: Seq<Seq<char>>,
    pub prompt_file: Option<Seq<char>>,
    pub inject_output: bool,
}

/// The plain value of an optional string.
pub open spec fn opt_string_view(o: Option<String>) -> Option<Seq<char>> {
    match o {
        Some(s) => Some(s@),
        None => None,
    }
}

impl View for TriggeredSkill {
    type V = TriggeredSkillView;

    open spec fn view(&self) -> TriggeredSkillView {
        TriggeredSkillView {
            skill: self.skill@,
            mode: self.mode,
            reason: self.reason@,
            priority: self.priority,
            pre_hooks: self.pre_hooks.deep_view(),
            post_hooks: self.post_hooks.deep_view(),
            prompt_file: opt_string_view(self.prompt_file),
            inject_output: self.inject_output,
        }
    }
}

/// The plain values of a sequence of triggered skills.
pub open spec fn triggered_view(s: Seq<TriggeredSkill>) -> Seq<TriggeredSkillView> {
    s.map_values(|t: TriggeredSkill| t@)
}

/// Request from agent to daemon.
#[derive(Debug)]
pub enum DaemonRequest {
    Evaluate { prompt: String, event: String, files: Vec<String> },
    Reload,
    Register { path: String },
    Query { prompt: String, top_k: usize },
}

/// Response from daemon to agent.
#[derive(Debug)]
pub struct DaemonResponse {
    pub triggered: Vec<TriggeredSkill>,
}

} // verus!
