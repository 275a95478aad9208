//! Plain data of the human-in-the-loop layer.
use vstd::prelude::*;

verus! {

/// User's response to a diff review prompt.
#[derive(Debug, Clone, Copy, PartialEq, Eq, Structural)]
pub enum DiffApproval {
    Accept,
    SessionAccept,
    Edit,
    Abort,
}

/// User's response in a long-loop interaction.
#[derive(Debug, Clone, Copy, PartialEq, Eq, Structural)]
pub enum LoopSignal {
    Done,
    Unfinished,
    Abort,
}

/// Interrupt command from the user.
#[derive(Debug, Clone, Copy, PartialEq, Eq, Structural)]
pub enum Interrupt {
    /// Ctrl+Shift+P
    Freeze,
    /// Ctrl+Shift+M
    ModifyPrompt,
    /// Ctrl+C
    Cancel,
    /// Ctrl+D
    EndSession,
}

/// Session status.
#[derive(Debug, Clone, Copy, PartialEq, Eq, Structural)]
pub enum SessionStatus {
    Active,
    Frozen,
    Completed,
    Crashed,
}

/// Session metadata entry in the index.
#[derive(Debug)]
pub struct SessionMeta {
    pub id: String,
    pub name: String,
    pub status: SessionStatus,
    pub created_at: String,
    pub last_active: String,
    pub turn_count: usize,
    pub model: String,
}

/// The plain value of a [`SessionMeta`].
pub struct SessionMetaView {
    pub id: Seq<char>,
    pub name: Seq<char>,
    pub status: SessionStatus,
    pub created_at: Seq<char>,
    pub last_active: Seq<char>,
    pub turn_count: usize,
    pub model: Seq<char>,
}

impl View for SessionMeta {
    type V = SessionMetaView;

    open spec fn view(&self) -> SessionMetaView {
        SessionMetaView {
            id: self.id@,
            name: self.name@,
            status: self.status,
            created_at: self.created_at@,
            last_active: self.last_active@,
            turn_count: self.turn_count,
            model: self.model@,
        }
    }
}

/// The plain values of a sequence of session entries.
pub open spec fn metas_view(s: Seq<SessionMeta>) -> Seq<SessionMetaView> {
    s.map_values(|m: SessionMeta| m@)
}

impl Clone for SessionMeta {
    fn clone(&self) -> (r: Self)
        ensures
            r@ == self@,
    {
        SessionMeta {
            id: self.id.clone(),
            name: self.name.clone(),
            status: self.status,
            created_at: self.created_at.clone(),
            last_active: self.last_active.clone(),
            turn_count: self.turn_count,
            model: self.model.clone(),
        }
    }
}

/// A diff hunk for display.
#[derive(Debug)]
pub struct DiffHunk {
    pub file: String,
    pub old_content: String,
    pub new_content: String,
    pub unified_diff: String,
}

/// Context correction message injected after human edit.
#[derive(Debug)]
pub struct HumanCorrection {
    pub file: String,
    pub llm_version: String,
    pub human_version: String,
    pub diff: String,
}

impl Clone for DiffHunk {
    fn clone(&self) -> (r: Self)
        ensures
            r.file@ == self.file@,
            r.old_content@ == self.old_content@,
            r.new_content@ == self.new_content@,
            r.unified_diff@ == self.unified_diff@,
    {
        DiffHunk {
            file: self.file.clone(),
            old_content: self.old_content.clone(),
            new_content: self.new_content.clone(),
            unified_diff: self.unified_diff.clone(),
        }
    }
}

impl Clone for HumanCorrection {
    fn clone(&self) -> (r: Self)
        ensures
            r.file@ == self.file@,
            r.llm_version@ == self.llm_version@,
            r.human_version@ == self.human_version@,
            r.diff@ == self.diff@,
    {
        HumanCorrection {
            file: self.file.clone(),
            llm_version: self.llm_version.clone(),
            human_version: self.human_version.clone(),
            diff: self.diff.clone(),
        }
    }
}

} // verus!
