//! Configuration of the human-in-the-loop layer and its defaults.
use vstd::prelude::*;

verus! {

#[derive(Debug)]
pub struct HitlConfig {
    pub editor: EditorConfig,
    pub diff: DiffConfig,
    pub approval: ApprovalConfig,
    pub session: SessionConfig,
    pub freeze: FreezeConfig,
}

#[derive(Debug)]
pub struct EditorConfig {
    pub command: String,
    pub diff_command: Option<String>,
    pub wait_for_close: bool,
}

#[derive(Debug, Clone, Copy)]
pub struct DiffConfig {
    pub max_lines: usize,
    pub auto_accept_empty: bool,
}

#[derive(Debug, Clone, Copy)]
pub struct ApprovalConfig {
    pub default_timeout_secs: u64,
    pub session_accept_warning: bool,
}

#[derive(Debug, Clone, Copy)]
pub struct SessionConfig {
    pub max_sessions_kept: usize,
    pub auto_name: bool,
    pub crash_recovery_prompt: bool,
}

#[derive(Debug, Clone, Copy)]
pub struct FreezeConfig {
    pub auto_freeze_on_disconnect: bool,
    pub checkpoint_conversation: bool,
}

impl Default for HitlConfig {
    fn default() -> (r: Self)
        ensures
            r.editor.command@ == "nvim"@,
            r.editor.diff_command is None,
            r.editor.wait_for_close,
            r.diff.max_lines == 20,
            r.diff.auto_accept_empty,
            r.approval.default_timeout_secs == 0,
            r.approval.session_accept_warning,
            r.session.max_sessions_kept == 50,
            r.session.auto_name,
            r.session.crash_recovery_prompt,
            r.freeze.auto_freeze_on_disconnect,
            r.freeze.checkpoint_conversation,
    {
        HitlConfig {
            editor: EditorConfig {
                command: "nvim".to_owned(),
                diff_command: None,
                wait_for_close: true,
            },
            diff: DiffConfig { max_lines: 20, auto_accept_empty: true },
            approval: ApprovalConfig { default_timeout_secs: 0, session_accept_warning: true },
            session: SessionConfig {
                max_sessions_kept: 50,
                auto_name: true,
                crash_recovery_prompt: true,
            },
            freeze: FreezeConfig { auto_freeze_on_disconnect: true, checkpoint_conversation: true },
        }
    }
}

} // verus!
