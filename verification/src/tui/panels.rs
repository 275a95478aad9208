//! The task panel's layout.
use vstd::prelude::*;

verus! {

/// Whether each collapsible panel is expanded.
#[derive(Debug, Clone, Copy)]
pub struct PanelState {
    pub tasks_expanded: bool,
}

#[derive(Debug, Clone, Copy, PartialEq, Eq, Structural)]
pub enum TaskStatus {
    Completed,
    InProgress,
    Pending,
}

/// A task shown in the task panel.
#[derive(Debug)]
pub struct TaskInfo {
    pub name: String,
    pub status: TaskStatus,
}

/// Calculate the height needed for the task panel: nothing without tasks,
/// the header line, and one line per task when expanded. (The task count is
/// taken as a `u16`, keeping its low sixteen bits.)
pub fn task_panel_height(panel_state: &PanelState, tasks: &Vec<TaskInfo>) -> (r: u16)
    requires
        panel_state.tasks_expanded && tasks@.len() > 0 ==> tasks@.len() % 0x10000 != 0xFFFF,
    ensures
        r == if tasks@.len() == 0 {
            0
        } else if panel_state.tasks_expanded {
            1 + tasks@.len() % 0x10000
        } else {
            1
        },
{
    if tasks.len() == 0 {
        return 0;
    }
    if panel_state.tasks_expanded {
        let n = (tasks.len() % 0x10000) as u16;
        1 + n
    } else {
        1
    }
}

} // verus!
