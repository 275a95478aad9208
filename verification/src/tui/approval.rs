//! The authority approval panel.
use vstd::prelude::*;

verus! {

/// The four approval options for authority requests.
#[derive(Debug, Clone, Copy, PartialEq, Eq, Structural)]
pub enum ApprovalChoice {
    /// Approve this single file mutation only
    SingleApprove,
    /// Trust every later request of the session
    ApproveAll,
    /// Pause and wait for human to finish editing/reviewing
    HumanInterrupt,
    /// Reject and abort the current operation
    Reject,
}

/// Authority approval panel state.
#[derive(Debug)]
pub struct ApprovalPanel {
    /// Whether the panel is visible
    pub visible: bool,
    /// Description of what requires approval
    pub description: String,
    /// File path being mutated (if applicable)
    pub file_path: Option<String>,
    /// Currently selected option (0-3)
    pub selected: usize,
    /// The user's final choice (set when they confirm)
    pub choice: Option<ApprovalChoice>,
}

/// The option at a selection index; any index past the last means reject.
pub open spec fn choice_at(selected: usize) -> ApprovalChoice {
    if selected == 0 {
        ApprovalChoice::SingleApprove
    } else if selected == 1 {
        ApprovalChoice::ApproveAll
    } else if selected == 2 {
        ApprovalChoice::HumanInterrupt
    } else {
        ApprovalChoice::Reject
    }
}

impl Default for ApprovalPanel {
    fn default() -> (r: Self)
        ensures
            !r.visible,
            r.description@.len() == 0,
            r.file_path is None,
            r.selected == 0,
            r.choice is None,
    {
        ApprovalPanel {
            visible: false,
            description: String::new(),
            file_path: None,
            selected: 0,
            choice: None,
        }
    }
}

impl ApprovalPanel {
    pub fn new() -> (r: Self)
        ensures
            !r.visible,
            r.description@.len() == 0,
            r.file_path is None,
            r.selected == 0,
            r.choice is None,
    {
        Self::default()
    }

    /// Show the approval panel for a mutation request.
    pub fn request(&mut self, description: String, file_path: Option<String>)
        ensures
            final(self).visible,
            final(self).description == description,
            final(self).file_path == file_path,
            final(self).selected == 0,
            final(self).choice is None,
    {
        self.visible = true;
        self.description = description;
        self.file_path = file_path;
        self.selected = 0;
        self.choice = None;
    }

    /// Move selection up.
    pub fn select_prev(&mut self)
        ensures
            final(self).selected == if old(self).selected > 0 {
                (old(self).selected - 1) as usize
            } else {
                0
            },
            final(self).visible == old(self).visible,
            final(self).choice == old(self).choice,
            final(self).description == old(self).description,
            final(self).file_path == old(self).file_path,
    {
        self.selected = self.selected.saturating_sub(1);
    }

    /// Move selection down.
    pub fn select_next(&mut self)
        requires
            old(self).selected < usize::MAX,
        ensures
            final(self).selected == if old(self).selected + 1 < 3 {
                (old(self).selected + 1) as usize
            } else {
                3
            },
            final(self).visible == old(self).visible,
            final(self).choice == old(self).choice,
            final(self).description == old(self).description,
            final(self).file_path == old(self).file_path,
    {
        let n = self.selected + 1;
        self.selected = if n < 3 {
            n
        } else {
            3
        };
    }

    /// Confirm the current selection.
    pub fn confirm(&mut self)
        ensures
            final(self).choice == Some(choice_at(old(self).selected)),
            !final(self).visible,
            final(self).selected == old(self).selected,
            final(self).description == old(self).description,
            final(self).file_path == old(self).file_path,
    {
        self.choice = Some(
            if self.selected == 0 {
                ApprovalChoice::SingleApprove
            } else if self.selected == 1 {
                ApprovalChoice::ApproveAll
            } else if self.selected == 2 {
                ApprovalChoice::HumanInterrupt
            } else {
                ApprovalChoice::Reject
            },
        );
        self.visible = false;
    }

    /// Reject (shortcut via Esc).
    pub fn reject(&mut self)
        ensures
            final(self).choice == Some(ApprovalChoice::Reject),
            !final(self).visible,
            final(self).selected == old(self).selected,
            final(self).description == old(self).description,
            final(self).file_path == old(self).file_path,
    {
        self.choice = Some(ApprovalChoice::Reject);
        self.visible = false;
    }
}

/// Moving the selection up or down keeps it among the four options, and the
/// last option is the rejection.
pub proof fn law_selection_stays_in_range(selected: usize)
    ensures
        selected <= 3 ==> (if selected + 1 < 3 {
            selected + 1
        } else {
            3
        }) <= 3,
        selected <= 3 ==> (if selected > 0 {
            selected - 1
        } else {
            0
        }) <= 3,
        choice_at(3) == ApprovalChoice::Reject,
{
}

} // verus!
