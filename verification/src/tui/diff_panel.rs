//! The diff review panel.
use vstd::prelude::*;

use crate::text::{lines, lines_of, starts_with, str_starts_with};

verus! {

/// A single line in a diff.
#[derive(Debug)]
pub struct DiffLine {
    pub kind: DiffKind,
    pub content: String,
}

#[derive(Debug, Clone, Copy, PartialEq, Eq, Structural)]
pub enum DiffKind {
    Header,
    Context,
    Added,
    Removed,
}

/// User action on the diff review.
#[derive(Debug, Clone, Copy, PartialEq, Eq, Structural)]
pub enum DiffAction {
    /// Accept the changes as-is
    Accept,
    /// Open in external editor for modification
    EditExternal,
    /// Reject the changes
    Reject,
}

/// Git diff review panel state.
#[derive(Debug)]
pub struct DiffPanel {
    /// Whether the panel is visible
    pub visible: bool,
    /// File path being changed
    pub file_path: String,
    /// Diff lines to display
    pub lines: Vec<DiffLine>,
    /// Scroll offset
    pub scroll: usize,
    /// User's final action
    pub action: Option<DiffAction>,
    /// Currently selected footer option (0=Accept, 1=Edit, 2=Reject)
    pub selected: usize,
}

/// The kind of a diff line: `+++`, `---` and `@@` lines are headers, other
/// lines starting with `+` or `-` are additions or removals.
pub open spec fn line_kind(l: Seq<char>) -> DiffKind {
    if starts_with(l, "+++"@) || starts_with(l, "---"@) || starts_with(l, "@@"@) {
        DiffKind::Header
    } else if starts_with(l, "+"@) {
        DiffKind::Added
    } else if starts_with(l, "-"@) {
        DiffKind::Removed
    } else {
        DiffKind::Context
    }
}

/// The action at a footer index; any index past the last means reject.
pub open spec fn action_at(selected: usize) -> DiffAction {
    if selected == 0 {
        DiffAction::Accept
    } else if selected == 1 {
        DiffAction::EditExternal
    } else {
        DiffAction::Reject
    }
}

/// The plain value of the panel's lines.
pub open spec fn diff_lines_view(s: Seq<DiffLine>) -> Seq<(DiffKind, Seq<char>)> {
    s.map_values(|d: DiffLine| (d.kind, d.content@))
}

/// The largest scroll offset for `n` lines: five lines stay in view.
pub open spec fn max_scroll(n: nat) -> nat {
    if n > 5 {
        (n - 5) as nat
    } else {
        0
    }
}

impl Default for DiffPanel {
    fn default() -> (r: Self)
        ensures
            !r.visible,
            r.file_path@.len() == 0,
            r.lines@.len() == 0,
            r.scroll == 0,
            r.action is None,
            r.selected == 0,
    {
        DiffPanel {
            visible: false,
            file_path: String::new(),
            lines: Vec::new(),
            scroll: 0,
            action: None,
            selected: 0,
        }
    }
}

impl DiffPanel {
    pub fn new() -> (r: Self)
        ensures
            !r.visible,
            r.file_path@.len() == 0,
            r.lines@.len() == 0,
            r.scroll == 0,
            r.action is None,
            r.selected == 0,
    {
        Self::default()
    }

    /// Show the diff panel with a unified diff string.
    pub fn show_diff(&mut self, file_path: String, diff_text: &str)
        ensures
            final(self).visible,
            final(self).file_path == file_path,
            final(self).scroll == 0,
            final(self).selected == 0,
            final(self).action is None,
            diff_lines_view(final(self).lines@) == lines_of(diff_text@).map_values(
                |l: Seq<char>| (line_kind(l), l),
            ),
    {
        self.visible = true;
        self.file_path = file_path;
        self.scroll = 0;
        self.selected = 0;
        self.action = None;
        let ls = lines(diff_text);
        let ghost lv = ls.deep_view();
        let mut out: Vec<DiffLine> = Vec::new();
        proof {
            reveal_strlit("+++");
            reveal_strlit("---");
            reveal_strlit("@@");
            reveal_strlit("+");
            reveal_strlit("-");
        }
        for i in 0..ls.len()
            invariant
                lv == ls.deep_view(),
                diff_lines_view(out@) == lv.take(i as int).map_values(
                    |l: Seq<char>| (line_kind(l), l),
                ),
        {
            assert(lv[i as int] == ls@[i as int]@);
            let l = ls[i].as_str();
            let kind = if str_starts_with(l, "+++") || str_starts_with(l, "---") || str_starts_with(
                l,
                "@@",
            ) {
                DiffKind::Header
            } else if str_starts_with(l, "+") {
                DiffKind::Added
            } else if str_starts_with(l, "-") {
                DiffKind::Removed
            } else {
                DiffKind::Context
            };
            let ghost before = diff_lines_view(out@);
            out.push(DiffLine { kind, content: l.to_owned() });
            assert(diff_lines_view(out@) =~= before.push((line_kind(lv[i as int]), lv[i as int])));
            assert(lv.take(i + 1) =~= lv.take(i as int).push(lv[i as int]));
            assert(lv.take(i + 1).map_values(|l: Seq<char>| (line_kind(l), l)) =~= lv.take(
                i as int,
            ).map_values(|l: Seq<char>| (line_kind(l), l)).push((line_kind(lv[i as int]), lv[i as int])));
        }
        assert(lv.take(ls.len() as int) == lv);
        self.lines = out;
    }

    pub fn scroll_up(&mut self, n: usize)
        ensures
            final(self).scroll == if old(self).scroll >= n {
                (old(self).scroll - n) as usize
            } else {
                0
            },
            final(self).lines == old(self).lines,
            final(self).selected == old(self).selected,
    {
        self.scroll = self.scroll.saturating_sub(n);
    }

    pub fn scroll_down(&mut self, n: usize)
        requires
            old(self).scroll + n <= usize::MAX,
        ensures
            final(self).scroll == if old(self).scroll + n < max_scroll(old(self).lines@.len()) {
                (old(self).scroll + n) as usize
            } else {
                max_scroll(old(self).lines@.len()) as usize
            },
            final(self).lines == old(self).lines,
            final(self).selected == old(self).selected,
    {
        let max = self.lines.len().saturating_sub(5);
        let s = self.scroll + n;
        self.scroll = if s < max {
            s
        } else {
            max
        };
    }

    pub fn select_prev(&mut self)
        ensures
            final(self).selected == if old(self).selected > 0 {
                (old(self).selected - 1) as usize
            } else {
                0
            },
            final(self).action == old(self).action,
            final(self).visible == old(self).visible,
    {
        self.selected = self.selected.saturating_sub(1);
    }

    pub fn select_next(&mut self)
        requires
            old(self).selected < usize::MAX,
        ensures
            final(self).selected == if old(self).selected + 1 < 2 {
                (old(self).selected + 1) as usize
            } else {
                2
            },
            final(self).action == old(self).action,
            final(self).visible == old(self).visible,
    {
        let n = self.selected + 1;
        self.selected = if n < 2 {
            n
        } else {
            2
        };
    }

    pub fn confirm(&mut self)
        ensures
            final(self).action == Some(action_at(old(self).selected)),
            !final(self).visible,
            final(self).selected == old(self).selected,
    {
        self.action = Some(
            if self.selected == 0 {
                DiffAction::Accept
            } else if self.selected == 1 {
                DiffAction::EditExternal
            } else {
                DiffAction::Reject
            },
        );
        self.visible = false;
    }

    pub fn reject(&mut self)
        ensures
            final(self).action == Some(DiffAction::Reject),
            !final(self).visible,
            final(self).selected == old(self).selected,
    {
        self.action = Some(DiffAction::Reject);
        self.visible = false;
    }
}

} // verus!
