//! The rows of text that the approval panel, the diff panel and the task
//! panel draw, each piece with its colour; the terminal side draws them.
use vstd::prelude::*;

use crate::text::{append_str, concat_str, decimal, decimal_string};
use crate::tui::approval::ApprovalPanel;
use crate::tui::diff_panel::{DiffKind, DiffLine, DiffPanel};
use crate::tui::panels::{PanelState, TaskInfo, TaskStatus};

verus! {

/// The colours the panels use.
#[derive(Debug, Clone, Copy, PartialEq, Eq, Structural)]
pub enum Color {
    /// The terminal's own colour.
    Default,
    White,
    LightGray,
    Green,
    Yellow,
    Cyan,
    Red,
    Orange,
}

/// How a piece of text is drawn.
#[derive(Debug, Clone, Copy, PartialEq, Eq, Structural)]
pub struct Tone {
    pub color: Color,
    pub bold: bool,
}

/// A piece of text and how it is drawn.
#[derive(Debug)]
pub struct Piece {
    pub text: String,
    pub tone: Tone,
}

/// The plain value of a row of pieces.
pub open spec fn pieces_view(p: Seq<Piece>) -> Seq<(Seq<char>, Tone)> {
    p.map_values(|x: Piece| (x.text@, x.tone))
}

/// The plain value of rows of pieces.
pub open spec fn rows_view(r: Seq<Vec<Piece>>) -> Seq<Seq<(Seq<char>, Tone)>> {
    r.map_values(|x: Vec<Piece>| pieces_view(x@))
}

/// A tone of `color`, bold or not.
pub open spec fn tone(color: Color, bold: bool) -> Tone {
    Tone { color, bold }
}

fn piece(text: &str, color: Color, bold: bool) -> (r: Piece)
    ensures
        r.text@ == text@,
        r.tone == tone(color, bold),
{
    Piece { text: text.to_owned(), tone: Tone { color, bold } }
}

fn push_piece(row: &mut Vec<Piece>, text: &str, color: Color, bold: bool)
    ensures
        pieces_view(final(row)@) == pieces_view(old(row)@).push((text@, tone(color, bold))),
{
    let ghost before = pieces_view(row@);
    row.push(piece(text, color, bold));
    assert(pieces_view(row@) =~= before.push((text@, tone(color, bold))));
}

fn push_row(rows: &mut Vec<Vec<Piece>>, row: Vec<Piece>)
    ensures
        rows_view(final(rows)@) == rows_view(old(rows)@).push(pieces_view(row@)),
{
    let ghost before = rows_view(rows@);
    let ghost rv = pieces_view(row@);
    rows.push(row);
    assert(rows_view(rows@) =~= before.push(rv));
}

// ---------------------------------------------------------------------------
// The approval panel
// ---------------------------------------------------------------------------
/// The label of an approval option.
pub open spec fn option_label(i: int) -> Seq<char> {
    if i == 0 {
        "Yes, single permission"@
    } else if i == 1 {
        "Trust, always allow in this session"@
    } else if i == 2 {
        "Human interrupt (wait for edit)"@
    } else {
        "Reject and abort"@
    }
}

/// The colour of an approval option.
pub open spec fn option_color(i: int) -> Color {
    if i == 0 {
        Color::Green
    } else if i == 1 {
        Color::Yellow
    } else if i == 2 {
        Color::Cyan
    } else {
        Color::Red
    }
}

/// The row of an approval option: the selection mark and the label, in the
/// option's colour and bold when selected, grey otherwise.
pub open spec fn option_row(i: int, selected: usize) -> Seq<(Seq<char>, Tone)> {
    seq![
        (if i == selected {
            "❯ "@
        } else {
            "  "@
        }, tone(option_color(i), false)),
        (option_label(i), if i == selected {
            tone(option_color(i), true)
        } else {
            tone(Color::LightGray, false)
        }),
    ]
}

/// The first row of the approval panel: the file write, or the description.
pub open spec fn approval_text(p: ApprovalPanel) -> Seq<char> {
    match p.file_path {
        Some(f) => "write requires approval: "@ + f@,
        None => p.description@,
    }
}

/// The rows of the approval panel: none while hidden; else the request, a
/// blank row, the four options, a blank row and the key hint.
pub open spec fn approval_rows(p: ApprovalPanel) -> Seq<Seq<(Seq<char>, Tone)>> {
    if !p.visible {
        seq![]
    } else {
        seq![seq![(approval_text(p), tone(Color::White, true))], seq![]] + Seq::new(
            4,
            |i: int| option_row(i, p.selected),
        ) + seq![seq![], seq![("↑↓ select │ Enter confirm │ Esc reject"@, tone(Color::LightGray, false))]]
    }
}

/// Where the approval panel stands in an area: at most sixty columns wide
/// (four less than the area), nine rows high, centred, two rows above the
/// bottom.
pub open spec fn approval_area(ax: u16, ay: u16, aw: u16, ah: u16) -> (int, int, int, int) {
    let w: int = if aw >= 4 && aw - 4 < 60 {
        aw - 4
    } else if aw < 4 {
        0
    } else {
        60
    };
    let x = if aw >= w {
        (aw - w) / 2
    } else {
        0
    };
    let y = if ah >= 11 {
        ah - 11
    } else {
        0
    };
    (ax + x, ay + y, w, 9)
}

impl ApprovalPanel {
    /// The rows the panel draws.
    pub fn render_rows(&self) -> (r: Vec<Vec<Piece>>)
        ensures
            rows_view(r@) == approval_rows(*self),
    {
        let mut rows: Vec<Vec<Piece>> = Vec::new();
        if !self.visible {
            assert(rows_view(rows@) =~= approval_rows(*self));
            return rows;
        }
        let desc = match &self.file_path {
            Some(p) => concat_str("write requires approval: ", p.as_str()),
            None => crate::text::copy_string(&self.description),
        };
        let mut first: Vec<Piece> = Vec::new();
        let ghost dv = desc@;
        first.push(Piece { text: desc, tone: Tone { color: Color::White, bold: true } });
        assert(pieces_view(first@) =~= seq![(dv, tone(Color::White, true))]);
        push_row(&mut rows, first);
        let blank: Vec<Piece> = Vec::new();
        assert(pieces_view(blank@) =~= Seq::<(Seq<char>, Tone)>::empty());
        push_row(&mut rows, blank);
        let ghost head = rows_view(rows@);
        for i in 0..4usize
            invariant
                head.len() == 2,
                rows_view(rows@) == head + Seq::new(i as nat, |k: int| option_row(k, self.selected)),
        {
            let (label, color) = if i == 0 {
                ("Yes, single permission", Color::Green)
            } else if i == 1 {
                ("Trust, always allow in this session", Color::Yellow)
            } else if i == 2 {
                ("Human interrupt (wait for edit)", Color::Cyan)
            } else {
                ("Reject and abort", Color::Red)
            };
            let mut row: Vec<Piece> = Vec::new();
            let sel = i == self.selected;
            push_piece(
                &mut row,
                if sel {
                    "❯ "
                } else {
                    "  "
                },
                color,
                false,
            );
            if sel {
                push_piece(&mut row, label, color, true);
            } else {
                push_piece(&mut row, label, Color::LightGray, false);
            }
            assert(pieces_view(row@) =~= option_row(i as int, self.selected));
            push_row(&mut rows, row);
            assert(Seq::new((i + 1) as nat, |k: int| option_row(k, self.selected)) =~= Seq::new(
                i as nat,
                |k: int| option_row(k, self.selected),
            ).push(option_row(i as int, self.selected)));
        }
        let blank2: Vec<Piece> = Vec::new();
        assert(pieces_view(blank2@) =~= Seq::<(Seq<char>, Tone)>::empty());
        push_row(&mut rows, blank2);
        let mut last: Vec<Piece> = Vec::new();
        push_piece(&mut last, "↑↓ select │ Enter confirm │ Esc reject", Color::LightGray, false);
        push_row(&mut rows, last);
        assert(rows_view(rows@) =~= approval_rows(*self));
        rows
    }
}

/// Computes `approval_area` for an area whose right and bottom edges fit a
/// `u16`.
pub fn approval_panel_area(ax: u16, ay: u16, aw: u16, ah: u16) -> (r: (u16, u16, u16, u16))
    requires
        ax + aw <= u16::MAX,
        ay + ah <= u16::MAX,
    ensures
        (r.0 as int, r.1 as int, r.2 as int, r.3 as int) == approval_area(ax, ay, aw, ah),
{
    let w: u16 = if aw >= 4 && aw - 4 < 60 {
        aw - 4
    } else if aw < 4 {
        0
    } else {
        60
    };
    let x: u16 = (aw - w) / 2;
    let y: u16 = if ah >= 11 {
        ah - 11
    } else {
        0
    };
    (ax + x, ay + y, w, 9)
}

// ---------------------------------------------------------------------------
// The diff panel
// ---------------------------------------------------------------------------
/// What the diff panel draws: its title, the diff rows in view, the footer
/// with the options and the scroll position, and the key hint.
pub struct DiffView {
    pub title: String,
    pub body: Vec<Piece>,
    pub footer: Vec<Piece>,
    pub hint: String,
}

/// How a diff line is drawn.
pub open spec fn kind_tone(k: DiffKind) -> Tone {
    match k {
        DiffKind::Header => tone(Color::Cyan, true),
        DiffKind::Added => tone(Color::Green, false),
        DiffKind::Removed => tone(Color::Red, false),
        DiffKind::Context => tone(Color::White, false),
    }
}

/// The label of a footer option.
pub open spec fn footer_label(i: int) -> Seq<char> {
    if i == 0 {
        "Accept"@
    } else if i == 1 {
        "Edit in $EDITOR"@
    } else {
        "Reject"@
    }
}

/// The pieces of a footer option.
pub open spec fn footer_option(i: int, selected: usize) -> Seq<(Seq<char>, Tone)> {
    let t = if i == selected {
        tone(Color::Green, true)
    } else {
        tone(Color::LightGray, false)
    };
    seq![(if i == selected {
        "❯ "@
    } else {
        "  "@
    }, t), (footer_label(i), t)]
}

/// The separator between footer options.
pub open spec fn footer_sep() -> Seq<(Seq<char>, Tone)> {
    seq![("  │  "@, tone(Color::LightGray, false))]
}

/// The scroll position: the first line shown (from one), the number of
/// lines, and the percentage scrolled.
pub open spec fn scroll_info(scroll: nat, total: nat) -> Seq<char> {
    let pct: nat = if total > 0 {
        scroll * 100 / total
    } else {
        0
    };
    " "@ + decimal(scroll + 1) + "/"@ + decimal(total) + " ("@ + decimal(pct) + "%) "@
}

/// The diff rows in view for an inner height of `inner_h`: three rows are
/// kept for the footer.
pub open spec fn diff_body(p: DiffPanel, inner_h: u16) -> Seq<(Seq<char>, Tone)> {
    let h: int = if inner_h >= 3 {
        inner_h - 3
    } else {
        0
    };
    let n = p.lines@.len() as int;
    let a = if p.scroll < n {
        p.scroll as int
    } else {
        n
    };
    let b = if a + h < n {
        a + h
    } else {
        n
    };
    p.lines@.subrange(a, b).map_values(|d: DiffLine| (d.content@, kind_tone(d.kind)))
}

/// The footer of the diff panel.
pub open spec fn diff_footer(p: DiffPanel) -> Seq<(Seq<char>, Tone)> {
    footer_option(0, p.selected) + footer_sep() + footer_option(1, p.selected) + footer_sep()
        + footer_option(2, p.selected) + seq![
        (scroll_info(p.scroll as nat, p.lines@.len()), tone(Color::LightGray, false)),
    ]
}

/// The key hint of the diff panel.
pub open spec fn diff_hint() -> Seq<char> {
    "↑↓/j/k scroll │ ←→ select │ Enter confirm │ Esc reject │ Tab edit"@
}

impl DiffPanel {
    /// What the panel draws in an inner area of `inner_h` rows; nothing while
    /// it is hidden.
    pub fn render_view(&self, inner_h: u16) -> (r: Option<DiffView>)
        requires
            self.visible ==> self.scroll < usize::MAX,
            self.visible && self.lines@.len() > 0 ==> self.scroll * 100 <= usize::MAX,
            self.lines@.len() <= u64::MAX,
        ensures
            r is None <==> !self.visible,
            r matches Some(v) ==> {
                &&& v.title@ == " Diff Review: "@ + self.file_path@ + " "@
                &&& pieces_view(v.body@) == diff_body(*self, inner_h)
                &&& pieces_view(v.footer@) == diff_footer(*self)
                &&& v.hint@ == diff_hint()
            },
    {
        if !self.visible {
            return None;
        }
        let mut title = concat_str(" Diff Review: ", self.file_path.as_str());
        append_str(&mut title, " ");
        let h: usize = if inner_h >= 3 {
            (inner_h - 3) as usize
        } else {
            0
        };
        let n = self.lines.len();
        let a = if self.scroll < n {
            self.scroll
        } else {
            n
        };
        let b = if h < n - a {
            a + h
        } else {
            n
        };
        let mut body: Vec<Piece> = Vec::new();
        for i in a..b
            invariant
                a <= b <= n,
                n == self.lines@.len(),
                pieces_view(body@) == self.lines@.subrange(a as int, i as int).map_values(
                    |d: DiffLine| (d.content@, kind_tone(d.kind)),
                ),
        {
            let d = &self.lines[i];
            let t = match d.kind {
                DiffKind::Header => Tone { color: Color::Cyan, bold: true },
                DiffKind::Added => Tone { color: Color::Green, bold: false },
                DiffKind::Removed => Tone { color: Color::Red, bold: false },
                DiffKind::Context => Tone { color: Color::White, bold: false },
            };
            let ghost before = pieces_view(body@);
            body.push(Piece { text: crate::text::copy_string(&d.content), tone: t });
            assert(pieces_view(body@) =~= before.push((d.content@, kind_tone(d.kind))));
            assert(self.lines@.subrange(a as int, i + 1) == self.lines@.subrange(a as int, i as int).push(*d));
            assert(self.lines@.subrange(a as int, i + 1).map_values(
                |d: DiffLine| (d.content@, kind_tone(d.kind)),
            ) =~= self.lines@.subrange(a as int, i as int).map_values(
                |d: DiffLine| (d.content@, kind_tone(d.kind)),
            ).push((d.content@, kind_tone(d.kind))));
        }
        let mut footer: Vec<Piece> = Vec::new();
        let ghost mut expect: Seq<(Seq<char>, Tone)> = seq![];
        for i in 0..3usize
            invariant
                pieces_view(footer@) == expect,
                expect == if i == 0 {
                    Seq::<(Seq<char>, Tone)>::empty()
                } else if i == 1 {
                    footer_option(0, self.selected) + footer_sep()
                } else if i == 2 {
                    footer_option(0, self.selected) + footer_sep() + footer_option(1, self.selected)
                        + footer_sep()
                } else {
                    footer_option(0, self.selected) + footer_sep() + footer_option(1, self.selected)
                        + footer_sep() + footer_option(2, self.selected)
                },
        {
            let label = if i == 0 {
                "Accept"
            } else if i == 1 {
                "Edit in $EDITOR"
            } else {
                "Reject"
            };
            let sel = i == self.selected;
            let (color, bold) = if sel {
                (Color::Green, true)
            } else {
                (Color::LightGray, false)
            };
            push_piece(
                &mut footer,
                if sel {
                    "❯ "
                } else {
                    "  "
                },
                color,
                bold,
            );
            push_piece(&mut footer, label, color, bold);
            if i < 2 {
                push_piece(&mut footer, "  │  ", Color::LightGray, false);
            }
            proof {
                expect = if i < 2 {
                    expect + footer_option(i as int, self.selected) + footer_sep()
                } else {
                    expect + footer_option(i as int, self.selected)
                };
            }
            assert(pieces_view(footer@) =~= expect);
        }
        let total = self.lines.len();
        let pct: usize = if total > 0 {
            (self.scroll * 100) / total
        } else {
            0
        };
        let mut info = concat_str(" ", decimal_string((self.scroll + 1) as u64).as_str());
        append_str(&mut info, "/");
        append_str(&mut info, decimal_string(total as u64).as_str());
        append_str(&mut info, " (");
        append_str(&mut info, decimal_string(pct as u64).as_str());
        append_str(&mut info, "%) ");
        let ghost iv = info@;
        assert(iv == scroll_info(self.scroll as nat, total as nat));
        let ghost before = pieces_view(footer@);
        footer.push(Piece { text: info, tone: Tone { color: Color::LightGray, bold: false } });
        assert(pieces_view(footer@) =~= before.push((iv, tone(Color::LightGray, false))));
        Some(
            DiffView {
                title,
                body,
                footer,
                hint: "↑↓/j/k scroll │ ←→ select │ Enter confirm │ Esc reject │ Tab edit".to_owned(),
            },
        )
    }
}

// ---------------------------------------------------------------------------
// The task panel
// ---------------------------------------------------------------------------
/// The hint on the task panel's header.
pub open spec fn toggle_hint(expanded: bool) -> Seq<char> {
    if expanded {
        "ctrl+t to collapse"@
    } else {
        "ctrl+t to expand"@
    }
}

/// The left part of the task panel's header.
pub open spec fn tasks_header(total: nat) -> Seq<char> {
    "● Tasks ("@ + decimal(total) + ")"@
}

/// The spaces between the header's two parts: the width left after both
/// (the left part counted in UTF-8 bytes) and one column.
pub open spec fn header_pad(width: u16, total: nat, expanded: bool) -> nat {
    let used = 12 + decimal(total).len() + toggle_hint(expanded).len() + 1;
    if width > used {
        (width - used) as nat
    } else {
        0
    }
}

/// The icon of a task status and its colour: done, in progress, pending.
pub open spec fn status_icon(s: TaskStatus) -> (Seq<char>, Color) {
    match s {
        TaskStatus::Completed => ("●"@, Color::Green),
        TaskStatus::InProgress => ("●"@, Color::Orange),
        TaskStatus::Pending => ("○"@, Color::LightGray),
    }
}

/// The row of task `i` of `n`.
pub open spec fn task_row(i: int, n: int, t: TaskInfo) -> Seq<(Seq<char>, Tone)> {
    seq![
        (if i == n - 1 {
            "└── "@
        } else {
            "├── "@
        }, tone(Color::LightGray, false)),
        (status_icon(t.status).0, tone(status_icon(t.status).1, false)),
        (" "@, tone(Color::Default, false)),
        (decimal((i + 1) as nat) + ". "@ + t.name@, tone(Color::White, false)),
    ]
}

/// The rows of the task panel: none without tasks or rows; the header;
/// one row per task when expanded.
pub open spec fn task_rows(state: PanelState, tasks: Seq<TaskInfo>, width: u16, height: u16) -> Seq<
    Seq<(Seq<char>, Tone)>,
> {
    if tasks.len() == 0 || height == 0 {
        seq![]
    } else {
        seq![
            seq![
                (tasks_header(tasks.len()), tone(Color::White, true)),
                (Seq::new(
                    header_pad(width, tasks.len(), state.tasks_expanded),
                    |i: int| ' ',
                ), tone(Color::Default, false)),
                (toggle_hint(state.tasks_expanded), tone(Color::LightGray, false)),
            ],
        ] + if state.tasks_expanded {
            Seq::new(tasks.len(), |i: int| task_row(i, tasks.len() as int, tasks[i]))
        } else {
            seq![]
        }
    }
}

/// The rows the task panel draws in an area of `width` by `height`.
pub fn task_panel_rows(panel_state: &PanelState, tasks: &Vec<TaskInfo>, width: u16, height: u16) -> (r:
    Vec<Vec<Piece>>)
    requires
        tasks@.len() < u64::MAX,
    ensures
        rows_view(r@) == task_rows(*panel_state, tasks@, width, height),
{
    let mut rows: Vec<Vec<Piece>> = Vec::new();
    if tasks.len() == 0 || height == 0 {
        assert(rows_view(rows@) =~= task_rows(*panel_state, tasks@, width, height));
        return rows;
    }
    let total = tasks.len();
    let digits = decimal_string(total as u64);
    let hint = if panel_state.tasks_expanded {
        "ctrl+t to collapse"
    } else {
        "ctrl+t to expand"
    };
    proof {
        reveal_strlit("ctrl+t to collapse");
        reveal_strlit("ctrl+t to expand");
    }
    let mut header = concat_str("● Tasks (", digits.as_str());
    append_str(&mut header, ")");
    let dl = crate::text::chars_of(digits.as_str()).len();
    let used: u128 = 12 + dl as u128 + if panel_state.tasks_expanded {
        18u128
    } else {
        16u128
    } + 1;
    let pad: u64 = if width as u128 > used {
        (width as u128 - used) as u64
    } else {
        0
    };
    let mut spaces = String::new();
    let mut k: u64 = 0;
    while k < pad
        invariant
            k <= pad,
            spaces@ == Seq::new(k as nat, |i: int| ' '),
        decreases pad - k,
    {
        crate::text::push_char(&mut spaces, ' ');
        assert(spaces@ =~= Seq::new((k + 1) as nat, |i: int| ' '));
        k += 1;
    }
    let mut first: Vec<Piece> = Vec::new();
    let ghost hv = header@;
    let ghost sv = spaces@;
    first.push(Piece { text: header, tone: Tone { color: Color::White, bold: true } });
    first.push(Piece { text: spaces, tone: Tone { color: Color::Default, bold: false } });
    first.push(piece(hint, Color::LightGray, false));
    assert(pieces_view(first@) =~= seq![
        (hv, tone(Color::White, true)),
        (sv, tone(Color::Default, false)),
        (hint@, tone(Color::LightGray, false)),
    ]);
    push_row(&mut rows, first);
    let ghost head = rows_view(rows@);
    if panel_state.tasks_expanded {
        for i in 0..total
            invariant
                total == tasks@.len(),
                total < u64::MAX,
                rows_view(rows@) == head + Seq::new(
                    i as nat,
                    |j: int| task_row(j, total as int, tasks@[j]),
                ),
        {
            let t = &tasks[i];
            let mut row: Vec<Piece> = Vec::new();
            push_piece(
                &mut row,
                if i == total - 1 {
                    "└── "
                } else {
                    "├── "
                },
                Color::LightGray,
                false,
            );
            match t.status {
                TaskStatus::Completed => push_piece(&mut row, "●", Color::Green, false),
                TaskStatus::InProgress => push_piece(&mut row, "●", Color::Orange, false),
                TaskStatus::Pending => push_piece(&mut row, "○", Color::LightGray, false),
            }
            push_piece(&mut row, " ", Color::Default, false);
            let mut label = decimal_string((i + 1) as u64);
            append_str(&mut label, ". ");
            append_str(&mut label, t.name.as_str());
            let ghost lv = label@;
            let ghost before = pieces_view(row@);
            row.push(Piece { text: label, tone: Tone { color: Color::White, bold: false } });
            assert(pieces_view(row@) =~= before.push((lv, tone(Color::White, false))));
            assert(pieces_view(row@) =~= task_row(i as int, total as int, *t));
            push_row(&mut rows, row);
            assert(Seq::new((i + 1) as nat, |j: int| task_row(j, total as int, tasks@[j])) =~= Seq::new(
                i as nat,
                |j: int| task_row(j, total as int, tasks@[j]),
            ).push(task_row(i as int, total as int, tasks@[i as int])));
        }
    }
    assert(rows_view(rows@) =~= task_rows(*panel_state, tasks@, width, height));
    rows
}

} // verus!
