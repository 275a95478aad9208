//! The conversation viewport: the messages, the response being streamed,
//! the scroll position, and the lines it shows for a given height.
use vstd::prelude::*;

use crate::outside::now_micros;
use crate::text::{append_str, copy_string, lines, lines_of, push_char, starts_with, str_starts_with};
use crate::tui::render_md::{markdown_lines, markdown_view, md_lines_view, MdLine, MdLineView};

verus! {

// ---------------------------------------------------------------------------
// Messages
// ---------------------------------------------------------------------------
/// Who a message is from.
#[derive(Debug, Clone, Copy, PartialEq, Eq, Structural)]
pub enum MessageRole {
    User,
    Agent,
    System,
}

/// The reasoning that came before an answer.
#[derive(Debug)]
pub struct ThinkingBlock {
    pub content: String,
    pub token_count: usize,
    pub duration_ms: u64,
    pub collapsed: bool,
    pub index: usize,
}

/// A tool call shown under an answer: its icon, what it did and how long it
/// took.
#[derive(Debug)]
pub struct ToolCall {
    pub icon: String,
    pub description: String,
    pub duration_ms: u64,
}

/// A message of the conversation; `timestamp` is in microseconds since the
/// Unix epoch.
#[derive(Debug)]
pub struct Message {
    pub role: MessageRole,
    pub content: String,
    pub timestamp: i64,
    pub thinking: Option<ThinkingBlock>,
    pub tool_calls: Vec<ToolCall>,
}

/// The reasoning being streamed: its text, the number of tokens so far and
/// when it started (microseconds since the Unix epoch).
#[derive(Debug)]
pub struct StreamingThink {
    pub content: String,
    pub token_count: usize,
    pub start_micros: i64,
}

// ---------------------------------------------------------------------------
// Displayed lines
// ---------------------------------------------------------------------------
/// A line the viewport shows.
pub enum ViewLine {
    Blank,
    /// A user message behind the prompt glyph.
    User(String),
    /// The header of a finished thinking block, expanded or collapsed.
    ThinkHeader { expanded: bool, tokens: usize, duration_ms: u64 },
    /// A markdown line of an answer, or of expanded reasoning (indented).
    Markdown { line: MdLine, thinking: bool },
    /// A tool call.
    Tool { icon: String, description: String, duration_ms: u64 },
    /// A line of a system message, dimmed for usage lines and rules.
    System { text: String, dim: bool },
    /// The header of the reasoning being streamed.
    LiveThinkHeader(usize),
    /// A line of the reasoning being streamed (indented).
    LiveThinking(String),
}

/// The plain value of a [`ViewLine`].
pub enum ViewLineView {
    Blank,
    User(Seq<char>),
    ThinkHeader(bool, usize, u64),
    Markdown(MdLineView, bool),
    Tool(Seq<char>, Seq<char>, u64),
    System(Seq<char>, bool),
    LiveThinkHeader(usize),
    LiveThinking(Seq<char>),
}

/// The plain value of a [`ViewLine`].
pub open spec fn view_line(l: ViewLine) -> ViewLineView {
    match l {
        ViewLine::Blank => ViewLineView::Blank,
        ViewLine::User(s) => ViewLineView::User(s@),
        ViewLine::ThinkHeader { expanded, tokens, duration_ms } => ViewLineView::ThinkHeader(
            expanded,
            tokens,
            duration_ms,
        ),
        ViewLine::Markdown { line, thinking } => ViewLineView::Markdown(
            crate::tui::render_md::md_line_view(line),
            thinking,
        ),
        ViewLine::Tool { icon, description, duration_ms } => ViewLineView::Tool(
            icon@,
            description@,
            duration_ms,
        ),
        ViewLine::System { text, dim } => ViewLineView::System(text@, dim),
        ViewLine::LiveThinkHeader(n) => ViewLineView::LiveThinkHeader(n),
        ViewLine::LiveThinking(s) => ViewLineView::LiveThinking(s@),
    }
}

/// The plain values of displayed lines.
pub open spec fn lines_view(s: Seq<ViewLine>) -> Seq<ViewLineView> {
    s.map_values(|l: ViewLine| view_line(l))
}

/// Markdown lines shown as part of an answer or of reasoning.
pub open spec fn md_part(md: Seq<MdLineView>, thinking: bool) -> Seq<ViewLineView> {
    md.map_values(|l: MdLineView| ViewLineView::Markdown(l, thinking))
}

/// The lines of a thinking block.
pub open spec fn think_part(t: Option<ThinkingBlock>) -> Seq<ViewLineView> {
    match t {
        None => seq![],
        Some(b) => if b.collapsed {
            seq![ViewLineView::ThinkHeader(false, b.token_count, b.duration_ms), ViewLineView::Blank]
        } else {
            seq![ViewLineView::ThinkHeader(true, b.token_count, b.duration_ms)] + md_part(
                markdown_view(b.content@),
                true,
            ) + seq![ViewLineView::Blank]
        },
    }
}

/// The lines of tool calls.
pub open spec fn tools_part(ts: Seq<ToolCall>) -> Seq<ViewLineView> {
    ts.map_values(|t: ToolCall| ViewLineView::Tool(t.icon@, t.description@, t.duration_ms))
}

/// Whether a system message reports usage.
pub open spec fn is_cost_line(c: Seq<char>) -> bool {
    starts_with(c, "Cost:"@)
}

/// Whether a system message is a horizontal rule.
pub open spec fn is_rule(c: Seq<char>) -> bool {
    starts_with(c, "─"@)
}

/// The lines of a system message.
pub open spec fn system_part(c: Seq<char>) -> Seq<ViewLineView> {
    let dim = is_cost_line(c) || is_rule(c);
    (if is_cost_line(c) {
        seq![ViewLineView::Blank]
    } else {
        seq![]
    }) + lines_of(c).map_values(|l: Seq<char>| ViewLineView::System(l, dim)) + (if !is_rule(c) {
        seq![ViewLineView::Blank]
    } else {
        seq![]
    })
}

/// The lines of one message.
pub open spec fn message_lines(m: Message) -> Seq<ViewLineView> {
    match m.role {
        MessageRole::User => seq![ViewLineView::User(m.content@), ViewLineView::Blank],
        MessageRole::Agent => think_part(m.thinking) + tools_part(m.tool_calls@) + md_part(
            markdown_view(m.content@),
            false,
        ) + seq![ViewLineView::Blank],
        MessageRole::System => system_part(m.content@),
    }
}

/// The lines of messages, one message after the other.
pub open spec fn messages_lines(ms: Seq<Message>) -> Seq<ViewLineView>
    decreases ms.len(),
{
    if ms.len() == 0 {
        seq![]
    } else {
        messages_lines(ms.drop_last()) + message_lines(ms.last())
    }
}

/// `n` blank lines.
pub open spec fn blanks(n: nat) -> Seq<ViewLineView> {
    Seq::new(n, |i: int| ViewLineView::Blank)
}

/// How many lines of live reasoning are shown for a viewport height.
pub open spec fn live_think_rows(height: usize) -> nat {
    if height / 3 > 3 {
        (height / 3) as nat
    } else {
        3
    }
}

/// The live reasoning lines: the header, the last lines of the text that fit
/// and five blank lines.
pub open spec fn live_think_part(t: Option<StreamingThink>, height: usize) -> Seq<ViewLineView> {
    match t {
        None => seq![],
        Some(s) => {
            let ls = lines_of(s.content@);
            let vc = live_think_rows(height);
            let start: int = if ls.len() > vc {
                ls.len() - vc
            } else {
                0
            };
            seq![ViewLineView::LiveThinkHeader(s.token_count)] + ls.skip(start).map_values(
                |l: Seq<char>| ViewLineView::LiveThinking(l),
            ) + blanks(5)
        },
    }
}

/// Whether a message has an expanded thinking block.
pub open spec fn is_expanded(m: Message) -> bool {
    m.thinking matches Some(t) && !t.collapsed
}

/// A rule of eighty box-drawing characters.
pub open spec fn rule_text() -> Seq<char> {
    Seq::new(80, |i: int| '─')
}

// ---------------------------------------------------------------------------
// The viewport
// ---------------------------------------------------------------------------
/// The viewport's state.
#[derive(Debug)]
pub struct Viewport {
    /// All messages of the conversation.
    pub messages: Vec<Message>,
    /// How many lines the view is scrolled up from the bottom.
    pub scroll_offset: usize,
    /// Whether the view follows the newest line.
    pub auto_scroll: bool,
    /// The reasoning being streamed, if any.
    pub streaming_think: Option<StreamingThink>,
    /// The answer being streamed.
    pub streaming_text: String,
    /// Whether a response is being received.
    pub is_streaming: bool,
}

/// All lines of the viewport for a height: the messages', then, while a
/// response streams, its reasoning and its answer so far.
pub open spec fn all_lines(v: Viewport, height: usize) -> Seq<ViewLineView> {
    messages_lines(v.messages@) + if v.is_streaming {
        live_think_part(v.streaming_think, height) + if v.streaming_text@.len() > 0 {
            md_part(markdown_view(v.streaming_text@), false) + blanks(5)
        } else {
            seq![]
        }
    } else {
        seq![]
    }
}

/// `a - b`, or 0 when `b` is larger.
pub open spec fn sat_sub(a: int, b: int) -> int {
    if a > b {
        a - b
    } else {
        0
    }
}

/// The largest scroll offset for `total` lines in `height` rows.
pub open spec fn max_scroll_of(total: int, height: int) -> int {
    sat_sub(total, height)
}

/// The first line shown.
pub open spec fn first_shown(total: int, height: int, offset: int, auto: bool) -> int {
    if auto {
        sat_sub(total, height)
    } else {
        sat_sub(max_scroll_of(total, height), offset)
    }
}

/// Copies `n` blank lines onto `out`.
fn push_blanks(out: &mut Vec<ViewLine>, n: usize)
    ensures
        lines_view(final(out)@) == lines_view(old(out)@) + blanks(n as nat),
{
    for i in 0..n
        invariant
            lines_view(out@) == lines_view(old(out)@) + blanks(i as nat),
    {
        let ghost before = lines_view(out@);
        out.push(ViewLine::Blank);
        assert(lines_view(out@) =~= before.push(ViewLineView::Blank));
        assert(blanks((i + 1) as nat) =~= blanks(i as nat).push(ViewLineView::Blank));
    }
}

/// Moves markdown lines onto `out`.
fn push_markdown(out: &mut Vec<ViewLine>, md: Vec<MdLine>, thinking: bool)
    ensures
        lines_view(final(out)@) == lines_view(old(out)@) + md_part(md_lines_view(md@), thinking),
{
    let ghost orig = md@;
    let mut md = md;
    let ghost mut i: int = 0;
    assert(orig.skip(0) == orig);
    while md.len() > 0
        invariant
            0 <= i <= orig.len(),
            md@ == orig.skip(i),
            lines_view(out@) == lines_view(old(out)@) + md_part(md_lines_view(orig.take(i)), thinking),
        decreases md.len(),
    {
        let ghost before = lines_view(out@);
        let l = md.remove(0);
        assert(l == orig[i]);
        out.push(ViewLine::Markdown { line: l, thinking });
        assert(lines_view(out@) =~= before.push(
            ViewLineView::Markdown(crate::tui::render_md::md_line_view(orig[i]), thinking),
        ));
        assert(orig.take(i + 1) == orig.take(i).push(orig[i]));
        assert(md_lines_view(orig.take(i + 1)) =~= md_lines_view(orig.take(i)).push(
            crate::tui::render_md::md_line_view(orig[i]),
        ));
        assert(md_part(md_lines_view(orig.take(i + 1)), thinking) =~= md_part(
            md_lines_view(orig.take(i)),
            thinking,
        ).push(ViewLineView::Markdown(crate::tui::render_md::md_line_view(orig[i]), thinking)));
        assert(orig.skip(i).remove(0) == orig.skip(i + 1));
        proof {
            i = i + 1;
        }
    }
    assert(orig.take(orig.len() as int) == orig);
}

/// Pushes the lines of a system message's text.
fn push_system(out: &mut Vec<ViewLine>, content: &String)
    ensures
        lines_view(final(out)@) == lines_view(old(out)@) + system_part(content@),
{
    let cost = str_starts_with(content.as_str(), "Cost:");
    let rule = str_starts_with(content.as_str(), "─");
    let dim = cost || rule;
    let ghost start = lines_view(out@);
    if cost {
        out.push(ViewLine::Blank);
    }
    let ghost head = lines_view(out@);
    assert(head =~= start + (if cost {
        seq![ViewLineView::Blank]
    } else {
        Seq::<ViewLineView>::empty()
    }));
    let ls = lines(content.as_str());
    let ghost lv = ls.deep_view();
    for i in 0..ls.len()
        invariant
            lv == ls.deep_view(),
            lv == lines_of(content@),
            lines_view(out@) == head + lv.take(i as int).map_values(
                |l: Seq<char>| ViewLineView::System(l, dim),
            ),
    {
        let ghost before = lines_view(out@);
        out.push(ViewLine::System { text: copy_string(&ls[i]), dim });
        assert(lines_view(out@) =~= before.push(ViewLineView::System(lv[i as int], dim)));
        assert(lv.take(i + 1) == lv.take(i as int).push(lv[i as int]));
        assert(lv.take(i + 1).map_values(|l: Seq<char>| ViewLineView::System(l, dim))
            =~= lv.take(i as int).map_values(|l: Seq<char>| ViewLineView::System(l, dim)).push(
            ViewLineView::System(lv[i as int], dim),
        ));
    }
    assert(lv.take(lv.len() as int) == lv);
    let ghost mid = lines_view(out@);
    if !rule {
        out.push(ViewLine::Blank);
    }
    assert(lines_view(out@) =~= mid + (if !rule {
        seq![ViewLineView::Blank]
    } else {
        Seq::<ViewLineView>::empty()
    }));
}

/// Pushes the lines of one message.
fn push_message(out: &mut Vec<ViewLine>, m: &Message)
    ensures
        lines_view(final(out)@) == lines_view(old(out)@) + message_lines(*m),
{
    let ghost start = lines_view(out@);
    match m.role {
        MessageRole::User => {
            out.push(ViewLine::User(copy_string(&m.content)));
            out.push(ViewLine::Blank);
            assert(lines_view(out@) =~= start + seq![
                ViewLineView::User(m.content@),
                ViewLineView::Blank,
            ]);
        },
        MessageRole::Agent => {
            match &m.thinking {
                None => {
                    assert(lines_view(out@) =~= start + Seq::<ViewLineView>::empty());
                },
                Some(t) => {
                    if t.collapsed {
                        out.push(
                            ViewLine::ThinkHeader {
                                expanded: false,
                                tokens: t.token_count,
                                duration_ms: t.duration_ms,
                            },
                        );
                        out.push(ViewLine::Blank);
                        assert(lines_view(out@) =~= start + seq![
                            ViewLineView::ThinkHeader(false, t.token_count, t.duration_ms),
                            ViewLineView::Blank,
                        ]);
                    } else {
                        out.push(
                            ViewLine::ThinkHeader {
                                expanded: true,
                                tokens: t.token_count,
                                duration_ms: t.duration_ms,
                            },
                        );
                        let ghost h = lines_view(out@);
                        assert(h =~= start + seq![
                            ViewLineView::ThinkHeader(true, t.token_count, t.duration_ms),
                        ]);
                        let md = markdown_lines(t.content.as_str());
                        push_markdown(out, md, true);
                        let ghost h2 = lines_view(out@);
                        out.push(ViewLine::Blank);
                        assert(lines_view(out@) =~= h2.push(ViewLineView::Blank));
                        assert(lines_view(out@) =~= start + seq![
                            ViewLineView::ThinkHeader(true, t.token_count, t.duration_ms),
                        ] + md_part(markdown_view(t.content@), true) + seq![ViewLineView::Blank]);
                    }
                },
            }
            let ghost after_think = lines_view(out@);
            assert(after_think =~= start + think_part(m.thinking));
            let n = m.tool_calls.len();
            for i in 0..n
                invariant
                    n == m.tool_calls@.len(),
                    lines_view(out@) == after_think + tools_part(m.tool_calls@.take(i as int)),
            {
                let t = &m.tool_calls[i];
                let ghost before = lines_view(out@);
                out.push(
                    ViewLine::Tool {
                        icon: copy_string(&t.icon),
                        description: copy_string(&t.description),
                        duration_ms: t.duration_ms,
                    },
                );
                assert(lines_view(out@) =~= before.push(
                    ViewLineView::Tool(t.icon@, t.description@, t.duration_ms),
                ));
                assert(m.tool_calls@.take(i + 1) == m.tool_calls@.take(i as int).push(*t));
                assert(tools_part(m.tool_calls@.take(i + 1)) =~= tools_part(
                    m.tool_calls@.take(i as int),
                ).push(ViewLineView::Tool(t.icon@, t.description@, t.duration_ms)));
            }
            assert(m.tool_calls@.take(n as int) == m.tool_calls@);
            let md = markdown_lines(m.content.as_str());
            push_markdown(out, md, false);
            let ghost h3 = lines_view(out@);
            out.push(ViewLine::Blank);
            assert(lines_view(out@) =~= h3.push(ViewLineView::Blank));
        },
        MessageRole::System => {
            push_system(out, &m.content);
        },
    }
}

/// What finalizing a response at time `now` (microseconds) does: the answer
/// and its reasoning, if either is there, become an agent message (trailing
/// line feeds dropped, the reasoning collapsed, its duration the whole
/// milliseconds since it started); a usage line, if given, becomes a system
/// message; streaming stops; the scroll position is kept.
pub open spec fn finalized(before: Viewport, after: Viewport, stats: Option<String>, now: i64) -> bool {
            ({
                let had = before.streaming_text@.len() > 0 || before.streaming_think is Some;
                let base = if had {
                    before.messages@.len() + 1int
                } else {
                    before.messages@.len() as int
                };
                &&& after.messages@.len() == base + if stats is Some {
                    1int
                } else {
                    0
                }
                &&& after.messages@.take(before.messages@.len() as int)
                    == before.messages@
                &&& had ==> {
                    let m = after.messages@[before.messages@.len() as int];
                    &&& m.role == MessageRole::Agent
                    &&& m.content@ == trim_trailing_newlines(before.streaming_text@)
                    &&& m.tool_calls@.len() == 0
                    &&& m.timestamp == now
                    &&& match before.streaming_think {
                        None => m.thinking is None,
                        Some(t) => m.thinking matches Some(b) && b.content@
                            == trim_trailing_newlines(t.content@) && b.token_count == t.token_count
                            && b.duration_ms == elapsed_ms(t.start_micros, now) && b.collapsed
                            && b.index == 0,
                    }
                }
                &&& stats matches Some(s) ==> {
                    let m = after.messages@[base];
                    &&& m.role == MessageRole::System
                    &&& m.content@ == s@
                    &&& m.thinking is None
                    &&& m.tool_calls@.len() == 0
                    &&& m.timestamp == now
                }
                &&& had ==> after.streaming_text@.len() == 0 && after.streaming_think is None
                &&& !had ==> after.streaming_text == before.streaming_text && after.streaming_think == before.streaming_think
                &&& !after.is_streaming
                &&& after.scroll_offset == before.scroll_offset
                &&& after.auto_scroll == before.auto_scroll
            })
}

impl Viewport {
    /// An empty viewport that follows the newest line.
    pub fn new() -> (r: Self)
        ensures
            r.messages@.len() == 0,
            r.scroll_offset == 0,
            r.auto_scroll,
            r.streaming_think is None,
            r.streaming_text@.len() == 0,
            !r.is_streaming,
    {
        Viewport {
            messages: Vec::new(),
            scroll_offset: 0,
            auto_scroll: true,
            streaming_think: None,
            streaming_text: String::new(),
            is_streaming: false,
        }
    }

    /// Appends a token to the answer being streamed; a view that follows
    /// the newest line goes back to the bottom.
    pub fn append_token(&mut self, token: &str)
        ensures
            final(self).streaming_text@ == old(self).streaming_text@ + token@,
            final(self).scroll_offset == if old(self).auto_scroll {
                0
            } else {
                old(self).scroll_offset
            },
            final(self).messages == old(self).messages,
            final(self).auto_scroll == old(self).auto_scroll,
            final(self).streaming_think == old(self).streaming_think,
            final(self).is_streaming == old(self).is_streaming,
    {
        append_str(&mut self.streaming_text, token);
        if self.auto_scroll {
            self.scroll_offset = 0;
        }
    }

    /// Starts a thinking block at time `now` (microseconds).
    pub fn start_thinking_at(&mut self, now: i64)
        ensures
            final(self).streaming_think matches Some(t) && t.content@.len() == 0 && t.token_count
                == 0 && t.start_micros == now,
            final(self).messages == old(self).messages,
            final(self).streaming_text == old(self).streaming_text,
            final(self).scroll_offset == old(self).scroll_offset,
            final(self).auto_scroll == old(self).auto_scroll,
            final(self).is_streaming == old(self).is_streaming,
    {
        self.streaming_think = Some(
            StreamingThink { content: String::new(), token_count: 0, start_micros: now },
        );
    }

    /// Starts a thinking block now.
    pub fn start_thinking(&mut self)
        ensures
            final(self).streaming_think matches Some(t) && t.content@.len() == 0 && t.token_count
                == 0,
            final(self).messages == old(self).messages,
            final(self).streaming_text == old(self).streaming_text,
            final(self).scroll_offset == old(self).scroll_offset,
            final(self).auto_scroll == old(self).auto_scroll,
            final(self).is_streaming == old(self).is_streaming,
    {
        let now = now_micros();
        self.start_thinking_at(now);
    }

    /// Appends a token to the thinking block being streamed, if any, and
    /// counts it.
    pub fn append_think_token(&mut self, token: &str)
        requires
            old(self).streaming_think matches Some(t) ==> t.token_count < usize::MAX,
        ensures
            match old(self).streaming_think {
                None => final(self).streaming_think is None,
                Some(t) => final(self).streaming_think matches Some(u) && u.content@ == t.content@
                    + token@ && u.token_count == t.token_count + 1 && u.start_micros
                    == t.start_micros,
            },
            final(self).messages == old(self).messages,
            final(self).streaming_text == old(self).streaming_text,
            final(self).scroll_offset == old(self).scroll_offset,
            final(self).auto_scroll == old(self).auto_scroll,
            final(self).is_streaming == old(self).is_streaming,
    {
        match &mut self.streaming_think {
            Some(t) => {
                append_str(&mut t.content, token);
                t.token_count = t.token_count + 1;
            },
            None => {},
        }
    }

    /// Ends the thinking block being streamed; its text stays until the
    /// response is finalized.
    pub fn end_thinking(&mut self)
        ensures
            *final(self) == *old(self),
    {
    }

    /// Finalizes the response at time `now` (microseconds): the answer and
    /// its reasoning, if either is there, become an agent message (trailing
    /// line feeds dropped, the reasoning collapsed, its duration the whole
    /// milliseconds since it started); a usage line, if given, becomes a
    /// system message; streaming stops.
    pub fn finalize_response_with_stats_at(&mut self, stats: Option<String>, now: i64)
        ensures
            finalized(*old(self), *final(self), stats, now),
    {
        let ghost n0 = self.messages@.len();
        if !self.streaming_text.as_str().is_empty() || self.streaming_think.is_some() {
            let thinking = match self.streaming_think.take() {
                Some(t) => Some(
                    ThinkingBlock {
                        content: trim_newlines_end(&t.content),
                        token_count: t.token_count,
                        duration_ms: elapsed_millis(t.start_micros, now),
                        collapsed: true,
                        index: 0,
                    },
                ),
                None => None,
            };
            let content = trim_newlines_end(&self.streaming_text);
            self.streaming_text = String::new();
            self.messages.push(
                Message {
                    role: MessageRole::Agent,
                    content,
                    timestamp: now,
                    thinking,
                    tool_calls: Vec::new(),
                },
            );
        }
        let ghost n1 = self.messages@.len();
        match stats {
            Some(s) => {
                self.messages.push(
                    Message {
                        role: MessageRole::System,
                        content: s,
                        timestamp: now,
                        thinking: None,
                        tool_calls: Vec::new(),
                    },
                );
            },
            None => {},
        }
        assert(self.messages@.take(n1 as int).take(n0 as int) == self.messages@.take(n0 as int));
        assert(self.messages@.take(n0 as int) =~= old(self).messages@);
        self.is_streaming = false;
    }

    /// Finalizes the response now, with a usage line if given: as
    /// [`Viewport::finalize_response_with_stats_at`] at the current time.
    pub fn finalize_response_with_stats(&mut self, stats: Option<String>)
        ensures
            exists|now: i64| finalized(*old(self), *final(self), stats, now),
    {
        let now = now_micros();
        let ghost st = stats;
        self.finalize_response_with_stats_at(stats, now);
        assert(finalized(*old(self), *self, st, now));
    }

    /// Finalizes the response now, without a usage line.
    pub fn finalize_response(&mut self)
        ensures
            exists|now: i64| finalized(*old(self), *final(self), None, now),
    {
        self.finalize_response_with_stats(None);
    }

    /// Whether some message has an expanded thinking block.
    pub open spec fn any_expanded(ms: Seq<Message>) -> bool {
        exists|i: int| 0 <= i < ms.len() && is_expanded(#[trigger] ms[i])
    }

    /// Collapses every thinking block when one is expanded, else expands
    /// them all; the view returns to the bottom.
    pub fn toggle_thinking(&mut self)
        ensures
            final(self).messages@.len() == old(self).messages@.len(),
            forall|i: int| 0 <= i < old(self).messages@.len() ==> {
                let a = #[trigger] old(self).messages@[i];
                let b = final(self).messages@[i];
                &&& b.role == a.role
                &&& b.content == a.content
                &&& b.timestamp == a.timestamp
                &&& b.tool_calls == a.tool_calls
                &&& match a.thinking {
                    None => b.thinking is None,
                    Some(t) => b.thinking matches Some(u) && u.content == t.content && u.token_count
                        == t.token_count && u.duration_ms == t.duration_ms && u.index == t.index
                        && u.collapsed == Self::any_expanded(old(self).messages@),
                }
            },
            final(self).scroll_offset == 0,
            final(self).auto_scroll == old(self).auto_scroll,
            final(self).streaming_think == old(self).streaming_think,
            final(self).streaming_text == old(self).streaming_text,
            final(self).is_streaming == old(self).is_streaming,
    {
        let mut any = false;
        for i in 0..self.messages.len()
            invariant
                any == exists|j: int| 0 <= j < i && is_expanded(#[trigger] self.messages@[j]),
        {
            match &self.messages[i].thinking {
                Some(t) => {
                    if !t.collapsed {
                        any = true;
                    }
                },
                None => {},
            }
        }
        let ghost orig = self.messages@;
        let mut old_msgs: Vec<Message> = Vec::new();
        std::mem::swap(&mut old_msgs, &mut self.messages);
        let mut out: Vec<Message> = Vec::new();
        let ghost mut i: int = 0;
        assert(orig.skip(0) == orig);
        while old_msgs.len() > 0
            invariant
                0 <= i <= orig.len(),
                old_msgs@ == orig.skip(i),
                out@.len() == i,
                any == Self::any_expanded(orig),
                forall|j: int| 0 <= j < i ==> {
                    let a = #[trigger] orig[j];
                    let b = out@[j];
                    &&& b.role == a.role
                    &&& b.content == a.content
                    &&& b.timestamp == a.timestamp
                    &&& b.tool_calls == a.tool_calls
                    &&& match a.thinking {
                        None => b.thinking is None,
                        Some(t) => b.thinking matches Some(u) && u.content == t.content
                            && u.token_count == t.token_count && u.duration_ms == t.duration_ms
                            && u.index == t.index && u.collapsed == any,
                    }
                },
            decreases old_msgs.len(),
        {
            let mut m = old_msgs.remove(0);
            assert(m == orig[i]);
            match &mut m.thinking {
                Some(t) => {
                    t.collapsed = any;
                },
                None => {},
            }
            out.push(m);
            assert(orig.skip(i).remove(0) == orig.skip(i + 1));
            proof {
                i = i + 1;
            }
        }
        self.messages = out;
        self.scroll_offset = 0;
    }

    /// Expands or collapses the thinking block of the answer that follows
    /// the user message at `user_msg_idx`.
    pub fn toggle_thinking_at(&mut self, user_msg_idx: usize)
        requires
            user_msg_idx < usize::MAX,
        ensures
            final(self).messages@.len() == old(self).messages@.len(),
            forall|i: int| 0 <= i < old(self).messages@.len() && i != user_msg_idx + 1
                ==> #[trigger] final(self).messages@[i] == old(self).messages@[i],
            user_msg_idx + 1 < old(self).messages@.len() ==> {
                let a = old(self).messages@[user_msg_idx + 1];
                let b = final(self).messages@[user_msg_idx + 1];
                &&& b.role == a.role
                &&& b.content == a.content
                &&& b.timestamp == a.timestamp
                &&& b.tool_calls == a.tool_calls
                &&& match a.thinking {
                    None => b.thinking is None,
                    Some(t) => b.thinking matches Some(u) && u.content == t.content && u.token_count
                        == t.token_count && u.duration_ms == t.duration_ms && u.index == t.index
                        && u.collapsed == !t.collapsed,
                }
            },
            final(self).scroll_offset == old(self).scroll_offset,
            final(self).auto_scroll == old(self).auto_scroll,
            final(self).streaming_think == old(self).streaming_think,
            final(self).streaming_text == old(self).streaming_text,
            final(self).is_streaming == old(self).is_streaming,
    {
        let k = user_msg_idx + 1;
        if k < self.messages.len() {
            let ghost orig = self.messages@;
            let mut m = self.messages.remove(k);
            match &mut m.thinking {
                Some(t) => {
                    t.collapsed = !t.collapsed;
                },
                None => {},
            }
            self.messages.insert(k, m);
            assert forall|i: int| 0 <= i < orig.len() && i != k implies #[trigger] self.messages@[i]
                == orig[i] by {
                if i < k {
                    assert(self.messages@[i] == orig.remove(k as int)[i]);
                } else {
                    assert(self.messages@[i] == orig.remove(k as int)[i - 1]);
                }
            }
        }
    }

    /// The indices of the user messages, one for each exchange, in order.
    pub fn dialogue_indices(&self) -> (r: Vec<usize>)
        ensures
            forall|j: int| 0 <= j < r@.len() ==> r@[j] < self.messages@.len() && self.messages@[r@[j] as int].role == MessageRole::User,
            forall|j: int, k: int| 0 <= j < k < r@.len() ==> r@[j] < r@[k],
            forall|i: int| 0 <= i < self.messages@.len() && (#[trigger] self.messages@[i]).role == MessageRole::User ==> r@.contains(i as usize),
    {
        let mut r: Vec<usize> = Vec::new();
        for i in 0..self.messages.len()
            invariant
                forall|j: int| 0 <= j < r@.len() ==> r@[j] < i && self.messages@[r@[j] as int].role == MessageRole::User,
                forall|j: int, k: int| 0 <= j < k < r@.len() ==> r@[j] < r@[k],
                forall|x: int| 0 <= x < i && (#[trigger] self.messages@[x]).role == MessageRole::User ==> r@.contains(x as usize),
        {
            if self.messages[i].role == MessageRole::User {
                let ghost before = r@;
                r.push(i);
                assert forall|x: int| 0 <= x < i + 1 && (#[trigger] self.messages@[x]).role == MessageRole::User implies r@.contains(x as usize) by {
                    if x < i {
                        let w = choose|w: int| 0 <= w < before.len() && before[w] == x as usize;
                        assert(r@[w] == x as usize);
                    } else {
                        assert(r@[before.len() as int] == i);
                    }
                }
            }
        }
        r
    }

    /// Stops following the newest line, so that the focused exchange is shown.
    pub fn scroll_to_dialogue(&mut self, _msg_idx: usize)
        ensures
            !final(self).auto_scroll,
            final(self).messages == old(self).messages,
            final(self).scroll_offset == old(self).scroll_offset,
            final(self).streaming_think == old(self).streaming_think,
            final(self).streaming_text == old(self).streaming_text,
            final(self).is_streaming == old(self).is_streaming,
    {
        self.auto_scroll = false;
    }

    /// Adds a user message; the view follows the newest line again.
    pub fn add_user_message(&mut self, content: String)
        ensures
            final(self).messages@.len() == old(self).messages@.len() + 1,
            final(self).messages@.drop_last() == old(self).messages@,
            final(self).messages@.last().role == MessageRole::User,
            final(self).messages@.last().content == content,
            final(self).messages@.last().thinking is None,
            final(self).messages@.last().tool_calls@.len() == 0,
            final(self).auto_scroll,
            final(self).scroll_offset == 0,
            final(self).streaming_think == old(self).streaming_think,
            final(self).streaming_text == old(self).streaming_text,
            final(self).is_streaming == old(self).is_streaming,
    {
        let now = now_micros();
        self.messages.push(
            Message {
                role: MessageRole::User,
                content,
                timestamp: now,
                thinking: None,
                tool_calls: Vec::new(),
            },
        );
        self.auto_scroll = true;
        self.scroll_offset = 0;
    }

    /// Adds an error, shown as a system message; the view follows the newest
    /// line again.
    pub fn add_error_message(&mut self, content: String)
        ensures
            final(self).messages@.len() == old(self).messages@.len() + 1,
            final(self).messages@.drop_last() == old(self).messages@,
            final(self).messages@.last().role == MessageRole::System,
            final(self).messages@.last().content == content,
            final(self).messages@.last().thinking is None,
            final(self).messages@.last().tool_calls@.len() == 0,
            final(self).auto_scroll,
            final(self).scroll_offset == 0,
            final(self).streaming_think == old(self).streaming_think,
            final(self).streaming_text == old(self).streaming_text,
            final(self).is_streaming == old(self).is_streaming,
    {
        let now = now_micros();
        self.messages.push(
            Message {
                role: MessageRole::System,
                content,
                timestamp: now,
                thinking: None,
                tool_calls: Vec::new(),
            },
        );
        self.auto_scroll = true;
        self.scroll_offset = 0;
    }

    /// Adds a horizontal rule of eighty box-drawing characters.
    pub fn add_separator(&mut self)
        ensures
            final(self).messages@.len() == old(self).messages@.len() + 1,
            final(self).messages@.drop_last() == old(self).messages@,
            final(self).messages@.last().role == MessageRole::System,
            final(self).messages@.last().content@ == rule_text(),
            final(self).messages@.last().thinking is None,
            final(self).messages@.last().tool_calls@.len() == 0,
            final(self).auto_scroll == old(self).auto_scroll,
            final(self).scroll_offset == old(self).scroll_offset,
            final(self).streaming_think == old(self).streaming_think,
            final(self).streaming_text == old(self).streaming_text,
            final(self).is_streaming == old(self).is_streaming,
    {
        let mut s = String::new();
        for i in 0..80usize
            invariant
                s@ == Seq::new(i as nat, |j: int| '─'),
        {
            push_char(&mut s, '─');
            assert(s@ =~= Seq::new((i + 1) as nat, |j: int| '─'));
        }
        let now = now_micros();
        self.messages.push(
            Message {
                role: MessageRole::System,
                content: s,
                timestamp: now,
                thinking: None,
                tool_calls: Vec::new(),
            },
        );
    }

    /// Scrolls up by `lines` (saturating); the view stops following the
    /// newest line.
    pub fn scroll_up(&mut self, lines: usize)
        ensures
            final(self).scroll_offset == if old(self).scroll_offset + lines > usize::MAX {
                usize::MAX as int
            } else {
                old(self).scroll_offset + lines
            },
            !final(self).auto_scroll,
            final(self).messages == old(self).messages,
            final(self).streaming_think == old(self).streaming_think,
            final(self).streaming_text == old(self).streaming_text,
            final(self).is_streaming == old(self).is_streaming,
    {
        self.scroll_offset = self.scroll_offset.saturating_add(lines);
        self.auto_scroll = false;
    }

    /// Scrolls down by `lines` (saturating); at the bottom the view follows
    /// the newest line again.
    pub fn scroll_down(&mut self, lines: usize)
        ensures
            final(self).scroll_offset == sat_sub(old(self).scroll_offset as int, lines as int),
            final(self).auto_scroll == (old(self).auto_scroll || final(self).scroll_offset == 0),
            final(self).messages == old(self).messages,
            final(self).streaming_think == old(self).streaming_think,
            final(self).streaming_text == old(self).streaming_text,
            final(self).is_streaming == old(self).is_streaming,
    {
        self.scroll_offset = self.scroll_offset.saturating_sub(lines);
        if self.scroll_offset == 0 {
            self.auto_scroll = true;
        }
    }

    /// Jumps to the bottom and follows the newest line.
    pub fn scroll_to_bottom(&mut self)
        ensures
            final(self).scroll_offset == 0,
            final(self).auto_scroll,
            final(self).messages == old(self).messages,
            final(self).streaming_think == old(self).streaming_think,
            final(self).streaming_text == old(self).streaming_text,
            final(self).is_streaming == old(self).is_streaming,
    {
        self.scroll_offset = 0;
        self.auto_scroll = true;
    }

    /// Jumps to the top of `total_lines` lines.
    pub fn scroll_to_top(&mut self, total_lines: usize)
        ensures
            final(self).scroll_offset == total_lines,
            !final(self).auto_scroll,
            final(self).messages == old(self).messages,
            final(self).streaming_think == old(self).streaming_think,
            final(self).streaming_text == old(self).streaming_text,
            final(self).is_streaming == old(self).is_streaming,
    {
        self.scroll_offset = total_lines;
        self.auto_scroll = false;
    }

    /// All lines of the viewport for a height, before scrolling.
    pub fn all_view_lines(&self, height: usize) -> (r: Vec<ViewLine>)
        ensures
            lines_view(r@) == all_lines(*self, height),
    {
        let mut out: Vec<ViewLine> = Vec::new();
        let n = self.messages.len();
        for i in 0..n
            invariant
                n == self.messages@.len(),
                lines_view(out@) == messages_lines(self.messages@.take(i as int)),
        {
            push_message(&mut out, &self.messages[i]);
            assert(self.messages@.take(i + 1).drop_last() == self.messages@.take(i as int));
        }
        assert(self.messages@.take(n as int) == self.messages@);
        let ghost msgs_part = lines_view(out@);
        if self.is_streaming {
            match &self.streaming_think {
                Some(t) => {
                    out.push(ViewLine::LiveThinkHeader(t.token_count));
                    let ls = lines(t.content.as_str());
                    let ghost lv = ls.deep_view();
                    let third = height / 3;
                    let vc = if third > 3 {
                        third
                    } else {
                        3
                    };
                    let start = if ls.len() > vc {
                        ls.len() - vc
                    } else {
                        0
                    };
                    let ghost head = lines_view(out@);
                    for j in start..ls.len()
                        invariant
                            lv == ls.deep_view(),
                            start <= ls.len(),
                            lines_view(out@) == head + lv.subrange(start as int, j as int).map_values(
                                |l: Seq<char>| ViewLineView::LiveThinking(l),
                            ),
                    {
                        let ghost before = lines_view(out@);
                        out.push(ViewLine::LiveThinking(copy_string(&ls[j])));
                        assert(lines_view(out@) =~= before.push(ViewLineView::LiveThinking(lv[j as int])));
                        assert(lv.subrange(start as int, j + 1) == lv.subrange(start as int, j as int).push(lv[j as int]));
                        assert(lv.subrange(start as int, j + 1).map_values(|l: Seq<char>| ViewLineView::LiveThinking(l))
                            =~= lv.subrange(start as int, j as int).map_values(|l: Seq<char>| ViewLineView::LiveThinking(l)).push(
                            ViewLineView::LiveThinking(lv[j as int]),
                        ));
                    }
                    assert(lv.subrange(start as int, lv.len() as int) == lv.skip(start as int));
                    push_blanks(&mut out, 5);
                },
                None => {},
            }
            let ghost think_done = lines_view(out@);
            assert(think_done =~= msgs_part + live_think_part(self.streaming_think, height));
            if !self.streaming_text.as_str().is_empty() {
                let md = markdown_lines(self.streaming_text.as_str());
                push_markdown(&mut out, md, false);
                push_blanks(&mut out, 5);
            }
            assert(lines_view(out@) =~= msgs_part + (live_think_part(self.streaming_think, height)
                + if self.streaming_text@.len() > 0 {
                md_part(markdown_view(self.streaming_text@), false) + blanks(5)
            } else {
                seq![]
            }));
        } else {
            assert(lines_view(out@) =~= msgs_part + Seq::<ViewLineView>::empty());
        }
        out
    }

    /// The lines shown in `height` rows. The scroll offset is first clamped
    /// to the largest one that still fills the rows; a view that follows the
    /// newest line shows the last rows.
    pub fn render(&mut self, height: usize) -> (r: Vec<ViewLine>)
        ensures
            ({
                let all = all_lines(*old(self), height);
                let total = all.len() as int;
                let ms = max_scroll_of(total, height as int);
                let off = if old(self).scroll_offset > ms {
                    ms
                } else {
                    old(self).scroll_offset as int
                };
                let first = first_shown(total, height as int, off, old(self).auto_scroll);
                let last = if first + height > total {
                    total
                } else {
                    first + height
                };
                &&& final(self).scroll_offset == off
                &&& lines_view(r@) == all.subrange(first, last)
            }),
            final(self).messages == old(self).messages,
            final(self).auto_scroll == old(self).auto_scroll,
            final(self).streaming_think == old(self).streaming_think,
            final(self).streaming_text == old(self).streaming_text,
            final(self).is_streaming == old(self).is_streaming,
    {
        let mut out = self.all_view_lines(height);
        let total = out.len();
        let max_scroll = total.saturating_sub(height);
        if self.scroll_offset > max_scroll {
            self.scroll_offset = max_scroll;
        }
        let first = if self.auto_scroll {
            total.saturating_sub(height)
        } else {
            max_scroll.saturating_sub(self.scroll_offset)
        };
        let ghost all = lines_view(out@);
        let mut shown = out.split_off(first);
        let keep = if height < shown.len() {
            height
        } else {
            shown.len()
        };
        let ghost tail = shown@;
        shown.truncate(keep);
        assert(lines_view(shown@) =~= all.subrange(first as int, first + keep));
        shown
    }
}

impl Default for Viewport {
    fn default() -> (r: Self)
        ensures
            r.messages@.len() == 0,
            r.scroll_offset == 0,
            r.auto_scroll,
            r.streaming_think is None,
            r.streaming_text@.len() == 0,
            !r.is_streaming,
    {
        Viewport::new()
    }
}

/// `s` without its trailing line feeds.
pub open spec fn trim_trailing_newlines(s: Seq<char>) -> Seq<char>
    decreases s.len(),
{
    if s.len() > 0 && s.last() == '\n' {
        trim_trailing_newlines(s.drop_last())
    } else {
        s
    }
}

/// A copy of `s` without its trailing line feeds.
fn trim_newlines_end(s: &String) -> (r: String)
    ensures
        r@ == trim_trailing_newlines(s@),
{
    let cs = crate::text::chars_of(s.as_str());
    let mut end = cs.len();
    assert(cs@.take(end as int) == cs@);
    while end > 0 && cs[end - 1] == '\n'
        invariant
            end <= cs.len(),
            trim_trailing_newlines(cs@.take(end as int)) == trim_trailing_newlines(cs@),
        decreases end,
    {
        assert(cs@.take(end as int).drop_last() == cs@.take(end - 1));
        end -= 1;
    }
    crate::text::string_from_prefix(&cs, end)
}

/// Whole milliseconds from `start` to `now` (microseconds); zero when the
/// clock went back.
pub open spec fn elapsed_ms(start: i64, now: i64) -> u64 {
    if now > start {
        ((now - start) / 1000) as u64
    } else {
        0
    }
}

/// Computes `elapsed_ms`.
fn elapsed_millis(start: i64, now: i64) -> (r: u64)
    ensures
        r == elapsed_ms(start, now),
{
    if now > start {
        let d: i128 = now as i128 - start as i128;
        (d / 1000) as u64
    } else {
        0
    }
}

/// Scrolling down by as many lines as were scrolled up returns to the same
/// offset, where scrolling up did not saturate.
pub proof fn law_scroll_down_undoes_scroll_up(offset: usize, n: usize)
    requires
        offset + n <= usize::MAX,
    ensures
        sat_sub(offset + n, n as int) == offset,
{
}

/// The lines shown never exceed the rows: the first one shown is within the
/// lines, and with the offset clamped a view that does not follow the newest
/// line still fills every row it can.
pub proof fn law_shown_lines_fit(total: nat, height: nat, offset: nat, auto: bool)
    ensures
        ({
            let ms = max_scroll_of(total as int, height as int);
            let off = if offset > ms {
                ms
            } else {
                offset as int
            };
            let first = first_shown(total as int, height as int, off, auto);
            let last = if first + height > total {
                total as int
            } else {
                first + height
            };
            &&& 0 <= first <= last <= total
            &&& last - first <= height
            &&& last - first == if total < height {
                total as int
            } else {
                height as int
            }
        }),
{
}

} // verus!
