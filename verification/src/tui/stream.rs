//! Decoding of the model's server-sent event stream into UI events: line
//! framing of the received text, thinking and answer tokens, and usage.
use vstd::prelude::*;
use vstd::string::*;

use crate::json::{
    as_str, as_u64, get_item, get_member, index_of, item_of, json_of, json_view, member_of, parse_json,
    str_of, u64_of, Json, JsonView,
};
use crate::text::{chars_of, newline_pos, starts_with, str_eq, str_starts_with, string_from_prefix, string_from_range};

verus! {

/// The API base URL that is used when none is configured.
pub open spec fn default_base_url() -> Seq<char> {
    "https://api.deepseek.com"@
}

/// The base URL of the chat API: the configured DeepSeek URL when the
/// provider is DeepSeek and one is configured, the default otherwise.
pub fn base_url_for(provider: &str, deepseek_base_url: &str) -> (r: String)
    ensures
        r@ == if provider@ == "deepseek"@ && deepseek_base_url@.len() > 0 {
            deepseek_base_url@
        } else {
            default_base_url()
        },
{
    if str_eq(provider, "deepseek") {
        if deepseek_base_url.is_empty() {
            "https://api.deepseek.com".to_owned()
        } else {
            deepseek_base_url.to_owned()
        }
    } else {
        "https://api.deepseek.com".to_owned()
    }
}

/// Token counts that the API reports.
#[derive(Debug, Clone, Copy, PartialEq, Eq, Structural)]
pub struct Usage {
    pub prompt_tokens: u64,
    pub completion_tokens: u64,
}

/// What one `data:` payload of the stream carries: the usage, when present
/// and not null, and the reasoning and answer text of the first choice's
/// delta, when they are strings.
#[derive(Debug)]
pub struct SseChunk {
    pub usage: Option<Usage>,
    pub reasoning: Option<String>,
    pub content: Option<String>,
}

/// The plain value of an [`SseChunk`].
pub struct SseChunkView {
    pub usage: Option<Usage>,
    pub reasoning: Option<Seq<char>>,
    pub content: Option<Seq<char>>,
}

/// The plain value of an optional [`SseChunk`].
pub open spec fn chunk_view(c: Option<SseChunk>) -> Option<SseChunkView> {
    match c {
        Some(k) => Some(
            SseChunkView { usage: k.usage, reasoning: opt_text(k.reasoning), content: opt_text(k.content) },
        ),
        None => None,
    }
}

/// The count named `key` of a usage object: its value when it is an
/// unsigned integer, 0 when it is missing or anything else.
pub open spec fn count_of(u: JsonView, key: Seq<char>) -> u64 {
    match u64_of(index_of(u, key)) {
        Some(n) => n,
        None => 0,
    }
}

/// The usage of a payload: its `usage` member when present and not null,
/// with `prompt_tokens` and `completion_tokens` read by [`count_of`].
pub open spec fn usage_of(d: JsonView) -> Option<Usage> {
    match member_of(d, "usage"@) {
        Some(u) => if u is Null {
            None
        } else {
            Some(
                Usage {
                    prompt_tokens: count_of(u, "prompt_tokens"@),
                    completion_tokens: count_of(u, "completion_tokens"@),
                },
            )
        },
        None => None,
    }
}

/// The `delta` member of the first item of a payload's `choices`.
pub open spec fn delta_of(d: JsonView) -> Option<JsonView> {
    match item_of(index_of(d, "choices"@), 0) {
        Some(c) => member_of(c, "delta"@),
        None => None,
    }
}

/// The text of the delta's member `key`, when it is a string.
pub open spec fn delta_text(d: JsonView, key: Seq<char>) -> Option<Seq<char>> {
    match delta_of(d) {
        Some(x) => match member_of(x, key) {
            Some(t) => str_of(t),
            None => None,
        },
        None => None,
    }
}

/// What a payload's JSON value carries: its usage, and the first choice's
/// `reasoning_content` and `content` texts.
pub open spec fn chunk_of_json(d: JsonView) -> SseChunkView {
    SseChunkView {
        usage: usage_of(d),
        reasoning: delta_text(d, "reasoning_content"@),
        content: delta_text(d, "content"@),
    }
}

/// What a payload text parses to: `None` when it is not JSON.
pub open spec fn chunk_of(json: Seq<char>) -> Option<SseChunkView> {
    match json_of(json) {
        Some(d) => Some(chunk_of_json(d)),
        None => None,
    }
}

/// A string member of the first choice's delta, copied.
fn delta_string(v: &Json, key: &str) -> (r: Option<String>)
    ensures
        opt_text(r) == delta_text(json_view(*v), key@),
{
    let choices = match get_member(v, "choices") {
        Some(c) => c,
        None => &Json::Null,
    };
    let first = match get_item(choices, 0) {
        Some(c) => c,
        None => return None,
    };
    let delta = match get_member(first, "delta") {
        Some(d) => d,
        None => return None,
    };
    match get_member(delta, key) {
        Some(t) => match as_str(t) {
            Some(s) => Some(s.to_owned()),
            None => None,
        },
        None => None,
    }
}

/// A count of a usage object: 0 when missing or not an unsigned integer.
fn usage_count(u: &Json, key: &str) -> (r: u64)
    ensures
        r == count_of(json_view(*u), key@),
{
    match get_member(u, key) {
        Some(x) => match as_u64(x) {
            Some(n) => n,
            None => 0,
        },
        None => 0,
    }
}

/// Reads a payload's JSON value: the usage, when present and not null, and
/// the first choice's reasoning and answer texts, when they are strings.
pub fn chunk_from_json(v: &Json) -> (r: SseChunk)
    ensures
        chunk_view(Some(r)) == Some(chunk_of_json(json_view(*v))),
{
    let usage = match get_member(v, "usage") {
        Some(u) => match u {
            Json::Null => None,
            _ => Some(
                Usage {
                    prompt_tokens: usage_count(u, "prompt_tokens"),
                    completion_tokens: usage_count(u, "completion_tokens"),
                },
            ),
        },
        None => None,
    };
    let reasoning = delta_string(v, "reasoning_content");
    let content = delta_string(v, "content");
    SseChunk { usage, reasoning, content }
}

/// Parses a `data: ` payload: `None` when it is not JSON, else what
/// [`chunk_from_json`] reads from its value.
pub fn parse_chunk(json: &str) -> (r: Option<SseChunk>)
    ensures
        chunk_view(r) == chunk_of(json@),
{
    match parse_json(json) {
        Some(v) => Some(chunk_from_json(&v)),
        None => None,
    }
}

/// An event for the UI.
#[derive(Debug)]
pub enum StreamEvent {
    ThinkStart,
    /// Answer text, or reasoning text behind a `\0THINK:` marker.
    Token(String),
    ThinkEnd,
    ResponseComplete(Option<Usage>),
}

/// The plain value of a [`StreamEvent`].
pub enum StreamEventView {
    ThinkStart,
    Token(Seq<char>),
    ThinkEnd,
    ResponseComplete(Option<Usage>),
}

/// The plain value of a [`StreamEvent`].
pub open spec fn event_view(e: StreamEvent) -> StreamEventView {
    match e {
        StreamEvent::ThinkStart => StreamEventView::ThinkStart,
        StreamEvent::Token(t) => StreamEventView::Token(t@),
        StreamEvent::ThinkEnd => StreamEventView::ThinkEnd,
        StreamEvent::ResponseComplete(u) => StreamEventView::ResponseComplete(u),
    }
}

/// The plain values of a sequence of events.
pub open spec fn events_view(s: Seq<StreamEvent>) -> Seq<StreamEventView> {
    s.map_values(|e: StreamEvent| event_view(e))
}

/// `s` without its trailing carriage returns.
pub open spec fn strip_crs(s: Seq<char>) -> Seq<char>
    decreases s.len(),
{
    if s.len() > 0 && s.last() == '\r' {
        strip_crs(s.drop_last())
    } else {
        s
    }
}

/// The characters of an optional string.
pub open spec fn opt_text(o: Option<String>) -> Option<Seq<char>> {
    match o {
        Some(x) => Some(x@),
        None => None,
    }
}

/// The marker before reasoning text in a token.
pub open spec fn think_marker() -> Seq<char> {
    seq!['\0'] + "THINK:"@
}

/// The events one payload produces when the stream is in a thinking block
/// or not, and whether it is in one afterwards.
pub open spec fn chunk_events(
    in_thinking: bool,
    reasoning: Option<Seq<char>>,
    content: Option<Seq<char>>,
) -> (Seq<StreamEventView>, bool) {
    let (e1, t1) = match reasoning {
        Some(r) => if r.len() > 0 {
            if !in_thinking {
                (
                    seq![
                        StreamEventView::ThinkStart,
                        StreamEventView::Token(think_marker() + r),
                    ],
                    true,
                )
            } else {
                (seq![StreamEventView::Token(think_marker() + r)], true)
            }
        } else {
            (seq![], in_thinking)
        },
        None => (seq![], in_thinking),
    };
    match content {
        Some(c) => if c.len() > 0 {
            if t1 {
                (e1 + seq![StreamEventView::ThinkEnd, StreamEventView::Token(c)], false)
            } else {
                (e1 + seq![StreamEventView::Token(c)], false)
            }
        } else {
            (e1, t1)
        },
        None => (e1, t1),
    }
}

/// The chunk that a line's payload parses to: for a `data: ` line, what
/// `chunk_of` gives for the rest of it; `None` for any other line.
pub open spec fn payload_chunk(line: Seq<char>) -> Option<SseChunkView> {
    if starts_with(line, "data: "@) {
        chunk_of(line.skip(6))
    } else {
        None
    }
}

/// What handling one line does, from the thinking state and the last usage:
/// the events, whether the stream is complete, the thinking state and the
/// last usage afterwards. An empty line, a line that is not `data: `, and a
/// payload that did not parse do nothing; `data: [DONE]` completes the
/// response.
pub open spec fn line_step(
    thinking: bool,
    usage: Option<Usage>,
    line: Seq<char>,
    chunk: Option<SseChunkView>,
) -> (Seq<StreamEventView>, bool, bool, Option<Usage>) {
    if line.len() == 0 {
        (seq![], false, thinking, usage)
    } else if line == "data: [DONE]"@ {
        (seq![StreamEventView::ResponseComplete(usage)], true, thinking, usage)
    } else if starts_with(line, "data: "@) && chunk is Some {
        let c = chunk->0;
        let ev = chunk_events(thinking, c.reasoning, c.content);
        (ev.0, false, ev.1, match c.usage {
            Some(u) => Some(u),
            None => usage,
        })
    } else {
        (seq![], false, thinking, usage)
    }
}

/// The decoder's state: text received but not yet framed into a line,
/// whether a thinking block is open, and the last usage reported.
pub struct SseDecoder {
    buffer: String,
    in_thinking: bool,
    usage: Option<Usage>,
}

impl SseDecoder {
    pub closed spec fn pending(&self) -> Seq<char> {
        self.buffer@
    }

    pub closed spec fn thinking(&self) -> bool {
        self.in_thinking
    }

    pub closed spec fn last_usage(&self) -> Option<Usage> {
        self.usage
    }

    pub fn new() -> (r: Self)
        ensures
            r.pending().len() == 0,
            !r.thinking(),
            r.last_usage() is None,
    {
        SseDecoder { buffer: String::new(), in_thinking: false, usage: None }
    }

    /// Adds received text to the pending buffer.
    pub fn push_text(&mut self, text: &str)
        ensures
            final(self).pending() == old(self).pending() + text@,
            final(self).thinking() == old(self).thinking(),
            final(self).last_usage() == old(self).last_usage(),
    {
        self.buffer.append(text);
    }

    /// Takes the next complete line from the pending text: the text up to the
    /// first line feed, without its trailing carriage returns. `None` while
    /// no line feed has arrived.
    pub fn next_line(&mut self) -> (r: Option<String>)
        ensures
            final(self).thinking() == old(self).thinking(),
            final(self).last_usage() == old(self).last_usage(),
            ({
                let b = old(self).pending();
                let k = newline_pos(b);
                if k < b.len() {
                    &&& r matches Some(l) && l@ == strip_crs(b.take(k as int))
                    &&& final(self).pending() == b.skip(k + 1int)
                } else {
                    &&& r is None
                    &&& final(self).pending() == b
                }
            }),
    {
        let cs = chars_of(self.buffer.as_str());
        let ghost b = cs@;
        let mut k: usize = 0;
        assert(b.skip(0) == b);
        while k < cs.len() && cs[k] != '\n'
            invariant
                k <= cs.len(),
                b == cs@,
                forall|j: int| 0 <= j < k ==> b[j] != '\n',
                newline_pos(b) == k + newline_pos(b.skip(k as int)),
            decreases cs.len() - k,
        {
            assert(b.skip(k as int).drop_first() == b.skip(k + 1));
            k += 1;
        }
        if k == cs.len() {
            assert(b.skip(k as int).len() == 0);
            return None;
        }
        assert(b.skip(k as int)[0] == '\n');
        let mut end = k;
        while end > 0 && cs[end - 1] == '\r'
            invariant
                end <= k < cs.len(),
                b == cs@,
                strip_crs(b.take(end as int)) == strip_crs(b.take(k as int)),
            decreases end,
        {
            assert(b.take(end as int).drop_last() == b.take(end - 1));
            end -= 1;
        }
        assert(end == 0 || b.take(end as int).last() != '\r');
        let line = string_from_prefix(&cs, end);
        self.buffer = string_from_range(&cs, k + 1, cs.len());
        assert(cs@.subrange(k + 1, cs.len() as int) == b.skip(k + 1));
        Some(line)
    }

    /// Handles one line of the stream. `chunk` is the line's payload after
    /// `data: ` as parsed, or `None` when it did not parse. Returns the events
    /// for the UI and whether the stream is complete.
    pub fn on_line(&mut self, line: &str, chunk: Option<&SseChunk>) -> (r: (Vec<StreamEvent>, bool))
        ensures
            final(self).pending() == old(self).pending(),
            ({
                if line@.len() == 0 {
                    &&& r.0@.len() == 0 && !r.1
                    &&& final(self).thinking() == old(self).thinking()
                    &&& final(self).last_usage() == old(self).last_usage()
                } else if line@ == "data: [DONE]"@ {
                    &&& events_view(r.0@) == seq![StreamEventView::ResponseComplete(old(self).last_usage())]
                    &&& r.1
                    &&& final(self).thinking() == old(self).thinking()
                    &&& final(self).last_usage() == old(self).last_usage()
                } else if starts_with(line@, "data: "@) && chunk is Some {
                    let c = chunk->0;
                    let ev = chunk_events(old(self).thinking(), opt_text(c.reasoning), opt_text(c.content));
                    &&& events_view(r.0@) == ev.0
                    &&& !r.1
                    &&& final(self).thinking() == ev.1
                    &&& final(self).last_usage() == match c.usage {
                        Some(u) => Some(u),
                        None => old(self).last_usage(),
                    }
                } else {
                    &&& r.0@.len() == 0 && !r.1
                    &&& final(self).thinking() == old(self).thinking()
                    &&& final(self).last_usage() == old(self).last_usage()
                }
            }),
    {
        let mut events: Vec<StreamEvent> = Vec::new();
        if line.is_empty() {
            return (events, false);
        }
        if str_eq(line, "data: [DONE]") {
            events.push(StreamEvent::ResponseComplete(self.usage));
            assert(events_view(events@) =~= seq![StreamEventView::ResponseComplete(self.usage)]);
            return (events, true);
        }
        if !str_starts_with(line, "data: ") {
            return (events, false);
        }
        match chunk {
            None => (events, false),
            Some(c) => {
                match c.usage {
                    Some(u) => {
                        self.usage = Some(u);
                    },
                    None => {},
                }
                let ghost t0 = self.in_thinking;
                match &c.reasoning {
                    Some(text) => {
                        if !text.as_str().is_empty() {
                            if !self.in_thinking {
                                self.in_thinking = true;
                                events.push(StreamEvent::ThinkStart);
                            }
                            let mut tok = String::new();
                            crate::text::push_char(&mut tok, '\0');
                            tok.append("THINK:");
                            tok.append(text.as_str());
                            events.push(StreamEvent::Token(tok));
                        }
                    },
                    None => {},
                }
                let ghost e1 = events_view(events@);
                match &c.content {
                    Some(text) => {
                        if !text.as_str().is_empty() {
                            if self.in_thinking {
                                self.in_thinking = false;
                                events.push(StreamEvent::ThinkEnd);
                            }
                            events.push(StreamEvent::Token(crate::text::copy_string(text)));
                        }
                    },
                    None => {},
                }
                assert(events_view(events@) =~= chunk_events(t0, opt_text(c.reasoning), opt_text(c.content)).0);
                (events, false)
            },
        }
    }

    /// Handles one line as it came from the stream: a `data: ` payload is
    /// parsed as JSON first.
    pub fn decode_line(&mut self, line: &str) -> (r: (Vec<StreamEvent>, bool))
        ensures
            final(self).pending() == old(self).pending(),
            ({
                let o = line_step(old(self).thinking(), old(self).last_usage(), line@, payload_chunk(line@));
                &&& events_view(r.0@) == o.0
                &&& r.1 == o.1
                &&& final(self).thinking() == o.2
                &&& final(self).last_usage() == o.3
            }),
    {
        let chunk = match sse_payload(line) {
            Some(p) => parse_chunk(p.as_str()),
            None => None,
        };
        proof {
            reveal_strlit("data: ");
        }
        let ghost cv = chunk_view(chunk);
        assert(starts_with(line@, "data: "@) ==> cv == payload_chunk(line@));
        let r = match &chunk {
            Some(c) => self.on_line(line, Some(c)),
            None => self.on_line(line, None),
        };
        r
    }

    /// Takes a piece of the response body: adds it to the pending text and
    /// handles each complete line in turn, until one completes the response.
    /// Returns the events and whether the response completed.
    pub fn feed(&mut self, text: &str) -> (r: (Vec<StreamEvent>, bool))
        ensures
            ({
                let f = fed(old(self).thinking(), old(self).last_usage(), old(self).pending(), text@);
                &&& events_view(r.0@) == f.0
                &&& r.1 == f.1
                &&& final(self).thinking() == f.2
                &&& final(self).last_usage() == f.3
                &&& final(self).pending() == f.4
            }),
    {
        let ghost t0 = self.thinking();
        let ghost u0 = self.last_usage();
        self.push_text(text);
        let ghost buf = self.pending();
        let ghost full = run_lines(t0, u0, drain(buf).0);
        let mut events: Vec<StreamEvent> = Vec::new();
        let ghost mut i: nat = 0;
        loop
            invariant
                t0 == old(self).thinking(),
                u0 == old(self).last_usage(),
                buf == old(self).pending() + text@,
                full == run_lines(t0, u0, drain(buf).0),
                self.pending() == skip_lines(buf, i),
                drain(buf).1 == drain(self.pending()).1,
                ({
                    let rr = run_lines(self.thinking(), self.last_usage(), drain(self.pending()).0);
                    &&& full.0 == events_view(events@) + rr.0
                    &&& full.1 == rr.1
                    &&& full.2 == rr.2
                    &&& full.3 == rr.3
                    &&& full.4 == i + rr.4
                }),
            decreases self.pending().len(),
        {
            let ghost p = self.pending();
            let ghost t = self.thinking();
            let ghost u = self.last_usage();
            proof {
                crate::text::lemma_newline_pos_bound(p);
            }
            match self.next_line() {
                None => {
                    assert(drain(p).0.len() == 0);
                    assert(events_view(events@) + Seq::<StreamEventView>::empty() == events_view(events@));
                    return (events, false);
                },
                Some(line) => {
                    let ghost rest = self.pending();
                    assert(drain(p).0 == seq![line@] + drain(rest).0);
                    assert(drain(p).0[0] == line@);
                    assert(drain(p).0.drop_first() == drain(rest).0);
                    let (mut evs, done) = self.decode_line(line.as_str());
                    let ghost before = events@;
                    events.append(&mut evs);
                    assert(events_view(events@) =~= events_view(before) + line_step(t, u, line@, payload_chunk(line@)).0);
                    if done {
                        assert(full.0 =~= events_view(events@));
                        return (events, true);
                    }
                    proof {
                        i = i + 1;
                    }
                },
            }
        }
    }

    /// The events when the stream ends without `[DONE]`: an open thinking
    /// block is closed, then the response completes with the last usage.
    pub fn finish(&mut self) -> (r: Vec<StreamEvent>)
        ensures
            events_view(r@) == if old(self).thinking() {
                seq![StreamEventView::ThinkEnd, StreamEventView::ResponseComplete(old(self).last_usage())]
            } else {
                seq![StreamEventView::ResponseComplete(old(self).last_usage())]
            },
            !final(self).thinking(),
            final(self).last_usage() == old(self).last_usage(),
            final(self).pending() == old(self).pending(),
    {
        let mut events: Vec<StreamEvent> = Vec::new();
        let ghost t = self.in_thinking;
        if self.in_thinking {
            self.in_thinking = false;
            events.push(StreamEvent::ThinkEnd);
        }
        events.push(StreamEvent::ResponseComplete(self.usage));
        assert(events_view(events@) =~= if t {
            seq![StreamEventView::ThinkEnd, StreamEventView::ResponseComplete(self.usage)]
        } else {
            seq![StreamEventView::ResponseComplete(self.usage)]
        });
        events
    }
}

/// The payload of a `data: ` line.
pub fn sse_payload(line: &str) -> (r: Option<String>)
    ensures
        r matches Some(p) ==> starts_with(line@, "data: "@) && p@ == line@.skip(6),
        r is None ==> !starts_with(line@, "data: "@),
{
    if str_starts_with(line, "data: ") {
        let cs = chars_of(line);
        proof {
            reveal_strlit("data: ");
        }
        Some(string_from_range(&cs, 6, cs.len()))
    } else {
        None
    }
}

/// A thinking block opens and closes in turn: after any payload the block
/// is open exactly when the payload's last text was reasoning, and each
/// `ThinkStart` is emitted only when no block was open.
pub proof fn law_thinking_alternates(in_thinking: bool, reasoning: Option<Seq<char>>, content: Option<Seq<char>>)
    ensures
        ({
            let (ev, after) = chunk_events(in_thinking, reasoning, content);
            &&& (content matches Some(c) && c.len() > 0) ==> !after
            &&& (!(content matches Some(c) && c.len() > 0) && (reasoning matches Some(r) && r.len() > 0)) ==> after
            &&& (ev.len() > 0 && ev[0] is ThinkStart) ==> !in_thinking
        }),
{
}

// ---------------------------------------------------------------------------
// Laws over whole streams
// ---------------------------------------------------------------------------
/// The complete lines that `next_line` takes, one after the other, from
/// buffered text, and the text left over.
pub open spec fn drain(buf: Seq<char>) -> (Seq<Seq<char>>, Seq<char>)
    decreases buf.len(),
{
    let k = newline_pos(buf);
    if k < buf.len() {
        let d = drain(buf.skip(k + 1int));
        (seq![strip_crs(buf.take(k as int))] + d.0, d.1)
    } else {
        (seq![], buf)
    }
}

proof fn lemma_newline_pos_append(s: Seq<char>, b: Seq<char>)
    requires
        newline_pos(s) < s.len(),
    ensures
        newline_pos(s + b) == newline_pos(s),
    decreases s.len(),
{
    assert((s + b)[0] == s[0]);
    if s[0] != '\n' {
        assert((s + b).drop_first() == s.drop_first() + b);
        lemma_newline_pos_append(s.drop_first(), b);
    }
}

/// Framing does not depend on how the body is cut: pushing a text in two
/// pieces and taking the complete lines after each gives the same lines and
/// the same leftover as pushing it at once.
pub proof fn law_framing_ignores_chunking(s: Seq<char>, b: Seq<char>)
    ensures
        drain(s).0 + drain(drain(s).1 + b).0 == drain(s + b).0,
        drain(drain(s).1 + b).1 == drain(s + b).1,
    decreases s.len(),
{
    let k = newline_pos(s);
    if k < s.len() {
        lemma_newline_pos_append(s, b);
        let t = s.skip(k + 1int);
        law_framing_ignores_chunking(t, b);
        assert((s + b).take(k as int) == s.take(k as int));
        assert((s + b).skip(k + 1int) == t + b);
        let x = seq![strip_crs(s.take(k as int))];
        assert(drain(s).0 == x + drain(t).0);
        assert(drain(s + b).0 == x + drain(t + b).0);
        assert(x + drain(t).0 + drain(drain(t).1 + b).0 == x + (drain(t).0 + drain(drain(t).1 + b).0));
    } else {
        assert(drain(s).0 + drain(s + b).0 == drain(s + b).0);
    }
}

/// The thinking state after a run of events, from `open`: a start opens a
/// block and an end closes it; `None` when a start comes while a block is
/// open or an end while none is, or when a token is empty, or is a
/// reasoning token (one that begins with the marker) while no block is open,
/// or a plain one while a block is.
pub open spec fn think_state_after(ev: Seq<StreamEventView>, open: bool) -> Option<bool>
    decreases ev.len(),
{
    if ev.len() == 0 {
        Some(open)
    } else {
        match ev[0] {
            StreamEventView::ThinkStart => if open {
                None
            } else {
                think_state_after(ev.drop_first(), true)
            },
            StreamEventView::ThinkEnd => if open {
                think_state_after(ev.drop_first(), false)
            } else {
                None
            },
            StreamEventView::Token(t) => if t.len() > 0 && open == starts_with(t, think_marker()) {
                think_state_after(ev.drop_first(), open)
            } else {
                None
            },
            _ => think_state_after(ev.drop_first(), open),
        }
    }
}

proof fn lemma_think_state_concat(a: Seq<StreamEventView>, b: Seq<StreamEventView>, open: bool)
    ensures
        think_state_after(a + b, open) == match think_state_after(a, open) {
            Some(o) => think_state_after(b, o),
            None => None,
        },
    decreases a.len(),
{
    if a.len() > 0 {
        assert((a + b)[0] == a[0]);
        assert((a + b).drop_first() == a.drop_first() + b);
        lemma_think_state_concat(a.drop_first(), b, true);
        lemma_think_state_concat(a.drop_first(), b, false);
    } else {
        assert(a + b == b);
    }
}

/// Whether a chunk's content text, if any, does not begin with the
/// reasoning marker.
pub open spec fn content_unmarked(c: Option<SseChunkView>) -> bool {
    c matches Some(k) ==> (k.content matches Some(x) ==> !starts_with(x, think_marker()))
}

proof fn lemma_marked(r: Seq<char>)
    ensures
        starts_with(think_marker() + r, think_marker()),
        (think_marker() + r).len() > 0,
{
    assert((think_marker() + r).take(think_marker().len() as int) =~= think_marker());
}

proof fn lemma_line_step_alternates(t: bool, u: Option<Usage>, l: Seq<char>, c: Option<SseChunkView>)
    requires
        content_unmarked(c),
    ensures
        think_state_after(line_step(t, u, l, c).0, t) == Some(line_step(t, u, l, c).2),
{
    reveal_with_fuel(think_state_after, 5);
    if let Some(k) = c {
        if let Some(r) = k.reasoning {
            lemma_marked(r);
        }
    }
}

/// The lines of a stream handled one after the other from a thinking state
/// and a last usage: all their events, and the thinking state and last usage
/// afterwards.
pub open spec fn stream_steps(
    thinking: bool,
    usage: Option<Usage>,
    lines: Seq<(Seq<char>, Option<SseChunkView>)>,
) -> (Seq<StreamEventView>, bool, Option<Usage>)
    decreases lines.len(),
{
    if lines.len() == 0 {
        (seq![], thinking, usage)
    } else {
        let o = line_step(thinking, usage, lines[0].0, lines[0].1);
        let rest = stream_steps(o.2, o.3, lines.drop_first());
        (o.0 + rest.0, rest.1, rest.2)
    }
}

/// Handling lines one after the other until one completes the response:
/// the events, whether one completed it, the thinking state and the last
/// usage afterwards, and how many lines were handled.
pub open spec fn run_lines(thinking: bool, usage: Option<Usage>, lines: Seq<Seq<char>>) -> (
    Seq<StreamEventView>,
    bool,
    bool,
    Option<Usage>,
    nat,
)
    decreases lines.len(),
{
    if lines.len() == 0 {
        (seq![], false, thinking, usage, 0)
    } else {
        let o = line_step(thinking, usage, lines[0], payload_chunk(lines[0]));
        if o.1 {
            (o.0, true, o.2, o.3, 1)
        } else {
            let r = run_lines(o.2, o.3, lines.drop_first());
            (o.0 + r.0, r.1, r.2, r.3, r.4 + 1)
        }
    }
}

/// The text left after taking `n` complete lines from `buf`.
pub open spec fn skip_lines(buf: Seq<char>, n: nat) -> Seq<char>
    decreases n,
{
    if n == 0 {
        buf
    } else {
        let p = skip_lines(buf, (n - 1) as nat);
        p.skip(newline_pos(p) + 1int)
    }
}

/// What feeding `text` to a decoder in thinking state `thinking`, with last
/// usage `usage` and pending text `pending` does: the events, whether the
/// response completed, the thinking state, the last usage and the pending
/// text afterwards.
pub open spec fn fed(thinking: bool, usage: Option<Usage>, pending: Seq<char>, text: Seq<char>) -> (
    Seq<StreamEventView>,
    bool,
    bool,
    Option<Usage>,
    Seq<char>,
) {
    let buf = pending + text;
    let d = drain(buf);
    let r = run_lines(thinking, usage, d.0);
    (r.0, r.1, r.2, r.3, if r.1 {
        skip_lines(buf, r.4)
    } else {
        d.1
    })
}

/// Over a whole stream thinking starts and ends alternate: no start while a
/// block is open, no end while none is; every token is non-empty, reasoning
/// tokens come only inside a block and plain ones only outside; and the
/// decoder's thinking state is where the events leave it. The events at the
/// end of a stream close an open block. (A content text that itself begins
/// with the reasoning marker would pass for reasoning, so such contents are
/// left out.)
pub proof fn law_thinking_alternates_over_stream(
    thinking: bool,
    usage: Option<Usage>,
    lines: Seq<(Seq<char>, Option<SseChunkView>)>,
)
    requires
        forall|i: int| 0 <= i < lines.len() ==> content_unmarked(#[trigger] lines[i].1),
    ensures
        think_state_after(stream_steps(thinking, usage, lines).0, thinking) == Some(
            stream_steps(thinking, usage, lines).1,
        ),
        think_state_after(
            if stream_steps(thinking, usage, lines).1 {
                seq![StreamEventView::ThinkEnd, StreamEventView::ResponseComplete(stream_steps(thinking, usage, lines).2)]
            } else {
                seq![StreamEventView::ResponseComplete(stream_steps(thinking, usage, lines).2)]
            },
            stream_steps(thinking, usage, lines).1,
        ) == Some(false),
    decreases lines.len(),
{
    reveal_with_fuel(think_state_after, 3);
    if lines.len() > 0 {
        let o = line_step(thinking, usage, lines[0].0, lines[0].1);
        lemma_line_step_alternates(thinking, usage, lines[0].0, lines[0].1);
        assert forall|i: int| 0 <= i < lines.drop_first().len() implies content_unmarked(
            #[trigger] lines.drop_first()[i].1,
        ) by {
            assert(lines.drop_first()[i] == lines[i + 1]);
        }
        law_thinking_alternates_over_stream(o.2, o.3, lines.drop_first());
        lemma_think_state_concat(o.0, stream_steps(o.2, o.3, lines.drop_first()).0, thinking);
    }
}

proof fn lemma_run_lines_concat(t: bool, u: Option<Usage>, a: Seq<Seq<char>>, b: Seq<Seq<char>>)
    ensures
        ({
            let ra = run_lines(t, u, a);
            let rb = run_lines(ra.2, ra.3, b);
            let r = run_lines(t, u, a + b);
            &&& !ra.1 ==> r == (ra.0 + rb.0, rb.1, rb.2, rb.3, ra.4 + rb.4)
            &&& ra.1 ==> r == ra
        }),
    decreases a.len(),
{
    if a.len() == 0 {
        assert(a + b =~= b);
        assert(Seq::<StreamEventView>::empty() + run_lines(t, u, b).0 =~= run_lines(t, u, b).0);
    } else {
        assert((a + b)[0] == a[0]);
        assert((a + b).drop_first() =~= a.drop_first() + b);
        let o = line_step(t, u, a[0], payload_chunk(a[0]));
        lemma_run_lines_concat(o.2, o.3, a.drop_first(), b);
        if !o.1 {
            let ra1 = run_lines(o.2, o.3, a.drop_first());
            let rb = run_lines(ra1.2, ra1.3, b);
            assert(o.0 + (ra1.0 + rb.0) =~= (o.0 + ra1.0) + rb.0);
        }
    }
}

/// Decoding does not depend on how the body is cut: feeding a text in two
/// pieces gives the same events, completion, thinking state and last usage
/// as feeding it at once, and the same pending text unless the response
/// completed. When the first piece already completes the response, feeding
/// it at once completes it with the same events.
pub proof fn law_feeding_ignores_chunking(
    thinking: bool,
    usage: Option<Usage>,
    pending: Seq<char>,
    s: Seq<char>,
    b: Seq<char>,
)
    ensures
        ({
            let f1 = fed(thinking, usage, pending, s);
            let f2 = fed(f1.2, f1.3, f1.4, b);
            let g = fed(thinking, usage, pending, s + b);
            &&& !f1.1 ==> {
                &&& f1.0 + f2.0 == g.0
                &&& f2.1 == g.1
                &&& f2.2 == g.2
                &&& f2.3 == g.3
                &&& !g.1 ==> f2.4 == g.4
            }
            &&& f1.1 ==> {
                &&& g.0 == f1.0
                &&& g.1
                &&& g.2 == f1.2
                &&& g.3 == f1.3
            }
        }),
{
    let x = pending + s;
    law_framing_ignores_chunking(x, b);
    assert(x + b =~= pending + (s + b));
    let d1 = drain(x);
    let d2 = drain(d1.1 + b);
    lemma_run_lines_concat(thinking, usage, d1.0, d2.0);
}

} // verus!
