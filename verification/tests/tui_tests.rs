use arcana::tui::approval::{ApprovalChoice, ApprovalPanel};
use arcana::tui::composer::{char_len, Composer, ContentTone};
use arcana::tui::diff_panel::{DiffAction, DiffKind, DiffPanel};
use arcana::tui::panels::{task_panel_height, PanelState, TaskInfo, TaskStatus};
use arcana::tui::render_md::{compact_newlines, markdown_lines, parse_inline_code, MdLine, Segment};
use arcana::tui::rows::{approval_panel_area, task_panel_rows, Color, Piece, Tone};
use arcana::json::Json;
use arcana::tui::stream::{base_url_for, chunk_from_json, parse_chunk, sse_payload, SseChunk, SseDecoder, StreamEvent, Usage};
use arcana::tui::viewport::{Message, MessageRole, ThinkingBlock, ToolCall, ViewLine, Viewport};

fn segs(v: &[Segment]) -> Vec<(String, bool)> {
    v.iter().map(|s| (s.text.clone(), s.code)).collect()
}

fn texts(row: &[Piece]) -> Vec<String> {
    row.iter().map(|p| p.text.clone()).collect()
}

// ---------------------------------------------------------------- composer

#[test]
fn composer_tracks_utf8_byte_cursor() {
    let mut c = Composer::new();
    c.insert_char('a');
    c.insert_char('é');
    c.insert_char('b');
    assert_eq!(c.input, "aéb");
    assert_eq!(c.cursor_pos, 4);
    assert!(!c.show_hint);
    c.move_left();
    assert_eq!(c.cursor_pos, 3);
    c.backspace();
    assert_eq!(c.input, "ab");
    assert_eq!(c.cursor_pos, 1);
    c.delete();
    assert_eq!(c.input, "a");
    assert_eq!(c.cursor_pos, 1);
    c.delete();
    assert_eq!(c.input, "a");
}

#[test]
fn composer_inserts_in_the_middle() {
    let mut c = Composer::new();
    c.insert_char('x');
    c.insert_char('z');
    c.move_left();
    c.insert_char('€');
    assert_eq!(c.input, "x€z");
    assert_eq!(c.cursor_pos, 4);
    c.move_right();
    assert_eq!(c.cursor_pos, 5);
    c.move_right();
    assert_eq!(c.cursor_pos, 5);
}

#[test]
fn composer_backspace_undoes_insert() {
    let mut c = Composer::new();
    for ch in "héllo".chars() {
        c.insert_char(ch);
    }
    c.move_left();
    c.move_left();
    let before = (c.input.clone(), c.cursor_pos);
    c.insert_char('🦀');
    assert_eq!(c.cursor_pos, before.1 + 4);
    c.backspace();
    assert_eq!((c.input.clone(), c.cursor_pos), before);
}

#[test]
fn composer_left_then_right_restores_cursor() {
    let mut c = Composer::new();
    for ch in "aé€".chars() {
        c.insert_char(ch);
    }
    let pos = c.cursor_pos;
    c.move_left();
    c.move_right();
    assert_eq!(c.cursor_pos, pos);
}

#[test]
fn composer_backspace_at_start_does_nothing() {
    let mut c = Composer::new();
    c.insert_char('q');
    c.move_left();
    c.move_left();
    assert_eq!(c.cursor_pos, 0);
    c.backspace();
    assert_eq!(c.input, "q");
    assert_eq!(c.cursor_pos, 0);
}

#[test]
fn composer_take_input_keeps_history_of_non_blank() {
    let mut c = Composer::new();
    c.insert_char(' ');
    c.insert_newline();
    assert_eq!(c.take_input(), " \n");
    assert!(c.history.is_empty());
    c.insert_char('h');
    assert_eq!(c.take_input(), "h");
    assert_eq!(c.history, vec!["h".to_string()]);
    assert_eq!(c.input, "");
    assert_eq!(c.cursor_pos, 0);
    assert_eq!(c.history_index, None);
}

#[test]
fn composer_recall_walks_history_backwards() {
    let mut c = Composer::new();
    c.recall_previous();
    assert_eq!(c.input, "");
    for word in ["one", "twö"] {
        for ch in word.chars() {
            c.insert_char(ch);
        }
        c.take_input();
    }
    c.recall_previous();
    assert_eq!(c.input, "twö");
    assert_eq!(c.cursor_pos, 4);
    assert_eq!(c.history_index, Some(1));
    c.recall_previous();
    assert_eq!(c.input, "one");
    assert_eq!(c.history_index, Some(0));
    c.recall_previous();
    assert_eq!(c.input, "one");
    assert_eq!(c.history_index, Some(0));
    c.clear();
    assert_eq!(c.input, "");
    assert_eq!(c.history_index, None);
}

#[test]
fn composer_height_counts_lines() {
    let mut c = Composer::new();
    assert!(c.is_empty());
    assert_eq!(c.line_count(), 1);
    assert_eq!(c.height(), 3);
    for ch in "a\nb\n".chars() {
        c.insert_char(ch);
    }
    assert_eq!(c.line_count(), 2);
    assert_eq!(c.height(), 4);
    for _ in 0..12 {
        c.insert_char('x');
        c.insert_newline();
    }
    assert_eq!(c.height(), 12);
    assert!(!c.is_empty());
}

#[test]
fn composer_render_line_shows_hint_and_slash_mode() {
    let c = Composer::new();
    let l = c.render_line();
    assert!(!l.slash_mode);
    assert_eq!(l.prompt, "❯ ");
    assert_eq!(l.content, "[type / for commands, or enter message]");
    assert_eq!(l.tone, ContentTone::Hint);
    assert_eq!(l.hint, None);
    assert_eq!(l.cursor_offset, 0);

    let mut c = Composer::new();
    c.insert_char('/');
    c.insert_char('q');
    let l = c.render_line();
    assert!(l.slash_mode);
    assert_eq!(l.prompt, "/ ");
    assert_eq!(l.content, "q");
    assert_eq!(l.tone, ContentTone::Slash);
    assert_eq!(l.hint, Some(" ← exit session".to_string()));
    assert_eq!(l.cursor_offset, 1);

    let mut c = Composer::new();
    for ch in "/status".chars() {
        c.insert_char(ch);
    }
    assert_eq!(c.render_line().hint, None);

    let mut c = Composer::new();
    c.insert_char('/');
    assert_eq!(
        c.render_line().hint,
        Some(" quit · help · model · mode · clear · status".to_string())
    );

    let mut c = Composer::new();
    c.insert_char('h');
    let l = c.render_line();
    assert_eq!(l.tone, ContentTone::Normal);
    assert_eq!(l.content, "h");
}

#[test]
fn char_len_matches_utf8() {
    for ch in ['a', 'é', '€', '🦀'] {
        assert_eq!(char_len(ch), ch.len_utf8());
    }
}

// ---------------------------------------------------------------- markdown

#[test]
fn compact_newlines_drops_blank_runs() {
    assert_eq!(compact_newlines("a\n\n\nb"), "a\nb");
    assert_eq!(compact_newlines("a\n  \n\t\nb\n"), "a\nb");
    assert_eq!(compact_newlines("a\n\n# Title"), "a\n\n# Title");
    assert_eq!(compact_newlines("a\n\n  ---"), "a\n\n  ---");
    assert_eq!(compact_newlines("\n# Title"), "# Title");
    assert_eq!(compact_newlines("  \n\n---\nx"), "---\nx");
    assert_eq!(compact_newlines(""), "");
}

#[test]
fn compacted_text_has_no_blank_runs() {
    let out = compact_newlines("a\n\n\n\n\n# b\n\n\n\nc\n\n\n---\n\n\n\n\n");
    assert!(!out.contains("\n\n\n"));
    assert_eq!(compact_newlines(&out), out);
    for t in ["\n# a", "x\n\n\n# y\n  \nz", "", "\n\n"] {
        assert!(compact_newlines(t).len() <= t.len());
    }
    assert_eq!(out, "a\n\n# b\nc\n\n---");
}

#[test]
fn parse_inline_code_cuts_code_out() {
    assert_eq!(
        segs(&parse_inline_code("use `foo` now")),
        vec![("use ".to_string(), false), ("foo".to_string(), true), (" now".to_string(), false)]
    );
    assert_eq!(
        segs(&parse_inline_code("a `b")),
        vec![("a ".to_string(), false), ("`b".to_string(), false)]
    );
    assert_eq!(segs(&parse_inline_code("")), vec![("".to_string(), false)]);
    assert_eq!(segs(&parse_inline_code("``")), vec![("".to_string(), true)]);
    assert_eq!(segs(&parse_inline_code("`x``y`")), vec![("x".to_string(), true), ("y".to_string(), true)]);
    assert_eq!(segs(&parse_inline_code("plain")), vec![("plain".to_string(), false)]);
}

#[test]
fn markdown_lines_separate_code_blocks() {
    let md = markdown_lines("text `x`\n```rust\nfn f() {}\nlet y = 1;\n```\nafter\n```\nraw");
    assert_eq!(md.len(), 5);
    match &md[0] {
        MdLine::Text(s) => assert_eq!(segs(s), vec![("text ".to_string(), false), ("x".to_string(), true)]),
        _ => panic!("expected text"),
    }
    match &md[1] {
        MdLine::Code { lang, text, first } => {
            assert_eq!(lang, "rust");
            assert_eq!(text, "fn f() {}");
            assert!(*first);
        }
        _ => panic!("expected code"),
    }
    match &md[2] {
        MdLine::Code { text, first, .. } => {
            assert_eq!(text, "let y = 1;");
            assert!(!*first);
        }
        _ => panic!("expected code"),
    }
    match &md[3] {
        MdLine::Text(s) => assert_eq!(segs(s), vec![("after".to_string(), false)]),
        _ => panic!("expected text"),
    }
    match &md[4] {
        MdLine::Code { lang, text, first } => {
            assert_eq!(lang, "");
            assert_eq!(text, "raw");
            assert!(*first);
        }
        _ => panic!("expected code"),
    }
}

// ---------------------------------------------------------------- viewport

fn view_kinds(lines: &[ViewLine]) -> Vec<String> {
    lines
        .iter()
        .map(|l| match l {
            ViewLine::Blank => "blank".to_string(),
            ViewLine::User(s) => format!("user:{s}"),
            ViewLine::ThinkHeader { expanded, tokens, duration_ms } => {
                format!("think:{expanded}:{tokens}:{duration_ms}")
            }
            ViewLine::Markdown { thinking, line } => match line {
                MdLine::Text(s) => format!(
                    "md:{thinking}:{}",
                    s.iter().map(|g| g.text.clone()).collect::<Vec<_>>().join("")
                ),
                MdLine::Code { text, .. } => format!("code:{thinking}:{text}"),
            },
            ViewLine::Tool { icon, description, duration_ms } => {
                format!("tool:{icon}:{description}:{duration_ms}")
            }
            ViewLine::System { text, dim } => format!("sys:{dim}:{text}"),
            ViewLine::LiveThinkHeader(n) => format!("live:{n}"),
            ViewLine::LiveThinking(s) => format!("livethink:{s}"),
        })
        .collect()
}

#[test]
fn viewport_shows_user_and_agent_messages() {
    let mut v = Viewport::new();
    v.add_user_message("hi".to_string());
    v.is_streaming = true;
    v.start_thinking_at(1_000_000);
    v.append_think_token("let me");
    v.append_think_token(" think\n");
    v.append_token("answer\n\n");
    let live = v.render(40);
    assert_eq!(
        view_kinds(&live),
        vec![
            "user:hi", "blank", "live:2", "livethink:let me think", "blank", "blank", "blank",
            "blank", "blank", "md:false:answer", "blank", "blank", "blank", "blank", "blank"
        ]
    );
    v.finalize_response_with_stats_at(Some("Cost: $0.01".to_string()), 3_500_000);
    assert!(!v.is_streaming);
    assert_eq!(v.messages.len(), 3);
    let agent = &v.messages[1];
    assert_eq!(agent.role, MessageRole::Agent);
    assert_eq!(agent.content, "answer");
    let t = agent.thinking.as_ref().unwrap();
    assert_eq!(t.content, "let me think");
    assert_eq!(t.token_count, 2);
    assert_eq!(t.duration_ms, 2500);
    assert!(t.collapsed);
    assert_eq!(v.streaming_text, "");
    assert!(v.streaming_think.is_none());
    let shown = v.render(40);
    assert_eq!(
        view_kinds(&shown),
        vec![
            "user:hi", "blank", "think:false:2:2500", "blank", "md:false:answer", "blank", "blank",
            "sys:true:Cost: $0.01", "blank"
        ]
    );
}

#[test]
fn viewport_toggles_thinking_blocks() {
    let mut v = Viewport::new();
    v.add_user_message("q".to_string());
    v.messages.push(Message {
        role: MessageRole::Agent,
        content: "a".to_string(),
        timestamp: 0,
        thinking: Some(ThinkingBlock {
            content: "why".to_string(),
            token_count: 1,
            duration_ms: 10,
            collapsed: true,
            index: 0,
        }),
        tool_calls: vec![ToolCall { icon: "⚙".to_string(), description: "ran".to_string(), duration_ms: 5 }],
    });
    v.scroll_offset = 3;
    v.toggle_thinking();
    assert!(!v.messages[1].thinking.as_ref().unwrap().collapsed);
    assert_eq!(v.scroll_offset, 0);
    assert_eq!(
        view_kinds(&v.render(20)),
        vec!["user:q", "blank", "think:true:1:10", "md:true:why", "blank", "tool:⚙:ran:5", "md:false:a", "blank"]
    );
    v.toggle_thinking();
    assert!(v.messages[1].thinking.as_ref().unwrap().collapsed);
    v.toggle_thinking_at(0);
    assert!(!v.messages[1].thinking.as_ref().unwrap().collapsed);
    v.toggle_thinking_at(5);
    assert!(!v.messages[1].thinking.as_ref().unwrap().collapsed);
    assert_eq!(v.dialogue_indices(), vec![0]);
}

#[test]
fn viewport_finalize_without_content_only_stops_streaming() {
    let mut v = Viewport::new();
    v.is_streaming = true;
    v.finalize_response();
    assert!(v.messages.is_empty());
    assert!(!v.is_streaming);
}

#[test]
fn viewport_render_clamps_scroll() {
    let mut v = Viewport::new();
    for i in 0..20 {
        v.add_user_message(format!("m{i}"));
    }
    v.scroll_up(100);
    assert!(!v.auto_scroll);
    let shown = v.render(10);
    assert_eq!(v.scroll_offset, 30);
    assert_eq!(view_kinds(&shown)[0], "user:m0");
    assert_eq!(shown.len(), 10);
    v.scroll_down(24);
    let shown = v.render(10);
    assert_eq!(v.scroll_offset, 6);
    assert_eq!(view_kinds(&shown)[0], "user:m12");
    v.scroll_to_bottom();
    let shown = v.render(10);
    assert_eq!(view_kinds(&shown)[0], "user:m15");
    v.scroll_to_top(7);
    assert_eq!(v.scroll_offset, 7);
    assert!(!v.auto_scroll);
}

#[test]
fn viewport_scroll_down_undoes_scroll_up() {
    let mut v = Viewport::new();
    v.scroll_offset = 4;
    v.scroll_up(6);
    assert_eq!(v.scroll_offset, 10);
    v.scroll_down(6);
    assert_eq!(v.scroll_offset, 4);
    assert!(!v.auto_scroll);
    v.scroll_down(9);
    assert_eq!(v.scroll_offset, 0);
    assert!(v.auto_scroll);
    v.scroll_offset = usize::MAX - 1;
    v.scroll_up(5);
    assert_eq!(v.scroll_offset, usize::MAX);
}

#[test]
fn viewport_system_messages_and_separator() {
    let mut v = Viewport::new();
    v.add_error_message("bad\nworse".to_string());
    v.add_separator();
    assert_eq!(v.messages[1].content, "─".repeat(80));
    let shown = v.render(50);
    assert_eq!(
        view_kinds(&shown),
        vec!["sys:false:bad".to_string(), "sys:false:worse".to_string(), "blank".to_string(), format!("sys:true:{}", "─".repeat(80))]
    );
    v.scroll_to_dialogue(0);
    assert!(!v.auto_scroll);
    assert!(v.dialogue_indices().is_empty());
}

#[test]
fn viewport_live_thinking_shows_last_lines() {
    let mut v = Viewport::new();
    v.is_streaming = true;
    v.start_thinking();
    v.append_think_token("1\n2\n3\n4\n5");
    let shown = v.render(9);
    assert_eq!(
        view_kinds(&shown),
        vec!["live:1", "livethink:3", "livethink:4", "livethink:5", "blank", "blank", "blank", "blank", "blank"]
    );
    v.end_thinking();
    assert!(v.streaming_think.is_some());
}

// ---------------------------------------------------------------- stream

fn event_names(events: &[StreamEvent]) -> Vec<String> {
    events
        .iter()
        .map(|e| match e {
            StreamEvent::ThinkStart => "start".to_string(),
            StreamEvent::Token(t) => format!("tok:{t}"),
            StreamEvent::ThinkEnd => "end".to_string(),
            StreamEvent::ResponseComplete(u) => format!("done:{u:?}"),
        })
        .collect()
}

#[test]
fn decoder_frames_lines() {
    let mut d = SseDecoder::new();
    d.push_text("data: ab");
    assert_eq!(d.next_line(), None);
    d.push_text("c\r\r\nnext\nrest");
    assert_eq!(d.next_line(), Some("data: abc".to_string()));
    assert_eq!(d.next_line(), Some("next".to_string()));
    assert_eq!(d.next_line(), None);
    d.push_text("\n");
    assert_eq!(d.next_line(), Some("rest".to_string()));
}

#[test]
fn decoder_turns_payloads_into_events() {
    let mut d = SseDecoder::new();
    let (ev, done) = d.on_line("", None);
    assert!(ev.is_empty() && !done);
    let think = SseChunk { usage: None, reasoning: Some("hm".to_string()), content: None };
    let (ev, done) = d.on_line("data: {…}", Some(&think));
    assert!(!done);
    assert_eq!(event_names(&ev), vec!["start", "tok:\0THINK:hm"]);
    let more = SseChunk { usage: None, reasoning: Some("m".to_string()), content: Some("ok".to_string()) };
    let (ev, _) = d.on_line("data: {…}", Some(&more));
    assert_eq!(event_names(&ev), vec!["tok:\0THINK:m", "end", "tok:ok"]);
    let usage = SseChunk {
        usage: Some(Usage { prompt_tokens: 7, completion_tokens: 9 }),
        reasoning: Some(String::new()),
        content: None,
    };
    let (ev, _) = d.on_line("data: {…}", Some(&usage));
    assert!(ev.is_empty());
    let (ev, _) = d.on_line("event: ping", None);
    assert!(ev.is_empty());
    let (ev, _) = d.on_line("data: not json", None);
    assert!(ev.is_empty());
    let (ev, done) = d.on_line("data: [DONE]", None);
    assert!(done);
    assert_eq!(
        event_names(&ev),
        vec!["done:Some(Usage { prompt_tokens: 7, completion_tokens: 9 })"]
    );
}

#[test]
fn decoder_finish_closes_open_thinking() {
    let mut d = SseDecoder::new();
    let think = SseChunk { usage: None, reasoning: Some("x".to_string()), content: None };
    d.on_line("data: {}", Some(&think));
    assert_eq!(event_names(&d.finish()), vec!["end", "done:None"]);
    assert_eq!(event_names(&d.finish()), vec!["done:None"]);
}

#[test]
fn thinking_block_opens_once() {
    let mut d = SseDecoder::new();
    let think = SseChunk { usage: None, reasoning: Some("a".to_string()), content: None };
    let (ev1, _) = d.on_line("data: 1", Some(&think));
    let (ev2, _) = d.on_line("data: 2", Some(&think));
    assert_eq!(event_names(&ev1)[0], "start");
    assert_eq!(event_names(&ev2), vec!["tok:\0THINK:a"]);
    let answer = SseChunk { usage: None, reasoning: None, content: Some("b".to_string()) };
    let (ev3, _) = d.on_line("data: 3", Some(&answer));
    assert_eq!(event_names(&ev3), vec!["end", "tok:b"]);
    let (ev4, _) = d.on_line("data: 4", Some(&answer));
    assert_eq!(event_names(&ev4), vec!["tok:b"]);
}

#[test]
fn base_url_defaults_to_deepseek() {
    assert_eq!(base_url_for("deepseek", ""), "https://api.deepseek.com");
    assert_eq!(base_url_for("deepseek", "http://localhost:8080"), "http://localhost:8080");
    assert_eq!(base_url_for("openai", "http://x"), "https://api.deepseek.com");
}

#[test]
fn sse_payload_strips_prefix() {
    assert_eq!(sse_payload("data: {\"a\":1}"), Some("{\"a\":1}".to_string()));
    assert_eq!(sse_payload("data:x"), None);
    assert_eq!(sse_payload("event: x"), None);
}

// ---------------------------------------------------------------- panels

#[test]
fn approval_panel_selection_and_choice() {
    let mut p = ApprovalPanel::new();
    assert!(!p.visible);
    assert!(p.render_rows().is_empty());
    p.request("delete build dir".to_string(), None);
    assert!(p.visible);
    p.select_prev();
    assert_eq!(p.selected, 0);
    for _ in 0..10 {
        p.select_next();
    }
    assert_eq!(p.selected, 3);
    p.select_prev();
    p.confirm();
    assert_eq!(p.choice, Some(ApprovalChoice::HumanInterrupt));
    assert!(!p.visible);
    p.request("x".to_string(), None);
    assert_eq!(p.choice, None);
    p.reject();
    assert_eq!(p.choice, Some(ApprovalChoice::Reject));
}

#[test]
fn approval_rows_show_request_and_options() {
    let mut p = ApprovalPanel::new();
    p.request("ignored".to_string(), Some("src/main.rs".to_string()));
    p.select_next();
    let rows = p.render_rows();
    assert_eq!(rows.len(), 8);
    assert_eq!(texts(&rows[0]), vec!["write requires approval: src/main.rs"]);
    assert_eq!(rows[0][0].tone, Tone { color: Color::White, bold: true });
    assert!(rows[1].is_empty());
    assert_eq!(texts(&rows[2]), vec!["  ", "Yes, single permission"]);
    assert_eq!(rows[2][1].tone, Tone { color: Color::LightGray, bold: false });
    assert_eq!(texts(&rows[3]), vec!["❯ ", "Trust, always allow in this session"]);
    assert_eq!(rows[3][1].tone, Tone { color: Color::Yellow, bold: true });
    assert_eq!(rows[5][0].tone, Tone { color: Color::Red, bold: false });
    assert!(rows[6].is_empty());
    assert_eq!(texts(&rows[7]), vec!["↑↓ select │ Enter confirm │ Esc reject"]);
}

#[test]
fn approval_area_is_centred() {
    assert_eq!(approval_panel_area(0, 0, 100, 40), (20, 29, 60, 9));
    assert_eq!(approval_panel_area(5, 2, 30, 8), (7, 2, 26, 9));
    assert_eq!(approval_panel_area(0, 0, 3, 20), (1, 9, 0, 9));
}

#[test]
fn diff_panel_review_flow() {
    let mut p = DiffPanel::new();
    assert!(p.render_view(10).is_none());
    p.show_diff("a.rs".to_string(), "--- a\n+++ b\n@@ -1 +1 @@\n-old\n+new\n same\n+x\n+y");
    assert!(p.visible);
    let kinds: Vec<DiffKind> = p.lines.iter().map(|l| l.kind).collect();
    assert_eq!(
        kinds,
        vec![
            DiffKind::Header,
            DiffKind::Header,
            DiffKind::Header,
            DiffKind::Removed,
            DiffKind::Added,
            DiffKind::Context,
            DiffKind::Added,
            DiffKind::Added
        ]
    );
    p.scroll_down(100);
    assert_eq!(p.scroll, 3);
    p.scroll_up(1);
    assert_eq!(p.scroll, 2);
    let v = p.render_view(6).unwrap();
    assert_eq!(v.title, " Diff Review: a.rs ");
    assert_eq!(texts(&v.body), vec!["@@ -1 +1 @@", "-old", "+new"]);
    assert_eq!(v.body[0].tone, Tone { color: Color::Cyan, bold: true });
    assert_eq!(v.body[1].tone, Tone { color: Color::Red, bold: false });
    assert_eq!(
        texts(&v.footer),
        vec!["❯ ", "Accept", "  │  ", "  ", "Edit in $EDITOR", "  │  ", "  ", "Reject", " 3/8 (25%) "]
    );
    assert_eq!(v.hint, "↑↓/j/k scroll │ ←→ select │ Enter confirm │ Esc reject │ Tab edit");
    p.select_next();
    p.select_next();
    p.select_next();
    assert_eq!(p.selected, 2);
    p.select_prev();
    p.confirm();
    assert_eq!(p.action, Some(DiffAction::EditExternal));
    assert!(!p.visible);
    p.reject();
    assert_eq!(p.action, Some(DiffAction::Reject));
}

#[test]
fn task_panel_rows_and_height() {
    let tasks = vec![
        TaskInfo { name: "plan".to_string(), status: TaskStatus::Completed },
        TaskInfo { name: "build".to_string(), status: TaskStatus::InProgress },
        TaskInfo { name: "ship".to_string(), status: TaskStatus::Pending },
    ];
    let open = PanelState { tasks_expanded: true };
    let closed = PanelState { tasks_expanded: false };
    assert_eq!(task_panel_height(&open, &tasks), 4);
    assert_eq!(task_panel_height(&closed, &tasks), 1);
    assert_eq!(task_panel_height(&open, &Vec::new()), 0);
    let rows = task_panel_rows(&open, &tasks, 40, 4);
    assert_eq!(rows.len(), 4);
    assert_eq!(rows[0][0].text, "● Tasks (3)");
    assert_eq!(rows[0][1].text, " ".repeat(40 - ("● Tasks (3)".len() + "ctrl+t to collapse".len() + 1)));
    assert_eq!(rows[0][2].text, "ctrl+t to collapse");
    assert_eq!(texts(&rows[1]), vec!["├── ", "●", " ", "1. plan"]);
    assert_eq!(rows[1][1].tone.color, Color::Green);
    assert_eq!(rows[2][1].tone.color, Color::Orange);
    assert_eq!(texts(&rows[3]), vec!["└── ", "○", " ", "3. ship"]);
    let rows = task_panel_rows(&closed, &tasks, 10, 4);
    assert_eq!(rows.len(), 1);
    assert_eq!(rows[0][1].text, "");
    assert_eq!(rows[0][2].text, "ctrl+t to expand");
    assert!(task_panel_rows(&open, &tasks, 40, 0).is_empty());
}

#[test]
fn decoder_parses_payload_lines() {
    let mut d = SseDecoder::new();
    let (ev, done) = d.decode_line("data: {\"choices\":[{\"delta\":{\"reasoning_content\":\"a\"}}]}");
    assert!(!done);
    assert_eq!(event_names(&ev), vec!["start", "tok:\0THINK:a"]);
    let (ev, _) = d.decode_line("data: {\"choices\":[{\"delta\":{\"reasoning_content\":\"b\"}}]}");
    assert_eq!(event_names(&ev), vec!["tok:\0THINK:b"]);
    let (ev, _) = d.decode_line(
        "data: {\"choices\":[{\"delta\":{\"content\":\"c\"}}],\"usage\":{\"prompt_tokens\":3,\"completion_tokens\":4}}",
    );
    assert_eq!(event_names(&ev), vec!["end", "tok:c"]);
    let (ev, _) = d.decode_line("data: {\"usage\":null,\"choices\":[]}");
    assert!(ev.is_empty());
    let (ev, _) = d.decode_line("data: not json");
    assert!(ev.is_empty());
    let (ev, done) = d.decode_line("data: [DONE]");
    assert!(done);
    assert_eq!(
        event_names(&ev),
        vec!["done:Some(Usage { prompt_tokens: 3, completion_tokens: 4 })"]
    );
}

#[test]
fn framing_does_not_depend_on_chunks() {
    let body = "data: a\r\n\ndata: bé\nda";
    let mut whole = SseDecoder::new();
    whole.push_text(body);
    let mut all = Vec::new();
    while let Some(l) = whole.next_line() {
        all.push(l);
    }
    for cut in [0, 3, 7, 8, 12, 14] {
        let mut d = SseDecoder::new();
        let mut got = Vec::new();
        d.push_text(&body[..cut]);
        while let Some(l) = d.next_line() {
            got.push(l);
        }
        d.push_text(&body[cut..]);
        while let Some(l) = d.next_line() {
            got.push(l);
        }
        assert_eq!(got, all);
    }
    assert_eq!(all, vec!["data: a".to_string(), "".to_string(), "data: bé".to_string()]);
}

#[test]
fn diff_view_of_empty_diff_allows_any_scroll() {
    let mut p = DiffPanel::new();
    p.show_diff("f".to_string(), "");
    p.scroll = usize::MAX / 2;
    let v = p.render_view(10).unwrap();
    assert!(v.body.is_empty());
    assert_eq!(v.footer.last().unwrap().text, format!(" {}/0 (0%) ", usize::MAX / 2 + 1));
}

#[test]
fn finalize_keeps_scroll_state() {
    let mut v = Viewport::new();
    v.is_streaming = true;
    v.scroll_up(3);
    v.append_token("done");
    v.finalize_response_with_stats(Some("Cost: 1".to_string()));
    assert!(!v.auto_scroll);
    assert_eq!(v.scroll_offset, 3);
    assert_eq!(v.messages[0].role, MessageRole::Agent);
    assert_eq!(v.messages[1].role, MessageRole::System);
    assert_eq!(v.streaming_text, "");
}

#[test]
fn parse_chunk_reads_delta_texts_and_usage() {
    let c = parse_chunk(r#"{"choices":[{"delta":{"reasoning_content":"hm","content":null}}],"usage":null}"#).unwrap();
    assert_eq!(c.reasoning.as_deref(), Some("hm"));
    assert_eq!(c.content, None);
    assert_eq!(c.usage, None);
    let c = parse_chunk(r#"{"choices":[],"usage":{"prompt_tokens":3,"completion_tokens":-1}}"#).unwrap();
    assert_eq!(c.usage, Some(Usage { prompt_tokens: 3, completion_tokens: 0 }));
    assert_eq!(c.reasoning, None);
    let c = parse_chunk(r#"{"choices":[{"delta":{"content":"ok"}},{"delta":{"content":"no"}}],"usage":{"prompt_tokens":1.5}}"#).unwrap();
    assert_eq!(c.content.as_deref(), Some("ok"));
    assert_eq!(c.usage, Some(Usage { prompt_tokens: 0, completion_tokens: 0 }));
    assert!(parse_chunk("not json").is_none());
    let c = parse_chunk("[1,2]").unwrap();
    assert!(c.usage.is_none() && c.reasoning.is_none() && c.content.is_none());
}

#[test]
fn chunk_from_json_reads_built_values() {
    let delta = Json::Obj(vec![
        ("content".to_string(), Json::Str("b".to_string())),
        ("reasoning_content".to_string(), Json::Num(Some(4))),
    ]);
    let v = Json::Obj(vec![
        ("choices".to_string(), Json::Arr(vec![Json::Obj(vec![("delta".to_string(), delta)])])),
        ("usage".to_string(), Json::Obj(vec![("completion_tokens".to_string(), Json::Num(Some(9)))])),
    ]);
    let c = chunk_from_json(&v);
    assert_eq!(c.content.as_deref(), Some("b"));
    assert_eq!(c.reasoning, None);
    assert_eq!(c.usage, Some(Usage { prompt_tokens: 0, completion_tokens: 9 }));
    let c = chunk_from_json(&Json::Bool(true));
    assert!(c.usage.is_none() && c.reasoning.is_none() && c.content.is_none());
}

#[test]
fn feeding_in_pieces_matches_feeding_at_once() {
    let body = "data: {\"choices\":[{\"delta\":{\"reasoning_content\":\"a\"}}]}\r\n\ndata: {\"choices\":[{\"delta\":{\"reasoning_content\":\"b\"}}]}\ndata: {\"choices\":[{\"delta\":{\"content\":\"c\"}}]}\ndata: [DONE]\ndata: {\"choices\":[{\"delta\":{\"content\":\"late\"}}]}\n";
    let mut whole = SseDecoder::new();
    let (all, done) = whole.feed(body);
    assert!(done);
    assert_eq!(
        event_names(&all),
        vec!["start", "tok:\u{0}THINK:a", "tok:\u{0}THINK:b", "end", "tok:c", "done:None"]
    );
    for cut in [1, 17, 40, 60, 90, body.len() - 1] {
        let mut d = SseDecoder::new();
        let (mut evs, first_done) = d.feed(&body[..cut]);
        if !first_done {
            let (more, second_done) = d.feed(&body[cut..]);
            assert!(second_done);
            evs.extend(more);
        }
        assert_eq!(event_names(&evs), event_names(&all), "cut at {cut}");
    }
    let mut open = SseDecoder::new();
    let (evs, done) = open.feed("data: {\"choices\":[{\"delta\":{\"reasoning_content\":\"x\"}}]}\ndata: [DO");
    assert!(!done);
    assert_eq!(event_names(&evs), vec!["start", "tok:\u{0}THINK:x"]);
    assert_eq!(event_names(&open.finish()), vec!["end", "done:None"]);
}
