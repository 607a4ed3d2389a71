//! From the lines of a file to a transcript.
use wake::adapters::claude_jsonl::{
    parse_claude_jsonl, read_line, ClaudeReader, Draft, DraftSource, Line, Part,
};
use wake::adapters::claude_transcript::{
    finish_parse, mk_msg, thinking_text, ParseResult, ResolvedContent, ResolvedOutput, COMPACTED,
};
use wake::json::Json;
use wake::models::{MessageKind, Role, TranscriptImage};

fn draft_of(lines: &[&str], include_sidechain: bool) -> Draft {
    parse_claude_jsonl(lines.iter().map(|l| Some(l.to_string())).collect(), include_sidechain)
}

fn text_of(parts: &[Part]) -> String {
    let mut out = Vec::new();
    for p in parts {
        if let Part::Text(t) = p {
            out.push(t.clone());
        }
    }
    out.join("\n")
}

/// Resolves a draft in the simplest way: texts as they are, no images, the stamps as numbers.
fn resolve(d: &Draft) -> (Vec<i64>, Vec<ResolvedContent>) {
    let stamps = d
        .stamps
        .iter()
        .map(|s| match s {
            Json::Number { int: Some(n), .. } => *n,
            _ => 0,
        })
        .collect();
    let contents = d
        .messages
        .iter()
        .map(|m| {
            let text = text_of(&m.parts);
            ResolvedContent {
                clipped: text.clone(),
                truncated: false,
                images: Vec::new(),
                thinking: thinking_text(m),
                injected: text.starts_with("<injected>"),
                title: text.lines().next().unwrap_or("").to_string(),
                text,
                outputs: m
                    .outputs
                    .iter()
                    .map(|o| ResolvedOutput {
                        text: match &o.content {
                            Json::Str(s) => s.clone(),
                            Json::Null => "none".to_string(),
                            _ => "other".to_string(),
                        },
                        images: vec![TranscriptImage { handle: 7 }],
                    })
                    .collect(),
            }
        })
        .collect();
    (stamps, contents)
}

fn finish(lines: &[&str]) -> ParseResult {
    let d = draft_of(lines, false);
    let (stamps, contents) = resolve(&d);
    finish_parse(d, &stamps, &contents)
}

#[test]
fn a_conversation_is_read_and_numbered() {
    let p = finish(&[
        r#"{"type":"user","cwd":"/w","gitBranch":"main","timestamp":50,"message":{"content":"Fix the bug\nplease"}}"#,
        r#"{"type":"assistant","timestamp":60,"message":{"id":"m1","model":"big","usage":{"input_tokens":3,"output_tokens":4,"cache_creation_input_tokens":5,"cache_read_input_tokens":900},"content":[{"type":"thinking","thinking":"hm"},{"type":"text","text":"Looking"}]}}"#,
        r#"{"type":"assistant","timestamp":70,"message":{"id":"m1","content":[{"type":"thinking","thinking":"so"},{"type":"tool_use","id":"t1","name":"Bash","input":{"cmd":"ls"}}]}}"#,
        r#"{"type":"user","gitBranch":"fix","timestamp":80,"message":{"content":[{"type":"tool_result","tool_use_id":"t1","content":"a.txt","is_error":true}]}}"#,
        r#"{"type":"assistant","timestamp":75,"message":{"id":"m2","model":"<synthetic>","content":"Done"}}"#,
    ]);
    assert_eq!(p.messages.len(), 3);
    for (i, m) in p.messages.iter().enumerate() {
        assert_eq!(m.seq, i);
    }
    let (user, first, second) = (&p.messages[0], &p.messages[1], &p.messages[2]);
    assert_eq!((user.role, user.kind), (Role::User, MessageKind::Text));
    assert_eq!(user.text, "Fix the bug\nplease");
    assert_eq!(user.timestamp, Some(50));
    assert_eq!((first.role, first.kind), (Role::Assistant, MessageKind::Text));
    assert_eq!(first.text, "Looking");
    assert_eq!(first.thinking.as_deref(), Some("hm\n\nso"));
    assert_eq!(first.timestamp, Some(60));
    assert_eq!(first.model.as_deref(), Some("big"));
    assert_eq!(first.tool_calls.len(), 1);
    let call = &first.tool_calls[0];
    assert_eq!((call.id.as_str(), call.name.as_str()), ("t1", "Bash"));
    assert_eq!(call.output.as_deref(), Some("a.txt"));
    assert!(call.is_error);
    assert_eq!(first.images, vec![TranscriptImage { handle: 7 }]);
    assert_eq!(second.text, "Done");
    assert_eq!(second.model, None);
    assert_eq!(second.thinking, None);
    assert_eq!(p.title, "Fix the bug");
    assert_eq!(p.cwd, "/w");
    assert_eq!(p.git_branch.as_deref(), Some("fix"));
    assert_eq!(p.model.as_deref(), Some("big"));
    assert_eq!(p.tokens_used, 12);
    assert_eq!((p.created_at, p.updated_at), (50, 80));
    assert_eq!(p.unknown_lines, 0);
}

#[test]
fn unknown_lines_are_counted_and_known_ones_are_not() {
    let mut lines: Vec<Option<String>> = vec![
        None,
        Some("   ".to_string()),
        Some("not json".to_string()),
        Some("{}".to_string()),
        Some(r#"{"type":""}"#.to_string()),
        Some(r#"{"type":"novelty"}"#.to_string()),
        Some("[1,2]".to_string()),
    ];
    for typ in [
        "queue-operation", "mode", "last-prompt", "permission-mode", "file-history-snapshot",
        "file-history-delta", "pr-link", "frame-link", "attachment", "summary", "atis-latch",
        "bridge-session", "custom-title",
    ] {
        lines.push(Some(format!("{{\"type\":\"{typ}\"}}")));
    }
    let d = parse_claude_jsonl(lines, false);
    assert_eq!(d.unknown_lines, 6);
    assert!(d.messages.is_empty());
}

#[test]
fn a_given_title_is_trimmed_and_wins() {
    let p = finish(&[
        r#"{"type":"custom-title","customTitle":"  Mine \n"}"#,
        r#"{"type":"custom-title","customTitle":"   "}"#,
        r#"{"type":"user","message":{"content":"other"}}"#,
    ]);
    assert_eq!(p.title, "Mine");
    assert_eq!(finish(&[]).title, "Untitled");
    let p = finish(&[
        r#"{"type":"user","isMeta":true,"message":{"content":"meta"}}"#,
        r#"{"type":"user","message":{"content":"<injected>"}}"#,
        r#"{"type":"user","isCompactSummary":true,"isMeta":true,"message":{"content":"sum"}}"#,
        r#"{"type":"user","message":{"content":"real"}}"#,
        r#"{"type":"user","message":{"content":"later"}}"#,
    ]);
    assert_eq!(p.title, "real");
    let kinds: Vec<MessageKind> = p.messages.iter().map(|m| m.kind).collect();
    assert_eq!(
        kinds,
        vec![
            MessageKind::Meta,
            MessageKind::Meta,
            MessageKind::CompactSummary,
            MessageKind::Text,
            MessageKind::Text,
        ]
    );
}

#[test]
fn system_rows_leave_boundaries_and_notes() {
    let p = finish(&[
        r#"{"type":"system","subtype":"compact_boundary","timestamp":5,"content":"ignored"}"#,
        r#"{"type":"system","subtype":"other","content":"a note"}"#,
        r#"{"type":"system","content":""}"#,
        r#"{"type":"system"}"#,
    ]);
    assert_eq!(p.messages.len(), 2);
    assert_eq!((p.messages[0].role, p.messages[0].kind), (Role::System, MessageKind::CompactSummary));
    assert_eq!(p.messages[0].text, "── Context compacted ──");
    assert_eq!(p.messages[0].timestamp, Some(5));
    assert_eq!((p.messages[1].role, p.messages[1].kind), (Role::System, MessageKind::Meta));
    assert_eq!(p.messages[1].text, "a note");
    assert_eq!(p.messages[1].timestamp, None);
}

#[test]
fn rows_of_a_side_chain_count_only_when_asked_for() {
    let lines = [
        r#"{"type":"user","isSidechain":true,"cwd":"/side","timestamp":9,"message":{"content":"inside"}}"#,
        r#"{"type":"user","cwd":"/main","timestamp":10,"message":{"content":"outside"}}"#,
    ];
    let main = draft_of(&lines, false);
    assert_eq!(main.messages.len(), 1);
    assert_eq!(text_of(&main.messages[0].parts), "outside");
    assert_eq!(main.cwd, "/side");
    assert_eq!(main.stamps.len(), 2);
    assert_eq!(draft_of(&lines, true).messages.len(), 2);
}

#[test]
fn rows_of_one_id_make_one_message_and_others_do_not() {
    let d = draft_of(
        &[
            r#"{"type":"assistant","message":{"content":"a"}}"#,
            r#"{"type":"assistant","message":{"id":"x","content":"b"}}"#,
            r#"{"type":"assistant","message":{"id":"x","content":"c"}}"#,
            r#"{"type":"assistant","message":{"content":"d"}}"#,
            r#"{"type":"assistant","message":{"id":"y","content":"e"}}"#,
            r#"{"type":"user","message":{"content":[]}}"#,
            r#"{"type":"assistant","message":{"id":"y","content":"f"}}"#,
        ],
        false,
    );
    let texts: Vec<String> = d.messages.iter().map(|m| text_of(&m.parts)).collect();
    assert_eq!(texts, vec!["a\nb\nc\nd", "e", "f"]);
}

#[test]
fn blank_texts_and_empty_messages_are_left_out() {
    let d = draft_of(
        &[
            r#"{"type":"assistant","message":{"id":"1","content":[{"type":"text","text":"  "},{"type":"thinking","thinking":"\n"}]}}"#,
            r#"{"type":"assistant","message":{"id":"2","content":"  "}}"#,
            r#"{"type":"assistant"}"#,
            r#"{"type":"user"}"#,
        ],
        false,
    );
    assert!(d.messages.is_empty());
    let p = finish(&[
        r#"{"type":"user","message":{"content":""}}"#,
        r#"{"type":"user","message":{"content":[{"type":"image"}]}}"#,
        r#"{"type":"assistant","message":{"id":"1","content":[{"type":"image"}]}}"#,
        r#"{"type":"user","message":{"content":"kept"}}"#,
    ]);
    assert_eq!(p.messages.len(), 1);
    assert_eq!((p.messages[0].seq, p.messages[0].text.as_str()), (0, "kept"));
}

#[test]
fn a_message_of_images_alone_is_kept() {
    let d = draft_of(&[r#"{"type":"user","message":{"content":[{"type":"image","data":"x"}]}}"#], false);
    let (stamps, mut contents) = resolve(&d);
    contents[0].images.push(TranscriptImage { handle: 3 });
    let p = finish_parse(d, &stamps, &contents);
    assert_eq!(p.messages.len(), 1);
    assert_eq!(p.messages[0].images, vec![TranscriptImage { handle: 3 }]);
}

#[test]
fn tool_results_find_their_call_or_nothing() {
    let p = finish(&[
        r#"{"type":"assistant","message":{"id":"1","content":[{"type":"tool_use","id":"a"},{"type":"tool_use","name":"B"}]}}"#,
        r#"{"type":"user","message":{"content":[{"type":"tool_result","tool_use_id":"gone","content":"x"},{"type":"tool_result","tool_use_id":"a"},{"type":"tool_result","content":"no id"}]}}"#,
        r#"{"type":"user","message":{"content":[{"type":"tool_result","tool_use_id":"a","content":"again"}]}}"#,
    ]);
    assert_eq!(p.messages.len(), 1);
    let calls = &p.messages[0].tool_calls;
    assert_eq!(calls[0].name, "tool");
    assert_eq!(calls[0].output.as_deref(), Some("again"));
    assert!(!calls[0].is_error);
    assert!(matches!(calls[0].input, Json::Null));
    assert_eq!(calls[1].output, None);
    assert_eq!(p.messages[0].images.len(), 2);
}

#[test]
fn lines_are_told_apart() {
    assert!(matches!(read_line(None), Line::Broken));
    assert!(matches!(read_line(Some(" \t".to_string())), Line::Blank));
    assert!(matches!(read_line(Some("{".to_string())), Line::Broken));
    match read_line(Some(r#"{"n":-5,"f":1.5,"b":true,"z":null,"a":[1]}"#.to_string())) {
        Line::Row(row) => {
            assert_eq!(row.int_or_zero("n"), -5);
            assert_eq!(row.int_or_zero("f"), 0);
            assert!(row.is_true("b"));
            assert!(matches!(row.field("z"), Some(Json::Null)));
            assert!(matches!(row.field("a"), Some(Json::Array(v)) if v.len() == 1));
            assert!(row.field("missing").is_none());
            match row.field("f") {
                Some(Json::Number { int, text }) => {
                    assert_eq!(*int, None);
                    assert_eq!(text, "1.5");
                }
                _ => panic!("a number"),
            }
        }
        _ => panic!("a row"),
    }
}

#[test]
fn a_reader_can_be_fed_line_by_line() {
    let mut reader = ClaudeReader::new();
    for raw in [r#"{"type":"user","message":{"content":"hi"}}"#, "", "?"] {
        reader.on_line(read_line(Some(raw.to_string())), false);
    }
    let d = reader.into_draft();
    assert_eq!(d.messages.len(), 1);
    assert_eq!(d.messages[0].source, DraftSource::User { meta: false, compact: false });
    assert_eq!(d.unknown_lines, 1);
}

#[test]
fn plain_messages_have_a_text_and_nothing_else() {
    let m = mk_msg(Role::System, MessageKind::CompactSummary, COMPACTED, 0);
    assert_eq!(m.text, "── Context compacted ──");
    assert_eq!((m.seq, m.timestamp, m.truncated), (0, None, false));
    assert_eq!(mk_msg(Role::User, MessageKind::Text, "x", 4).timestamp, Some(4));
}
