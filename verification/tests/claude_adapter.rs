//! The adapter for JSONL sessions.
use wake::adapters::claude::{
    build_meta, list_sidechains, newest_session, sidechain_file, sidechain_meta_file, subagents_dir,
    transcript_id, ClaudeAdapter, ClaudeNames, FileFacts, ProjectEntry, SidechainFile,
};
use wake::adapters::claude_transcript::ParseResult;
use wake::json::Json;
use wake::models::{
    AgentId, MemorySourceKind, MessageKind, Role, SessionFileRef, SessionMeta, ToolCallView,
    TranscriptMessage,
};

fn names() -> ClaudeNames {
    ClaudeNames::of("agent")
}

fn adapter() -> ClaudeAdapter {
    ClaudeAdapter::new(Some("/home/u".to_string()), names(), false)
}

fn file_ref(id: &str, mtime_ms: i64) -> SessionFileRef {
    SessionFileRef {
        agent: AgentId::ClaudeCode,
        native_id: id.to_string(),
        file_path: format!("/home/u/.agent/projects/p/{id}.jsonl"),
        mtime_ms,
        size: 9,
    }
}

fn message(kind: MessageKind, calls: Vec<&str>) -> TranscriptMessage {
    TranscriptMessage {
        seq: 0,
        role: Role::Assistant,
        kind,
        text: "t".to_string(),
        truncated: false,
        tool_calls: calls
            .into_iter()
            .map(|id| ToolCallView {
                id: id.to_string(),
                name: "Task".to_string(),
                input: Json::Null,
                output: None,
                is_error: false,
                sidechain_ref: None,
            })
            .collect(),
        thinking: None,
        timestamp: None,
        model: None,
        images: Vec::new(),
    }
}

fn parsed(messages: Vec<TranscriptMessage>, created_at: i64, updated_at: i64, tokens_used: i64) -> ParseResult {
    ParseResult {
        messages,
        title: "T".to_string(),
        cwd: "/w/app".to_string(),
        git_branch: Some("main".to_string()),
        model: None,
        tokens_used,
        created_at,
        updated_at,
        unknown_lines: 2,
    }
}

#[test]
fn the_default_adapter_reads_below_home() {
    let a = adapter();
    assert_eq!(a.agent(), AgentId::ClaudeCode);
    assert_eq!(a.data_roots(), vec!["/home/u/.agent/projects"]);
    let sources = a.memory_sources();
    assert_eq!(sources.len(), 2);
    assert_eq!(sources[0].kind, MemorySourceKind::ProjectTree);
    assert_eq!(sources[0].path, "/home/u/.agent/projects");
    assert_eq!(sources[1].kind, MemorySourceKind::File);
    assert_eq!(sources[1].path, "/home/u/.agent/AGENT.md");
    let homeless = ClaudeAdapter::new(None, names(), false);
    assert_eq!(homeless.data_roots(), vec![".agent/projects"]);
}

#[test]
fn a_picked_directory_is_read_by_its_shape() {
    let a = adapter();
    assert_eq!(a.custom_projects_dir("/x"), "/x/projects");
    let whole = a.with_custom_root("/x".to_string(), true);
    assert_eq!(whole.data_roots(), vec!["/x/projects"]);
    assert_eq!(whole.memory_sources()[1].path, "/x/AGENT.md");
    let bare = a.with_custom_root("/x".to_string(), false);
    assert_eq!(bare.data_roots(), vec!["/x"]);
    assert_eq!(bare.memory_sources().len(), 1);
}

#[test]
fn project_paths_are_looked_up_once_and_only_at_home() {
    let mut a = adapter();
    assert!(a.needs_decoding(&None));
    assert!(!a.needs_decoding(&Some("k".to_string())));
    assert!(a.remembered("-a").is_none());
    assert_eq!(a.project_path_of_dir("-a", Some("/a".to_string())).as_deref(), Some("/a"));
    assert_eq!(a.project_path_of_dir("-a", None).as_deref(), Some("/a"));
    assert_eq!(a.project_path_of_dir("-b", None), None);
    assert_eq!(a.remembered("-b"), Some(None));
    assert_eq!(a.remembered("-a"), Some(Some("/a".to_string())));
    let unit = a.tree_unit(None, Some("/a".to_string()));
    assert_eq!((unit.session_key.as_str(), unit.project_path.as_str()), ("", "/a"));
    let unit = a.tree_unit(Some("k".to_string()), Some("/a".to_string()));
    assert_eq!((unit.session_key.as_str(), unit.project_path.as_str()), ("k", ""));
    let away = a.with_custom_root("/x".to_string(), true);
    assert!(!away.needs_decoding(&None));
    assert_eq!(away.tree_unit(None, Some("/a".to_string())).project_path, "");
}

#[test]
fn sessions_are_listed_from_the_entries_of_projects() {
    let entry = |name: &str, facts: Option<FileFacts>| ProjectEntry {
        name: name.to_string(),
        path: format!("/p/{name}"),
        facts,
    };
    let file = |len: u64| Some(FileFacts { is_file: true, len, mtime_ms: 5 });
    let refs = adapter().list_session_files(&vec![
        vec![
            entry("one.jsonl", file(3)),
            entry("empty.jsonl", file(0)),
            entry("dir.jsonl", Some(FileFacts { is_file: false, len: 3, mtime_ms: 5 })),
            entry("lost.jsonl", None),
            entry("other.txt", file(3)),
            entry(".hidden.jsonl", file(3)),
            entry(".jsonl", file(3)),
        ],
        vec![],
        vec![entry("two.jsonl.jsonl", file(4))],
    ]);
    assert_eq!(refs.len(), 2);
    assert_eq!((refs[0].native_id.as_str(), refs[0].file_path.as_str()), ("one", "/p/one.jsonl"));
    assert_eq!((refs[0].size, refs[0].mtime_ms), (3, 5));
    assert_eq!(refs[1].native_id, "two");
}

#[test]
fn the_newest_session_is_the_last_of_the_newest() {
    assert_eq!(newest_session(&vec![]), None);
    let refs = vec![file_ref("b", 5), file_ref("a", 9), file_ref("c", 9), file_ref("b", 9)];
    assert_eq!(newest_session(&refs), Some(2));
    let twins = vec![file_ref("a", 1), file_ref("a", 1)];
    assert_eq!(newest_session(&twins), Some(1));
}

#[test]
fn names_follow_from_what_the_agent_is_called() {
    let n = ClaudeNames::of("agent");
    assert_eq!((n.data_dir.as_str(), n.instructions.as_str()), (".agent", "AGENT.md"));
    assert_eq!(n.slug, "agent-code");
    let copy = n.copied();
    assert_eq!((copy.data_dir, copy.instructions, copy.slug), (n.data_dir, n.instructions, n.slug));
}

#[test]
fn memories_hang_on_a_session_that_is_listed() {
    let a = adapter();
    let entry = |name: &str, len: u64, mtime_ms: i64| ProjectEntry {
        name: name.to_string(),
        path: format!("/p/{name}"),
        facts: Some(FileFacts { is_file: true, len, mtime_ms }),
    };
    let entries = || {
        vec![
            entry("old.jsonl", 1, 1),
            entry("new.jsonl", 1, 7),
            entry("empty.jsonl", 0, 8),
            entry(".hidden.jsonl", 1, 9),
        ]
    };
    let own = a.list_session_files(&vec![entries()]);
    let key = a.newest_session_key(&own).unwrap();
    assert_eq!(key, "agent-code:new");
    let all = a.list_session_files(&vec![vec![entry("x.jsonl", 1, 99)], entries()]);
    let p = parsed(vec![], 0, 0, 0);
    let keys: Vec<String> =
        all.iter().map(|r| build_meta(r, &p, "app".to_string(), &names()).key).collect();
    assert!(keys.contains(&key));
    assert_eq!(a.newest_session_key(&vec![]), None);
}

#[test]
fn the_index_entry_takes_missing_times_from_the_file() {
    let r = file_ref("id", 77);
    let p = parsed(
        vec![message(MessageKind::Text, vec![]), message(MessageKind::Meta, vec![])],
        0,
        0,
        0,
    );
    let m = build_meta(&r, &p, "app".to_string(), &names());
    assert_eq!(m.key, "agent-code:id");
    assert_eq!((m.created_at, m.updated_at), (77, 77));
    assert_eq!(m.message_count, 1);
    assert_eq!(m.tokens_used, None);
    assert_eq!((m.project_path.as_str(), m.project_name.as_str()), ("/w/app", "app"));
    assert_eq!(m.git_branch.as_deref(), Some("main"));
    assert_eq!((m.size_bytes, m.archived, m.favorite, m.pinned), (9, false, false, false));
    let p = parsed(vec![], 3, 4, 8);
    let s = adapter().parse_session(&r, &p, "app".to_string(), vec![1, 2]);
    assert_eq!((s.meta.created_at, s.meta.updated_at, s.meta.tokens_used), (3, 4, Some(8)));
    assert_eq!((s.units, s.unknown_line_count), (vec![1, 2], 2));
}

#[test]
fn side_chains_hang_on_the_calls_that_started_them() {
    let r = file_ref("id", 1);
    assert_eq!(subagents_dir(&r, false), "/home/u/.agent/projects/p/id/subagents");
    assert_eq!(sidechain_file(&r, "s", false), "/home/u/.agent/projects/p/id/subagents/s.jsonl");
    assert_eq!(sidechain_meta_file(&r, "s", false), "/home/u/.agent/projects/p/id/subagents/s.meta.json");
    let file = |name: &str, meta: Option<&str>| SidechainFile {
        name: name.to_string(),
        meta: meta.map(String::from),
    };
    let chains = list_sidechains(&vec![
        file("one.jsonl", Some(r#"{"agentType":"explore","description":"d","toolUseId":"t1"}"#)),
        file("one.meta.json", None),
        file("two.jsonl", Some("broken")),
        file("three.jsonl", Some(r#"{"toolUseId":"t1"}"#)),
        file("four.jsonl", None),
    ]);
    let ids: Vec<&str> = chains.iter().map(|c| c.id.as_str()).collect();
    assert_eq!(ids, vec!["one", "two", "three", "four"]);
    assert_eq!(chains[0].agent_type.as_deref(), Some("explore"));
    assert_eq!(chains[0].description.as_deref(), Some("d"));
    assert_eq!(chains[1].tool_use_id, None);
    let t = adapter().parse_transcript(
        &r,
        parsed(vec![message(MessageKind::Text, vec!["t1", "t2"])], 1, 2, 0),
        chains,
        "app".to_string(),
    );
    let calls = &t.mainline[0].tool_calls;
    assert_eq!(calls[0].sidechain_ref.as_deref(), Some("three"));
    assert_eq!(calls[1].sidechain_ref, None);
    assert_eq!((t.sidechains.len(), t.unknown_line_count), (4, 2));
    assert_eq!(adapter().load_sidechain(None).len(), 0);
    let p = parsed(vec![message(MessageKind::Text, vec![])], 1, 2, 0);
    assert_eq!(adapter().load_sidechain(Some(p)).len(), 1);
}

#[test]
fn files_of_side_chains_and_memories_are_no_sessions() {
    let a = adapter();
    assert!(a.file_ref("/p/id/subagents/x.jsonl", Some(file_ref("x", 1))).is_none());
    assert!(a.file_ref("/p/memory/x.jsonl", Some(file_ref("x", 1))).is_none());
    assert!(a.file_ref("/p/x.jsonl", Some(file_ref("x", 1))).is_some());
    assert!(a.file_ref("/p/x.jsonl", None).is_none());
    assert_eq!(transcript_id("a.jsonl").as_deref(), Some("a"));
    assert_eq!(transcript_id("a.json"), None);
}

#[test]
fn a_session_is_deleted_with_what_lies_beside_it() {
    let a = adapter();
    let p = parsed(vec![], 0, 0, 0);
    let meta: SessionMeta = build_meta(&file_ref("id", 1), &p, "app".to_string(), &names());
    assert_eq!(a.sidecar_dir(&meta).as_deref(), Some("/home/u/.agent/projects/p/id"));
    assert_eq!(a.session_paths(&meta, false), vec!["/home/u/.agent/projects/p/id.jsonl"]);
    let both = vec!["/home/u/.agent/projects/p/id.jsonl", "/home/u/.agent/projects/p/id"];
    assert_eq!(a.session_paths(&meta, true), both);
    assert_eq!(a.cleanup_paths(&meta, true).unwrap(), both);
}

#[test]
fn paths_on_windows_are_written_its_way() {
    let a = ClaudeAdapter::new(Some(r"C:\Users\u".to_string()), names(), true);
    assert_eq!(a.data_roots(), vec![r"C:\Users\u\.agent\projects"]);
    assert_eq!(a.memory_sources()[1].path, r"C:\Users\u\.agent\AGENT.md");
    let r = SessionFileRef {
        file_path: r"C:\Users\u\.agent\projects\p\id.jsonl".to_string(),
        ..file_ref("id", 1)
    };
    assert_eq!(subagents_dir(&r, true), r"C:\Users\u\.agent\projects\p\id\subagents");
    let meta = build_meta(&r, &parsed(vec![], 0, 0, 0), "app".to_string(), &names());
    assert_eq!(a.sidecar_dir(&meta).as_deref(), Some(r"C:\Users\u\.agent\projects\p\id"));
}
