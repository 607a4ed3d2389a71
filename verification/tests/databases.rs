//! Databases of other programs, and the sessions in one of them.
use wake::adapters::mtime_cache::MtimeCache;
use wake::adapters::sqlite_ro::{
    db_cache_stamp, open_sqlite_ro, strip_virtual_path, table_columns, table_info_sql,
    temp_dir_name, virtual_path, wal_path, Names, OpenAsk,
};
use wake::adapters::zcode::{
    hidden_plan, memory_dir_hash, normalize_custom_root, query_rows, query_rows_sql, read_hidden,
    tree_unit, HiddenPlan, RawRow, V1Order, ZcError, ZcRow, ZcSchema, ZcodeAdapter,
};
use wake::adapters::zcode_parse::{
    build_meta, parse_messages, parse_session, parse_transcript, MessageRow,
};
use wake::adapters::claude_jsonl::{read_line, Line};
use wake::json::Json;
use wake::models::MessageKind::{CompactSummary, Meta, Text};
use wake::models::{
    AgentId, MemorySourceKind, MessageKind, Role, SessionFileRef, TranscriptMessage,
};

fn set(names: &[&str]) -> Names {
    table_columns(names.iter().map(|n| Some(n.to_string())).collect())
}

#[test]
fn virtual_paths_lead_back_to_their_database() {
    let path = virtual_path("/d/a#b/db.sqlite", "s1");
    assert_eq!(path, "/d/a#b/db.sqlite#s1");
    assert_eq!(strip_virtual_path(&path, false), "/d/a#b/db.sqlite");
    assert_eq!(strip_virtual_path(&path, true), path);
    assert_eq!(strip_virtual_path("/plain", false), "/plain");
}

#[test]
fn the_stamp_is_the_newer_of_two() {
    assert_eq!(wal_path("/x/db"), "/x/db-wal");
    assert_eq!(db_cache_stamp(Some(5), Some(9)), 9);
    assert_eq!(db_cache_stamp(Some(5), None), 5);
    assert_eq!(db_cache_stamp(None, None), 0);
    assert_eq!(db_cache_stamp(Some(-5), None), 0);
}

#[test]
fn columns_that_cannot_be_read_are_passed_over() {
    assert_eq!(table_info_sql("session"), "PRAGMA table_info(session)");
    let cols = table_columns(vec![Some("a".to_string()), None, Some("b".to_string())]);
    assert!(cols.contains("a") && cols.contains("b") && !cols.contains("c"));
    assert!(!table_columns(vec![]).contains("a"));
}

#[test]
fn temporary_directories_are_named_after_process_and_path() {
    assert_eq!(
        temp_dir_name("zcode", 4711, 0xabc),
        format!("wake-zcode-{}-{:016x}", 4711u32, 0xabcu64)
    );
}

/// Runs an opening with these answers; gives the asks as short texts.
fn run(answers: &[bool]) -> Vec<String> {
    let mut opening = open_sqlite_ro("/d/x.db".to_string(), "/t/w".to_string(), false);
    let mut asks = Vec::new();
    let mut answers = answers.iter();
    loop {
        match opening.ask() {
            OpenAsk::IsFile(p) => asks.push(format!("file {p}")),
            OpenAsk::Open { path, probe } => asks.push(format!("open {path} {probe}")),
            OpenAsk::MakeDir(p) => asks.push(format!("mkdir {p}")),
            OpenAsk::Copy { from, to } => asks.push(format!("copy {from} {to}")),
            OpenAsk::Opened { remove } => {
                asks.push(format!("opened {remove:?}"));
                return asks;
            }
            OpenAsk::GiveUp { remove } => {
                asks.push(format!("give up {remove:?}"));
                return asks;
            }
        }
        opening.told(*answers.next().unwrap());
    }
}

#[test]
fn a_database_that_answers_is_opened_in_place() {
    assert_eq!(run(&[false]), vec!["file /d/x.db", "give up None"]);
    assert_eq!(run(&[true, true]), vec!["file /d/x.db", "open /d/x.db true", "opened None"]);
}

#[test]
fn a_database_that_does_not_answer_is_copied() {
    assert_eq!(
        run(&[true, false, true, true, true, false, false, true]),
        vec![
            "file /d/x.db",
            "open /d/x.db true",
            "mkdir /t/w",
            "copy /d/x.db /t/w/db.sqlite",
            "file /d/x.db-wal",
            "copy /d/x.db-wal /t/w/db.sqlite-wal",
            "file /d/x.db-shm",
            "open /t/w/db.sqlite false",
            "opened Some(\"/t/w\")",
        ]
    );
    assert_eq!(run(&[true, false, false]).last().unwrap(), "give up None");
    assert_eq!(run(&[true, false, true, false]).last().unwrap(), "give up Some(\"/t/w\")");
    let all = run(&[true, false, true, true, false, true, true, false]);
    assert_eq!(all[6], "copy /d/x.db-shm /t/w/db.sqlite-shm");
    assert_eq!(all.last().unwrap(), "give up Some(\"/t/w\")");
}

#[test]
fn a_failed_reading_gives_the_last_good_value() {
    let mut cache: MtimeCache<u32> = MtimeCache::new();
    assert!(cache.is_stale(1));
    assert_eq!(cache.get_or_stale(1, None), None);
    assert_eq!(cache.get_or_stale(1, Some(7)), Some(&7));
    assert!(!cache.is_stale(1));
    assert_eq!(cache.get_or_stale(1, Some(8)), Some(&7));
    assert_eq!(cache.get_or_stale(2, None), Some(&7));
    assert!(cache.is_stale(2));
    assert_eq!(cache.get_or_stale(2, Some(9)), Some(&9));
    assert_eq!(cache.value(), Some(&9));
}

#[test]
fn the_environment_counts_only_if_it_holds_the_database() {
    let home = Some("/home/u".to_string());
    let env = Some("/beta".to_string());
    assert_eq!(ZcodeAdapter::storage_db("/beta", false), "/beta/cli/db/db.sqlite");
    let a = ZcodeAdapter::new(env.clone(), true, home.clone(), false);
    assert_eq!(a.data_roots(), vec!["/beta/cli/db/db.sqlite"]);
    assert_eq!(a.tasks_db().as_deref(), Some("/beta/v2/tasks-index.sqlite"));
    let a = ZcodeAdapter::new(env, false, home, false);
    assert_eq!(a.data_roots(), vec!["/home/u/.zcode/cli/db/db.sqlite"]);
    assert_eq!(a.agent(), AgentId::Zcode);
    let sources = a.memory_sources();
    assert_eq!(sources.len(), 1);
    assert_eq!(sources[0].kind, MemorySourceKind::ProjectTree);
    assert_eq!(sources[0].path, "/home/u/.zcode/cli/memories/projects");
    let bare = a.with_custom_root("/copy/db.sqlite".to_string());
    assert_eq!(bare.data_roots(), vec!["/copy/db.sqlite"]);
    assert_eq!(bare.tasks_db(), None);
    assert!(bare.memory_sources().is_empty());
    let whole = a.with_custom_root("/copy".to_string());
    assert_eq!(whole.data_roots(), vec!["/copy/cli/db/db.sqlite"]);
}

#[test]
fn picks_on_the_way_to_the_database_mean_home() {
    for (pick, root) in [
        ("/h/.zcode/cli/db/db.sqlite", "/h/.zcode"),
        ("/h/.zcode/cli/db/", "/h/.zcode"),
        ("/h/.zcode/cli", "/h/.zcode"),
        ("/h/.zcode", "/h/.zcode"),
        ("cli/db/db.sqlite", ""),
        ("/cli", "/"),
        ("/copy/db.sqlite", "/copy/db.sqlite"),
        ("/x/db/db.sqlite", "/x/db/db.sqlite"),
        ("/mycli", "/mycli"),
    ] {
        assert_eq!(normalize_custom_root(pick.to_string(), false), root, "{pick}");
    }
}

#[test]
fn memory_directories_are_named_after_a_digest() {
    assert_eq!(memory_dir_hash("abc", false), "ba7816bf8f01cfea");
    assert_eq!(memory_dir_hash("abc//", false), "ba7816bf8f01cfea");
    assert_eq!(memory_dir_hash("ABC", true), "ba7816bf8f01cfea");
    assert_ne!(memory_dir_hash("ABC", false), "ba7816bf8f01cfea");
    assert_eq!(memory_dir_hash("C:\\Work\\", true), "194c27bb658adbc8");
    assert_eq!(memory_dir_hash("/", false), "8a5edab282632443");
    assert_eq!(memory_dir_hash("", false), "e3b0c44298fc1c14");
}

#[test]
fn queries_leave_out_columns_that_are_not_there() {
    let old = ZcSchema::probe(&set(&[]), &set(&[]), &set(&[]));
    let new = ZcSchema::probe(
        &set(&["title_source", "task_type"]),
        &set(&["sequence"]),
        &set(&["sequence"]),
    );
    assert!(new.title_source && new.task_type && new.part_sequence && new.message_sequence);
    assert_eq!(
        query_rows_sql(old, true),
        "SELECT s.id, s.directory, s.title, 'first_input', s.time_created, s.time_updated,
                s.time_archived, 0
         FROM session s WHERE s.parent_id IS NULL AND (?1 IS NULL OR s.id = ?1)"
    );
    assert_eq!(
        query_rows_sql(new, false),
        "SELECT s.id, s.directory, s.title, s.title_source, s.time_created, s.time_updated,
                s.time_archived, (SELECT COALESCE(SUM(LENGTH(p.data)), 0) FROM part p WHERE p.session_id = s.id)
         FROM session s WHERE s.task_type IN ('interactive', 'fork', 'selection_side_chat') AND (?1 IS NULL OR s.id = ?1)"
    );
    let fallback = || V1Order { part: "p".to_string(), message: "m".to_string() };
    let order = old.order(fallback());
    assert_eq!((order.part.as_str(), order.message.as_str()), ("p", "m"));
    let order = new.order(fallback());
    assert_eq!(order.part, "message_id, sequence, id");
    assert_eq!(order.message, "sequence, time_created, id");
}

fn raw(id: &str) -> RawRow {
    RawRow {
        id: id.to_string(),
        directory: None,
        title: None,
        title_source: None,
        time_created: None,
        time_updated: None,
        time_archived: None,
        content_len: None,
    }
}

fn row(id: &str, directory: &str, content_len: i64) -> ZcRow {
    let mut rows = query_rows(vec![RawRow {
        directory: Some(directory.to_string()),
        title: Some("Title".to_string()),
        time_updated: Some(40),
        content_len: Some(content_len),
        ..raw(id)
    }]);
    rows.remove(0)
}

#[test]
fn missing_columns_have_defaults() {
    let rows = query_rows(vec![
        raw("a"),
        RawRow {
            title_source: Some("default".to_string()),
            time_archived: Some(0),
            time_created: Some(3),
            ..raw("b")
        },
    ]);
    assert_eq!(rows.len(), 2);
    let (a, b) = (&rows[0], &rows[1]);
    assert_eq!((a.id.as_str(), a.directory.as_str(), a.title.as_str()), ("a", "", ""));
    assert!(!a.placeholder_title && !a.archived);
    assert_eq!((a.created_ms, a.updated_ms, a.content_len), (0, 0, 0));
    assert!(b.placeholder_title && b.archived);
    assert_eq!(b.created_ms, 3);
}

#[test]
fn what_is_hidden_is_known_or_not() {
    let none = |plan: HiddenPlan| read_hidden(plan, None).map(|s| s.contains("x"));
    assert_eq!(none(hidden_plan(false, None)), Some(false));
    assert_eq!(none(hidden_plan(true, None)), None);
    assert_eq!(none(hidden_plan(true, Some(&set(&["deleted"])))), Some(false));
    assert_eq!(none(hidden_plan(true, Some(&set(&["task_id"])))), Some(false));
    let sql = |cols: &[&str]| match hidden_plan(true, Some(&set(cols))) {
        HiddenPlan::Query(sql) => sql,
        _ => panic!("a query"),
    };
    assert_eq!(sql(&["task_id", "deleted"]), "SELECT task_id FROM tasks WHERE deleted = 1");
    assert_eq!(
        sql(&["task_id", "migration_source"]),
        "SELECT task_id FROM tasks WHERE (migration_source IS NOT NULL AND migration_source != '')"
    );
    assert_eq!(
        sql(&["task_id", "deleted", "migration_source"]),
        "SELECT task_id FROM tasks WHERE deleted = 1 OR (migration_source IS NOT NULL AND migration_source != '')"
    );
    let query = || hidden_plan(true, Some(&set(&["task_id", "deleted"])));
    assert!(read_hidden(query(), None).is_none());
    let ids = read_hidden(query(), Some(vec!["x".to_string()])).unwrap();
    assert!(ids.contains("x") && !ids.contains("y"));
}

#[test]
fn sessions_are_listed_but_for_hidden_and_empty_ones() {
    let mut a = ZcodeAdapter::from_home("/z".to_string(), false);
    assert!(matches!(a.list_session_files(false), Ok(v) if v.is_empty()));
    match a.list_session_files(true) {
        Err(e) => assert_eq!(e.message(), "/z/cli/db/db.sqlite exists but could not be read"),
        Ok(_) => panic!("an error"),
    }
    assert!(a.rows_are_stale(1));
    a.rows(1, Some(vec![row("s1", "/w", 5), row("s2", "/w", 0), row("s3", "/w", 6)]));
    assert!(!a.rows_are_stale(1));
    assert!(a.hidden_is_stale(1));
    a.hidden(1, Some(set(&["s3"])));
    assert!(!a.hidden_is_stale(1));
    let list = |a: &ZcodeAdapter| -> Vec<String> {
        match a.list_session_files(true) {
            Ok(v) => v.into_iter().map(|r| r.native_id).collect(),
            Err(_) => panic!("a list"),
        }
    };
    assert_eq!(list(&a), vec!["s1"]);
    a.rows(2, None);
    a.hidden(2, None);
    assert_eq!(list(&a), vec!["s1"]);
    assert!(a.rows_are_stale(2) && a.hidden_is_stale(2));
    a.hidden(3, Some(set(&[])));
    assert_eq!(list(&a), vec!["s1", "s3"]);
    match a.list_session_files(true) {
        Ok(v) => {
            assert_eq!(v[0].file_path, "/z/cli/db/db.sqlite#s1");
            assert_eq!((v[0].mtime_ms, v[0].size), (40, 5));
            assert_eq!(v[0].agent, AgentId::Zcode);
        }
        Err(_) => panic!("a list"),
    }
    let mut bare = ZcodeAdapter::from_db("/c/db.sqlite".to_string(), false);
    assert!(!bare.hidden_is_stale(1));
    bare.hidden(1, Some(set(&["s1"])));
    bare.rows(1, Some(vec![row("s1", "/w", 5)]));
    assert_eq!(list(&bare), vec!["s1"]);
}

fn reference(path: &str, id: &str) -> SessionFileRef {
    SessionFileRef {
        agent: AgentId::Zcode,
        native_id: id.to_string(),
        file_path: path.to_string(),
        mtime_ms: 90,
        size: 11,
    }
}

#[test]
fn reading_a_session_fails_in_order() {
    let a = ZcodeAdapter::from_db("/c/db.sqlite".to_string(), false);
    let text = |r: Result<ZcRow, ZcError>| match r {
        Ok(row) => row.id,
        Err(e) => e.message(),
    };
    let inside = reference("/c//db.sqlite#s1", "s1");
    assert_eq!(
        text(a.parse(&reference("/other.sqlite#s1", "s1"), false, None)),
        "zcode database is outside adapter roots"
    );
    assert_eq!(
        text(a.parse(&inside, true, Some(vec![row("s1", "/w", 1)]))),
        "zcode database is outside adapter roots"
    );
    assert_eq!(text(a.parse(&inside, false, None)), "cannot open zcode db");
    assert_eq!(text(a.parse(&inside, false, Some(vec![]))), "zcode session s1 not in db");
    assert_eq!(text(a.parse(&inside, false, Some(vec![row("s1", "/w", 1)]))), "s1");
}

#[test]
fn memory_directories_find_their_workspace() {
    let mut a = ZcodeAdapter::from_home("/z".to_string(), false);
    assert_eq!(a.workspaces().get("ba7816bf8f01cfea"), None);
    a.rows(1, Some(vec![row("s1", "abc", 1), row("s2", "/home/u/app", 1), row("s3", "abc/", 1)]));
    let ws = a.workspaces();
    assert_eq!(ws.get("ba7816bf8f01cfea").as_deref(), Some("abc/"));
    let project = |name: Option<&str>| tree_unit(&ws, name).project_path;
    assert_eq!(project(Some("my-app-2bf7c3a66bb61232")), "/home/u/app");
    assert_eq!(project(Some("x-ba7816bf8f01cfea")), "abc/");
    assert_eq!(project(Some("nothing")), "");
    assert_eq!(project(Some("x-0000000000000000")), "");
    assert_eq!(project(None), "");
    assert_eq!(tree_unit(&ws, Some("x-ba7816bf8f01cfea")).session_key, "");
}

fn json(text: &str) -> Json {
    match read_line(Some(text.to_string())) {
        Line::Row(j) => j,
        _ => panic!("json"),
    }
}

fn message(role: Role) -> TranscriptMessage {
    TranscriptMessage {
        seq: 0,
        role,
        kind: MessageKind::Text,
        text: "t".to_string(),
        truncated: false,
        tool_calls: Vec::new(),
        thinking: None,
        timestamp: None,
        model: None,
        images: Vec::new(),
    }
}

fn message_row(data: &str, role: Role, model: Option<&str>, has_message: bool) -> MessageRow {
    MessageRow {
        data: json(data),
        role,
        model_id: model.map(String::from),
        message: if has_message { Some(message(role)) } else { None },
    }
}

#[test]
fn records_tell_what_their_messages_are() {
    let p = parse_messages(
        vec![
            message_row(r#"{"tokens":{"total":5}}"#, Role::User, Some("no"), true),
            message_row(r#"{"tokens":{"total":7}}"#, Role::Assistant, Some("m1"), true),
            message_row(r#"{"tokens":{"total":8}}"#, Role::Assistant, Some("m2"), false),
            message_row(r#"{"semantics":{"origin":"system"}}"#, Role::User, None, true),
            message_row(r#"{"semantics":{"origin":"real_user"}}"#, Role::User, None, true),
            message_row(r#"{"semantics":{"origin":"system"}}"#, Role::Assistant, None, true),
            message_row(
                r#"{"semantics":{"transcriptVisibility":"hidden"}}"#,
                Role::Assistant,
                Some("m3"),
                true,
            ),
            message_row(
                r#"{"semantics":{"transcriptVisibility":"hidden","kind":"compact_summary"}}"#,
                Role::User,
                None,
                true,
            ),
        ],
        4,
    );
    assert_eq!((p.tokens, p.unknown, p.messages.len()), (15, 4, 7));
    let kinds: Vec<MessageKind> = p.messages.iter().map(|m| m.kind).collect();
    assert_eq!(kinds, vec![Text, Text, Meta, Text, Text, Meta, CompactSummary]);
    assert_eq!(p.messages[0].model, None);
    assert_eq!(p.messages[1].model.as_deref(), Some("m1"));
    let r = reference("/c/db.sqlite#s1", "s1");
    let m = build_meta(&r, &row("s1", "/w/app", 1), &p, "Clean".to_string(), None, "app".to_string());
    assert_eq!(m.key, "zcode:s1");
    assert_eq!((m.title.as_str(), m.project_name.as_str()), ("Clean", "app"));
    assert_eq!((m.created_at, m.updated_at), (90, 40));
    assert_eq!((m.message_count, m.tokens_used, m.size_bytes), (4, Some(15), 11));
    assert_eq!(m.model.as_deref(), Some("m3"));
    let s = parse_session(m, &p, "units");
    assert_eq!((s.units, s.unknown_line_count), ("units", 4));
    let t = parse_transcript(s.meta, p);
    assert_eq!((t.mainline.len(), t.sidechains.len(), t.unknown_line_count), (7, 0, 4));
}

#[test]
fn a_placeholder_title_gives_way() {
    let p = parse_messages(vec![], 0);
    let r = reference("/c/db.sqlite#s1", "s1");
    let title = |placeholder: bool, cleaned: &str, offered: Option<&str>| {
        let mut w = row("s1", "/w", 1);
        w.placeholder_title = placeholder;
        build_meta(&r, &w, &p, cleaned.to_string(), offered.map(String::from), String::new()).title
    };
    assert_eq!(title(false, "A", Some("B")), "A");
    assert_eq!(title(true, "A", Some("B")), "B");
    assert_eq!(title(false, "", Some("B")), "B");
    assert_eq!(title(false, "", None), "Untitled");
}

#[test]
fn picks_on_windows_are_lifted_by_either_separator() {
    for (pick, root) in [
        (r"C:\h\cli\db\db.sqlite", r"C:\h"),
        (r"C:\h/cli/db", r"C:\h"),
        (r"C:\h\cli\db", r"C:\h"),
        (r"C:\cli", r"C:\"),
        ("C:cli", "C:"),
        (r"\\srv\share\cli\db", r"\\srv\share\"),
        (r"\\?\C:\h\cli\db", r"\\?\C:\h"),
        (r"\\?\C:\h/cli", r"\\?\C:\h/cli"),
        (r"C:\copies\db.sqlite", r"C:\copies\db.sqlite"),
    ] {
        assert_eq!(normalize_custom_root(pick.to_string(), true), root, "{pick}");
    }
    assert_eq!(normalize_custom_root(r"C:\h\cli\db".to_string(), false), r"C:\h\cli\db");
    let a = ZcodeAdapter::new(None, false, Some(r"C:\Users\u".to_string()), true);
    assert_eq!(a.data_roots(), vec![r"C:\Users\u\.zcode\cli/db/db.sqlite"]);
    let bare = a.with_custom_root(r"C:\c\db.sqlite".to_string());
    assert_eq!(bare.data_roots(), vec![r"C:\c\db.sqlite"]);
    assert!(bare.memory_sources().is_empty());
    let whole = a.with_custom_root(r"C:\z".to_string());
    assert_eq!(whole.memory_sources()[0].path, r"C:\z\cli/memories/projects");
}
