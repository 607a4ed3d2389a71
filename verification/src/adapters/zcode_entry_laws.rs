//! What becomes of the rows of a database: how a session, its messages and its counts appear in the
//! lists, in the index and in a transcript.
use crate::adapters::mtime_cache;
use crate::adapters::sqlite_ro;
use crate::adapters::zcode;
use crate::adapters::zcode::{AdapterData, RawRow, ReadingData, RowData, ZcError, ZcSchema};
use crate::adapters::zcode_parse;
use crate::adapters::zcode_parse::MessageRowData;
use crate::json::JsonData;
use crate::models;
use crate::models::{AgentId, FileRefData, MemorySourceKind, MessageData, MessageKind, Role};
use crate::paths;
use crate::text;
use vstd::prelude::*;

verus! {

/// The times of a session in the index are those that its row tells; only for a row without one is
/// it the time of the reference.
pub proof fn law_times_come_from_the_row(
    r: FileRefData,
    row: RowData,
    messages: Seq<MessageData>,
    tokens: i64,
    title: Seq<char>,
    project_name: Seq<char>,
)
    ensures
        ({
            let meta = zcode_parse::meta_by(r, row, messages, tokens, title, project_name);
            &&& row.created_ms > 0 ==> meta.created_at == row.created_ms
            &&& row.created_ms <= 0 ==> meta.created_at == r.mtime_ms
            &&& row.updated_ms > 0 ==> meta.updated_at == row.updated_ms
            &&& row.updated_ms <= 0 ==> meta.updated_at == r.mtime_ms
        }),
{
}

/// The index entry of a session is about that session: it has the id, the directory and the archive
/// mark of its row, the path and the size of its reference, and counts the messages that are
/// conversation. Tokens are told only where there are any.
pub proof fn law_the_entry_is_about_its_session(
    r: FileRefData,
    row: RowData,
    messages: Seq<MessageData>,
    tokens: i64,
    title: Seq<char>,
    project_name: Seq<char>,
)
    requires
        messages.len() <= i64::MAX,
    ensures
        ({
            let meta = zcode_parse::meta_by(r, row, messages, tokens, title, project_name);
            &&& meta.id == row.id
            &&& meta.key == "zcode:"@ + row.id
            &&& meta.agent == AgentId::Zcode
            &&& meta.host.len() == 0
            &&& meta.title == title
            &&& meta.project_path == row.directory
            &&& meta.project_name == project_name
            &&& meta.file_path == r.file_path
            &&& meta.size_bytes == r.size
            &&& meta.archived == row.archived
            &&& meta.git_branch is None
            &&& tokens > 0 ==> meta.tokens_used == Some(tokens)
            &&& tokens <= 0 ==> meta.tokens_used is None
            &&& meta.message_count == messages.filter(
                |m: MessageData| m.kind == MessageKind::Text,
            ).len()
            &&& !meta.favorite && !meta.pinned && meta.source is None
        }),
{
    models::law_only_conversation_is_counted(messages);
    messages.lemma_filter_len(|m: MessageData| m.kind == MessageKind::Text);
}

/// The title of a session in the index: the one that somebody chose for it, cleaned, if anything is
/// left of it; else the one that its messages offer; else the one for sessions without.
pub proof fn law_a_chosen_title_wins(
    r: FileRefData,
    row: RowData,
    messages: Seq<MessageData>,
    tokens: i64,
    cleaned: Seq<char>,
    offered: Option<Seq<char>>,
    project_name: Seq<char>,
)
    ensures
        ({
            let title = zcode_parse::title_by(row, cleaned, offered);
            let meta = zcode_parse::meta_by(r, row, messages, tokens, title, project_name);
            let chosen = !row.placeholder_title && cleaned.len() > 0;
            &&& chosen ==> meta.title == cleaned
            &&& !chosen && offered is Some ==> meta.title == offered->0
            &&& !chosen && offered is None ==> meta.title == "Untitled"@
        }),
{
}

proof fn lemma_last_model(messages: Seq<MessageData>, k: int)
    requires
        -1 <= k < messages.len(),
        k >= 0 ==> messages[k].model is Some,
        forall|j: int| k < j < messages.len() ==> (#[trigger] messages[j]).model is None,
    ensures
        zcode_parse::last_model(messages) == (if k >= 0 {
            messages[k].model
        } else {
            None
        }),
    decreases messages.len(),
{
    if messages.len() > 0 && k < messages.len() - 1 {
        let less = messages.drop_last();
        assert(messages[messages.len() - 1].model is None);
        assert forall|j: int| k < j < less.len() implies (#[trigger] less[j]).model is None by {
            assert(messages[j].model is None);
        }
        lemma_last_model(less, k);
    }
}

/// The model of a session in the index is that of the last message that names one, and there is
/// none where no message does.
pub proof fn law_the_last_model_is_told(
    r: FileRefData,
    row: RowData,
    messages: Seq<MessageData>,
    tokens: i64,
    title: Seq<char>,
    project_name: Seq<char>,
    k: int,
)
    requires
        -1 <= k < messages.len(),
        k >= 0 ==> messages[k].model is Some,
        forall|j: int| k < j < messages.len() ==> (#[trigger] messages[j]).model is None,
    ensures
        ({
            let meta = zcode_parse::meta_by(r, row, messages, tokens, title, project_name);
            &&& k >= 0 ==> meta.model == messages[k].model
            &&& k < 0 ==> meta.model is None
        }),
{
    lemma_last_model(messages, k);
}

/// The messages of a session are those of its rows, in order. Each says what its parts came to; only
/// the model of an assistant's is the one that its record names, and what it is may be another
/// thing by its record. A row that came to no message adds none.
pub proof fn law_messages_follow_their_rows(rows: Seq<MessageRowData>, row: MessageRowData)
    ensures
        ({
            let before = zcode_parse::messages_by(rows);
            let after = zcode_parse::messages_by(rows.push(row));
            &&& zcode_parse::messages_by(seq![]).len() == 0
            &&& row.message is None ==> after == before
            &&& row.message matches Some(m) ==> {
                let n = after.last();
                &&& after.len() == before.len() + 1
                &&& after.take(before.len() as int) == before
                &&& n.seq == m.seq && n.role == m.role && n.text == m.text
                &&& n.truncated == m.truncated && n.tool_calls == m.tool_calls
                &&& n.thinking == m.thinking && n.timestamp == m.timestamp && n.images == m.images
                &&& row.role == Role::Assistant ==> n.model == row.model_id
                &&& row.role != Role::Assistant ==> n.model == m.model
                &&& n.kind == zcode_parse::kind_by(row.data, row.role, m.kind)
            }
        }),
{
    assert(rows.push(row).drop_last() =~= rows);
    let before = zcode_parse::messages_by(rows);
    if row.message is Some {
        assert(zcode_parse::messages_by(rows.push(row)).take(before.len() as int) =~= before);
    }
}

/// What a record says under `key` of what its message means.
pub open spec fn said(data: JsonData, key: Seq<char>) -> Option<Seq<char>> {
    match data.field("semantics"@) {
        Some(s) => match s.field(key) {
            Some(JsonData::Str(t)) => Some(t),
            _ => None,
        },
        None => None,
    }
}

/// What a message is by its record: a summary that is marked as one is one; what is hidden, and what
/// stands as the user's but is said to come from elsewhere, is meta; everything else is what it was
/// taken for.
pub proof fn law_records_say_what_a_message_is(data: JsonData, role: Role, kind: MessageKind)
    ensures
        ({
            let k = zcode_parse::kind_by(data, role, kind);
            let summary = said(data, "kind"@) == Some("compact_summary"@);
            let hidden = said(data, "transcriptVisibility"@) == Some("hidden"@);
            let elsewhere = role == Role::User && said(data, "origin"@) is Some && said(
                data,
                "origin"@,
            ) != Some("real_user"@);
            &&& summary ==> k == MessageKind::CompactSummary
            &&& !summary && (hidden || elsewhere) ==> k == MessageKind::Meta
            &&& !summary && !hidden && !elsewhere ==> k == kind
        }),
{
}

/// The tokens that a record tells.
pub open spec fn told_tokens(data: JsonData) -> int {
    match data.field("tokens"@) {
        Some(t) => match t.field("total"@) {
            Some(JsonData::Number { int: Some(n), .. }) => n as int,
            _ => 0,
        },
        None => 0,
    }
}

/// The tokens of a session are those of its assistant rows together, whether or not they came to a
/// message.
pub proof fn law_tokens_add_up(rows: Seq<MessageRowData>, row: MessageRowData)
    requires
        i64::MIN <= zcode_parse::tokens_by(rows) + told_tokens(row.data) <= i64::MAX,
    ensures
        zcode_parse::tokens_by(seq![]) == 0,
        row.role == Role::Assistant ==> zcode_parse::tokens_by(rows.push(row))
            == zcode_parse::tokens_by(rows) + told_tokens(row.data),
        row.role != Role::Assistant ==> zcode_parse::tokens_by(rows.push(row))
            == zcode_parse::tokens_by(rows),
{
    assert(rows.push(row).drop_last() =~= rows);
}

/// What the columns of a row say: what is there is taken over, a missing text is empty and a missing
/// number zero. A title is a placeholder only where its source is the default, and a session is
/// archived exactly if the time of that is there, whatever it is.
pub proof fn law_rows_are_taken_over(raw: Seq<RawRow>, i: int)
    requires
        0 <= i < raw.len(),
    ensures
        ({
            let (x, r) = (raw[i], zcode::rows_of(raw)[i]);
            &&& zcode::rows_of(raw).len() == raw.len()
            &&& r.id == x.id@
            &&& match x.directory {
                Some(d) => r.directory == d@,
                None => r.directory.len() == 0,
            }
            &&& match x.title {
                Some(t) => r.title == t@,
                None => r.title.len() == 0,
            }
            &&& r.placeholder_title <==> (x.title_source matches Some(s) && s@ == "default"@)
            &&& match x.time_created {
                Some(t) => r.created_ms == t,
                None => r.created_ms == 0,
            }
            &&& match x.time_updated {
                Some(t) => r.updated_ms == t,
                None => r.updated_ms == 0,
            }
            &&& r.archived <==> x.time_archived is Some
            &&& match x.content_len {
                Some(n) => r.content_len == n,
                None => r.content_len == 0,
            }
        }),
{
}

/// The list of sessions: a row that has content and is not to be left out adds one at the end, under
/// its id, with its time and its length, and with a path that names the database and the id; any
/// other row adds none.
pub proof fn law_sessions_are_listed_as_they_are(
    db: Seq<char>,
    rows: Seq<RowData>,
    row: RowData,
    hidden: Set<Seq<char>>,
)
    ensures
        ({
            let before = zcode::listed(db, rows, hidden);
            let after = zcode::listed(db, rows.push(row), hidden);
            let good = row.content_len > 0 && !hidden.contains(row.id);
            &&& zcode::listed(db, seq![], hidden).len() == 0
            &&& !good ==> after == before
            &&& good ==> {
                &&& after.len() == before.len() + 1
                &&& after.take(before.len() as int) == before
                &&& after.last().agent == AgentId::Zcode
                &&& after.last().native_id == row.id
                &&& after.last().mtime_ms == row.updated_ms
                &&& after.last().size == row.content_len
                &&& after.last().file_path == db + seq!['#'] + row.id
            }
        }),
{
    reveal_strlit("#");
    assert("#"@ =~= seq!['#']);
    assert(rows.push(row).drop_last() =~= rows);
    let before = zcode::listed(db, rows, hidden);
    let after = zcode::listed(db, rows.push(row), hidden);
    if row.content_len > 0 && !hidden.contains(row.id) {
        assert(after.take(before.len() as int) =~= before);
    }
}

/// What is left out is what the task index said when it was last read; nothing where it was never
/// read.
pub proof fn law_the_task_index_hides_what_it_says(a: AdapterData)
    ensures
        a.tasks_db is Some ==> match a.hidden {
            Some(entry) => zcode::hidden_ids(a) == entry.1,
            None => zcode::hidden_ids(a) == Set::<Seq<char>>::empty(),
        },
        a.tasks_db is None ==> zcode::hidden_ids(a) == Set::<Seq<char>>::empty(),
{
}

/// Where the agent's directory is: where the environment says, if the database is there, else below
/// the user's home. The database, the task index and the memories are looked for in it.
pub proof fn law_the_environment_needs_a_database(
    env_dir: Option<Seq<char>>,
    home_dir: Option<Seq<char>>,
    windows: bool,
)
    ensures
        env_dir is Some ==> zcode::chosen_home(env_dir, true, home_dir, windows) == env_dir->0,
        zcode::chosen_home(env_dir, false, home_dir, windows) == zcode::chosen_home(
            None,
            true,
            home_dir,
            windows,
        ),
        home_dir matches Some(home) ==> zcode::chosen_home(None, false, home_dir, windows)
            == paths::joined(home, ".zcode"@, windows),
        ({
            let a = zcode::home_adapter(env_dir.unwrap_or(seq![]), windows);
            let home = env_dir.unwrap_or(seq![]);
            &&& a.db == paths::joined(home, "cli/db/db.sqlite"@, windows)
            &&& a.tasks_db == Some(paths::joined(home, "v2/tasks-index.sqlite"@, windows))
            &&& a.home == Some(home)
            &&& a.rows is None && a.hidden is None
        }),
{
}

proof fn lemma_last_workspace(rows: Seq<RowData>, windows: bool, i: int)
    requires
        0 <= i < rows.len(),
        forall|j: int|
            i < j < rows.len() ==> zcode::dir_hash((#[trigger] rows[j]).directory, windows)
                != zcode::dir_hash(rows[i].directory, windows),
    ensures
        zcode::workspaces_of(rows, windows).contains_key(
            zcode::dir_hash(rows[i].directory, windows),
        ),
        zcode::workspaces_of(rows, windows)[zcode::dir_hash(rows[i].directory, windows)]
            == rows[i].directory,
    decreases rows.len(),
{
    if i < rows.len() - 1 {
        let less = rows.drop_last();
        assert(zcode::dir_hash(rows[rows.len() - 1].directory, windows) != zcode::dir_hash(
            rows[i].directory,
            windows,
        ));
        assert forall|j: int| i < j < less.len() implies zcode::dir_hash(
            (#[trigger] less[j]).directory,
            windows,
        ) != zcode::dir_hash(rows[i].directory, windows) by {
            assert(zcode::dir_hash(rows[j].directory, windows) != zcode::dir_hash(
                rows[i].directory,
                windows,
            ));
        }
        lemma_last_workspace(less, windows, i);
    }
}

proof fn lemma_no_workspace(rows: Seq<RowData>, windows: bool, hash: Seq<char>)
    requires
        forall|j: int|
            0 <= j < rows.len() ==> zcode::dir_hash((#[trigger] rows[j]).directory, windows) != hash,
    ensures
        !zcode::workspaces_of(rows, windows).contains_key(hash),
    decreases rows.len(),
{
    if rows.len() > 0 {
        let less = rows.drop_last();
        assert(zcode::dir_hash(rows[rows.len() - 1].directory, windows) != hash);
        assert forall|j: int| 0 <= j < less.len() implies zcode::dir_hash(
            (#[trigger] less[j]).directory,
            windows,
        ) != hash by {
            assert(zcode::dir_hash(rows[j].directory, windows) != hash);
        }
        lemma_no_workspace(less, windows, hash);
    }
}

/// The project of a memory directory is the directory of the last session whose hash stands behind
/// the last dash of its name, and none where no session has that hash.
pub proof fn law_memories_belong_to_the_last_session_with_their_hash(
    rows: Seq<RowData>,
    windows: bool,
    slug: Seq<char>,
    hash: Seq<char>,
    i: int,
)
    requires
        !hash.contains('-'),
        -1 <= i < rows.len(),
        i >= 0 ==> zcode::dir_hash(rows[i].directory, windows) == hash,
        forall|j: int|
            i < j < rows.len() ==> zcode::dir_hash((#[trigger] rows[j]).directory, windows) != hash,
    ensures
        ({
            let project = zcode::project_of(
                zcode::workspaces_of(rows, windows),
                Some(slug + seq!['-'] + hash),
            );
            &&& i >= 0 ==> project == rows[i].directory
            &&& i < 0 ==> project.len() == 0
        }),
{
    let name = slug + seq!['-'] + hash;
    text::lemma_last_position(name, '-');
    assert(name[slug.len() as int] == '-');
    let p = text::last_position(name, '-')->0;
    if p > slug.len() {
        assert(name[p] == hash[p - slug.len() - 1]);
        assert(hash.contains('-'));
    }
    assert(name.skip(p + 1) =~= hash);
    if i >= 0 {
        lemma_last_workspace(rows, windows, i);
    } else {
        lemma_no_workspace(rows, windows, hash);
    }
}

/// The hash of a workspace whose path does not end with a separator is that of the path itself, on
/// Windows in lower case: the first eight bytes of its digest, in hexadecimal.
pub proof fn law_hashes_are_of_the_path(workspace: Seq<char>, windows: bool)
    requires
        workspace.len() > 0,
        workspace.last() != '/',
        workspace.last() != '\\',
    ensures
        !windows ==> zcode::dir_hash(workspace, windows) == text::hex(
            zcode::sha256(workspace).take(8),
        ),
        windows ==> zcode::dir_hash(workspace, windows) == text::hex(
            zcode::sha256(text::lowercase(workspace)).take(8),
        ),
{
}

proof fn lemma_separators_trim_to_nothing(s: Seq<char>, windows: bool)
    requires
        forall|i: int| 0 <= i < s.len() ==> #[trigger] s[i] == '/',
    ensures
        text::trim_end_by(s, |c: char| zcode::is_separator(c, windows)).len() == 0,
    decreases s.len(),
{
    if s.len() > 0 {
        assert(s[s.len() - 1] == '/');
        assert forall|i: int| 0 <= i < s.drop_last().len() implies #[trigger] s.drop_last()[i]
            == '/' by {
            assert(s[i] == '/');
        }
        lemma_separators_trim_to_nothing(s.drop_last(), windows);
    }
}

/// A workspace that is nothing but separators, such as the root, is hashed as it is.
pub proof fn law_the_root_has_a_hash(workspace: Seq<char>)
    requires
        forall|i: int| 0 <= i < workspace.len() ==> #[trigger] workspace[i] == '/',
    ensures
        zcode::dir_hash(workspace, false) == text::hex(zcode::sha256(workspace).take(8)),
{
    lemma_separators_trim_to_nothing(workspace, false);
}

/// The query for sessions begins with their ids, directories, titles and the sources of these, and
/// where the database does not tell a source, with one that makes no title a placeholder. It ends
/// with which sessions are wanted: those that are marked as the user's where the database has marks,
/// and else those without a parent; and of these the one with the id that is asked for, or all. The
/// content is added up, but not for one session.
pub proof fn law_the_query_fits_the_database(schema: ZcSchema, single: bool)
    ensures
        ({
            let q = zcode::rows_query(schema, single);
            let head = "SELECT s.id, s.directory, s.title, "@;
            let end = " AND (?1 IS NULL OR s.id = ?1)"@;
            let sum =
                "(SELECT COALESCE(SUM(LENGTH(p.data)), 0) FROM part p WHERE p.session_id = s.id)"@;
            &&& schema.title_source ==> (head + "s.title_source"@).is_prefix_of(q)
            &&& !schema.title_source ==> (head + "'first_input'"@).is_prefix_of(q)
            &&& schema.task_type ==> (
            "s.task_type IN ('interactive', 'fork', 'selection_side_chat')"@ + end).is_suffix_of(q)
            &&& !schema.task_type ==> ("s.parent_id IS NULL"@ + end).is_suffix_of(q)
            &&& !single ==> text::occurs_in(q, sum)
            &&& single ==> zcode::rows_query(schema, false).len() == q.len() + sum.len() - 1
        }),
{
    let q = zcode::rows_query(schema, single);
    let head = "SELECT s.id, s.directory, s.title, "@;
    let mid = ", s.time_created, s.time_updated,\n                s.time_archived, "@;
    let from = "\n         FROM session s WHERE "@;
    let end = " AND (?1 IS NULL OR s.id = ?1)"@;
    let sum = "(SELECT COALESCE(SUM(LENGTH(p.data)), 0) FROM part p WHERE p.session_id = s.id)"@;
    let source = if schema.title_source {
        "s.title_source"@
    } else {
        "'first_input'"@
    };
    let wanted = if schema.task_type {
        "s.task_type IN ('interactive', 'fork', 'selection_side_chat')"@
    } else {
        "s.parent_id IS NULL"@
    };
    let len = if single {
        "0"@
    } else {
        sum
    };
    reveal_strlit("0");
    assert("0"@.len() == 1);
    let front = head + source;
    let back = wanted + end;
    assert(q =~= front + (mid + len + from) + back);
    assert(front =~= q.subrange(0, front.len() as int));
    assert(back =~= q.subrange(q.len() - back.len(), q.len() as int));
    if !single {
        let at = (front + mid).len() as int;
        assert(q.subrange(at, at + sum.len()) =~= sum);
        assert(text::occurs_at(q, sum, at));
    }
}

/// The sessions that the task index hides are asked for by what its columns can tell: those that are
/// deleted, those that were moved, or both. An index that has neither column, or no ids, hides none.
pub proof fn law_the_task_index_is_asked_for_what_it_has(columns: Set<Seq<char>>)
    ensures
        ({
            let q = zcode::hidden_query(columns);
            let deleted = columns.contains("deleted"@);
            let moved = columns.contains("migration_source"@);
            let head = "SELECT task_id FROM tasks WHERE "@;
            &&& q is None <==> !columns.contains("task_id"@) || (!deleted && !moved)
            &&& q is Some && deleted ==> head + "deleted = 1"@ == q->0.take(
                (head + "deleted = 1"@).len() as int,
            )
            &&& q is Some && moved ==> ({
                let tail = "(migration_source IS NOT NULL AND migration_source != '')"@;
                tail == q->0.skip(q->0.len() - tail.len())
            })
            &&& q is Some && !moved ==> q->0 == head + "deleted = 1"@
            &&& q is Some && !deleted ==> q->0 == head
                + "(migration_source IS NOT NULL AND migration_source != '')"@
        }),
{
    let q = zcode::hidden_query(columns);
    let head = "SELECT task_id FROM tasks WHERE "@;
    let tail = "(migration_source IS NOT NULL AND migration_source != '')"@;
    if let Some(t) = q {
        if columns.contains("deleted"@) {
            assert(t.take((head + "deleted = 1"@).len() as int) =~= head + "deleted = 1"@);
        }
        if columns.contains("migration_source"@) {
            assert(t.skip(t.len() - tail.len()) =~= tail);
        }
    }
}

/// What a listed session is known by: the path of the database in front of its id.
pub proof fn law_virtual_paths_hold_both_parts(db: Seq<char>, id: Seq<char>)
    ensures
        ({
            let path = sqlite_ro::virtual_path_of(db, id);
            &&& path.take(db.len() as int) == db
            &&& path[db.len() as int] == '#'
            &&& path.skip(db.len() as int + 1) == id
        }),
{
    reveal_strlit("#");
    let path = sqlite_ro::virtual_path_of(db, id);
    assert(path.take(db.len() as int) =~= db);
    assert(path.skip(db.len() as int + 1) =~= id);
}

/// A path that the user picks is a bare copy of the database if it is called like it, and then its
/// parents are left alone: there is neither a task index nor a place for memories. Any other path is
/// the agent's directory, which holds all three.
pub proof fn law_a_bare_database_is_left_alone(
    base: Seq<char>,
    name: Seq<char>,
    windows: bool,
)
    requires
        paths::is_steady(base, windows),
        paths::is_name(name, windows),
    ensures
        ({
            let dir = paths::joined(base, name, windows);
            let a = zcode::picked_adapter(dir, windows);
            &&& name == "db.sqlite"@ ==> {
                &&& a.db == dir
                &&& a.tasks_db is None
                &&& a.home is None
                &&& zcode::sources_of(a).len() == 0
            }
            &&& name != "db.sqlite"@ ==> {
                &&& a.db == paths::joined(dir, "cli/db/db.sqlite"@, windows)
                &&& a.tasks_db == Some(paths::joined(dir, "v2/tasks-index.sqlite"@, windows))
                &&& a.home == Some(dir)
                &&& zcode::sources_of(a).len() == 1
            }
            &&& a.windows == windows
            &&& a.rows is None && a.hidden is None
        }),
{
    paths::law_join_adds_a_component(base, name, windows);
}

/// Memories are looked for in one tree below the agent's directory, and nowhere without one.
pub proof fn law_memories_are_looked_for_in_one_tree(a: AdapterData)
    ensures
        a.home is None ==> zcode::sources_of(a).len() == 0,
        a.home matches Some(home) ==> zcode::sources_of(a).len() == 1 && ({
            let s = zcode::sources_of(a)[0];
            &&& s.agent == AgentId::Zcode
            &&& s.kind == MemorySourceKind::ProjectTree
            &&& s.path == paths::joined(home, "cli/memories/projects"@, a.windows)
        }),
{
}

/// The file behind a listed session is the database, as long as its id has no `#` in it; a path that
/// is a file of its own is that file, whatever is in its name.
pub proof fn law_the_file_of_a_session_is_its_database(
    db: Seq<char>,
    row: RowData,
    own: Seq<char>,
)
    requires
        !row.id.contains('#'),
    ensures
        zcode::file_of(zcode::ref_of(db, row).file_path, false) == db,
        zcode::file_of(own, true) == own,
        !own.contains('#') ==> zcode::file_of(own, false) == own,
{
    sqlite_ro::law_strip_undoes_virtual(db, row.id);
    text::lemma_last_position(own, '#');
}

/// What is left out by the task index: nothing where there is no such file; where it cannot be opened
/// or its query fails, that is not known; and else the sessions that the query came to, and no
/// others.
pub proof fn law_an_unreadable_task_index_says_nothing(
    columns: Option<Set<Seq<char>>>,
    ids: Option<Seq<Seq<char>>>,
    id: Seq<char>,
)
    ensures
        zcode::hidden_of(zcode::plan_of(false, columns), ids) == Some(Set::<Seq<char>>::empty()),
        zcode::hidden_of(zcode::plan_of(true, None), ids) is None,
        columns matches Some(c) ==> {
            let hidden = zcode::hidden_of(zcode::plan_of(true, columns), ids);
            let asked = c.contains("task_id"@) && (c.contains("deleted"@) || c.contains(
                "migration_source"@,
            ));
            &&& !asked ==> hidden == Some(Set::<Seq<char>>::empty())
            &&& asked && ids is None ==> hidden is None
            &&& asked && ids is Some ==> hidden is Some && (hidden->0.contains(id) <==> exists|i: int|
                0 <= i < ids->0.len() && #[trigger] ids->0[i] == id)
        },
{
    if let Some(v) = ids {
        if v.contains(id) {
            let i = choose|i: int| 0 <= i < v.len() && v[i] == id;
            assert(v[i] == id);
        }
    }
}

/// A task index that cannot be read changes nothing of what is left out; one that can decides it
/// alone, whatever was left out before.
pub proof fn law_what_was_hidden_stays_hidden(
    before: Option<(i64, Set<Seq<char>>)>,
    stamp: i64,
    now: Set<Seq<char>>,
)
    ensures
        mtime_cache::entry_after(before, stamp, None) == before,
        !(before matches Some(e) && e.0 == stamp) ==> mtime_cache::entry_after(
            before,
            stamp,
            Some(now),
        ) == Some((stamp, now)),
{
}

/// Each table tells of itself: what one has makes no difference to what another is taken to have.
pub proof fn law_each_table_tells_of_itself(
    session: Set<Seq<char>>,
    part: Set<Seq<char>>,
    message: Set<Seq<char>>,
)
    ensures
        ({
            let s = zcode::schema_of(session, part, message);
            &&& s.part_sequence <==> part.contains("sequence"@)
            &&& s.message_sequence <==> message.contains("sequence"@)
            &&& s.title_source <==> session.contains("title_source"@)
            &&& s.task_type <==> session.contains("task_type"@)
        }),
{
}

/// Parts and messages are read by their sequence numbers where they have them, parts message by
/// message; and else in the order that is given, each for itself.
pub proof fn law_sequence_numbers_order_what_has_them(
    schema: ZcSchema,
    fallback: (Seq<char>, Seq<char>),
)
    ensures
        ({
            let (part, message) = zcode::orders_of(schema, fallback);
            &&& !schema.part_sequence ==> part == fallback.0
            &&& !schema.message_sequence ==> message == fallback.1
            &&& schema.part_sequence ==> part == "message_id, sequence, id"@
            &&& schema.message_sequence ==> message == "sequence, time_created, id"@
        }),
{
}

/// An empty list means that there are no sessions: where the database is there but was never read,
/// there is no list at all. Once it was read, there always is one, also when the file is gone.
pub proof fn law_an_unread_database_has_no_list(a: AdapterData, db_is_file: bool)
    ensures
        zcode::listing_of(a, db_is_file) is None <==> a.rows is None && db_is_file,
        a.rows is None && !db_is_file ==> zcode::listing_of(a, db_is_file) == Some(
            Seq::<FileRefData>::empty(),
        ),
        a.rows matches Some(entry) ==> zcode::listing_of(a, db_is_file) == Some(
            zcode::listed(a.db, entry.1, zcode::hidden_ids(a)),
        ),
{
}

/// A session of another database is not read, whatever was found; and one of this database is the
/// first row that was found.
pub proof fn law_only_own_sessions_are_read(
    found: Option<Seq<RowData>>,
    id: Seq<char>,
    inside: bool,
)
    ensures
        zcode::reading_of(false, found, id) is Outside,
        zcode::reading_of(true, None, id) is CannotOpen,
        zcode::reading_of(inside, found, id) matches ReadingData::Row(row) ==> inside
            && found is Some && found->0.len() > 0 && row == found->0[0],
        inside && found is Some && found->0.len() > 0 ==> zcode::reading_of(inside, found, id) is Row,
        inside && found is Some && found->0.len() == 0 ==> zcode::reading_of(inside, found, id)
            == ReadingData::NotInDb(id),
{
}

/// An error that is about a session or a database names it.
pub proof fn law_errors_name_what_they_are_about(name: String)
    ensures
        text::occurs_in(zcode::error_text(ZcError::NotInDb(name)), name@),
        zcode::error_text(ZcError::Unreadable(name)).take(name@.len() as int) == name@,
{
    let t = zcode::error_text(ZcError::NotInDb(name));
    let at = "zcode session "@.len() as int;
    assert(t.subrange(at, at + name@.len()) =~= name@);
    assert(text::occurs_at(t, name@, at));
    let u = zcode::error_text(ZcError::Unreadable(name));
    assert(u.take(name@.len() as int) =~= name@);
}

}
