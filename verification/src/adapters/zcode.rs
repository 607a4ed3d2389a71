//! The adapter for sessions kept in one SQLite database.
//!
//! A second database, the desktop app's task index, only tells which sessions to leave out. Columns
//! that a database lacks because it is older are replaced by defaults, and a database that cannot
//! be read just now is no reason to forget what was read before.
use crate::adapters::mtime_cache;
use crate::adapters::mtime_cache::MtimeCache;
use crate::adapters::sqlite_ro;
use crate::adapters::sqlite_ro::{strip_virtual_path, virtual_path, Names};
use crate::models::{
    clone_opt, or_empty, AgentId, FileRefData, MemorySource, MemorySourceKind, SessionFileRef,
    SourceData, TreeUnit,
};
use crate::paths;
use crate::paths::{file_name, join, nth_ancestor, path_ends_with, same_path};
use crate::text;
use crate::text::{chars_of, concat2, concat3, find_last, hex_of, same_text, to_lowercase};
use vstd::hash_map::StringHashMap;
use vstd::prelude::*;
use vstd::string::{StrSliceExecFns, StringExecFns};

verus! {

/// The agent's directory below the user's home.
pub const HOME_DIR_NAME: &'static str = ".zcode";

/// The database that holds the sessions, below the agent's directory.
pub const DB_REL: &'static str = "cli/db/db.sqlite";

/// The task index, below the agent's directory.
pub const TASKS_REL: &'static str = "v2/tasks-index.sqlite";

/// The memories, a directory per project, below the agent's directory.
pub const MEMORIES_REL: &'static str = "cli/memories/projects";

/// A session, as the database has it. A placeholder title is one that nobody has chosen yet.
pub struct ZcRow {
    pub id: String,
    pub directory: String,
    pub title: String,
    pub placeholder_title: bool,
    pub created_ms: i64,
    pub updated_ms: i64,
    pub archived: bool,
    pub content_len: i64,
}

/// What a [`ZcRow`] holds.
pub struct RowData {
    pub id: Seq<char>,
    pub directory: Seq<char>,
    pub title: Seq<char>,
    pub placeholder_title: bool,
    pub created_ms: i64,
    pub updated_ms: i64,
    pub archived: bool,
    pub content_len: i64,
}

impl DeepView for ZcRow {
    type V = RowData;

    open spec fn deep_view(&self) -> RowData {
        RowData {
            id: self.id@,
            directory: self.directory@,
            title: self.title@,
            placeholder_title: self.placeholder_title,
            created_ms: self.created_ms,
            updated_ms: self.updated_ms,
            archived: self.archived,
            content_len: self.content_len,
        }
    }
}

/// The columns of a row, as they are read.
pub struct RawRow {
    pub id: String,
    pub directory: Option<String>,
    pub title: Option<String>,
    pub title_source: Option<String>,
    pub time_created: Option<i64>,
    pub time_updated: Option<i64>,
    pub time_archived: Option<i64>,
    pub content_len: Option<i64>,
}

/// The session that a row stands for: a missing text is empty, a missing number zero; the title is
/// a placeholder if its source is `default`, and a session is archived if it has a time for that.
pub open spec fn row_of(raw: RawRow) -> RowData {
    RowData {
        id: raw.id@,
        directory: raw.directory.deep_view().unwrap_or(seq![]),
        title: raw.title.deep_view().unwrap_or(seq![]),
        placeholder_title: raw.title_source.deep_view() == Some("default"@),
        created_ms: raw.time_created.unwrap_or(0),
        updated_ms: raw.time_updated.unwrap_or(0),
        archived: raw.time_archived is Some,
        content_len: raw.content_len.unwrap_or(0),
    }
}

fn or_zero(o: Option<i64>) -> (r: i64)
    ensures
        r == o.unwrap_or(0),
{
    match o {
        Some(n) => n,
        None => 0,
    }
}

/// The session that a row stands for.
pub fn read_row(raw: RawRow) -> (r: ZcRow)
    ensures
        r.deep_view() == row_of(raw),
{
    let placeholder_title = match &raw.title_source {
        Some(s) => same_text(s.as_str(), "default"),
        None => false,
    };
    ZcRow {
        id: raw.id,
        directory: or_empty(raw.directory),
        title: or_empty(raw.title),
        placeholder_title,
        created_ms: or_zero(raw.time_created),
        updated_ms: or_zero(raw.time_updated),
        archived: raw.time_archived.is_some(),
        content_len: or_zero(raw.content_len),
    }
}

/// Which of the columns that came later a database has.
#[derive(Clone, Copy, PartialEq, Eq, Structural, Debug)]
pub struct ZcSchema {
    pub title_source: bool,
    pub task_type: bool,
    pub part_sequence: bool,
    pub message_sequence: bool,
}

/// The order in which parts and messages are read.
pub struct V1Order {
    pub part: String,
    pub message: String,
}

impl ZcSchema {
    /// What the columns of the tables tell.
    pub fn probe(
        session: &Names,
        part: &Names,
        message: &Names,
    ) -> (r: ZcSchema)
        ensures
            r == (ZcSchema {
                title_source: session@.contains("title_source"@),
                task_type: session@.contains("task_type"@),
                part_sequence: part@.contains("sequence"@),
                message_sequence: message@.contains("sequence"@),
            }),
            r == schema_of(session@, part@, message@),
    {
        ZcSchema {
            title_source: session.contains("title_source"),
            task_type: session.contains("task_type"),
            part_sequence: part.contains("sequence"),
            message_sequence: message.contains("sequence"),
        }
    }

    /// By sequence number where a table has one, else as `fallback` says.
    pub fn order(&self, fallback: V1Order) -> (r: V1Order)
        ensures
            r.part@ == (if self.part_sequence {
                "message_id, sequence, id"@
            } else {
                fallback.part@
            }),
            r.message@ == (if self.message_sequence {
                "sequence, time_created, id"@
            } else {
                fallback.message@
            }),
            (r.part@, r.message@) == orders_of(*self, (fallback.part@, fallback.message@)),
    {
        V1Order {
            part: if self.part_sequence {
                "message_id, sequence, id".to_owned()
            } else {
                fallback.part
            },
            message: if self.message_sequence {
                "sequence, time_created, id".to_owned()
            } else {
                fallback.message
            },
        }
    }
}

/// What the columns of the tables tell.
pub open spec fn schema_of(
    session: Set<Seq<char>>,
    part: Set<Seq<char>>,
    message: Set<Seq<char>>,
) -> ZcSchema {
    ZcSchema {
        title_source: session.contains("title_source"@),
        task_type: session.contains("task_type"@),
        part_sequence: part.contains("sequence"@),
        message_sequence: message.contains("sequence"@),
    }
}

/// The orders in which parts and messages are read, where `fallback` is for tables without a
/// sequence number.
pub open spec fn orders_of(schema: ZcSchema, fallback: (Seq<char>, Seq<char>)) -> (
    Seq<char>,
    Seq<char>,
) {
    (
        if schema.part_sequence {
            "message_id, sequence, id"@
        } else {
            fallback.0
        },
        if schema.message_sequence {
            "sequence, time_created, id"@
        } else {
            fallback.1
        },
    )
}

/// The query for sessions: all of them, or one (`single`), for which the length of the content is
/// not added up. Only sessions that the user works in are listed.
pub open spec fn rows_query(schema: ZcSchema, single: bool) -> Seq<char> {
    let title_source = if schema.title_source { "s.title_source"@ } else { "'first_input'"@ };
    let listed = if schema.task_type {
        "s.task_type IN ('interactive', 'fork', 'selection_side_chat')"@
    } else {
        "s.parent_id IS NULL"@
    };
    let content_len = if single {
        "0"@
    } else {
        "(SELECT COALESCE(SUM(LENGTH(p.data)), 0) FROM part p WHERE p.session_id = s.id)"@
    };
    "SELECT s.id, s.directory, s.title, "@ + title_source
        + ", s.time_created, s.time_updated,\n                s.time_archived, "@ + content_len
        + "\n         FROM session s WHERE "@ + listed + " AND (?1 IS NULL OR s.id = ?1)"@
}

/// The query for sessions; its only parameter is the id of the one wanted, or null.
pub fn query_rows_sql(schema: ZcSchema, single: bool) -> (r: String)
    ensures
        r@ == rows_query(schema, single),
{
    let mut sql = concat2(
        "SELECT s.id, s.directory, s.title, ",
        if schema.title_source {
            "s.title_source"
        } else {
            "'first_input'"
        },
    );
    sql.append(", s.time_created, s.time_updated,\n                s.time_archived, ");
    sql.append(
        if single {
            "0"
        } else {
            "(SELECT COALESCE(SUM(LENGTH(p.data)), 0) FROM part p WHERE p.session_id = s.id)"
        },
    );
    sql.append("\n         FROM session s WHERE ");
    sql.append(
        if schema.task_type {
            "s.task_type IN ('interactive', 'fork', 'selection_side_chat')"
        } else {
            "s.parent_id IS NULL"
        },
    );
    sql.append(" AND (?1 IS NULL OR s.id = ?1)");
    sql
}

/// The sessions that some rows stand for.
pub open spec fn rows_of(raw: Seq<RawRow>) -> Seq<RowData> {
    Seq::new(raw.len(), |i: int| row_of(raw[i]))
}

/// The sessions that some rows stand for.
pub fn query_rows(raw: Vec<RawRow>) -> (r: Vec<ZcRow>)
    ensures
        r.deep_view() == rows_of(raw@),
{
    let mut out: Vec<ZcRow> = Vec::new();
    let ghost all = raw@;
    for x in it: raw
        invariant
            it.seq() == all,
            out.deep_view() == rows_of(all).take(it.index() as int),
    {
        let row = read_row(x);
        let ghost before = out.deep_view();
        out.push(row);
        assert(out.deep_view() =~= before.push(row.deep_view()));
        assert(out.deep_view() =~= rows_of(all).take(it.index() as int + 1));
    }
    assert(rows_of(all).take(all.len() as int) =~= rows_of(all));
    out
}

/// How the sessions to leave out are found.
pub enum HiddenPlan {
    /// There are certainly none.
    Nothing,
    /// It cannot be known now.
    Unknown,
    /// This query lists them.
    Query(String),
}

/// What a [`HiddenPlan`] holds.
pub enum PlanData {
    Nothing,
    Unknown,
    Query(Seq<char>),
}

impl DeepView for HiddenPlan {
    type V = PlanData;

    open spec fn deep_view(&self) -> PlanData {
        match self {
            HiddenPlan::Nothing => PlanData::Nothing,
            HiddenPlan::Unknown => PlanData::Unknown,
            HiddenPlan::Query(sql) => PlanData::Query(sql@),
        }
    }
}

/// How the sessions to leave out are found, given the columns of the task index where it can be
/// opened.
pub open spec fn plan_of(is_file: bool, columns: Option<Set<Seq<char>>>) -> PlanData {
    if !is_file {
        PlanData::Nothing
    } else {
        match columns {
            None => PlanData::Unknown,
            Some(c) => match hidden_query(c) {
                Some(sql) => PlanData::Query(sql),
                None => PlanData::Nothing,
            },
        }
    }
}

/// The sessions to leave out, given what the query of a plan came to.
pub open spec fn hidden_of(plan: PlanData, ids: Option<Seq<Seq<char>>>) -> Option<Set<Seq<char>>> {
    match (plan, ids) {
        (PlanData::Nothing, _) => Some(Set::empty()),
        (PlanData::Query(_), Some(v)) => Some(set_of(v)),
        _ => None,
    }
}

/// What the task index says of hidden sessions, given its columns.
pub open spec fn hidden_query(columns: Set<Seq<char>>) -> Option<Seq<char>> {
    let deleted = "deleted = 1"@;
    let moved = "(migration_source IS NOT NULL AND migration_source != '')"@;
    let head = "SELECT task_id FROM tasks WHERE "@;
    if !columns.contains("task_id"@) {
        None
    } else if columns.contains("deleted"@) && columns.contains("migration_source"@) {
        Some(head + deleted + " OR "@ + moved)
    } else if columns.contains("deleted"@) {
        Some(head + deleted)
    } else if columns.contains("migration_source"@) {
        Some(head + moved)
    } else {
        None
    }
}

/// How the sessions to leave out are found: a task index that is not there, or that has no column
/// for it, hides none; one that is there but cannot be opened (`columns` is `None`) may hide any.
pub fn hidden_plan(is_file: bool, columns: Option<&Names>) -> (r: HiddenPlan)
    ensures
        match r {
            HiddenPlan::Nothing => !is_file || (columns matches Some(c) && hidden_query(c@) is None),
            HiddenPlan::Unknown => is_file && columns is None,
            HiddenPlan::Query(sql) => is_file && (columns matches Some(c) && hidden_query(c@)
                == Some(sql@)),
        },
        r.deep_view() == plan_of(
            is_file,
            match columns {
                Some(c) => Some(c@),
                None => None,
            },
        ),
{
    if !is_file {
        return HiddenPlan::Nothing;
    }
    match columns {
        None => HiddenPlan::Unknown,
        Some(c) => {
            let deleted = c.contains("deleted");
            let moved = c.contains("migration_source");
            if !c.contains("task_id") || (!deleted && !moved) {
                return HiddenPlan::Nothing;
            }
            let mut sql = "SELECT task_id FROM tasks WHERE ".to_owned();
            if deleted {
                sql.append("deleted = 1");
            }
            if deleted && moved {
                sql.append(" OR ");
            }
            if moved {
                sql.append("(migration_source IS NOT NULL AND migration_source != '')");
            }
            HiddenPlan::Query(sql)
        },
    }
}

/// The texts of a list, as a set.
pub open spec fn set_of(ids: Seq<Seq<char>>) -> Set<Seq<char>> {
    Set::new(|id: Seq<char>| ids.contains(id))
}

fn collect_ids(ids: Vec<String>) -> (r: Names)
    ensures
        r@ == set_of(ids.deep_view()),
{
    let mut out = Names::new();
    let ghost all = ids.deep_view();
    let ghost raw = ids@;
    assert(out@ =~= set_of(all.take(0)));
    for id in it: ids
        invariant
            it.seq() == raw,
            all == raw.map_values(|s: String| s.deep_view()),
            out@ == set_of(all.take(it.index() as int)),
    {
        let ghost n = it.index() as int;
        let ghost before = all.take(n);
        let ghost after = all.take(n + 1);
        proof {
            assert(after =~= before.push(id@));
            assert forall|x: Seq<char>| #[trigger] after.contains(x) <==> (before.contains(x) || x
                == id@) by {
                if before.contains(x) {
                    let k = choose|k: int| 0 <= k < before.len() && before[k] == x;
                    assert(after[k] == x);
                }
                if x == id@ {
                    assert(after[n] == x);
                }
                if after.contains(x) {
                    let k = choose|k: int| 0 <= k < after.len() && after[k] == x;
                    if k < n {
                        assert(before[k] == x);
                    }
                }
            }
        }
        out.insert(id);
        assert(out@ =~= set_of(after));
    }
    assert(all.take(all.len() as int) =~= all);
    out
}

/// The sessions to leave out, given what the query of `plan` came to (`None` where it failed);
/// `None` means that they are not known.
pub fn read_hidden(plan: HiddenPlan, ids: Option<Vec<String>>) -> (r: Option<Names>)
    ensures
        match (plan, ids) {
            (HiddenPlan::Nothing, _) => r matches Some(s) && s@ == Set::<Seq<char>>::empty(),
            (HiddenPlan::Unknown, _) => r is None,
            (HiddenPlan::Query(_), Some(v)) => r matches Some(s) && s@ == set_of(v.deep_view()),
            (HiddenPlan::Query(_), None) => r is None,
        },
        match r {
            Some(s) => hidden_of(plan.deep_view(), ids.deep_view()) == Some(s@),
            None => hidden_of(plan.deep_view(), ids.deep_view()) is None,
        },
{
    match plan {
        HiddenPlan::Nothing => Some(Names::new()),
        HiddenPlan::Unknown => None,
        HiddenPlan::Query(_) => match ids {
            Some(v) => Some(collect_ids(v)),
            None => None,
        },
    }
}

/// The path that the user means by picking the database itself or a directory between it and the
/// agent's directory: the agent's directory. Any other path is left as it is.
pub open spec fn normalized_root(dir: Seq<char>, windows: bool) -> Seq<char> {
    if paths::ends_with_path(dir, DB_REL@, windows) {
        paths::ancestor(dir, 3, windows).unwrap_or(dir)
    } else if paths::ends_with_path(dir, "cli/db"@, windows) {
        paths::ancestor(dir, 2, windows).unwrap_or(dir)
    } else if paths::ends_with_path(dir, "cli"@, windows) {
        paths::ancestor(dir, 1, windows).unwrap_or(dir)
    } else {
        dir
    }
}

fn lift(dir: String, depth: usize, windows: bool) -> (r: String)
    ensures
        r@ == paths::ancestor(dir@, depth as nat, windows).unwrap_or(dir@),
{
    match nth_ancestor(dir.as_str(), depth, windows) {
        Some(up) => up,
        None => dir,
    }
}

/// The path that the user means by picking `dir`, by the shape of the path alone.
pub fn normalize_custom_root(dir: String, windows: bool) -> (r: String)
    ensures
        r@ == normalized_root(dir@, windows),
{
    if path_ends_with(dir.as_str(), DB_REL, windows) {
        lift(dir, 3, windows)
    } else if path_ends_with(dir.as_str(), "cli/db", windows) {
        lift(dir, 2, windows)
    } else if path_ends_with(dir.as_str(), "cli", windows) {
        lift(dir, 1, windows)
    } else {
        dir
    }
}

/// The SHA-256 digest of a text, in UTF-8.
pub uninterp spec fn sha256(text: Seq<char>) -> Seq<u8>;

/// `sha2::Sha256::digest` on the UTF-8 bytes of a text gives its SHA-256 digest: 32 bytes that
/// depend on the text alone.
#[verifier::external_body]
fn sha256_of(text: &str) -> (r: Vec<u8>)
    ensures
        r@ == sha256(text@),
        r@.len() == 32,
{
    <sha2::Sha256 as sha2::Digest>::digest(text.as_bytes()).to_vec()
}

/// Whether a character separates the components of a path.
pub open spec fn is_separator(c: char, windows: bool) -> bool {
    c == '/' || (windows && c == '\\')
}

/// What the hash of a workspace is made of: the path without separators at its end, unless nothing
/// else is in it, and in lower case on Windows.
pub open spec fn hashed_key(workspace: Seq<char>, windows: bool) -> Seq<char> {
    let trimmed = text::trim_end_by(workspace, |c: char| is_separator(c, windows));
    let key = if trimmed.len() == 0 { workspace } else { trimmed };
    if windows {
        text::lowercase(key)
    } else {
        key
    }
}

/// The hash in the name of a memory directory: the first eight bytes of a digest, in hexadecimal.
pub open spec fn dir_hash(workspace: Seq<char>, windows: bool) -> Seq<char> {
    text::hex(sha256(hashed_key(workspace, windows)).take(8))
}

fn trim_separators(s: &str, windows: bool) -> (r: String)
    ensures
        r@ == text::trim_end_by(s@, |c: char| is_separator(c, windows)),
{
    let x = chars_of(s);
    let mut end: usize = x.len();
    let ghost skip = |c: char| is_separator(c, windows);
    assert(s@.take(s@.len() as int) =~= s@);
    while end > 0 && (x[end - 1] == '/' || (windows && x[end - 1] == '\\'))
        invariant
            end <= x.len(),
            x@ == s@,
            skip == (|c: char| is_separator(c, windows)),
            text::trim_end_by(s@, skip) == text::trim_end_by(s@.take(end as int), skip),
        decreases end,
    {
        assert(s@.take(end as int).drop_last() =~= s@.take(end - 1));
        end = end - 1;
    }
    assert(s@.subrange(0, end as int) =~= s@.take(end as int));
    s.substring_char(0, end).to_owned()
}

/// The hash in the name of the memory directory of a workspace.
pub fn memory_dir_hash(workspace: &str, windows: bool) -> (r: String)
    ensures
        r@ == dir_hash(workspace@, windows),
        r@.len() == 16,
{
    let trimmed = trim_separators(workspace, windows);
    let key = if trimmed.as_str().is_empty() {
        workspace.to_owned()
    } else {
        trimmed
    };
    let key = if windows {
        to_lowercase(key.as_str())
    } else {
        key
    };
    let digest = sha256_of(key.as_str());
    proof {
        lemma_hex_len(digest@.take(8));
    }
    hex_of(digest.as_slice(), 8)
}

proof fn lemma_hex_len(bytes: Seq<u8>)
    ensures
        text::hex(bytes).len() == 2 * bytes.len(),
    decreases bytes.len(),
{
    if bytes.len() > 0 {
        lemma_hex_len(bytes.drop_last());
    }
}

/// Why sessions cannot be listed, or one not be read.
pub enum ZcError {
    /// The session belongs to another database.
    OutsideRoots,
    /// The database cannot be opened.
    CannotOpen,
    /// The database has no session with this id.
    NotInDb(String),
    /// The database at this path is there, but was never read.
    Unreadable(String),
}

/// What an error says.
pub open spec fn error_text(e: ZcError) -> Seq<char> {
    match e {
        ZcError::OutsideRoots => "zcode database is outside adapter roots"@,
        ZcError::CannotOpen => "cannot open zcode db"@,
        ZcError::NotInDb(id) => "zcode session "@ + id@ + " not in db"@,
        ZcError::Unreadable(db) => db@ + " exists but could not be read"@,
    }
}

impl ZcError {
    /// What the error says.
    pub fn message(&self) -> (r: String)
        ensures
            r@ == error_text(*self),
    {
        match self {
            ZcError::OutsideRoots => "zcode database is outside adapter roots".to_owned(),
            ZcError::CannotOpen => "cannot open zcode db".to_owned(),
            ZcError::NotInDb(id) => concat3("zcode session ", id.as_str(), " not in db"),
            ZcError::Unreadable(db) => concat2(db.as_str(), " exists but could not be read"),
        }
    }
}

/// The adapter. A bare copy of the database has neither a task index nor a home: its parent
/// directories are left alone.
pub struct ZcodeAdapter {
    db: String,
    tasks_db: Option<String>,
    home: Option<String>,
    windows: bool,
    rows_cache: MtimeCache<Vec<ZcRow>>,
    hidden_cache: MtimeCache<Names>,
}

/// What a [`ZcodeAdapter`] holds: the last sessions read and the last sessions to leave out, each
/// with the stamp of their reading.
#[verifier::ext_equal]
pub struct AdapterData {
    pub db: Seq<char>,
    pub tasks_db: Option<Seq<char>>,
    pub home: Option<Seq<char>>,
    pub windows: bool,
    pub rows: Option<(i64, Seq<RowData>)>,
    pub hidden: Option<(i64, Set<Seq<char>>)>,
}

impl View for ZcodeAdapter {
    type V = AdapterData;

    closed spec fn view(&self) -> AdapterData {
        AdapterData {
            db: self.db@,
            tasks_db: self.tasks_db.deep_view(),
            home: self.home.deep_view(),
            windows: self.windows,
            rows: match self.rows_cache@ {
                Some((stamp, rows)) => Some((stamp, rows.deep_view())),
                None => None,
            },
            hidden: match self.hidden_cache@ {
                Some((stamp, ids)) => Some((stamp, ids@)),
                None => None,
            },
        }
    }
}

/// The adapter of the agent's directory `home`, before anything was read.
pub open spec fn home_adapter(home: Seq<char>, windows: bool) -> AdapterData {
    AdapterData {
        db: paths::joined(home, DB_REL@, windows),
        tasks_db: Some(paths::joined(home, TASKS_REL@, windows)),
        home: Some(home),
        windows,
        rows: None,
        hidden: None,
    }
}

/// The adapter of a bare copy of the database, before anything was read.
pub open spec fn db_adapter(db: Seq<char>, windows: bool) -> AdapterData {
    AdapterData { db, tasks_db: None, home: None, windows, rows: None, hidden: None }
}

/// The agent's directory: the one that the environment names, if it holds the database, else the
/// one below the user's home.
pub open spec fn chosen_home(
    env_dir: Option<Seq<char>>,
    env_has_db: bool,
    home_dir: Option<Seq<char>>,
    windows: bool,
) -> Seq<char> {
    match env_dir {
        Some(dir) if env_has_db => dir,
        _ => paths::joined(home_dir.unwrap_or(seq![]), HOME_DIR_NAME@, windows),
    }
}

/// The adapter for a path that the user has picked, before anything was read.
pub open spec fn picked_adapter(dir: Seq<char>, windows: bool) -> AdapterData {
    if paths::name_of(dir, windows) == Some("db.sqlite"@) {
        db_adapter(dir, windows)
    } else {
        home_adapter(dir, windows)
    }
}

/// The places that hold memories.
pub open spec fn sources_of(a: AdapterData) -> Seq<SourceData> {
    match a.home {
        Some(home) => seq![
            SourceData {
                agent: AgentId::Zcode,
                kind: MemorySourceKind::ProjectTree,
                path: paths::joined(home, MEMORIES_REL@, a.windows),
            },
        ],
        None => seq![],
    }
}

/// The file that a session is in; `exists` tells whether its path is a file of its own.
pub open spec fn file_of(file_path: Seq<char>, exists: bool) -> Seq<char> {
    if exists {
        file_path
    } else {
        text::before_last(file_path, '#')
    }
}

/// The sessions that are listed: those with content that are not to be left out.
pub open spec fn is_listed(row: RowData, hidden: Set<Seq<char>>) -> bool {
    row.content_len > 0 && !hidden.contains(row.id)
}

/// A listed session.
pub open spec fn ref_of(db: Seq<char>, row: RowData) -> FileRefData {
    FileRefData {
        agent: AgentId::Zcode,
        native_id: row.id,
        file_path: sqlite_ro::virtual_path_of(db, row.id),
        mtime_ms: row.updated_ms,
        size: row.content_len,
    }
}

/// The listed sessions among some, in order.
pub open spec fn listed(
    db: Seq<char>,
    rows: Seq<RowData>,
    hidden: Set<Seq<char>>,
) -> Seq<FileRefData>
    decreases rows.len(),
{
    if rows.len() == 0 {
        seq![]
    } else {
        let before = listed(db, rows.drop_last(), hidden);
        if is_listed(rows.last(), hidden) {
            before.push(ref_of(db, rows.last()))
        } else {
            before
        }
    }
}

/// The sessions that an adapter lists; `None` where the database is there but was never read.
pub open spec fn listing_of(a: AdapterData, db_is_file: bool) -> Option<Seq<FileRefData>> {
    match a.rows {
        Some((_, rows)) => Some(listed(a.db, rows, hidden_ids(a))),
        None => if db_is_file {
            None
        } else {
            Some(seq![])
        },
    }
}

/// What reading a session comes to.
pub enum ReadingData {
    Outside,
    CannotOpen,
    NotInDb(Seq<char>),
    Row(RowData),
}

/// What reading the session `id` comes to, given whether it belongs to the database and what looking
/// it up there came to.
pub open spec fn reading_of(
    inside: bool,
    found: Option<Seq<RowData>>,
    id: Seq<char>,
) -> ReadingData {
    if !inside {
        ReadingData::Outside
    } else {
        match found {
            None => ReadingData::CannotOpen,
            Some(rows) => if rows.len() == 0 {
                ReadingData::NotInDb(id)
            } else {
                ReadingData::Row(rows[0])
            },
        }
    }
}

/// The sessions that an adapter leaves out, as far as it knows.
pub open spec fn hidden_ids(a: AdapterData) -> Set<Seq<char>> {
    match (a.tasks_db, a.hidden) {
        (Some(_), Some((_, ids))) => ids,
        _ => Set::empty(),
    }
}

/// The directory that each hash stands for, the last of several.
pub open spec fn workspaces_of(rows: Seq<RowData>, windows: bool) -> Map<Seq<char>, Seq<char>>
    decreases rows.len(),
{
    if rows.len() == 0 {
        Map::empty()
    } else {
        workspaces_of(rows.drop_last(), windows).insert(
            dir_hash(rows.last().directory, windows),
            rows.last().directory,
        )
    }
}

/// The project of a memory directory: the workspace whose hash stands behind the last `-` of its
/// name, and none where there is no such workspace.
pub open spec fn project_of(
    workspaces: Map<Seq<char>, Seq<char>>,
    name: Option<Seq<char>>,
) -> Seq<char> {
    match name {
        Some(n) => match text::last_position(n, '-') {
            Some(i) => if workspaces.contains_key(n.skip(i + 1)) {
                workspaces[n.skip(i + 1)]
            } else {
                seq![]
            },
            None => seq![],
        },
        None => seq![],
    }
}

/// The directory that each hash stands for.
pub struct Workspaces {
    map: StringHashMap<String>,
}

impl View for Workspaces {
    type V = Map<Seq<char>, Seq<char>>;

    closed spec fn view(&self) -> Map<Seq<char>, Seq<char>> {
        self.map@.map_values(|s: String| s@)
    }
}

impl Workspaces {
    /// The directory that a hash stands for.
    pub fn get(&self, hash: &str) -> (r: Option<String>)
        ensures
            r.deep_view() == (if self@.contains_key(hash@) {
                Some(self@[hash@])
            } else {
                None
            }),
    {
        match self.map.get(hash) {
            Some(directory) => Some(directory.clone()),
            None => None,
        }
    }
}

impl ZcodeAdapter {
    /// The adapter of the agent's directory.
    pub fn from_home(home: String, windows: bool) -> (r: Self)
        ensures
            r@ == home_adapter(home@, windows),
    {
        ZcodeAdapter {
            db: join(home.as_str(), DB_REL, windows),
            tasks_db: Some(join(home.as_str(), TASKS_REL, windows)),
            home: Some(home),
            windows,
            rows_cache: MtimeCache::new(),
            hidden_cache: MtimeCache::new(),
        }
    }

    /// The adapter of a bare copy of the database.
    pub fn from_db(db: String, windows: bool) -> (r: Self)
        ensures
            r@ == db_adapter(db@, windows),
    {
        ZcodeAdapter {
            db,
            tasks_db: None,
            home: None,
            windows,
            rows_cache: MtimeCache::new(),
            hidden_cache: MtimeCache::new(),
        }
    }

    /// Where the database is in a directory that the environment names.
    pub fn storage_db(dir: &str, windows: bool) -> (r: String)
        ensures
            r@ == paths::joined(dir@, DB_REL@, windows),
    {
        join(dir, DB_REL, windows)
    }

    /// The adapter for this machine: `env_dir` is the directory that the environment names, and
    /// `env_has_db` tells whether the database is in it.
    pub fn new(
        env_dir: Option<String>,
        env_has_db: bool,
        home_dir: Option<String>,
        windows: bool,
    ) -> (r: Self)
        ensures
            r@ == home_adapter(
                chosen_home(env_dir.deep_view(), env_has_db, home_dir.deep_view(), windows),
                windows,
            ),
    {
        match env_dir {
            Some(dir) => if env_has_db {
                return ZcodeAdapter::from_home(dir, windows);
            },
            None => {},
        }
        let home = join(or_empty(home_dir).as_str(), HOME_DIR_NAME, windows);
        ZcodeAdapter::from_home(home, windows)
    }

    /// The adapter for a path that the user has picked, by the shape of the path alone: a bare copy
    /// of the database by its file name, else the agent's directory.
    pub fn with_custom_root(&self, dir: String) -> (r: Self)
        ensures
            r@ == (if paths::name_of(dir@, self@.windows) == Some("db.sqlite"@) {
                db_adapter(dir@, self@.windows)
            } else {
                home_adapter(dir@, self@.windows)
            }),
            r@ == picked_adapter(dir@, self@.windows),
    {
        let bare = match file_name(dir.as_str(), self.windows) {
            Some(name) => same_text(name.as_str(), "db.sqlite"),
            None => false,
        };
        if bare {
            ZcodeAdapter::from_db(dir, self.windows)
        } else {
            ZcodeAdapter::from_home(dir, self.windows)
        }
    }

    /// The agent.
    pub fn agent(&self) -> (r: AgentId)
        ensures
            r == AgentId::Zcode,
    {
        AgentId::Zcode
    }

    /// The files that hold sessions.
    pub fn data_roots(&self) -> (r: Vec<String>)
        ensures
            r.deep_view() == seq![self@.db],
    {
        let mut v: Vec<String> = Vec::new();
        v.push(self.db.clone());
        assert(v.deep_view() =~= seq![self@.db]);
        v
    }

    /// The task index, where there is one to look for.
    pub fn tasks_db(&self) -> (r: Option<String>)
        ensures
            r.deep_view() == self@.tasks_db,
    {
        clone_opt(&self.tasks_db)
    }

    /// The places that hold memories: one tree, where there is a home.
    pub fn memory_sources(&self) -> (r: Vec<MemorySource>)
        ensures
            r.deep_view() == (match self@.home {
                Some(home) => seq![
                    SourceData {
                        agent: AgentId::Zcode,
                        kind: MemorySourceKind::ProjectTree,
                        path: paths::joined(home, MEMORIES_REL@, self@.windows),
                    },
                ],
                None => seq![],
            }),
            r.deep_view() == sources_of(self@),
    {
        let mut v: Vec<MemorySource> = Vec::new();
        assert(v.deep_view() =~= seq![]);
        if let Some(home) = &self.home {
            v.push(
                MemorySource {
                    agent: AgentId::Zcode,
                    kind: MemorySourceKind::ProjectTree,
                    path: join(home.as_str(), MEMORIES_REL, self.windows),
                },
            );
            assert(v.deep_view() =~= seq![v@[0].deep_view()]);
        }
        v
    }

    /// Whether the sessions have to be read again at `stamp`.
    pub fn rows_are_stale(&self, stamp: i64) -> (r: bool)
        ensures
            r == !(self@.rows matches Some(e) && e.0 == stamp),
    {
        self.rows_cache.is_stale(stamp)
    }

    /// Takes in what reading the sessions at `stamp` came to, `None` where they could not be read:
    /// then what was read before stands.
    pub fn rows(&mut self, stamp: i64, built: Option<Vec<ZcRow>>)
        ensures
            final(self)@ == (AdapterData {
                rows: mtime_cache::entry_after(old(self)@.rows, stamp, built.deep_view()),
                ..old(self)@
            }),
    {
        let ghost before = self@;
        let _ = self.rows_cache.get_or_stale(stamp, built);
        assert(self@ =~= AdapterData {
            rows: mtime_cache::entry_after(before.rows, stamp, built.deep_view()),
            ..before
        });
    }

    /// Whether the sessions to leave out have to be read again at `stamp`.
    pub fn hidden_is_stale(&self, stamp: i64) -> (r: bool)
        ensures
            r == (self@.tasks_db is Some && !(self@.hidden matches Some(e) && e.0 == stamp)),
    {
        self.tasks_db.is_some() && self.hidden_cache.is_stale(stamp)
    }

    /// Takes in what reading the sessions to leave out came to at `stamp`, `None` where they are
    /// not known: then what was known before stands. Without a task index there is nothing to take
    /// in.
    pub fn hidden(&mut self, stamp: i64, built: Option<Names>)
        ensures
            old(self)@.tasks_db is None ==> final(self)@ == old(self)@,
            old(self)@.tasks_db is Some ==> final(self)@ == (AdapterData {
                hidden: mtime_cache::entry_after(
                    old(self)@.hidden,
                    stamp,
                    match built {
                        Some(ids) => Some(ids@),
                        None => None,
                    },
                ),
                ..old(self)@
            }),
    {
        if self.tasks_db.is_some() {
            let ghost before = self@;
            let _ = self.hidden_cache.get_or_stale(stamp, built);
            assert(self@ =~= AdapterData {
                hidden: mtime_cache::entry_after(
                    before.hidden,
                    stamp,
                    match built {
                        Some(ids) => Some(ids@),
                        None => None,
                    },
                ),
                ..before
            });
        }
    }

    fn is_hidden(&self, id: &str) -> (r: bool)
        ensures
            r == hidden_ids(self@).contains(id@),
    {
        if self.tasks_db.is_none() {
            return false;
        }
        match self.hidden_cache.value() {
            Some(ids) => ids.contains(id),
            None => false,
        }
    }

    /// The sessions: those with content that are not to be left out. A database that is not there
    /// has none; one that is there but was never read has none to offer either, and that is an
    /// error, for an empty list would mean that all sessions are gone.
    pub fn list_session_files(&self, db_is_file: bool) -> (r: Result<
        Vec<SessionFileRef>,
        ZcError,
    >)
        ensures
            match self@.rows {
                Some((_, rows)) => r matches Ok(v) && v.deep_view() == listed(
                    self@.db,
                    rows,
                    hidden_ids(self@),
                ),
                None => if db_is_file {
                    r matches Err(ZcError::Unreadable(p)) && p@ == self@.db
                } else {
                    r matches Ok(v) && v@.len() == 0
                },
            },
            match listing_of(self@, db_is_file) {
                Some(all) => r matches Ok(v) && v.deep_view() == all,
                None => r is Err,
            },
    {
        let mut refs: Vec<SessionFileRef> = Vec::new();
        match self.rows_cache.value() {
            None => if db_is_file {
                return Err(ZcError::Unreadable(self.db.clone()));
            },
            Some(rows) => {
                let ghost all = rows.deep_view();
                let ghost gone = hidden_ids(self@);
                let mut i: usize = 0;
                assert(refs.deep_view() =~= seq![]);
                while i < rows.len()
                    invariant
                        i <= rows.len(),
                        all == rows.deep_view(),
                        gone == hidden_ids(self@),
                        refs.deep_view() == listed(self@.db, all.take(i as int), gone),
                    decreases rows.len() - i,
                {
                    let row = &rows[i];
                    proof {
                        assert(all.take(i + 1).drop_last() =~= all.take(i as int));
                        assert(all.take(i + 1).last() == row.deep_view());
                    }
                    if row.content_len > 0 && !self.is_hidden(row.id.as_str()) {
                        let ghost before = refs.deep_view();
                        let next = SessionFileRef {
                            agent: AgentId::Zcode,
                            native_id: row.id.clone(),
                            file_path: virtual_path(self.db.as_str(), row.id.as_str()),
                            mtime_ms: row.updated_ms,
                            size: row.content_len,
                        };
                        refs.push(next);
                        assert(refs.deep_view() =~= before.push(next.deep_view()));
                    }
                    i = i + 1;
                }
                assert(all.take(all.len() as int) =~= all);
            },
        }
        Ok(refs)
    }

    /// Whether a session belongs to this database; `exists` tells whether its path is a file of its
    /// own.
    pub fn owns(&self, r: &SessionFileRef, exists: bool) -> (b: bool)
        ensures
            b == paths::same(
                if exists {
                    r.file_path@
                } else {
                    text::before_last(r.file_path@, '#')
                },
                self@.db,
                self@.windows,
            ),
            b == paths::same(file_of(r.file_path@, exists), self@.db, self@.windows),
    {
        let file = strip_virtual_path(r.file_path.as_str(), exists);
        same_path(file, self.db.as_str(), self.windows)
    }

    /// The row of a session that is to be read: `exists` tells whether its path is a file of its
    /// own, and `found` is what looking it up in the database came to, `None` where the database
    /// cannot be opened.
    pub fn parse(
        &self,
        r: &SessionFileRef,
        exists: bool,
        found: Option<Vec<ZcRow>>,
    ) -> (row: Result<ZcRow, ZcError>)
        ensures
            ({
                let file = if exists {
                    r.file_path@
                } else {
                    text::before_last(r.file_path@, '#')
                };
                if !paths::same(file, self@.db, self@.windows) {
                    row matches Err(ZcError::OutsideRoots)
                } else {
                    match found {
                        None => row matches Err(ZcError::CannotOpen),
                        Some(rows) => if rows@.len() == 0 {
                            row matches Err(ZcError::NotInDb(id)) && id@ == r.native_id@
                        } else {
                            row == Ok::<ZcRow, ZcError>(rows@[0])
                        },
                    }
                }
            }),
            match reading_of(
                paths::same(file_of(r.file_path@, exists), self@.db, self@.windows),
                found.deep_view(),
                r.native_id@,
            ) {
                ReadingData::Outside => row matches Err(ZcError::OutsideRoots),
                ReadingData::CannotOpen => row matches Err(ZcError::CannotOpen),
                ReadingData::NotInDb(id) => row matches Err(ZcError::NotInDb(x)) && x@ == id,
                ReadingData::Row(data) => row matches Ok(x) && x.deep_view() == data,
            },
            row is Ok ==> paths::same(file_of(r.file_path@, exists), self@.db, self@.windows) && (
            found matches Some(rows) && rows@.len() > 0),
    {
        if !self.owns(r, exists) {
            return Err(ZcError::OutsideRoots);
        }
        match found {
            None => Err(ZcError::CannotOpen),
            Some(rows) => {
                let mut rows = rows;
                if rows.len() > 0 {
                    return Ok(rows.remove(0));
                }
                Err(ZcError::NotInDb(r.native_id.clone()))
            },
        }
    }

    /// The directory that each hash stands for, by the sessions last read.
    pub fn workspaces(&self) -> (r: Workspaces)
        ensures
            r@ == workspaces_of(
                match self@.rows {
                    Some((_, rows)) => rows,
                    None => seq![],
                },
                self@.windows,
            ),
    {
        let windows = self.windows;
        let mut out: StringHashMap<String> = StringHashMap::new();
        let ghost value = |s: String| s@;
        assert(out@.map_values(value) =~= Map::empty());
        if let Some(rows) = self.rows_cache.value() {
            let ghost all = rows.deep_view();
            let mut i: usize = 0;
            while i < rows.len()
                invariant
                    i <= rows.len(),
                    all == rows.deep_view(),
                    value == (|s: String| s@),
                    out@.map_values(value) == workspaces_of(all.take(i as int), windows),
                decreases rows.len() - i,
            {
                let ghost before = out@;
                let directory = rows[i].directory.clone();
                let hash = memory_dir_hash(directory.as_str(), windows);
                out.insert(hash, directory);
                proof {
                    assert(all.take(i + 1).drop_last() =~= all.take(i as int));
                    assert(all.take(i + 1).last() == rows@[i as int].deep_view());
                    assert(out@.map_values(value) =~= before.map_values(value).insert(
                        hash@,
                        directory@,
                    ));
                }
                i = i + 1;
            }
            assert(all.take(all.len() as int) =~= all);
        }
        Workspaces { map: out }
    }
}

/// What the memories of a directory called `name` hang on: a project path alone.
pub fn tree_unit(workspaces: &Workspaces, name: Option<&str>) -> (r: TreeUnit)
    ensures
        r.session_key@.len() == 0,
        r.project_path@ == project_of(
            workspaces@,
            match name {
                Some(n) => Some(n@),
                None => None,
            },
        ),
{
    let mut project_path = or_empty(None);
    if let Some(n) = name {
        if let Some(i) = find_last(n, '-') {
            let len: usize = chars_of(n).len();
            let hash = n.substring_char(i + 1, len);
            assert(hash@ =~= n@.skip(i + 1));
            if let Some(directory) = workspaces.get(hash) {
                project_path = directory;
            }
        }
    }
    TreeUnit { session_key: or_empty(None), project_path }
}

}
