//! Reading the SQLite databases of other programs without ever writing to them.
//!
//! A database is opened read-only where it is and probed. Where that fails, it is copied to a
//! temporary directory and the copy is opened, and where that fails too it is not read at all.
use crate::paths;
use crate::paths::join;
use crate::text;
use crate::text::{concat2, concat3, decimal_of, find_last, hex_padded_of};
use vstd::hash_set::StringHashSet;
use vstd::prelude::*;
use vstd::string::{StrSliceExecFns, StringExecFns};

verus! {

/// The path under which a session of the database `db` is known: it is no file of its own.
pub open spec fn virtual_path_of(db: Seq<char>, id: Seq<char>) -> Seq<char> {
    db + "#"@ + id
}

/// The path under which the session `id` of the database `db` is known.
pub fn virtual_path(db: &str, id: &str) -> (r: String)
    ensures
        r@ == virtual_path_of(db@, id@),
{
    concat3(db, "#", id)
}

/// The file behind a path: what exists is itself, anything else loses what stands behind its last
/// `#`, and that `#`.
pub fn strip_virtual_path<'a>(path: &'a str, exists: bool) -> (r: &'a str)
    ensures
        r@ == (if exists {
            path@
        } else {
            text::before_last(path@, '#')
        }),
{
    if exists {
        path
    } else {
        match find_last(path, '#') {
            Some(i) => {
                assert(path@.subrange(0, i as int) =~= path@.take(i as int));
                path.substring_char(0, i)
            },
            None => path,
        }
    }
}

/// The database is found again behind the path of a session, as long as the id of the session has
/// no `#` in it.
pub proof fn law_strip_undoes_virtual(db: Seq<char>, id: Seq<char>)
    requires
        !id.contains('#'),
    ensures
        text::before_last(virtual_path_of(db, id), '#') == db,
{
    let path = virtual_path_of(db, id);
    reveal_strlit("#");
    text::lemma_last_position(path, '#');
    assert(path[db.len() as int] == '#');
    let i = text::last_position(path, '#')->0;
    if i > db.len() {
        assert(path[i] == id[i - db.len() - 1]);
        assert(id.contains('#'));
    }
    assert(path.take(db.len() as int) =~= db);
}

/// The file beside a database that takes its newest writes.
pub fn wal_path(db: &str) -> (r: String)
    ensures
        r@ == db@ + "-wal"@,
{
    concat2(db, "-wal")
}

/// The stamp that tells whether a database has changed: the newer of its own time and that of its
/// write-ahead log, a file that is not there counting as zero.
pub open spec fn newer_stamp(db: Option<i64>, wal: Option<i64>) -> i64 {
    let (a, b) = (db.unwrap_or(0), wal.unwrap_or(0));
    if a >= b {
        a
    } else {
        b
    }
}

/// The stamp that tells whether a database has changed, from the times of the database and of its
/// write-ahead log.
pub fn db_cache_stamp(db: Option<i64>, wal: Option<i64>) -> (r: i64)
    ensures
        r == newer_stamp(db, wal),
{
    let a: i64 = match db {
        Some(t) => t,
        None => 0,
    };
    let b: i64 = match wal {
        Some(t) => t,
        None => 0,
    };
    if a >= b {
        a
    } else {
        b
    }
}

/// A set of names.
pub struct Names {
    set: StringHashSet,
}

impl View for Names {
    type V = Set<Seq<char>>;

    closed spec fn view(&self) -> Set<Seq<char>> {
        self.set@
    }
}

impl Names {
    /// The set that holds no name.
    pub fn new() -> (r: Names)
        ensures
            r@ == Set::<Seq<char>>::empty(),
    {
        Names { set: StringHashSet::new() }
    }

    /// Whether a name is in the set.
    pub fn contains(&self, name: &str) -> (r: bool)
        ensures
            r == self@.contains(name@),
    {
        self.set.contains(name)
    }

    /// Adds a name.
    pub fn insert(&mut self, name: String)
        ensures
            final(self)@ == old(self)@.insert(name@),
    {
        self.set.insert(name);
    }
}

/// The query that lists the columns of a table.
pub open spec fn columns_query(table: Seq<char>) -> Seq<char> {
    "PRAGMA table_info("@ + table + ")"@
}

/// The query that lists the columns of a table.
pub fn table_info_sql(table: &str) -> (r: String)
    ensures
        r@ == columns_query(table@),
{
    concat3("PRAGMA table_info(", table, ")")
}

/// The names among some rows, of which those that could not be read are missing.
pub open spec fn names_read(rows: Seq<Option<Seq<char>>>) -> Set<Seq<char>> {
    Set::new(|name: Seq<char>| rows.contains(Some(name)))
}

/// The columns that a table has, from the rows of its listing: a row that could not be read is
/// passed over, and a table that could not be listed has none.
pub fn table_columns(rows: Vec<Option<String>>) -> (r: Names)
    ensures
        r@ == names_read(rows.deep_view()),
{
    let mut names = Names::new();
    let ghost all = rows.deep_view();
    let ghost raw = rows@;
    assert(names@ =~= names_read(all.take(0)));
    for row in it: rows
        invariant
            it.seq() == raw,
            all == raw.map_values(|o: Option<String>| o.deep_view()),
            names@ == names_read(all.take(it.index() as int)),
    {
        let ghost n = it.index() as int;
        let ghost before = all.take(n);
        let ghost after = all.take(n + 1);
        proof {
            assert(after =~= before.push(row.deep_view()));
            assert forall|name: Seq<char>| #[trigger] after.contains(Some(name)) <==> (before.contains(
                Some(name),
            ) || row.deep_view() == Some(name)) by {
                if before.contains(Some(name)) {
                    let k = choose|k: int| 0 <= k < before.len() && before[k] == Some(name);
                    assert(after[k] == Some(name));
                }
                if row.deep_view() == Some(name) {
                    assert(after[n] == Some(name));
                }
                if after.contains(Some(name)) {
                    let k = choose|k: int| 0 <= k < after.len() && after[k] == Some(name);
                    if k < n {
                        assert(before[k] == Some(name));
                    }
                }
            }
        }
        if let Some(name) = row {
            names.insert(name);
        }
        assert(names@ =~= names_read(after));
    }
    assert(all.take(all.len() as int) =~= all);
    names
}

/// The name of the temporary directory for the copy of a database. `path_hash` is a hash of the
/// database's path.
pub open spec fn temp_name(tag: Seq<char>, pid: u32, path_hash: u64) -> Seq<char> {
    "wake-"@ + tag + "-"@ + text::decimal(pid as nat) + "-"@ + text::hex_padded(
        path_hash as int,
        16,
    )
}

/// The name of the temporary directory for the copy of a database.
pub fn temp_dir_name(tag: &str, pid: u32, path_hash: u64) -> (r: String)
    ensures
        r@ == temp_name(tag@, pid, path_hash),
{
    let mut out = concat3("wake-", tag, "-");
    out.append(decimal_of(pid as u64).as_str());
    out.append("-");
    out.append(hex_padded_of(path_hash, 16).as_str());
    out
}

/// Two processes, or two databases whose paths hash differently, never share a temporary directory
/// under one tag.
pub proof fn law_temp_names_differ(tag: Seq<char>, p1: u32, h1: u64, p2: u32, h2: u64)
    requires
        temp_name(tag, p1, h1) == temp_name(tag, p2, h2),
    ensures
        p1 == p2,
        h1 == h2,
{
    lemma_temp_name_parts(tag, p1, h1);
    lemma_temp_name_parts(tag, p2, h2);
    let n = temp_name(tag, p1, h1);
    let head = ("wake-"@ + tag + "-"@).len() as int;
    assert(text::decimal(p1 as nat) == n.subrange(head, n.len() - 17));
    assert(text::decimal(p2 as nat) == n.subrange(head, n.len() - 17));
    text::law_decimal_tells_numbers_apart(p1 as nat, p2 as nat);
    text::lemma_sixteen_digits_hold_a_word();
    text::law_hex_padded_tells_numbers_apart(h1 as int, h2 as int, 16);
}

/// Within one process, two tags never share a temporary directory.
pub proof fn law_tags_keep_databases_apart(
    t1: Seq<char>,
    t2: Seq<char>,
    pid: u32,
    h1: u64,
    h2: u64,
)
    requires
        temp_name(t1, pid, h1) == temp_name(t2, pid, h2),
    ensures
        t1 == t2,
{
    lemma_temp_name_parts(t1, pid, h1);
    lemma_temp_name_parts(t2, pid, h2);
    let n = temp_name(t1, pid, h1);
    let tail = text::decimal(pid as nat).len() + 18;
    assert(t1 == n.subrange(5, n.len() - tail));
    assert(t2 == n.subrange(5, n.len() - tail));
}

proof fn lemma_temp_name_parts(tag: Seq<char>, pid: u32, hash: u64)
    ensures
        ({
            let n = temp_name(tag, pid, hash);
            let digits = text::decimal(pid as nat);
            let head = ("wake-"@ + tag + "-"@).len() as int;
            &&& tag == n.subrange(5, n.len() - (digits.len() + 18))
            &&& digits == n.subrange(head, n.len() - 17)
            &&& text::hex_padded(hash as int, 16) == n.skip(n.len() - 16)
        }),
{
    let n = temp_name(tag, pid, hash);
    let digits = text::decimal(pid as nat);
    let head = "wake-"@ + tag + "-"@;
    reveal_strlit("-");
    reveal_strlit("wake-");
    text::lemma_hex_padded_len(hash as int, 16);
    assert(n =~= head + digits + "-"@ + text::hex_padded(hash as int, 16));
    assert(tag =~= n.subrange(5, n.len() - (digits.len() + 18)));
    assert(digits =~= n.subrange(head.len() as int, n.len() - 17));
    assert(text::hex_padded(hash as int, 16) =~= n.skip(n.len() - 16));
}

/// The query that a database opened in place has to answer.
pub const PROBE_SQL: &'static str = "SELECT count(*) FROM sqlite_master";

/// How far the opening of a database has come.
#[derive(Clone, Copy, PartialEq, Eq, Structural, Debug)]
pub enum OpenStage {
    Look,
    Direct,
    MakeDir,
    CopyDb,
    LookWal,
    CopyWal,
    LookShm,
    CopyShm,
    OpenCopy,
    OpenedDirect,
    OpenedCopy,
    /// Given up before there was a temporary directory.
    Refused,
    /// Given up after there was one: it is to be removed.
    RefusedCopy,
}

/// What has to be done next to open a database, and answered by whether it worked.
pub enum OpenAsk {
    /// Tell whether there is a file.
    IsFile(String),
    /// Open a database read-only, and put [`PROBE_SQL`] to it if `probe` says so.
    Open { path: String, probe: bool },
    /// Make a directory, and those above it.
    MakeDir(String),
    /// Copy a file.
    Copy { from: String, to: String },
    /// Nothing: it is open. The directory is to be removed when the database is closed.
    Opened { remove: Option<String> },
    /// Nothing: it cannot be read. The directory is to be removed now.
    GiveUp { remove: Option<String> },
}

/// What an [`OpenAsk`] holds.
pub enum AskData {
    IsFile(Seq<char>),
    Open { path: Seq<char>, probe: bool },
    MakeDir(Seq<char>),
    Copy { from: Seq<char>, to: Seq<char> },
    Opened { remove: Option<Seq<char>> },
    GiveUp { remove: Option<Seq<char>> },
}

impl DeepView for OpenAsk {
    type V = AskData;

    open spec fn deep_view(&self) -> AskData {
        match self {
            OpenAsk::IsFile(p) => AskData::IsFile(p@),
            OpenAsk::Open { path, probe } => AskData::Open { path: path@, probe: *probe },
            OpenAsk::MakeDir(p) => AskData::MakeDir(p@),
            OpenAsk::Copy { from, to } => AskData::Copy { from: from@, to: to@ },
            OpenAsk::Opened { remove } => AskData::Opened { remove: remove.deep_view() },
            OpenAsk::GiveUp { remove } => AskData::GiveUp { remove: remove.deep_view() },
        }
    }
}

/// What a stage asks for, on the way to open `db` with `tmp` for a copy.
pub open spec fn ask_of(
    stage: OpenStage,
    db: Seq<char>,
    tmp: Seq<char>,
    windows: bool,
) -> AskData {
    match stage {
        OpenStage::Look => AskData::IsFile(db),
        OpenStage::Direct => AskData::Open { path: db, probe: true },
        OpenStage::MakeDir => AskData::MakeDir(tmp),
        OpenStage::CopyDb => AskData::Copy {
            from: db,
            to: paths::joined(tmp, "db.sqlite"@, windows),
        },
        OpenStage::LookWal => AskData::IsFile(db + "-wal"@),
        OpenStage::CopyWal => AskData::Copy {
            from: db + "-wal"@,
            to: paths::joined(tmp, "db.sqlite"@ + "-wal"@, windows),
        },
        OpenStage::LookShm => AskData::IsFile(db + "-shm"@),
        OpenStage::CopyShm => AskData::Copy {
            from: db + "-shm"@,
            to: paths::joined(tmp, "db.sqlite"@ + "-shm"@, windows),
        },
        OpenStage::OpenCopy => AskData::Open {
            path: paths::joined(tmp, "db.sqlite"@, windows),
            probe: false,
        },
        OpenStage::OpenedDirect => AskData::Opened { remove: None },
        OpenStage::OpenedCopy => AskData::Opened { remove: Some(tmp) },
        OpenStage::Refused => AskData::GiveUp { remove: None },
        OpenStage::RefusedCopy => AskData::GiveUp { remove: Some(tmp) },
    }
}

/// The stage that follows, given whether what was asked for worked. The side files of a database
/// need not be there, and a copy of one need not work.
pub open spec fn stage_after(stage: OpenStage, ok: bool) -> OpenStage {
    match stage {
        OpenStage::Look => if ok { OpenStage::Direct } else { OpenStage::Refused },
        OpenStage::Direct => if ok { OpenStage::OpenedDirect } else { OpenStage::MakeDir },
        OpenStage::MakeDir => if ok { OpenStage::CopyDb } else { OpenStage::Refused },
        OpenStage::CopyDb => if ok { OpenStage::LookWal } else { OpenStage::RefusedCopy },
        OpenStage::LookWal => if ok { OpenStage::CopyWal } else { OpenStage::LookShm },
        OpenStage::CopyWal => OpenStage::LookShm,
        OpenStage::LookShm => if ok { OpenStage::CopyShm } else { OpenStage::OpenCopy },
        OpenStage::CopyShm => OpenStage::OpenCopy,
        OpenStage::OpenCopy => if ok { OpenStage::OpenedCopy } else { OpenStage::RefusedCopy },
        OpenStage::OpenedDirect => stage,
        OpenStage::OpenedCopy => stage,
        OpenStage::Refused => stage,
        OpenStage::RefusedCopy => stage,
    }
}

/// The opening of a database.
pub struct SqliteOpening {
    db: String,
    tmp: String,
    windows: bool,
    stage: OpenStage,
}

/// What a [`SqliteOpening`] holds.
pub struct OpeningData {
    pub db: Seq<char>,
    pub tmp: Seq<char>,
    pub windows: bool,
    pub stage: OpenStage,
}

impl View for SqliteOpening {
    type V = OpeningData;

    closed spec fn view(&self) -> OpeningData {
        OpeningData {
            db: self.db@,
            tmp: self.tmp@,
            windows: self.windows,
            stage: self.stage,
        }
    }
}

/// Begins to open `db` read-only, with `tmp` as the directory for a copy.
pub fn open_sqlite_ro(db: String, tmp: String, windows: bool) -> (r: SqliteOpening)
    ensures
        r@ == (OpeningData { db: db@, tmp: tmp@, windows, stage: OpenStage::Look }),
{
    SqliteOpening { db, tmp, windows, stage: OpenStage::Look }
}

impl SqliteOpening {
    /// What has to be done next.
    pub fn ask(&self) -> (r: OpenAsk)
        ensures
            r.deep_view() == ask_of(self@.stage, self@.db, self@.tmp, self@.windows),
    {
        match self.stage {
            OpenStage::Look => OpenAsk::IsFile(self.db.clone()),
            OpenStage::Direct => OpenAsk::Open { path: self.db.clone(), probe: true },
            OpenStage::MakeDir => OpenAsk::MakeDir(self.tmp.clone()),
            OpenStage::CopyDb => OpenAsk::Copy {
                from: self.db.clone(),
                to: join(self.tmp.as_str(), "db.sqlite", self.windows),
            },
            OpenStage::LookWal => OpenAsk::IsFile(concat2(self.db.as_str(), "-wal")),
            OpenStage::CopyWal => self.copy_side("-wal"),
            OpenStage::LookShm => OpenAsk::IsFile(concat2(self.db.as_str(), "-shm")),
            OpenStage::CopyShm => self.copy_side("-shm"),
            OpenStage::OpenCopy => OpenAsk::Open {
                path: join(self.tmp.as_str(), "db.sqlite", self.windows),
                probe: false,
            },
            OpenStage::OpenedDirect => OpenAsk::Opened { remove: None },
            OpenStage::OpenedCopy => OpenAsk::Opened { remove: Some(self.tmp.clone()) },
            OpenStage::Refused => OpenAsk::GiveUp { remove: None },
            OpenStage::RefusedCopy => OpenAsk::GiveUp { remove: Some(self.tmp.clone()) },
        }
    }

    fn copy_side(&self, suffix: &str) -> (r: OpenAsk)
        ensures
            r.deep_view() == (AskData::Copy {
                from: self@.db + suffix@,
                to: paths::joined(self@.tmp, "db.sqlite"@ + suffix@, self@.windows),
            }),
    {
        OpenAsk::Copy {
            from: concat2(self.db.as_str(), suffix),
            to: join(
                self.tmp.as_str(),
                concat2("db.sqlite", suffix).as_str(),
                self.windows,
            ),
        }
    }

    /// Goes on, told whether what was asked for worked.
    pub fn told(&mut self, ok: bool)
        ensures
            final(self)@ == (OpeningData {
                stage: stage_after(old(self)@.stage, ok),
                ..old(self)@
            }),
    {
        self.stage = match self.stage {
            OpenStage::Look => if ok {
                OpenStage::Direct
            } else {
                OpenStage::Refused
            },
            OpenStage::Direct => if ok {
                OpenStage::OpenedDirect
            } else {
                OpenStage::MakeDir
            },
            OpenStage::MakeDir => if ok {
                OpenStage::CopyDb
            } else {
                OpenStage::Refused
            },
            OpenStage::CopyDb => if ok {
                OpenStage::LookWal
            } else {
                OpenStage::RefusedCopy
            },
            OpenStage::LookWal => if ok {
                OpenStage::CopyWal
            } else {
                OpenStage::LookShm
            },
            OpenStage::CopyWal => OpenStage::LookShm,
            OpenStage::LookShm => if ok {
                OpenStage::CopyShm
            } else {
                OpenStage::OpenCopy
            },
            OpenStage::CopyShm => OpenStage::OpenCopy,
            OpenStage::OpenCopy => if ok {
                OpenStage::OpenedCopy
            } else {
                OpenStage::RefusedCopy
            },
            done => done,
        };
    }
}

/// The stage after a run of answers.
pub open spec fn stage_after_all(answers: Seq<bool>) -> OpenStage
    decreases answers.len(),
{
    if answers.len() == 0 {
        OpenStage::Look
    } else {
        stage_after(stage_after_all(answers.drop_last()), answers.last())
    }
}

/// Whether nothing more is asked for.
pub open spec fn is_over(stage: OpenStage) -> bool {
    stage == OpenStage::OpenedDirect || stage == OpenStage::OpenedCopy || stage
        == OpenStage::Refused || stage == OpenStage::RefusedCopy
}

/// How many answers may still be needed.
pub open spec fn answers_left(stage: OpenStage) -> nat {
    match stage {
        OpenStage::Look => 9,
        OpenStage::Direct => 8,
        OpenStage::MakeDir => 7,
        OpenStage::CopyDb => 6,
        OpenStage::LookWal => 5,
        OpenStage::CopyWal => 4,
        OpenStage::LookShm => 3,
        OpenStage::CopyShm => 2,
        OpenStage::OpenCopy => 1,
        _ => 0,
    }
}

/// Opening a database comes to an end, whatever the answers: each brings it nearer.
pub proof fn law_opening_ends(stage: OpenStage, ok: bool)
    ensures
        is_over(stage) <==> answers_left(stage) == 0,
        !is_over(stage) ==> answers_left(stage_after(stage, ok)) < answers_left(stage),
        is_over(stage) ==> stage_after(stage, ok) == stage,
{
}

/// The database of the other program is never written: whatever is made or copied to is the
/// temporary directory or a file in it.
pub proof fn law_only_the_copy_is_written(
    stage: OpenStage,
    db: Seq<char>,
    tmp: Seq<char>,
    windows: bool,
)
    ensures
        ask_of(stage, db, tmp, windows) matches AskData::MakeDir(p) ==> p == tmp,
        ask_of(stage, db, tmp, windows) matches AskData::Copy { from, to } ==> exists|name: Seq<char>|
            paths::is_name(name, windows) && to == #[trigger] paths::joined(tmp, name, windows),
{
    reveal_strlit("db.sqlite");
    reveal_strlit("-wal");
    reveal_strlit("-shm");
    let names = (
        "db.sqlite"@,
        "db.sqlite"@ + "-wal"@,
        "db.sqlite"@ + "-shm"@,
    );
    assert(paths::is_name(names.0, windows));
    assert(paths::is_name(names.1, windows));
    assert(paths::is_name(names.2, windows));
    assert(ask_of(OpenStage::CopyDb, db, tmp, windows)->to == paths::joined(
        tmp,
        names.0,
        windows,
    ));
    assert(ask_of(OpenStage::CopyWal, db, tmp, windows)->to == paths::joined(
        tmp,
        names.1,
        windows,
    ));
    assert(ask_of(OpenStage::CopyShm, db, tmp, windows)->to == paths::joined(
        tmp,
        names.2,
        windows,
    ));
}

/// Whether a stage comes after the temporary directory was made.
pub open spec fn has_dir(stage: OpenStage) -> bool {
    !(stage == OpenStage::Look || stage == OpenStage::Direct || stage == OpenStage::MakeDir
        || stage == OpenStage::OpenedDirect || stage == OpenStage::Refused)
}

/// A temporary directory that was made is named for removal at the end, and one that was not made
/// is not; a database that answers in place is never copied.
pub proof fn law_the_copy_is_cleaned_up(
    answers: Seq<bool>,
    db: Seq<char>,
    tmp: Seq<char>,
    windows: bool,
)
    ensures
        ({
            let stage = stage_after_all(answers);
            &&& has_dir(stage) <==> answers.len() >= 3 && answers[0] && !answers[1] && answers[2]
            &&& ask_of(stage, db, tmp, windows) matches AskData::Opened { remove } ==> remove == (if has_dir(
                stage,
            ) {
                Some(tmp)
            } else {
                None
            })
            &&& ask_of(stage, db, tmp, windows) matches AskData::GiveUp { remove } ==> remove == (if has_dir(
                stage,
            ) {
                Some(tmp)
            } else {
                None
            })
            &&& stage == OpenStage::OpenedDirect <==> answers.len() >= 2 && answers[0] && answers[1]
            &&& stage == OpenStage::Look <==> answers.len() == 0
            &&& stage == OpenStage::Direct <==> answers.len() == 1 && answers[0]
            &&& stage == OpenStage::MakeDir <==> answers.len() == 2 && answers[0] && !answers[1]
        }),
    decreases answers.len(),
{
    if answers.len() > 0 {
        law_the_copy_is_cleaned_up(answers.drop_last(), db, tmp, windows);
    }
}

/// The stamp of a database is never older than the database or its write-ahead log, and is that of
/// one of the two; a file that is not there makes no difference to a time after zero.
pub proof fn law_the_stamp_is_that_of_the_newer_file(db: Option<i64>, wal: Option<i64>)
    ensures
        db matches Some(t) ==> newer_stamp(db, wal) >= t,
        wal matches Some(t) ==> newer_stamp(db, wal) >= t,
        newer_stamp(db, wal) == 0 || db == Some(newer_stamp(db, wal)) || wal == Some(
            newer_stamp(db, wal),
        ),
        newer_stamp(db, wal) == newer_stamp(wal, db),
        newer_stamp(None, None) == 0,
{
}

/// The columns of a table are the names that were read, and no others.
pub proof fn law_columns_are_what_was_read(rows: Seq<Option<Seq<char>>>, name: Seq<char>)
    ensures
        names_read(rows).contains(name) <==> exists|i: int|
            0 <= i < rows.len() && #[trigger] rows[i] == Some(name),
{
    if rows.contains(Some(name)) {
        let i = choose|i: int| 0 <= i < rows.len() && rows[i] == Some(name);
        assert(rows[i] == Some(name));
    }
}

/// How opening goes on: a database that is not there is given up; one that is there is opened in
/// place and has to answer; and only if that fails, a copy of it is made and opened.
pub proof fn law_a_database_is_opened_in_place_or_as_a_copy(
    db: Seq<char>,
    tmp: Seq<char>,
    windows: bool,
)
    ensures
        ({
            let ask = |answers: Seq<bool>| ask_of(stage_after_all(answers), db, tmp, windows);
            let copy = paths::joined(tmp, "db.sqlite"@, windows);
            &&& ask(seq![]) == AskData::IsFile(db)
            &&& ask(seq![false]) == (AskData::GiveUp { remove: None })
            &&& ask(seq![true]) == (AskData::Open { path: db, probe: true })
            &&& ask(seq![true, true]) == (AskData::Opened { remove: None })
            &&& ask(seq![true, false]) == AskData::MakeDir(tmp)
            &&& ask(seq![true, false, false]) == (AskData::GiveUp { remove: None })
            &&& ask(seq![true, false, true]) == (AskData::Copy { from: db, to: copy })
            &&& ask(seq![true, false, true, false]) == (AskData::GiveUp { remove: Some(tmp) })
        }),
{
    let (a, b, c, d) = (
        seq![true],
        seq![true, false],
        seq![true, false, true],
        seq![true, false, true, false],
    );
    reveal_with_fuel(stage_after_all, 5);
    assert(a.drop_last() =~= seq![]);
    assert(seq![false].drop_last() =~= seq![]);
    assert(b.drop_last() =~= a);
    assert(seq![true, true].drop_last() =~= a);
    assert(c.drop_last() =~= b);
    assert(seq![true, false, false].drop_last() =~= b);
    assert(d.drop_last() =~= c);
}

/// A side file of a database that is there is copied beside the copy under the same ending, whether
/// or not that works; then the copy is opened, and is given up, with its directory, if that fails.
pub proof fn law_side_files_come_along(
    stage: OpenStage,
    db: Seq<char>,
    tmp: Seq<char>,
    windows: bool,
    ok: bool,
)
    ensures
        ({
            let now = ask_of(stage, db, tmp, windows);
            let next = ask_of(stage_after(stage, ok), db, tmp, windows);
            let copy = paths::joined(tmp, "db.sqlite"@, windows);
            &&& now matches AskData::IsFile(side) ==> stage != OpenStage::Look ==> {
                &&& side == db + "-wal"@ || side == db + "-shm"@
                &&& ok ==> (next matches AskData::Copy { from, to } && from == side)
                &&& ok && side == db + "-wal"@ ==> next->to == paths::joined(
                    tmp,
                    "db.sqlite"@ + "-wal"@,
                    windows,
                )
                &&& ok && side == db + "-shm"@ ==> next->to == paths::joined(
                    tmp,
                    "db.sqlite"@ + "-shm"@,
                    windows,
                )
                &&& !ok && side == db + "-wal"@ ==> next == AskData::IsFile(db + "-shm"@)
                &&& !ok && side == db + "-shm"@ ==> next == (AskData::Open {
                    path: copy,
                    probe: false,
                })
            }
            &&& now matches AskData::Copy { from, to } ==> stage != OpenStage::CopyDb ==> {
                &&& from == db + "-wal"@ ==> next == AskData::IsFile(db + "-shm"@)
                &&& from == db + "-shm"@ ==> next == (AskData::Open { path: copy, probe: false })
            }
            &&& stage == OpenStage::CopyDb && ok ==> next == AskData::IsFile(db + "-wal"@)
            &&& stage == OpenStage::OpenCopy && ok ==> next == (AskData::Opened {
                remove: Some(tmp),
            })
            &&& stage == OpenStage::OpenCopy && !ok ==> next == (AskData::GiveUp {
                remove: Some(tmp),
            })
        }),
{
    reveal_strlit("-wal");
    reveal_strlit("-shm");
    assert((db + "-wal"@)[db.len() as int + 1] == 'w');
    assert((db + "-shm"@)[db.len() as int + 1] == 's');
}

/// The query for the columns of a table is about that table.
pub proof fn law_columns_are_asked_for_by_table(table: Seq<char>, other: Seq<char>)
    ensures
        columns_query(table) == columns_query(other) ==> table == other,
        text::occurs_in(columns_query(table), table),
{
    let at = "PRAGMA table_info("@.len() as int;
    let q = columns_query(table);
    assert(q.subrange(at, at + table.len()) =~= table);
    assert(text::occurs_at(q, table, at));
    reveal_strlit(")");
    if q == columns_query(other) {
        assert(columns_query(other).subrange(at, at + other.len()) =~= other);
        assert(table.len() == other.len());
    }
}

}
