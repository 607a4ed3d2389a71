//! What holds of every database of sessions.
use crate::adapters::sqlite_ro;
use crate::adapters::zcode;
use crate::adapters::zcode::{AdapterData, RowData};
use crate::adapters::zcode_parse;
use crate::json::JsonData;
use crate::models::{MessageKind, Role};
use crate::paths;
use crate::text;
use vstd::prelude::*;

verus! {

/// Every listed session is in the database with some content and is not one to leave out, and its
/// path leads back to the database as long as its id has no `#` in it.
pub proof fn law_listed_sessions_are_there(
    db: Seq<char>,
    rows: Seq<RowData>,
    hidden: Set<Seq<char>>,
    k: int,
)
    requires
        0 <= k < zcode::listed(db, rows, hidden).len(),
    ensures
        ({
            let r = zcode::listed(db, rows, hidden)[k];
            &&& exists|i: int|
                0 <= i < rows.len() && #[trigger] rows[i].id == r.native_id && rows[i].content_len
                    == r.size && rows[i].updated_ms == r.mtime_ms
            &&& r.size > 0
            &&& !hidden.contains(r.native_id)
            &&& !r.native_id.contains('#') ==> text::before_last(r.file_path, '#') == db
        }),
    decreases rows.len(),
{
    let before = zcode::listed(db, rows.drop_last(), hidden);
    let r = zcode::listed(db, rows, hidden)[k];
    if k < before.len() {
        law_listed_sessions_are_there(db, rows.drop_last(), hidden, k);
        let i = choose|i: int|
            0 <= i < rows.drop_last().len() && #[trigger] rows.drop_last()[i].id == r.native_id
                && rows.drop_last()[i].content_len == r.size && rows.drop_last()[i].updated_ms
                == r.mtime_ms;
        assert(rows[i].id == r.native_id);
    } else {
        assert(rows[rows.len() - 1].id == r.native_id);
        if !r.native_id.contains('#') {
            sqlite_ro::law_strip_undoes_virtual(db, r.native_id);
        }
    }
}

/// Every session that has content and is not one to leave out is listed.
pub proof fn law_no_session_is_passed_over(
    db: Seq<char>,
    rows: Seq<RowData>,
    hidden: Set<Seq<char>>,
    i: int,
)
    requires
        0 <= i < rows.len(),
        rows[i].content_len > 0,
        !hidden.contains(rows[i].id),
    ensures
        zcode::listed(db, rows, hidden).contains(zcode::ref_of(db, rows[i])),
    decreases rows.len(),
{
    let all = zcode::listed(db, rows, hidden);
    let before = zcode::listed(db, rows.drop_last(), hidden);
    let wanted = zcode::ref_of(db, rows[i]);
    if i < rows.len() - 1 {
        law_no_session_is_passed_over(db, rows.drop_last(), hidden, i);
        let k = choose|k: int| 0 <= k < before.len() && before[k] == wanted;
        assert(all[k] == wanted);
    } else {
        assert(all[all.len() - 1] == wanted);
    }
}

/// A listed session is one that the same adapter will read: its path is not outside the roots, as
/// long as its id has no `#` in it and its path is no file of its own.
pub proof fn law_listed_sessions_are_inside(db: Seq<char>, row: RowData, windows: bool)
    requires
        !row.id.contains('#'),
    ensures
        paths::same(text::before_last(zcode::ref_of(db, row).file_path, '#'), db, windows),
{
    sqlite_ro::law_strip_undoes_virtual(db, row.id);
}

proof fn lemma_components_of_rel(windows: bool)
    ensures
        paths::components(zcode::DB_REL@, windows) == seq!["cli"@, "db"@, "db.sqlite"@],
        paths::components("cli/db"@, windows) == seq!["cli"@, "db"@],
        paths::components("cli"@, windows) == seq!["cli"@],
        paths::is_name("cli"@, windows),
        paths::is_name("db"@, windows),
        paths::is_name("db.sqlite"@, windows),
        paths::prefix_of(zcode::DB_REL@, windows) is Nothing,
        paths::prefix_of("cli/db"@, windows) is Nothing,
        paths::prefix_of("cli"@, windows) is Nothing,
        !paths::rooted(zcode::DB_REL@, windows),
        !paths::rooted("cli/db"@, windows),
        !paths::rooted("cli"@, windows),
{
    reveal_strlit("cli");
    reveal_strlit("db");
    reveal_strlit("db.sqlite");
    reveal_strlit("cli/db");
    reveal_strlit("cli/db/db.sqlite");
    let none = Seq::<char>::empty();
    assert(paths::components(none, windows) =~= seq![]);
    let (a, b, c) = ("cli"@, "db"@, "db.sqlite"@);
    assert(a =~= seq!['c', 'l', 'i']);
    assert(b =~= seq!['d', 'b']);
    assert(c =~= seq!['d', 'b', '.', 's', 'q', 'l', 'i', 't', 'e']);
    assert(seq!['.', '.'][0] == '.' && seq!['.'].len() == 1);
    paths::law_join_adds_a_component(none, a, windows);
    assert(paths::joined(none, a, windows) =~= a);
    paths::lemma_slash_divides(a, b, windows);
    assert(a + seq!['/'] + b =~= "cli/db"@);
    paths::lemma_slash_divides("cli/db"@, c, windows);
    assert("cli/db"@ + seq!['/'] + c =~= "cli/db/db.sqlite"@);
    assert(paths::components(a, windows) =~= seq![a]);
    assert(paths::components("cli/db"@, windows) =~= seq![a, b]);
    assert(paths::components("cli/db/db.sqlite"@, windows) =~= seq![a, b, c]);
}

/// Whoever picks the database in the agent's directory, or a directory on the way to it, means the
/// agent's directory.
pub proof fn law_picks_below_home_mean_home(home: Seq<char>, windows: bool)
    requires
        paths::is_steady(home, windows),
    ensures
        ({
            let cli = paths::joined(home, "cli"@, windows);
            let dir = paths::joined(cli, "db"@, windows);
            let db = paths::joined(dir, "db.sqlite"@, windows);
            &&& paths::same(zcode::normalized_root(cli, windows), home, windows)
            &&& paths::same(zcode::normalized_root(dir, windows), home, windows)
            &&& paths::same(zcode::normalized_root(db, windows), home, windows)
        }),
{
    let (a, b, c) = ("cli"@, "db"@, "db.sqlite"@);
    lemma_components_of_rel(windows);
    let cli = paths::joined(home, a, windows);
    let dir = paths::joined(cli, b, windows);
    let db = paths::joined(dir, c, windows);
    paths::law_join_adds_a_component(home, a, windows);
    paths::law_join_adds_a_component(cli, b, windows);
    paths::law_join_adds_a_component(dir, c, windows);
    let h = paths::components(home, windows);
    let (x, y, z) = (
        paths::components(cli, windows),
        paths::components(dir, windows),
        paths::components(db, windows),
    );
    assert(z == h.push(a).push(b).push(c));
    reveal_strlit("cli");
    reveal_strlit("db");
    reveal_strlit("db.sqlite");
    assert(a.len() == 3 && b.len() == 2 && c.len() == 9);
    paths::law_ancestor_drops_components(cli, 1, windows);
    paths::law_ancestor_drops_components(dir, 2, windows);
    paths::law_ancestor_drops_components(db, 3, windows);
    assert(x.take(x.len() - 1) =~= h);
    assert(y.take(y.len() - 2) =~= h);
    assert(z.take(z.len() - 3) =~= h);
    // The database ends with all three components.
    assert(z.subrange(z.len() - 3, z.len() as int) =~= seq![a, b, c]);
    assert(paths::ends_with_path(db, zcode::DB_REL@, windows));
    // Its directory ends with the first two, and not with all three.
    assert(y.subrange(y.len() - 2, y.len() as int) =~= seq![a, b]);
    assert(paths::ends_with_path(dir, "cli/db"@, windows));
    assert(!paths::ends_with_path(dir, zcode::DB_REL@, windows)) by {
        if y.len() >= 3 {
            assert(y.subrange(y.len() - 3, y.len() as int)[2] == b);
            assert(seq![a, b, c][2] == c);
        }
    }
    // The directory above it ends with the first only.
    assert(x.subrange(x.len() - 1, x.len() as int) =~= seq![a]);
    assert(paths::ends_with_path(cli, "cli"@, windows));
    assert(!paths::ends_with_path(cli, zcode::DB_REL@, windows)) by {
        if x.len() >= 3 {
            assert(x.subrange(x.len() - 3, x.len() as int)[2] == a);
            assert(seq![a, b, c][2] == c);
        }
    }
    assert(!paths::ends_with_path(cli, "cli/db"@, windows)) by {
        if x.len() >= 2 {
            assert(x.subrange(x.len() - 2, x.len() as int)[1] == a);
            assert(seq![a, b][1] == b);
        }
    }
}

/// A path of no such shape is left as it is: in particular a bare copy of the database, which does
/// not stand where the database of an agent does.
pub proof fn law_other_picks_stay(dir: Seq<char>, windows: bool)
    requires
        ({
            let d = paths::components(dir, windows);
            let n = d.len() as int;
            &&& !(n >= 1 && d[n - 1] == "cli"@)
            &&& !(n >= 2 && d[n - 2] == "cli"@ && d[n - 1] == "db"@)
            &&& !(n >= 3 && d[n - 3] == "cli"@ && d[n - 2] == "db"@ && d[n - 1] == "db.sqlite"@)
        }),
    ensures
        zcode::normalized_root(dir, windows) == dir,
{
    lemma_components_of_rel(windows);
    let (a, b, c) = ("cli"@, "db"@, "db.sqlite"@);
    let d = paths::components(dir, windows);
    let n = d.len() as int;
    if n >= 3 {
        let t = d.subrange(n - 3, n);
        assert(t[0] == d[n - 3] && t[1] == d[n - 2] && t[2] == d[n - 1]);
        assert(seq![a, b, c][0] == a && seq![a, b, c][1] == b && seq![a, b, c][2] == c);
    }
    if n >= 2 {
        let t = d.subrange(n - 2, n);
        assert(t[0] == d[n - 2] && t[1] == d[n - 1]);
        assert(seq![a, b][0] == a && seq![a, b][1] == b);
    }
    if n >= 1 {
        assert(d.subrange(n - 1, n)[0] == d[n - 1]);
        assert(seq![a][0] == a);
    }
}

/// A separator at the end of a workspace path makes no difference to its hash.
pub proof fn law_trailing_separators_do_not_matter(workspace: Seq<char>, windows: bool)
    requires
        text::trim_end_by(workspace, |c: char| zcode::is_separator(c, windows)).len() > 0,
    ensures
        zcode::dir_hash(workspace.push('/'), windows) == zcode::dir_hash(workspace, windows),
{
    let skip = |c: char| zcode::is_separator(c, windows);
    let longer = workspace.push('/');
    assert(longer.drop_last() =~= workspace);
    assert(text::trim_end_by(longer, skip) == text::trim_end_by(workspace, skip));
}

/// The memories of a directory named after the hash of a workspace belong to a workspace with that
/// hash.
pub proof fn law_memories_find_their_workspace(
    rows: Seq<RowData>,
    windows: bool,
    i: int,
    slug: Seq<char>,
)
    requires
        0 <= i < rows.len(),
    ensures
        ({
            let hash = zcode::dir_hash(rows[i].directory, windows);
            let project = zcode::project_of(
                zcode::workspaces_of(rows, windows),
                Some(slug + seq!['-'] + hash),
            );
            exists|j: int|
                0 <= j < rows.len() && #[trigger] rows[j].directory == project && zcode::dir_hash(
                    rows[j].directory,
                    windows,
                ) == hash
        }),
{
    let hash = zcode::dir_hash(rows[i].directory, windows);
    let name = slug + seq!['-'] + hash;
    text::lemma_last_position(name, '-');
    assert(name[slug.len() as int] == '-');
    let p = text::last_position(name, '-')->0;
    if p > slug.len() {
        assert(name[p] == hash[p - slug.len() - 1]);
        text::lemma_hex_has_no_dash(
            zcode::sha256(zcode::hashed_key(rows[i].directory, windows)).take(8),
        );
    }
    assert(name.skip(p + 1) =~= hash);
    lemma_workspace_found(rows, windows, i);
}

proof fn lemma_workspace_found(rows: Seq<RowData>, windows: bool, i: int)
    requires
        0 <= i < rows.len(),
    ensures
        ({
            let hash = zcode::dir_hash(rows[i].directory, windows);
            let found = zcode::workspaces_of(rows, windows);
            &&& found.contains_key(hash)
            &&& exists|j: int|
                0 <= j < rows.len() && #[trigger] rows[j].directory == found[hash]
                    && zcode::dir_hash(rows[j].directory, windows) == hash
        }),
    decreases rows.len(),
{
    let hash = zcode::dir_hash(rows[i].directory, windows);
    let last = rows.len() - 1;
    let found = zcode::workspaces_of(rows, windows);
    if zcode::dir_hash(rows.last().directory, windows) == hash {
        assert(rows[last].directory == found[hash]);
    } else {
        let before = rows.drop_last();
        lemma_workspace_found(before, windows, i);
        let j = choose|j: int|
            0 <= j < before.len() && #[trigger] before[j].directory == zcode::workspaces_of(
                before,
                windows,
            )[hash] && zcode::dir_hash(before[j].directory, windows) == hash;
        assert(rows[j].directory == found[hash]);
    }
}

/// A record that says nothing of its meaning leaves its message as it is: older sessions stay the
/// user's own.
pub proof fn law_silent_records_keep_the_kind(data: JsonData, role: Role, kind: MessageKind)
    requires
        data.field("semantics"@) is None,
    ensures
        zcode_parse::kind_by(data, role, kind) == kind,
{
}

/// Only what was already a compaction summary, or is marked as one, is shown as one.
pub proof fn law_summaries_are_marked(data: JsonData, role: Role, kind: MessageKind)
    ensures
        zcode_parse::kind_by(data, role, kind) == MessageKind::CompactSummary ==> kind
            == MessageKind::CompactSummary || zcode_parse::semantic(data, "kind"@) == Some(
            "compact_summary"@,
        ),
{
}

/// What is left out is at most what the task index says, and nothing without a task index.
pub proof fn law_nothing_is_hidden_without_an_index(a: AdapterData)
    requires
        a.tasks_db is None,
    ensures
        zcode::hidden_ids(a) == Set::<Seq<char>>::empty(),
{
}

}
