//! Memory documents, and the rows in which they are listed.
use crate::models::AgentId;
use crate::order;
use crate::order::{text_before_or_same, Ranked};
use crate::text;
use crate::text::{find_last, same_text};
use crate::ui::{Words, WordsData};
use vstd::prelude::*;
use vstd::string::StrSliceExecFns;

verus! {

/// What a memory is about: the user, a project, or one session.
#[derive(Clone, Copy, PartialEq, Eq, Structural, Debug)]
pub enum MemoryScope {
    User,
    Project,
    Thread,
}

/// The heading that a memory belongs under: the user's own, none that is known, or a project.
pub enum MemoryGroup {
    User,
    Unknown,
    Project(String),
}

/// A memory document, without its text.
pub struct MemoryDoc {
    pub key: String,
    pub agent: AgentId,
    pub host: String,
    pub scope: MemoryScope,
    pub group: MemoryGroup,
    pub title: String,
    pub path: String,
    pub project_path: String,
    pub updated_at: i64,
    pub size_bytes: i64,
}

/// A memory document with the name of the time that it was last changed in.
pub struct LabelledDoc {
    pub doc: MemoryDoc,
    pub time_label: String,
}

/// Whether document `a` may stand before `b`: the user's own first, then by time, the newest first,
/// and by key.
pub open spec fn doc_le(a: MemoryDoc, b: MemoryDoc) -> bool {
    let (x, y) = (a.scope != MemoryScope::User, b.scope != MemoryScope::User);
    if x != y {
        y
    } else if a.updated_at != b.updated_at {
        a.updated_at > b.updated_at
    } else {
        order::text_le(a.key@, b.key@)
    }
}

impl Ranked for LabelledDoc {
    open spec fn rank_le(&self, other: &Self) -> bool {
        doc_le(self.doc, other.doc)
    }

    proof fn lemma_rank_total(a: &Self, b: &Self) {
        order::lemma_text_le_total(a.doc.key@, b.doc.key@);
    }

    proof fn lemma_rank_trans(a: &Self, b: &Self, c: &Self) {
        if a.doc.updated_at == b.doc.updated_at && b.doc.updated_at == c.doc.updated_at {
            let same = (a.doc.scope == MemoryScope::User) == (b.doc.scope == MemoryScope::User) && (
            b.doc.scope == MemoryScope::User) == (c.doc.scope == MemoryScope::User);
            if same {
                order::lemma_text_le_trans(a.doc.key@, b.doc.key@, c.doc.key@);
            }
        }
    }

    fn may_precede(&self, other: &Self) -> (r: bool) {
        let x = self.doc.scope != MemoryScope::User;
        let y = other.doc.scope != MemoryScope::User;
        if x != y {
            y
        } else if self.doc.updated_at != other.doc.updated_at {
            self.doc.updated_at > other.doc.updated_at
        } else {
            text_before_or_same(self.doc.key.as_str(), other.doc.key.as_str())
        }
    }
}

/// A row of the list: a heading, with the document that follows it, or a document.
#[derive(Clone, Copy, PartialEq, Eq, Structural, Debug)]
pub enum MemoryRow {
    Group(usize),
    Doc(usize),
}

/// The heading of a document: the user's own memories have one for themselves while `pin_user` says
/// so, the others that of their time.
pub open spec fn section_of(
    scope: MemoryScope,
    time_label: Seq<char>,
    pin_user: bool,
) -> WordsData {
    if pin_user && scope == MemoryScope::User {
        WordsData::Key("User memory")
    } else {
        WordsData::Plain(time_label)
    }
}

/// The heading of a document.
pub fn memory_section_label(d: &MemoryDoc, time_label: &str, pin_user: bool) -> (r: Words)
    ensures
        r.deep_view() == section_of(d.scope, time_label@, pin_user),
{
    if pin_user && d.scope == MemoryScope::User {
        Words::Key("User memory")
    } else {
        Words::Plain(time_label.to_owned())
    }
}

/// The headings of some documents.
pub open spec fn sections(items: Seq<LabelledDoc>, pin_user: bool) -> Seq<WordsData> {
    Seq::new(
        items.len(),
        |i: int| section_of(items[i].doc.scope, items[i].time_label@, pin_user),
    )
}

/// The rows of documents with these headings: a heading comes where it differs from the one before.
pub open spec fn rows_of(labels: Seq<WordsData>) -> Seq<MemoryRow>
    decreases labels.len(),
{
    if labels.len() == 0 {
        seq![]
    } else {
        let n = labels.len() - 1;
        let before = rows_of(labels.drop_last());
        if n > 0 && labels[n - 1] == labels[n] {
            before.push(MemoryRow::Doc(n as usize))
        } else {
            before.push(MemoryRow::Group(n as usize)).push(MemoryRow::Doc(n as usize))
        }
    }
}

fn same_section(a: &LabelledDoc, b: &LabelledDoc, pin_user: bool) -> (r: bool)
    ensures
        r == (section_of(a.doc.scope, a.time_label@, pin_user) == section_of(
            b.doc.scope,
            b.time_label@,
            pin_user,
        )),
{
    let x = pin_user && a.doc.scope == MemoryScope::User;
    let y = pin_user && b.doc.scope == MemoryScope::User;
    if x || y {
        x && y
    } else {
        same_text(a.time_label.as_str(), b.time_label.as_str())
    }
}

/// The rows of some documents.
pub fn memory_rows(items: &Vec<LabelledDoc>, pin_user: bool) -> (r: Vec<MemoryRow>)
    ensures
        r@ == rows_of(sections(items@, pin_user)),
{
    let mut rows: Vec<MemoryRow> = Vec::new();
    let ghost labels = sections(items@, pin_user);
    let mut ix: usize = 0;
    assert(rows@ =~= rows_of(labels.take(0)));
    while ix < items.len()
        invariant
            ix <= items.len(),
            labels == sections(items@, pin_user),
            rows@ == rows_of(labels.take(ix as int)),
        decreases items.len() - ix,
    {
        proof {
            let t = labels.take(ix + 1);
            assert(t.drop_last() =~= labels.take(ix as int));
            assert(t[ix as int] == labels[ix as int]);
            if ix > 0 {
                assert(t[ix - 1] == labels[ix - 1]);
            }
        }
        if ix == 0 || !same_section(&items[ix - 1], &items[ix], pin_user) {
            rows.push(MemoryRow::Group(ix));
        }
        rows.push(MemoryRow::Doc(ix));
        ix = ix + 1;
    }
    assert(labels.take(labels.len() as int) =~= labels);
    rows
}

/// Which documents some rows list.
pub open spec fn listed(rows: Seq<MemoryRow>) -> Seq<usize>
    decreases rows.len(),
{
    if rows.len() == 0 {
        seq![]
    } else {
        match rows.last() {
            MemoryRow::Group(_) => listed(rows.drop_last()),
            MemoryRow::Doc(i) => listed(rows.drop_last()).push(i),
        }
    }
}

/// The heading under which the last of some rows stands.
pub open spec fn last_heading(rows: Seq<MemoryRow>) -> Option<usize>
    decreases rows.len(),
{
    if rows.len() == 0 {
        None
    } else {
        match rows.last() {
            MemoryRow::Group(i) => Some(i),
            MemoryRow::Doc(_) => last_heading(rows.drop_last()),
        }
    }
}

/// Every document is listed once, in order, and the last stands under a heading of its own time.
pub proof fn law_rows_list_every_document(labels: Seq<WordsData>)
    requires
        labels.len() <= usize::MAX,
    ensures
        listed(rows_of(labels)) == Seq::new(labels.len(), |i: int| i as usize),
        labels.len() > 0 ==> (last_heading(rows_of(labels)) matches Some(h) && h < labels.len()
            && labels[h as int] == labels.last()),
        labels.len() <= rows_of(labels).len() <= 2 * labels.len(),
    decreases labels.len(),
{
    let rows = rows_of(labels);
    if labels.len() > 0 {
        let n = labels.len() - 1;
        let before = rows_of(labels.drop_last());
        law_rows_list_every_document(labels.drop_last());
        assert(rows.drop_last().push(MemoryRow::Doc(n as usize)) =~= rows);
        if n > 0 && labels[n - 1] == labels[n] {
            assert(rows.drop_last() =~= before);
            assert(labels.drop_last().last() == labels[n - 1]);
        } else {
            assert(rows.drop_last() =~= before.push(MemoryRow::Group(n as usize)));
            assert(rows.drop_last().drop_last() =~= before);
            assert(listed(rows.drop_last()) == listed(before));
            assert(last_heading(rows.drop_last()) == Some(n as usize));
        }
        assert(rows.last() == MemoryRow::Doc(n as usize));
        assert(listed(rows) =~= listed(before).push(n as usize));
        assert(listed(rows) =~= Seq::new(labels.len(), |i: int| i as usize));
    } else {
        assert(listed(rows) =~= Seq::new(labels.len(), |i: int| i as usize));
    }
}

/// Sorted documents have the user's own in front: behind one that is not, there is none.
pub proof fn law_user_memories_come_first(items: Seq<LabelledDoc>, i: int, j: int)
    requires
        0 <= i < j < order::ranked(items).len(),
        order::ranked(items)[i].doc.scope != MemoryScope::User,
    ensures
        order::ranked(items)[j].doc.scope != MemoryScope::User,
        order::ranked(items)[i].doc.updated_at >= order::ranked(items)[j].doc.updated_at,
{
    order::lemma_ranked_sorts(items);
    let s = order::ranked(items);
    assert(s[i].rank_le(&s[j]));
}

/// Where a document is, before that was looked up: a memory of one session is in a database, which
/// its path names before the last `#`.
pub open spec fn display_path(scope: MemoryScope, path: Seq<char>) -> Seq<char> {
    if scope == MemoryScope::Thread {
        text::before_last(path, '#')
    } else {
        path
    }
}

/// Where a document is, before that was looked up.
pub fn memory_display_path(d: &MemoryDoc) -> (r: String)
    ensures
        r@ == display_path(d.scope, d.path@),
{
    if d.scope == MemoryScope::Thread {
        if let Some(i) = find_last(d.path.as_str(), '#') {
            assert(d.path@.subrange(0, i as int) =~= d.path@.take(i as int));
            return d.path.as_str().substring_char(0, i).to_owned();
        }
    }
    d.path.clone()
}

/// What a document is said to belong to.
pub open spec fn group_words(group: MemoryGroup) -> WordsData {
    match group {
        MemoryGroup::User => WordsData::Key("User memory"),
        MemoryGroup::Unknown => WordsData::Key("Unknown project"),
        MemoryGroup::Project(name) => WordsData::Plain(name@),
    }
}

/// What a document is said to belong to.
pub fn memory_group_label(d: &MemoryDoc) -> (r: Words)
    ensures
        r.deep_view() == group_words(d.group),
{
    match &d.group {
        MemoryGroup::User => Words::Key("User memory"),
        MemoryGroup::Unknown => Words::Key("Unknown project"),
        MemoryGroup::Project(name) => Words::Plain(name.clone()),
    }
}

/// A mark on a document.
pub enum Badge {
    Label(&'static str),
    Host(String),
}

/// What a [`Badge`] holds.
pub enum BadgeData {
    Label(&'static str),
    Host(Seq<char>),
}

impl DeepView for Badge {
    type V = BadgeData;

    open spec fn deep_view(&self) -> BadgeData {
        match self {
            Badge::Label(l) => BadgeData::Label(*l),
            Badge::Host(h) => BadgeData::Host(h@),
        }
    }
}

/// The marks on a document: that it is of one session, and that it is from another machine.
pub open spec fn badges_of(scope: MemoryScope, host: Seq<char>) -> Seq<BadgeData> {
    (if scope == MemoryScope::Thread { seq![BadgeData::Label("session memory")] } else { seq![] })
        + (if host.len() > 0 { seq![BadgeData::Host(host)] } else { seq![] })
}

/// The marks on a document.
pub fn memory_badges(d: &MemoryDoc) -> (r: Vec<Badge>)
    ensures
        r.deep_view() == badges_of(d.scope, d.host@),
{
    let mut out: Vec<Badge> = Vec::new();
    if d.scope == MemoryScope::Thread {
        out.push(Badge::Label("session memory"));
    }
    if !d.host.as_str().is_empty() {
        out.push(Badge::Host(d.host.clone()));
    }
    assert(out.deep_view() =~= badges_of(d.scope, d.host@));
    out
}

}
