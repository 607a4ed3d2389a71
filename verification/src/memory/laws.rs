//! What holds of every list of memories: what a scope lists, in what order, under which headings,
//! and what becomes of the selection.
use crate::memory::docs;
use crate::memory::docs::{BadgeData, LabelledDoc, MemoryDoc, MemoryGroup, MemoryRow, MemoryScope};
use crate::memory::page;
use crate::memory::page::{Pane, RowViewData, TitleData};
use crate::memory::state;
use crate::memory::state::{
    FilterData, LoadedData, MemoryCounts, MemoryData, NavData, ProjectCount, UserMemories,
};
use crate::models::AgentId;
use crate::order;
use crate::paths;
use crate::text;
use crate::ui::WordsData;
use vstd::prelude::*;

verus! {

/// Whether a filter asks for a project: for any where it names none, else for those it names, and
/// for the memories that belong to none if it says so.
pub open spec fn asks_for_project(f: FilterData, project: Seq<char>) -> bool {
    ||| f.project_paths.len() == 0 && !f.unattributed
    ||| f.project_paths.contains(project)
    ||| f.unattributed && project.len() == 0
}

/// Whether a filter asks for a memory: it has to be of one of the agents, where any are named; and
/// then it is one of the user's own, unless these are excluded, or one of a project that is asked
/// for, unless only the user's own are.
pub open spec fn asks_for(
    f: FilterData,
    agent: AgentId,
    scope: MemoryScope,
    project: Seq<char>,
) -> bool {
    &&& f.agents.len() == 0 || f.agents.contains(agent)
    &&& if scope == MemoryScope::User {
        f.user != UserMemories::Excluded
    } else {
        f.user != UserMemories::Only && asks_for_project(f, project)
    }
}

/// What a scope lists: everything; the user's own memories alone; those of one agent, whatever they
/// are about; or those of one project, or of none, without the user's own.
pub proof fn law_a_scope_lists_what_it_names(
    nav: NavData,
    agent: AgentId,
    scope: MemoryScope,
    project: Seq<char>,
)
    ensures
        asks_for(state::filter_of(nav), agent, scope, project) == (match nav {
            NavData::All => true,
            NavData::User => scope == MemoryScope::User,
            NavData::Agent(a) => agent == a,
            NavData::Project(path) => scope != MemoryScope::User && project == path,
        }),
{
    let f = state::filter_of(nav);
    match nav {
        NavData::Agent(a) => {
            assert(f.agents[0] == a);
        },
        NavData::Project(path) => {
            if path.len() == 0 {
                assert(project.len() == 0 ==> project =~= path);
            } else {
                assert(f.project_paths[0] == path);
            }
        },
        _ => {},
    }
}

/// Only the scope of the user's own memories asks for these alone, and only that of a project leaves
/// them out.
pub proof fn law_only_one_scope_is_the_users(nav: NavData)
    ensures
        state::filter_of(nav).user == UserMemories::Only <==> nav is User,
        state::filter_of(nav).user == UserMemories::Excluded <==> nav is Project,
{
}

/// What is asked for is what is listed: whenever the list is asked for, it is with the scope that
/// the page is on, also right after a click on another.
pub proof fn law_the_list_is_of_the_scope(
    s: MemoryData,
    nav: NavData,
    shown: bool,
    scanning: bool,
    agent: AgentId,
    scope: MemoryScope,
    project: Seq<char>,
)
    ensures
        ({
            let (after, asked) = state::after_ask(s, shown, scanning);
            &&& after.nav == s.nav
            &&& asked matches Some(f) ==> {
                &&& s.nav is All ==> asks_for(f, agent, scope, project)
                &&& s.nav matches NavData::Agent(a) ==> (asks_for(f, agent, scope, project) <==> agent
                    == a)
            }
        }),
        ({
            let (after, asked) = state::after_scope(s, nav, shown, scanning);
            &&& after.nav == nav
            &&& after.scope_changed
            &&& asked is Some <==> shown
            &&& asked matches Some(f) ==> (nav matches NavData::Project(p) ==> (asks_for(
                f,
                agent,
                scope,
                project,
            ) <==> scope != MemoryScope::User && project == p))
            &&& asked matches Some(f) ==> (nav is User ==> (asks_for(f, agent, scope, project)
                <==> scope == MemoryScope::User))
        }),
{
    law_a_scope_lists_what_it_names(s.nav, agent, scope, project);
    law_a_scope_lists_what_it_names(nav, agent, scope, project);
}

/// The list is asked for only where the page is shown, and is held back while the sessions are being
/// read only where there is a list already and no other one is wanted. The page says that it is
/// loading only where there is nothing to show meanwhile.
pub proof fn law_when_the_list_is_asked_for(s: MemoryData, shown: bool, scanning: bool)
    ensures
        ({
            let (after, asked) = state::after_ask(s, shown, scanning);
            &&& !shown ==> asked is None
            &&& shown && !scanning ==> asked is Some
            &&& shown && s.docs.len() == 0 ==> asked is Some && after.loading
            &&& shown && s.scope_changed ==> asked is Some
            &&& shown && scanning && s.docs.len() > 0 && !s.scope_changed ==> asked is None
            &&& asked is None ==> after == s
            &&& after == (MemoryData { loading: after.loading, ..s })
            &&& asked is Some ==> (after.loading <==> s.docs.len() == 0)
        }),
{
}

/// Requests and their ends change nothing but what is going on: no document, selection or scope.
pub proof fn law_readings_leave_the_page_alone(s: MemoryData, scanning: bool)
    ensures
        ({
            let (a, b, c) = (
                state::after_request(s, scanning).0,
                state::after_sync(s, scanning).0,
                state::after_scan(s, scanning).0,
            );
            &&& a == (MemoryData { syncing: a.syncing, sync_pending: a.sync_pending, ..s })
            &&& b == (MemoryData { syncing: b.syncing, sync_pending: b.sync_pending, ..s })
            &&& c == (MemoryData { syncing: c.syncing, sync_pending: c.sync_pending, ..s })
        }),
        !s.syncing && !scanning ==> state::after_request(s, scanning).1,
        s.syncing || scanning ==> state::after_request(s, scanning).0.sync_pending,
        !s.sync_pending ==> !state::after_sync(s, scanning).1 && !state::after_scan(s, scanning).1,
        !s.sync_pending ==> !state::after_sync(s, scanning).0.syncing,
        s.sync_pending && !scanning ==> state::after_sync(s, scanning).1,
        s.sync_pending && !s.syncing && !scanning ==> state::after_scan(s, scanning).1,
        s.sync_pending && scanning ==> state::after_sync(s, scanning).0.sync_pending,
        s.syncing ==> state::after_scan(s, scanning) == (s, false),
{
}

/// The order of the list: the user's own memories before all others, and among each of the two the
/// newest first, those of one time by their keys. Nothing is lost or added.
pub proof fn law_documents_are_in_order(items: Seq<LabelledDoc>, i: int, j: int)
    ensures
        order::ranked(items).to_multiset() == items.to_multiset(),
        order::ranked(items).len() == items.len(),
        0 <= i < j < items.len() ==> {
            let (a, b) = (order::ranked(items)[i].doc, order::ranked(items)[j].doc);
            let (own_a, own_b) = (a.scope == MemoryScope::User, b.scope == MemoryScope::User);
            &&& own_b ==> own_a
            &&& own_a == own_b ==> a.updated_at >= b.updated_at
            &&& own_a == own_b && a.updated_at == b.updated_at ==> order::text_le(a.key@, b.key@)
        },
{
    order::lemma_ranked_sorts(items);
    let s = order::ranked(items);
    if 0 <= i < j < items.len() {
        assert(order::Ranked::rank_le(&s[i], &s[j]));
    }
}

/// The heading of a document is the name of its time; only the user's own memories have one for
/// themselves, where they are pinned.
pub proof fn law_headings_name_the_time(items: Seq<LabelledDoc>, pin_user: bool, i: int)
    requires
        0 <= i < items.len(),
    ensures
        docs::sections(items, pin_user).len() == items.len(),
        pin_user && items[i].doc.scope == MemoryScope::User ==> docs::sections(items, pin_user)[i]
            == WordsData::Key("User memory"),
        !pin_user || items[i].doc.scope != MemoryScope::User ==> docs::sections(items, pin_user)[i]
            == WordsData::Plain(items[i].time_label@),
{
}

/// Headings stand where they change: each is followed by the document that it is taken from, whose
/// heading differs from that of the document before, and no such document goes without.
pub proof fn law_headings_stand_where_they_change(labels: Seq<WordsData>)
    requires
        labels.len() <= usize::MAX,
    ensures
        ({
            let rows = docs::rows_of(labels);
            &&& forall|k: int, i: usize|
                0 <= k < rows.len() && #[trigger] rows[k] == #[trigger] group_row(i) ==> {
                    &&& k + 1 < rows.len()
                    &&& rows[k + 1] == MemoryRow::Doc(i)
                    &&& i < labels.len()
                    &&& i > 0 ==> labels[i - 1] != labels[i as int]
                }
            &&& forall|i: int|
                0 <= i < labels.len() && (i == 0 || labels[i - 1] != labels[i]) ==> rows.contains(
                    #[trigger] group_row(i as usize),
                )
        }),
    decreases labels.len(),
{
    let rows = docs::rows_of(labels);
    if labels.len() > 0 {
        let less = labels.drop_last();
        let n = labels.len() - 1;
        let before = docs::rows_of(less);
        law_headings_stand_where_they_change(less);
        let new = n == 0 || labels[n - 1] != labels[n];
        assert forall|k: int, i: usize|
            0 <= k < rows.len() && #[trigger] rows[k] == #[trigger] group_row(i) implies ({
            &&& k + 1 < rows.len()
            &&& rows[k + 1] == MemoryRow::Doc(i)
            &&& i < labels.len()
            &&& i > 0 ==> labels[i - 1] != labels[i as int]
        }) by {
            if k < before.len() {
                assert(before[k] == group_row(i));
                assert(before[k + 1] == MemoryRow::Doc(i));
            }
        }
        assert forall|i: int|
            0 <= i < labels.len() && (i == 0 || labels[i - 1] != labels[i]) implies rows.contains(
            #[trigger] group_row(i as usize),
        ) by {
            if i < n {
                assert(i > 0 ==> less[i - 1] != less[i]);
                assert(before.contains(group_row(i as usize)));
                let k = choose|k: int| 0 <= k < before.len() && before[k] == group_row(i as usize);
                assert(rows[k] == group_row(i as usize));
            } else {
                assert(rows[before.len() as int] == group_row(i as usize));
            }
        }
    }
}

/// The row of the heading that is taken from document `i`.
pub open spec fn group_row(i: usize) -> MemoryRow {
    MemoryRow::Group(i)
}

/// A document is found under its key: the first that has it, and none only where no document does.
pub proof fn law_documents_are_found_by_their_key(documents: Seq<MemoryDoc>, key: Seq<char>)
    ensures
        state::find_doc(documents, key, 0) matches Some(i) ==> {
            &&& 0 <= i < documents.len()
            &&& documents[i].key@ == key
            &&& forall|j: int| 0 <= j < i ==> (#[trigger] documents[j]).key@ != key
        },
        state::find_doc(documents, key, 0) is None ==> forall|j: int|
            0 <= j < documents.len() ==> (#[trigger] documents[j]).key@ != key,
{
    lemma_found_from(documents, key, 0);
}

proof fn lemma_found_from(documents: Seq<MemoryDoc>, key: Seq<char>, from: int)
    requires
        0 <= from,
    ensures
        state::find_doc(documents, key, from) matches Some(i) ==> {
            &&& from <= i < documents.len()
            &&& documents[i].key@ == key
            &&& forall|j: int| from <= j < i ==> (#[trigger] documents[j]).key@ != key
        },
        state::find_doc(documents, key, from) is None ==> forall|j: int|
            from <= j < documents.len() ==> (#[trigger] documents[j]).key@ != key,
    decreases documents.len() - from,
{
    if from < documents.len() && documents[from].key@ != key {
        lemma_found_from(documents, key, from + 1);
    }
}

/// Whether a document with a key is among some.
pub open spec fn is_among(documents: Seq<MemoryDoc>, key: Seq<char>) -> bool {
    exists|i: int| 0 <= i < documents.len() && (#[trigger] documents[i]).key@ == key
}

/// The documents of a sorted list.
pub open spec fn documents_of(sorted: Seq<LabelledDoc>) -> Seq<MemoryDoc> {
    Seq::new(sorted.len(), |i: int| sorted[i].doc)
}

/// When a new list comes in: a selected document that is still there stays selected, and its text
/// stays only if neither its time nor its size has changed; one that is gone, or where none was
/// selected, gives way to the first document, whose text is awaited; and without documents nothing
/// is selected.
pub proof fn law_the_selection_follows_the_list(
    s: MemoryData,
    sorted: Seq<LabelledDoc>,
    counts: MemoryCounts,
)
    ensures
        ({
            let now = documents_of(sorted);
            let after = state::after_reload(s, sorted, counts);
            let stays = s.selected matches Some(key) && is_among(now, key);
            &&& stays ==> {
                let key = s.selected->0;
                let changed = state::stamp_of(s.docs, key) != state::stamp_of(now, key);
                &&& after.selected == s.selected
                &&& changed ==> after.loaded is None
                &&& !changed ==> after.loaded == s.loaded
            }
            &&& !stays && now.len() > 0 ==> {
                &&& after.selected == Some(now[0].key@)
                &&& after.loaded is None
            }
            &&& !stays && now.len() == 0 ==> after.selected is None && after.loaded is None
        }),
{
    let now = documents_of(sorted);
    if let Some(key) = s.selected {
        law_documents_are_found_by_their_key(now, key);
        if is_among(now, key) {
            let i = choose|i: int| 0 <= i < now.len() && (#[trigger] now[i]).key@ == key;
            assert(now[i].key@ == key);
        } else if let Some(i) = state::find_doc(now, key, 0) {
            assert(now[i].key@ == key);
        }
    }
}

/// The stamp of a document tells its time and its size, so that it differs where one of them does.
pub proof fn law_stamps_tell_time_and_size(documents: Seq<MemoryDoc>, key: Seq<char>, i: int)
    requires
        0 <= i < documents.len(),
        documents[i].key@ == key,
        forall|j: int| 0 <= j < i ==> (#[trigger] documents[j]).key@ != key,
    ensures
        state::stamp_of(documents, key) matches Some(stamp) && stamp.0 == documents[i].updated_at
            && stamp.1 == documents[i].size_bytes,
{
    law_documents_are_found_by_their_key(documents, key);
    if let Some(k) = state::find_doc(documents, key, 0) {
        if k < i {
            assert(documents[k].key@ != key);
        } else if i < k {
            assert(documents[i].key@ != key);
        }
    } else {
        assert(documents[i].key@ != key);
    }
}

/// A new list is what is shown from then on: its documents in order, each in a row, with the counts
/// that came with it; the user's own memories are pinned unless nothing else is listed. The page no
/// longer waits, and stays on its scope.
pub proof fn law_a_new_list_is_shown(
    s: MemoryData,
    sorted: Seq<LabelledDoc>,
    counts: MemoryCounts,
    i: int,
)
    requires
        sorted.len() <= usize::MAX,
    ensures
        ({
            let after = state::after_reload(s, sorted, counts);
            &&& after.docs.len() == sorted.len()
            &&& 0 <= i < sorted.len() ==> after.docs[i] == sorted[i].doc
            &&& docs::listed(after.rows) == Seq::new(sorted.len(), |k: int| k as usize)
            &&& s.nav is User ==> after.rows == docs::rows_of(docs::sections(sorted, false))
            &&& !(s.nav is User) ==> after.rows == docs::rows_of(docs::sections(sorted, true))
            &&& after.counts == counts
            &&& !after.loading
            &&& !after.scope_changed
            &&& after.nav == s.nav
            &&& after.syncing == s.syncing
            &&& after.sync_pending == s.sync_pending
        }),
{
    docs::law_rows_list_every_document(docs::sections(sorted, s.nav !is User));
}

proof fn lemma_named_from(projects: Seq<ProjectCount>, path: Seq<char>, from: int, i: int)
    requires
        0 <= from <= i <= projects.len(),
        forall|j: int| from <= j < i ==> (#[trigger] projects[j]).path@ != path,
        i < projects.len() ==> projects[i].path@ == path,
    ensures
        page::project_name(projects, path, from) == (if i < projects.len() {
            Some(projects[i].name@)
        } else {
            None
        }),
    decreases i - from,
{
    if from < i {
        assert(projects[from].path@ != path);
        lemma_named_from(projects, path, from + 1, i);
    }
}

/// The title of the list says what is listed: the name of the project at that path where the scope
/// is a project that is known, the agent where it is an agent.
pub proof fn law_the_title_says_what_is_listed(
    nav: NavData,
    projects: Seq<ProjectCount>,
    path: Seq<char>,
    i: int,
)
    requires
        path.len() > 0,
        0 <= i <= projects.len(),
        forall|j: int| 0 <= j < i ==> (#[trigger] projects[j]).path@ != path,
        i < projects.len() ==> projects[i].path@ == path,
    ensures
        nav matches NavData::Agent(a) ==> page::title_of(nav, projects) == TitleData::Agent(a),
        nav == NavData::Project(path) ==> page::title_of(nav, projects) == TitleData::Words(
            if i < projects.len() {
                WordsData::Plain(projects[i].name@)
            } else {
                WordsData::Key("Projects")
            },
        ),
        nav is All ==> page::title_of(nav, projects) == TitleData::Words(
            WordsData::Key("All Memory"),
        ),
        nav is User ==> page::title_of(nav, projects) == TitleData::Words(
            WordsData::Key("User memory"),
        ),
        page::title_of(NavData::Project(seq![]), projects) == TitleData::Words(
            WordsData::Key("Unknown project"),
        ),
{
    lemma_named_from(projects, path, 0, i);
}

/// The sidebar has a row for every agent and every project, in order and with their counts; the one
/// that is listed is active, and no other.
pub proof fn law_the_listed_row_is_active(
    agents: Seq<(AgentId, usize)>,
    projects: Seq<ProjectCount>,
    nav: NavData,
    i: int,
)
    ensures
        ({
            let (a, p) = (page::agent_rows(agents, nav), page::project_rows(projects, nav));
            &&& a.len() == agents.len()
            &&& p.len() == projects.len()
            &&& 0 <= i < a.len() ==> {
                &&& a[i].agent == agents[i].0
                &&& a[i].count == agents[i].1
                &&& a[i].active <==> nav == NavData::Agent(agents[i].0)
            }
            &&& 0 <= i < p.len() ==> {
                &&& p[i].path == projects[i].path@
                &&& p[i].count == projects[i].count
                &&& p[i].active <==> nav == NavData::Project(projects[i].path@)
                &&& projects[i].path@.len() > 0 ==> p[i].label == WordsData::Plain(
                    projects[i].name@,
                )
                &&& projects[i].path@.len() == 0 ==> p[i].label == WordsData::Key(
                    "Unknown project",
                )
            }
        }),
{
}

/// The file behind a document: the one that was found when it was read. Before that it is the one
/// that its path names; a memory of one session is in a database, and what stands behind the last
/// `#` of its path is not part of the name of that.
pub proof fn law_the_file_is_what_was_found(
    doc: MemoryDoc,
    loaded: LoadedData,
    db: Seq<char>,
    id: Seq<char>,
)
    requires
        !id.contains('#'),
    ensures
        page::source_of(doc, Some(loaded)) == loaded.source_path,
        doc.scope != MemoryScope::Thread ==> page::source_of(doc, None) == doc.path@,
        doc.scope == MemoryScope::Thread && doc.path@ == db + seq!['#'] + id ==> page::source_of(
            doc,
            None,
        ) == db,
        doc.scope == MemoryScope::Thread && !doc.path@.contains('#') ==> page::source_of(doc, None)
            == doc.path@,
{
    let path = doc.path@;
    text::lemma_last_position(path, '#');
    if path == db + seq!['#'] + id {
        assert(path[db.len() as int] == '#');
        let i = text::last_position(path, '#')->0;
        if i > db.len() {
            assert(path[i] == id[i - db.len() - 1]);
            assert(id.contains('#'));
        }
        assert(path.take(db.len() as int) =~= db);
    }
}

/// Links in a document lead from the directory of its file, where the document is that file, and
/// else from its project.
pub proof fn law_links_lead_from_the_file_or_the_project(
    doc: MemoryDoc,
    source: Seq<char>,
    windows: bool,
)
    ensures
        source != doc.path@ ==> page::link_base_of(doc, source, windows) == doc.project_path@,
        source == doc.path@ ==> match paths::parent_of(doc.path@, windows) {
            Some(dir) => page::link_base_of(doc, source, windows) == dir,
            None => page::link_base_of(doc, source, windows).len() == 0,
        },
{
}

/// The marks on a document: one if it is of a single session, and one with the name of the machine
/// if it is from another.
pub proof fn law_marks_tell_session_and_machine(scope: MemoryScope, host: Seq<char>)
    ensures
        ({
            let marks = docs::badges_of(scope, host);
            &&& marks.contains(BadgeData::Label("session memory")) <==> scope == MemoryScope::Thread
            &&& host.len() > 0 <==> exists|i: int|
                0 <= i < marks.len() && (#[trigger] marks[i]) is Host
            &&& forall|i: int|
                0 <= i < marks.len() && (#[trigger] marks[i]) is Host ==> marks[i]
                    == BadgeData::Host(host)
            &&& marks.len() <= 2
        }),
{
    let marks = docs::badges_of(scope, host);
    if scope == MemoryScope::Thread {
        assert(marks[0] == BadgeData::Label("session memory"));
        if host.len() > 0 {
            assert(marks[1] == BadgeData::Host(host));
        }
    } else if host.len() > 0 {
        assert(marks[0] == BadgeData::Host(host));
    }
}

/// A document is said to belong to its project by the name of that, and to the user or to nothing
/// known in words.
pub proof fn law_groups_are_named(group: MemoryGroup)
    ensures
        group matches MemoryGroup::Project(name) ==> docs::group_words(group) == WordsData::Plain(
            name@,
        ),
        group is User ==> docs::group_words(group) == WordsData::Key("User memory"),
        group is Unknown ==> docs::group_words(group) == WordsData::Key("Unknown project"),
{
}

/// What is to be read for a document is that very document: its key, and the path of the first
/// document that has it.
pub proof fn law_the_selected_document_is_read(documents: Seq<MemoryDoc>, key: Seq<char>, i: int)
    requires
        0 <= i <= documents.len(),
        forall|j: int| 0 <= j < i ==> (#[trigger] documents[j]).key@ != key,
        i < documents.len() ==> documents[i].key@ == key,
    ensures
        i < documents.len() ==> state::load_of(documents, key) == Some((key, documents[i].path@)),
        i == documents.len() ==> state::load_of(documents, key) is None,
{
    law_documents_are_found_by_their_key(documents, key);
    if let Some(k) = state::find_doc(documents, key, 0) {
        assert(documents[k].key@ == key);
        if i < k {
            assert(documents[i].key@ != key);
        }
    }
}

/// Selecting a document of the list shows it and awaits its text; a key that is not in the list
/// changes nothing. Nothing else of the page changes.
pub proof fn law_selecting_changes_the_selection_only(s: MemoryData, key: Seq<char>)
    ensures
        ({
            let after = state::after_select(s, key);
            &&& is_among(s.docs, key) ==> after.selected == Some(key) && after.loaded is None
            &&& !is_among(s.docs, key) ==> after == s
            &&& after == (MemoryData { selected: after.selected, loaded: after.loaded, ..s })
        }),
{
    law_documents_are_found_by_their_key(s.docs, key);
    if let Some(i) = state::find_doc(s.docs, key, 0) {
        assert(s.docs[i].key@ == key);
    }
}

/// A text that comes in late never stands under another document: once something else was selected,
/// it changes nothing, and the text of what is selected is shown as it came in.
pub proof fn law_late_texts_do_not_count(
    s: MemoryData,
    first: Seq<char>,
    second: Seq<char>,
    late: LoadedData,
    own: LoadedData,
)
    requires
        first != second,
        is_among(s.docs, first),
        is_among(s.docs, second),
    ensures
        ({
            let on = state::after_select(state::after_select(s, first), second);
            &&& state::after_load(on, first, late) == on
            &&& state::after_load(on, second, own).loaded == Some(own)
            &&& state::after_load(on, second, own).selected == Some(second)
            &&& state::after_load(state::after_load(on, second, own), first, late).loaded == Some(
                own,
            )
        }),
{
    law_selecting_changes_the_selection_only(s, first);
    law_selecting_changes_the_selection_only(state::after_select(s, first), second);
}

/// When a new list comes in, a text is read exactly if the selected document is not the one that was
/// shown before, or has changed since; and it is that of the document that is selected then.
pub proof fn law_a_new_selection_is_read(
    s: MemoryData,
    sorted: Seq<LabelledDoc>,
    counts: MemoryCounts,
)
    ensures
        ({
            let now = documents_of(sorted);
            let after = state::after_reload(s, sorted, counts);
            let load = state::load_after(s.selected, s.docs, now);
            &&& load matches Some(l) ==> after.selected == Some(l.0) && after.loaded is None
            &&& load is None ==> after.selected == s.selected || now.len() == 0
            &&& load is None ==> after.loaded == s.loaded || now.len() == 0
            &&& now.len() > 0 && s.selected is None ==> load is Some
        }),
{
    let now = documents_of(sorted);
    if let Some(key) = s.selected {
        law_documents_are_found_by_their_key(now, key);
    }
    if now.len() > 0 {
        law_documents_are_found_by_their_key(now, now[0].key@);
        if state::find_doc(now, now[0].key@, 0) is None {
            assert(now[0].key@ != now[0].key@);
        }
    }
}

/// Beside the list stands the selected document, wherever it is in the list; only where there is none
/// does the page say that the list is awaited, or that there are no memories.
pub proof fn law_the_selected_document_stands_beside_the_list(s: MemoryData, key: Seq<char>, i: int)
    requires
        s.docs.len() <= usize::MAX,
        0 <= i < s.docs.len(),
        s.docs[i].key@ == key,
        forall|j: int| 0 <= j < i ==> (#[trigger] s.docs[j]).key@ != key,
    ensures
        s.selected == Some(key) ==> page::pane_of(s) == Pane::Reader(i as usize),
        s.selected is None && s.loading ==> page::pane_of(s) == Pane::Spinner,
        s.selected is None && !s.loading ==> page::pane_of(s) == Pane::Empty,
{
    law_documents_are_found_by_their_key(s.docs, key);
    if let Some(k) = state::find_doc(s.docs, key, 0) {
        if k < i {
            assert(s.docs[k].key@ != key);
        } else if i < k {
            assert(s.docs[i].key@ != key);
        }
    } else {
        assert(s.docs[i].key@ != key);
    }
}

/// A page that shows a document shows the selected one, and it is in the list.
pub proof fn law_only_selected_documents_are_shown(s: MemoryData, i: usize)
    requires
        s.docs.len() <= usize::MAX,
        page::pane_of(s) == Pane::Reader(i),
    ensures
        i < s.docs.len(),
        s.selected == Some(s.docs[i as int].key@),
{
    if let Some(key) = s.selected {
        law_documents_are_found_by_their_key(s.docs, key);
    }
}

/// The row of a document shows that document, and stands out exactly if it is the selected one; a
/// heading names the time of its document, or the user's own memories where they are pinned. A row
/// that the list no longer has is blank.
pub proof fn law_rows_show_their_document(s: MemoryData, ix: int, label: Seq<char>, d: usize)
    requires
        0 <= ix < s.rows.len(),
        d < s.docs.len(),
    ensures
        ({
            let doc = s.docs[d as int];
            let row = page::row_of(s, ix, label);
            let pinned = !(s.nav is User) && doc.scope == MemoryScope::User;
            &&& s.rows[ix] == MemoryRow::Doc(d) ==> (row matches RowViewData::Doc {
                key,
                selected,
                title,
                agent,
                group,
                badges,
                updated_at,
            } && {
                &&& key == doc.key@
                &&& title == doc.title@
                &&& agent == doc.agent
                &&& updated_at == doc.updated_at
                &&& selected <==> s.selected == Some(doc.key@)
                &&& doc.group matches MemoryGroup::Project(name) ==> group == WordsData::Plain(
                    name@,
                )
                &&& doc.scope != MemoryScope::Thread && doc.host@.len() == 0 ==> badges.len() == 0
            })
            &&& s.rows[ix] == MemoryRow::Group(d) && pinned ==> row == RowViewData::Heading(
                WordsData::Key("User memory"),
            )
            &&& s.rows[ix] == MemoryRow::Group(d) && !pinned ==> row == RowViewData::Heading(
                WordsData::Plain(label),
            )
            &&& page::row_of(s, s.rows.len() as int, label) is Blank
        }),
{
}

}
