//! What the memory page shows.
use crate::memory::docs;
use crate::memory::docs::{
    memory_badges, memory_display_path, memory_group_label, memory_section_label, Badge, BadgeData,
    MemoryDoc, MemoryRow,
};
use crate::memory::state;
use crate::memory::state::{MemoryData, MemoryNav, MemoryState, NavData, ProjectCount};
use crate::models::AgentId;
use crate::paths;
use crate::paths::parent;
use crate::text::{concat2, concat3, same_text};
use crate::ui::{filled, Words, WordsData};
use vstd::prelude::*;

verus! {

/// A title: words, or the name of an agent.
pub enum Title {
    Words(Words),
    Agent(AgentId),
}

/// What a [`Title`] holds.
pub enum TitleData {
    Words(WordsData),
    Agent(AgentId),
}

impl DeepView for Title {
    type V = TitleData;

    open spec fn deep_view(&self) -> TitleData {
        match self {
            Title::Words(w) => TitleData::Words(w.deep_view()),
            Title::Agent(a) => TitleData::Agent(*a),
        }
    }
}

/// The name of the first project at a path.
pub open spec fn project_name(
    projects: Seq<ProjectCount>,
    path: Seq<char>,
    i: int,
) -> Option<Seq<char>>
    decreases projects.len() - i,
{
    if i < 0 || i >= projects.len() {
        None
    } else if projects[i].path@ == path {
        Some(projects[i].name@)
    } else {
        project_name(projects, path, i + 1)
    }
}

/// The title of the list: what is listed.
pub open spec fn title_of(nav: NavData, projects: Seq<ProjectCount>) -> TitleData {
    match nav {
        NavData::All => TitleData::Words(WordsData::Key("All Memory")),
        NavData::User => TitleData::Words(WordsData::Key("User memory")),
        NavData::Agent(a) => TitleData::Agent(a),
        NavData::Project(path) => TitleData::Words(
            if path.len() == 0 {
                WordsData::Key("Unknown project")
            } else {
                match project_name(projects, path, 0) {
                    Some(name) => WordsData::Plain(name),
                    None => WordsData::Key("Projects"),
                }
            },
        ),
    }
}

fn find_project(projects: &Vec<ProjectCount>, path: &str) -> (r: Option<String>)
    ensures
        r.deep_view() == project_name(projects@, path@, 0),
{
    let mut i: usize = 0;
    while i < projects.len()
        invariant
            i <= projects.len(),
            project_name(projects@, path@, 0) == project_name(projects@, path@, i as int),
        decreases projects.len() - i,
    {
        if same_text(projects[i].path.as_str(), path) {
            return Some(projects[i].name.clone());
        }
        i = i + 1;
    }
    None
}

/// The title of the list.
pub fn memory_context_title(s: &MemoryState) -> (r: Title)
    ensures
        r.deep_view() == title_of(s@.nav, s@.counts.projects@),
{
    match s.nav() {
        MemoryNav::All => Title::Words(Words::Key("All Memory")),
        MemoryNav::User => Title::Words(Words::Key("User memory")),
        MemoryNav::Agent(a) => Title::Agent(*a),
        MemoryNav::Project(path) => Title::Words(
            if path.as_str().is_empty() {
                Words::Key("Unknown project")
            } else {
                match find_project(&s.counts().projects, path.as_str()) {
                    Some(name) => Words::Plain(name),
                    None => Words::Key("Projects"),
                }
            },
        ),
    }
}

/// What stands beside the list: the selected document, a sign that the list is awaited, or that
/// there are no memories.
#[derive(Clone, Copy, PartialEq, Eq, Structural, Debug)]
pub enum Pane {
    Reader(usize),
    Spinner,
    Empty,
}

/// What stands beside the list.
pub open spec fn pane_of(s: MemoryData) -> Pane {
    let at = match s.selected {
        Some(key) => state::find_doc(s.docs, key, 0),
        None => None,
    };
    match at {
        Some(i) => Pane::Reader(i as usize),
        None => if s.loading {
            Pane::Spinner
        } else {
            Pane::Empty
        },
    }
}

/// The page: a head with a title, a count and a button to read everything again, which is off while
/// that is going on; the list, where there is one; and what stands beside it.
pub struct MemoryPage {
    pub title: Title,
    pub subtitle: Words,
    pub refresh_busy: bool,
    pub has_list: bool,
    pub pane: Pane,
    pub empty_icon: &'static str,
    pub empty_title: &'static str,
    /// The sentence below the title, by the key under which it is translated.
    pub empty_text: String,
}

/// What the page says where there are no memories; `writer` is the agent that is named first.
pub open spec fn empty_sentence(writer: Seq<char>) -> Seq<char> {
    "Agents write these as they work: "@ + writer
        + "'s auto-memory, Codex's memories, ZCode's project memory. They show up here once they exist."@
}

/// The page; `writer` is the agent that is named first where there are no memories.
pub fn render_memory(s: &MemoryState, scanning: bool, writer: &str) -> (r: MemoryPage)
    ensures
        r.title.deep_view() == title_of(s@.nav, s@.counts.projects@),
        r.subtitle.deep_view() == (WordsData::Counted {
            one: "{} memory file",
            many: "{} memory files",
            count: s@.docs.len() as usize,
        }),
        r.refresh_busy == (scanning || s@.syncing),
        r.has_list == (s@.docs.len() > 0),
        match r.pane {
            Pane::Reader(i) => i < s@.docs.len() && (s@.selected matches Some(key)
                && state::find_doc(s@.docs, key, 0) == Some(i as int)),
            Pane::Spinner => s@.loading && (s@.selected matches Some(key) ==> state::find_doc(
                s@.docs,
                key,
                0,
            ) is None),
            Pane::Empty => !s@.loading && (s@.selected matches Some(key) ==> state::find_doc(
                s@.docs,
                key,
                0,
            ) is None),
        },
        r.pane == pane_of(s@),
        r.empty_icon == "icons/file-text.svg",
        r.empty_title == "No memory files yet",
        r.empty_text@ == empty_sentence(writer@),
{
    let count: usize = s.docs().len();
    let pane = match s.selected_index() {
        Some(i) => Pane::Reader(i),
        None => if s.is_loading() {
            Pane::Spinner
        } else {
            Pane::Empty
        },
    };
    MemoryPage {
        title: memory_context_title(s),
        subtitle: Words::Counted { one: "{} memory file", many: "{} memory files", count },
        refresh_busy: scanning || s.is_syncing(),
        has_list: count > 0,
        pane,
        empty_icon: "icons/file-text.svg",
        empty_title: "No memory files yet",
        empty_text: concat3(
            "Agents write these as they work: ",
            writer,
            "'s auto-memory, Codex's memories, ZCode's project memory. They show up here once they exist.",
        ),
    }
}

/// A row of the list as it is drawn.
pub enum RowView {
    /// Nothing: the list has changed under the row.
    Blank,
    Heading(Words),
    /// A document: its title, what it belongs to and its marks, and when it was last changed. A
    /// click selects it.
    Doc {
        key: String,
        selected: bool,
        title: String,
        agent: AgentId,
        group: Words,
        badges: Vec<Badge>,
        updated_at: i64,
    },
}

/// What a [`RowView`] holds.
pub enum RowViewData {
    Blank,
    Heading(WordsData),
    Doc {
        key: Seq<char>,
        selected: bool,
        title: Seq<char>,
        agent: AgentId,
        group: WordsData,
        badges: Seq<BadgeData>,
        updated_at: i64,
    },
}

impl DeepView for RowView {
    type V = RowViewData;

    open spec fn deep_view(&self) -> RowViewData {
        match self {
            RowView::Blank => RowViewData::Blank,
            RowView::Heading(w) => RowViewData::Heading(w.deep_view()),
            RowView::Doc { key, selected, title, agent, group, badges, updated_at } =>
                RowViewData::Doc {
                key: key@,
                selected: *selected,
                title: title@,
                agent: *agent,
                group: group.deep_view(),
                badges: badges.deep_view(),
                updated_at: *updated_at,
            },
        }
    }
}

/// The row of a document while `selected` is selected.
pub open spec fn doc_row(doc: MemoryDoc, selected: Option<Seq<char>>) -> RowViewData {
    RowViewData::Doc {
        key: doc.key@,
        selected: selected == Some(doc.key@),
        title: doc.title@,
        agent: doc.agent,
        group: docs::group_words(doc.group),
        badges: docs::badges_of(doc.scope, doc.host@),
        updated_at: doc.updated_at,
    }
}

/// Row `ix` of the list, where `time_label` is the name of the time of its document.
pub open spec fn row_of(s: MemoryData, ix: int, time_label: Seq<char>) -> RowViewData {
    if ix < 0 || ix >= s.rows.len() {
        RowViewData::Blank
    } else {
        match s.rows[ix] {
            MemoryRow::Group(d) => RowViewData::Heading(
                if d < s.docs.len() {
                    docs::section_of(s.docs[d as int].scope, time_label, s.nav !is User)
                } else {
                    WordsData::Plain(seq![])
                },
            ),
            MemoryRow::Doc(d) => if d < s.docs.len() {
                doc_row(s.docs[d as int], s.selected)
            } else {
                RowViewData::Blank
            },
        }
    }
}

/// The document that a row of the list needs the time of: that of a heading.
pub fn row_time(s: &MemoryState, ix: usize) -> (r: Option<i64>)
    ensures
        r == (if ix < s@.rows.len() {
            match s@.rows[ix as int] {
                MemoryRow::Group(d) if d < s@.docs.len() => Some(s@.docs[d as int].updated_at),
                _ => None,
            }
        } else {
            None
        }),
{
    let rows = s.rows();
    if ix < rows.len() {
        if let MemoryRow::Group(d) = rows[ix] {
            if d < s.docs().len() {
                return Some(s.docs()[d].updated_at);
            }
        }
    }
    None
}

/// Row `ix` of the list; `time_label` is the name of the time that [`row_time`] gives.
pub fn render_memory_row(s: &MemoryState, ix: usize, time_label: &str) -> (r: RowView)
    ensures
        if ix >= s@.rows.len() {
            r is Blank
        } else {
            match s@.rows[ix as int] {
                MemoryRow::Group(d) => r matches RowView::Heading(w) && w.deep_view() == (if d
                    < s@.docs.len() {
                    docs::section_of(s@.docs[d as int].scope, time_label@, s@.nav !is User)
                } else {
                    WordsData::Plain(seq![])
                }),
                MemoryRow::Doc(d) => if d >= s@.docs.len() {
                    r is Blank
                } else {
                    let doc = s@.docs[d as int];
                    r matches RowView::Doc { key, selected, title, agent, group, badges, updated_at }
                        && {
                        &&& key@ == doc.key@
                        &&& selected == (s@.selected == Some(doc.key@))
                        &&& title@ == doc.title@
                        &&& agent == doc.agent
                        &&& group.deep_view() == docs::group_words(doc.group)
                        &&& badges.deep_view() == docs::badges_of(doc.scope, doc.host@)
                        &&& updated_at == doc.updated_at
                    }
                },
            }
        },
        r.deep_view() == row_of(s@, ix as int, time_label@),
{
    let rows = s.rows();
    if ix >= rows.len() {
        return RowView::Blank;
    }
    match rows[ix] {
        MemoryRow::Group(d) => {
            if d < s.docs().len() {
                RowView::Heading(
                    memory_section_label(&s.docs()[d], time_label, s.memory_pins_user()),
                )
            } else {
                let none = String::new();
                assert(none@ =~= seq![]);
                RowView::Heading(Words::Plain(none))
            }
        },
        MemoryRow::Doc(d) => {
            if d >= s.docs().len() {
                return RowView::Blank;
            }
            let doc = &s.docs()[d];
            RowView::Doc {
                key: doc.key.clone(),
                selected: s.is_selected(doc.key.as_str()),
                title: doc.title.clone(),
                agent: doc.agent,
                group: memory_group_label(doc),
                badges: memory_badges(doc),
                updated_at: doc.updated_at,
            }
        },
    }
}

/// The selected document as it is read.
pub struct ReaderView {
    pub agent: AgentId,
    pub project_path: String,
    pub group: Words,
    pub badges: Vec<Badge>,
    pub title: String,
    /// The file that can be shown and whose path can be copied.
    pub source_path: String,
    /// When it was last changed, in short and in full.
    pub updated: Words,
    pub updated_tooltip: Words,
    /// Where links in the text lead from.
    pub link_base: String,
    pub host: String,
    pub content_id: String,
    /// The text, once it is there; until then a sign that it is awaited.
    pub body: Option<Words>,
    pub path_icon: &'static str,
    pub time_icon: &'static str,
    pub reveal_icon: &'static str,
    pub copy_icon: &'static str,
    pub copy_label: &'static str,
}

/// The file that a document is: the one that was found when it was read, else the one that its path
/// names.
pub open spec fn source_of(doc: MemoryDoc, loaded: Option<state::LoadedData>) -> Seq<char> {
    match loaded {
        Some(l) => l.source_path,
        None => docs::display_path(doc.scope, doc.path@),
    }
}

/// Where links in a document lead from: the directory of its file, or its project where it is no
/// file of its own.
pub open spec fn link_base_of(doc: MemoryDoc, source: Seq<char>, windows: bool) -> Seq<char> {
    if source == doc.path@ {
        paths::parent_of(doc.path@, windows).unwrap_or(seq![])
    } else {
        doc.project_path@
    }
}

/// The selected document as it is read; `shown_time` and `exact_time` name the time when it was last
/// changed.
pub fn render_memory_reader(
    s: &MemoryState,
    doc: &MemoryDoc,
    shown_time: &str,
    exact_time: &str,
    windows: bool,
) -> (r: ReaderView)
    ensures
        r.agent == doc.agent,
        r.project_path@ == doc.project_path@,
        r.group.deep_view() == docs::group_words(doc.group),
        r.badges.deep_view() == docs::badges_of(doc.scope, doc.host@),
        r.title@ == doc.title@,
        r.source_path@ == source_of(*doc, s@.loaded),
        r.updated.deep_view() == (WordsData::Filled {
            template: "Updated {}",
            args: seq![shown_time@],
        }),
        r.updated_tooltip.deep_view() == (WordsData::Filled {
            template: "Updated {}",
            args: seq![exact_time@],
        }),
        r.link_base@ == link_base_of(*doc, source_of(*doc, s@.loaded), windows),
        r.host@ == doc.host@,
        r.content_id@ == "memory-"@ + doc.key@,
        r.body.deep_view() == (match s@.loaded {
            Some(l) => Some(l.body),
            None => None,
        }),
        r.path_icon == "icons/file-text.svg",
        r.time_icon == "icons/calendar.svg",
        r.reveal_icon == "icons/folder.svg",
        r.copy_icon == "icons/copy.svg",
        r.copy_label == "Copy path",
{
    let source_path = match s.loaded() {
        Some(l) => l.source_path.clone(),
        None => memory_display_path(doc),
    };
    let link_base = if same_text(source_path.as_str(), doc.path.as_str()) {
        match parent(doc.path.as_str(), windows) {
            Some(p) => p,
            None => {
                let none = String::new();
                assert(none@ =~= seq![]);
                none
            },
        }
    } else {
        doc.project_path.clone()
    };
    ReaderView {
        agent: doc.agent,
        project_path: doc.project_path.clone(),
        group: memory_group_label(doc),
        badges: memory_badges(doc),
        title: doc.title.clone(),
        source_path,
        updated: filled("Updated {}", shown_time),
        updated_tooltip: filled("Updated {}", exact_time),
        link_base,
        host: doc.host.clone(),
        content_id: concat2("memory-", doc.key.as_str()),
        body: match s.loaded() {
            Some(l) => Some(l.body.copied()),
            None => None,
        },
        path_icon: "icons/file-text.svg",
        time_icon: "icons/calendar.svg",
        reveal_icon: "icons/folder.svg",
        copy_icon: "icons/copy.svg",
        copy_label: "Copy path",
    }
}

/// A row at the top of the sidebar, with a count where there is one to tell.
#[derive(Clone, Copy, Debug)]
pub struct TopRow {
    pub id: &'static str,
    pub icon: &'static str,
    pub label: &'static str,
    pub count: Option<usize>,
    pub active: bool,
}

/// An agent in the sidebar.
#[derive(Clone, Copy, PartialEq, Eq, Structural, Debug)]
pub struct AgentRow {
    pub agent: AgentId,
    pub count: usize,
    pub active: bool,
}

/// A project in the sidebar.
pub struct ProjectRow {
    pub path: String,
    pub label: Words,
    pub count: usize,
    pub active: bool,
}

/// What a [`ProjectRow`] holds.
pub struct ProjectRowData {
    pub path: Seq<char>,
    pub label: WordsData,
    pub count: usize,
    pub active: bool,
}

impl DeepView for ProjectRow {
    type V = ProjectRowData;

    open spec fn deep_view(&self) -> ProjectRowData {
        ProjectRowData {
            path: self.path@,
            label: self.label.deep_view(),
            count: self.count,
            active: self.active,
        }
    }
}

/// The agents in the sidebar.
pub open spec fn agent_rows(counts: Seq<(AgentId, usize)>, nav: NavData) -> Seq<AgentRow> {
    Seq::new(
        counts.len(),
        |i: int|
            AgentRow {
                agent: counts[i].0,
                count: counts[i].1,
                active: nav == NavData::Agent(counts[i].0),
            },
    )
}

/// The projects in the sidebar.
pub open spec fn project_rows(projects: Seq<ProjectCount>, nav: NavData) -> Seq<ProjectRowData> {
    Seq::new(
        projects.len(),
        |i: int|
            ProjectRowData {
                path: projects[i].path@,
                label: if projects[i].path@.len() == 0 {
                    WordsData::Key("Unknown project")
                } else {
                    WordsData::Plain(projects[i].name@)
                },
                count: projects[i].count,
                active: nav == NavData::Project(projects[i].path@),
            },
    )
}

/// The sidebar: everything, the user's own, and what there is by agent and by project. Of all rows
/// the one that is listed is active.
pub struct MemoryNavView {
    pub all: TopRow,
    pub user: TopRow,
    pub agents: Vec<AgentRow>,
    pub projects: Vec<ProjectRow>,
}

fn nav_is_agent(nav: &MemoryNav, agent: AgentId) -> (r: bool)
    ensures
        r == (nav.deep_view() == NavData::Agent(agent)),
{
    match nav {
        MemoryNav::Agent(a) => *a == agent,
        _ => false,
    }
}

fn nav_is_project(nav: &MemoryNav, path: &str) -> (r: bool)
    ensures
        r == (nav.deep_view() == NavData::Project(path@)),
{
    match nav {
        MemoryNav::Project(p) => same_text(p.as_str(), path),
        _ => false,
    }
}

/// The sidebar.
pub fn render_memory_nav(s: &MemoryState) -> (r: MemoryNavView)
    ensures
        r.all == (TopRow {
            id: "memory-all",
            icon: "icons/file-text.svg",
            label: "All Memory",
            count: Some(s@.counts.total),
            active: s@.nav is All,
        }),
        r.user == (TopRow {
            id: "memory-user",
            icon: "icons/user.svg",
            label: "User memory",
            count: if s@.counts.user > 0 {
                Some(s@.counts.user)
            } else {
                None
            },
            active: s@.nav is User,
        }),
        r.agents@ == agent_rows(s@.counts.agents@, s@.nav),
        r.projects.deep_view() == project_rows(s@.counts.projects@, s@.nav),
{
    let counts = s.counts();
    let nav = s.nav();
    let (on_all, on_user) = match nav {
        MemoryNav::All => (true, false),
        MemoryNav::User => (false, true),
        _ => (false, false),
    };
    let mut agents: Vec<AgentRow> = Vec::new();
    let ghost expected = agent_rows(counts.agents@, nav.deep_view());
    let mut i: usize = 0;
    while i < counts.agents.len()
        invariant
            i <= counts.agents.len(),
            expected == agent_rows(counts.agents@, nav.deep_view()),
            agents@ == expected.take(i as int),
        decreases counts.agents.len() - i,
    {
        let (agent, count) = counts.agents[i];
        agents.push(AgentRow { agent, count, active: nav_is_agent(nav, agent) });
        assert(agents@ =~= expected.take(i + 1));
        i = i + 1;
    }
    assert(expected.take(expected.len() as int) =~= expected);
    let mut projects: Vec<ProjectRow> = Vec::new();
    let ghost wanted = project_rows(counts.projects@, nav.deep_view());
    let mut j: usize = 0;
    while j < counts.projects.len()
        invariant
            j <= counts.projects.len(),
            wanted == project_rows(counts.projects@, nav.deep_view()),
            projects.deep_view() == wanted.take(j as int),
        decreases counts.projects.len() - j,
    {
        let ghost before = projects.deep_view();
        let p = &counts.projects[j];
        let row = ProjectRow {
            path: p.path.clone(),
            label: if p.path.as_str().is_empty() {
                Words::Key("Unknown project")
            } else {
                Words::Plain(p.name.clone())
            },
            count: p.count,
            active: nav_is_project(nav, p.path.as_str()),
        };
        projects.push(row);
        proof {
            assert(projects.deep_view() =~= before.push(row.deep_view()));
            assert(projects.deep_view() =~= wanted.take(j + 1));
        }
        j = j + 1;
    }
    assert(wanted.take(wanted.len() as int) =~= wanted);
    MemoryNavView {
        all: TopRow {
            id: "memory-all",
            icon: "icons/file-text.svg",
            label: "All Memory",
            count: Some(counts.total),
            active: on_all,
        },
        user: TopRow {
            id: "memory-user",
            icon: "icons/user.svg",
            label: "User memory",
            count: if counts.user > 0 {
                Some(counts.user)
            } else {
                None
            },
            active: on_user,
        },
        agents,
        projects,
    }
}

/// What a click on the row of the user's own memories lists: them, or everything if they are listed
/// already.
pub fn user_row_clicked(nav: &MemoryNav) -> (r: MemoryNav)
    ensures
        r.deep_view() == (if nav.deep_view() is User {
            NavData::All
        } else {
            NavData::User
        }),
{
    match nav {
        MemoryNav::User => MemoryNav::All,
        _ => MemoryNav::User,
    }
}

/// What a click on an agent lists; none stands for a click on the one that is listed already.
pub fn agent_row_clicked(next: Option<AgentId>) -> (r: MemoryNav)
    ensures
        r.deep_view() == (match next {
            Some(a) => NavData::Agent(a),
            None => NavData::All,
        }),
{
    match next {
        Some(a) => MemoryNav::Agent(a),
        None => MemoryNav::All,
    }
}

/// What a click on a project lists; none stands for a click on the one that is listed already.
pub fn project_row_clicked(next: Option<String>) -> (r: MemoryNav)
    ensures
        r.deep_view() == (match next {
            Some(p) => NavData::Project(p@),
            None => NavData::All,
        }),
{
    match next {
        Some(p) => MemoryNav::Project(p),
        None => MemoryNav::All,
    }
}

}
