//! What the memory page remembers: the documents, what is shown of them, and what is going on in
//! the background.
use crate::memory::docs;
use crate::memory::docs::{memory_rows, LabelledDoc, MemoryDoc, MemoryRow};
use crate::models::{clone_opt, AgentId};
use crate::order;
use crate::order::sort_ranked;
use crate::text::same_text;
use crate::ui::{filled, Words, WordsData};
use vstd::prelude::*;

verus! {

/// What is listed: everything, the user's own, the memories of an agent, or those of a project (no
/// path stands for those that belong to none).
pub enum MemoryNav {
    All,
    User,
    Agent(AgentId),
    Project(String),
}

/// What a [`MemoryNav`] holds.
pub enum NavData {
    All,
    User,
    Agent(AgentId),
    Project(Seq<char>),
}

impl DeepView for MemoryNav {
    type V = NavData;

    open spec fn deep_view(&self) -> NavData {
        match self {
            MemoryNav::All => NavData::All,
            MemoryNav::User => NavData::User,
            MemoryNav::Agent(a) => NavData::Agent(*a),
            MemoryNav::Project(p) => NavData::Project(p@),
        }
    }
}

/// How the user's own memories take part in a list.
#[derive(Clone, Copy, PartialEq, Eq, Structural, Debug)]
pub enum UserMemories {
    Alongside,
    Only,
    Excluded,
}

/// What the index is asked for.
pub struct MemoryFilter {
    pub agents: Vec<AgentId>,
    pub project_paths: Vec<String>,
    pub unattributed: bool,
    pub user: UserMemories,
}

/// What a [`MemoryFilter`] holds.
#[verifier::ext_equal]
pub struct FilterData {
    pub agents: Seq<AgentId>,
    pub project_paths: Seq<Seq<char>>,
    pub unattributed: bool,
    pub user: UserMemories,
}

impl DeepView for MemoryFilter {
    type V = FilterData;

    open spec fn deep_view(&self) -> FilterData {
        FilterData {
            agents: self.agents@,
            project_paths: self.project_paths.deep_view(),
            unattributed: self.unattributed,
            user: self.user,
        }
    }
}

/// What the index is asked for to show `nav`: a project's list leaves the user's own memories out.
pub open spec fn filter_of(nav: NavData) -> FilterData {
    let all = FilterData {
        agents: seq![],
        project_paths: seq![],
        unattributed: false,
        user: UserMemories::Alongside,
    };
    match nav {
        NavData::All => all,
        NavData::User => FilterData { user: UserMemories::Only, ..all },
        NavData::Agent(a) => FilterData { agents: seq![a], ..all },
        NavData::Project(path) => FilterData {
            project_paths: if path.len() == 0 { seq![] } else { seq![path] },
            unattributed: path.len() == 0,
            user: UserMemories::Excluded,
            ..all
        },
    }
}

/// What the index is asked for to show `nav`.
pub fn memory_filter(nav: &MemoryNav) -> (r: MemoryFilter)
    ensures
        r.deep_view() == filter_of(nav.deep_view()),
{
    let mut r = MemoryFilter {
        agents: Vec::new(),
        project_paths: Vec::new(),
        unattributed: false,
        user: UserMemories::Alongside,
    };
    match nav {
        MemoryNav::All => {},
        MemoryNav::User => {
            r.user = UserMemories::Only;
        },
        MemoryNav::Agent(a) => {
            r.agents.push(*a);
        },
        MemoryNav::Project(path) => {
            if path.as_str().is_empty() {
                r.unattributed = true;
            } else {
                r.project_paths.push(path.clone());
            }
            r.user = UserMemories::Excluded;
        },
    }
    assert(r.deep_view() =~= filter_of(nav.deep_view()));
    r
}

/// A project in the sidebar; no path stands for the memories that belong to none.
pub struct ProjectCount {
    pub path: String,
    pub name: String,
    pub count: usize,
}

/// How many memories there are, in all and by kind.
pub struct MemoryCounts {
    pub total: usize,
    pub user: usize,
    pub agents: Vec<(AgentId, usize)>,
    pub projects: Vec<ProjectCount>,
}

/// The text of the selected document, and the file that it really is.
pub struct LoadedMemory {
    pub body: Words,
    pub source_path: String,
}

/// What a [`LoadedMemory`] holds.
pub struct LoadedData {
    pub body: WordsData,
    pub source_path: Seq<char>,
}

impl DeepView for LoadedMemory {
    type V = LoadedData;

    open spec fn deep_view(&self) -> LoadedData {
        LoadedData { body: self.body.deep_view(), source_path: self.source_path@ }
    }
}

/// The state of the page.
pub struct MemoryState {
    docs: Vec<MemoryDoc>,
    rows: Vec<MemoryRow>,
    loading: bool,
    selected: Option<String>,
    loaded: Option<LoadedMemory>,
    counts: MemoryCounts,
    nav: MemoryNav,
    scope_changed: bool,
    syncing: bool,
    sync_pending: bool,
}

/// What a [`MemoryState`] holds.
#[verifier::ext_equal]
pub struct MemoryData {
    pub docs: Seq<MemoryDoc>,
    pub rows: Seq<MemoryRow>,
    pub loading: bool,
    pub selected: Option<Seq<char>>,
    pub loaded: Option<LoadedData>,
    pub counts: MemoryCounts,
    pub nav: NavData,
    pub scope_changed: bool,
    pub syncing: bool,
    pub sync_pending: bool,
}

impl View for MemoryState {
    type V = MemoryData;

    closed spec fn view(&self) -> MemoryData {
        MemoryData {
            docs: self.docs@,
            rows: self.rows@,
            loading: self.loading,
            selected: self.selected.deep_view(),
            loaded: self.loaded.deep_view(),
            counts: self.counts,
            nav: self.nav.deep_view(),
            scope_changed: self.scope_changed,
            syncing: self.syncing,
            sync_pending: self.sync_pending,
        }
    }
}

/// Where the first document with a key stands, from index `i` on.
pub open spec fn find_doc(docs: Seq<MemoryDoc>, key: Seq<char>, i: int) -> Option<int>
    decreases docs.len() - i,
{
    if i < 0 || i >= docs.len() {
        None
    } else if docs[i].key@ == key {
        Some(i)
    } else {
        find_doc(docs, key, i + 1)
    }
}

proof fn lemma_find_doc(docs: Seq<MemoryDoc>, key: Seq<char>, i: int)
    requires
        0 <= i,
    ensures
        find_doc(docs, key, i) matches Some(k) ==> i <= k < docs.len() && docs[k].key@ == key,
    decreases docs.len() - i,
{
    if i < docs.len() && docs[i].key@ != key {
        lemma_find_doc(docs, key, i + 1);
    }
}

/// When a document was last changed, and how long it is.
pub open spec fn stamp_of(docs: Seq<MemoryDoc>, key: Seq<char>) -> Option<(i64, i64)> {
    match find_doc(docs, key, 0) {
        Some(i) => Some((docs[i].updated_at, docs[i].size_bytes)),
        None => None,
    }
}

fn find_index(docs: &Vec<MemoryDoc>, key: &str) -> (r: Option<usize>)
    ensures
        match r {
            Some(i) => find_doc(docs@, key@, 0) == Some(i as int) && i < docs@.len(),
            None => find_doc(docs@, key@, 0) is None,
        },
{
    let mut i: usize = 0;
    while i < docs.len()
        invariant
            i <= docs.len(),
            find_doc(docs@, key@, 0) == find_doc(docs@, key@, i as int),
        decreases docs.len() - i,
    {
        if same_text(docs[i].key.as_str(), key) {
            return Some(i);
        }
        i = i + 1;
    }
    None
}

fn find_stamp(docs: &Vec<MemoryDoc>, key: &str) -> (r: Option<(i64, i64)>)
    ensures
        r == stamp_of(docs@, key@),
{
    match find_index(docs, key) {
        Some(i) => Some((docs[i].updated_at, docs[i].size_bytes)),
        None => None,
    }
}

/// What becomes of the selection when the documents are listed anew: it stays if its document is
/// still there, which is read again if it has changed; else the first document is selected.
pub enum Choice {
    Keep,
    Read(Seq<char>),
    Nothing,
}

/// What becomes of the selection when the documents are listed anew.
pub open spec fn choice_of(
    selected: Option<Seq<char>>,
    before: Seq<MemoryDoc>,
    after: Seq<MemoryDoc>,
) -> Choice {
    match selected {
        Some(key) if stamp_of(after, key) is Some => if stamp_of(before, key) != stamp_of(
            after,
            key,
        ) {
            Choice::Read(key)
        } else {
            Choice::Keep
        },
        _ => if after.len() > 0 {
            Choice::Read(after[0].key@)
        } else {
            Choice::Nothing
        },
    }
}

/// The state once some documents were listed anew, sorted.
pub open spec fn after_reload(
    s: MemoryData,
    sorted: Seq<LabelledDoc>,
    counts: MemoryCounts,
) -> MemoryData {
    let docs = Seq::new(sorted.len(), |i: int| sorted[i].doc);
    let choice = choice_of(s.selected, s.docs, docs);
    MemoryData {
        docs,
        rows: docs::rows_of(docs::sections(sorted, s.nav !is User)),
        loading: false,
        selected: match choice {
            Choice::Keep => s.selected,
            Choice::Read(key) => Some(key),
            Choice::Nothing => None,
        },
        loaded: if choice is Keep { s.loaded } else { None },
        counts,
        scope_changed: false,
        ..s
    }
}

/// A document whose text is to be read in the background.
pub struct LoadTask {
    pub key: String,
    pub path: String,
}

impl DeepView for LoadTask {
    type V = (Seq<char>, Seq<char>);

    open spec fn deep_view(&self) -> (Seq<char>, Seq<char>) {
        (self.key@, self.path@)
    }
}

/// What is to be read for the document with a key: that document, at its path.
pub open spec fn load_of(docs: Seq<MemoryDoc>, key: Seq<char>) -> Option<(Seq<char>, Seq<char>)> {
    match find_doc(docs, key, 0) {
        Some(i) => Some((key, docs[i].path@)),
        None => None,
    }
}

/// What is to be read once the documents are listed anew.
pub open spec fn load_after(
    selected: Option<Seq<char>>,
    before: Seq<MemoryDoc>,
    after: Seq<MemoryDoc>,
) -> Option<(Seq<char>, Seq<char>)> {
    match choice_of(selected, before, after) {
        Choice::Read(key) => load_of(after, key),
        _ => None,
    }
}

/// The state once a document was selected: a key that is not in the list changes nothing.
pub open spec fn after_select(s: MemoryData, key: Seq<char>) -> MemoryData {
    if find_doc(s.docs, key, 0) is None {
        s
    } else {
        MemoryData { selected: Some(key), loaded: None, ..s }
    }
}

/// The state once the text of a document has come in: only that of the selected one counts.
pub open spec fn after_load(s: MemoryData, key: Seq<char>, loaded: LoadedData) -> MemoryData {
    if s.selected == Some(key) {
        MemoryData { loaded: Some(loaded), ..s }
    } else {
        s
    }
}

/// What follows a new list: whether it begins at the top, how many rows there were and are, and what
/// is to be read.
pub struct ReloadStep {
    pub to_top: bool,
    pub old_rows: usize,
    pub new_rows: usize,
    pub load: Option<LoadTask>,
}

/// Whether the selected document is one of the list.
pub open spec fn selection_is_listed(s: MemoryData) -> bool {
    s.selected matches Some(key) ==> find_doc(s.docs, key, 0) is Some
}

/// The state once a request to read all memories again has come in, and whether that begins now: it
/// waits while one is going on, or the sessions are being read.
pub open spec fn after_request(s: MemoryData, scanning: bool) -> (MemoryData, bool) {
    if s.syncing || scanning {
        (MemoryData { sync_pending: true, ..s }, false)
    } else {
        (MemoryData { syncing: true, ..s }, true)
    }
}

/// The state once all memories were read again, and whether that begins anew for a request that has
/// waited.
pub open spec fn after_sync(s: MemoryData, scanning: bool) -> (MemoryData, bool) {
    let idle = MemoryData { syncing: false, sync_pending: false, ..s };
    if s.sync_pending {
        after_request(idle, scanning)
    } else {
        (idle, false)
    }
}

/// The state once the sessions were read, and whether reading the memories begins for a request that
/// has waited.
pub open spec fn after_scan(s: MemoryData, scanning: bool) -> (MemoryData, bool) {
    if !s.syncing && s.sync_pending {
        after_request(MemoryData { sync_pending: false, ..s }, scanning)
    } else {
        (s, false)
    }
}

/// The state once the list may be asked for again, and what it is asked for, if it is: nothing while
/// the page is not shown, and nothing while the sessions are being read, unless there is no list yet
/// or another one is wanted.
pub open spec fn after_ask(
    s: MemoryData,
    shown: bool,
    scanning: bool,
) -> (MemoryData, Option<FilterData>) {
    if !shown || (scanning && s.docs.len() > 0 && !s.scope_changed) {
        (s, None)
    } else {
        (MemoryData { loading: s.docs.len() == 0, ..s }, Some(filter_of(s.nav)))
    }
}

/// The state once something else is to be listed, and what the list is asked for.
pub open spec fn after_scope(
    s: MemoryData,
    nav: NavData,
    shown: bool,
    scanning: bool,
) -> (MemoryData, Option<FilterData>) {
    after_ask(MemoryData { nav, scope_changed: true, ..s }, shown, scanning)
}

/// What follows the end of a reading of all memories: whether another begins for a request that has
/// waited, and what the list is asked for.
pub struct SyncEnd {
    pub begins: bool,
    pub reload: Option<MemoryFilter>,
}

impl MemoryState {
    /// The state before the page was opened.
    pub fn default() -> (r: Self)
        ensures
            r@.docs.len() == 0,
            r@.rows.len() == 0,
            !r@.loading,
            r@.selected is None,
            r@.loaded is None,
            r@.counts.total == 0,
            r@.counts.user == 0,
            r@.counts.agents@.len() == 0,
            r@.counts.projects@.len() == 0,
            r@.nav is All,
            !r@.scope_changed,
            !r@.syncing,
            !r@.sync_pending,
    {
        MemoryState {
            docs: Vec::new(),
            rows: Vec::new(),
            loading: false,
            selected: None,
            loaded: None,
            counts: MemoryCounts {
                total: 0,
                user: 0,
                agents: Vec::new(),
                projects: Vec::new(),
            },
            nav: MemoryNav::All,
            scope_changed: false,
            syncing: false,
            sync_pending: false,
        }
    }

    /// The documents.
    pub fn docs(&self) -> (r: &Vec<MemoryDoc>)
        ensures
            r@ == self@.docs,
    {
        &self.docs
    }

    /// The rows of the list.
    pub fn rows(&self) -> (r: &Vec<MemoryRow>)
        ensures
            r@ == self@.rows,
    {
        &self.rows
    }

    /// What is listed.
    pub fn nav(&self) -> (r: &MemoryNav)
        ensures
            r.deep_view() == self@.nav,
    {
        &self.nav
    }

    /// How many memories there are.
    pub fn counts(&self) -> (r: &MemoryCounts)
        ensures
            *r == self@.counts,
    {
        &self.counts
    }

    /// The text of the selected document, once it was read.
    pub fn loaded(&self) -> (r: Option<&LoadedMemory>)
        ensures
            match r {
                Some(l) => self@.loaded == Some(l.deep_view()),
                None => self@.loaded is None,
            },
    {
        match &self.loaded {
            Some(l) => Some(l),
            None => None,
        }
    }

    /// Whether the first list is still awaited.
    pub fn is_loading(&self) -> (r: bool)
        ensures
            r == self@.loading,
    {
        self.loading
    }

    /// Whether all memories are being read again.
    pub fn is_syncing(&self) -> (r: bool)
        ensures
            r == self@.syncing,
    {
        self.syncing
    }

    /// Where the selected document stands in the list.
    pub fn selected_index(&self) -> (r: Option<usize>)
        ensures
            match r {
                Some(i) => i < self@.docs.len() && (self@.selected matches Some(key) && find_doc(
                    self@.docs,
                    key,
                    0,
                ) == Some(i as int)),
                None => self@.selected matches Some(key) ==> find_doc(self@.docs, key, 0) is None,
            },
    {
        match &self.selected {
            Some(key) => find_index(&self.docs, key.as_str()),
            None => None,
        }
    }

    /// Whether a document is the selected one.
    pub fn is_selected(&self, key: &str) -> (r: bool)
        ensures
            r == (self@.selected == Some(key@)),
    {
        match &self.selected {
            Some(k) => same_text(k.as_str(), key),
            None => false,
        }
    }

    /// Whether the user's own memories stand under a heading of their own: not where nothing else
    /// is listed.
    pub fn memory_pins_user(&self) -> (r: bool)
        ensures
            r == (self@.nav !is User),
    {
        match &self.nav {
            MemoryNav::User => false,
            _ => true,
        }
    }

    /// Everything is listed whenever the page is opened.
    pub fn reset_memory_scope(&mut self)
        ensures
            final(self)@ == (MemoryData { nav: NavData::All, scope_changed: true, ..old(self)@ }),
    {
        self.nav = MemoryNav::All;
        self.scope_changed = true;
    }

    /// Takes in what is to be listed; gives what the index is asked for, which is so whenever the
    /// page is shown.
    pub fn set_memory_scope(&mut self, nav: MemoryNav, shown: bool, scanning: bool) -> (r: Option<
        MemoryFilter,
    >)
        ensures
            (final(self)@, r.deep_view()) == after_scope(
                old(self)@,
                nav.deep_view(),
                shown,
                scanning,
            ),
            r.deep_view() == (if shown {
                Some(filter_of(nav.deep_view()))
            } else {
                None
            }),
    {
        self.nav = nav;
        self.scope_changed = true;
        self.reload_memories(shown, scanning)
    }

    /// Takes in a request to read all memories again; tells whether that begins now.
    pub fn start_memory_sync(&mut self, scanning: bool) -> (begins: bool)
        ensures
            (final(self)@, begins) == after_request(old(self)@, scanning),
    {
        if self.syncing || scanning {
            self.sync_pending = true;
            false
        } else {
            self.syncing = true;
            true
        }
    }

    /// Takes in that the user wants all memories read again; gives what the user is told when that
    /// is done, if it begins now.
    pub fn refresh_memories(&mut self, scanning: bool) -> (notice: Option<&'static str>)
        ensures
            final(self)@ == after_request(old(self)@, scanning).0,
            notice == (if after_request(old(self)@, scanning).1 {
                Some("Memory refreshed")
            } else {
                None
            }),
    {
        if self.start_memory_sync(scanning) {
            Some("Memory refreshed")
        } else {
            None
        }
    }

    /// Takes in that the places of memories were changed; tells whether reading them begins now.
    /// The user is not told of it.
    pub fn sync_memories_quietly(&mut self, scanning: bool) -> (begins: bool)
        ensures
            (final(self)@, begins) == after_request(old(self)@, scanning),
    {
        self.start_memory_sync(scanning)
    }

    /// Takes in that all memories were read again; tells whether that begins anew, and asks for the
    /// list.
    pub fn sync_finished(&mut self, shown: bool, scanning: bool) -> (r: SyncEnd)
        ensures
            r.begins == after_sync(old(self)@, scanning).1,
            (final(self)@, r.reload.deep_view()) == after_ask(
                after_sync(old(self)@, scanning).0,
                shown,
                scanning,
            ),
    {
        self.syncing = false;
        let waited = self.sync_pending;
        self.sync_pending = false;
        let begins = if waited {
            self.sync_memories_quietly(scanning)
        } else {
            false
        };
        let reload = self.reload_memories(shown, scanning);
        SyncEnd { begins, reload }
    }

    /// Takes in that the sessions were read; tells whether reading the memories begins.
    pub fn drain_pending_memory_sync(&mut self, scanning: bool) -> (begins: bool)
        ensures
            (final(self)@, begins) == after_scan(old(self)@, scanning),
    {
        if !self.syncing && self.sync_pending {
            self.sync_pending = false;
            self.sync_memories_quietly(scanning)
        } else {
            false
        }
    }

    /// What the index is asked for now, if anything: nothing while the page is not shown, and
    /// nothing while the sessions are being read, unless there is no list yet or another one is
    /// wanted.
    pub fn reload_memories(&mut self, shown: bool, scanning: bool) -> (r: Option<MemoryFilter>)
        ensures
            (final(self)@, r.deep_view()) == after_ask(old(self)@, shown, scanning),
    {
        if !shown {
            return None;
        }
        if scanning && self.docs.len() != 0 && !self.scope_changed {
            return None;
        }
        self.loading = self.docs.len() == 0;
        Some(memory_filter(&self.nav))
    }

    /// Takes in that the list could not be had: what was there stays.
    pub fn reload_failed(&mut self)
        ensures
            final(self)@ == (MemoryData { loading: false, ..old(self)@ }),
    {
        self.loading = false;
    }

    /// Takes in a new list, sorts it and puts it in rows. It begins at the top only if another list
    /// was wanted.
    pub fn memories_listed(&mut self, items: Vec<LabelledDoc>, counts: MemoryCounts) -> (r:
        ReloadStep)
        ensures
            final(self)@ == after_reload(old(self)@, order::ranked(items@), counts),
            selection_is_listed(final(self)@),
            final(self)@.docs.len() > 0 ==> final(self)@.selected is Some,
            r.to_top == old(self)@.scope_changed,
            r.old_rows == old(self)@.rows.len(),
            r.new_rows == final(self)@.rows.len(),
            match choice_of(old(self)@.selected, old(self)@.docs, final(self)@.docs) {
                Choice::Read(key) => r.load matches Some(t) && t.key@ == key && t.path@
                    == final(self)@.docs[find_doc(final(self)@.docs, key, 0)->0].path@,
                _ => r.load is None,
            },
            r.load.deep_view() == load_after(
                old(self)@.selected,
                old(self)@.docs,
                final(self)@.docs,
            ),
    {
        let ghost s = self@;
        let pin_user = self.memory_pins_user();
        let sorted = sort_ranked(items);
        let ghost ranked = sorted@;
        let rows = memory_rows(&sorted, pin_user);
        let docs = unlabel(sorted);
        let ghost expected = after_reload(s, ranked, counts);
        assert(docs@ =~= expected.docs);
        let to_top = self.scope_changed;
        let old_rows: usize = self.rows.len();
        let new_rows: usize = rows.len();
        let mut keep = false;
        let mut wanted: Option<String> = None;
        if let Some(key) = &self.selected {
            let now = find_stamp(&docs, key.as_str());
            if now.is_some() {
                if find_stamp(&self.docs, key.as_str()) == now {
                    keep = true;
                } else {
                    wanted = Some(key.clone());
                }
            }
        }
        if !keep && wanted.is_none() && docs.len() > 0 {
            wanted = Some(docs[0].key.clone());
        }
        let ghost choice = choice_of(s.selected, s.docs, docs@);
        assert(keep == (choice is Keep));
        assert(match choice {
            Choice::Read(key) => wanted.deep_view() == Some(key),
            _ => wanted is None,
        });
        self.docs = docs;
        self.rows = rows;
        self.counts = counts;
        self.loading = false;
        self.scope_changed = false;
        let mut load: Option<LoadTask> = None;
        if !keep {
            self.loaded = None;
            self.selected = clone_opt(&wanted);
            if let Some(key) = wanted {
                proof {
                    lemma_find_doc(self.docs@, key@, 0);
                    if s.selected != Some(key@) || stamp_of(self.docs@, key@) is None {
                        assert(find_doc(self.docs@, key@, 0) == Some(0int));
                    }
                }
                if let Some(i) = find_index(&self.docs, key.as_str()) {
                    load = Some(LoadTask { path: self.docs[i].path.clone(), key });
                }
            }
        }
        assert(self@ =~= expected);
        ReloadStep { to_top, old_rows, new_rows, load }
    }

    /// Selects a document of the list; gives what is to be read. A key that is not in the list
    /// changes nothing.
    pub fn select_memory(&mut self, key: &str) -> (r: Option<LoadTask>)
        ensures
            match find_doc(old(self)@.docs, key@, 0) {
                None => r is None && final(self)@ == old(self)@,
                Some(i) => {
                    &&& r matches Some(t) && t.key@ == key@ && t.path@ == old(self)@.docs[i].path@
                    &&& final(self)@ == (MemoryData {
                        selected: Some(key@),
                        loaded: None,
                        ..old(self)@
                    })
                },
            },
            final(self)@ == after_select(old(self)@, key@),
            r.deep_view() == load_of(old(self)@.docs, key@),
    {
        match find_index(&self.docs, key) {
            None => None,
            Some(i) => {
                let path = self.docs[i].path.clone();
                self.selected = Some(key.to_owned());
                self.loaded = None;
                Some(LoadTask { key: key.to_owned(), path })
            },
        }
    }

    /// Takes in the text of a document, or why it could not be read: only that of the document that
    /// is still selected counts. Tells whether it did.
    pub fn memory_loaded(
        &mut self,
        key: &str,
        source_path: String,
        body: Result<String, String>,
    ) -> (shown: bool)
        ensures
            shown == (old(self)@.selected == Some(key@)),
            final(self)@ == (if old(self)@.selected == Some(key@) {
                MemoryData {
                    loaded: Some(
                        LoadedData {
                            body: match body {
                                Ok(t) => WordsData::Plain(t@),
                                Err(e) => WordsData::Filled {
                                    template: "Could not read this memory file: {}",
                                    args: seq![e@],
                                },
                            },
                            source_path: source_path@,
                        },
                    ),
                    ..old(self)@
                }
            } else {
                old(self)@
            }),
            final(self)@ == after_load(
                old(self)@,
                key@,
                LoadedData {
                    body: match body {
                        Ok(t) => WordsData::Plain(t@),
                        Err(e) => WordsData::Filled {
                            template: "Could not read this memory file: {}",
                            args: seq![e@],
                        },
                    },
                    source_path: source_path@,
                },
            ),
    {
        if !self.is_selected(key) {
            return false;
        }
        let body = match body {
            Ok(t) => Words::Plain(t),
            Err(e) => filled("Could not read this memory file: {}", e.as_str()),
        };
        self.loaded = Some(LoadedMemory { body, source_path });
        true
    }
}

fn unlabel(items: Vec<LabelledDoc>) -> (r: Vec<MemoryDoc>)
    ensures
        r@ == Seq::new(items@.len(), |i: int| items@[i].doc),
{
    let mut out: Vec<MemoryDoc> = Vec::new();
    let ghost all = items@;
    let ghost expected = Seq::new(all.len(), |i: int| all[i].doc);
    for item in it: items
        invariant
            it.seq() == all,
            expected == Seq::new(all.len(), |i: int| all[i].doc),
            out@ == expected.take(it.index() as int),
    {
        out.push(item.doc);
        assert(out@ =~= expected.take(it.index() as int + 1));
    }
    assert(expected.take(all.len() as int) =~= expected);
    out
}

/// A request that comes in while the memories are being read is not lost: when that is done, it is
/// served at once, unless the sessions are being read, and then when they are done.
pub proof fn law_requests_are_not_lost(s: MemoryData, scanning: bool)
    requires
        s.syncing,
    ensures
        ({
            let (asked, began) = after_request(s, scanning);
            let (done, again) = after_sync(asked, scanning);
            &&& !began
            &&& !scanning ==> again && done.syncing && !done.sync_pending
            &&& scanning ==> !again && done.sync_pending && {
                let (drained, then) = after_scan(done, false);
                then && drained.syncing && !drained.sync_pending
            }
        }),
{
}

/// When all memories were read again, the list is asked for: always where the page is shown, but for
/// a list that is held back because the sessions are being read.
pub proof fn law_the_list_follows_a_reading(s: MemoryData, shown: bool, scanning: bool)
    ensures
        ({
            let (done, again) = after_sync(s, scanning);
            let asked = after_ask(done, shown, scanning).1;
            &&& asked is Some <==> shown && !(scanning && s.docs.len() > 0 && !s.scope_changed)
            &&& asked is Some ==> asked == Some(filter_of(s.nav))
        }),
{
}

/// A click in the sidebar is never without effect: where the page is shown, the list of the new
/// scope is asked for at once, also while the sessions are being read.
pub proof fn law_a_new_scope_is_listed_at_once(s: MemoryData, nav: NavData, scanning: bool)
    ensures
        after_scope(s, nav, true, scanning).1 == Some(filter_of(nav)),
{
}

/// The memories are never read twice at a time: a reading begins only where none is going on.
pub proof fn law_one_reading_at_a_time(s: MemoryData, scanning: bool)
    ensures
        after_request(s, scanning).1 ==> !s.syncing && !scanning,
        after_scan(s, scanning).1 ==> !s.syncing && !scanning,
        after_request(s, scanning).1 ==> after_request(s, scanning).0.syncing,
        after_scan(s, scanning).1 ==> after_scan(s, scanning).0.syncing,
        after_sync(s, scanning).1 == after_sync(s, scanning).0.syncing,
{
}

/// An unchanged document that is selected stays as it is when the list comes in anew.
pub proof fn law_unchanged_selection_stays(
    s: MemoryData,
    sorted: Seq<LabelledDoc>,
    counts: MemoryCounts,
    key: Seq<char>,
)
    requires
        s.selected == Some(key),
        stamp_of(Seq::new(sorted.len(), |i: int| sorted[i].doc), key) is Some,
        stamp_of(Seq::new(sorted.len(), |i: int| sorted[i].doc), key) == stamp_of(s.docs, key),
    ensures
        after_reload(s, sorted, counts).selected == s.selected,
        after_reload(s, sorted, counts).loaded == s.loaded,
{
}

}
