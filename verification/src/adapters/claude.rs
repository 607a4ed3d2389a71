//! The adapter for sessions kept as one JSONL file each, a directory per project.
use crate::adapters::claude_transcript::{ParseData, ParseResult};
use crate::json;
use crate::json::{parse_json, Json};
use crate::models;
use crate::models::{
    clone_opt, count_text, or_empty, AgentId, FileRefData, MemorySource, MemorySourceKind,
    MessageData, MetaData, ParsedSession, ParsedTranscript, SessionFileRef, SessionMeta,
    SidechainData, SidechainInfo, SourceData, ToolCallData, TranscriptMessage, TreeUnit,
};
use crate::order;
use crate::order::text_before_or_same;
use crate::paths;
use crate::paths::{join, parent};
use crate::text;
use crate::text::{
    ascii_upper, chars_of, concat2, concat3, contains, ends_with, same_text, trim_end_matches,
};
use vstd::hash_map::StringHashMap;
use vstd::prelude::*;

verus! {

/// What the agent calls its things on disk: its directory below the user's home, the file that
/// holds the user's instructions, and the word that session keys begin with.
pub struct ClaudeNames {
    pub data_dir: String,
    pub instructions: String,
    pub slug: String,
}

/// What a [`ClaudeNames`] holds.
pub struct NamesData {
    pub data_dir: Seq<char>,
    pub instructions: Seq<char>,
    pub slug: Seq<char>,
}

impl DeepView for ClaudeNames {
    type V = NamesData;

    open spec fn deep_view(&self) -> NamesData {
        NamesData {
            data_dir: self.data_dir@,
            instructions: self.instructions@,
            slug: self.slug@,
        }
    }
}

/// The names that follow from what the agent is called.
pub open spec fn names_of(word: Seq<char>) -> NamesData {
    NamesData {
        data_dir: "."@ + word,
        instructions: text::upper(word) + ".md"@,
        slug: word + "-code"@,
    }
}

impl ClaudeNames {
    /// The names that follow from what the agent is called, in lower case: `word` itself as a hidden
    /// directory, in capitals as a Markdown file, and before `-code` in keys.
    pub fn of(word: &str) -> (r: ClaudeNames)
        ensures
            r.deep_view() == names_of(word@),
    {
        ClaudeNames {
            data_dir: concat2(".", word),
            instructions: concat2(ascii_upper(word).as_str(), ".md"),
            slug: concat2(word, "-code"),
        }
    }

    /// A copy.
    pub fn copied(&self) -> (r: ClaudeNames)
        ensures
            r.deep_view() == self.deep_view(),
    {
        ClaudeNames {
            data_dir: self.data_dir.clone(),
            instructions: self.instructions.clone(),
            slug: self.slug.clone(),
        }
    }
}

/// The adapter. `root` holds a directory per project, and `home` the user's instructions, where
/// there is a home: a bare projects directory has none, and its parent is left alone. Project paths
/// are looked for on disk only if the sessions are this machine's own (`local`); what was found
/// under a directory name, or that nothing was, is remembered.
pub struct ClaudeAdapter {
    root: String,
    home: Option<String>,
    local: bool,
    decoded: StringHashMap<Option<String>>,
    names: ClaudeNames,
    windows: bool,
}

/// What a [`ClaudeAdapter`] holds.
#[verifier::ext_equal]
pub struct AdapterData {
    pub root: Seq<char>,
    pub home: Option<Seq<char>>,
    pub local: bool,
    pub decoded: Map<Seq<char>, Option<Seq<char>>>,
    pub names: NamesData,
    pub windows: bool,
}

impl View for ClaudeAdapter {
    type V = AdapterData;

    closed spec fn view(&self) -> AdapterData {
        AdapterData {
            root: self.root@,
            home: self.home.deep_view(),
            local: self.local,
            decoded: self.decoded@.map_values(|o: Option<String>| o.deep_view()),
            names: self.names.deep_view(),
            windows: self.windows,
        }
    }
}

/// An adapter that has looked nothing up yet.
pub open spec fn fresh_adapter(
    root: Seq<char>,
    home: Option<Seq<char>>,
    local: bool,
    names: NamesData,
    windows: bool,
) -> AdapterData {
    AdapterData { root, home, local, decoded: Map::empty(), names, windows }
}

/// The adapter for this machine's own sessions, before anything was looked up.
pub open spec fn own_adapter(
    home_dir: Option<Seq<char>>,
    names: NamesData,
    windows: bool,
) -> AdapterData {
    let home = paths::joined(home_dir.unwrap_or(seq![]), names.data_dir, windows);
    fresh_adapter(paths::joined(home, "projects"@, windows), Some(home), true, names, windows)
}

/// The adapter for a directory that the user has picked, before anything was looked up.
pub open spec fn picked_adapter(
    dir: Seq<char>,
    has_projects: bool,
    names: NamesData,
    windows: bool,
) -> AdapterData {
    if has_projects {
        fresh_adapter(paths::joined(dir, "projects"@, windows), Some(dir), false, names, windows)
    } else {
        fresh_adapter(dir, None, false, names, windows)
    }
}

/// The places that hold memories.
pub open spec fn sources_of(a: AdapterData) -> Seq<SourceData> {
    let tree = SourceData {
        agent: AgentId::ClaudeCode,
        kind: MemorySourceKind::ProjectTree,
        path: a.root,
    };
    match a.home {
        None => seq![tree],
        Some(home) => seq![
            tree,
            SourceData {
                agent: AgentId::ClaudeCode,
                kind: MemorySourceKind::File,
                path: paths::joined(home, a.names.instructions, a.windows),
            },
        ],
    }
}

/// The project path that is remembered for a session directory once a search for it came to
/// `found`: the first answer is kept.
pub open spec fn answer_for(
    decoded: Map<Seq<char>, Option<Seq<char>>>,
    name: Seq<char>,
    found: Option<Seq<char>>,
) -> Option<Seq<char>> {
    if decoded.contains_key(name) {
        decoded[name]
    } else {
        found
    }
}

/// What the memories of a project directory hang on, as a session key and a project path: the key
/// of its newest session; and only where there is none, and only on the machine that wrote the
/// sessions, the project path that was found.
pub open spec fn unit_of(
    newest_key: Option<Seq<char>>,
    found: Option<Seq<char>>,
    local: bool,
) -> (Seq<char>, Seq<char>) {
    let key = newest_key.unwrap_or(seq![]);
    (
        key,
        if key.len() == 0 && local {
            found.unwrap_or(seq![])
        } else {
            seq![]
        },
    )
}

/// Whether a path may be that of a session: not one of a side chain or of a memory.
pub open spec fn is_session_path(path: Seq<char>) -> bool {
    !text::occurs_in(path, "/subagents/"@) && !text::occurs_in(path, "/memory/"@)
}

/// What is deleted with a session.
pub open spec fn paths_of_session(
    file_path: Seq<char>,
    id: Seq<char>,
    sidecar_is_dir: bool,
    windows: bool,
) -> Seq<Seq<char>> {
    match paths::parent_of(file_path, windows) {
        Some(dir) if sidecar_is_dir => seq![file_path, paths::joined(dir, id, windows)],
        _ => seq![file_path],
    }
}

impl ClaudeAdapter {
    fn fresh(
        root: String,
        home: Option<String>,
        local: bool,
        names: ClaudeNames,
        windows: bool,
    ) -> (r: Self)
        ensures
            r@ == fresh_adapter(root@, home.deep_view(), local, names.deep_view(), windows),
    {
        let r = ClaudeAdapter { root, home, local, decoded: StringHashMap::new(), names, windows };
        assert(r@.decoded =~= Map::empty());
        r
    }

    /// The adapter for this machine's own sessions, below the user's home directory (the current
    /// directory where there is none).
    pub fn new(home_dir: Option<String>, names: ClaudeNames, windows: bool) -> (r: Self)
        ensures
            ({
                let home = paths::joined(
                    home_dir.deep_view().unwrap_or(seq![]),
                    names.deep_view().data_dir,
                    windows,
                );
                r@ == fresh_adapter(
                    paths::joined(home, "projects"@, windows),
                    Some(home),
                    true,
                    names.deep_view(),
                    windows,
                )
            }),
            r@ == own_adapter(home_dir.deep_view(), names.deep_view(), windows),
    {
        let base = match home_dir {
            Some(dir) => dir,
            None => {
                let none = String::new();
                assert(none@ =~= seq![]);
                none
            },
        };
        let home = join(base.as_str(), names.data_dir.as_str(), windows);
        let root = join(home.as_str(), "projects", windows);
        ClaudeAdapter::fresh(root, Some(home), true, names, windows)
    }

    /// Where the projects are kept below a directory that the user has picked.
    pub fn custom_projects_dir(&self, dir: &str) -> (r: String)
        ensures
            r@ == paths::joined(dir@, "projects"@, self@.windows),
    {
        join(dir, "projects", self.windows)
    }

    /// The adapter for a directory that the user has picked: one that holds the projects directory
    /// (`has_projects`), or the projects directory itself, which has no home.
    pub fn with_custom_root(&self, dir: String, has_projects: bool) -> (r: Self)
        ensures
            has_projects ==> r@ == fresh_adapter(
                paths::joined(dir@, "projects"@, self@.windows),
                Some(dir@),
                false,
                self@.names,
                self@.windows,
            ),
            !has_projects ==> r@ == fresh_adapter(dir@, None, false, self@.names, self@.windows),
            r@ == picked_adapter(dir@, has_projects, self@.names, self@.windows),
    {
        if has_projects {
            let root = self.custom_projects_dir(dir.as_str());
            ClaudeAdapter::fresh(root, Some(dir), false, self.names.copied(), self.windows)
        } else {
            ClaudeAdapter::fresh(dir, None, false, self.names.copied(), self.windows)
        }
    }

    /// The agent.
    pub fn agent(&self) -> (r: AgentId)
        ensures
            r == AgentId::ClaudeCode,
    {
        AgentId::ClaudeCode
    }

    /// The directories that hold sessions.
    pub fn data_roots(&self) -> (r: Vec<String>)
        ensures
            r.deep_view() == seq![self@.root],
    {
        let mut v: Vec<String> = Vec::new();
        v.push(self.root.clone());
        assert(v.deep_view() =~= seq![self@.root]);
        v
    }

    /// The places that hold memories: the tree that the agent writes, a directory per project, and
    /// the user's instructions, where there is a home.
    pub fn memory_sources(&self) -> (r: Vec<MemorySource>)
        ensures
            r.deep_view() == seq![
                SourceData {
                    agent: AgentId::ClaudeCode,
                    kind: MemorySourceKind::ProjectTree,
                    path: self@.root,
                },
            ] + (match self@.home {
                Some(home) => seq![
                    SourceData {
                        agent: AgentId::ClaudeCode,
                        kind: MemorySourceKind::File,
                        path: paths::joined(home, self@.names.instructions, self@.windows),
                    },
                ],
                None => seq![],
            }),
            r.deep_view() == sources_of(self@),
    {
        let mut v: Vec<MemorySource> = Vec::new();
        v.push(
            MemorySource {
                agent: AgentId::ClaudeCode,
                kind: MemorySourceKind::ProjectTree,
                path: self.root.clone(),
            },
        );
        assert(v.deep_view() =~= seq![v@[0].deep_view()]);
        if let Some(home) = &self.home {
            v.push(
                MemorySource {
                    agent: AgentId::ClaudeCode,
                    kind: MemorySourceKind::File,
                    path: join(
                        home.as_str(),
                        self.names.instructions.as_str(),
                        self.windows,
                    ),
                },
            );
            assert(v.deep_view() =~= seq![v@[0].deep_view(), v@[1].deep_view()]);
        }
        v
    }

    /// The project path remembered for a session directory: `None` where it was never looked up.
    pub fn remembered(&self, name: &str) -> (r: Option<Option<String>>)
        ensures
            r.deep_view() == (if self@.decoded.contains_key(name@) {
                Some(self@.decoded[name@])
            } else {
                None
            }),
    {
        match self.decoded.get(name) {
            Some(found) => Some(clone_opt(found)),
            None => None,
        }
    }

    /// The project path of a session directory, where `decoded` is what a search for it comes to:
    /// the first answer is kept, also that there is none.
    pub fn project_path_of_dir(&mut self, name: &str, decoded: Option<String>) -> (r: Option<
        String,
    >)
        ensures
            ({
                let answer = if old(self)@.decoded.contains_key(name@) {
                    old(self)@.decoded[name@]
                } else {
                    decoded.deep_view()
                };
                &&& r.deep_view() == answer
                &&& answer == answer_for(old(self)@.decoded, name@, decoded.deep_view())
                &&& final(self)@ == (AdapterData {
                    decoded: old(self)@.decoded.insert(name@, answer),
                    ..old(self)@
                })
            }),
    {
        let ghost before = self@;
        if let Some(found) = self.decoded.get(name) {
            let r = clone_opt(found);
            assert(before.decoded.insert(name@, r.deep_view()) =~= before.decoded);
            return r;
        }
        let r = clone_opt(&decoded);
        self.decoded.insert(name.to_owned(), decoded);
        assert(self@.decoded =~= before.decoded.insert(name@, decoded.deep_view()));
        r
    }

    /// Whether the project path of a session directory is looked for on disk: only where no
    /// session tells it, and only on the machine that wrote the sessions.
    pub fn needs_decoding(&self, newest_key: &Option<String>) -> (r: bool)
        ensures
            r == (newest_key.deep_view().unwrap_or(seq![]).len() == 0 && self@.local),
    {
        match newest_key {
            Some(key) => key.as_str().is_empty() && self.local,
            None => self.local,
        }
    }

    /// What the memories of a project directory hang on, given the key of its newest session and
    /// the project path that was found for its name.
    pub fn tree_unit(&self, newest_key: Option<String>, found: Option<String>) -> (r: TreeUnit)
        ensures
            r.session_key@ == newest_key.deep_view().unwrap_or(seq![]),
            r.project_path@ == (if r.session_key@.len() == 0 && self@.local {
                found.deep_view().unwrap_or(seq![])
            } else {
                seq![]
            }),
            (r.session_key@, r.project_path@) == unit_of(
                newest_key.deep_view(),
                found.deep_view(),
                self@.local,
            ),
    {
        let wanted = self.needs_decoding(&newest_key);
        TreeUnit {
            session_key: or_empty(newest_key),
            project_path: if wanted {
                or_empty(found)
            } else {
                or_empty(None)
            },
        }
    }

    /// The session that a file holds, given what a session file in general is taken for: the
    /// transcripts of side chains and memories are none.
    pub fn file_ref(&self, path: &str, default: Option<SessionFileRef>) -> (r: Option<
        SessionFileRef,
    >)
        ensures
            r == (if text::occurs_in(path@, "/subagents/"@) || text::occurs_in(
                path@,
                "/memory/"@,
            ) {
                None
            } else {
                default
            }),
            !is_session_path(path@) ==> r is None,
            is_session_path(path@) ==> r == default,
    {
        if contains(path, "/subagents/") || contains(path, "/memory/") {
            None
        } else {
            default
        }
    }

    /// The directory beside a session file that holds what belongs to the session.
    pub fn sidecar_dir(&self, meta: &SessionMeta) -> (r: Option<String>)
        ensures
            r.deep_view() == (match paths::parent_of(meta.file_path@, self@.windows) {
                Some(dir) => Some(paths::joined(dir, meta.id@, self@.windows)),
                None => None,
            }),
    {
        match parent(meta.file_path.as_str(), self.windows) {
            Some(dir) => Some(join(dir.as_str(), meta.id.as_str(), self.windows)),
            None => None,
        }
    }

    /// What is deleted with a session: its file, and the directory beside it where that is one
    /// (`sidecar_is_dir`).
    pub fn session_paths(&self, meta: &SessionMeta, sidecar_is_dir: bool) -> (r: Vec<String>)
        ensures
            r.deep_view() == seq![meta.file_path@] + (match paths::parent_of(
                meta.file_path@,
                self@.windows,
            ) {
                Some(dir) if sidecar_is_dir => seq![paths::joined(dir, meta.id@, self@.windows)],
                _ => seq![],
            }),
            r.deep_view() == paths_of_session(
                meta.file_path@,
                meta.id@,
                sidecar_is_dir,
                self@.windows,
            ),
    {
        let mut v: Vec<String> = Vec::new();
        v.push(meta.file_path.clone());
        assert(v.deep_view() =~= seq![meta.file_path@]);
        if sidecar_is_dir {
            if let Some(sidecar) = self.sidecar_dir(meta) {
                v.push(sidecar);
                assert(v.deep_view() =~= seq![meta.file_path@, sidecar@]);
            }
        }
        v
    }

    /// What is cleaned up with a session: the same.
    pub fn cleanup_paths(&self, meta: &SessionMeta, sidecar_is_dir: bool) -> (r: Option<
        Vec<String>,
    >)
        ensures
            r.deep_view() == Some(
                seq![meta.file_path@] + (match paths::parent_of(
                meta.file_path@,
                self@.windows,
            ) {
                    Some(dir) if sidecar_is_dir => seq![paths::joined(dir, meta.id@, self@.windows)],
                    _ => seq![],
                }),
            ),
    {
        Some(self.session_paths(meta, sidecar_is_dir))
    }
}

/// The key of a session in the index.
pub open spec fn session_key_of(slug: Seq<char>, native_id: Seq<char>) -> Seq<char> {
    slug + ":"@ + native_id
}

/// The index entry of a session: times that the transcript does not tell are those of its file.
pub open spec fn meta_of(
    r: FileRefData,
    p: ParseData,
    project_name: Seq<char>,
    slug: Seq<char>,
) -> MetaData {
    MetaData {
        key: session_key_of(slug, r.native_id),
        host: seq![],
        id: r.native_id,
        agent: AgentId::ClaudeCode,
        title: p.title,
        project_path: p.cwd,
        project_name,
        file_path: r.file_path,
        created_at: models::time_or(p.created_at, r.mtime_ms),
        updated_at: models::time_or(p.updated_at, r.mtime_ms),
        message_count: models::text_count(p.messages) as i64,
        size_bytes: r.size,
        git_branch: p.git_branch,
        model: p.model,
        tokens_used: if p.tokens_used > 0 { Some(p.tokens_used) } else { None },
        archived: false,
        source: None,
        favorite: false,
        pinned: false,
    }
}

/// The index entry of a session. `project_name` is what the working directory is shown as.
pub fn build_meta(
    r: &SessionFileRef,
    p: &ParseResult,
    project_name: String,
    names: &ClaudeNames,
) -> (m: SessionMeta)
    ensures
        m.deep_view() == meta_of(r.deep_view(), p.deep_view(), project_name@, names.slug@),
        m.title@ == p.title@,
        m.id@ == r.native_id@,
{
    SessionMeta {
        key: concat3(names.slug.as_str(), ":", r.native_id.as_str()),
        host: or_empty(None),
        id: r.native_id.clone(),
        agent: AgentId::ClaudeCode,
        title: p.title.clone(),
        project_path: p.cwd.clone(),
        project_name,
        file_path: r.file_path.clone(),
        created_at: if p.created_at > 0 {
            p.created_at
        } else {
            r.mtime_ms
        },
        updated_at: if p.updated_at > 0 {
            p.updated_at
        } else {
            r.mtime_ms
        },
        message_count: count_text(&p.messages),
        size_bytes: r.size,
        git_branch: clone_opt(&p.git_branch),
        model: clone_opt(&p.model),
        tokens_used: if p.tokens_used > 0 {
            Some(p.tokens_used)
        } else {
            None
        },
        archived: false,
        source: None,
        favorite: false,
        pinned: false,
    }
}

impl ClaudeAdapter {
    /// A session for the index, from its transcript and the search units made of it.
    pub fn parse_session<U>(
        &self,
        r: &SessionFileRef,
        parsed: &ParseResult,
        project_name: String,
        units: U,
    ) -> (s: ParsedSession<U>)
        ensures
            s.meta.deep_view() == meta_of(
                r.deep_view(),
                parsed.deep_view(),
                project_name@,
                self@.names.slug,
            ),
            s.units == units,
            s.unknown_line_count == parsed.unknown_lines,
    {
        ParsedSession {
            meta: build_meta(r, parsed, project_name, &self.names),
            units,
            unknown_line_count: parsed.unknown_lines,
        }
    }
}

/// The side chain that a tool call started: the last one that names the call.
pub open spec fn sidechain_for(sidechains: Seq<SidechainData>, id: Seq<char>) -> Option<Seq<char>>
    decreases sidechains.len(),
{
    if sidechains.len() == 0 {
        None
    } else if sidechains.last().tool_use_id == Some(id) {
        Some(sidechains.last().id)
    } else {
        sidechain_for(sidechains.drop_last(), id)
    }
}

/// A tool call with its side chain, where it has one.
pub open spec fn call_with_sidechain(
    call: ToolCallData,
    sidechains: Seq<SidechainData>,
) -> ToolCallData {
    match sidechain_for(sidechains, call.id) {
        Some(id) => ToolCallData { sidechain_ref: Some(id), ..call },
        None => call,
    }
}

/// A message whose tool calls have their side chains.
pub open spec fn message_with_sidechains(
    m: MessageData,
    sidechains: Seq<SidechainData>,
) -> MessageData {
    MessageData {
        tool_calls: Seq::new(
            m.tool_calls.len(),
            |i: int| call_with_sidechain(m.tool_calls[i], sidechains),
        ),
        ..m
    }
}

/// Messages whose tool calls have their side chains.
pub open spec fn with_sidechains(
    messages: Seq<MessageData>,
    sidechains: Seq<SidechainData>,
) -> Seq<MessageData> {
    Seq::new(messages.len(), |i: int| message_with_sidechains(messages[i], sidechains))
}

fn find_sidechain(sidechains: &Vec<SidechainInfo>, id: &str) -> (r: Option<String>)
    ensures
        r.deep_view() == sidechain_for(sidechains.deep_view(), id@),
{
    let ghost all = sidechains.deep_view();
    let mut i: usize = sidechains.len();
    assert(all.take(all.len() as int) =~= all);
    while i > 0
        invariant
            i <= sidechains.len(),
            all == sidechains.deep_view(),
            sidechain_for(all, id@) == sidechain_for(all.take(i as int), id@),
        decreases i,
    {
        let s = &sidechains[i - 1];
        assert(all.take(i as int).last() == s.deep_view());
        if let Some(t) = &s.tool_use_id {
            if same_text(t.as_str(), id) {
                return Some(s.id.clone());
            }
        }
        assert(all.take(i as int).drop_last() =~= all.take(i - 1));
        i = i - 1;
    }
    None
}

fn attach_message(m: &mut TranscriptMessage, sidechains: &Vec<SidechainInfo>)
    ensures
        final(m).deep_view() == message_with_sidechains(
            old(m).deep_view(),
            sidechains.deep_view(),
        ),
{
    let ghost before = m.deep_view();
    let ghost chains = sidechains.deep_view();
    let mut i: usize = 0;
    while i < m.tool_calls.len()
        invariant
            i <= m.tool_calls.len(),
            chains == sidechains.deep_view(),
            m.tool_calls@.len() == before.tool_calls.len(),
            m.deep_view() == (MessageData { tool_calls: m.tool_calls.deep_view(), ..before }),
            forall|j: int|
                0 <= j < i ==> (#[trigger] m.tool_calls.deep_view()[j]) == call_with_sidechain(
                    before.tool_calls[j],
                    chains,
                ),
            forall|j: int|
                i <= j < m.tool_calls@.len() ==> (#[trigger] m.tool_calls.deep_view()[j])
                    == before.tool_calls[j],
        decreases m.tool_calls.len() - i,
    {
        let ghost now = m.tool_calls.deep_view();
        assert(now[i as int] == before.tool_calls[i as int]);
        let found = find_sidechain(sidechains, m.tool_calls[i].id.as_str());
        if let Some(id) = found {
            m.tool_calls[i].sidechain_ref = Some(id);
        }
        assert(m.tool_calls.deep_view() =~= now.update(
            i as int,
            call_with_sidechain(before.tool_calls[i as int], chains),
        ));
        i = i + 1;
    }
    assert(m.deep_view() =~= message_with_sidechains(before, chains));
}

impl ClaudeAdapter {
    /// A session for a reader: every tool call of the main line that started a side chain points to
    /// it.
    pub fn parse_transcript(
        &self,
        r: &SessionFileRef,
        parsed: ParseResult,
        sidechains: Vec<SidechainInfo>,
        project_name: String,
    ) -> (t: ParsedTranscript)
        ensures
            t.meta.deep_view() == meta_of(
                r.deep_view(),
                parsed.deep_view(),
                project_name@,
                self@.names.slug,
            ),
            t.mainline.deep_view() == with_sidechains(
                parsed.deep_view().messages,
                sidechains.deep_view(),
            ),
            t.sidechains == sidechains,
            t.unknown_line_count == parsed.unknown_lines,
    {
        let meta = build_meta(r, &parsed, project_name, &self.names);
        let ghost before = parsed.messages.deep_view();
        let ghost chains = sidechains.deep_view();
        let mut mainline = parsed.messages;
        let mut i: usize = 0;
        while i < mainline.len()
            invariant
                i <= mainline.len(),
                chains == sidechains.deep_view(),
                mainline@.len() == before.len(),
                forall|j: int|
                    0 <= j < i ==> (#[trigger] mainline.deep_view()[j]) == message_with_sidechains(
                        before[j],
                        chains,
                    ),
                forall|j: int|
                    i <= j < mainline@.len() ==> (#[trigger] mainline.deep_view()[j]) == before[j],
            decreases mainline.len() - i,
        {
            let ghost now = mainline.deep_view();
            assert(now[i as int] == before[i as int]);
            let m = &mut mainline[i];
            attach_message(m, &sidechains);
            assert(mainline.deep_view() =~= now.update(
                i as int,
                message_with_sidechains(before[i as int], chains),
            ));
            i = i + 1;
        }
        assert(mainline.deep_view() =~= with_sidechains(before, chains));
        ParsedTranscript { meta, mainline, sidechains, unknown_line_count: parsed.unknown_lines }
    }
}

impl ClaudeAdapter {
    /// The messages of a side chain, from its transcript; one without a file has none.
    pub fn load_sidechain(&self, parsed: Option<ParseResult>) -> (r: Vec<TranscriptMessage>)
        ensures
            match parsed {
                Some(p) => r == p.messages,
                None => r@.len() == 0,
            },
    {
        match parsed {
            Some(p) => p.messages,
            None => Vec::new(),
        }
    }
}

/// Where the side chains of a session are kept.
pub open spec fn subagents_path(
    file_path: Seq<char>,
    native_id: Seq<char>,
    windows: bool,
) -> Seq<char> {
    let dir = paths::parent_of(file_path, windows).unwrap_or("."@);
    paths::joined(paths::joined(dir, native_id, windows), "subagents"@, windows)
}

/// Where the side chains of a session are kept.
pub fn subagents_dir(r: &SessionFileRef, windows: bool) -> (d: String)
    ensures
        d@ == subagents_path(r.file_path@, r.native_id@, windows),
{
    let base = match parent(r.file_path.as_str(), windows) {
        Some(dir) => dir,
        None => ".".to_owned(),
    };
    let own = join(base.as_str(), r.native_id.as_str(), windows);
    join(own.as_str(), "subagents", windows)
}

/// The transcript file of a side chain.
pub fn sidechain_file(r: &SessionFileRef, sidechain_id: &str, windows: bool) -> (f: String)
    ensures
        f@ == paths::joined(
            subagents_path(r.file_path@, r.native_id@, windows),
            sidechain_id@ + ".jsonl"@,
            windows,
        ),
{
    let dir = subagents_dir(r, windows);
    join(dir.as_str(), concat2(sidechain_id, ".jsonl").as_str(), windows)
}

/// The file beside the transcript of a side chain that describes it.
pub fn sidechain_meta_file(r: &SessionFileRef, sidechain_id: &str, windows: bool) -> (f: String)
    ensures
        f@ == paths::joined(
            subagents_path(r.file_path@, r.native_id@, windows),
            sidechain_id@ + ".meta.json"@,
            windows,
        ),
{
    let dir = subagents_dir(r, windows);
    join(dir.as_str(), concat2(sidechain_id, ".meta.json").as_str(), windows)
}

/// The id that a transcript file gives its session, where it is one by its name.
pub open spec fn id_of_file(name: Seq<char>) -> Option<Seq<char>> {
    if ".jsonl"@.is_suffix_of(name) {
        Some(text::without_suffix(name, ".jsonl"@))
    } else {
        None
    }
}

/// The id that a transcript file gives its session, where it is one by its name.
pub fn transcript_id(name: &str) -> (r: Option<String>)
    ensures
        r.deep_view() == id_of_file(name@),
{
    if ends_with(name, ".jsonl") {
        Some(trim_end_matches(name, ".jsonl"))
    } else {
        None
    }
}

/// What the description of a side chain says; one that cannot be read says nothing.
pub open spec fn sidechain_of(id: Seq<char>, meta: Option<Seq<char>>) -> SidechainData {
    let doc = match meta {
        Some(text) => json::json_of_text(text),
        None => None,
    };
    match doc {
        Some(j) => SidechainData {
            id,
            agent_type: j.str_field("agentType"@),
            description: j.str_field("description"@),
            tool_use_id: j.str_field("toolUseId"@),
        },
        None => SidechainData { id, agent_type: None, description: None, tool_use_id: None },
    }
}

/// A side chain, given its description where there is one.
pub fn sidechain_info(id: String, doc: Option<Json>) -> (r: SidechainInfo)
    ensures
        r.deep_view() == (match doc {
            Some(j) => SidechainData {
                id: id@,
                agent_type: j.deep_view().str_field("agentType"@),
                description: j.deep_view().str_field("description"@),
                tool_use_id: j.deep_view().str_field("toolUseId"@),
            },
            None => SidechainData {
                id: id@,
                agent_type: None,
                description: None,
                tool_use_id: None,
            },
        }),
{
    match doc {
        Some(j) => SidechainInfo {
            id,
            agent_type: j.string_field("agentType"),
            description: j.string_field("description"),
            tool_use_id: j.string_field("toolUseId"),
        },
        None => SidechainInfo { id, agent_type: None, description: None, tool_use_id: None },
    }
}

/// The side chains among the files of their directory, in order. A file comes with the text of the
/// description beside it, where that can be read.
pub open spec fn sidechains_of(
    files: Seq<(Seq<char>, Option<Seq<char>>)>,
) -> Seq<SidechainData>
    decreases files.len(),
{
    if files.len() == 0 {
        seq![]
    } else {
        let before = sidechains_of(files.drop_last());
        match id_of_file(files.last().0) {
            Some(id) => before.push(sidechain_of(id, files.last().1)),
            None => before,
        }
    }
}

/// A file of a directory: its name, and the text of the description beside it.
pub struct SidechainFile {
    pub name: String,
    pub meta: Option<String>,
}

impl DeepView for SidechainFile {
    type V = (Seq<char>, Option<Seq<char>>);

    open spec fn deep_view(&self) -> (Seq<char>, Option<Seq<char>>) {
        (self.name@, self.meta.deep_view())
    }
}

/// The side chains among the files of their directory, in order.
pub fn list_sidechains(files: &Vec<SidechainFile>) -> (r: Vec<SidechainInfo>)
    ensures
        r.deep_view() == sidechains_of(files.deep_view()),
{
    let mut out: Vec<SidechainInfo> = Vec::new();
    let ghost all = files.deep_view();
    let mut i: usize = 0;
    assert(out.deep_view() =~= seq![]);
    while i < files.len()
        invariant
            i <= files.len(),
            all == files.deep_view(),
            out.deep_view() == sidechains_of(all.take(i as int)),
        decreases files.len() - i,
    {
        let f = &files[i];
        proof {
            assert(all.take(i + 1).drop_last() =~= all.take(i as int));
            assert(all.take(i + 1).last() == f.deep_view());
        }
        if let Some(id) = transcript_id(f.name.as_str()) {
            let doc = match &f.meta {
                Some(text) => parse_json(text.as_str()),
                None => None,
            };
            let ghost before = out.deep_view();
            let info = sidechain_info(id, doc);
            out.push(info);
            assert(out.deep_view() =~= before.push(info.deep_view()));
        }
        i = i + 1;
    }
    assert(all.take(all.len() as int) =~= all);
    out
}

/// Whether session `b` is as new as `a`: by time, then by id.
pub open spec fn as_new(a: FileRefData, b: FileRefData) -> bool {
    a.mtime_ms < b.mtime_ms || (a.mtime_ms == b.mtime_ms && order::text_le(
        a.native_id,
        b.native_id,
    ))
}

/// The newest of some sessions: the last of those that no other is newer than.
pub open spec fn newest(refs: Seq<FileRefData>) -> Option<int>
    decreases refs.len(),
{
    if refs.len() == 0 {
        None
    } else {
        match newest(refs.drop_last()) {
            Some(i) if !as_new(refs[i], refs.last()) => Some(i),
            _ => Some(refs.len() - 1),
        }
    }
}

/// The newest of some sessions, by its index. The session files of a directory share one working
/// directory, so that its memories can hang on any of them.
pub fn newest_session(refs: &Vec<SessionFileRef>) -> (r: Option<usize>)
    ensures
        match r {
            Some(i) => i < refs@.len() && newest(refs.deep_view()) == Some(i as int),
            None => newest(refs.deep_view()) is None,
        },
{
    let ghost all = refs.deep_view();
    let mut best: Option<usize> = None;
    let mut i: usize = 0;
    while i < refs.len()
        invariant
            i <= refs.len(),
            all == refs.deep_view(),
            match best {
                Some(b) => b < i && newest(all.take(i as int)) == Some(b as int),
                None => i == 0,
            },
        decreases refs.len() - i,
    {
        assert(all.take(i + 1).drop_last() =~= all.take(i as int));
        match best {
            Some(b) => {
                let old_best = &refs[b];
                let next = &refs[i];
                assert(all.take(i as int)[b as int] == old_best.deep_view());
                if old_best.mtime_ms < next.mtime_ms || (old_best.mtime_ms == next.mtime_ms
                    && text_before_or_same(
                    old_best.native_id.as_str(),
                    next.native_id.as_str(),
                )) {
                    best = Some(i);
                }
            },
            None => {
                best = Some(i);
            },
        }
        i = i + 1;
    }
    assert(all.take(all.len() as int) =~= all);
    best
}

/// No session is newer than the newest.
pub proof fn law_newest_is_newest(refs: Seq<FileRefData>)
    ensures
        newest(refs) is Some <==> refs.len() > 0,
        newest(refs) matches Some(i) ==> {
            &&& 0 <= i < refs.len()
            &&& forall|j: int| 0 <= j < refs.len() ==> as_new(#[trigger] refs[j], refs[i])
        },
    decreases refs.len(),
{
    if refs.len() > 0 {
        let before = refs.drop_last();
        law_newest_is_newest(before);
        let last = refs.len() - 1;
        order::lemma_text_le_total(refs.last().native_id, refs.last().native_id);
        if let Some(b) = newest(before) {
            order::lemma_text_le_total(refs[b].native_id, refs.last().native_id);
            assert forall|j: int| 0 <= j < refs.len() implies as_new(
                #[trigger] refs[j],
                refs[newest(refs)->0],
            ) by {
                if j < last {
                    assert(as_new(before[j], before[b]));
                    if as_new(refs[b], refs.last()) && refs[j].mtime_ms == refs[b].mtime_ms
                        && refs[b].mtime_ms == refs.last().mtime_ms {
                        order::lemma_text_le_trans(
                            refs[j].native_id,
                            refs[b].native_id,
                            refs.last().native_id,
                        );
                    }
                }
            }
        }
    }
}

/// What the file system tells of a file.
#[derive(Clone, Copy, PartialEq, Eq, Structural, Debug)]
pub struct FileFacts {
    pub is_file: bool,
    pub len: u64,
    pub mtime_ms: i64,
}

/// An entry of a project directory; `facts` are missing where they cannot be had.
pub struct ProjectEntry {
    pub name: String,
    pub path: String,
    pub facts: Option<FileFacts>,
}

/// What a [`ProjectEntry`] holds.
pub struct EntryData {
    pub name: Seq<char>,
    pub path: Seq<char>,
    pub facts: Option<FileFacts>,
}

impl DeepView for ProjectEntry {
    type V = EntryData;

    open spec fn deep_view(&self) -> EntryData {
        EntryData { name: self.name@, path: self.path@, facts: self.facts }
    }
}

/// Whether a file is hidden: its name begins with a dot.
pub open spec fn is_hidden_name(name: Seq<char>) -> bool {
    name.len() > 0 && name[0] == '.'
}

fn hidden_name(name: &str) -> (r: bool)
    ensures
        r == is_hidden_name(name@),
{
    let chars = chars_of(name);
    chars.len() > 0 && chars[0] == '.'
}

/// The session that an entry of a project directory is, if it is one: a transcript by its name,
/// not hidden, and a file that is not empty.
pub open spec fn session_of_entry(e: EntryData) -> Option<FileRefData> {
    match (id_of_file(e.name), e.facts) {
        (Some(id), Some(facts)) if facts.is_file && facts.len != 0 && !is_hidden_name(e.name)
            => Some(
            FileRefData {
                agent: AgentId::ClaudeCode,
                native_id: id,
                file_path: e.path,
                mtime_ms: facts.mtime_ms,
                size: facts.len as i64,
            },
        ),
        _ => None,
    }
}

/// The sessions among the entries of a project directory, in order.
pub open spec fn sessions_of(entries: Seq<EntryData>) -> Seq<FileRefData>
    decreases entries.len(),
{
    if entries.len() == 0 {
        seq![]
    } else {
        match session_of_entry(entries.last()) {
            Some(r) => sessions_of(entries.drop_last()).push(r),
            None => sessions_of(entries.drop_last()),
        }
    }
}

/// The sessions of all project directories, in order.
pub open spec fn all_sessions(projects: Seq<Seq<EntryData>>) -> Seq<FileRefData>
    decreases projects.len(),
{
    if projects.len() == 0 {
        seq![]
    } else {
        all_sessions(projects.drop_last()) + sessions_of(projects.last())
    }
}

fn entry_session(e: &ProjectEntry) -> (r: Option<SessionFileRef>)
    ensures
        r.deep_view() == session_of_entry(e.deep_view()),
{
    match (transcript_id(e.name.as_str()), e.facts) {
        (Some(id), Some(facts)) => if facts.is_file && facts.len != 0 && !hidden_name(
            e.name.as_str(),
        ) {
            Some(
                SessionFileRef {
                    agent: AgentId::ClaudeCode,
                    native_id: id,
                    file_path: e.path.clone(),
                    mtime_ms: facts.mtime_ms,
                    size: facts.len as i64,
                },
            )
        } else {
            None
        },
        _ => None,
    }
}

fn add_sessions(refs: &mut Vec<SessionFileRef>, entries: &Vec<ProjectEntry>)
    ensures
        final(refs).deep_view() == old(refs).deep_view() + sessions_of(entries.deep_view()),
{
    let ghost before = refs.deep_view();
    let ghost all = entries.deep_view();
    let mut i: usize = 0;
    assert(before + sessions_of(all.take(0)) =~= before);
    while i < entries.len()
        invariant
            i <= entries.len(),
            all == entries.deep_view(),
            refs.deep_view() == before + sessions_of(all.take(i as int)),
        decreases entries.len() - i,
    {
        proof {
            assert(all.take(i + 1).drop_last() =~= all.take(i as int));
            assert(all.take(i + 1).last() == entries@[i as int].deep_view());
        }
        if let Some(r) = entry_session(&entries[i]) {
            let ghost now = refs.deep_view();
            refs.push(r);
            assert(refs.deep_view() =~= now.push(r.deep_view()));
            assert(refs.deep_view() =~= before + sessions_of(all.take(i + 1)));
        }
        i = i + 1;
    }
    assert(all.take(all.len() as int) =~= all);
}

impl ClaudeAdapter {
    /// The sessions of all project directories, in order. A directory that cannot be listed has no
    /// entries.
    pub fn list_session_files(&self, projects: &Vec<Vec<ProjectEntry>>) -> (r: Vec<SessionFileRef>)
        ensures
            r.deep_view() == all_sessions(projects.deep_view()),
    {
        let mut refs: Vec<SessionFileRef> = Vec::new();
        let ghost all = projects.deep_view();
        let mut i: usize = 0;
        assert(refs.deep_view() =~= seq![]);
        while i < projects.len()
            invariant
                i <= projects.len(),
                all == projects.deep_view(),
                refs.deep_view() == all_sessions(all.take(i as int)),
            decreases projects.len() - i,
        {
            proof {
                assert(all.take(i + 1).drop_last() =~= all.take(i as int));
                assert(all.take(i + 1).last() == projects@[i as int].deep_view());
            }
            add_sessions(&mut refs, &projects[i]);
            i = i + 1;
        }
        assert(all.take(all.len() as int) =~= all);
        refs
    }
}

/// The key that the memories of a project directory hang on: that of the newest of its sessions.
pub open spec fn anchor_of(refs: Seq<FileRefData>, slug: Seq<char>) -> Option<Seq<char>> {
    match newest(refs) {
        Some(i) => Some(session_key_of(slug, refs[i].native_id)),
        None => None,
    }
}

impl ClaudeAdapter {
    /// The key of the newest of some sessions, the same that the session has in the index.
    pub fn newest_session_key(&self, refs: &Vec<SessionFileRef>) -> (r: Option<String>)
        ensures
            r.deep_view() == anchor_of(refs.deep_view(), self@.names.slug),
    {
        match newest_session(refs) {
            Some(i) => Some(
                concat3(self.names.slug.as_str(), ":", refs[i].native_id.as_str()),
            ),
            None => None,
        }
    }
}

proof fn lemma_listed_with_all(projects: Seq<Seq<EntryData>>, d: int, i: int)
    requires
        0 <= d < projects.len(),
        0 <= i < sessions_of(projects[d]).len(),
    ensures
        exists|j: int|
            0 <= j < all_sessions(projects).len() && #[trigger] all_sessions(projects)[j]
                == sessions_of(projects[d])[i],
    decreases projects.len(),
{
    let before = all_sessions(projects.drop_last());
    if d == projects.len() - 1 {
        assert(all_sessions(projects)[before.len() + i] == sessions_of(projects[d])[i]);
    } else {
        lemma_listed_with_all(projects.drop_last(), d, i);
        let j = choose|j: int|
            0 <= j < before.len() && #[trigger] before[j] == sessions_of(projects[d])[i];
        assert(all_sessions(projects)[j] == before[j]);
    }
}

/// The memories of a project directory hang on a session that is in the index: the key is that of
/// one of the sessions that are listed, whatever its transcript says. Only a directory without
/// sessions has no such key.
pub proof fn law_memories_hang_on_an_indexed_session(
    projects: Seq<Seq<EntryData>>,
    d: int,
    slug: Seq<char>,
)
    requires
        0 <= d < projects.len(),
    ensures
        ({
            let own = all_sessions(seq![projects[d]]);
            let listed = all_sessions(projects);
            &&& anchor_of(own, slug) is None <==> own.len() == 0
            &&& anchor_of(own, slug) matches Some(key) ==> exists|j: int|
                0 <= j < listed.len() && forall|p: ParseData, name: Seq<char>|
                    (#[trigger] meta_of(#[trigger] listed[j], p, name, slug)).key == key
        }),
{
    let own = all_sessions(seq![projects[d]]);
    let listed = all_sessions(projects);
    assert(seq![projects[d]].drop_last() =~= seq![]);
    assert(all_sessions(seq![projects[d]].drop_last()) =~= seq![]);
    assert(own =~= sessions_of(projects[d]));
    law_newest_is_newest(own);
    if let Some(i) = newest(own) {
        lemma_listed_with_all(projects, d, i);
        let j = choose|j: int| 0 <= j < listed.len() && #[trigger] listed[j] == own[i];
        assert(forall|p: ParseData, name: Seq<char>|
            (#[trigger] meta_of(listed[j], p, name, slug)).key == session_key_of(
                slug,
                own[i].native_id,
            ));
    }
}

proof fn lemma_sessions_are_entries(entries: Seq<EntryData>)
    ensures
        forall|j: int|
            0 <= j < sessions_of(entries).len() ==> exists|e: int|
                0 <= e < entries.len() && session_of_entry(#[trigger] entries[e]) == Some(
                    #[trigger] sessions_of(entries)[j],
                ),
        forall|e: int|
            0 <= e < entries.len() && session_of_entry(#[trigger] entries[e]) is Some
                ==> sessions_of(entries).contains(session_of_entry(entries[e])->0),
    decreases entries.len(),
{
    if entries.len() > 0 {
        let less = entries.drop_last();
        let before = sessions_of(less);
        let after = sessions_of(entries);
        lemma_sessions_are_entries(less);
        assert forall|j: int| 0 <= j < after.len() implies exists|e: int|
            0 <= e < entries.len() && session_of_entry(#[trigger] entries[e]) == Some(
                #[trigger] after[j],
            ) by {
            if j < before.len() {
                assert(after[j] == before[j]);
                let e = choose|e: int|
                    0 <= e < less.len() && session_of_entry(#[trigger] less[e]) == Some(before[j]);
                assert(entries[e] == less[e]);
            } else {
                assert(session_of_entry(entries[entries.len() - 1]) == Some(after[j]));
            }
        }
        assert forall|e: int|
            0 <= e < entries.len() && session_of_entry(#[trigger] entries[e]) is Some implies
            after.contains(session_of_entry(entries[e])->0) by {
            let r = session_of_entry(entries[e])->0;
            if e < less.len() {
                assert(less[e] == entries[e]);
                let j = choose|j: int| 0 <= j < before.len() && before[j] == r;
                assert(after[j] == r);
            } else {
                assert(after[after.len() - 1] == r);
            }
        }
    }
}

/// What is listed as a session is a transcript file directly in a project directory that is neither
/// hidden nor empty.
pub proof fn law_listed_files_are_sessions(projects: Seq<Seq<EntryData>>, j: int)
    requires
        0 <= j < all_sessions(projects).len(),
    ensures
        exists|d: int, e: int|
            0 <= d < projects.len() && 0 <= e < projects[d].len() && ({
                let entry = #[trigger] projects[d][e];
                let r = all_sessions(projects)[j];
                &&& entry.facts matches Some(facts) && facts.is_file && facts.len != 0
                &&& !is_hidden_name(entry.name)
                &&& id_of_file(entry.name) == Some(r.native_id)
                &&& r.file_path == entry.path
            }),
    decreases projects.len(),
{
    let before = all_sessions(projects.drop_last());
    if j < before.len() {
        law_listed_files_are_sessions(projects.drop_last(), j);
        let (d, e) = choose|d: int, e: int|
            0 <= d < projects.drop_last().len() && 0 <= e < projects.drop_last()[d].len() && ({
                let entry = #[trigger] projects.drop_last()[d][e];
                let r = before[j];
                &&& entry.facts matches Some(facts) && facts.is_file && facts.len != 0
                &&& !is_hidden_name(entry.name)
                &&& id_of_file(entry.name) == Some(r.native_id)
                &&& r.file_path == entry.path
            });
        assert(projects[d][e] == projects.drop_last()[d][e]);
    } else {
        let d = projects.len() - 1;
        let own = sessions_of(projects[d]);
        lemma_sessions_are_entries(projects[d]);
        assert(all_sessions(projects)[j] == own[j - before.len()]);
        let e = choose|e: int|
            0 <= e < projects[d].len() && session_of_entry(#[trigger] projects[d][e]) == Some(
                own[j - before.len()],
            );
        assert(id_of_file(projects[d][e].name) is Some);
    }
}

/// No transcript file of a project directory that is neither hidden nor empty is passed over.
pub proof fn law_session_files_are_listed(projects: Seq<Seq<EntryData>>, d: int, e: int)
    requires
        0 <= d < projects.len(),
        0 <= e < projects[d].len(),
        id_of_file(projects[d][e].name) is Some,
        !is_hidden_name(projects[d][e].name),
        projects[d][e].facts matches Some(facts) && facts.is_file && facts.len != 0,
    ensures
        exists|j: int|
            0 <= j < all_sessions(projects).len() && (#[trigger] all_sessions(projects)[j]).file_path
                == projects[d][e].path,
{
    let own = sessions_of(projects[d]);
    lemma_sessions_are_entries(projects[d]);
    let r = session_of_entry(projects[d][e])->0;
    assert(session_of_entry(projects[d][e]) is Some);
    let i = choose|i: int| 0 <= i < own.len() && own[i] == r;
    lemma_listed_with_all(projects, d, i);
}

}
