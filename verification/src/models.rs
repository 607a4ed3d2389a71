//! The records that pass between the adapters, the index and the pages.
use crate::json::{Json, JsonData};
use vstd::prelude::*;

verus! {

/// A coding agent whose sessions are indexed. Agents that need no rules of their own here are
/// told apart by a number.
#[derive(Clone, Copy, PartialEq, Eq, Structural, Debug)]
pub enum AgentId {
    ClaudeCode,
    Zcode,
    Other(u32),
}

/// Who wrote a message.
#[derive(Clone, Copy, PartialEq, Eq, Structural, Debug)]
pub enum Role {
    User,
    Assistant,
    System,
}

/// What a message is: conversation, something injected around it, or a compaction mark.
#[derive(Clone, Copy, PartialEq, Eq, Structural, Debug)]
pub enum MessageKind {
    Text,
    Meta,
    CompactSummary,
}

/// An image of a message, by the number under which its pixels are kept.
#[derive(Clone, Copy, PartialEq, Eq, Structural, Debug)]
pub struct TranscriptImage {
    pub handle: u64,
}

/// The title of a session that has none.
pub const UNTITLED: &'static str = "Untitled";

/// A tool call of an assistant message.
pub struct ToolCallView {
    pub id: String,
    pub name: String,
    pub input: Json,
    pub output: Option<String>,
    pub is_error: bool,
    pub sidechain_ref: Option<String>,
}

/// What a [`ToolCallView`] holds.
pub struct ToolCallData {
    pub id: Seq<char>,
    pub name: Seq<char>,
    pub input: JsonData,
    pub output: Option<Seq<char>>,
    pub is_error: bool,
    pub sidechain_ref: Option<Seq<char>>,
}

impl DeepView for ToolCallView {
    type V = ToolCallData;

    open spec fn deep_view(&self) -> ToolCallData {
        ToolCallData {
            id: self.id@,
            name: self.name@,
            input: self.input.deep_view(),
            output: self.output.deep_view(),
            is_error: self.is_error,
            sidechain_ref: self.sidechain_ref.deep_view(),
        }
    }
}

/// One message of a transcript.
pub struct TranscriptMessage {
    pub seq: usize,
    pub role: Role,
    pub kind: MessageKind,
    pub text: String,
    pub truncated: bool,
    pub tool_calls: Vec<ToolCallView>,
    pub thinking: Option<String>,
    pub timestamp: Option<i64>,
    pub model: Option<String>,
    pub images: Vec<TranscriptImage>,
}

/// What a [`TranscriptMessage`] holds.
#[verifier::ext_equal]
pub struct MessageData {
    pub seq: int,
    pub role: Role,
    pub kind: MessageKind,
    pub text: Seq<char>,
    pub truncated: bool,
    pub tool_calls: Seq<ToolCallData>,
    pub thinking: Option<Seq<char>>,
    pub timestamp: Option<i64>,
    pub model: Option<Seq<char>>,
    pub images: Seq<TranscriptImage>,
}

impl DeepView for TranscriptMessage {
    type V = MessageData;

    open spec fn deep_view(&self) -> MessageData {
        MessageData {
            seq: self.seq as int,
            role: self.role,
            kind: self.kind,
            text: self.text@,
            truncated: self.truncated,
            tool_calls: self.tool_calls.deep_view(),
            thinking: self.thinking.deep_view(),
            timestamp: self.timestamp,
            model: self.model.deep_view(),
            images: self.images@,
        }
    }
}

/// A session on disk, as an adapter lists it.
pub struct SessionFileRef {
    pub agent: AgentId,
    pub native_id: String,
    pub file_path: String,
    pub mtime_ms: i64,
    pub size: i64,
}

/// What a [`SessionFileRef`] holds.
pub struct FileRefData {
    pub agent: AgentId,
    pub native_id: Seq<char>,
    pub file_path: Seq<char>,
    pub mtime_ms: i64,
    pub size: i64,
}

impl DeepView for SessionFileRef {
    type V = FileRefData;

    open spec fn deep_view(&self) -> FileRefData {
        FileRefData {
            agent: self.agent,
            native_id: self.native_id@,
            file_path: self.file_path@,
            mtime_ms: self.mtime_ms,
            size: self.size,
        }
    }
}

/// The index entry of a session.
pub struct SessionMeta {
    pub key: String,
    pub host: String,
    pub id: String,
    pub agent: AgentId,
    pub title: String,
    pub project_path: String,
    pub project_name: String,
    pub file_path: String,
    pub created_at: i64,
    pub updated_at: i64,
    pub message_count: i64,
    pub size_bytes: i64,
    pub git_branch: Option<String>,
    pub model: Option<String>,
    pub tokens_used: Option<i64>,
    pub archived: bool,
    pub source: Option<String>,
    pub favorite: bool,
    pub pinned: bool,
}

/// What a [`SessionMeta`] holds.
pub struct MetaData {
    pub key: Seq<char>,
    pub host: Seq<char>,
    pub id: Seq<char>,
    pub agent: AgentId,
    pub title: Seq<char>,
    pub project_path: Seq<char>,
    pub project_name: Seq<char>,
    pub file_path: Seq<char>,
    pub created_at: i64,
    pub updated_at: i64,
    pub message_count: i64,
    pub size_bytes: i64,
    pub git_branch: Option<Seq<char>>,
    pub model: Option<Seq<char>>,
    pub tokens_used: Option<i64>,
    pub archived: bool,
    pub source: Option<Seq<char>>,
    pub favorite: bool,
    pub pinned: bool,
}

impl DeepView for SessionMeta {
    type V = MetaData;

    open spec fn deep_view(&self) -> MetaData {
        MetaData {
            key: self.key@,
            host: self.host@,
            id: self.id@,
            agent: self.agent,
            title: self.title@,
            project_path: self.project_path@,
            project_name: self.project_name@,
            file_path: self.file_path@,
            created_at: self.created_at,
            updated_at: self.updated_at,
            message_count: self.message_count,
            size_bytes: self.size_bytes,
            git_branch: self.git_branch.deep_view(),
            model: self.model.deep_view(),
            tokens_used: self.tokens_used,
            archived: self.archived,
            source: self.source.deep_view(),
            favorite: self.favorite,
            pinned: self.pinned,
        }
    }
}

/// A transcript that hangs off a tool call of the main one.
pub struct SidechainInfo {
    pub id: String,
    pub agent_type: Option<String>,
    pub description: Option<String>,
    pub tool_use_id: Option<String>,
}

/// What a [`SidechainInfo`] holds.
pub struct SidechainData {
    pub id: Seq<char>,
    pub agent_type: Option<Seq<char>>,
    pub description: Option<Seq<char>>,
    pub tool_use_id: Option<Seq<char>>,
}

impl DeepView for SidechainInfo {
    type V = SidechainData;

    open spec fn deep_view(&self) -> SidechainData {
        SidechainData {
            id: self.id@,
            agent_type: self.agent_type.deep_view(),
            description: self.description.deep_view(),
            tool_use_id: self.tool_use_id.deep_view(),
        }
    }
}

/// How a place that holds memory documents is read.
#[derive(Clone, Copy, PartialEq, Eq, Structural, Debug)]
pub enum MemorySourceKind {
    ProjectTree,
    File,
}

/// A place that holds memory documents.
pub struct MemorySource {
    pub agent: AgentId,
    pub kind: MemorySourceKind,
    pub path: String,
}

/// What a [`MemorySource`] holds.
pub struct SourceData {
    pub agent: AgentId,
    pub kind: MemorySourceKind,
    pub path: Seq<char>,
}

impl DeepView for MemorySource {
    type V = SourceData;

    open spec fn deep_view(&self) -> SourceData {
        SourceData { agent: self.agent, kind: self.kind, path: self.path@ }
    }
}

/// What the memories of a project directory hang on: its newest session, else a project path.
pub struct TreeUnit {
    pub session_key: String,
    pub project_path: String,
}

/// The time, where it is known: a time of zero or less is none.
pub open spec fn known_time(ts: i64) -> Option<i64> {
    if ts > 0 {
        Some(ts)
    } else {
        None
    }
}

/// The time, where it is known: a time of zero or less is none.
pub fn ts_opt(ts: i64) -> (r: Option<i64>)
    ensures
        r == known_time(ts),
{
    if ts > 0 {
        Some(ts)
    } else {
        None
    }
}

/// A time if it is known, else another.
pub open spec fn time_or(ts: i64, otherwise: i64) -> i64 {
    if ts > 0 {
        ts
    } else {
        otherwise
    }
}

/// A text, or the empty one where there is none.
pub fn or_empty(o: Option<String>) -> (r: String)
    ensures
        r@ == o.deep_view().unwrap_or(seq![]),
{
    match o {
        Some(s) => s,
        None => {
            let r = String::new();
            assert(r@ =~= seq![]);
            r
        },
    }
}

/// A copy of an optional text.
pub fn clone_opt(o: &Option<String>) -> (r: Option<String>)
    ensures
        r.deep_view() == o.deep_view(),
{
    match o {
        Some(s) => Some(s.clone()),
        None => None,
    }
}

/// How many messages are conversation.
pub open spec fn text_count(messages: Seq<MessageData>) -> int
    decreases messages.len(),
{
    if messages.len() == 0 {
        0
    } else {
        text_count(messages.drop_last()) + if messages.last().kind == MessageKind::Text {
            1int
        } else {
            0int
        }
    }
}

/// How many messages are conversation.
pub fn count_text(messages: &Vec<TranscriptMessage>) -> (r: i64)
    ensures
        r == text_count(messages.deep_view()) as i64,
{
    let mut n: usize = 0;
    let mut i: usize = 0;
    let ghost all = messages.deep_view();
    while i < messages.len()
        invariant
            i <= messages.len(),
            all == messages.deep_view(),
            n == text_count(all.take(i as int)),
            0 <= n <= i,
        decreases messages.len() - i,
    {
        assert(all.take(i + 1).drop_last() =~= all.take(i as int));
        if messages[i].kind == MessageKind::Text {
            n = n + 1;
        }
        i = i + 1;
    }
    assert(all.take(all.len() as int) =~= all);
    n as i64
}

/// A session as the index takes it in: its entry, its search units, and how many of its lines were
/// not understood.
pub struct ParsedSession<U> {
    pub meta: SessionMeta,
    pub units: U,
    pub unknown_line_count: u32,
}

/// A session as a reader sees it.
pub struct ParsedTranscript {
    pub meta: SessionMeta,
    pub mainline: Vec<TranscriptMessage>,
    pub sidechains: Vec<SidechainInfo>,
    pub unknown_line_count: u32,
}

/// The number of messages that are conversation is that of the messages of that kind, and of no
/// other.
pub proof fn law_only_conversation_is_counted(messages: Seq<MessageData>)
    ensures
        text_count(messages) == messages.filter(
            |m: MessageData| m.kind == MessageKind::Text,
        ).len(),
    decreases messages.len(),
{
    reveal(Seq::filter);
    if messages.len() > 0 {
        law_only_conversation_is_counted(messages.drop_last());
    }
}

}
