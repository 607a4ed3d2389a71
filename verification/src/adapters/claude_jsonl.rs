//! JSONL transcripts: one JSON row per line, folded into a draft of the conversation.
//!
//! A draft holds what the rows say. How a content block becomes text or an image, how long texts
//! are clipped and how a time stamp is read is settled per message afterwards, and
//! [`finish_parse`](crate::adapters::claude_transcript::finish_parse) joins both into the
//! transcript.
use crate::json;
use crate::json::{parse_json, Json, JsonData};
use crate::models::{ToolCallData, ToolCallView};
use crate::text;
use crate::text::{blank, same_text, trim};
use vstd::hash_map::StringHashMap;
use vstd::prelude::*;

verus! {

/// A piece of a message: text, or a content block that may turn out to be an image.
pub enum Part {
    Text(String),
    Block(Json),
}

/// What a [`Part`] holds.
pub enum PartData {
    Text(Seq<char>),
    Block(JsonData),
}

impl DeepView for Part {
    type V = PartData;

    open spec fn deep_view(&self) -> PartData {
        match self {
            Part::Text(s) => PartData::Text(s@),
            Part::Block(j) => PartData::Block(j.deep_view()),
        }
    }
}

/// What came back for the tool call at index `call` of a message.
pub struct ToolOutput {
    pub call: usize,
    pub content: Json,
}

/// What a [`ToolOutput`] holds.
pub struct ToolOutputData {
    pub call: usize,
    pub content: JsonData,
}

impl DeepView for ToolOutput {
    type V = ToolOutputData;

    open spec fn deep_view(&self) -> ToolOutputData {
        ToolOutputData { call: self.call, content: self.content.deep_view() }
    }
}

/// The kind of row a draft message came from.
#[derive(Clone, Copy, PartialEq, Eq, Structural, Debug)]
pub enum DraftSource {
    Boundary,
    Note,
    User { meta: bool, compact: bool },
    Assistant,
}

/// A message as its rows have it. `stamp` is the index of its time stamp in the draft's list.
pub struct DraftMessage {
    pub source: DraftSource,
    pub parts: Vec<Part>,
    pub thinking: Vec<String>,
    pub calls: Vec<ToolCallView>,
    pub outputs: Vec<ToolOutput>,
    pub stamp: Option<usize>,
    pub model: Option<String>,
}

/// What a [`DraftMessage`] holds.
#[verifier::ext_equal]
pub struct DraftData {
    pub source: DraftSource,
    pub parts: Seq<PartData>,
    pub thinking: Seq<Seq<char>>,
    pub calls: Seq<ToolCallData>,
    pub outputs: Seq<ToolOutputData>,
    pub stamp: Option<usize>,
    pub model: Option<Seq<char>>,
}

impl DeepView for DraftMessage {
    type V = DraftData;

    open spec fn deep_view(&self) -> DraftData {
        DraftData {
            source: self.source,
            parts: self.parts.deep_view(),
            thinking: self.thinking.deep_view(),
            calls: self.calls.deep_view(),
            outputs: self.outputs.deep_view(),
            stamp: self.stamp,
            model: self.model.deep_view(),
        }
    }
}

/// The assistant message that is still being collected: its rows share one message id.
pub struct PendingAssistant {
    pub msg_id: Option<String>,
    pub parts: Vec<Part>,
    pub thinking: Vec<String>,
    pub tool_calls: Vec<ToolCallView>,
    pub stamp: Option<usize>,
    pub model: Option<String>,
}

/// What a [`PendingAssistant`] holds.
#[verifier::ext_equal]
pub struct PendingData {
    pub msg_id: Option<Seq<char>>,
    pub parts: Seq<PartData>,
    pub thinking: Seq<Seq<char>>,
    pub tool_calls: Seq<ToolCallData>,
    pub stamp: Option<usize>,
    pub model: Option<Seq<char>>,
}

impl DeepView for PendingAssistant {
    type V = PendingData;

    open spec fn deep_view(&self) -> PendingData {
        PendingData {
            msg_id: self.msg_id.deep_view(),
            parts: self.parts.deep_view(),
            thinking: self.thinking.deep_view(),
            tool_calls: self.tool_calls.deep_view(),
            stamp: self.stamp,
            model: self.model.deep_view(),
        }
    }
}

/// The state of a reader between two lines.
#[verifier::ext_equal]
pub struct ReaderData {
    pub messages: Seq<DraftData>,
    pub tool_index: Map<Seq<char>, (usize, usize)>,
    pub custom_title: Seq<char>,
    pub cwd: Seq<char>,
    pub git_branch: Option<Seq<char>>,
    pub model: Option<Seq<char>>,
    pub tokens_used: i64,
    pub stamps: Seq<JsonData>,
    pub unknown_lines: u32,
    pub pending: Option<PendingData>,
}

/// The state before the first line.
pub open spec fn reader_start() -> ReaderData {
    ReaderData {
        messages: seq![],
        tool_index: Map::empty(),
        custom_title: seq![],
        cwd: seq![],
        git_branch: None,
        model: None,
        tokens_used: 0,
        stamps: seq![],
        unknown_lines: 0,
        pending: None,
    }
}

/// The row types that carry no message and are passed over in silence.
pub open spec fn is_known_skip(typ: Seq<char>) -> bool {
    ||| typ == "queue-operation"@
    ||| typ == "mode"@
    ||| typ == "last-prompt"@
    ||| typ == "permission-mode"@
    ||| typ == "file-history-snapshot"@
    ||| typ == "file-history-delta"@
    ||| typ == "pr-link"@
    ||| typ == "frame-link"@
    ||| typ == "attachment"@
    ||| typ == "summary"@
    ||| typ == "atis-latch"@
    ||| typ == "bridge-session"@
}

/// Where each tool call with an id stands: call `i` of message `mi` under its id.
pub open spec fn register(
    index: Map<Seq<char>, (usize, usize)>,
    calls: Seq<ToolCallData>,
    mi: usize,
) -> Map<Seq<char>, (usize, usize)>
    decreases calls.len(),
{
    if calls.len() == 0 {
        index
    } else {
        let before = register(index, calls.drop_last(), mi);
        if calls.last().id.len() == 0 {
            before
        } else {
            before.insert(calls.last().id, (mi, (calls.len() - 1) as usize))
        }
    }
}

/// Whether nothing has been collected.
pub open spec fn pending_is_bare(p: PendingData) -> bool {
    p.parts.len() == 0 && p.thinking.len() == 0 && p.tool_calls.len() == 0
}

/// The draft message that a collected assistant message becomes.
pub open spec fn assistant_draft(p: PendingData) -> DraftData {
    DraftData {
        source: DraftSource::Assistant,
        parts: p.parts,
        thinking: p.thinking,
        calls: p.tool_calls,
        outputs: seq![],
        stamp: p.stamp,
        model: p.model,
    }
}

/// The state once the assistant message being collected is closed.
pub open spec fn flushed(s: ReaderData) -> ReaderData {
    match s.pending {
        None => s,
        Some(p) => if pending_is_bare(p) {
            ReaderData { pending: None, ..s }
        } else {
            ReaderData {
                messages: s.messages.push(assistant_draft(p)),
                tool_index: register(s.tool_index, p.tool_calls, s.messages.len() as usize),
                pending: None,
                ..s
            }
        },
    }
}

/// `m` with one more output for its call `ti`; an error sticks to the call.
pub open spec fn with_output(
    m: DraftData,
    ti: usize,
    content: JsonData,
    is_error: bool,
) -> DraftData {
    DraftData {
        outputs: m.outputs.push(ToolOutputData { call: ti, content }),
        calls: m.calls.update(
            ti as int,
            ToolCallData { is_error: is_error || m.calls[ti as int].is_error, ..m.calls[ti as int] },
        ),
        ..m
    }
}

/// The messages once a `tool_result` block has found its call, if the call is known.
pub open spec fn backfilled(
    messages: Seq<DraftData>,
    index: Map<Seq<char>, (usize, usize)>,
    b: JsonData,
) -> Seq<DraftData> {
    let id = b.str_field("tool_use_id"@).unwrap_or(""@);
    if index.contains_key(id) {
        let (mi, ti) = index[id];
        let content = b.field("content"@).unwrap_or(JsonData::Null);
        messages.update(
            mi as int,
            with_output(messages[mi as int], ti, content, b.bool_field("is_error"@) == Some(true)),
        )
    } else {
        messages
    }
}

/// One block of a user row: text and other blocks join the message, a tool result goes back to
/// the call it answers.
pub open spec fn user_block(
    so_far: (Seq<DraftData>, Seq<PartData>),
    index: Map<Seq<char>, (usize, usize)>,
    b: JsonData,
) -> (Seq<DraftData>, Seq<PartData>) {
    let (messages, parts) = so_far;
    if b.str_field("type"@) == Some("text"@) {
        match b.str_field("text"@) {
            Some(t) => (messages, parts.push(PartData::Text(t))),
            None => so_far,
        }
    } else if b.str_field("type"@) == Some("tool_result"@) {
        (backfilled(messages, index, b), parts)
    } else {
        (messages, parts.push(PartData::Block(b)))
    }
}

/// All blocks of a user row, in order.
pub open spec fn user_blocks(
    messages: Seq<DraftData>,
    index: Map<Seq<char>, (usize, usize)>,
    blocks: Seq<JsonData>,
) -> (Seq<DraftData>, Seq<PartData>)
    decreases blocks.len(),
{
    if blocks.len() == 0 {
        (messages, seq![])
    } else {
        user_block(user_blocks(messages, index, blocks.drop_last()), index, blocks.last())
    }
}

/// The draft message of a user row.
pub open spec fn user_draft(
    row: JsonData,
    parts: Seq<PartData>,
    stamp: Option<usize>,
) -> DraftData {
    DraftData {
        source: DraftSource::User {
            meta: row.bool_field("isMeta"@) == Some(true),
            compact: row.bool_field("isCompactSummary"@) == Some(true),
        },
        parts,
        thinking: seq![],
        calls: seq![],
        outputs: seq![],
        stamp,
        model: None,
    }
}

/// The messages and the pieces that the content of a user message gives.
pub open spec fn user_content(
    messages: Seq<DraftData>,
    index: Map<Seq<char>, (usize, usize)>,
    content: Option<JsonData>,
) -> (Seq<DraftData>, Seq<PartData>) {
    match content {
        Some(JsonData::Str(t)) => (messages, seq![PartData::Text(t)]),
        Some(JsonData::Array(blocks)) => user_blocks(messages, index, blocks),
        _ => (messages, seq![]),
    }
}

/// A user row closes the assistant message and adds its own, if it brings any piece.
pub open spec fn user_step(s: ReaderData, row: JsonData, stamp: Option<usize>) -> ReaderData {
    let s = flushed(s);
    match row.field("message"@) {
        None => s,
        Some(message) => {
            let (messages, parts) = user_content(
                s.messages,
                s.tool_index,
                message.field("content"@),
            );
            if parts.len() == 0 {
                ReaderData { messages, ..s }
            } else {
                ReaderData { messages: messages.push(user_draft(row, parts, stamp)), ..s }
            }
        },
    }
}

/// A draft message of the system.
pub open spec fn system_draft(
    source: DraftSource,
    parts: Seq<PartData>,
    stamp: Option<usize>,
) -> DraftData {
    DraftData {
        source,
        parts,
        thinking: seq![],
        calls: seq![],
        outputs: seq![],
        stamp,
        model: None,
    }
}

/// A system row closes the assistant message; a compaction boundary and a note leave a message.
pub open spec fn system_step(s: ReaderData, row: JsonData, stamp: Option<usize>) -> ReaderData {
    let s = flushed(s);
    if row.str_field("subtype"@) == Some("compact_boundary"@) {
        ReaderData {
            messages: s.messages.push(system_draft(DraftSource::Boundary, seq![], stamp)),
            ..s
        }
    } else {
        match row.str_field("content"@) {
            Some(t) if t.len() > 0 => ReaderData {
                messages: s.messages.push(
                    system_draft(DraftSource::Note, seq![PartData::Text(t)], stamp),
                ),
                ..s
            },
            _ => s,
        }
    }
}

/// One block of an assistant row. Blank texts and thoughts are left out.
pub open spec fn assistant_block(p: PendingData, b: JsonData) -> PendingData {
    if b.str_field("type"@) == Some("text"@) {
        match b.str_field("text"@) {
            Some(t) if !text::is_blank(t) => PendingData { parts: p.parts.push(PartData::Text(t)), ..p },
            _ => p,
        }
    } else if b.str_field("type"@) == Some("thinking"@) {
        match b.str_field("thinking"@) {
            Some(t) if !text::is_blank(t) => PendingData { thinking: p.thinking.push(t), ..p },
            _ => p,
        }
    } else if b.str_field("type"@) == Some("tool_use"@) {
        PendingData {
            tool_calls: p.tool_calls.push(
                ToolCallData {
                    id: b.str_field("id"@).unwrap_or(""@),
                    name: b.str_field("name"@).unwrap_or("tool"@),
                    input: b.field("input"@).unwrap_or(JsonData::Null),
                    output: None,
                    is_error: false,
                    sidechain_ref: None,
                },
            ),
            ..p
        }
    } else {
        PendingData { parts: p.parts.push(PartData::Block(b)), ..p }
    }
}

/// All blocks of an assistant row, in order.
pub open spec fn assistant_blocks(p: PendingData, blocks: Seq<JsonData>) -> PendingData
    decreases blocks.len(),
{
    if blocks.len() == 0 {
        p
    } else {
        assistant_block(assistant_blocks(p, blocks.drop_last()), blocks.last())
    }
}

/// What the content of an assistant message adds to the message being collected.
pub open spec fn assistant_content(p: PendingData, content: Option<JsonData>) -> PendingData {
    match content {
        Some(JsonData::Array(blocks)) => assistant_blocks(p, blocks),
        Some(JsonData::Str(t)) if !text::is_blank(t) => PendingData {
            parts: p.parts.push(PartData::Text(t)),
            ..p
        },
        _ => p,
    }
}

/// Whether an assistant row with message id `mid` begins a new message.
pub open spec fn begins_new(pending: Option<PendingData>, mid: Option<Seq<char>>) -> bool {
    match pending {
        None => true,
        Some(p) => p.msg_id is Some && mid is Some && p.msg_id != mid,
    }
}

/// The model that an assistant message names, if it is a real one.
pub open spec fn named_model(message: JsonData) -> Option<Seq<char>> {
    match message.str_field("model"@) {
        Some(m) if m.len() > 0 && m != "<synthetic>"@ => Some(m),
        _ => None,
    }
}

/// The tokens that an assistant message reports. A sum that no longer fits wraps around.
pub open spec fn usage_tokens(message: JsonData) -> i64 {
    match message.field("usage"@) {
        Some(usage) => usage.int_or_zero("input_tokens"@).wrapping_add(
            usage.int_or_zero("output_tokens"@),
        ).wrapping_add(usage.int_or_zero("cache_creation_input_tokens"@)),
        None => 0,
    }
}

/// The message being collected once an assistant row with id `mid` has opened or joined it.
pub open spec fn opened(
    s: ReaderData,
    mid: Option<Seq<char>>,
    stamp: Option<usize>,
) -> ReaderData {
    if begins_new(s.pending, mid) {
        ReaderData {
            pending: Some(
                PendingData {
                    msg_id: mid,
                    parts: seq![],
                    thinking: seq![],
                    tool_calls: seq![],
                    stamp,
                    model: None,
                },
            ),
            ..flushed(s)
        }
    } else {
        let p = s.pending->0;
        ReaderData {
            pending: Some(
                PendingData { msg_id: if p.msg_id is None { mid } else { p.msg_id }, ..p },
            ),
            ..s
        }
    }
}

/// An assistant row opens or continues the message being collected.
pub open spec fn assistant_step(s: ReaderData, row: JsonData, stamp: Option<usize>) -> ReaderData {
    match row.field("message"@) {
        None => s,
        Some(message) => {
            let s1 = opened(s, message.str_field("id"@), stamp);
            let p = s1.pending->0;
            let named = named_model(message);
            let p1 = PendingData { model: if named is Some { named } else { p.model }, ..p };
            ReaderData {
                model: if named is Some { named } else { s1.model },
                tokens_used: s1.tokens_used.wrapping_add(usage_tokens(message)),
                pending: Some(assistant_content(p1, message.field("content"@))),
                ..s1
            }
        },
    }
}

/// What every message row tells of the session: the first working directory, the last branch,
/// and a time stamp.
pub open spec fn envelope(s: ReaderData, row: JsonData) -> ReaderData {
    ReaderData {
        cwd: if s.cwd.len() == 0 { row.str_field("cwd"@).unwrap_or(s.cwd) } else { s.cwd },
        git_branch: match row.str_field("gitBranch"@) {
            Some(b) if b.len() > 0 => Some(b),
            _ => s.git_branch,
        },
        stamps: match row.field("timestamp"@) {
            Some(t) => s.stamps.push(t),
            None => s.stamps,
        },
        ..s
    }
}

/// The index that the time stamp of a row gets, if it has one.
pub open spec fn stamp_of(s: ReaderData, row: JsonData) -> Option<usize> {
    if row.field("timestamp"@) is Some {
        Some(s.stamps.len() as usize)
    } else {
        None
    }
}

/// A title row replaces the title, unless it is blank.
pub open spec fn title_step(s: ReaderData, row: JsonData) -> ReaderData {
    match row.str_field("customTitle"@) {
        Some(t) if !text::is_blank(t) => ReaderData { custom_title: text::trimmed(t), ..s },
        _ => s,
    }
}

/// Whether a row of this type carries a message.
pub open spec fn is_message_type(typ: Seq<char>) -> bool {
    typ == "user"@ || typ == "assistant"@ || typ == "system"@
}

/// One row.
pub open spec fn row_step(s: ReaderData, row: JsonData, include_sidechain: bool) -> ReaderData {
    let typ = row.str_field("type"@).unwrap_or(""@);
    if typ == "custom-title"@ {
        title_step(s, row)
    } else if !is_message_type(typ) {
        if typ.len() == 0 || !is_known_skip(typ) {
            ReaderData { unknown_lines: s.unknown_lines.wrapping_add(1), ..s }
        } else {
            s
        }
    } else {
        let s1 = envelope(s, row);
        let stamp = stamp_of(s, row);
        if row.bool_field("isSidechain"@) == Some(true) && !include_sidechain {
            s1
        } else if typ == "system"@ {
            system_step(s1, row, stamp)
        } else if typ == "user"@ {
            user_step(s1, row, stamp)
        } else {
            assistant_step(s1, row, stamp)
        }
    }
}

/// A line of a transcript file, once it has been read: one that could not be read or is not JSON
/// is broken.
pub enum Line {
    Blank,
    Broken,
    Row(Json),
}

/// What a [`Line`] holds.
pub enum LineData {
    Blank,
    Broken,
    Row(JsonData),
}

impl DeepView for Line {
    type V = LineData;

    open spec fn deep_view(&self) -> LineData {
        match self {
            Line::Blank => LineData::Blank,
            Line::Broken => LineData::Broken,
            Line::Row(row) => LineData::Row(row.deep_view()),
        }
    }
}

/// One line.
pub open spec fn line_step(s: ReaderData, line: LineData, include_sidechain: bool) -> ReaderData {
    match line {
        LineData::Blank => s,
        LineData::Broken => ReaderData { unknown_lines: s.unknown_lines.wrapping_add(1), ..s },
        LineData::Row(row) => row_step(s, row, include_sidechain),
    }
}

/// The state after all `lines`.
pub open spec fn read_lines(lines: Seq<LineData>, include_sidechain: bool) -> ReaderData
    decreases lines.len(),
{
    if lines.len() == 0 {
        reader_start()
    } else {
        line_step(read_lines(lines.drop_last(), include_sidechain), lines.last(), include_sidechain)
    }
}

/// What a line of a file is: `None` stands for one that could not be read.
pub open spec fn line_of(raw: Option<Seq<char>>) -> LineData {
    match raw {
        None => LineData::Broken,
        Some(text) => if text::is_blank(text) {
            LineData::Blank
        } else {
            match json::json_of_text(text) {
                Some(row) => LineData::Row(row),
                None => LineData::Broken,
            }
        },
    }
}

/// What the lines of a file are.
pub open spec fn lines_of(raw: Seq<Option<Seq<char>>>) -> Seq<LineData> {
    Seq::new(raw.len(), |i: int| line_of(raw[i]))
}

/// Whether every registered tool call exists.
pub open spec fn index_fits(
    messages: Seq<DraftData>,
    index: Map<Seq<char>, (usize, usize)>,
) -> bool {
    forall|id: Seq<char>| #[trigger]
        index.contains_key(id) ==> {
            let (mi, ti) = index[id];
            mi < messages.len() && ti < messages[mi as int].calls.len()
        }
}

/// Whether what a draft message refers to by an index exists: a tool call per output, and its
/// time stamp.
pub open spec fn message_fits(m: DraftData, stamps: nat) -> bool {
    &&& forall|k: int| 0 <= k < m.outputs.len() ==> (#[trigger] m.outputs[k]).call < m.calls.len()
    &&& m.stamp matches Some(i) ==> i < stamps
}

/// Whether everything that the state refers to by an index exists.
pub open spec fn reader_fits(s: ReaderData) -> bool {
    &&& index_fits(s.messages, s.tool_index)
    &&& forall|i: int|
        0 <= i < s.messages.len() ==> message_fits(#[trigger] s.messages[i], s.stamps.len())
    &&& s.pending matches Some(p) ==> (p.stamp matches Some(i) ==> i < s.stamps.len())
}

/// A transcript as its rows have it.
pub struct Draft {
    pub messages: Vec<DraftMessage>,
    pub stamps: Vec<Json>,
    pub custom_title: String,
    pub cwd: String,
    pub git_branch: Option<String>,
    pub model: Option<String>,
    pub tokens_used: i64,
    pub unknown_lines: u32,
}

/// What a [`Draft`] holds.
#[verifier::ext_equal]
pub struct DraftTotal {
    pub messages: Seq<DraftData>,
    pub stamps: Seq<JsonData>,
    pub custom_title: Seq<char>,
    pub cwd: Seq<char>,
    pub git_branch: Option<Seq<char>>,
    pub model: Option<Seq<char>>,
    pub tokens_used: i64,
    pub unknown_lines: u32,
}

impl DeepView for Draft {
    type V = DraftTotal;

    open spec fn deep_view(&self) -> DraftTotal {
        DraftTotal {
            messages: self.messages.deep_view(),
            stamps: self.stamps.deep_view(),
            custom_title: self.custom_title@,
            cwd: self.cwd@,
            git_branch: self.git_branch.deep_view(),
            model: self.model.deep_view(),
            tokens_used: self.tokens_used,
            unknown_lines: self.unknown_lines,
        }
    }
}

/// Whether everything that the draft refers to by an index exists.
pub open spec fn draft_fits(d: DraftTotal) -> bool {
    forall|i: int|
        0 <= i < d.messages.len() ==> message_fits(#[trigger] d.messages[i], d.stamps.len())
}

/// The draft that a reader leaves: the assistant message being collected is closed.
pub open spec fn draft_of(s: ReaderData) -> DraftTotal {
    let f = flushed(s);
    DraftTotal {
        messages: f.messages,
        stamps: f.stamps,
        custom_title: f.custom_title,
        cwd: f.cwd,
        git_branch: f.git_branch,
        model: f.model,
        tokens_used: f.tokens_used,
        unknown_lines: f.unknown_lines,
    }
}

/// Reads a transcript line by line.
pub struct ClaudeReader {
    messages: Vec<DraftMessage>,
    tool_index: StringHashMap<(usize, usize)>,
    custom_title: String,
    cwd: String,
    git_branch: Option<String>,
    model: Option<String>,
    tokens_used: i64,
    stamps: Vec<Json>,
    unknown_lines: u32,
    pending: Option<PendingAssistant>,
}

impl View for ClaudeReader {
    type V = ReaderData;

    closed spec fn view(&self) -> ReaderData {
        ReaderData {
            messages: self.messages.deep_view(),
            tool_index: self.tool_index@,
            custom_title: self.custom_title@,
            cwd: self.cwd@,
            git_branch: self.git_branch.deep_view(),
            model: self.model.deep_view(),
            tokens_used: self.tokens_used,
            stamps: self.stamps.deep_view(),
            unknown_lines: self.unknown_lines,
            pending: self.pending.deep_view(),
        }
    }
}

fn known_skip(typ: &str) -> (r: bool)
    ensures
        r == is_known_skip(typ@),
{
    same_text(typ, "queue-operation") || same_text(typ, "mode") || same_text(typ, "last-prompt")
        || same_text(typ, "permission-mode") || same_text(typ, "file-history-snapshot")
        || same_text(typ, "file-history-delta") || same_text(typ, "pr-link") || same_text(
        typ,
        "frame-link",
    ) || same_text(typ, "attachment") || same_text(typ, "summary") || same_text(typ, "atis-latch")
        || same_text(typ, "bridge-session")
}

/// Whether the text under `key` is `expected`.
fn has_text(j: &Json, key: &str, expected: &str) -> (r: bool)
    ensures
        r == (j.deep_view().str_field(key@) == Some(expected@)),
{
    match j.str_field(key) {
        Some(s) => same_text(s, expected),
        None => false,
    }
}

/// Hands the result of a tool call back to the call, if the call is known.
fn backfill(messages: &mut Vec<DraftMessage>, index: &StringHashMap<(usize, usize)>, b: Json)
    requires
        index_fits(old(messages).deep_view(), index@),
    ensures
        final(messages).deep_view() == backfilled(
            old(messages).deep_view(),
            index@,
            b.deep_view(),
        ),
        index_fits(final(messages).deep_view(), index@),
{
    let id = b.string_field_or("tool_use_id", "");
    let is_error = b.is_true("is_error");
    let ghost before = messages.deep_view();
    if let Some(place) = index.get(id.as_str()) {
        let (mi, ti) = *place;
        assert(index@.contains_key(id@));
        let content = match b.take_field("content") {
            Some(c) => c,
            None => Json::Null,
        };
        let m = &mut messages[mi];
        m.outputs.push(ToolOutput { call: ti, content });
        if is_error {
            m.calls[ti].is_error = true;
        }
        proof {
            let was = old(messages)@[mi as int].deep_view();
            let now = messages@[mi as int].deep_view();
            let expected = with_output(was, ti, content.deep_view(), is_error);
            assert(now.calls =~= expected.calls);
            assert(now.outputs =~= expected.outputs);
            assert(now =~= expected);
            assert(messages.deep_view() =~= before.update(mi as int, expected));
        }
    }
}

/// Reads the blocks of a user row.
fn take_user_blocks(
    messages: &mut Vec<DraftMessage>,
    index: &StringHashMap<(usize, usize)>,
    blocks: Vec<Json>,
) -> (r: Vec<Part>)
    requires
        index_fits(old(messages).deep_view(), index@),
    ensures
        (final(messages).deep_view(), r.deep_view()) == user_blocks(
            old(messages).deep_view(),
            index@,
            blocks.deep_view(),
        ),
        index_fits(final(messages).deep_view(), index@),
{
    let mut parts: Vec<Part> = Vec::new();
    let ghost before = messages.deep_view();
    let ghost raw = blocks@;
    let ghost all = blocks.deep_view();
    assert(parts.deep_view() =~= seq![]);
    for b in it: blocks
        invariant
            it.seq() == raw,
            all == raw.map_values(|j: Json| j.deep_view()),
            index_fits(messages.deep_view(), index@),
            (messages.deep_view(), parts.deep_view()) == user_blocks(
                before,
                index@,
                all.take(it.index() as int),
            ),
    {
        let ghost parts_before = parts.deep_view();
        proof {
            let t = all.take(it.index() as int + 1);
            assert(t.drop_last() =~= all.take(it.index() as int));
            assert(t.last() == b.deep_view());
        }
        if has_text(&b, "type", "text") {
            if let Some(t) = b.string_field("text") {
                parts.push(Part::Text(t));
                assert(parts.deep_view() =~= parts_before.push(PartData::Text(t@)));
            }
        } else if has_text(&b, "type", "tool_result") {
            backfill(messages, index, b);
        } else {
            parts.push(Part::Block(b));
            assert(parts.deep_view() =~= parts_before.push(PartData::Block(b.deep_view())));
        }
    }
    assert(all.take(all.len() as int) =~= all);
    parts
}

/// Reads the content of a user message.
fn take_user_content(
    messages: &mut Vec<DraftMessage>,
    index: &StringHashMap<(usize, usize)>,
    content: Option<Json>,
) -> (r: Vec<Part>)
    requires
        index_fits(old(messages).deep_view(), index@),
    ensures
        (final(messages).deep_view(), r.deep_view()) == user_content(
            old(messages).deep_view(),
            index@,
            content.deep_view(),
        ),
        index_fits(final(messages).deep_view(), index@),
{
    let mut parts: Vec<Part> = Vec::new();
    assert(parts.deep_view() =~= seq![]);
    match content {
        Some(Json::Str(t)) => {
            parts.push(Part::Text(t));
            assert(parts.deep_view() =~= seq![PartData::Text(t@)]);
            parts
        },
        Some(Json::Array(blocks)) => {
            assert(content.deep_view()->0->Array_0 =~= blocks.deep_view());
            take_user_blocks(messages, index, blocks)
        },
        _ => parts,
    }
}

impl PendingAssistant {
    /// Adds one content block.
    fn take_block(&mut self, b: Json)
        ensures
            final(self).deep_view() == assistant_block(old(self).deep_view(), b.deep_view()),
    {
        let ghost before = self.deep_view();
        if has_text(&b, "type", "text") {
            if let Some(t) = b.string_field("text") {
                if !blank(t.as_str()) {
                    self.parts.push(Part::Text(t));
                    assert(self.parts.deep_view() =~= before.parts.push(PartData::Text(t@)));
                }
            }
        } else if has_text(&b, "type", "thinking") {
            if let Some(t) = b.string_field("thinking") {
                if !blank(t.as_str()) {
                    self.thinking.push(t);
                    assert(self.thinking.deep_view() =~= before.thinking.push(t@));
                }
            }
        } else if has_text(&b, "type", "tool_use") {
            let id = b.string_field_or("id", "");
            let name = b.string_field_or("name", "tool");
            let input = match b.take_field("input") {
                Some(v) => v,
                None => Json::Null,
            };
            let call = ToolCallView {
                id,
                name,
                input,
                output: None,
                is_error: false,
                sidechain_ref: None,
            };
            self.tool_calls.push(call);
            assert(self.tool_calls.deep_view() =~= before.tool_calls.push(call.deep_view()));
        } else {
            self.parts.push(Part::Block(b));
            assert(self.parts.deep_view() =~= before.parts.push(PartData::Block(b.deep_view())));
        }
    }

    /// Adds the content of a row.
    fn take_content(&mut self, content: Option<Json>)
        ensures
            final(self).deep_view() == assistant_content(
                old(self).deep_view(),
                content.deep_view(),
            ),
    {
        let ghost before = self.deep_view();
        match content {
            Some(Json::Array(blocks)) => {
                let ghost raw = blocks@;
                let ghost all = blocks.deep_view();
                assert(content.deep_view()->0->Array_0 =~= all);
                for b in it: blocks
                    invariant
                        it.seq() == raw,
                        all == raw.map_values(|j: Json| j.deep_view()),
                        self.deep_view() == assistant_blocks(before, all.take(it.index() as int)),
                {
                    proof {
                        let t = all.take(it.index() as int + 1);
                        assert(t.drop_last() =~= all.take(it.index() as int));
                        assert(t.last() == b.deep_view());
                    }
                    self.take_block(b);
                }
                assert(all.take(all.len() as int) =~= all);
            },
            Some(Json::Str(t)) => {
                if !blank(t.as_str()) {
                    self.parts.push(Part::Text(t));
                    assert(self.parts.deep_view() =~= before.parts.push(PartData::Text(t@)));
                }
            },
            _ => {},
        }
    }
}

pub proof fn lemma_register_fits(
    messages: Seq<DraftData>,
    index: Map<Seq<char>, (usize, usize)>,
    calls: Seq<ToolCallData>,
    m: DraftData,
)
    requires
        index_fits(messages, index),
        calls.len() <= m.calls.len() <= usize::MAX,
        messages.len() <= usize::MAX,
    ensures
        index_fits(messages.push(m), register(index, calls, messages.len() as usize)),
    decreases calls.len(),
{
    let mi = messages.len() as usize;
    if calls.len() > 0 {
        lemma_register_fits(messages, index, calls.drop_last(), m);
    } else {
        assert forall|id: Seq<char>| #[trigger] index.contains_key(id) implies ({
            let (mi, ti) = index[id];
            mi < messages.push(m).len() && ti < messages.push(m)[mi as int].calls.len()
        }) by {
            let (mi, ti) = index[id];
            assert(messages.push(m)[mi as int] == messages[mi as int]);
        }
    }
}

proof fn lemma_push_fits(
    messages: Seq<DraftData>,
    index: Map<Seq<char>, (usize, usize)>,
    m: DraftData,
)
    requires
        index_fits(messages, index),
    ensures
        index_fits(messages.push(m), index),
{
    assert forall|id: Seq<char>| #[trigger] index.contains_key(id) implies ({
        let (mi, ti) = index[id];
        mi < messages.push(m).len() && ti < messages.push(m)[mi as int].calls.len()
    }) by {
        let (mi, ti) = index[id];
        assert(messages.push(m)[mi as int] == messages[mi as int]);
    }
}

/// Closes the assistant message being collected: one that gathered nothing is dropped, any other
/// joins the messages, and its tool calls become known.
pub fn flush_assistant(
    pending: &mut Option<PendingAssistant>,
    messages: &mut Vec<DraftMessage>,
    tool_index: &mut StringHashMap<(usize, usize)>,
)
    requires
        index_fits(old(messages).deep_view(), old(tool_index)@),
    ensures
        index_fits(final(messages).deep_view(), final(tool_index)@),
        *final(pending) is None,
        match old(pending).deep_view() {
            None => final(messages).deep_view() == old(messages).deep_view()
                && final(tool_index)@ == old(tool_index)@,
            Some(p) => if pending_is_bare(p) {
                final(messages).deep_view() == old(messages).deep_view() && final(tool_index)@
                    == old(tool_index)@
            } else {
                &&& final(messages).deep_view() == old(messages).deep_view().push(
                    assistant_draft(p),
                )
                &&& final(tool_index)@ == register(
                    old(tool_index)@,
                    p.tool_calls,
                    old(messages)@.len() as usize,
                )
            },
        },
{
    let taken = pending.take();
    if let Some(p) = taken {
        if p.parts.len() == 0 && p.thinking.len() == 0 && p.tool_calls.len() == 0 {
            return;
        }
        let ghost pd = p.deep_view();
        let ghost before = messages.deep_view();
        let mi: usize = messages.len();
        let mut ti: usize = 0;
        let ghost index_before = tool_index@;
        while ti < p.tool_calls.len()
            invariant
                ti <= p.tool_calls.len(),
                pd == p.deep_view(),
                tool_index@ == register(index_before, pd.tool_calls.take(ti as int), mi),
            decreases p.tool_calls.len() - ti,
        {
            proof {
                let t = pd.tool_calls.take(ti + 1);
                assert(t.drop_last() =~= pd.tool_calls.take(ti as int));
                assert(t.last() == p.tool_calls@[ti as int].deep_view());
            }
            if !p.tool_calls[ti].id.as_str().is_empty() {
                tool_index.insert(p.tool_calls[ti].id.clone(), (mi, ti));
            }
            ti = ti + 1;
        }
        assert(pd.tool_calls.take(pd.tool_calls.len() as int) =~= pd.tool_calls);
        proof {
            lemma_register_fits(before, index_before, pd.tool_calls, assistant_draft(pd));
        }
        let outputs: Vec<ToolOutput> = Vec::new();
        let m = DraftMessage {
            source: DraftSource::Assistant,
            parts: p.parts,
            thinking: p.thinking,
            calls: p.tool_calls,
            outputs,
            stamp: p.stamp,
            model: p.model,
        };
        proof {
            assert(m.deep_view() =~= assistant_draft(pd));
        }
        messages.push(m);
        assert(messages.deep_view() =~= before.push(m.deep_view()));
    }
}

fn plain_draft(source: DraftSource, parts: Vec<Part>, stamp: Option<usize>) -> (r: DraftMessage)
    ensures
        r.deep_view() == (DraftData {
            source,
            parts: parts.deep_view(),
            thinking: seq![],
            calls: seq![],
            outputs: seq![],
            stamp,
            model: None,
        }),
{
    let r = DraftMessage {
        source,
        parts,
        thinking: Vec::new(),
        calls: Vec::new(),
        outputs: Vec::new(),
        stamp,
        model: None,
    };
    assert(r.thinking.deep_view() =~= seq![]);
    assert(r.calls.deep_view() =~= seq![]);
    assert(r.outputs.deep_view() =~= seq![]);
    r
}

impl ClaudeReader {
    /// Whether every tool call that the reader knows of exists.
    spec fn indexed(&self) -> bool {
        index_fits(self@.messages, self@.tool_index)
    }

    /// Whether everything that the draft refers to by an index exists.
    pub open spec fn wf(&self) -> bool {
        reader_fits(self@)
    }

    /// A reader before the first line.
    pub fn new() -> (r: ClaudeReader)
        ensures
            r@ == reader_start(),
            r.wf(),
    {
        let r = ClaudeReader {
            messages: Vec::new(),
            tool_index: StringHashMap::new(),
            custom_title: String::new(),
            cwd: String::new(),
            git_branch: None,
            model: None,
            tokens_used: 0,
            stamps: Vec::new(),
            unknown_lines: 0,
            pending: None,
        };
        assert(r@ =~= reader_start());
        r
    }

    fn flush(&mut self)
        requires
            old(self).indexed(),
        ensures
            final(self)@ == flushed(old(self)@),
            final(self).indexed(),
    {
        flush_assistant(&mut self.pending, &mut self.messages, &mut self.tool_index);
        assert(self@ =~= flushed(old(self)@));
    }

    fn add_message(&mut self, m: DraftMessage)
        requires
            old(self).indexed(),
        ensures
            final(self)@ == (ReaderData {
                messages: old(self)@.messages.push(m.deep_view()),
                ..old(self)@
            }),
            final(self).indexed(),
    {
        let ghost before = self@;
        self.messages.push(m);
        proof {
            assert(self.messages.deep_view() =~= before.messages.push(m.deep_view()));
            assert(self@ =~= ReaderData { messages: before.messages.push(m.deep_view()), ..before });
            lemma_push_fits(before.messages, before.tool_index, m.deep_view());
        }
    }

    fn on_system(&mut self, row: Json, stamp: Option<usize>)
        requires
            old(self).indexed(),
        ensures
            final(self)@ == system_step(old(self)@, row.deep_view(), stamp),
            final(self).indexed(),
    {
        self.flush();
        if has_text(&row, "subtype", "compact_boundary") {
            let parts: Vec<Part> = Vec::new();
            assert(parts.deep_view() =~= seq![]);
            self.add_message(plain_draft(DraftSource::Boundary, parts, stamp));
        } else if let Some(content) = row.string_field("content") {
            if !content.as_str().is_empty() {
                let mut parts: Vec<Part> = Vec::new();
                parts.push(Part::Text(content));
                assert(parts.deep_view() =~= seq![PartData::Text(content@)]);
                self.add_message(plain_draft(DraftSource::Note, parts, stamp));
            }
        }
    }

    fn on_user(&mut self, row: Json, stamp: Option<usize>)
        requires
            old(self).indexed(),
        ensures
            final(self)@ == user_step(old(self)@, row.deep_view(), stamp),
            final(self).indexed(),
    {
        self.flush();
        let meta = row.is_true("isMeta");
        let compact = row.is_true("isCompactSummary");
        let ghost flat = self@;
        if let Some(message) = row.take_field("message") {
            let content = message.take_field("content");
            let parts = take_user_content(&mut self.messages, &self.tool_index, content);
            let ghost pd = parts.deep_view();
            proof {
                let (messages, ps) = user_content(
                    flat.messages,
                    flat.tool_index,
                    content.deep_view(),
                );
                assert(self@ =~= ReaderData { messages, ..flat });
                assert(ps == pd);
            }
            if parts.len() != 0 {
                self.add_message(plain_draft(DraftSource::User { meta, compact }, parts, stamp));
            }
        }
    }

    fn open_pending(&mut self, mid: Option<String>, stamp: Option<usize>)
        requires
            old(self).indexed(),
        ensures
            final(self)@ == opened(old(self)@, mid.deep_view(), stamp),
            final(self)@.pending is Some,
            final(self).indexed(),
    {
        let begins = match &self.pending {
            None => true,
            Some(p) => match (&p.msg_id, &mid) {
                (Some(pid), Some(m)) => !same_text(pid.as_str(), m.as_str()),
                _ => false,
            },
        };
        assert(begins == begins_new(self@.pending, mid.deep_view()));
        if begins {
            self.flush();
            let ghost flat = self@;
            let p = PendingAssistant {
                msg_id: mid,
                parts: Vec::new(),
                thinking: Vec::new(),
                tool_calls: Vec::new(),
                stamp,
                model: None,
            };
            proof {
                assert(p.parts.deep_view() =~= seq![]);
                assert(p.thinking.deep_view() =~= seq![]);
                assert(p.tool_calls.deep_view() =~= seq![]);
            }
            self.pending = Some(p);
            assert(self@ =~= opened(old(self)@, mid.deep_view(), stamp));
        } else {
            let taken = self.pending.take();
            if let Some(p) = taken {
                let mut p = p;
                if p.msg_id.is_none() {
                    p.msg_id = mid;
                }
                self.pending = Some(p);
            }
            assert(self@ =~= opened(old(self)@, mid.deep_view(), stamp));
        }
    }

    fn on_assistant(&mut self, row: Json, stamp: Option<usize>)
        requires
            old(self).indexed(),
        ensures
            final(self)@ == assistant_step(old(self)@, row.deep_view(), stamp),
            final(self).indexed(),
    {
        if let Some(message) = row.take_field("message") {
            let mid = message.string_field("id");
            self.open_pending(mid, stamp);
            let ghost s1 = self@;
            let named = match message.string_field("model") {
                Some(m) => if !m.as_str().is_empty() && !same_text(m.as_str(), "<synthetic>") {
                    Some(m)
                } else {
                    None
                },
                None => None,
            };
            assert(named.deep_view() == named_model(message.deep_view()));
            let tokens = match message.field("usage") {
                Some(usage) => usage.int_or_zero("input_tokens").wrapping_add(
                    usage.int_or_zero("output_tokens"),
                ).wrapping_add(usage.int_or_zero("cache_creation_input_tokens")),
                None => 0,
            };
            self.tokens_used = self.tokens_used.wrapping_add(tokens);
            let taken = self.pending.take();
            if let Some(p) = taken {
                let mut p = p;
                if let Some(m) = named {
                    p.model = Some(m.clone());
                    self.model = Some(m);
                }
                p.take_content(message.take_field("content"));
                self.pending = Some(p);
            }
            assert(self@ =~= assistant_step(old(self)@, row.deep_view(), stamp));
        }
    }

    fn on_title(&mut self, row: Json)
        requires
            old(self).indexed(),
        ensures
            final(self)@ == title_step(old(self)@, row.deep_view()),
            final(self).indexed(),
    {
        if let Some(t) = row.str_field("customTitle") {
            if !blank(t) {
                self.custom_title = trim(t);
            }
        }
        assert(self@ =~= title_step(old(self)@, row.deep_view()));
    }

    /// Reads what every message row tells of the session, and gives the row back without its time
    /// stamp together with the stamp's index.
    fn on_envelope(&mut self, row: Json) -> (r: (Json, Option<usize>))
        requires
            old(self).indexed(),
        ensures
            final(self)@ == envelope(old(self)@, row.deep_view()),
            final(self).indexed(),
            r.1 == stamp_of(old(self)@, row.deep_view()),
            forall|key: Seq<char>|
                key != "timestamp"@ ==> #[trigger] r.0.deep_view().field(key)
                    == row.deep_view().field(key),
    {
        if self.cwd.as_str().is_empty() {
            if let Some(c) = row.string_field("cwd") {
                self.cwd = c;
            }
        }
        if let Some(b) = row.string_field("gitBranch") {
            if !b.as_str().is_empty() {
                self.git_branch = Some(b);
            }
        }
        let (stamp, rest) = row.split_field("timestamp");
        let at: usize = self.stamps.len();
        let mut index: Option<usize> = None;
        if let Some(t) = stamp {
            self.stamps.push(t);
            index = Some(at);
        }
        assert(self@ =~= envelope(old(self)@, row.deep_view()));
        (rest, index)
    }

    fn on_row(&mut self, row: Json, include_sidechain: bool)
        requires
            old(self).indexed(),
        ensures
            final(self)@ == row_step(old(self)@, row.deep_view(), include_sidechain),
            final(self).indexed(),
    {
        let typ = row.string_field_or("type", "");
        if same_text(typ.as_str(), "custom-title") {
            self.on_title(row);
            return;
        }
        let system = same_text(typ.as_str(), "system");
        let user = same_text(typ.as_str(), "user");
        if !system && !user && !same_text(typ.as_str(), "assistant") {
            if typ.as_str().is_empty() || !known_skip(typ.as_str()) {
                self.unknown_lines = self.unknown_lines.wrapping_add(1);
            }
            assert(self@ =~= row_step(old(self)@, row.deep_view(), include_sidechain));
            return;
        }
        let sidechain = row.is_true("isSidechain");
        let (rest, stamp) = self.on_envelope(row);
        proof {
            lemma_stamp_apart(row.deep_view(), rest.deep_view());
        }
        if sidechain && !include_sidechain {
            return;
        }
        if system {
            self.on_system(rest, stamp);
        } else if user {
            self.on_user(rest, stamp);
        } else {
            self.on_assistant(rest, stamp);
        }
    }

    /// Reads one line.
    pub fn on_line(&mut self, line: Line, include_sidechain: bool)
        requires
            old(self).wf(),
        ensures
            final(self)@ == line_step(old(self)@, line.deep_view(), include_sidechain),
            final(self).wf(),
    {
        proof {
            lemma_holdable(self);
        }
        match line {
            Line::Blank => {},
            Line::Broken => {
                self.unknown_lines = self.unknown_lines.wrapping_add(1);
                assert(self@ =~= line_step(old(self)@, line.deep_view(), include_sidechain));
            },
            Line::Row(row) => self.on_row(row, include_sidechain),
        }
        proof {
            lemma_line_step_fits(old(self)@, line.deep_view(), include_sidechain);
        }
    }

    /// Closes the transcript.
    pub fn into_draft(self) -> (r: Draft)
        requires
            self.wf(),
        ensures
            r.deep_view() == draft_of(self@),
            draft_fits(r.deep_view()),
    {
        let mut reader = self;
        proof {
            lemma_holdable(&self);
            lemma_flushed_fits(self@);
        }
        reader.flush();
        Draft {
            messages: reader.messages,
            stamps: reader.stamps,
            custom_title: reader.custom_title,
            cwd: reader.cwd,
            git_branch: reader.git_branch,
            model: reader.model,
            tokens_used: reader.tokens_used,
            unknown_lines: reader.unknown_lines,
        }
    }
}

/// Tells a line of a file apart: blank, a row, or broken.
pub fn read_line(raw: Option<String>) -> (r: Line)
    ensures
        r.deep_view() == line_of(raw.deep_view()),
{
    match raw {
        None => Line::Broken,
        Some(text) => if blank(text.as_str()) {
            Line::Blank
        } else {
            match parse_json(text.as_str()) {
                Some(row) => Line::Row(row),
                None => Line::Broken,
            }
        },
    }
}

/// Reads the lines of a transcript file into a draft; `None` stands for a line that could not be
/// read. Rows of a side chain count only if `include_sidechain` asks for them.
pub fn parse_claude_jsonl(lines: Vec<Option<String>>, include_sidechain: bool) -> (r: Draft)
    ensures
        r.deep_view() == draft_of(read_lines(lines_of(lines.deep_view()), include_sidechain)),
        draft_fits(r.deep_view()),
{
    let mut reader = ClaudeReader::new();
    let ghost all = lines_of(lines.deep_view());
    let ghost raw = lines@;
    assert(all.take(0) =~= seq![]);
    for line in it: lines
        invariant
            it.seq() == raw,
            all == lines_of(raw.map_values(|o: Option<String>| o.deep_view())),
            reader.wf(),
            reader@ == read_lines(all.take(it.index() as int), include_sidechain),
    {
        proof {
            let t = all.take(it.index() as int + 1);
            assert(t.drop_last() =~= all.take(it.index() as int));
            assert(t.last() == line_of(line.deep_view()));
        }
        reader.on_line(read_line(line), include_sidechain);
    }
    assert(all.take(all.len() as int) =~= all);
    reader.into_draft()
}

/// Without its time stamp a row still gives every step what that step reads.
proof fn lemma_stamp_apart(row: JsonData, rest: JsonData)
    requires
        forall|key: Seq<char>|
            key != "timestamp"@ ==> #[trigger] rest.field(key) == row.field(key),
    ensures
        rest.field("message"@) == row.field("message"@),
        rest.field("isMeta"@) == row.field("isMeta"@),
        rest.field("isCompactSummary"@) == row.field("isCompactSummary"@),
        rest.field("subtype"@) == row.field("subtype"@),
        rest.field("content"@) == row.field("content"@),
{
    reveal_strlit("timestamp");
    reveal_strlit("message");
    reveal_strlit("isMeta");
    reveal_strlit("isCompactSummary");
    reveal_strlit("subtype");
    reveal_strlit("content");
    assert("timestamp"@.len() == 9);
    assert("message"@.len() == 7);
    assert("isMeta"@.len() == 6);
    assert("isCompactSummary"@.len() == 16);
    assert("subtype"@.len() == 7);
    assert("content"@.len() == 7);
}

proof fn lemma_holdable(reader: &ClaudeReader)
    ensures
        holdable(reader@),
{
    assert(reader.messages.len() <= usize::MAX);
    assert(reader.stamps.len() <= usize::MAX);
    if let Some(p) = reader.pending {
        assert(p.tool_calls.len() <= usize::MAX);
    }
}

/// Whether the sizes of the state are ones that a machine can hold.
pub open spec fn holdable(s: ReaderData) -> bool {
    &&& s.messages.len() <= usize::MAX
    &&& s.stamps.len() <= usize::MAX
    &&& s.pending matches Some(p) ==> p.tool_calls.len() <= usize::MAX
}

proof fn lemma_flushed_fits(s: ReaderData)
    requires
        reader_fits(s),
        s.messages.len() <= usize::MAX,
        s.pending matches Some(p) ==> p.tool_calls.len() <= usize::MAX,
    ensures
        reader_fits(flushed(s)),
{
    if let Some(p) = s.pending {
        if !pending_is_bare(p) {
            lemma_register_fits(s.messages, s.tool_index, p.tool_calls, assistant_draft(p));
        }
    }
}

proof fn lemma_user_blocks_fit(
    messages: Seq<DraftData>,
    index: Map<Seq<char>, (usize, usize)>,
    blocks: Seq<JsonData>,
    stamps: nat,
)
    requires
        index_fits(messages, index),
        forall|i: int| 0 <= i < messages.len() ==> message_fits(#[trigger] messages[i], stamps),
    ensures
        ({
            let after = user_blocks(messages, index, blocks).0;
            &&& index_fits(after, index)
            &&& after.len() == messages.len()
            &&& forall|i: int| 0 <= i < after.len() ==> message_fits(#[trigger] after[i], stamps)
        }),
    decreases blocks.len(),
{
    if blocks.len() > 0 {
        lemma_user_blocks_fit(messages, index, blocks.drop_last(), stamps);
        let before = user_blocks(messages, index, blocks.drop_last()).0;
        let b = blocks.last();
        let id = b.str_field("tool_use_id"@).unwrap_or(""@);
        if index.contains_key(id) {
            let (mi, ti) = index[id];
            let content = b.field("content"@).unwrap_or(JsonData::Null);
            let m = with_output(
                before[mi as int],
                ti,
                content,
                b.bool_field("is_error"@) == Some(true),
            );
            assert(message_fits(before[mi as int], stamps));
            assert(message_fits(m, stamps));
        }
    }
}

proof fn lemma_system_step_fits(s: ReaderData, row: JsonData, stamp: Option<usize>)
    requires
        reader_fits(s),
        s.messages.len() <= usize::MAX,
        s.pending matches Some(p) ==> p.tool_calls.len() <= usize::MAX,
        stamp matches Some(i) ==> i < s.stamps.len(),
    ensures
        reader_fits(system_step(s, row, stamp)),
{
    lemma_flushed_fits(s);
    let f = flushed(s);
    lemma_push_fits(f.messages, f.tool_index, system_draft(DraftSource::Boundary, seq![], stamp));
    if let Some(t) = row.str_field("content"@) {
        lemma_push_fits(
            f.messages,
            f.tool_index,
            system_draft(DraftSource::Note, seq![PartData::Text(t)], stamp),
        );
    }
}

proof fn lemma_user_step_fits(s: ReaderData, row: JsonData, stamp: Option<usize>)
    requires
        reader_fits(s),
        s.messages.len() <= usize::MAX,
        s.pending matches Some(p) ==> p.tool_calls.len() <= usize::MAX,
        stamp matches Some(i) ==> i < s.stamps.len(),
    ensures
        reader_fits(user_step(s, row, stamp)),
{
    lemma_flushed_fits(s);
    let f = flushed(s);
    if let Some(message) = row.field("message"@) {
        let content = message.field("content"@);
        if let Some(JsonData::Array(blocks)) = content {
            lemma_user_blocks_fit(f.messages, f.tool_index, blocks, f.stamps.len());
        }
        let (messages, parts) = user_content(f.messages, f.tool_index, content);
        lemma_push_fits(messages, f.tool_index, user_draft(row, parts, stamp));
    }
}

proof fn lemma_assistant_step_fits(s: ReaderData, row: JsonData, stamp: Option<usize>)
    requires
        reader_fits(s),
        s.messages.len() <= usize::MAX,
        s.pending matches Some(p) ==> p.tool_calls.len() <= usize::MAX,
        stamp matches Some(i) ==> i < s.stamps.len(),
    ensures
        reader_fits(assistant_step(s, row, stamp)),
{
    lemma_flushed_fits(s);
    if let Some(message) = row.field("message"@) {
        let s1 = opened(s, message.str_field("id"@), stamp);
        let named = named_model(message);
        let p = s1.pending->0;
        let p1 = PendingData { model: if named is Some { named } else { p.model }, ..p };
        if let Some(JsonData::Array(blocks)) = message.field("content"@) {
            lemma_blocks_keep_stamp(p1, blocks);
        }
        assert(reader_fits(s1));
    }
}

/// Reading a line keeps everything that the state refers to by an index in existence.
proof fn lemma_line_step_fits(s: ReaderData, line: LineData, include_sidechain: bool)
    requires
        reader_fits(s),
        holdable(s),
    ensures
        reader_fits(line_step(s, line, include_sidechain)),
{
    if let LineData::Row(row) = line {
        let s1 = envelope(s, row);
        assert forall|i: int| 0 <= i < s1.messages.len() implies message_fits(
            #[trigger] s1.messages[i],
            s1.stamps.len(),
        ) by {
            assert(message_fits(s.messages[i], s.stamps.len()));
        }
        assert(reader_fits(s1));
        let stamp = stamp_of(s, row);
        lemma_system_step_fits(s1, row, stamp);
        lemma_user_step_fits(s1, row, stamp);
        lemma_assistant_step_fits(s1, row, stamp);
    }
}

pub proof fn lemma_blocks_keep_stamp(p: PendingData, blocks: Seq<JsonData>)
    ensures
        assistant_blocks(p, blocks).stamp == p.stamp,
    decreases blocks.len(),
{
    if blocks.len() > 0 {
        lemma_blocks_keep_stamp(p, blocks.drop_last());
    }
}

}
