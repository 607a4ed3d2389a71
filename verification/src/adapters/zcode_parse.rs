//! What the rows of a session come to, beyond what the shared message reader makes of them.
use crate::adapters::zcode::{RowData, ZcRow};
use crate::json::{Json, JsonData};
use crate::models;
use crate::models::{
    clone_opt, count_text, or_empty, AgentId, FileRefData, MessageData, MessageKind, MetaData,
    ParsedSession, ParsedTranscript, Role, SessionFileRef, SessionMeta, TranscriptMessage, UNTITLED,
};
use crate::text::{concat2, same_text};
use vstd::prelude::*;

verus! {

/// A message of a session: its own record, who wrote it, the model that the record names, and the
/// message that its parts came to, if they came to any.
pub struct MessageRow {
    pub data: Json,
    pub role: Role,
    pub model_id: Option<String>,
    pub message: Option<TranscriptMessage>,
}

/// What a [`MessageRow`] holds.
pub struct MessageRowData {
    pub data: JsonData,
    pub role: Role,
    pub model_id: Option<Seq<char>>,
    pub message: Option<MessageData>,
}

impl DeepView for MessageRow {
    type V = MessageRowData;

    open spec fn deep_view(&self) -> MessageRowData {
        MessageRowData {
            data: self.data.deep_view(),
            role: self.role,
            model_id: self.model_id.deep_view(),
            message: self.message.deep_view(),
        }
    }
}

/// The messages of a session, how many of its records were not understood, and its tokens.
pub struct Parsed {
    pub messages: Vec<TranscriptMessage>,
    pub unknown: u32,
    pub tokens: i64,
}

/// What a record says of the meaning of its message under `key`.
pub open spec fn semantic(data: JsonData, key: Seq<char>) -> Option<Seq<char>> {
    match data.field("semantics"@) {
        Some(s) => s.str_field(key),
        None => None,
    }
}

/// The tokens that a record reports.
pub open spec fn total_tokens(data: JsonData) -> i64 {
    match data.field("tokens"@) {
        Some(t) => t.int_or_zero("total"@),
        None => 0,
    }
}

/// What a message is by its record: a compaction summary, something that the user is not shown or
/// did not write, or what it was taken for. A record that says nothing is the user's own.
pub open spec fn kind_by(data: JsonData, role: Role, kind: MessageKind) -> MessageKind {
    if semantic(data, "kind"@) == Some("compact_summary"@) {
        MessageKind::CompactSummary
    } else if semantic(data, "transcriptVisibility"@) == Some("hidden"@) || (role == Role::User
        && (semantic(data, "origin"@) matches Some(o) && o != "real_user"@)) {
        MessageKind::Meta
    } else {
        kind
    }
}

/// The message of a row: the model is the one that an assistant's record names.
pub open spec fn message_by(row: MessageRowData) -> Option<MessageData> {
    match row.message {
        Some(m) => Some(
            MessageData {
                model: if row.role == Role::Assistant { row.model_id } else { m.model },
                kind: kind_by(row.data, row.role, m.kind),
                ..m
            },
        ),
        None => None,
    }
}

/// The messages of some rows, in order.
pub open spec fn messages_by(rows: Seq<MessageRowData>) -> Seq<MessageData>
    decreases rows.len(),
{
    if rows.len() == 0 {
        seq![]
    } else {
        match message_by(rows.last()) {
            Some(m) => messages_by(rows.drop_last()).push(m),
            None => messages_by(rows.drop_last()),
        }
    }
}

/// The tokens of some rows: those of an assistant count, also where the row came to no message.
pub open spec fn tokens_by(rows: Seq<MessageRowData>) -> i64
    decreases rows.len(),
{
    if rows.len() == 0 {
        0
    } else if rows.last().role == Role::Assistant {
        tokens_by(rows.drop_last()).wrapping_add(total_tokens(rows.last().data))
    } else {
        tokens_by(rows.drop_last())
    }
}

fn semantic_is(data: &Json, key: &str, expected: &str) -> (r: bool)
    ensures
        r == (semantic(data.deep_view(), key@) == Some(expected@)),
{
    match data.field("semantics") {
        Some(s) => match s.str_field(key) {
            Some(t) => same_text(t, expected),
            None => false,
        },
        None => false,
    }
}

fn kind_from(data: &Json, role: Role, kind: MessageKind) -> (r: MessageKind)
    ensures
        r == kind_by(data.deep_view(), role, kind),
{
    let hidden = semantic_is(data, "transcriptVisibility", "hidden");
    let has_origin = match data.field("semantics") {
        Some(s) => s.str_field("origin").is_some(),
        None => false,
    };
    let injected = role == Role::User && has_origin && !semantic_is(data, "origin", "real_user");
    if semantic_is(data, "kind", "compact_summary") {
        MessageKind::CompactSummary
    } else if hidden || injected {
        MessageKind::Meta
    } else {
        kind
    }
}

fn read_message(row: MessageRow) -> (r: Option<TranscriptMessage>)
    ensures
        r.deep_view() == message_by(row.deep_view()),
{
    match row.message {
        Some(m) => {
            let mut m = m;
            let ghost before = m.deep_view();
            m.kind = kind_from(&row.data, row.role, m.kind);
            if row.role == Role::Assistant {
                m.model = row.model_id;
            }
            assert(Some(m.deep_view()) == message_by(row.deep_view()));
            Some(m)
        },
        None => None,
    }
}

/// Reads the rows of a session; `unknown` is how many of its records were not understood.
pub fn parse_messages(rows: Vec<MessageRow>, unknown: u32) -> (r: Parsed)
    ensures
        r.messages.deep_view() == messages_by(rows.deep_view()),
        r.tokens == tokens_by(rows.deep_view()),
        r.unknown == unknown,
{
    let mut messages: Vec<TranscriptMessage> = Vec::new();
    let mut tokens: i64 = 0;
    let ghost raw = rows@;
    let ghost all = rows.deep_view();
    assert(messages.deep_view() =~= seq![]);
    for row in it: rows
        invariant
            it.seq() == raw,
            all == raw.map_values(|x: MessageRow| x.deep_view()),
            messages.deep_view() == messages_by(all.take(it.index() as int)),
            tokens == tokens_by(all.take(it.index() as int)),
    {
        proof {
            let t = all.take(it.index() as int + 1);
            assert(t.drop_last() =~= all.take(it.index() as int));
            assert(t.last() == row.deep_view());
        }
        if row.role == Role::Assistant {
            let more: i64 = match row.data.field("tokens") {
                Some(t) => t.int_or_zero("total"),
                None => 0,
            };
            tokens = tokens.wrapping_add(more);
        }
        if let Some(m) = read_message(row) {
            let ghost before = messages.deep_view();
            messages.push(m);
            assert(messages.deep_view() =~= before.push(m.deep_view()));
        }
    }
    assert(all.take(all.len() as int) =~= all);
    Parsed { messages, unknown, tokens }
}

/// The model that was used last.
pub open spec fn last_model(messages: Seq<MessageData>) -> Option<Seq<char>>
    decreases messages.len(),
{
    if messages.len() == 0 {
        None
    } else if messages.last().model is Some {
        messages.last().model
    } else {
        last_model(messages.drop_last())
    }
}

fn find_last_model(messages: &Vec<TranscriptMessage>) -> (r: Option<String>)
    ensures
        r.deep_view() == last_model(messages.deep_view()),
{
    let ghost all = messages.deep_view();
    let mut i: usize = messages.len();
    assert(all.take(all.len() as int) =~= all);
    while i > 0
        invariant
            i <= messages.len(),
            all == messages.deep_view(),
            last_model(all) == last_model(all.take(i as int)),
        decreases i,
    {
        assert(all.take(i as int).last() == messages@[i - 1].deep_view());
        assert(all.take(i as int).drop_last() =~= all.take(i - 1));
        if messages[i - 1].model.is_some() {
            return clone_opt(&messages[i - 1].model);
        }
        i = i - 1;
    }
    None
}

/// The title of a session: the one in its row, cleaned, unless that is a placeholder or comes to
/// nothing; else the one that its messages offer.
pub open spec fn title_by(
    row: RowData,
    cleaned: Seq<char>,
    offered: Option<Seq<char>>,
) -> Seq<char> {
    if !row.placeholder_title && cleaned.len() > 0 {
        cleaned
    } else {
        offered.unwrap_or(UNTITLED@)
    }
}

/// The index entry of a session: times that its row does not tell are those of its reference.
pub open spec fn meta_by(
    r: FileRefData,
    row: RowData,
    messages: Seq<MessageData>,
    tokens: i64,
    title: Seq<char>,
    project_name: Seq<char>,
) -> MetaData {
    MetaData {
        key: "zcode:"@ + row.id,
        host: seq![],
        id: row.id,
        agent: AgentId::Zcode,
        title,
        project_path: row.directory,
        project_name,
        file_path: r.file_path,
        created_at: models::time_or(row.created_ms, r.mtime_ms),
        updated_at: models::time_or(row.updated_ms, r.mtime_ms),
        message_count: models::text_count(messages) as i64,
        size_bytes: r.size,
        git_branch: None,
        model: last_model(messages),
        tokens_used: if tokens > 0 { Some(tokens) } else { None },
        archived: row.archived,
        source: None,
        favorite: false,
        pinned: false,
    }
}

/// The index entry of a session. `cleaned` is the title in its row, cleaned; `offered` the title
/// that its messages make; `project_name` what its directory is shown as.
pub fn build_meta(
    r: &SessionFileRef,
    row: &ZcRow,
    parsed: &Parsed,
    cleaned: String,
    offered: Option<String>,
    project_name: String,
) -> (m: SessionMeta)
    ensures
        m.deep_view() == meta_by(
            r.deep_view(),
            row.deep_view(),
            parsed.messages.deep_view(),
            parsed.tokens,
            title_by(row.deep_view(), cleaned@, offered.deep_view()),
            project_name@,
        ),
        row.created_ms > 0 ==> m.created_at == row.created_ms,
        row.updated_ms > 0 ==> m.updated_at == row.updated_ms,
        m.id@ == row.id@,
{
    let title = if !row.placeholder_title && !cleaned.as_str().is_empty() {
        cleaned
    } else {
        match offered {
            Some(t) => t,
            None => UNTITLED.to_owned(),
        }
    };
    SessionMeta {
        key: concat2("zcode:", row.id.as_str()),
        host: or_empty(None),
        id: row.id.clone(),
        agent: AgentId::Zcode,
        title,
        project_path: row.directory.clone(),
        project_name,
        file_path: r.file_path.clone(),
        created_at: if row.created_ms > 0 {
            row.created_ms
        } else {
            r.mtime_ms
        },
        updated_at: if row.updated_ms > 0 {
            row.updated_ms
        } else {
            r.mtime_ms
        },
        message_count: count_text(&parsed.messages),
        size_bytes: r.size,
        git_branch: None,
        model: find_last_model(&parsed.messages),
        tokens_used: if parsed.tokens > 0 {
            Some(parsed.tokens)
        } else {
            None
        },
        archived: row.archived,
        source: None,
        favorite: false,
        pinned: false,
    }
}

/// A session for the index, from its entry, what was read of it, and the search units made of its
/// messages.
pub fn parse_session<U>(meta: SessionMeta, parsed: &Parsed, units: U) -> (s: ParsedSession<U>)
    ensures
        s.meta == meta,
        s.units == units,
        s.unknown_line_count == parsed.unknown,
{
    ParsedSession { meta, units, unknown_line_count: parsed.unknown }
}

/// A session for a reader: there are no side chains.
pub fn parse_transcript(meta: SessionMeta, parsed: Parsed) -> (t: ParsedTranscript)
    ensures
        t.meta == meta,
        t.mainline == parsed.messages,
        t.sidechains@.len() == 0,
        t.unknown_line_count == parsed.unknown,
{
    ParsedTranscript {
        meta,
        mainline: parsed.messages,
        sidechains: Vec::new(),
        unknown_line_count: parsed.unknown,
    }
}

}
