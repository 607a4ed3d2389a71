//! From a draft to the transcript: the second half of reading a JSONL transcript.
use crate::adapters::claude_jsonl;
use crate::adapters::claude_jsonl::{
    Draft, DraftData, DraftMessage, DraftSource, DraftTotal, ToolOutput, ToolOutputData,
};
use crate::models;
use crate::models::{
    ts_opt, MessageData, MessageKind, Role, ToolCallData, ToolCallView, TranscriptImage,
    TranscriptMessage, UNTITLED,
};
use vstd::prelude::*;
use vstd::string::StringExecFns;

verus! {

/// What the answer to a tool call came to: its clipped text and its images.
pub struct ResolvedOutput {
    pub text: String,
    pub images: Vec<TranscriptImage>,
}

/// What a [`ResolvedOutput`] holds.
#[verifier::ext_equal]
pub struct OutputData {
    pub text: Seq<char>,
    pub images: Seq<TranscriptImage>,
}

impl DeepView for ResolvedOutput {
    type V = OutputData;

    open spec fn deep_view(&self) -> OutputData {
        OutputData { text: self.text@, images: self.images@ }
    }
}

/// What the content of a draft message came to. `text` is whole and `clipped` is what is shown of
/// it, `truncated` telling whether they differ; `thinking` is the clipped form of
/// [`thinking_text`]; `injected` tells whether the text was put there by a program, `title` is the
/// title it would make. There is one of `outputs` per output of the draft message.
pub struct ResolvedContent {
    pub text: String,
    pub images: Vec<TranscriptImage>,
    pub clipped: String,
    pub truncated: bool,
    pub thinking: String,
    pub injected: bool,
    pub title: String,
    pub outputs: Vec<ResolvedOutput>,
}

/// What a [`ResolvedContent`] holds.
#[verifier::ext_equal]
pub struct ContentData {
    pub text: Seq<char>,
    pub images: Seq<TranscriptImage>,
    pub clipped: Seq<char>,
    pub truncated: bool,
    pub thinking: Seq<char>,
    pub injected: bool,
    pub title: Seq<char>,
    pub outputs: Seq<OutputData>,
}

impl DeepView for ResolvedContent {
    type V = ContentData;

    open spec fn deep_view(&self) -> ContentData {
        ContentData {
            text: self.text@,
            images: self.images@,
            clipped: self.clipped@,
            truncated: self.truncated,
            thinking: self.thinking@,
            injected: self.injected,
            title: self.title@,
            outputs: self.outputs.deep_view(),
        }
    }
}

/// A transcript file, read.
pub struct ParseResult {
    pub messages: Vec<TranscriptMessage>,
    pub title: String,
    pub cwd: String,
    pub git_branch: Option<String>,
    pub model: Option<String>,
    pub tokens_used: i64,
    pub created_at: i64,
    pub updated_at: i64,
    pub unknown_lines: u32,
}

/// What a [`ParseResult`] holds.
#[verifier::ext_equal]
pub struct ParseData {
    pub messages: Seq<MessageData>,
    pub title: Seq<char>,
    pub cwd: Seq<char>,
    pub git_branch: Option<Seq<char>>,
    pub model: Option<Seq<char>>,
    pub tokens_used: i64,
    pub created_at: i64,
    pub updated_at: i64,
    pub unknown_lines: u32,
}

impl DeepView for ParseResult {
    type V = ParseData;

    open spec fn deep_view(&self) -> ParseData {
        ParseData {
            messages: self.messages.deep_view(),
            title: self.title@,
            cwd: self.cwd@,
            git_branch: self.git_branch.deep_view(),
            model: self.model.deep_view(),
            tokens_used: self.tokens_used,
            created_at: self.created_at,
            updated_at: self.updated_at,
            unknown_lines: self.unknown_lines,
        }
    }
}

/// The text of a message that marks where the context was compacted.
pub const COMPACTED: &'static str = "── Context compacted ──";

/// `thoughts` with an empty line between any two of them.
pub open spec fn joined(thoughts: Seq<Seq<char>>) -> Seq<char>
    decreases thoughts.len(),
{
    if thoughts.len() == 0 {
        seq![]
    } else if thoughts.len() == 1 {
        thoughts[0]
    } else {
        joined(thoughts.drop_last()) + "\n\n"@ + thoughts.last()
    }
}

/// The thoughts of a message as one text, an empty line between any two of them.
pub fn thinking_text(m: &DraftMessage) -> (r: String)
    ensures
        r@ == joined(m.deep_view().thinking),
{
    let mut out = String::new();
    let mut i: usize = 0;
    let ghost all = m.thinking.deep_view();
    assert(all.take(0) =~= seq![]);
    while i < m.thinking.len()
        invariant
            i <= m.thinking.len(),
            all == m.thinking.deep_view(),
            out@ == joined(all.take(i as int)),
        decreases m.thinking.len() - i,
    {
        proof {
            let t = all.take(i + 1);
            assert(t.drop_last() =~= all.take(i as int));
            assert(t.last() == m.thinking@[i as int]@);
        }
        if i > 0 {
            out.append("\n\n");
        }
        out.append(m.thinking[i].as_str());
        assert(i == 0 ==> out@ =~= m.thinking@[0]@);
        i = i + 1;
    }
    assert(all.take(all.len() as int) =~= all);
    out
}

/// The calls once their outputs have come back: the last output of a call stands.
pub open spec fn answered(
    calls: Seq<ToolCallData>,
    outputs: Seq<ToolOutputData>,
    resolved: Seq<OutputData>,
) -> Seq<ToolCallData>
    decreases outputs.len(),
{
    if outputs.len() == 0 {
        calls
    } else {
        let before = answered(calls, outputs.drop_last(), resolved.drop_last());
        let at = outputs.last().call as int;
        before.update(
            at,
            ToolCallData { output: Some(resolved.last().text), ..before[at] },
        )
    }
}

/// The images of all outputs, in order.
pub open spec fn output_images(resolved: Seq<OutputData>) -> Seq<TranscriptImage>
    decreases resolved.len(),
{
    if resolved.len() == 0 {
        seq![]
    } else {
        output_images(resolved.drop_last()) + resolved.last().images
    }
}

/// Whether a message comes to nothing: no text and no image, and of an assistant neither a thought
/// nor a tool call.
pub open spec fn comes_to_nothing(m: DraftData, c: ContentData) -> bool {
    match m.source {
        DraftSource::Boundary => false,
        DraftSource::Note => false,
        DraftSource::User { .. } => c.text.len() == 0 && c.images.len() == 0,
        DraftSource::Assistant => c.text.len() == 0 && m.thinking.len() == 0 && m.calls.len() == 0
            && c.images.len() == 0,
    }
}

/// Who wrote a draft message.
pub open spec fn role_of(source: DraftSource) -> Role {
    match source {
        DraftSource::Boundary => Role::System,
        DraftSource::Note => Role::System,
        DraftSource::User { .. } => Role::User,
        DraftSource::Assistant => Role::Assistant,
    }
}

/// What a draft message is.
pub open spec fn kind_of(source: DraftSource, injected: bool) -> MessageKind {
    match source {
        DraftSource::Boundary => MessageKind::CompactSummary,
        DraftSource::Note => MessageKind::Meta,
        DraftSource::User { meta, compact } => if compact {
            MessageKind::CompactSummary
        } else if meta || injected {
            MessageKind::Meta
        } else {
            MessageKind::Text
        },
        DraftSource::Assistant => MessageKind::Text,
    }
}

/// The time of a draft message, where it is known.
pub open spec fn time_of(stamp: Option<usize>, stamps: Seq<i64>) -> Option<i64> {
    match stamp {
        Some(i) => models::known_time(stamps[i as int]),
        None => None,
    }
}

/// The message that a draft message becomes, as number `seq` of the transcript.
pub open spec fn message_of(
    m: DraftData,
    c: ContentData,
    stamps: Seq<i64>,
    seq: int,
) -> MessageData {
    if m.source == DraftSource::Boundary {
        MessageData {
            seq,
            role: Role::System,
            kind: MessageKind::CompactSummary,
            text: COMPACTED@,
            truncated: false,
            tool_calls: seq![],
            thinking: None,
            timestamp: time_of(m.stamp, stamps),
            model: None,
            images: seq![],
        }
    } else {
        MessageData {
            seq,
            role: role_of(m.source),
            kind: kind_of(m.source, c.injected),
            text: c.clipped,
            truncated: c.truncated,
            tool_calls: answered(m.calls, m.outputs, c.outputs),
            thinking: if m.thinking.len() == 0 { None } else { Some(c.thinking) },
            timestamp: time_of(m.stamp, stamps),
            model: m.model,
            images: if m.source == DraftSource::Note {
                seq![]
            } else {
                c.images + output_images(c.outputs)
            },
        }
    }
}

/// The messages of the transcript, numbered from zero; those that come to nothing are left out.
pub open spec fn finished(
    drafts: Seq<DraftData>,
    contents: Seq<ContentData>,
    stamps: Seq<i64>,
) -> Seq<MessageData>
    decreases drafts.len(),
{
    if drafts.len() == 0 {
        seq![]
    } else {
        let before = finished(drafts.drop_last(), contents.drop_last(), stamps);
        if comes_to_nothing(drafts.last(), contents.last()) {
            before
        } else {
            before.push(
                message_of(drafts.last(), contents.last(), stamps, before.len() as int),
            )
        }
    }
}

/// The title that the conversation itself offers: the first that is not empty among those of the
/// user's own messages.
pub open spec fn offered_title(drafts: Seq<DraftData>, contents: Seq<ContentData>) -> Seq<char>
    decreases drafts.len(),
{
    if drafts.len() == 0 {
        seq![]
    } else {
        let before = offered_title(drafts.drop_last(), contents.drop_last());
        let (m, c) = (drafts.last(), contents.last());
        if before.len() == 0 && m.source is User && !comes_to_nothing(m, c) && kind_of(
            m.source,
            c.injected,
        ) == MessageKind::Text {
            c.title
        } else {
            before
        }
    }
}

/// The first known time, or zero.
pub open spec fn first_time(stamps: Seq<i64>) -> i64
    decreases stamps.len(),
{
    if stamps.len() == 0 {
        0
    } else {
        let before = first_time(stamps.drop_last());
        if before == 0 && stamps.last() > 0 {
            stamps.last()
        } else {
            before
        }
    }
}

/// The latest known time, or zero.
pub open spec fn latest_time(stamps: Seq<i64>) -> i64
    decreases stamps.len(),
{
    if stamps.len() == 0 {
        0
    } else {
        let before = latest_time(stamps.drop_last());
        if stamps.last() > before {
            stamps.last()
        } else {
            before
        }
    }
}

/// The title of the session: the one it was given, else the one the conversation offers.
pub open spec fn title_of(custom: Seq<char>, offered: Seq<char>) -> Seq<char> {
    if custom.len() > 0 {
        custom
    } else if offered.len() > 0 {
        offered
    } else {
        UNTITLED@
    }
}

/// The transcript that a draft becomes.
pub open spec fn finished_parse(
    d: DraftTotal,
    stamps: Seq<i64>,
    contents: Seq<ContentData>,
) -> ParseData {
    ParseData {
        messages: finished(d.messages, contents, stamps),
        title: title_of(d.custom_title, offered_title(d.messages, contents)),
        cwd: d.cwd,
        git_branch: d.git_branch,
        model: d.model,
        tokens_used: d.tokens_used,
        created_at: first_time(stamps),
        updated_at: latest_time(stamps),
        unknown_lines: d.unknown_lines,
    }
}

/// Whether there is one time per stamp, one content per message, and one resolved output per
/// output.
pub open spec fn resolves(
    d: DraftTotal,
    stamps: Seq<i64>,
    contents: Seq<ContentData>,
) -> bool {
    &&& claude_jsonl::draft_fits(d)
    &&& stamps.len() == d.stamps.len()
    &&& contents.len() == d.messages.len()
    &&& forall|i: int|
        0 <= i < contents.len() ==> (#[trigger] contents[i]).outputs.len()
            == d.messages[i].outputs.len()
}

/// A message with a text and nothing else.
pub fn mk_msg(role: Role, kind: MessageKind, text: &str, ts: i64) -> (r: TranscriptMessage)
    ensures
        r.deep_view() == (MessageData {
            seq: 0,
            role,
            kind,
            text: text@,
            truncated: false,
            tool_calls: seq![],
            thinking: None,
            timestamp: models::known_time(ts),
            model: None,
            images: seq![],
        }),
{
    let r = TranscriptMessage {
        seq: 0,
        role,
        kind,
        text: text.to_owned(),
        truncated: false,
        tool_calls: Vec::new(),
        thinking: None,
        timestamp: ts_opt(ts),
        model: None,
        images: Vec::new(),
    };
    assert(r.tool_calls.deep_view() =~= seq![]);
    assert(r.images@ =~= seq![]);
    r
}

fn add_images(images: &mut Vec<TranscriptImage>, more: &Vec<TranscriptImage>)
    ensures
        final(images)@ == old(images)@ + more@,
{
    let mut i: usize = 0;
    let ghost before = images@;
    assert(more@.take(0) =~= seq![]);
    assert(before + seq![] =~= before);
    while i < more.len()
        invariant
            i <= more.len(),
            images@ == before + more@.take(i as int),
        decreases more.len() - i,
    {
        images.push(more[i]);
        assert(images@ =~= before + more@.take(i + 1));
        i = i + 1;
    }
    assert(more@.take(more@.len() as int) =~= more@);
}

fn source_role(source: DraftSource) -> (r: Role)
    ensures
        r == role_of(source),
{
    match source {
        DraftSource::Boundary => Role::System,
        DraftSource::Note => Role::System,
        DraftSource::User { .. } => Role::User,
        DraftSource::Assistant => Role::Assistant,
    }
}

fn source_kind(source: DraftSource, injected: bool) -> (r: MessageKind)
    ensures
        r == kind_of(source, injected),
{
    match source {
        DraftSource::Boundary => MessageKind::CompactSummary,
        DraftSource::Note => MessageKind::Meta,
        DraftSource::User { meta, compact } => if compact {
            MessageKind::CompactSummary
        } else if meta || injected {
            MessageKind::Meta
        } else {
            MessageKind::Text
        },
        DraftSource::Assistant => MessageKind::Text,
    }
}

fn is_nothing(m: &DraftMessage, c: &ResolvedContent) -> (r: bool)
    ensures
        r == comes_to_nothing(m.deep_view(), c.deep_view()),
{
    match m.source {
        DraftSource::Boundary => false,
        DraftSource::Note => false,
        DraftSource::User { .. } => c.text.as_str().is_empty() && c.images.len() == 0,
        DraftSource::Assistant => c.text.as_str().is_empty() && m.thinking.len() == 0
            && m.calls.len() == 0 && c.images.len() == 0,
    }
}

fn message_time(stamp: Option<usize>, stamps: &Vec<i64>) -> (r: Option<i64>)
    requires
        stamp matches Some(i) ==> i < stamps@.len(),
    ensures
        r == time_of(stamp, stamps@),
{
    match stamp {
        Some(i) => ts_opt(stamps[i]),
        None => None,
    }
}

/// Hands every resolved output to its call.
fn answer_calls(
    calls: &mut Vec<ToolCallView>,
    outputs: &Vec<ToolOutput>,
    resolved: &Vec<ResolvedOutput>,
)
    requires
        outputs@.len() == resolved@.len(),
        forall|k: int|
            0 <= k < outputs@.len() ==> (#[trigger] outputs@[k]).call < old(calls)@.len(),
    ensures
        final(calls).deep_view() == answered(
            old(calls).deep_view(),
            outputs.deep_view(),
            resolved.deep_view(),
        ),
{
    let ghost before = calls.deep_view();
    let ghost all = resolved.deep_view();
    let ghost came = outputs.deep_view();
    let mut k: usize = 0;
    assert(came.take(0) =~= seq![]);
    while k < outputs.len()
        invariant
            k <= outputs.len(),
            outputs@.len() == resolved@.len(),
            all == resolved.deep_view(),
            came == outputs.deep_view(),
            calls@.len() == before.len(),
            forall|k: int| 0 <= k < outputs@.len() ==> (#[trigger] outputs@[k]).call < calls@.len(),
            calls.deep_view() == answered(before, came.take(k as int), all.take(k as int)),
        decreases outputs.len() - k,
    {
        let at: usize = outputs[k].call;
        let ghost now = calls.deep_view();
        calls[at].output = Some(resolved[k].text.clone());
        proof {
            assert(came.take(k + 1).drop_last() =~= came.take(k as int));
            assert(all.take(k + 1).drop_last() =~= all.take(k as int));
            assert(all.take(k + 1).last() == all[k as int]);
            assert(calls.deep_view() =~= now.update(
                at as int,
                ToolCallData { output: Some(all[k as int].text), ..now[at as int] },
            ));
        }
        k = k + 1;
    }
    assert(came.take(came.len() as int) =~= came);
    assert(all.take(all.len() as int) =~= all);
}

fn message_images(c: &ResolvedContent) -> (r: Vec<TranscriptImage>)
    ensures
        r@ == c.deep_view().images + output_images(c.deep_view().outputs),
{
    let mut images: Vec<TranscriptImage> = Vec::new();
    add_images(&mut images, &c.images);
    let ghost all = c.outputs.deep_view();
    let mut k: usize = 0;
    assert(images@ =~= c.images@ + output_images(all.take(0)));
    while k < c.outputs.len()
        invariant
            k <= c.outputs.len(),
            all == c.outputs.deep_view(),
            images@ == c.images@ + output_images(all.take(k as int)),
        decreases c.outputs.len() - k,
    {
        add_images(&mut images, &c.outputs[k].images);
        proof {
            assert(all.take(k + 1).drop_last() =~= all.take(k as int));
            assert(all.take(k + 1).last().images == c.outputs@[k as int].images@);
            assert(images@ =~= c.images@ + output_images(all.take(k + 1)));
        }
        k = k + 1;
    }
    assert(all.take(all.len() as int) =~= all);
    images
}

/// The message that a draft message becomes, as number `seq` of the transcript.
fn finish_message(
    m: DraftMessage,
    c: &ResolvedContent,
    stamps: &Vec<i64>,
    seq: usize,
) -> (r: TranscriptMessage)
    requires
        claude_jsonl::message_fits(m.deep_view(), stamps@.len()),
        m.outputs@.len() == c.outputs@.len(),
    ensures
        r.deep_view() == message_of(m.deep_view(), c.deep_view(), stamps@, seq as int),
{
    if m.source == DraftSource::Boundary {
        let ts: i64 = match m.stamp {
            Some(i) => stamps[i],
            None => 0,
        };
        let mut r = mk_msg(Role::System, MessageKind::CompactSummary, COMPACTED, ts);
        r.seq = seq;
        return r;
    }
    let timestamp = message_time(m.stamp, stamps);
    let role = source_role(m.source);
    let kind = source_kind(m.source, c.injected);
    let images = if m.source == DraftSource::Note {
        Vec::new()
    } else {
        message_images(c)
    };
    let thinking = if m.thinking.len() == 0 {
        None
    } else {
        Some(c.thinking.clone())
    };
    let ghost drafted = m.deep_view();
    let mut calls = m.calls;
    assert(forall|k: int|
        0 <= k < m.outputs@.len() ==> (#[trigger] m.outputs@[k]).call < calls@.len()) by {
        assert forall|k: int| 0 <= k < m.outputs@.len() implies (#[trigger] m.outputs@[k]).call
            < calls@.len() by {
            assert(drafted.outputs[k].call < drafted.calls.len());
        }
    }
    answer_calls(&mut calls, &m.outputs, &c.outputs);
    let r = TranscriptMessage {
        seq,
        role,
        kind,
        text: c.clipped.clone(),
        truncated: c.truncated,
        tool_calls: calls,
        thinking,
        timestamp,
        model: m.model,
        images,
    };
    assert(r.deep_view() =~= message_of(drafted, c.deep_view(), stamps@, seq as int));
    r
}

fn times(stamps: &Vec<i64>) -> (r: (i64, i64))
    ensures
        r.0 == first_time(stamps@),
        r.1 == latest_time(stamps@),
{
    let mut first: i64 = 0;
    let mut latest: i64 = 0;
    let mut i: usize = 0;
    while i < stamps.len()
        invariant
            i <= stamps.len(),
            first == first_time(stamps@.take(i as int)),
            latest == latest_time(stamps@.take(i as int)),
        decreases stamps.len() - i,
    {
        assert(stamps@.take(i + 1).drop_last() =~= stamps@.take(i as int));
        let ts: i64 = stamps[i];
        if first == 0 && ts > 0 {
            first = ts;
        }
        if ts > latest {
            latest = ts;
        }
        i = i + 1;
    }
    assert(stamps@.take(stamps@.len() as int) =~= stamps@);
    (first, latest)
}

/// Joins a draft and what its stamps and contents came to into the transcript.
pub fn finish_parse(
    draft: Draft,
    stamps: &Vec<i64>,
    contents: &Vec<ResolvedContent>,
) -> (r: ParseResult)
    requires
        resolves(draft.deep_view(), stamps@, contents.deep_view()),
    ensures
        r.deep_view() == finished_parse(draft.deep_view(), stamps@, contents.deep_view()),
{
    let (created_at, updated_at) = times(stamps);
    let ghost d = draft.deep_view();
    let ghost all = d.messages;
    let ghost resolved = contents.deep_view();
    let mut messages: Vec<TranscriptMessage> = Vec::new();
    let mut offered = String::new();
    let drafts = draft.messages;
    let ghost raw = drafts@;
    let total: usize = contents.len();
    let mut i: usize = 0;
    assert(messages.deep_view() =~= seq![]);
    assert(all.take(0) =~= seq![]);
    for m in it: drafts
        invariant
            it.seq() == raw,
            raw.len() == all.len(),
            total == raw.len(),
            i == it.index(),
            d.messages == all,
            forall|k: int| 0 <= k < raw.len() ==> (#[trigger] raw[k]).deep_view() == all[k],
            resolved == contents.deep_view(),
            resolves(d, stamps@, resolved),
            messages.len() <= i,
            messages.deep_view() == finished(
                all.take(it.index() as int),
                resolved.take(it.index() as int),
                stamps@,
            ),
            offered@ == offered_title(
                all.take(it.index() as int),
                resolved.take(it.index() as int),
            ),
    {
        let ghost n = it.index() as int;
        proof {
            assert(all.take(n + 1).drop_last() =~= all.take(n));
            assert(resolved.take(n + 1).drop_last() =~= resolved.take(n));
            assert(all.take(n + 1).last() == raw[n].deep_view());
            assert(resolved.take(n + 1).last() == contents@[n].deep_view());
            assert(claude_jsonl::message_fits(d.messages[n], d.stamps.len()));
            assert(resolved[n].outputs.len() == d.messages[n].outputs.len());
        }
        let c = &contents[i];
        if !is_nothing(&m, c) {
            let own = match m.source {
                DraftSource::User { .. } => true,
                _ => false,
            };
            if own && offered.as_str().is_empty() && source_kind(m.source, c.injected)
                == MessageKind::Text {
                offered = c.title.clone();
            }
            let at: usize = messages.len();
            let ghost before = messages.deep_view();
            let message = finish_message(m, c, stamps, at);
            messages.push(message);
            assert(messages.deep_view() =~= before.push(message.deep_view()));
        }
        i = i + 1;
    }
    proof {
        assert(all.take(all.len() as int) =~= all);
        assert(resolved.take(resolved.len() as int) =~= resolved);
    }
    let title = if !draft.custom_title.as_str().is_empty() {
        draft.custom_title
    } else if !offered.as_str().is_empty() {
        offered
    } else {
        UNTITLED.to_owned()
    };
    ParseResult {
        messages,
        title,
        cwd: draft.cwd,
        git_branch: draft.git_branch,
        model: draft.model,
        tokens_used: draft.tokens_used,
        created_at,
        updated_at,
        unknown_lines: draft.unknown_lines,
    }
}

}
