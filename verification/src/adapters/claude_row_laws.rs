//! What each row of a JSONL transcript brings: where its texts, tool calls, answers, times and
//! counts can be found once it was read.
use crate::adapters::claude_jsonl;
use crate::adapters::claude_jsonl::{
    DraftData, DraftSource, LineData, PartData, PendingData, ReaderData, ToolOutputData,
};
use crate::adapters::claude_laws;
use crate::json;
use crate::json::JsonData;
use crate::models::ToolCallData;
use crate::text;
use vstd::prelude::*;

verus! {

/// Whether a row counts: those of a side chain only where they are asked for.
pub open spec fn counts(row: JsonData, include_sidechain: bool) -> bool {
    include_sidechain || row.bool_field("isSidechain"@) != Some(true)
}

/// Whether an assistant message that is being collected holds anything.
pub open spec fn holds_anything(pending: Option<PendingData>) -> bool {
    pending matches Some(p) && (p.parts.len() > 0 || p.thinking.len() > 0 || p.tool_calls.len() > 0)
}

/// How many messages there are once the assistant message being collected is closed.
pub open spec fn closed_len(s: ReaderData) -> int {
    s.messages.len() + if holds_anything(s.pending) {
        1int
    } else {
        0int
    }
}

/// What a block of a user row brings to the message of the row: its text, nothing for the answer of
/// a tool, and itself where it is anything else.
pub open spec fn brings(b: JsonData) -> Seq<PartData> {
    match (b.str_field("type"@), b.str_field("text"@)) {
        (Some(typ), Some(t)) if typ == "text"@ => seq![PartData::Text(t)],
        (Some(typ), None) if typ == "text"@ => seq![],
        (Some(typ), _) if typ == "tool_result"@ => seq![],
        _ => seq![PartData::Block(b)],
    }
}

/// What some blocks bring, one after the other.
pub open spec fn brought(blocks: Seq<JsonData>) -> Seq<PartData> {
    blocks.map_values(|b: JsonData| brings(b)).flatten_alt()
}

/// The texts of the text blocks among some, in order.
pub open spec fn texts_in(blocks: Seq<JsonData>) -> Seq<Seq<char>>
    decreases blocks.len(),
{
    if blocks.len() == 0 {
        seq![]
    } else {
        match (blocks.last().str_field("type"@), blocks.last().str_field("text"@)) {
            (Some(typ), Some(t)) if typ == "text"@ => texts_in(blocks.drop_last()).push(t),
            _ => texts_in(blocks.drop_last()),
        }
    }
}

/// The texts among some parts, in order.
pub open spec fn texts_among(parts: Seq<PartData>) -> Seq<Seq<char>>
    decreases parts.len(),
{
    if parts.len() == 0 {
        seq![]
    } else {
        match parts.last() {
            PartData::Text(t) => texts_among(parts.drop_last()).push(t),
            PartData::Block(_) => texts_among(parts.drop_last()),
        }
    }
}

proof fn lemma_literals_differ()
    ensures
        "text"@ != "tool_result"@,
        "text"@ != "thinking"@,
        "text"@ != "tool_use"@,
        "thinking"@ != "tool_use"@,
        "user"@ != "assistant"@,
        "user"@ != "system"@,
        "assistant"@ != "system"@,
        "custom-title"@ != "user"@,
        "custom-title"@ != "assistant"@,
        "custom-title"@ != "system"@,
{
    reveal_strlit("text");
    reveal_strlit("tool_result");
    reveal_strlit("thinking");
    reveal_strlit("tool_use");
    reveal_strlit("user");
    reveal_strlit("assistant");
    reveal_strlit("system");
    reveal_strlit("custom-title");
    assert("text"@.len() == 4 && "tool_result"@.len() == 11);
    assert("thinking"@[1] == 'h' && "tool_use"@[1] == 'o');
    assert("thinking"@.len() == 8 && "tool_use"@.len() == 8);
    assert("user"@.len() == 4 && "assistant"@.len() == 9 && "system"@.len() == 6);
    assert("custom-title"@.len() == 12);
}

proof fn lemma_brought_grows(blocks: Seq<JsonData>)
    requires
        blocks.len() > 0,
    ensures
        brought(blocks) == brought(blocks.drop_last()) + brings(blocks.last()),
{
    let f = |b: JsonData| brings(b);
    assert(blocks.map_values(f).drop_last() =~= blocks.drop_last().map_values(f));
}

proof fn lemma_blocks_are_brought(
    messages: Seq<DraftData>,
    index: Map<Seq<char>, (usize, usize)>,
    blocks: Seq<JsonData>,
)
    ensures
        claude_jsonl::user_blocks(messages, index, blocks).1 == brought(blocks),
        texts_among(brought(blocks)) == texts_in(blocks),
    decreases blocks.len(),
{
    lemma_literals_differ();
    if blocks.len() > 0 {
        lemma_blocks_are_brought(messages, index, blocks.drop_last());
        lemma_brought_grows(blocks);
        let (b, before) = (blocks.last(), brought(blocks.drop_last()));
        assert(brings(b).len() <= 1);
        if brings(b).len() == 1 {
            assert(brought(blocks) =~= before.push(brings(b)[0]));
            assert(brought(blocks).drop_last() =~= before);
        } else {
            assert(brought(blocks) =~= before);
        }
    }
}

proof fn lemma_text_is_brought(blocks: Seq<JsonData>, i: int, t: Seq<char>)
    requires
        0 <= i < blocks.len(),
        blocks[i].str_field("type"@) == Some("text"@),
        blocks[i].str_field("text"@) == Some(t),
    ensures
        brought(blocks).contains(PartData::Text(t)),
    decreases blocks.len(),
{
    lemma_literals_differ();
    lemma_brought_grows(blocks);
    let before = brought(blocks.drop_last());
    if i == blocks.len() - 1 {
        assert(brings(blocks.last()) == seq![PartData::Text(t)]);
        assert(brought(blocks)[before.len() as int] == PartData::Text(t));
    } else {
        lemma_text_is_brought(blocks.drop_last(), i, t);
        let k = choose|k: int| 0 <= k < before.len() && before[k] == PartData::Text(t);
        assert(brought(blocks)[k] == PartData::Text(t));
    }
}

/// A user row whose content is a list of blocks adds one message with what its blocks bring, in
/// their order: the texts of the message are exactly those of the text blocks. Only a row that
/// brings nothing, because its blocks are all answers of tools or texts that are missing, adds none.
pub proof fn law_user_texts_are_kept(
    s: ReaderData,
    row: JsonData,
    message: JsonData,
    blocks: Seq<JsonData>,
    include_sidechain: bool,
)
    requires
        row.str_field("type"@) == Some("user"@),
        counts(row, include_sidechain),
        row.field("message"@) == Some(message),
        message.field("content"@) == Some(JsonData::Array(blocks)),
        claude_jsonl::reader_fits(s),
        claude_jsonl::holdable(s),
    ensures
        ({
            let after = claude_jsonl::line_step(s, LineData::Row(row), include_sidechain);
            &&& after.pending is None
            &&& brought(blocks).len() == 0 ==> after.messages.len() == closed_len(s)
            &&& brought(blocks).len() > 0 ==> {
                &&& after.messages.len() == closed_len(s) + 1
                &&& after.messages.last().source is User
                &&& after.messages.last().parts == brought(blocks)
                &&& texts_among(after.messages.last().parts) == texts_in(blocks)
            }
            &&& forall|i: int|
                0 <= i < blocks.len() && (#[trigger] blocks[i]).str_field("type"@) == Some("text"@)
                    && blocks[i].str_field("text"@) is Some ==> after.messages.len() == closed_len(s)
                    + 1 && after.messages.last().parts.contains(
                    PartData::Text(blocks[i].str_field("text"@)->0),
                )
        }),
{
    lemma_literals_differ();
    let s1 = claude_jsonl::envelope(s, row);
    let f = claude_jsonl::flushed(s1);
    lemma_blocks_are_brought(f.messages, f.tool_index, blocks);
    lemma_closed_index_fits(ReaderData { stamps: s.stamps, ..s1 });
    assert(claude_jsonl::index_fits(f.messages, f.tool_index));
    lemma_blocks_keep_count(f.messages, f.tool_index, blocks);
    assert forall|i: int|
        0 <= i < blocks.len() && (#[trigger] blocks[i]).str_field("type"@) == Some("text"@)
            && blocks[i].str_field("text"@) is Some implies brought(blocks).contains(
        PartData::Text(blocks[i].str_field("text"@)->0),
    ) by {
        lemma_text_is_brought(blocks, i, blocks[i].str_field("text"@)->0);
    }
}

proof fn lemma_closed_index_fits(s: ReaderData)
    requires
        claude_jsonl::index_fits(s.messages, s.tool_index),
        claude_jsonl::holdable(s),
    ensures
        claude_jsonl::index_fits(
            claude_jsonl::flushed(s).messages,
            claude_jsonl::flushed(s).tool_index,
        ),
{
    if let Some(p) = s.pending {
        if !claude_jsonl::pending_is_bare(p) {
            claude_jsonl::lemma_register_fits(
                s.messages,
                s.tool_index,
                p.tool_calls,
                claude_jsonl::assistant_draft(p),
            );
        }
    }
}

proof fn lemma_blocks_keep_count(
    messages: Seq<DraftData>,
    index: Map<Seq<char>, (usize, usize)>,
    blocks: Seq<JsonData>,
)
    requires
        claude_jsonl::index_fits(messages, index),
    ensures
        claude_jsonl::user_blocks(messages, index, blocks).0.len() == messages.len(),
    decreases blocks.len(),
{
    if blocks.len() > 0 {
        lemma_blocks_keep_count(messages, index, blocks.drop_last());
    }
}

/// A user row whose content is a text adds one message with that text and nothing else.
pub proof fn law_a_plain_user_text_is_kept(
    s: ReaderData,
    row: JsonData,
    message: JsonData,
    t: Seq<char>,
    include_sidechain: bool,
)
    requires
        row.str_field("type"@) == Some("user"@),
        counts(row, include_sidechain),
        row.field("message"@) == Some(message),
        message.field("content"@) == Some(JsonData::Str(t)),
    ensures
        ({
            let after = claude_jsonl::line_step(s, LineData::Row(row), include_sidechain);
            &&& after.pending is None
            &&& after.messages.len() == closed_len(s) + 1
            &&& after.messages.last().source is User
            &&& after.messages.last().parts == seq![PartData::Text(t)]
        }),
{
    lemma_literals_differ();
}

/// A user row without any content adds no message.
pub proof fn law_a_user_row_without_content_adds_nothing(
    s: ReaderData,
    row: JsonData,
    include_sidechain: bool,
)
    requires
        row.str_field("type"@) == Some("user"@),
        row.field("message"@) matches Some(message) ==> !(message.field("content"@) matches Some(
            JsonData::Str(_),
        )) && !(message.field("content"@) matches Some(JsonData::Array(_))),
    ensures
        claude_jsonl::line_step(s, LineData::Row(row), include_sidechain).messages.len()
            <= closed_len(s),
        counts(row, include_sidechain) ==> claude_jsonl::line_step(
            s,
            LineData::Row(row),
            include_sidechain,
        ).messages.len() == closed_len(s),
{
    lemma_literals_differ();
}

/// Whether `stamp` leads to the time stamp of a row in the list after the row was read.
pub open spec fn leads_to_time(stamp: Option<usize>, after: ReaderData, row: JsonData) -> bool {
    match row.field("timestamp"@) {
        Some(t) => stamp matches Some(i) && i < after.stamps.len() && after.stamps[i as int] == t,
        None => stamp is None,
    }
}

/// The message that a user or system row adds says what the row says of itself: whether it is
/// meta or a compaction summary, and when it was written. It has no thoughts, tool calls or model.
pub proof fn law_added_messages_tell_their_row(
    s: ReaderData,
    row: JsonData,
    include_sidechain: bool,
)
    requires
        row.str_field("type"@) == Some("user"@) || row.str_field("type"@) == Some("system"@),
        s.stamps.len() < usize::MAX,
        claude_jsonl::reader_fits(s),
        claude_jsonl::holdable(s),
        claude_jsonl::line_step(s, LineData::Row(row), include_sidechain).messages.len()
            > closed_len(s),
    ensures
        ({
            let after = claude_jsonl::line_step(s, LineData::Row(row), include_sidechain);
            let m = after.messages.last();
            &&& leads_to_time(m.stamp, after, row)
            &&& m.thinking.len() == 0 && m.calls.len() == 0 && m.outputs.len() == 0
            &&& m.model is None
            &&& row.str_field("type"@) == Some("user"@) ==> m.source == (DraftSource::User {
                meta: row.bool_field("isMeta"@) == Some(true),
                compact: row.bool_field("isCompactSummary"@) == Some(true),
            })
            &&& row.str_field("type"@) == Some("system"@) ==> m.source == DraftSource::Boundary
                || m.source == DraftSource::Note
        }),
{
    lemma_literals_differ();
    let f = claude_jsonl::flushed(claude_jsonl::envelope(s, row));
    if let Some(message) = row.field("message"@) {
        if let Some(JsonData::Array(blocks)) = message.field("content"@) {
            let s1 = claude_jsonl::envelope(s, row);
            lemma_closed_index_fits(ReaderData { stamps: s.stamps, ..s1 });
            assert(claude_jsonl::index_fits(f.messages, f.tool_index));
            lemma_blocks_keep_count(f.messages, f.tool_index, blocks);
        }
    }
}

/// A system row that marks a compaction leaves a boundary; any other leaves its text as a note, if
/// it has one.
pub proof fn law_system_rows_leave_boundaries_and_notes(
    s: ReaderData,
    row: JsonData,
    include_sidechain: bool,
)
    requires
        row.str_field("type"@) == Some("system"@),
        counts(row, include_sidechain),
    ensures
        ({
            let after = claude_jsonl::line_step(s, LineData::Row(row), include_sidechain);
            let boundary = row.str_field("subtype"@) == Some("compact_boundary"@);
            let note = row.str_field("content"@);
            &&& after.pending is None
            &&& boundary ==> {
                &&& after.messages.len() == closed_len(s) + 1
                &&& after.messages.last().source == DraftSource::Boundary
                &&& after.messages.last().parts.len() == 0
            }
            &&& !boundary && (note matches Some(t) && t.len() > 0) ==> {
                &&& after.messages.len() == closed_len(s) + 1
                &&& after.messages.last().source == DraftSource::Note
                &&& after.messages.last().parts == seq![PartData::Text(note->0)]
            }
            &&& !boundary && !(note matches Some(t) && t.len() > 0) ==> after.messages.len()
                == closed_len(s)
        }),
{
    lemma_literals_differ();
}

/// Closing an assistant message adds it with all that was collected, and leaves out one that holds
/// nothing.
pub proof fn law_closing_keeps_what_was_collected(s: ReaderData)
    ensures
        ({
            let f = claude_jsonl::flushed(s);
            &&& f.pending is None
            &&& f.messages.len() == closed_len(s)
            &&& f.messages.take(s.messages.len() as int) == s.messages
            &&& holds_anything(s.pending) ==> {
                let (m, p) = (f.messages.last(), s.pending->0);
                &&& m.source == DraftSource::Assistant
                &&& m.parts == p.parts
                &&& m.thinking == p.thinking
                &&& m.calls == p.tool_calls
                &&& m.outputs.len() == 0
                &&& m.stamp == p.stamp
                &&& m.model == p.model
            }
            &&& f.stamps == s.stamps
            &&& f.custom_title == s.custom_title
            &&& f.cwd == s.cwd
            &&& f.git_branch == s.git_branch
            &&& f.model == s.model
            &&& f.tokens_used == s.tokens_used
            &&& f.unknown_lines == s.unknown_lines
        }),
{
    let f = claude_jsonl::flushed(s);
    assert(f.messages.take(s.messages.len() as int) =~= s.messages);
}

/// The call that an answer names, where it is the answer of a tool to a call that is known.
pub open spec fn answers(
    b: JsonData,
    index: Map<Seq<char>, (usize, usize)>,
) -> Option<(usize, usize)> {
    if b.str_field("type"@) != Some("tool_result"@) {
        None
    } else {
        match b.str_field("tool_use_id"@) {
            Some(id) => index.get(id),
            None => index.get(""@),
        }
    }
}

/// Whether a block is the answer of a tool to call `ti` of message `mi`.
pub open spec fn answers_call(
    b: JsonData,
    index: Map<Seq<char>, (usize, usize)>,
    mi: int,
    ti: int,
) -> bool {
    answers(b, index) matches Some((m, call)) && m == mi && call == ti
}

/// The answers among some blocks that are for calls of message `mi`, in order.
pub open spec fn answers_for(
    blocks: Seq<JsonData>,
    index: Map<Seq<char>, (usize, usize)>,
    mi: int,
) -> Seq<ToolOutputData>
    decreases blocks.len(),
{
    if blocks.len() == 0 {
        seq![]
    } else {
        let before = answers_for(blocks.drop_last(), index, mi);
        let b = blocks.last();
        match answers(b, index) {
            Some((m, call)) if m == mi => before.push(
                ToolOutputData {
                    call,
                    content: match b.field("content"@) {
                        Some(content) => content,
                        None => JsonData::Null,
                    },
                },
            ),
            _ => before,
        }
    }
}

proof fn lemma_answers_arrive(
    messages: Seq<DraftData>,
    index: Map<Seq<char>, (usize, usize)>,
    blocks: Seq<JsonData>,
    mi: int,
    ti: int,
)
    requires
        claude_jsonl::index_fits(messages, index),
        0 <= mi < messages.len(),
    ensures
        ({
            let after = claude_jsonl::user_blocks(messages, index, blocks).0;
            &&& after.len() == messages.len()
            &&& after[mi].outputs == messages[mi].outputs + answers_for(blocks, index, mi)
            &&& after[mi].calls.len() == messages[mi].calls.len()
            &&& 0 <= ti < messages[mi].calls.len() ==> {
                &&& after[mi].calls[ti].id == messages[mi].calls[ti].id
                &&& after[mi].calls[ti].name == messages[mi].calls[ti].name
                &&& after[mi].calls[ti].input == messages[mi].calls[ti].input
                &&& after[mi].calls[ti].output == messages[mi].calls[ti].output
                &&& after[mi].calls[ti].is_error <==> messages[mi].calls[ti].is_error || exists|
                    i: int,
                |
                    0 <= i < blocks.len() && answers_call(#[trigger] blocks[i], index, mi, ti)
                        && blocks[i].bool_field("is_error"@) == Some(true)
            }
            &&& after[mi].parts == messages[mi].parts
            &&& after[mi].source == messages[mi].source
            &&& after[mi].thinking == messages[mi].thinking
            &&& after[mi].stamp == messages[mi].stamp
            &&& after[mi].model == messages[mi].model
        }),
    decreases blocks.len(),
{
    lemma_literals_differ();
    let after = claude_jsonl::user_blocks(messages, index, blocks).0;
    if blocks.len() == 0 {
        assert(messages[mi].outputs + answers_for(blocks, index, mi) =~= messages[mi].outputs);
    } else {
        let less = blocks.drop_last();
        lemma_answers_arrive(messages, index, less, mi, ti);
        let before = claude_jsonl::user_blocks(messages, index, less).0;
        let b = blocks.last();
        let found = answers(b, index);
        let id = b.str_field("tool_use_id"@).unwrap_or(""@);
        if let Some((m, call)) = found {
            assert(index.contains_key(id) && index[id] == (m, call));
            if m == mi {
                assert(after[mi].outputs =~= messages[mi].outputs + answers_for(blocks, index, mi));
            }
        }
        if 0 <= ti < messages[mi].calls.len() {
            if after[mi].calls[ti].is_error && !messages[mi].calls[ti].is_error {
                if before[mi].calls[ti].is_error {
                    let i = choose|i: int|
                        0 <= i < less.len() && answers_call(#[trigger] less[i], index, mi, ti)
                            && less[i].bool_field("is_error"@) == Some(true);
                    assert(answers_call(blocks[i], index, mi, ti));
                } else {
                    assert(answers_call(blocks[blocks.len() - 1], index, mi, ti));
                }
            }
            if exists|i: int|
                0 <= i < blocks.len() && answers_call(#[trigger] blocks[i], index, mi, ti)
                    && blocks[i].bool_field("is_error"@) == Some(true) {
                let i = choose|i: int|
                    0 <= i < blocks.len() && answers_call(#[trigger] blocks[i], index, mi, ti)
                        && blocks[i].bool_field("is_error"@) == Some(true);
                if i < less.len() {
                    assert(answers_call(less[i], index, mi, ti));
                    assert(before[mi].calls[ti].is_error);
                }
            }
        }
    }
}

/// Every answer of a tool in a user row goes to the message whose call it answers, behind the
/// answers that are there already and in the order of the row; no message gets any other. A call is
/// marked as failed exactly if it was before or an answer to it says so; nothing else of a message
/// changes.
pub proof fn law_answers_go_to_the_calls_that_asked(
    s: ReaderData,
    row: JsonData,
    message: JsonData,
    blocks: Seq<JsonData>,
    include_sidechain: bool,
    mi: int,
    ti: int,
)
    requires
        row.str_field("type"@) == Some("user"@),
        counts(row, include_sidechain),
        row.field("message"@) == Some(message),
        message.field("content"@) == Some(JsonData::Array(blocks)),
        s.pending is None,
        claude_jsonl::index_fits(s.messages, s.tool_index),
        0 <= mi < s.messages.len(),
        0 <= ti < s.messages[mi].calls.len(),
    ensures
        ({
            let (m, n) = (
                s.messages[mi],
                claude_jsonl::line_step(s, LineData::Row(row), include_sidechain).messages[mi],
            );
            &&& n.outputs == m.outputs + answers_for(blocks, s.tool_index, mi)
            &&& n.calls.len() == m.calls.len()
            &&& n.calls[ti].id == m.calls[ti].id
            &&& n.calls[ti].name == m.calls[ti].name
            &&& n.calls[ti].input == m.calls[ti].input
            &&& n.calls[ti].is_error <==> m.calls[ti].is_error || exists|i: int|
                0 <= i < blocks.len() && answers_call(#[trigger] blocks[i], s.tool_index, mi, ti)
                    && blocks[i].bool_field("is_error"@) == Some(true)
            &&& n.parts == m.parts
            &&& n.source == m.source
            &&& n.thinking == m.thinking
            &&& n.stamp == m.stamp
            &&& n.model == m.model
        }),
{
    lemma_literals_differ();
    lemma_answers_arrive(s.messages, s.tool_index, blocks, mi, ti);
}

proof fn lemma_answer_is_listed(
    blocks: Seq<JsonData>,
    index: Map<Seq<char>, (usize, usize)>,
    j: int,
    mi: usize,
    call: usize,
)
    requires
        0 <= j < blocks.len(),
        answers(blocks[j], index) == Some((mi, call)),
    ensures
        answers_for(blocks, index, mi as int).contains(
            ToolOutputData {
                call,
                content: match blocks[j].field("content"@) {
                    Some(content) => content,
                    None => JsonData::Null,
                },
            },
        ),
    decreases blocks.len(),
{
    let wanted = ToolOutputData {
        call,
        content: match blocks[j].field("content"@) {
            Some(content) => content,
            None => JsonData::Null,
        },
    };
    let all = answers_for(blocks, index, mi as int);
    let before = answers_for(blocks.drop_last(), index, mi as int);
    if j == blocks.len() - 1 {
        assert(all[all.len() - 1] == wanted);
    } else {
        lemma_answer_is_listed(blocks.drop_last(), index, j, mi, call);
        let k = choose|k: int| 0 <= k < before.len() && before[k] == wanted;
        assert(all[k] == wanted);
    }
}

/// From the call to its answer: the answer that names the id of a call of the assistant message
/// that was just collected is found with that message, under the number of that call.
pub proof fn law_an_answer_finds_the_call_before_it(
    s: ReaderData,
    p: PendingData,
    i: int,
    row: JsonData,
    message: JsonData,
    blocks: Seq<JsonData>,
    j: int,
    include_sidechain: bool,
)
    requires
        s.pending == Some(p),
        claude_jsonl::index_fits(s.messages, s.tool_index),
        s.messages.len() < usize::MAX,
        0 <= i < p.tool_calls.len() <= usize::MAX,
        p.tool_calls[i].id.len() > 0,
        forall|k: int|
            i < k < p.tool_calls.len() ==> (#[trigger] p.tool_calls[k]).id != p.tool_calls[i].id,
        row.str_field("type"@) == Some("user"@),
        counts(row, include_sidechain),
        row.field("message"@) == Some(message),
        message.field("content"@) == Some(JsonData::Array(blocks)),
        0 <= j < blocks.len(),
        blocks[j].str_field("type"@) == Some("tool_result"@),
        blocks[j].str_field("tool_use_id"@) == Some(p.tool_calls[i].id),
    ensures
        ({
            let after = claude_jsonl::line_step(s, LineData::Row(row), include_sidechain);
            let m = after.messages[s.messages.len() as int];
            &&& m.source == DraftSource::Assistant
            &&& m.parts == p.parts
            &&& m.calls[i].id == p.tool_calls[i].id
            &&& m.outputs.contains(
                ToolOutputData {
                    call: i as usize,
                    content: match blocks[j].field("content"@) {
                        Some(content) => content,
                        None => JsonData::Null,
                    },
                },
            )
            &&& blocks[j].bool_field("is_error"@) == Some(true) ==> m.calls[i].is_error
        }),
{
    lemma_literals_differ();
    let s1 = claude_jsonl::envelope(s, row);
    let f = claude_jsonl::flushed(s1);
    let mi = s.messages.len() as int;
    claude_laws::law_closed_calls_are_found(s1, p, i);
    claude_jsonl::lemma_register_fits(
        s1.messages,
        s1.tool_index,
        p.tool_calls,
        claude_jsonl::assistant_draft(p),
    );
    lemma_answers_arrive(f.messages, f.tool_index, blocks, mi, i);
    lemma_answer_is_listed(blocks, f.tool_index, j, mi as usize, i as usize);
    let got = answers_for(blocks, f.tool_index, mi);
    let after = claude_jsonl::line_step(s, LineData::Row(row), include_sidechain);
    assert(after.messages[mi].outputs =~= got);
    assert(answers_call(blocks[j], f.tool_index, mi, i));
}

/// The parts that a block of an assistant row brings: its text, unless that is blank; itself where
/// it is neither a text, a thought nor a tool call.
pub open spec fn assistant_brings(b: JsonData) -> Seq<PartData> {
    match b.str_field("type"@) {
        Some(typ) if typ == "text"@ => match b.str_field("text"@) {
            Some(t) if !text::is_blank(t) => seq![PartData::Text(t)],
            _ => seq![],
        },
        Some(typ) if typ == "thinking"@ || typ == "tool_use"@ => seq![],
        _ => seq![PartData::Block(b)],
    }
}

/// The thought that a block of an assistant row holds, unless it is blank.
pub open spec fn thought_in(b: JsonData) -> Seq<Seq<char>> {
    match (b.str_field("type"@), b.str_field("thinking"@)) {
        (Some(typ), Some(t)) if typ == "thinking"@ && !text::is_blank(t) => seq![t],
        _ => seq![],
    }
}

/// Whether `call` is the tool call of a block: it has the id, the name and the input of the block,
/// which are nothing, `tool` and null where the block has none; and nothing has come back yet.
pub open spec fn is_call_of(call: ToolCallData, b: JsonData) -> bool {
    &&& b.str_field("type"@) == Some("tool_use"@)
    &&& match b.str_field("id"@) {
        Some(id) => call.id == id,
        None => call.id.len() == 0,
    }
    &&& match b.str_field("name"@) {
        Some(name) => call.name == name,
        None => call.name == "tool"@,
    }
    &&& match b.field("input"@) {
        Some(input) => call.input == input,
        None => call.input == JsonData::Null,
    }
    &&& call.output is None
    &&& !call.is_error
    &&& call.sidechain_ref is None
}

/// The blocks among some that are tool calls, in order.
pub open spec fn call_blocks(blocks: Seq<JsonData>) -> Seq<JsonData>
    decreases blocks.len(),
{
    if blocks.len() == 0 {
        seq![]
    } else if blocks.last().str_field("type"@) == Some("tool_use"@) {
        call_blocks(blocks.drop_last()).push(blocks.last())
    } else {
        call_blocks(blocks.drop_last())
    }
}

/// Whether `q` is `p` with what some blocks bring behind it: their texts and other parts, their
/// thoughts and their tool calls, each in order.
pub open spec fn gathers(p: PendingData, blocks: Seq<JsonData>, q: PendingData) -> bool {
    let calls = call_blocks(blocks);
    let n = p.tool_calls.len();
    &&& q.parts == p.parts + blocks.map_values(|b: JsonData| assistant_brings(b)).flatten_alt()
    &&& q.thinking == p.thinking + blocks.map_values(|b: JsonData| thought_in(b)).flatten_alt()
    &&& q.tool_calls.len() == n + calls.len()
    &&& q.tool_calls.take(n as int) == p.tool_calls
    &&& forall|k: int|
        0 <= k < calls.len() ==> is_call_of(#[trigger] q.tool_calls[n + k], calls[k])
    &&& q.msg_id == p.msg_id
    &&& q.stamp == p.stamp
    &&& q.model == p.model
}

proof fn lemma_blocks_gather(p: PendingData, blocks: Seq<JsonData>)
    ensures
        gathers(p, blocks, claude_jsonl::assistant_blocks(p, blocks)),
    decreases blocks.len(),
{
    lemma_literals_differ();
    reveal_strlit("");
    let parts = |b: JsonData| assistant_brings(b);
    let thoughts = |b: JsonData| thought_in(b);
    let q = claude_jsonl::assistant_blocks(p, blocks);
    let n = p.tool_calls.len();
    if blocks.len() == 0 {
        assert(q.parts =~= p.parts + blocks.map_values(parts).flatten_alt());
        assert(q.thinking =~= p.thinking + blocks.map_values(thoughts).flatten_alt());
        assert(q.tool_calls.take(n as int) =~= p.tool_calls);
    } else {
        let less = blocks.drop_last();
        let b = blocks.last();
        lemma_blocks_gather(p, less);
        let before = claude_jsonl::assistant_blocks(p, less);
        assert(blocks.map_values(parts).drop_last() =~= less.map_values(parts));
        assert(blocks.map_values(thoughts).drop_last() =~= less.map_values(thoughts));
        assert(q.parts =~= before.parts + assistant_brings(b));
        assert(q.thinking =~= before.thinking + thought_in(b));
        assert(q.parts =~= p.parts + blocks.map_values(parts).flatten_alt());
        assert(q.thinking =~= p.thinking + blocks.map_values(thoughts).flatten_alt());
        assert(q.tool_calls.take(n as int) =~= p.tool_calls) by {
            assert(before.tool_calls.take(n as int) == p.tool_calls);
            assert(q.tool_calls.take(n as int) =~= before.tool_calls.take(n as int));
        }
        let calls = call_blocks(blocks);
        assert forall|k: int| 0 <= k < calls.len() implies is_call_of(
            #[trigger] q.tool_calls[n + k],
            calls[k],
        ) by {
            let fewer = call_blocks(less);
            if k < fewer.len() {
                assert(is_call_of(before.tool_calls[n + k], fewer[k]));
            }
        }
    }
}

/// Whether an assistant row goes on with the message being collected: there is one, and the two do
/// not name different ids.
pub open spec fn goes_on(pending: Option<PendingData>, message: JsonData) -> bool {
    pending matches Some(p) && match (p.msg_id, message.str_field("id"@)) {
        (Some(a), Some(b)) => a == b,
        _ => true,
    }
}

/// What an assistant row does: it closes the message being collected only if it begins another, and
/// what it brings stands behind what was collected of its own message. A message keeps the time of
/// its first row, the first id that one of its rows names, and the last real model.
pub proof fn law_assistant_rows_are_gathered(
    s: ReaderData,
    row: JsonData,
    message: JsonData,
    include_sidechain: bool,
)
    requires
        row.str_field("type"@) == Some("assistant"@),
        counts(row, include_sidechain),
        row.field("message"@) == Some(message),
        s.stamps.len() < usize::MAX,
    ensures
        ({
            let after = claude_jsonl::line_step(s, LineData::Row(row), include_sidechain);
            let on = goes_on(s.pending, message);
            let mid = message.str_field("id"@);
            let q = after.pending->0;
            &&& after.pending is Some
            &&& on ==> {
                let p = s.pending->0;
                &&& after.messages == s.messages
                &&& after.tool_index == s.tool_index
                &&& q.stamp == p.stamp
                &&& p.msg_id is Some ==> q.msg_id == p.msg_id
                &&& p.msg_id is None ==> q.msg_id == mid
            }
            &&& !on ==> {
                &&& after.messages == claude_jsonl::flushed(s).messages
                &&& leads_to_time(q.stamp, after, row)
                &&& q.msg_id == mid
            }
            &&& match message.field("content"@) {
                Some(JsonData::Array(blocks)) => {
                    &&& q.parts == (if on {
                        s.pending->0.parts
                    } else {
                        seq![]
                    }) + blocks.map_values(|b: JsonData| assistant_brings(b)).flatten_alt()
                    &&& q.thinking == (if on {
                        s.pending->0.thinking
                    } else {
                        seq![]
                    }) + blocks.map_values(|b: JsonData| thought_in(b)).flatten_alt()
                    &&& q.tool_calls.len() == (if on {
                        s.pending->0.tool_calls.len()
                    } else {
                        0
                    }) + call_blocks(blocks).len()
                    &&& on ==> q.tool_calls.take(s.pending->0.tool_calls.len() as int)
                        == s.pending->0.tool_calls
                    &&& forall|k: int|
                        0 <= k < call_blocks(blocks).len() ==> is_call_of(
                            #[trigger] q.tool_calls[q.tool_calls.len() - call_blocks(blocks).len()
                                + k],
                            call_blocks(blocks)[k],
                        )
                },
                Some(JsonData::Str(t)) => {
                    &&& q.parts == (if on {
                        s.pending->0.parts
                    } else {
                        seq![]
                    }) + (if text::is_blank(t) {
                        seq![]
                    } else {
                        seq![PartData::Text(t)]
                    })
                    &&& q.thinking == (if on {
                        s.pending->0.thinking
                    } else {
                        seq![]
                    })
                    &&& q.tool_calls == (if on {
                        s.pending->0.tool_calls
                    } else {
                        seq![]
                    })
                },
                _ => {
                    &&& q.parts == (if on {
                        s.pending->0.parts
                    } else {
                        seq![]
                    })
                    &&& q.thinking == (if on {
                        s.pending->0.thinking
                    } else {
                        seq![]
                    })
                    &&& q.tool_calls == (if on {
                        s.pending->0.tool_calls
                    } else {
                        seq![]
                    })
                },
            }
        }),
{
    lemma_literals_differ();
    let s1 = claude_jsonl::envelope(s, row);
    let stamp = claude_jsonl::stamp_of(s, row);
    let s2 = claude_jsonl::opened(s1, message.str_field("id"@), stamp);
    let p = s2.pending->0;
    let named = claude_jsonl::named_model(message);
    let p1 = PendingData { model: if named is Some { named } else { p.model }, ..p };
    assert(claude_jsonl::flushed(s1).messages == claude_jsonl::flushed(s).messages);
    let q = claude_jsonl::line_step(s, LineData::Row(row), include_sidechain).pending->0;
    match message.field("content"@) {
        Some(JsonData::Array(blocks)) => {
            lemma_blocks_gather(p1, blocks);
            assert(gathers(p1, blocks, q));
        },
        Some(JsonData::Str(t)) => {
            if text::is_blank(t) {
                assert(q.parts =~= p.parts + Seq::<PartData>::empty());
            } else {
                assert(q.parts =~= p.parts + seq![PartData::Text(t)]);
            }
        },
        _ => {},
    }
}

/// Whether a model is a real one: it has a name, and not that of messages that the program wrote
/// itself.
pub open spec fn is_real_model(model: Option<Seq<char>>) -> bool {
    model matches Some(m) && m.len() > 0 && m != "<synthetic>"@
}

/// An assistant row that names a real model sets that of its message and of the session; any other
/// leaves both as they were, and a message that it begins has none.
pub proof fn law_the_last_real_model_stays(
    s: ReaderData,
    row: JsonData,
    message: JsonData,
    include_sidechain: bool,
)
    requires
        row.str_field("type"@) == Some("assistant"@),
        counts(row, include_sidechain),
        row.field("message"@) == Some(message),
    ensures
        ({
            let after = claude_jsonl::line_step(s, LineData::Row(row), include_sidechain);
            let named = message.str_field("model"@);
            &&& after.pending is Some
            &&& is_real_model(named) ==> after.model == named && after.pending->0.model == named
            &&& !is_real_model(named) ==> {
                &&& after.model == s.model
                &&& after.pending->0.model == (if goes_on(s.pending, message) {
                    s.pending->0.model
                } else {
                    None
                })
            }
        }),
{
    lemma_literals_differ();
    let s1 = claude_jsonl::envelope(s, row);
    let stamp = claude_jsonl::stamp_of(s, row);
    let s2 = claude_jsonl::opened(s1, message.str_field("id"@), stamp);
    let p = s2.pending->0;
    let named = claude_jsonl::named_model(message);
    let p1 = PendingData { model: if named is Some { named } else { p.model }, ..p };
    if let Some(JsonData::Array(blocks)) = message.field("content"@) {
        lemma_blocks_gather(p1, blocks);
    }
}

/// The tokens that a record of use tells under a name.
pub open spec fn used(message: JsonData, name: Seq<char>) -> int {
    match message.field("usage"@) {
        Some(usage) => match usage.field(name) {
            Some(JsonData::Number { int: Some(n), .. }) => n as int,
            _ => 0,
        },
        None => 0,
    }
}

/// An assistant row adds the tokens that went in, came out and were put into the cache; those that
/// were read from the cache are not counted.
pub proof fn law_tokens_add_up(
    s: ReaderData,
    row: JsonData,
    message: JsonData,
    include_sidechain: bool,
)
    requires
        row.str_field("type"@) == Some("assistant"@),
        counts(row, include_sidechain),
        row.field("message"@) == Some(message),
        ({
            let a = used(message, "input_tokens"@);
            let b = used(message, "output_tokens"@);
            let c = used(message, "cache_creation_input_tokens"@);
            &&& i64::MIN <= a + b <= i64::MAX
            &&& i64::MIN <= a + b + c <= i64::MAX
            &&& i64::MIN <= s.tokens_used + a + b + c <= i64::MAX
        }),
    ensures
        claude_jsonl::line_step(s, LineData::Row(row), include_sidechain).tokens_used
            == s.tokens_used + used(message, "input_tokens"@) + used(message, "output_tokens"@)
            + used(message, "cache_creation_input_tokens"@),
{
    lemma_literals_differ();
}

/// Rows other than those of the assistant change neither the model nor the tokens.
pub proof fn law_only_the_assistant_uses_tokens(
    s: ReaderData,
    line: LineData,
    include_sidechain: bool,
)
    requires
        line matches LineData::Row(row) ==> row.str_field("type"@) != Some("assistant"@),
    ensures
        claude_jsonl::line_step(s, line, include_sidechain).tokens_used == s.tokens_used,
        claude_jsonl::line_step(s, line, include_sidechain).model == s.model,
{
    lemma_literals_differ();
    reveal_strlit("");
    reveal_strlit("assistant");
    assert(""@.len() == 0 && "assistant"@.len() == 9);
}

/// What every message row tells of the session, also one of a side chain that does not count: the
/// first working directory that is named stays, the last branch that is named replaces the others,
/// and the time stamp is put behind those that came before. No row takes a stamp away.
pub proof fn law_rows_tell_of_their_session(
    s: ReaderData,
    row: JsonData,
    include_sidechain: bool,
)
    requires
        row.str_field("type"@) == Some("user"@) || row.str_field("type"@) == Some("assistant"@)
            || row.str_field("type"@) == Some("system"@),
    ensures
        ({
            let after = claude_jsonl::line_step(s, LineData::Row(row), include_sidechain);
            let branch = row.str_field("gitBranch"@);
            &&& s.cwd.len() > 0 ==> after.cwd == s.cwd
            &&& s.cwd.len() == 0 ==> match row.str_field("cwd"@) {
                Some(dir) => after.cwd == dir,
                None => after.cwd.len() == 0,
            }
            &&& (branch matches Some(b) && b.len() > 0) ==> after.git_branch == branch
            &&& !(branch matches Some(b) && b.len() > 0) ==> after.git_branch == s.git_branch
            &&& match row.field("timestamp"@) {
                Some(t) => after.stamps == s.stamps.push(t),
                None => after.stamps == s.stamps,
            }
            &&& after.custom_title == s.custom_title
            &&& after.unknown_lines == s.unknown_lines
        }),
{
    lemma_literals_differ();
}

/// A title row sets the title of the session to its text without white space at the ends, unless
/// the text is blank; it changes nothing else.
pub proof fn law_title_rows_set_the_title(s: ReaderData, row: JsonData, include_sidechain: bool)
    requires
        row.str_field("type"@) == Some("custom-title"@),
    ensures
        ({
            let after = claude_jsonl::line_step(s, LineData::Row(row), include_sidechain);
            &&& match row.str_field("customTitle"@) {
                Some(t) => if text::is_blank(t) {
                    after == s
                } else {
                    after == (ReaderData { custom_title: text::trimmed(t), ..s })
                },
                None => after == s,
            }
        }),
{
    lemma_literals_differ();
}

/// The other rows: those of the types that are known to carry no message change nothing, and any
/// other type, or none, is counted as unknown.
pub proof fn law_other_rows_are_skipped_or_counted(
    s: ReaderData,
    row: JsonData,
    typ: Seq<char>,
    include_sidechain: bool,
)
    requires
        row.str_field("type"@) == Some(typ),
        typ != "user"@ && typ != "assistant"@ && typ != "system"@ && typ != "custom-title"@,
    ensures
        ({
            let after = claude_jsonl::line_step(s, LineData::Row(row), include_sidechain);
            let known = seq![
                "queue-operation"@,
                "mode"@,
                "last-prompt"@,
                "permission-mode"@,
                "file-history-snapshot"@,
                "file-history-delta"@,
                "pr-link"@,
                "frame-link"@,
                "attachment"@,
                "summary"@,
                "atis-latch"@,
                "bridge-session"@,
            ];
            &&& (exists|i: int| 0 <= i < known.len() && #[trigger] known[i] == typ) ==> after == s
            &&& (forall|i: int| 0 <= i < known.len() ==> #[trigger] known[i] != typ) ==> {
                &&& s.unknown_lines < u32::MAX ==> after.unknown_lines == s.unknown_lines + 1
                &&& after == (ReaderData { unknown_lines: after.unknown_lines, ..s })
            }
        }),
{
    reveal_strlit("queue-operation");
    reveal_strlit("mode");
    reveal_strlit("last-prompt");
    reveal_strlit("permission-mode");
    reveal_strlit("file-history-snapshot");
    reveal_strlit("file-history-delta");
    reveal_strlit("pr-link");
    reveal_strlit("frame-link");
    reveal_strlit("attachment");
    reveal_strlit("summary");
    reveal_strlit("atis-latch");
    reveal_strlit("bridge-session");
    let known = seq![
        "queue-operation"@,
        "mode"@,
        "last-prompt"@,
        "permission-mode"@,
        "file-history-snapshot"@,
        "file-history-delta"@,
        "pr-link"@,
        "frame-link"@,
        "attachment"@,
        "summary"@,
        "atis-latch"@,
        "bridge-session"@,
    ];
    if forall|i: int| 0 <= i < known.len() ==> #[trigger] known[i] != typ {
        assert(known[0] != typ && known[1] != typ && known[2] != typ && known[3] != typ);
        assert(known[4] != typ && known[5] != typ && known[6] != typ && known[7] != typ);
        assert(known[8] != typ && known[9] != typ && known[10] != typ && known[11] != typ);
        assert(!claude_jsonl::is_known_skip(typ));
    }
    if exists|i: int| 0 <= i < known.len() && #[trigger] known[i] == typ {
        let i = choose|i: int| 0 <= i < known.len() && #[trigger] known[i] == typ;
        assert(claude_jsonl::is_known_skip(typ));
        assert(typ.len() > 0);
    }
}

/// A file is read line by line from nothing: without lines there is nothing, and one more line does
/// what it does to the state that those before it left.
pub proof fn law_lines_are_read_in_order(
    lines: Seq<LineData>,
    line: LineData,
    include_sidechain: bool,
)
    ensures
        ({
            let none = claude_jsonl::read_lines(seq![], include_sidechain);
            &&& none.messages.len() == 0
            &&& none.pending is None
            &&& none.tool_index == Map::<Seq<char>, (usize, usize)>::empty()
            &&& none.stamps.len() == 0
            &&& none.custom_title.len() == 0
            &&& none.cwd.len() == 0
            &&& none.git_branch is None
            &&& none.model is None
            &&& none.tokens_used == 0
            &&& none.unknown_lines == 0
        }),
        claude_jsonl::read_lines(lines.push(line), include_sidechain) == claude_jsonl::line_step(
            claude_jsonl::read_lines(lines, include_sidechain),
            line,
            include_sidechain,
        ),
{
    assert(lines.push(line).drop_last() =~= lines);
}

/// What a line of a file is: nothing where it is blank, a row where it holds JSON, and broken where
/// it does not or could not be read.
pub proof fn law_lines_are_what_they_hold(raw: Seq<Option<Seq<char>>>, i: int)
    requires
        0 <= i < raw.len(),
    ensures
        ({
            let lines = claude_jsonl::lines_of(raw);
            &&& lines.len() == raw.len()
            &&& raw[i] is None ==> lines[i] is Broken
            &&& raw[i] matches Some(t) ==> {
                &&& text::is_blank(t) ==> lines[i] is Blank
                &&& !text::is_blank(t) ==> match json::json_of_text(t) {
                    Some(row) => lines[i] == LineData::Row(row),
                    None => lines[i] is Broken,
                }
            }
        }),
{
}

/// A draft is what the reader was left with, the assistant message being collected included.
pub proof fn law_the_draft_is_what_was_read(s: ReaderData)
    ensures
        ({
            let d = claude_jsonl::draft_of(s);
            &&& d.messages == claude_jsonl::flushed(s).messages
            &&& d.messages.len() == closed_len(s)
            &&& d.stamps == s.stamps
            &&& d.custom_title == s.custom_title
            &&& d.cwd == s.cwd
            &&& d.git_branch == s.git_branch
            &&& d.model == s.model
            &&& d.tokens_used == s.tokens_used
            &&& d.unknown_lines == s.unknown_lines
        }),
{
    law_closing_keeps_what_was_collected(s);
}

/// An assistant row without a message tells of its session, and does nothing else: the message being
/// collected stays open.
pub proof fn law_an_assistant_row_without_a_message_closes_nothing(
    s: ReaderData,
    row: JsonData,
    include_sidechain: bool,
)
    requires
        row.str_field("type"@) == Some("assistant"@),
        row.field("message"@) is None,
    ensures
        ({
            let after = claude_jsonl::line_step(s, LineData::Row(row), include_sidechain);
            &&& after.messages == s.messages
            &&& after.pending == s.pending
            &&& after.tool_index == s.tool_index
            &&& after.model == s.model
            &&& after.tokens_used == s.tokens_used
        }),
{
    lemma_literals_differ();
}

proof fn lemma_register_keeps(
    index: Map<Seq<char>, (usize, usize)>,
    calls: Seq<ToolCallData>,
    mi: usize,
    id: Seq<char>,
)
    requires
        forall|k: int| 0 <= k < calls.len() ==> (#[trigger] calls[k]).id != id || id.len() == 0,
    ensures
        claude_jsonl::register(index, calls, mi).contains_key(id) == index.contains_key(id),
        index.contains_key(id) ==> claude_jsonl::register(index, calls, mi)[id] == index[id],
    decreases calls.len(),
{
    if calls.len() > 0 {
        let less = calls.drop_last();
        assert(calls[calls.len() - 1].id != id || id.len() == 0);
        assert forall|k: int| 0 <= k < less.len() implies (#[trigger] less[k]).id != id || id.len()
            == 0 by {
            assert(calls[k].id != id || id.len() == 0);
        }
        lemma_register_keeps(index, less, mi, id);
    }
}

/// A call that is known under an id stays known under it, wherever it was made, until another with
/// the same id is closed; a line makes no other call known. No call is known under no id.
pub proof fn law_known_calls_stay_known(
    s: ReaderData,
    line: LineData,
    include_sidechain: bool,
    id: Seq<char>,
)
    requires
        s.pending matches Some(p) ==> forall|k: int|
            0 <= k < p.tool_calls.len() ==> (#[trigger] p.tool_calls[k]).id != id || id.len() == 0,
    ensures
        ({
            let after = claude_jsonl::line_step(s, line, include_sidechain);
            &&& after.tool_index.contains_key(id) == s.tool_index.contains_key(id)
            &&& s.tool_index.contains_key(id) ==> after.tool_index[id] == s.tool_index[id]
        }),
{
    if let Some(p) = s.pending {
        lemma_register_keeps(s.tool_index, p.tool_calls, s.messages.len() as usize, id);
    }
}

}
