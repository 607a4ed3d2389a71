//! What holds of every JSONL transcript.
use crate::adapters::claude;
use crate::adapters::claude_jsonl;
use crate::adapters::claude_jsonl::{DraftData, LineData, PendingData, ReaderData, ToolOutputData};
use crate::adapters::claude_transcript;
use crate::adapters::claude_transcript::ContentData;
use crate::json::JsonData;
use crate::models::{FileRefData, ToolCallData};
use vstd::prelude::*;

verus! {

/// The messages of a transcript are numbered from zero, in order.
pub proof fn law_messages_are_numbered(
    drafts: Seq<DraftData>,
    contents: Seq<ContentData>,
    stamps: Seq<i64>,
)
    ensures
        forall|i: int|
            0 <= i < claude_transcript::finished(drafts, contents, stamps).len() ==> (
            #[trigger] claude_transcript::finished(drafts, contents, stamps)[i]).seq == i,
    decreases drafts.len(),
{
    if drafts.len() > 0 {
        law_messages_are_numbered(drafts.drop_last(), contents.drop_last(), stamps);
    }
}

/// A session begins no later than it was last touched; no time of it is later than that; and it
/// has no time exactly when none of its stamps is one.
pub proof fn law_times_enclose_the_stamps(stamps: Seq<i64>)
    ensures
        0 <= claude_transcript::first_time(stamps) <= claude_transcript::latest_time(stamps),
        forall|i: int|
            0 <= i < stamps.len() ==> #[trigger] stamps[i] <= claude_transcript::latest_time(
                stamps,
            ),
        claude_transcript::first_time(stamps) == 0 <==> (forall|i: int|
            0 <= i < stamps.len() ==> #[trigger] stamps[i] <= 0),
        claude_transcript::latest_time(stamps) == 0 <==> (forall|i: int|
            0 <= i < stamps.len() ==> #[trigger] stamps[i] <= 0),
    decreases stamps.len(),
{
    if stamps.len() > 0 {
        let before = stamps.drop_last();
        law_times_enclose_the_stamps(before);
        assert(forall|i: int| 0 <= i < before.len() ==> before[i] == stamps[i]);
        assert(stamps[stamps.len() - 1] == stamps.last());
        assert((forall|i: int| 0 <= i < before.len() ==> #[trigger] before[i] <= 0) <==> (forall|
            i: int,
        |
            0 <= i < before.len() ==> #[trigger] stamps[i] <= 0));
    }
}

/// A session always has a title, and a title that it was given wins.
pub proof fn law_title_is_never_empty(
    d: claude_jsonl::DraftTotal,
    stamps: Seq<i64>,
    contents: Seq<ContentData>,
)
    ensures
        claude_transcript::finished_parse(d, stamps, contents).title.len() > 0,
        d.custom_title.len() > 0 ==> claude_transcript::finished_parse(d, stamps, contents).title
            == d.custom_title,
{
    reveal_strlit("Untitled");
}

/// A session that was read from a file began no later than it was last touched, whether its
/// transcript tells its times or they are those of the file.
pub proof fn law_session_begins_before_it_ends(
    r: FileRefData,
    d: claude_jsonl::DraftTotal,
    stamps: Seq<i64>,
    contents: Seq<ContentData>,
    project_name: Seq<char>,
    slug: Seq<char>,
)
    ensures
        ({
            let parsed = claude_transcript::finished_parse(d, stamps, contents);
            let meta = claude::meta_of(r, parsed, project_name, slug);
            meta.created_at <= meta.updated_at
        }),
{
    law_times_enclose_the_stamps(stamps);
}

/// Whether a line is counted as unknown: it could not be read, is not JSON, or has a type that
/// means nothing here.
pub open spec fn is_unknown(line: LineData) -> bool {
    match line {
        LineData::Blank => false,
        LineData::Broken => true,
        LineData::Row(row) => {
            let typ = row.str_field("type"@).unwrap_or(""@);
            &&& typ != "custom-title"@
            &&& !claude_jsonl::is_message_type(typ)
            &&& typ.len() == 0 || !claude_jsonl::is_known_skip(typ)
        },
    }
}

/// How many lines are unknown.
pub open spec fn unknown_count(lines: Seq<LineData>) -> int
    decreases lines.len(),
{
    if lines.len() == 0 {
        0
    } else {
        unknown_count(lines.drop_last()) + if is_unknown(lines.last()) {
            1int
        } else {
            0int
        }
    }
}

proof fn lemma_unknown_count_bounds(lines: Seq<LineData>)
    ensures
        0 <= unknown_count(lines) <= lines.len(),
    decreases lines.len(),
{
    if lines.len() > 0 {
        lemma_unknown_count_bounds(lines.drop_last());
    }
}

/// What a line that is no unknown one does to the count: nothing.
proof fn lemma_step_counts(s: ReaderData, line: LineData, include_sidechain: bool)
    ensures
        claude_jsonl::line_step(s, line, include_sidechain).unknown_lines == if is_unknown(line) {
            s.unknown_lines.wrapping_add(1)
        } else {
            s.unknown_lines
        },
{
}

/// A transcript reports as many unknown lines as it has.
pub proof fn law_unknown_lines_are_counted(lines: Seq<LineData>, include_sidechain: bool)
    requires
        unknown_count(lines) <= u32::MAX,
    ensures
        claude_jsonl::draft_of(
            claude_jsonl::read_lines(lines, include_sidechain),
        ).unknown_lines == unknown_count(lines),
{
    lemma_read_counts(lines, include_sidechain);
}

proof fn lemma_read_counts(lines: Seq<LineData>, include_sidechain: bool)
    requires
        unknown_count(lines) <= u32::MAX,
    ensures
        claude_jsonl::read_lines(lines, include_sidechain).unknown_lines == unknown_count(lines),
    decreases lines.len(),
{
    if lines.len() > 0 {
        lemma_unknown_count_bounds(lines.drop_last());
        lemma_read_counts(lines.drop_last(), include_sidechain);
        lemma_step_counts(
            claude_jsonl::read_lines(lines.drop_last(), include_sidechain),
            lines.last(),
            include_sidechain,
        );
    }
}

/// A row of a side chain leaves the main line alone: no message, tool call, title, model or token
/// count changes.
pub proof fn law_sidechain_rows_stay_out(s: ReaderData, row: JsonData)
    requires
        row.bool_field("isSidechain"@) == Some(true),
        claude_jsonl::is_message_type(row.str_field("type"@).unwrap_or(""@)),
    ensures
        ({
            let after = claude_jsonl::line_step(s, LineData::Row(row), false);
            &&& after.messages == s.messages
            &&& after.pending == s.pending
            &&& after.tool_index == s.tool_index
            &&& after.custom_title == s.custom_title
            &&& after.model == s.model
            &&& after.tokens_used == s.tokens_used
            &&& after.unknown_lines == s.unknown_lines
        }),
{
    reveal_strlit("custom-title");
    reveal_strlit("user");
    reveal_strlit("assistant");
    reveal_strlit("system");
    assert("custom-title"@.len() == 12);
    assert("user"@.len() == 4);
    assert("assistant"@.len() == 9);
    assert("system"@.len() == 6);
}

/// A blank line, and a row of a type that is known to carry no message, change nothing.
pub proof fn law_silent_lines_change_nothing(s: ReaderData, line: LineData, include_sidechain: bool)
    requires
        line is Blank || (line matches LineData::Row(row) && claude_jsonl::is_known_skip(
            row.str_field("type"@).unwrap_or(""@),
        )),
    ensures
        claude_jsonl::line_step(s, line, include_sidechain) == s,
{
    reveal_strlit("queue-operation");
    reveal_strlit("mode");
    reveal_strlit("last-prompt");
    reveal_strlit("permission-mode");
    reveal_strlit("file-history-snapshot");
    reveal_strlit("file-history-delta");
    reveal_strlit("pr-link");
    reveal_strlit("frame-link");
    reveal_strlit("attachment");
    reveal_strlit("summary");
    reveal_strlit("atis-latch");
    reveal_strlit("bridge-session");
    reveal_strlit("custom-title");
    reveal_strlit("user");
    reveal_strlit("assistant");
    reveal_strlit("system");
    assert("mode"@[0] == 'm' && "user"@[0] == 'u');
    assert("custom-title"@.len() == 12);
    assert("assistant"@.len() == 9);
    assert("system"@.len() == 6);
    assert("user"@.len() == 4);
}

/// The state with one more unknown line.
pub open spec fn one_more_unknown(s: ReaderData) -> ReaderData {
    ReaderData { unknown_lines: s.unknown_lines.wrapping_add(1), ..s }
}

/// How many lines were unknown makes no difference to what a line does.
proof fn lemma_count_is_apart(s: ReaderData, line: LineData, include_sidechain: bool)
    ensures
        claude_jsonl::line_step(one_more_unknown(s), line, include_sidechain) == one_more_unknown(
            claude_jsonl::line_step(s, line, include_sidechain),
        ),
{
    if let LineData::Row(row) = line {
        let more = one_more_unknown(s);
        let stamp = claude_jsonl::stamp_of(s, row);
        let (s1, m1) = (claude_jsonl::envelope(s, row), claude_jsonl::envelope(more, row));
        assert(m1 == one_more_unknown(s1));
        assert(claude_jsonl::flushed(m1) == one_more_unknown(claude_jsonl::flushed(s1)));
        assert(claude_jsonl::system_step(m1, row, stamp) == one_more_unknown(
            claude_jsonl::system_step(s1, row, stamp),
        ));
        assert(claude_jsonl::user_step(m1, row, stamp) == one_more_unknown(
            claude_jsonl::user_step(s1, row, stamp),
        ));
        assert(claude_jsonl::assistant_step(m1, row, stamp) == one_more_unknown(
            claude_jsonl::assistant_step(s1, row, stamp),
        ));
    }
}

/// One more line at `k` does what it does there, and what follows does what it did without it.
proof fn lemma_inserted_line(
    lines: Seq<LineData>,
    k: int,
    line: LineData,
    include_sidechain: bool,
    counts: bool,
)
    requires
        0 <= k <= lines.len(),
        forall|s: ReaderData| #[trigger]
            claude_jsonl::line_step(s, line, include_sidechain) == if counts {
                one_more_unknown(s)
            } else {
                s
            },
    ensures
        claude_jsonl::read_lines(lines.insert(k, line), include_sidechain) == if counts {
            one_more_unknown(claude_jsonl::read_lines(lines, include_sidechain))
        } else {
            claude_jsonl::read_lines(lines, include_sidechain)
        },
    decreases lines.len(),
{
    let longer = lines.insert(k, line);
    if k == lines.len() {
        assert(longer.drop_last() =~= lines);
        assert(longer.last() == line);
    } else {
        let before = lines.drop_last();
        lemma_inserted_line(before, k, line, include_sidechain, counts);
        assert(longer.drop_last() =~= before.insert(k, line));
        assert(longer.last() == lines.last());
        lemma_count_is_apart(
            claude_jsonl::read_lines(before, include_sidechain),
            lines.last(),
            include_sidechain,
        );
    }
}

/// A blank line, or a row of a type that is known to carry no message, changes nothing wherever in
/// a file it stands.
pub proof fn law_silent_lines_can_stand_anywhere(
    lines: Seq<LineData>,
    k: int,
    line: LineData,
    include_sidechain: bool,
)
    requires
        0 <= k <= lines.len(),
        line is Blank || (line matches LineData::Row(row) && claude_jsonl::is_known_skip(
            row.str_field("type"@).unwrap_or(""@),
        )),
    ensures
        claude_jsonl::read_lines(lines.insert(k, line), include_sidechain)
            == claude_jsonl::read_lines(lines, include_sidechain),
{
    assert forall|s: ReaderData| #[trigger]
        claude_jsonl::line_step(s, line, include_sidechain) == s by {
        law_silent_lines_change_nothing(s, line, include_sidechain);
    }
    lemma_inserted_line(lines, k, line, include_sidechain, false);
}

/// A line that is not understood changes nothing but the count of such lines, wherever in a file it
/// stands.
pub proof fn law_unknown_lines_are_only_counted(
    lines: Seq<LineData>,
    k: int,
    line: LineData,
    include_sidechain: bool,
)
    requires
        0 <= k <= lines.len(),
        is_unknown(line),
    ensures
        claude_jsonl::read_lines(lines.insert(k, line), include_sidechain) == one_more_unknown(
            claude_jsonl::read_lines(lines, include_sidechain),
        ),
{
    assert forall|s: ReaderData| #[trigger]
        claude_jsonl::line_step(s, line, include_sidechain) == one_more_unknown(s) by {}
    lemma_inserted_line(lines, k, line, include_sidechain, true);
}

/// Whether `later` is `earlier`, but for what tools have answered since: outputs are added, never
/// taken back, and an error stays an error.
pub open spec fn grows_into(earlier: DraftData, later: DraftData) -> bool {
    &&& later.source == earlier.source
    &&& later.parts == earlier.parts
    &&& later.thinking == earlier.thinking
    &&& later.stamp == earlier.stamp
    &&& later.model == earlier.model
    &&& earlier.outputs.is_prefix_of(later.outputs)
    &&& later.calls.len() == earlier.calls.len()
    &&& forall|i: int|
        0 <= i < earlier.calls.len() ==> {
            &&& (#[trigger] later.calls[i]).id == earlier.calls[i].id
            &&& later.calls[i].name == earlier.calls[i].name
            &&& later.calls[i].input == earlier.calls[i].input
            &&& earlier.calls[i].is_error ==> later.calls[i].is_error
        }
}

/// Whether every message of `earlier` is still there in `later`, at the same place.
pub open spec fn all_grow_into(earlier: Seq<DraftData>, later: Seq<DraftData>) -> bool {
    &&& earlier.len() <= later.len()
    &&& forall|i: int|
        0 <= i < earlier.len() ==> grows_into(earlier[i], #[trigger] later[i])
}

proof fn lemma_blocks_grow(
    messages: Seq<DraftData>,
    index: Map<Seq<char>, (usize, usize)>,
    blocks: Seq<JsonData>,
)
    requires
        claude_jsonl::index_fits(messages, index),
    ensures
        all_grow_into(messages, claude_jsonl::user_blocks(messages, index, blocks).0),
        claude_jsonl::user_blocks(messages, index, blocks).0.len() == messages.len(),
    decreases blocks.len(),
{
    if blocks.len() > 0 {
        lemma_blocks_grow(messages, index, blocks.drop_last());
        let before = claude_jsonl::user_blocks(messages, index, blocks.drop_last()).0;
        let after = claude_jsonl::user_blocks(messages, index, blocks).0;
        let b = blocks.last();
        let id = b.str_field("tool_use_id"@).unwrap_or(""@);
        assert forall|i: int| 0 <= i < messages.len() implies grows_into(
            messages[i],
            #[trigger] after[i],
        ) by {
            assert(grows_into(messages[i], before[i]));
            if index.contains_key(id) && b.str_field("type"@) == Some("tool_result"@)
                && b.str_field("type"@) != Some("text"@) && i == index[id].0 {
                let ti = index[id].1;
                assert(after[i].outputs =~= before[i].outputs.push(after[i].outputs.last()));
                assert(messages[i].outputs =~= after[i].outputs.subrange(
                    0,
                    messages[i].outputs.len() as int,
                )) by {
                    let n = messages[i].outputs.len() as int;
                    assert(messages[i].outputs =~= before[i].outputs.subrange(0, n));
                }
            } else {
                assert(after[i] == before[i]);
            }
        }
    }
}

/// What has been read stays read: a line leaves every earlier message where it is and as it is,
/// but for the answers of tools.
pub proof fn law_earlier_messages_stay(s: ReaderData, line: LineData, include_sidechain: bool)
    requires
        claude_jsonl::reader_fits(s),
        claude_jsonl::holdable(s),
    ensures
        all_grow_into(
            s.messages,
            claude_jsonl::line_step(s, line, include_sidechain).messages,
        ),
{
    if let LineData::Row(row) = line {
        let s1 = claude_jsonl::envelope(s, row);
        let f = claude_jsonl::flushed(s1);
        if let Some(p) = s1.pending {
            if !claude_jsonl::pending_is_bare(p) {
                claude_jsonl::lemma_register_fits(
                    s1.messages,
                    s1.tool_index,
                    p.tool_calls,
                    claude_jsonl::assistant_draft(p),
                );
            }
        }
        assert(all_grow_into(s.messages, f.messages)) by {
            assert forall|i: int| 0 <= i < s.messages.len() implies grows_into(
                s.messages[i],
                #[trigger] f.messages[i],
            ) by {
                lemma_grows_into_itself(s.messages[i]);
            }
        }
        assert(all_grow_into(s.messages, s.messages)) by {
            assert forall|i: int| 0 <= i < s.messages.len() implies grows_into(
                s.messages[i],
                #[trigger] s.messages[i],
            ) by {
                lemma_grows_into_itself(s.messages[i]);
            }
        }
        if let Some(message) = row.field("message"@) {
            if let Some(JsonData::Array(blocks)) = message.field("content"@) {
                lemma_blocks_grow(f.messages, f.tool_index, blocks);
                let after = claude_jsonl::user_blocks(f.messages, f.tool_index, blocks).0;
                assert forall|i: int| 0 <= i < s.messages.len() implies grows_into(
                    s.messages[i],
                    #[trigger] after[i],
                ) by {
                    assert(grows_into(f.messages[i], after[i]));
                }
            }
        }
        let after = claude_jsonl::line_step(s, line, include_sidechain).messages;
        assert forall|i: int| 0 <= i < s.messages.len() implies grows_into(
            s.messages[i],
            #[trigger] after[i],
        ) by {}
    } else {
        assert forall|i: int| 0 <= i < s.messages.len() implies grows_into(
            s.messages[i],
            #[trigger] s.messages[i],
        ) by {
            lemma_grows_into_itself(s.messages[i]);
        }
    }
}

proof fn lemma_grows_into_itself(m: DraftData)
    ensures
        grows_into(m, m),
{
    assert(m.outputs =~= m.outputs.subrange(0, m.outputs.len() as int));
}

/// Once an assistant message is closed, each of its tool calls that has an id of its own is found
/// under that id.
pub proof fn law_closed_calls_are_found(s: ReaderData, p: PendingData, i: int)
    requires
        s.pending == Some(p),
        0 <= i < p.tool_calls.len() <= usize::MAX,
        s.messages.len() <= usize::MAX,
        p.tool_calls[i].id.len() > 0,
        forall|j: int| i < j < p.tool_calls.len() ==> (#[trigger] p.tool_calls[j]).id
            != p.tool_calls[i].id,
    ensures
        ({
            let f = claude_jsonl::flushed(s);
            let id = p.tool_calls[i].id;
            &&& f.tool_index.contains_key(id)
            &&& f.tool_index[id] == (s.messages.len() as usize, i as usize)
            &&& f.messages[s.messages.len() as int].calls[i] == p.tool_calls[i]
        }),
{
    lemma_register_finds(s.tool_index, p.tool_calls, s.messages.len() as usize, i);
}

proof fn lemma_register_finds(
    index: Map<Seq<char>, (usize, usize)>,
    calls: Seq<ToolCallData>,
    mi: usize,
    i: int,
)
    requires
        0 <= i < calls.len() <= usize::MAX,
        calls[i].id.len() > 0,
        forall|j: int| i < j < calls.len() ==> (#[trigger] calls[j]).id != calls[i].id,
    ensures
        claude_jsonl::register(index, calls, mi).contains_key(calls[i].id),
        claude_jsonl::register(index, calls, mi)[calls[i].id] == (mi, i as usize),
    decreases calls.len(),
{
    if i < calls.len() - 1 {
        lemma_register_finds(index, calls.drop_last(), mi, i);
        assert(calls[calls.len() - 1].id != calls[i].id);
    }
}

/// The answer of a tool goes to the call that asked, and to no other message.
pub proof fn law_results_reach_their_call(
    messages: Seq<DraftData>,
    index: Map<Seq<char>, (usize, usize)>,
    b: JsonData,
)
    requires
        claude_jsonl::index_fits(messages, index),
        index.contains_key(b.str_field("tool_use_id"@).unwrap_or(""@)),
    ensures
        ({
            let (mi, ti) = index[b.str_field("tool_use_id"@).unwrap_or(""@)];
            let after = claude_jsonl::backfilled(messages, index, b);
            &&& after.len() == messages.len()
            &&& after[mi as int].outputs == messages[mi as int].outputs.push(
                ToolOutputData { call: ti, content: b.field("content"@).unwrap_or(JsonData::Null) },
            )
            &&& b.bool_field("is_error"@) == Some(true) ==> after[mi as int].calls[ti as int].is_error
            &&& forall|i: int|
                0 <= i < messages.len() && i != mi ==> #[trigger] after[i] == messages[i]
        }),
{
}

proof fn lemma_content_keeps_id(p: PendingData, content: Option<JsonData>)
    ensures
        claude_jsonl::assistant_content(p, content).msg_id == p.msg_id,
{
    if let Some(JsonData::Array(blocks)) = content {
        lemma_blocks_keep_id(p, blocks);
    }
}

proof fn lemma_blocks_keep_id(p: PendingData, blocks: Seq<JsonData>)
    ensures
        claude_jsonl::assistant_blocks(p, blocks).msg_id == p.msg_id,
    decreases blocks.len(),
{
    if blocks.len() > 0 {
        lemma_blocks_keep_id(p, blocks.drop_last());
    }
}

/// Assistant rows that follow one another under one message id make one message.
pub proof fn law_rows_of_one_id_make_one_message(
    s: ReaderData,
    first: JsonData,
    second: JsonData,
    stamps: (Option<usize>, Option<usize>),
    id: Seq<char>,
)
    requires
        first.field("message"@) matches Some(m) && m.str_field("id"@) == Some(id),
        second.field("message"@) matches Some(m) && m.str_field("id"@) == Some(id),
    ensures
        ({
            let one = claude_jsonl::assistant_step(s, first, stamps.0);
            let two = claude_jsonl::assistant_step(one, second, stamps.1);
            &&& two.messages == one.messages
            &&& two.tool_index == one.tool_index
            &&& one.pending matches Some(p) && p.msg_id == Some(id)
            &&& two.pending matches Some(p) && p.msg_id == Some(id)
            &&& two.pending->0.stamp == one.pending->0.stamp
        }),
{
    let one = claude_jsonl::assistant_step(s, first, stamps.0);
    lemma_step_takes_id(s, first, stamps.0, id);
    lemma_step_takes_id(one, second, stamps.1, id);
}

proof fn lemma_step_takes_id(s: ReaderData, row: JsonData, stamp: Option<usize>, id: Seq<char>)
    requires
        row.field("message"@) matches Some(m) && m.str_field("id"@) == Some(id),
    ensures
        ({
            let after = claude_jsonl::assistant_step(s, row, stamp);
            &&& after.pending matches Some(p) && p.msg_id == Some(id)
            &&& (s.pending matches Some(p) && p.msg_id == Some(id)) ==> {
                &&& after.messages == s.messages
                &&& after.tool_index == s.tool_index
                &&& after.pending->0.stamp == s.pending->0.stamp
            }
        }),
{
    let message = row.field("message"@)->0;
    let s1 = claude_jsonl::opened(s, Some(id), stamp);
    let p = s1.pending->0;
    let named = claude_jsonl::named_model(message);
    let p1 = PendingData { model: if named is Some { named } else { p.model }, ..p };
    lemma_content_keeps_id(p1, message.field("content"@));
    if let Some(JsonData::Array(blocks)) = message.field("content"@) {
        claude_jsonl::lemma_blocks_keep_stamp(p1, blocks);
    }
}

}
