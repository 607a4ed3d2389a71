//! What becomes of a draft: how its messages, titles, times and tool calls appear in the
//! transcript, in the index and beside the side chains.
use crate::adapters::claude;
use crate::adapters::claude::{AdapterData, EntryData, NamesData};
use crate::adapters::claude_jsonl;
use crate::adapters::claude_jsonl::{DraftData, DraftSource, DraftTotal, LineData, ReaderData};
use crate::adapters::claude_transcript;
use crate::adapters::claude_transcript::{ContentData, OutputData, ParseData};
use crate::json;
use crate::json::JsonData;
use crate::models;
use crate::models::{
    AgentId, FileRefData, MemorySourceKind, MessageData, MessageKind, Role, SidechainData,
    TranscriptImage,
};
use crate::order;
use crate::paths;
use crate::text;
use vstd::prelude::*;

verus! {

/// Whether `k` is the last output of a draft message that is for call `i`.
pub open spec fn is_last_answer(m: DraftData, i: int, k: int) -> bool {
    &&& 0 <= k < m.outputs.len()
    &&& m.outputs[k].call == i
    &&& forall|j: int| k < j < m.outputs.len() ==> (#[trigger] m.outputs[j]).call != i
}

proof fn lemma_answered(
    calls: Seq<models::ToolCallData>,
    outputs: Seq<claude_jsonl::ToolOutputData>,
    resolved: Seq<OutputData>,
    i: int,
)
    requires
        outputs.len() == resolved.len(),
        forall|k: int| 0 <= k < outputs.len() ==> (#[trigger] outputs[k]).call < calls.len(),
        0 <= i < calls.len(),
    ensures
        ({
            let after = claude_transcript::answered(calls, outputs, resolved);
            &&& after.len() == calls.len()
            &&& after[i].id == calls[i].id
            &&& after[i].name == calls[i].name
            &&& after[i].input == calls[i].input
            &&& after[i].is_error == calls[i].is_error
            &&& after[i].sidechain_ref == calls[i].sidechain_ref
            &&& (forall|k: int| 0 <= k < outputs.len() ==> (#[trigger] outputs[k]).call != i)
                ==> after[i].output == calls[i].output
            &&& forall|k: int|
                0 <= k < outputs.len() && (#[trigger] outputs[k]).call == i && (forall|j: int|
                    k < j < outputs.len() ==> (#[trigger] outputs[j]).call != i)
                    ==> after[i].output == Some(resolved[k].text)
        }),
    decreases outputs.len(),
{
    if outputs.len() > 0 {
        let (o, r) = (outputs.drop_last(), resolved.drop_last());
        assert forall|k: int| 0 <= k < o.len() implies (#[trigger] o[k]).call < calls.len() by {
            assert(outputs[k].call < calls.len());
        }
        assert(outputs[outputs.len() - 1].call < calls.len());
        lemma_answered(calls, o, r, i);
        let after = claude_transcript::answered(calls, outputs, resolved);
        let before = claude_transcript::answered(calls, o, r);
        if forall|k: int| 0 <= k < outputs.len() ==> (#[trigger] outputs[k]).call != i {
            assert forall|k: int| 0 <= k < o.len() implies (#[trigger] o[k]).call != i by {
                assert(outputs[k].call != i);
            }
            assert(outputs[outputs.len() - 1].call != i);
        }
        assert forall|k: int|
            0 <= k < outputs.len() && (#[trigger] outputs[k]).call == i && (forall|j: int|
                k < j < outputs.len() ==> (#[trigger] outputs[j]).call != i) implies after[i].output
            == Some(resolved[k].text) by {
            if k < outputs.len() - 1 {
                assert(outputs[outputs.len() - 1].call != i);
                assert(o[k].call == i);
                assert forall|j: int| k < j < o.len() implies (#[trigger] o[j]).call != i by {
                    assert(outputs[j].call != i);
                }
                assert(before[i].output == Some(r[k].text));
            }
        }
    }
}

/// The answers in a finished message: every call has the text of the last answer that is for it,
/// whatever came back for other calls; one without an answer keeps what it had. Nothing else of a
/// call changes, and no call is lost.
pub proof fn law_every_call_has_its_own_answer(
    m: DraftData,
    c: ContentData,
    stamps: Seq<i64>,
    seq: int,
    i: int,
)
    requires
        m.source != DraftSource::Boundary,
        claude_jsonl::message_fits(m, stamps.len()),
        c.outputs.len() == m.outputs.len(),
        0 <= i < m.calls.len(),
    ensures
        ({
            let calls = claude_transcript::message_of(m, c, stamps, seq).tool_calls;
            &&& calls.len() == m.calls.len()
            &&& forall|k: int| #[trigger]
                is_last_answer(m, i, k) ==> calls[i].output == Some(c.outputs[k].text)
            &&& (forall|k: int| 0 <= k < m.outputs.len() ==> (#[trigger] m.outputs[k]).call != i)
                ==> calls[i].output == m.calls[i].output
            &&& calls[i].id == m.calls[i].id
            &&& calls[i].name == m.calls[i].name
            &&& calls[i].input == m.calls[i].input
            &&& calls[i].is_error == m.calls[i].is_error
            &&& calls[i].sidechain_ref == m.calls[i].sidechain_ref
        }),
{
    lemma_answered(m.calls, m.outputs, c.outputs, i);
}

/// What a finished message says: what was made of the text of its draft, its thoughts if it has
/// any, its time if that is known, and its model.
pub proof fn law_messages_say_what_their_draft_said(
    m: DraftData,
    c: ContentData,
    stamps: Seq<i64>,
    seq: int,
)
    ensures
        ({
            let r = claude_transcript::message_of(m, c, stamps, seq);
            let boundary = m.source == DraftSource::Boundary;
            &&& r.seq == seq
            &&& boundary ==> {
                &&& r.text == claude_transcript::COMPACTED@
                &&& !r.truncated
                &&& r.thinking is None
                &&& r.model is None
                &&& r.images.len() == 0
                &&& r.tool_calls.len() == 0
            }
            &&& !boundary ==> {
                &&& r.text == c.clipped
                &&& r.truncated == c.truncated
                &&& m.thinking.len() == 0 ==> r.thinking is None
                &&& m.thinking.len() > 0 ==> r.thinking == Some(c.thinking)
                &&& r.model == m.model
            }
            &&& match m.stamp {
                Some(i) => {
                    &&& stamps[i as int] > 0 ==> r.timestamp == Some(stamps[i as int])
                    &&& stamps[i as int] <= 0 ==> r.timestamp is None
                },
                None => r.timestamp is None,
            }
        }),
{
}

/// Who a message is by, and what it is: the assistant's are always conversation, a user's are
/// unless they are a compaction summary, or meta or put there by a program.
pub proof fn law_messages_are_told_apart(m: DraftData, c: ContentData, stamps: Seq<i64>, seq: int)
    ensures
        ({
            let r = claude_transcript::message_of(m, c, stamps, seq);
            &&& m.source == DraftSource::Assistant ==> r.role == Role::Assistant && r.kind
                == MessageKind::Text
            &&& m.source == DraftSource::Note ==> r.role == Role::System && r.kind
                == MessageKind::Meta
            &&& m.source == DraftSource::Boundary ==> r.role == Role::System && r.kind
                == MessageKind::CompactSummary
            &&& m.source matches DraftSource::User { meta, compact } ==> {
                &&& r.role == Role::User
                &&& r.kind == MessageKind::CompactSummary <==> compact
                &&& r.kind == MessageKind::Text <==> !compact && !meta && !c.injected
            }
        }),
{
}

proof fn lemma_output_images(resolved: Seq<OutputData>)
    ensures
        claude_transcript::output_images(resolved) == resolved.map_values(
            |o: OutputData| o.images,
        ).flatten_alt(),
    decreases resolved.len(),
{
    if resolved.len() > 0 {
        lemma_output_images(resolved.drop_last());
        let f = |o: OutputData| o.images;
        assert(resolved.map_values(f).drop_last() =~= resolved.drop_last().map_values(f));
    } else {
        assert(resolved.map_values(|o: OutputData| o.images).flatten_alt() =~= Seq::<
            TranscriptImage,
        >::empty());
    }
}

/// The images of a message are its own, followed by those of the answers to its calls, in order;
/// what the system says has none.
pub proof fn law_images_of_answers_follow_the_own(
    m: DraftData,
    c: ContentData,
    stamps: Seq<i64>,
    seq: int,
)
    ensures
        ({
            let images = claude_transcript::message_of(m, c, stamps, seq).images;
            let system = m.source == DraftSource::Boundary || m.source == DraftSource::Note;
            &&& system ==> images.len() == 0
            &&& !system ==> images == c.images + c.outputs.map_values(
                |o: OutputData| o.images,
            ).flatten_alt()
        }),
{
    lemma_output_images(c.outputs);
}

/// Whether a draft message is shown: what the system says always is, a user's message needs a text
/// or an image, and the assistant's one of these, a thought or a tool call.
pub open spec fn is_shown(m: DraftData, c: ContentData) -> bool {
    match m.source {
        DraftSource::Boundary => true,
        DraftSource::Note => true,
        DraftSource::User { .. } => c.text.len() > 0 || c.images.len() > 0,
        DraftSource::Assistant => c.text.len() > 0 || c.images.len() > 0 || m.thinking.len() > 0
            || m.calls.len() > 0,
    }
}

/// Which draft messages are shown, by their numbers.
pub open spec fn shown(drafts: Seq<DraftData>, contents: Seq<ContentData>) -> Seq<int>
    decreases drafts.len(),
{
    if drafts.len() == 0 {
        seq![]
    } else {
        let before = shown(drafts.drop_last(), contents.drop_last());
        if is_shown(drafts.last(), contents.last()) {
            before.push(drafts.len() - 1)
        } else {
            before
        }
    }
}

/// The transcript is made of the draft messages that are shown, each of them once and in order, and
/// of nothing else.
pub proof fn law_the_transcript_keeps_what_is_shown(
    drafts: Seq<DraftData>,
    contents: Seq<ContentData>,
    stamps: Seq<i64>,
)
    requires
        drafts.len() == contents.len(),
    ensures
        ({
            let all = claude_transcript::finished(drafts, contents, stamps);
            let from = shown(drafts, contents);
            &&& all.len() == from.len()
            &&& forall|j: int|
                0 <= j < all.len() ==> {
                    &&& 0 <= #[trigger] from[j] < drafts.len()
                    &&& is_shown(drafts[from[j]], contents[from[j]])
                    &&& all[j] == claude_transcript::message_of(
                        drafts[from[j]],
                        contents[from[j]],
                        stamps,
                        j,
                    )
                }
            &&& forall|j: int, k: int|
                #![trigger from[j], from[k]]
                0 <= j < k < from.len() ==> from[j] < from[k]
            &&& forall|i: int|
                0 <= i < drafts.len() && is_shown(#[trigger] drafts[i], contents[i])
                    ==> from.contains(i)
        }),
    decreases drafts.len(),
{
    if drafts.len() > 0 {
        let (d, c) = (drafts.drop_last(), contents.drop_last());
        law_the_transcript_keeps_what_is_shown(d, c, stamps);
        let before = shown(d, c);
        let from = shown(drafts, contents);
        let all = claude_transcript::finished(drafts, contents, stamps);
        assert forall|j: int| 0 <= j < all.len() implies ({
            &&& 0 <= #[trigger] from[j] < drafts.len()
            &&& is_shown(drafts[from[j]], contents[from[j]])
            &&& all[j] == claude_transcript::message_of(
                drafts[from[j]],
                contents[from[j]],
                stamps,
                j,
            )
        }) by {
            if j < before.len() {
                assert(from[j] == before[j]);
                assert(d[before[j]] == drafts[from[j]] && c[before[j]] == contents[from[j]]);
            }
        }
        assert forall|j: int, k: int|
            #![trigger from[j], from[k]]
            0 <= j < k < from.len() implies from[j] < from[k] by {
            assert(from[j] == before[j]);
            if k < before.len() {
                assert(before[j] < before[k]);
            }
        }
        assert forall|i: int|
            0 <= i < drafts.len() && is_shown(#[trigger] drafts[i], contents[i]) implies from.contains(
            i,
        ) by {
            if i < d.len() {
                assert(is_shown(d[i], c[i]));
                let k = choose|k: int| 0 <= k < before.len() && before[k] == i;
                assert(from[k] == i);
            } else {
                assert(from[from.len() - 1] == i);
            }
        }
    }
}

/// Whether draft message `i` offers a title: it is shown, the user wrote it, and it makes one.
pub open spec fn offers_title(drafts: Seq<DraftData>, contents: Seq<ContentData>, i: int) -> bool {
    &&& drafts[i].source matches DraftSource::User { meta, compact } && !meta && !compact
    &&& !contents[i].injected
    &&& contents[i].text.len() > 0 || contents[i].images.len() > 0
    &&& contents[i].title.len() > 0
}

proof fn lemma_offered(drafts: Seq<DraftData>, contents: Seq<ContentData>)
    requires
        drafts.len() == contents.len(),
    ensures
        forall|i: int|
            0 <= i < drafts.len() && #[trigger] offers_title(drafts, contents, i) && (forall|j: int|
                0 <= j < i ==> !#[trigger] offers_title(drafts, contents, j))
                ==> claude_transcript::offered_title(drafts, contents) == contents[i].title,
        (forall|i: int| 0 <= i < drafts.len() ==> !#[trigger] offers_title(drafts, contents, i))
            ==> claude_transcript::offered_title(drafts, contents).len() == 0,
        claude_transcript::offered_title(drafts, contents).len() > 0 ==> exists|i: int|
            0 <= i < drafts.len() && #[trigger] offers_title(drafts, contents, i),
    decreases drafts.len(),
{
    if drafts.len() > 0 {
        let (d, c) = (drafts.drop_last(), contents.drop_last());
        lemma_offered(d, c);
        assert(forall|i: int|
            0 <= i < d.len() ==> #[trigger] offers_title(d, c, i) == offers_title(
                drafts,
                contents,
                i,
            ));
        let last = drafts.len() - 1;
        let before = claude_transcript::offered_title(d, c);
        let now = claude_transcript::offered_title(drafts, contents);
        assert forall|i: int|
            0 <= i < drafts.len() && #[trigger] offers_title(drafts, contents, i) && (forall|j: int|
                0 <= j < i ==> !#[trigger] offers_title(drafts, contents, j)) implies now
            == contents[i].title by {
            if i < last {
                assert(offers_title(d, c, i));
                assert forall|j: int| 0 <= j < i implies !#[trigger] offers_title(d, c, j) by {
                    assert(!offers_title(drafts, contents, j));
                }
                assert(before == c[i].title);
            } else {
                assert forall|j: int| 0 <= j < d.len() implies !#[trigger] offers_title(d, c, j) by {
                    assert(!offers_title(drafts, contents, j));
                }
                assert(before.len() == 0);
            }
        }
        if forall|i: int| 0 <= i < drafts.len() ==> !#[trigger] offers_title(drafts, contents, i) {
            assert forall|j: int| 0 <= j < d.len() implies !#[trigger] offers_title(d, c, j) by {
                assert(!offers_title(drafts, contents, j));
            }
            assert(!offers_title(drafts, contents, last));
        }
        if now.len() > 0 {
            if before.len() > 0 {
                let i = choose|i: int| 0 <= i < d.len() && #[trigger] offers_title(d, c, i);
                assert(offers_title(drafts, contents, i));
            } else {
                assert(offers_title(drafts, contents, last));
            }
        }
    }
}

/// The title of a session, in its transcript and in the index: the one that it was given; else that
/// of the first message of the user's own that makes one; else the one for sessions without.
pub proof fn law_the_title_is_given_or_the_first_offered(
    r: FileRefData,
    d: DraftTotal,
    stamps: Seq<i64>,
    contents: Seq<ContentData>,
    project_name: Seq<char>,
    slug: Seq<char>,
    i: int,
)
    requires
        d.messages.len() == contents.len(),
    ensures
        ({
            let parsed = claude_transcript::finished_parse(d, stamps, contents);
            let meta = claude::meta_of(r, parsed, project_name, slug);
            let none_before = forall|j: int|
                0 <= j < i ==> !#[trigger] offers_title(d.messages, contents, j);
            &&& meta.title == parsed.title
            &&& d.custom_title.len() > 0 ==> meta.title == d.custom_title
            &&& d.custom_title.len() == 0 && 0 <= i < contents.len() && offers_title(
                d.messages,
                contents,
                i,
            ) && none_before ==> meta.title == contents[i].title
            &&& d.custom_title.len() == 0 && i == contents.len() && none_before ==> meta.title
                == "Untitled"@
        }),
{
    lemma_offered(d.messages, contents);
}

proof fn lemma_first_time(stamps: Seq<i64>, i: int)
    requires
        0 <= i <= stamps.len(),
        forall|j: int| 0 <= j < i ==> #[trigger] stamps[j] <= 0,
        i < stamps.len() ==> stamps[i] > 0,
    ensures
        i < stamps.len() ==> claude_transcript::first_time(stamps) == stamps[i],
        i == stamps.len() ==> claude_transcript::first_time(stamps) == 0,
    decreases stamps.len(),
{
    if stamps.len() > 0 {
        let before = stamps.drop_last();
        let n = if i < before.len() {
            i
        } else {
            before.len() as int
        };
        assert forall|j: int| 0 <= j < n implies #[trigger] before[j] <= 0 by {
            assert(stamps[j] <= 0);
        }
        lemma_first_time(before, n);
        if i == stamps.len() {
            assert(stamps[stamps.len() - 1] <= 0);
        }
    }
}

proof fn lemma_latest_time(stamps: Seq<i64>)
    ensures
        claude_transcript::latest_time(stamps) >= 0,
        claude_transcript::latest_time(stamps) == 0 || stamps.contains(
            claude_transcript::latest_time(stamps),
        ),
        forall|i: int|
            0 <= i < stamps.len() ==> #[trigger] stamps[i] <= claude_transcript::latest_time(stamps),
    decreases stamps.len(),
{
    if stamps.len() > 0 {
        let before = stamps.drop_last();
        let last = stamps.len() - 1;
        lemma_latest_time(before);
        let (x, y) = (
            claude_transcript::latest_time(before),
            claude_transcript::latest_time(stamps),
        );
        assert forall|i: int| 0 <= i < stamps.len() implies #[trigger] stamps[i] <= y by {
            if i < last {
                assert(before[i] <= x);
            }
        }
        if y != 0 {
            if y == x {
                let k = choose|k: int| 0 <= k < before.len() && before[k] == x;
                assert(stamps[k] == y);
            } else {
                assert(stamps[last] == y);
            }
        }
    }
}

/// The times of a session in the index: it began at the first time that its transcript tells, and
/// was last touched at the latest; only where it tells none, both are the time of its file.
pub proof fn law_times_come_from_the_transcript(
    r: FileRefData,
    d: DraftTotal,
    stamps: Seq<i64>,
    contents: Seq<ContentData>,
    project_name: Seq<char>,
    slug: Seq<char>,
    i: int,
)
    requires
        0 <= i <= stamps.len(),
        forall|j: int| 0 <= j < i ==> #[trigger] stamps[j] <= 0,
        i < stamps.len() ==> stamps[i] > 0,
    ensures
        ({
            let parsed = claude_transcript::finished_parse(d, stamps, contents);
            let meta = claude::meta_of(r, parsed, project_name, slug);
            &&& i < stamps.len() ==> {
                &&& meta.created_at == stamps[i]
                &&& stamps.contains(meta.updated_at)
                &&& forall|j: int|
                    0 <= j < stamps.len() ==> #[trigger] stamps[j] <= meta.updated_at
            }
            &&& i == stamps.len() ==> meta.created_at == r.mtime_ms && meta.updated_at == r.mtime_ms
        }),
{
    lemma_first_time(stamps, i);
    lemma_latest_time(stamps);
    let latest = claude_transcript::latest_time(stamps);
    if i < stamps.len() {
        assert(stamps[i] <= latest);
    } else if latest != 0 {
        let k = choose|k: int| 0 <= k < stamps.len() && stamps[k] == latest;
        assert(stamps[k] <= 0);
    }
}

/// What the draft tells of its session, the transcript tells too.
pub proof fn law_the_transcript_tells_what_the_draft_told(
    d: DraftTotal,
    stamps: Seq<i64>,
    contents: Seq<ContentData>,
)
    ensures
        ({
            let p = claude_transcript::finished_parse(d, stamps, contents);
            &&& p.cwd == d.cwd
            &&& p.git_branch == d.git_branch
            &&& p.model == d.model
            &&& p.tokens_used == d.tokens_used
            &&& p.unknown_lines == d.unknown_lines
            &&& p.messages == claude_transcript::finished(d.messages, contents, stamps)
        }),
{
}

/// The index entry of a session is about that session: it has the id, the path and the size of its
/// file, and the directory, branch, model and tokens of its transcript, and counts the messages
/// that are conversation. Tokens are told only where there are any.
pub proof fn law_the_entry_is_about_its_session(
    r: FileRefData,
    p: ParseData,
    project_name: Seq<char>,
    slug: Seq<char>,
)
    requires
        p.messages.len() <= i64::MAX,
    ensures
        ({
            let meta = claude::meta_of(r, p, project_name, slug);
            &&& meta.id == r.native_id
            &&& meta.key == slug + ":"@ + r.native_id
            &&& meta.agent == AgentId::ClaudeCode
            &&& meta.host.len() == 0
            &&& meta.file_path == r.file_path
            &&& meta.size_bytes == r.size
            &&& meta.title == p.title
            &&& meta.project_path == p.cwd
            &&& meta.project_name == project_name
            &&& meta.git_branch == p.git_branch
            &&& meta.model == p.model
            &&& p.tokens_used > 0 ==> meta.tokens_used == Some(p.tokens_used)
            &&& p.tokens_used <= 0 ==> meta.tokens_used is None
            &&& p.created_at > 0 ==> meta.created_at == p.created_at
            &&& p.created_at <= 0 ==> meta.created_at == r.mtime_ms
            &&& p.updated_at > 0 ==> meta.updated_at == p.updated_at
            &&& p.updated_at <= 0 ==> meta.updated_at == r.mtime_ms
            &&& meta.message_count == p.messages.filter(
                |m: MessageData| m.kind == MessageKind::Text,
            ).len()
            &&& !meta.archived && !meta.favorite && !meta.pinned && meta.source is None
        }),
{
    models::law_only_conversation_is_counted(p.messages);
    p.messages.lemma_filter_len(|m: MessageData| m.kind == MessageKind::Text);
}

/// The thoughts of a message as one text: the first as it is, and each further one behind an empty
/// line.
pub proof fn law_thoughts_stand_apart(thoughts: Seq<Seq<char>>, next: Seq<char>)
    ensures
        claude_transcript::joined(seq![]).len() == 0,
        claude_transcript::joined(seq![next]) == next,
        thoughts.len() > 0 ==> claude_transcript::joined(thoughts.push(next))
            == claude_transcript::joined(thoughts) + seq!['\n', '\n'] + next,
{
    reveal_strlit("\n\n");
    assert("\n\n"@ =~= seq!['\n', '\n']);
    assert(thoughts.push(next).drop_last() =~= thoughts);
}

/// Whether `k` is the last side chain that names the tool call `id`.
pub open spec fn is_last_naming(chains: Seq<SidechainData>, id: Seq<char>, k: int) -> bool {
    &&& 0 <= k < chains.len()
    &&& chains[k].tool_use_id == Some(id)
    &&& forall|j: int| k < j < chains.len() ==> (#[trigger] chains[j]).tool_use_id != Some(id)
}

proof fn lemma_sidechain_for(chains: Seq<SidechainData>, id: Seq<char>)
    ensures
        forall|k: int| #[trigger]
            is_last_naming(chains, id, k) ==> claude::sidechain_for(chains, id) == Some(
                chains[k].id,
            ),
        (forall|k: int| 0 <= k < chains.len() ==> (#[trigger] chains[k]).tool_use_id != Some(id))
            ==> claude::sidechain_for(chains, id) is None,
    decreases chains.len(),
{
    if chains.len() > 0 {
        let less = chains.drop_last();
        lemma_sidechain_for(less, id);
        let last = chains.len() - 1;
        assert forall|k: int| #[trigger] is_last_naming(chains, id, k) implies
            claude::sidechain_for(chains, id) == Some(chains[k].id) by {
            if k < last {
                assert(chains[last].tool_use_id != Some(id));
                assert(is_last_naming(less, id, k)) by {
                    assert forall|j: int| k < j < less.len() implies (
                    #[trigger] less[j]).tool_use_id != Some(id) by {
                        assert(chains[j].tool_use_id != Some(id));
                    }
                }
            }
        }
        if forall|k: int|
            0 <= k < chains.len() ==> (#[trigger] chains[k]).tool_use_id != Some(id) {
            assert forall|k: int| 0 <= k < less.len() implies (#[trigger] less[k]).tool_use_id
                != Some(id) by {
                assert(chains[k].tool_use_id != Some(id));
            }
            assert(chains[last].tool_use_id != Some(id));
        }
    }
}

/// In a transcript with side chains every tool call points to the last side chain that names it,
/// and one that none names points where it did before. Nothing else changes.
pub proof fn law_calls_point_to_their_side_chain(
    messages: Seq<MessageData>,
    chains: Seq<SidechainData>,
    i: int,
    j: int,
)
    requires
        0 <= i < messages.len(),
        0 <= j < messages[i].tool_calls.len(),
    ensures
        ({
            let after = claude::with_sidechains(messages, chains);
            let (m, n) = (messages[i], after[i]);
            let (c, e) = (m.tool_calls[j], n.tool_calls[j]);
            &&& after.len() == messages.len()
            &&& n == (MessageData { tool_calls: n.tool_calls, ..m })
            &&& n.tool_calls.len() == m.tool_calls.len()
            &&& forall|k: int| #[trigger]
                is_last_naming(chains, c.id, k) ==> e.sidechain_ref == Some(chains[k].id)
            &&& (forall|k: int|
                0 <= k < chains.len() ==> (#[trigger] chains[k]).tool_use_id != Some(c.id))
                ==> e.sidechain_ref == c.sidechain_ref
            &&& e.id == c.id && e.name == c.name && e.input == c.input
            &&& e.output == c.output && e.is_error == c.is_error
        }),
{
    lemma_sidechain_for(chains, messages[i].tool_calls[j].id);
}

/// A text with one `.jsonl` behind it is the name of the transcript with that id, as long as the id
/// itself does not end so; and nothing else names a transcript.
pub proof fn law_transcripts_are_named_after_their_id(id: Seq<char>, name: Seq<char>)
    ensures
        !".jsonl"@.is_suffix_of(id) ==> claude::id_of_file(id + ".jsonl"@) == Some(id),
        !".jsonl"@.is_suffix_of(name) ==> claude::id_of_file(name) is None,
        ".jsonl"@.is_suffix_of(name) ==> claude::id_of_file(name) is Some,
{
    reveal_strlit(".jsonl");
    let (whole, end) = (id + ".jsonl"@, ".jsonl"@);
    assert(end.len() == 6);
    assert(end =~= whole.subrange(whole.len() - end.len(), whole.len() as int));
    assert(whole.take(whole.len() - end.len()) =~= id);
    if !end.is_suffix_of(id) {
        assert(text::without_suffix(id, end) == id);
        assert(text::without_suffix(whole, end) == text::without_suffix(
            whole.take(whole.len() - end.len()),
            end,
        ));
    }
}

/// The side chains of a session: one for each transcript in its directory, in order, with what the
/// description beside it says; one without a description, or with one that is no JSON, says
/// nothing. Any other file is passed over.
pub proof fn law_side_chains_are_their_transcripts(
    files: Seq<(Seq<char>, Option<Seq<char>>)>,
    id: Seq<char>,
    meta: Option<Seq<char>>,
    other: Seq<char>,
)
    requires
        !".jsonl"@.is_suffix_of(id),
        !".jsonl"@.is_suffix_of(other),
    ensures
        ({
            let before = claude::sidechains_of(files);
            let after = claude::sidechains_of(files.push((id + ".jsonl"@, meta)));
            let doc = match meta {
                Some(t) => json::json_of_text(t),
                None => None,
            };
            &&& claude::sidechains_of(seq![]).len() == 0
            &&& after.len() == before.len() + 1
            &&& after.take(before.len() as int) == before
            &&& after.last().id == id
            &&& match doc {
                Some(j) => {
                    &&& after.last().agent_type == j.str_field("agentType"@)
                    &&& after.last().description == j.str_field("description"@)
                    &&& after.last().tool_use_id == j.str_field("toolUseId"@)
                },
                None => {
                    &&& after.last().agent_type is None
                    &&& after.last().description is None
                    &&& after.last().tool_use_id is None
                },
            }
            &&& claude::sidechains_of(files.push((other, meta))) == before
        }),
{
    law_transcripts_are_named_after_their_id(id, other);
    let with = files.push((id + ".jsonl"@, meta));
    let without = files.push((other, meta));
    assert(with.drop_last() =~= files);
    assert(without.drop_last() =~= files);
    let before = claude::sidechains_of(files);
    assert(claude::sidechains_of(with).take(before.len() as int) =~= before);
}

/// The newest of some sessions was touched last, and among those touched at the same time it has
/// the last id.
pub proof fn law_the_newest_was_touched_last(refs: Seq<FileRefData>, i: int, j: int)
    requires
        claude::newest(refs) == Some(i),
        0 <= j < refs.len(),
    ensures
        0 <= i < refs.len(),
        refs[j].mtime_ms <= refs[i].mtime_ms,
        refs[j].mtime_ms == refs[i].mtime_ms ==> order::text_le(
            refs[j].native_id,
            refs[i].native_id,
        ),
{
    claude::law_newest_is_newest(refs);
    assert(claude::as_new(refs[j], refs[i]));
}

/// A session file of a project directory is listed under the id in its name, with its path, its
/// time and its size; entries are listed in order, and an entry that is hidden, empty, no file or no
/// transcript adds nothing.
pub proof fn law_sessions_are_listed_as_they_are(entries: Seq<EntryData>, e: EntryData)
    ensures
        ({
            let before = claude::sessions_of(entries);
            let after = claude::sessions_of(entries.push(e));
            let good = ".jsonl"@.is_suffix_of(e.name) && !(e.name.len() > 0 && e.name[0] == '.') && (
            e.facts matches Some(f) && f.is_file && f.len > 0);
            &&& claude::sessions_of(seq![]).len() == 0
            &&& !good ==> after == before
            &&& good ==> {
                &&& after.len() == before.len() + 1
                &&& after.take(before.len() as int) == before
                &&& after.last().agent == AgentId::ClaudeCode
                &&& Some(after.last().native_id) == claude::id_of_file(e.name)
                &&& after.last().file_path == e.path
                &&& after.last().mtime_ms == e.facts->0.mtime_ms
                &&& e.facts->0.len <= i64::MAX ==> after.last().size == e.facts->0.len
            }
        }),
{
    assert(entries.push(e).drop_last() =~= entries);
    let before = claude::sessions_of(entries);
    law_transcripts_are_named_after_their_id(seq![], e.name);
    if claude::session_of_entry(e) is Some {
        assert(claude::sessions_of(entries.push(e)).take(before.len() as int) =~= before);
    }
}

/// The sessions of all project directories are those of each, one directory after the other.
pub proof fn law_directories_are_listed_in_order(
    projects: Seq<Seq<EntryData>>,
    next: Seq<EntryData>,
)
    ensures
        claude::all_sessions(seq![]).len() == 0,
        claude::all_sessions(projects.push(next)) == claude::all_sessions(projects)
            + claude::sessions_of(next),
{
    assert(projects.push(next).drop_last() =~= projects);
}

/// The memories of a project directory hang on the session in it that was touched last.
pub proof fn law_memories_hang_on_the_newest(refs: Seq<FileRefData>, slug: Seq<char>)
    ensures
        refs.len() == 0 <==> claude::anchor_of(refs, slug) is None,
        claude::anchor_of(refs, slug) matches Some(key) ==> exists|i: int|
            0 <= i < refs.len() && key == slug + ":"@ + (#[trigger] refs[i]).native_id && forall|
                j: int,
            |
                0 <= j < refs.len() ==> (#[trigger] refs[j]).mtime_ms <= refs[i].mtime_ms,
{
    claude::law_newest_is_newest(refs);
    if let Some(i) = claude::newest(refs) {
        assert forall|j: int| 0 <= j < refs.len() implies (#[trigger] refs[j]).mtime_ms
            <= refs[i].mtime_ms by {
            law_the_newest_was_touched_last(refs, i, j);
        }
        assert(claude::anchor_of(refs, slug) == Some(slug + ":"@ + refs[i].native_id));
    }
}

/// The side chains of a session are kept below a directory that stands beside its file and is named
/// after its id.
pub proof fn law_side_chains_are_kept_beside_their_session(
    dir: Seq<char>,
    file: Seq<char>,
    id: Seq<char>,
    windows: bool,
)
    requires
        paths::is_steady(dir, windows),
        paths::is_name(file, windows),
        paths::is_name(id, windows),
    ensures
        paths::components(
            claude::subagents_path(paths::joined(dir, file, windows), id, windows),
            windows,
        ) == paths::components(dir, windows).push(id).push("subagents"@),
{
    reveal_strlit("subagents");
    let sub = "subagents"@;
    assert(sub =~= seq!['s', 'u', 'b', 'a', 'g', 'e', 'n', 't', 's']);
    assert(paths::is_name(sub, windows));
    let s = paths::joined(dir, file, windows);
    paths::law_join_adds_a_component(dir, file, windows);
    paths::law_parent_undoes_join(dir, file, windows);
    let p = paths::parent_of(s, windows)->0;
    paths::law_parent_begins_the_path(s, windows);
    assert(paths::is_steady(p, windows));
    let own = paths::joined(p, id, windows);
    paths::law_join_adds_a_component(p, id, windows);
    paths::law_join_adds_a_component(own, sub, windows);
}

/// Whether a line gives the session a title: a title row whose text is not blank.
pub open spec fn gives_title(line: LineData) -> bool {
    line matches LineData::Row(row) && row.str_field("type"@) == Some("custom-title"@) && (
    row.str_field("customTitle"@) matches Some(t) && !text::is_blank(t))
}

proof fn lemma_title_stays(s: ReaderData, line: LineData, include_sidechain: bool)
    requires
        !gives_title(line),
    ensures
        claude_jsonl::line_step(s, line, include_sidechain).custom_title == s.custom_title,
{
    reveal_strlit("");
    reveal_strlit("custom-title");
    assert(""@.len() == 0 && "custom-title"@.len() == 12);
}

/// From the file to the index: the last title row of a file that is not blank gives the session its
/// title, without the white space around it; where there is none, the title is not a given one.
pub proof fn law_the_last_given_title_is_in_the_index(
    lines: Seq<LineData>,
    include_sidechain: bool,
    k: int,
    row: JsonData,
    r: FileRefData,
    stamps: Seq<i64>,
    contents: Seq<ContentData>,
    project_name: Seq<char>,
    slug: Seq<char>,
)
    requires
        -1 <= k < lines.len(),
        k >= 0 ==> lines[k] == LineData::Row(row) && gives_title(lines[k]),
        forall|j: int| k < j < lines.len() ==> !gives_title(#[trigger] lines[j]),
    ensures
        ({
            let d = claude_jsonl::draft_of(claude_jsonl::read_lines(lines, include_sidechain));
            let parsed = claude_transcript::finished_parse(d, stamps, contents);
            let meta = claude::meta_of(r, parsed, project_name, slug);
            &&& k >= 0 ==> meta.title == text::trimmed(row.str_field("customTitle"@)->0)
            &&& k < 0 ==> d.custom_title.len() == 0
        }),
{
    lemma_given_title(lines, include_sidechain, k, row);
    if k >= 0 {
        text::law_blank_texts_trim_to_nothing(row.str_field("customTitle"@)->0);
    }
}

proof fn lemma_given_title(lines: Seq<LineData>, include_sidechain: bool, k: int, row: JsonData)
    requires
        -1 <= k < lines.len(),
        k >= 0 ==> lines[k] == LineData::Row(row) && gives_title(lines[k]),
        forall|j: int| k < j < lines.len() ==> !gives_title(#[trigger] lines[j]),
    ensures
        k >= 0 ==> claude_jsonl::read_lines(lines, include_sidechain).custom_title == text::trimmed(
            row.str_field("customTitle"@)->0,
        ),
        k < 0 ==> claude_jsonl::read_lines(lines, include_sidechain).custom_title.len() == 0,
    decreases lines.len(),
{
    if lines.len() > 0 && k < lines.len() - 1 {
        let less = lines.drop_last();
        assert(!gives_title(lines[lines.len() - 1]));
        assert forall|j: int| k < j < less.len() implies !gives_title(#[trigger] less[j]) by {
            assert(!gives_title(lines[j]));
        }
        lemma_given_title(less, include_sidechain, k, row);
        lemma_title_stays(
            claude_jsonl::read_lines(less, include_sidechain),
            lines.last(),
            include_sidechain,
        );
    }
}

/// What the agent calls its things follows from what it is called: its directory is hidden and has
/// that name, its instructions have it in capitals, and its keys begin with it.
pub proof fn law_names_follow_from_the_word(word: Seq<char>)
    ensures
        ({
            let n = claude::names_of(word);
            &&& n.data_dir == seq!['.'] + word
            &&& n.instructions == text::upper(word) + seq!['.', 'm', 'd']
            &&& n.slug == word + seq!['-', 'c', 'o', 'd', 'e']
        }),
{
    reveal_strlit(".");
    reveal_strlit(".md");
    reveal_strlit("-code");
    assert("."@ =~= seq!['.']);
    assert(".md"@ =~= seq!['.', 'm', 'd']);
    assert("-code"@ =~= seq!['-', 'c', 'o', 'd', 'e']);
}

/// Memories are looked for where the sessions are kept, a tree with a directory per project; and
/// where there is a home, in the file in it that holds the user's instructions. A bare projects
/// directory has no other place.
pub proof fn law_memories_are_looked_for_in_two_places(a: AdapterData)
    ensures
        ({
            let all = claude::sources_of(a);
            &&& all[0].kind == MemorySourceKind::ProjectTree && all[0].path == a.root
            &&& all.len() == (if a.home is Some {
                2int
            } else {
                1int
            })
            &&& a.home matches Some(home) ==> {
                &&& all[1].kind == MemorySourceKind::File
                &&& all[1].path == paths::joined(home, a.names.instructions, a.windows)
            }
            &&& forall|i: int|
                0 <= i < all.len() ==> (#[trigger] all[i]).agent == AgentId::ClaudeCode
        }),
{
}

/// The first answer to where a session directory leads stays the answer, also that it leads nowhere;
/// what is found for one directory makes no difference to another.
pub proof fn law_the_first_answer_stays(
    decoded: Map<Seq<char>, Option<Seq<char>>>,
    name: Seq<char>,
    first: Option<Seq<char>>,
    later: Option<Seq<char>>,
    other: Seq<char>,
)
    requires
        !decoded.contains_key(name),
        other != name,
    ensures
        ({
            let answer = claude::answer_for(decoded, name, first);
            let after = decoded.insert(name, answer);
            &&& answer == first
            &&& claude::answer_for(after, name, later) == first
            &&& claude::answer_for(after, other, later) == claude::answer_for(decoded, other, later)
        }),
{
}

/// The memories of a project directory hang on its newest session where it has one, and then on
/// nothing else; a directory without sessions hangs on the project that was found, but never where
/// the sessions were written on another machine.
pub proof fn law_memories_hang_on_a_session_or_a_project(
    key: Seq<char>,
    found: Option<Seq<char>>,
    path: Seq<char>,
    local: bool,
)
    ensures
        claude::unit_of(Some(key), found, local).0 == key,
        key.len() > 0 ==> claude::unit_of(Some(key), found, local).1.len() == 0,
        claude::unit_of(None, found, local).0.len() == 0,
        claude::unit_of(None, found, false).1.len() == 0,
        claude::unit_of(None, Some(path), true).1 == path,
        claude::unit_of(None, None, local).1.len() == 0,
{
}

/// What lies in the directory of side chains or of memories is no session, wherever that is; any
/// other path may be one.
pub proof fn law_side_chains_and_memories_are_no_sessions(
    before: Seq<char>,
    behind: Seq<char>,
    path: Seq<char>,
)
    ensures
        !claude::is_session_path(before + "/subagents/"@ + behind),
        !claude::is_session_path(before + "/memory/"@ + behind),
        claude::is_session_path(path) || text::occurs_in(path, "/subagents/"@) || text::occurs_in(
            path,
            "/memory/"@,
        ),
{
    let at = before.len() as int;
    let (a, b) = ("/subagents/"@, "/memory/"@);
    let (x, y) = (before + a + behind, before + b + behind);
    assert(x.subrange(at, at + a.len()) =~= a);
    assert(text::occurs_at(x, a, at));
    assert(y.subrange(at, at + b.len()) =~= b);
    assert(text::occurs_at(y, b, at));
}

/// What is deleted with a session: its own file, always; and beside it the directory that is named
/// after it, if that is one. Nothing else is.
pub proof fn law_only_the_session_is_deleted(
    dir: Seq<char>,
    file: Seq<char>,
    id: Seq<char>,
    sidecar_is_dir: bool,
    windows: bool,
)
    requires
        paths::is_steady(dir, windows),
        paths::is_name(file, windows),
        paths::is_name(id, windows),
    ensures
        ({
            let path = paths::joined(dir, file, windows);
            let gone = claude::paths_of_session(path, id, sidecar_is_dir, windows);
            &&& gone[0] == path
            &&& sidecar_is_dir ==> gone.len() == 2 && paths::components(gone[1], windows)
                == paths::components(dir, windows).push(id)
            &&& !sidecar_is_dir ==> gone.len() == 1
        }),
{
    let s = paths::joined(dir, file, windows);
    paths::law_join_adds_a_component(dir, file, windows);
    paths::law_parent_undoes_join(dir, file, windows);
    paths::law_parent_begins_the_path(s, windows);
    let p = paths::parent_of(s, windows)->0;
    assert(paths::is_steady(p, windows));
    paths::law_join_adds_a_component(p, id, windows);
}

/// This machine's own sessions lie below the agent's directory in the user's home, and only their
/// projects are looked for on disk.
pub proof fn law_own_sessions_are_local(home: Seq<char>, names: NamesData, windows: bool)
    requires
        paths::is_steady(home, windows),
        paths::is_name(names.data_dir, windows),
    ensures
        ({
            let a = claude::own_adapter(Some(home), names, windows);
            let h = paths::components(home, windows);
            &&& a.local
            &&& paths::components(a.root, windows) == h.push(names.data_dir).push("projects"@)
            &&& a.home matches Some(dir) && paths::components(dir, windows) == h.push(names.data_dir)
            &&& a.names == names
            &&& a.windows == windows
            &&& a.decoded == Map::<Seq<char>, Option<Seq<char>>>::empty()
        }),
{
    reveal_strlit("projects");
    let sub = "projects"@;
    assert(sub =~= seq!['p', 'r', 'o', 'j', 'e', 'c', 't', 's']);
    assert(paths::is_name(sub, windows));
    paths::law_join_adds_a_component(home, names.data_dir, windows);
    paths::law_join_adds_a_component(
        paths::joined(home, names.data_dir, windows),
        sub,
        windows,
    );
}

/// A directory that the user picks is the agent's directory if it holds the projects, and the
/// projects directory itself if not: then it has no home, and what lies above it is left alone.
/// Either way its sessions may be from another machine, and are not looked for on this one's disk.
pub proof fn law_picked_directories_are_not_local(
    dir: Seq<char>,
    names: NamesData,
    windows: bool,
)
    ensures
        ({
            let (a, b) = (
                claude::picked_adapter(dir, true, names, windows),
                claude::picked_adapter(dir, false, names, windows),
            );
            &&& a.root == paths::joined(dir, "projects"@, windows)
            &&& a.home == Some(dir)
            &&& b.root == dir
            &&& b.home is None
            &&& !a.local && !b.local
            &&& a.names == names && b.names == names
            &&& a.windows == windows && b.windows == windows
            &&& a.decoded == Map::<Seq<char>, Option<Seq<char>>>::empty() && b.decoded == a.decoded
        }),
{
}

}
