//! Who may write the index: one running app at a time.
use crate::text;
use crate::text::{concat3, decimal_of, same_text};
use crate::ui::{filled2, Words, WordsData};
use vstd::prelude::*;
use vstd::string::StringExecFns;

verus! {

/// How long the lock is waited for, in seconds.
pub const WAIT_SECS: u64 = 60;

/// How long to sleep before the next try, in milliseconds.
pub const RETRY_MS: u64 = 10;

/// The lock that this app took last, by its number: what all takes of one process remember. It is
/// no hold on the lock, which is let go with the last part of the app that has a share in it.
pub struct LockSlot {
    latest: Option<u64>,
}

impl View for LockSlot {
    type V = Option<u64>;

    closed spec fn view(&self) -> Option<u64> {
        self.latest
    }
}

impl LockSlot {
    /// Nothing was taken yet.
    pub fn new() -> (r: LockSlot)
        ensures
            r@ is None,
    {
        LockSlot { latest: None }
    }
}

/// What has come up while a lock is taken. A holder is named by its kind and its process.
pub enum TakeEvent {
    /// The lock is wanted; `live` tells whether some part of this app still has a share in the one
    /// that was taken last.
    Wanted { live: bool },
    /// The lock is free, and now taken.
    Ours,
    /// Another app holds it.
    HeldByApp(String),
    /// Something else has held it all the time.
    TimedOut(String),
    /// There is no lock to be had here.
    Failed(String),
}

/// What to do next. A lock is named by its number.
pub enum TakeStep {
    /// Share the lock that this app holds.
    Share(u64),
    /// Try to get the lock.
    Try,
    /// Keep the lock that is now taken, under this number.
    Keep(u64),
    /// Sleep [`RETRY_MS`], and try again.
    Retry,
    /// Show this to the user, and leave.
    Refuse(Words),
    /// Write this to the log, and go on without a lock.
    GoWithout(String),
}

/// What a [`TakeStep`] holds.
pub enum StepData {
    Share(u64),
    Try,
    Keep(u64),
    Retry,
    Refuse(WordsData),
    GoWithout(Seq<char>),
}

impl DeepView for TakeStep {
    type V = StepData;

    open spec fn deep_view(&self) -> StepData {
        match self {
            TakeStep::Share(n) => StepData::Share(*n),
            TakeStep::Try => StepData::Try,
            TakeStep::Keep(n) => StepData::Keep(*n),
            TakeStep::Retry => StepData::Retry,
            TakeStep::Refuse(w) => StepData::Refuse(w.deep_view()),
            TakeStep::GoWithout(line) => StepData::GoWithout(line@),
        }
    }
}

/// What to do next on the way to the lock of the index `db`, for the app that goes by the name `me`.
pub open spec fn step_of(
    slot: Option<u64>,
    db: Seq<char>,
    me: Seq<char>,
    event: TakeEvent,
    before_deadline: bool,
) -> StepData {
    match event {
        TakeEvent::Wanted { live } => wanted(slot, live).deep_view(),
        TakeEvent::Ours => StepData::Keep(next_number(slot)),
        TakeEvent::HeldByApp(holder) => if holder@ == me && before_deadline {
            StepData::Retry
        } else {
            StepData::Refuse(refusal(db, holder@))
        },
        TakeEvent::TimedOut(holder) => StepData::Refuse(refusal(db, holder@)),
        TakeEvent::Failed(error) => StepData::GoWithout(lament(db, error@)),
    }
}

/// What is done where the lock is wanted: the lock taken last is shared if it is still live, else
/// there is a try to get it.
pub open spec fn wanted(slot: Option<u64>, live: bool) -> TakeStep {
    match slot {
        Some(n) if live => TakeStep::Share(n),
        _ => TakeStep::Try,
    }
}

/// The number that the next lock gets.
pub open spec fn next_number(slot: Option<u64>) -> u64 {
    match slot {
        Some(n) => n.wrapping_add(1),
        None => 0,
    }
}

/// What is remembered after an event: a lock that was taken, else what was remembered before.
pub open spec fn slot_after(slot: Option<u64>, event: TakeEvent) -> Option<u64> {
    if event is Ours {
        Some(next_number(slot))
    } else {
        slot
    }
}

/// What is remembered after some events.
pub open spec fn slot_after_all(slot: Option<u64>, events: Seq<TakeEvent>) -> Option<u64>
    decreases events.len(),
{
    if events.len() == 0 {
        slot
    } else {
        slot_after(slot_after_all(slot, events.drop_last()), events.last())
    }
}

/// What the user is told where another process holds the lock of `db`.
pub open spec fn refusal(db: Seq<char>, holder: Seq<char>) -> WordsData {
    WordsData::Filled {
        template: "Wake couldn't open its index at {}: another process is using it ({}). Wait for it to finish or quit it, then open Wake again.",
        args: seq![db, holder],
    }
}

/// What the log is told where there is no lock to be had.
pub open spec fn lament(db: Seq<char>, error: Seq<char>) -> Seq<char> {
    "wake: index lock unavailable at "@ + db + ": "@ + error + "; continuing without it"@
}

/// How this app is named as a holder.
pub open spec fn holder_name(kind: Seq<char>, pid: u32) -> Seq<char> {
    kind + " "@ + text::decimal(pid as nat)
}

/// How this app is named as a holder.
pub fn own_name(kind: &str, pid: u32) -> (r: String)
    ensures
        r@ == holder_name(kind@, pid),
{
    concat3(kind, " ", decimal_of(pid as u64).as_str())
}

/// What to do on the way to the lock of the index `db`. An app that seems to hold it but goes by the
/// name of this one is a part of this app that is just letting go: it is waited for, until the time
/// is up.
pub fn take(
    slot: &mut LockSlot,
    db: &str,
    me: &str,
    event: TakeEvent,
    before_deadline: bool,
) -> (r: TakeStep)
    ensures
        final(slot)@ == slot_after(old(slot)@, event),
        match event {
            TakeEvent::Wanted { live } => r == wanted(old(slot)@, live),
            TakeEvent::Ours => r == TakeStep::Keep(next_number(old(slot)@)),
            TakeEvent::HeldByApp(holder) => if holder@ == me@ && before_deadline {
                r is Retry
            } else {
                r matches TakeStep::Refuse(w) && w.deep_view() == refusal(db@, holder@)
            },
            TakeEvent::TimedOut(holder) => r matches TakeStep::Refuse(w) && w.deep_view()
                == refusal(db@, holder@),
            TakeEvent::Failed(error) => r matches TakeStep::GoWithout(t) && t@ == lament(
                db@,
                error@,
            ),
        },
        r.deep_view() == step_of(old(slot)@, db@, me@, event, before_deadline),
{
    match event {
        TakeEvent::Wanted { live } => match slot.latest {
            Some(n) => if live {
                TakeStep::Share(n)
            } else {
                TakeStep::Try
            },
            None => TakeStep::Try,
        },
        TakeEvent::Ours => {
            let number: u64 = match slot.latest {
                Some(n) => n.wrapping_add(1),
                None => 0,
            };
            slot.latest = Some(number);
            TakeStep::Keep(number)
        },
        TakeEvent::HeldByApp(holder) => if same_text(holder.as_str(), me) && before_deadline {
            TakeStep::Retry
        } else {
            refuse(db, holder.as_str())
        },
        TakeEvent::TimedOut(holder) => refuse(db, holder.as_str()),
        TakeEvent::Failed(error) => {
            let mut line = concat3("wake: index lock unavailable at ", db, ": ");
            line.append(error.as_str());
            line.append("; continuing without it");
            TakeStep::GoWithout(line)
        },
    }
}

fn refuse(db: &str, holder: &str) -> (r: TakeStep)
    ensures
        r matches TakeStep::Refuse(w) && w.deep_view() == refusal(db@, holder@),
{
    TakeStep::Refuse(
        filled2(
            "Wake couldn't open its index at {}: another process is using it ({}). Wait for it to finish or quit it, then open Wake again.",
            db,
            holder,
        ),
    )
}

/// Two apps with different process numbers never go by one name.
pub proof fn law_names_tell_apps_apart(kind: Seq<char>, p: u32, q: u32)
    requires
        holder_name(kind, p) == holder_name(kind, q),
    ensures
        p == q,
{
    let head = kind + " "@;
    let (a, b) = (text::decimal(p as nat), text::decimal(q as nat));
    assert(a =~= holder_name(kind, p).skip(head.len() as int));
    assert(b =~= holder_name(kind, q).skip(head.len() as int));
    text::law_decimal_tells_numbers_apart(p as nat, q as nat);
}

/// One live lock is shared: whatever came up since a lock was taken, as long as no other was taken,
/// whoever wants the lock gets a share in that very one, without a try.
pub proof fn law_a_live_lock_is_shared(slot: Option<u64>, since: Seq<TakeEvent>)
    requires
        forall|i: int| 0 <= i < since.len() ==> !((#[trigger] since[i]) is Ours),
    ensures
        ({
            let taken = slot_after(slot, TakeEvent::Ours);
            wanted(slot_after_all(taken, since), true) == TakeStep::Share(next_number(slot))
        }),
    decreases since.len(),
{
    if since.len() > 0 {
        assert(!(since[since.len() - 1] is Ours));
        law_a_live_lock_is_shared(slot, since.drop_last());
    }
}

/// A lock that nothing has a share in any more is tried for anew, and what is got then is shared
/// from then on in its place.
pub proof fn law_a_dropped_lock_is_tried_for_anew(slot: Option<u64>)
    ensures
        wanted(slot, false) is Try,
        wanted(None, true) is Try,
        wanted(slot_after(slot, TakeEvent::Ours), true) == TakeStep::Share(next_number(slot)),
        slot matches Some(n) ==> next_number(slot) != n,
{
}

/// A refusal names the index and who holds it, and the log is told of the index and the error.
pub proof fn law_words_name_the_index(db: Seq<char>, other: Seq<char>)
    ensures
        refusal(db, other) matches WordsData::Filled { template, args } && args == seq![db, other],
        text::occurs_in(lament(db, other), db),
        text::occurs_in(lament(db, other), other),
{
    let line = lament(db, other);
    let head = "wake: index lock unavailable at "@;
    let mid = ": "@;
    let (i, j) = (head.len() as int, (head + db + mid).len() as int);
    assert(line.subrange(i, i + db.len()) =~= db);
    assert(text::occurs_at(line, db, i));
    assert(line.subrange(j, j + other.len()) =~= other);
    assert(text::occurs_at(line, other, j));
}

/// Who holds the lock decides: another app, and whatever has held it too long, is a reason to leave,
/// and the user is told who it is; only this app's own name is waited for, and only until the time is
/// up. Where there is no lock to be had, the app goes on and says so.
pub proof fn law_another_holder_is_a_reason_to_leave(
    slot: Option<u64>,
    db: Seq<char>,
    me: Seq<char>,
    event: TakeEvent,
    before_deadline: bool,
)
    ensures
        ({
            let step = step_of(slot, db, me, event, before_deadline);
            &&& step is Retry <==> before_deadline && (event matches TakeEvent::HeldByApp(h) && h@
                == me)
            &&& event matches TakeEvent::HeldByApp(h) ==> (h@ != me || !before_deadline) ==> step
                == StepData::Refuse(refusal(db, h@))
            &&& event matches TakeEvent::TimedOut(h) ==> step == StepData::Refuse(refusal(db, h@))
            &&& step is GoWithout <==> event is Failed
            &&& step is Keep <==> event is Ours
            &&& event is Ours ==> Some(step->Keep_0) == slot_after(slot, event)
            &&& step is Share || step is Try <==> event is Wanted
        }),
{
}

}
