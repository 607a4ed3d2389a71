//! Finding the project that a session directory is named after.
//!
//! The directory name is the project path with every character that is no ASCII letter or digit
//! replaced by `-`, so the path can only be found again on disk: from the root down, a directory
//! listing at a time, the entries whose encoded name begins what is left of the directory name are
//! tried, the longest first. [`ProjectDecoder`] says which directory to list next.
use crate::order;
use crate::order::{sort_ranked, text_before_or_same, Ranked};
use crate::text::chars_of;
use vstd::prelude::*;

verus! {

/// Whether a character keeps its shape in a directory name.
pub open spec fn is_kept(c: char) -> bool {
    ||| '0' <= c && c <= '9'
    ||| 'A' <= c && c <= 'Z'
    ||| 'a' <= c && c <= 'z'
}

/// A text as it stands in a directory name.
pub open spec fn encoded(s: Seq<char>) -> Seq<char> {
    Seq::new(s.len(), |i: int| if is_kept(s[i]) { s[i] } else { '-' })
}

/// A text as it stands in a directory name.
pub fn encode(raw: &str) -> (r: String)
    ensures
        r@ == encoded(raw@),
{
    let mut out = String::new();
    for c in it: raw.chars()
        invariant
            it.seq() == raw@,
            out@ == encoded(raw@).take(it.index() as int),
    {
        let kept = ('0' <= c && c <= '9') || ('A' <= c && c <= 'Z') || ('a' <= c && c <= 'z');
        out.push(if kept { c } else { '-' });
        assert(encoded(raw@).take(it.index() as int + 1) =~= encoded(raw@).take(
            it.index() as int,
        ).push(if is_kept(c) { c } else { '-' }));
    }
    assert(encoded(raw@).take(raw@.len() as int) =~= encoded(raw@));
    out
}

/// An entry of a directory.
pub struct DirEntry {
    pub name: String,
    pub path: String,
    pub is_dir: bool,
}

/// Whether an encoded name begins `rest` and ends where a component of it may end.
pub open spec fn begins(name: Seq<char>, rest: Seq<char>) -> bool {
    &&& name.len() > 0
    &&& name.is_prefix_of(rest)
    &&& name.len() == rest.len() || rest[name.len() as int] == '-'
}

/// What is left of `rest` behind an encoded name that begins it, and behind one `-`.
pub open spec fn behind(name: Seq<char>, rest: Seq<char>) -> Seq<char> {
    let next = rest.skip(name.len() as int);
    if next.len() > 0 && next[0] == '-' {
        next.drop_first()
    } else {
        next
    }
}

/// Whether an entry may be the next directory on the way.
pub open spec fn fits(e: DirEntry, rest: Seq<char>) -> bool {
    e.is_dir && begins(encoded(e.name@), rest)
}

impl Ranked for DirEntry {
    /// Longer encoded names come first, and those of one length in dictionary order.
    open spec fn rank_le(&self, other: &Self) -> bool {
        let (a, b) = (encoded(self.name@), encoded(other.name@));
        a.len() > b.len() || (a.len() == b.len() && order::text_le(a, b))
    }

    proof fn lemma_rank_total(a: &Self, b: &Self) {
        order::lemma_text_le_total(encoded(a.name@), encoded(b.name@));
    }

    proof fn lemma_rank_trans(a: &Self, b: &Self, c: &Self) {
        let (x, y, z) = (encoded(a.name@), encoded(b.name@), encoded(c.name@));
        if x.len() == y.len() && y.len() == z.len() {
            order::lemma_text_le_trans(x, y, z);
        }
    }

    fn may_precede(&self, other: &Self) -> (r: bool) {
        let a = encode(self.name.as_str());
        let b = encode(other.name.as_str());
        let m: usize = chars_of(a.as_str()).len();
        let n: usize = chars_of(b.as_str()).len();
        m > n || (m == n && text_before_or_same(a.as_str(), b.as_str()))
    }
}

/// The entries that may come next, in the order in which they are tried.
pub open spec fn candidates(entries: Seq<DirEntry>, rest: Seq<char>) -> Seq<DirEntry> {
    order::ranked(entries.filter(|e: DirEntry| fits(e, rest)))
}

/// The directory that `rest` leads to from `dir`, on a disk whose directories hold what `fs` says
/// (`None` for one that cannot be listed).
pub open spec fn walk(
    fs: spec_fn(Seq<char>) -> Option<Seq<DirEntry>>,
    dir: Seq<char>,
    rest: Seq<char>,
) -> Option<Seq<char>>
    decreases rest.len(), 1int, 0int,
{
    if rest.len() == 0 {
        Some(dir)
    } else {
        match fs(dir) {
            None => None,
            Some(entries) => first_hit(fs, candidates(entries, rest), rest, 0),
        }
    }
}

/// The directory that the first candidate from index `i` on that leads anywhere leads to.
pub open spec fn first_hit(
    fs: spec_fn(Seq<char>) -> Option<Seq<DirEntry>>,
    found: Seq<DirEntry>,
    rest: Seq<char>,
    i: int,
) -> Option<Seq<char>>
    decreases rest.len(), 0int, found.len() - i,
{
    if i < 0 || i >= found.len() {
        None
    } else {
        let next = behind(encoded(found[i].name@), rest);
        if next.len() >= rest.len() {
            first_hit(fs, found, rest, i + 1)
        } else {
            match walk(fs, found[i].path@, next) {
                Some(hit) => Some(hit),
                None => first_hit(fs, found, rest, i + 1),
            }
        }
    }
}

/// The project that a session directory called `name` belongs to. Only names of absolute POSIX
/// paths are read.
pub open spec fn decoded(
    fs: spec_fn(Seq<char>) -> Option<Seq<DirEntry>>,
    name: Seq<char>,
) -> Option<Seq<char>> {
    if name.len() > 1 && name[0] == '-' {
        walk(fs, "/"@, name.drop_first())
    } else {
        None
    }
}

/// A directory still to be tried, and what of the name is left for it.
pub struct Frame {
    pub dir: String,
    pub rest: Vec<char>,
}

impl DeepView for Frame {
    type V = (Seq<char>, Seq<char>);

    open spec fn deep_view(&self) -> (Seq<char>, Seq<char>) {
        (self.dir@, self.rest@)
    }
}

/// Where the search comes out when `stack` is still to be tried, the last first.
pub open spec fn outcome(
    fs: spec_fn(Seq<char>) -> Option<Seq<DirEntry>>,
    stack: Seq<(Seq<char>, Seq<char>)>,
) -> Option<Seq<char>>
    decreases stack.len(),
{
    if stack.len() == 0 {
        None
    } else {
        match walk(fs, stack.last().0, stack.last().1) {
            Some(hit) => Some(hit),
            None => outcome(fs, stack.drop_last()),
        }
    }
}

/// How many directories are listed to try everything that `rest` may lead to from `dir`.
pub open spec fn listings(
    fs: spec_fn(Seq<char>) -> Option<Seq<DirEntry>>,
    dir: Seq<char>,
    rest: Seq<char>,
) -> nat
    decreases rest.len(), 1int, 0int,
{
    if rest.len() == 0 {
        0
    } else {
        match fs(dir) {
            None => 1,
            Some(entries) => 1 + listings_from(fs, candidates(entries, rest), rest, 0),
        }
    }
}

/// How many directories are listed to try every candidate from index `i` on.
pub open spec fn listings_from(
    fs: spec_fn(Seq<char>) -> Option<Seq<DirEntry>>,
    found: Seq<DirEntry>,
    rest: Seq<char>,
    i: int,
) -> nat
    decreases rest.len(), 0int, found.len() - i,
{
    if i < 0 || i >= found.len() {
        0
    } else {
        let next = behind(encoded(found[i].name@), rest);
        listings_from(fs, found, rest, i + 1) + if next.len() < rest.len() {
            listings(fs, found[i].path@, next)
        } else {
            0
        }
    }
}

/// How many directories are listed to try everything on `stack`.
pub open spec fn listings_left(
    fs: spec_fn(Seq<char>) -> Option<Seq<DirEntry>>,
    stack: Seq<(Seq<char>, Seq<char>)>,
) -> nat
    decreases stack.len(),
{
    if stack.len() == 0 {
        0
    } else {
        listings_left(fs, stack.drop_last()) + listings(fs, stack.last().0, stack.last().1)
    }
}

/// What a search needs next.
pub enum DecodeAsk {
    /// The search is over: this is the project.
    Found(String),
    /// The entries of this directory.
    List(String),
    /// The search is over: no directory on disk has that name.
    NotFound,
}

/// The search for the project of a session directory.
pub struct ProjectDecoder {
    stack: Vec<Frame>,
}

impl View for ProjectDecoder {
    type V = Seq<(Seq<char>, Seq<char>)>;

    closed spec fn view(&self) -> Seq<(Seq<char>, Seq<char>)> {
        self.stack.deep_view()
    }
}

/// The directory whose entries a search needs next, where it is not over.
pub open spec fn wanted(stack: Seq<(Seq<char>, Seq<char>)>) -> Option<Seq<char>> {
    if stack.len() > 0 && stack.last().1.len() > 0 {
        Some(stack.last().0)
    } else {
        None
    }
}

impl ProjectDecoder {
    /// What the search needs next.
    pub fn ask(&self) -> (r: DecodeAsk)
        ensures
            match r {
                DecodeAsk::Found(dir) => wanted(self@) is None && forall|
                    fs: spec_fn(Seq<char>) -> Option<Seq<DirEntry>>,
                | #[trigger] outcome(fs, self@) == Some(dir@),
                DecodeAsk::List(dir) => wanted(self@) == Some(dir@),
                DecodeAsk::NotFound => wanted(self@) is None && forall|
                    fs: spec_fn(Seq<char>) -> Option<Seq<DirEntry>>,
                | #[trigger] outcome(fs, self@) is None,
            },
    {
        let n: usize = self.stack.len();
        if n == 0 {
            return DecodeAsk::NotFound;
        }
        let top = &self.stack[n - 1];
        assert(self@.last() == top.deep_view());
        if top.rest.len() == 0 {
            DecodeAsk::Found(top.dir.clone())
        } else {
            DecodeAsk::List(top.dir.clone())
        }
    }

    /// Goes on with the entries of the directory asked for, `None` where it cannot be listed. On
    /// every disk on which that directory holds these entries, the search comes out as before, and
    /// it is one listing nearer to its end.
    pub fn listed(&mut self, entries: Option<Vec<DirEntry>>)
        requires
            wanted(old(self)@) is Some,
        ensures
            forall|fs: spec_fn(Seq<char>) -> Option<Seq<DirEntry>>|
                fs(wanted(old(self)@)->0) == (match entries {
                    Some(v) => Some(v@),
                    None => None,
                }) ==> #[trigger] outcome(fs, final(self)@) == outcome(fs, old(self)@),
            forall|fs: spec_fn(Seq<char>) -> Option<Seq<DirEntry>>|
                fs(wanted(old(self)@)->0) == (match entries {
                    Some(v) => Some(v@),
                    None => None,
                }) ==> #[trigger] listings_left(fs, final(self)@) + 1 == listings_left(
                    fs,
                    old(self)@,
                ),
    {
        let ghost before = self@;
        let popped = self.stack.pop();
        if let Some(top) = popped {
            assert(before.last() == top.deep_view());
            assert(self@ =~= before.drop_last());
            if let Some(entries) = entries {
                self.descend(&top.rest, entries);
                proof {
                    assert forall|fs: spec_fn(Seq<char>) -> Option<Seq<DirEntry>>|
                        fs(wanted(before)->0) == Some(entries@) implies #[trigger] outcome(
                        fs,
                        self@,
                    ) == outcome(fs, before) by {
                        assert(outcome(fs, self@) == (match first_hit(
                            fs,
                            candidates(entries@, top.rest@),
                            top.rest@,
                            0,
                        ) {
                            Some(hit) => Some(hit),
                            None => outcome(fs, before.drop_last()),
                        }));
                    }
                    assert forall|fs: spec_fn(Seq<char>) -> Option<Seq<DirEntry>>|
                        fs(wanted(before)->0) == Some(entries@) implies #[trigger] listings_left(
                        fs,
                        self@,
                    ) + 1 == listings_left(fs, before) by {
                        assert(listings_left(fs, self@) == listings_left(fs, before.drop_last())
                            + listings_from(fs, candidates(entries@, top.rest@), top.rest@, 0));
                    }
                }
            }
        }
    }

    /// Puts the entries that may come next on the stack, the first to be tried on top.
    fn descend(&mut self, rest: &Vec<char>, entries: Vec<DirEntry>)
        ensures
            forall|fs: spec_fn(Seq<char>) -> Option<Seq<DirEntry>>|
                #[trigger] outcome(fs, final(self)@) == (match first_hit(
                    fs,
                    candidates(entries@, rest@),
                    rest@,
                    0,
                ) {
                    Some(hit) => Some(hit),
                    None => outcome(fs, old(self)@),
                }),
            forall|fs: spec_fn(Seq<char>) -> Option<Seq<DirEntry>>|
                #[trigger] listings_left(fs, final(self)@) == listings_left(fs, old(self)@)
                    + listings_from(fs, candidates(entries@, rest@), rest@, 0),
    {
        let ghost before = self@;
        let found = fitting(entries, rest);
        let sorted = sort_ranked(found);
        let ghost all = candidates(entries@, rest@);
        proof {
            lemma_candidates(entries@, rest@);
        }
        let mut i: usize = sorted.len();
        assert(forall|fs: spec_fn(Seq<char>) -> Option<Seq<DirEntry>>|
            first_hit(fs, all, rest@, i as int) is None);
        while i > 0
            invariant
                i <= sorted.len(),
                sorted@ == all,
                forall|k: int| 0 <= k < all.len() ==> fits(#[trigger] all[k], rest@),
                forall|fs: spec_fn(Seq<char>) -> Option<Seq<DirEntry>>|
                    #[trigger] outcome(fs, self@) == (match first_hit(
                        fs,
                        all,
                        rest@,
                        i as int,
                    ) {
                        Some(hit) => Some(hit),
                        None => outcome(fs, before),
                    }),
                forall|fs: spec_fn(Seq<char>) -> Option<Seq<DirEntry>>|
                    #[trigger] listings_left(fs, self@) == listings_left(fs, before)
                        + listings_from(fs, all, rest@, i as int),
            decreases i,
        {
            i = i - 1;
            let e = &sorted[i];
            let next = strip_name(rest, encode(e.name.as_str()).as_str());
            let ghost was = self@;
            self.stack.push(Frame { dir: e.path.clone(), rest: next });
            proof {
                assert(fits(all[i as int], rest@));
                assert(self@ =~= was.push((e.path@, next@)));
                assert(self@.drop_last() =~= was);
                assert(next@.len() < rest@.len());
                assert forall|fs: spec_fn(Seq<char>) -> Option<Seq<DirEntry>>|
                    #[trigger] outcome(fs, self@) == (match first_hit(fs, all, rest@, i as int) {
                        Some(hit) => Some(hit),
                        None => outcome(fs, before),
                    }) by {
                    assert(outcome(fs, was) == (match first_hit(fs, all, rest@, i + 1) {
                        Some(hit) => Some(hit),
                        None => outcome(fs, before),
                    }));
                }
                assert forall|fs: spec_fn(Seq<char>) -> Option<Seq<DirEntry>>|
                    #[trigger] listings_left(fs, self@) == listings_left(fs, before)
                        + listings_from(fs, all, rest@, i as int) by {
                    assert(listings_left(fs, was) == listings_left(fs, before) + listings_from(
                        fs,
                        all,
                        rest@,
                        i + 1,
                    ));
                }
            }
        }
    }
}

/// Begins the search for the project of the session directory called `name`.
pub fn decode_project_dir(name: &str) -> (r: ProjectDecoder)
    ensures
        forall|fs: spec_fn(Seq<char>) -> Option<Seq<DirEntry>>|
            #[trigger] outcome(fs, r@) == decoded(fs, name@),
{
    let chars = chars_of(name);
    let mut stack: Vec<Frame> = Vec::new();
    if chars.len() > 1 && chars[0] == '-' {
        let rest = tail_of(&chars, 1);
        stack.push(Frame { dir: "/".to_owned(), rest });
        proof {
            assert(rest@ =~= name@.drop_first());
            assert(stack.deep_view().drop_last() =~= seq![]);
            assert(stack.deep_view().last() == ("/"@, name@.drop_first()));
            assert forall|fs: spec_fn(Seq<char>) -> Option<Seq<DirEntry>>|
                #[trigger] outcome(fs, stack.deep_view()) == decoded(fs, name@) by {
                assert(outcome(fs, stack.deep_view().drop_last()) is None);
            }
        }
    }
    ProjectDecoder { stack }
}

fn tail_of(chars: &Vec<char>, from: usize) -> (r: Vec<char>)
    requires
        from <= chars@.len(),
    ensures
        r@ == chars@.skip(from as int),
{
    let mut out: Vec<char> = Vec::new();
    let mut i: usize = from;
    assert(out@ =~= chars@.subrange(from as int, from as int));
    while i < chars.len()
        invariant
            from <= i <= chars.len(),
            out@ == chars@.subrange(from as int, i as int),
        decreases chars.len() - i,
    {
        out.push(chars[i]);
        assert(out@ =~= chars@.subrange(from as int, i + 1));
        i = i + 1;
    }
    assert(out@ =~= chars@.skip(from as int));
    out
}

fn begins_rest(name: &Vec<char>, rest: &Vec<char>) -> (r: bool)
    ensures
        r == begins(name@, rest@),
{
    if name.len() == 0 || name.len() > rest.len() {
        return false;
    }
    let mut i: usize = 0;
    while i < name.len()
        invariant
            i <= name.len() <= rest.len(),
            forall|j: int| 0 <= j < i ==> name@[j] == rest@[j],
        decreases name.len() - i,
    {
        if name[i] != rest[i] {
            assert(name@[i as int] != rest@.subrange(0, name@.len() as int)[i as int]);
            return false;
        }
        i = i + 1;
    }
    assert(name@ =~= rest@.subrange(0, name@.len() as int));
    name.len() == rest.len() || rest[name.len()] == '-'
}

fn strip_name(rest: &Vec<char>, name: &str) -> (r: Vec<char>)
    requires
        name@.len() <= rest@.len(),
    ensures
        r@ == behind(name@, rest@),
{
    let n: usize = chars_of(name).len();
    if n < rest.len() && rest[n] == '-' {
        assert(rest@.skip(n as int).drop_first() =~= rest@.skip(n + 1));
        tail_of(rest, n + 1)
    } else {
        tail_of(rest, n)
    }
}

/// The entries that may come next, in the order of the listing.
fn fitting(entries: Vec<DirEntry>, rest: &Vec<char>) -> (r: Vec<DirEntry>)
    ensures
        r@ == entries@.filter(|e: DirEntry| fits(e, rest@)),
{
    let mut out: Vec<DirEntry> = Vec::new();
    let ghost all = entries@;
    let ghost keep = |e: DirEntry| fits(e, rest@);
    assert(all.take(0).filter(keep) =~= seq![]) by {
        reveal(Seq::filter);
    }
    for e in it: entries
        invariant
            it.seq() == all,
            keep == (|e: DirEntry| fits(e, rest@)),
            out@ == all.take(it.index() as int).filter(keep),
    {
        proof {
            let t = all.take(it.index() as int + 1);
            assert(t.drop_last() =~= all.take(it.index() as int));
            assert(t.last() == e);
            reveal(Seq::filter);
        }
        let name = chars_of(encode(e.name.as_str()).as_str());
        if e.is_dir && begins_rest(&name, rest) {
            out.push(e);
        }
    }
    assert(all.take(all.len() as int) =~= all);
    out
}

proof fn lemma_candidates(entries: Seq<DirEntry>, rest: Seq<char>)
    ensures
        forall|k: int|
            0 <= k < candidates(entries, rest).len() ==> fits(
                #[trigger] candidates(entries, rest)[k],
                rest,
            ) && entries.contains(candidates(entries, rest)[k]),
        forall|e: DirEntry|
            entries.contains(e) && fits(e, rest) ==> #[trigger] candidates(
                entries,
                rest,
            ).contains(e),
{
    broadcast use vstd::seq_lib::group_to_multiset_ensures;
    broadcast use vstd::seq_lib::group_filter_ensures;

    let keep = |e: DirEntry| fits(e, rest);
    let kept = entries.filter(keep);
    let found = candidates(entries, rest);
    order::lemma_ranked_sorts(kept);
    assert forall|k: int| 0 <= k < found.len() implies fits(#[trigger] found[k], rest)
        && entries.contains(found[k]) by {
        assert(found.contains(found[k]));
        assert(found.to_multiset().count(found[k]) > 0);
        assert(kept.contains(found[k]));
        let j = choose|j: int| 0 <= j < kept.len() && kept[j] == found[k];
        assert(keep(kept[j]));
        entries.lemma_filter_contains_rev(keep, found[k]);
    }
    assert forall|e: DirEntry| entries.contains(e) && fits(e, rest) implies
        #[trigger] found.contains(e) by {
        let j = choose|j: int| 0 <= j < entries.len() && entries[j] == e;
        assert(keep(entries[j]));
        assert(kept.contains(entries[j]));
        assert(kept.to_multiset().count(e) > 0);
    }
}

/// Whether `way` leads on disk from `dir` to `goal`: each step is a directory listed in the one
/// before it, and each takes its encoded name, and one `-` behind it, off what is left.
pub open spec fn leads(
    fs: spec_fn(Seq<char>) -> Option<Seq<DirEntry>>,
    dir: Seq<char>,
    rest: Seq<char>,
    way: Seq<DirEntry>,
    goal: Seq<char>,
) -> bool
    decreases way.len(),
{
    if way.len() == 0 {
        rest.len() == 0 && dir == goal
    } else {
        &&& rest.len() > 0
        &&& fs(dir) matches Some(entries) && entries.contains(way[0])
        &&& fits(way[0], rest)
        &&& leads(fs, way[0].path@, behind(encoded(way[0].name@), rest), way.drop_first(), goal)
    }
}

/// The encoded names of a way, with `-` between them.
pub open spec fn encoded_way(way: Seq<DirEntry>) -> Seq<char>
    decreases way.len(),
{
    if way.len() == 0 {
        seq![]
    } else if way.len() == 1 {
        encoded(way[0].name@)
    } else {
        encoded(way[0].name@) + seq!['-'] + encoded_way(way.drop_first())
    }
}

proof fn lemma_walk_leads(
    fs: spec_fn(Seq<char>) -> Option<Seq<DirEntry>>,
    dir: Seq<char>,
    rest: Seq<char>,
) -> (way: Seq<DirEntry>)
    requires
        walk(fs, dir, rest) is Some,
    ensures
        leads(fs, dir, rest, way, walk(fs, dir, rest)->0),
    decreases rest.len(), 1int, 0int,
{
    if rest.len() == 0 {
        seq![]
    } else {
        let entries = fs(dir)->0;
        lemma_candidates(entries, rest);
        lemma_hit_leads(fs, dir, rest, 0)
    }
}

proof fn lemma_hit_leads(
    fs: spec_fn(Seq<char>) -> Option<Seq<DirEntry>>,
    dir: Seq<char>,
    rest: Seq<char>,
    i: int,
) -> (way: Seq<DirEntry>)
    requires
        rest.len() > 0,
        fs(dir) is Some,
        0 <= i,
        first_hit(fs, candidates(fs(dir)->0, rest), rest, i) is Some,
        forall|k: int|
            0 <= k < candidates(fs(dir)->0, rest).len() ==> fits(
                #[trigger] candidates(fs(dir)->0, rest)[k],
                rest,
            ) && (fs(dir)->0).contains(candidates(fs(dir)->0, rest)[k]),
    ensures
        leads(fs, dir, rest, way, first_hit(fs, candidates(fs(dir)->0, rest), rest, i)->0),
    decreases rest.len(), 0int, candidates(fs(dir)->0, rest).len() - i,
{
    let found = candidates(fs(dir)->0, rest);
    let next = behind(encoded(found[i].name@), rest);
    if next.len() < rest.len() && walk(fs, found[i].path@, next) is Some {
        let tail = lemma_walk_leads(fs, found[i].path@, next);
        let way = seq![found[i]] + tail;
        assert(way.drop_first() =~= tail);
        assert(fits(found[i], rest));
        way
    } else {
        lemma_hit_leads(fs, dir, rest, i + 1)
    }
}

/// A project is only found where it is: there is a way to it on disk, and the directory name is
/// what the names on that way encode to, or that with one `-` more at the end.
pub proof fn law_found_projects_have_that_name(
    fs: spec_fn(Seq<char>) -> Option<Seq<DirEntry>>,
    name: Seq<char>,
) -> (way: Seq<DirEntry>)
    requires
        decoded(fs, name) is Some,
    ensures
        leads(fs, "/"@, name.drop_first(), way, decoded(fs, name)->0),
        name == seq!['-'] + encoded_way(way) || name == seq!['-'] + encoded_way(way) + seq!['-'],
{
    let rest = name.drop_first();
    let way = lemma_walk_leads(fs, "/"@, rest);
    lemma_way_encodes(fs, "/"@, rest, way, decoded(fs, name)->0);
    assert(name =~= seq!['-'] + rest);
    assert(seq!['-'] + (encoded_way(way) + seq!['-']) =~= seq!['-'] + encoded_way(way) + seq!['-']);
    way
}

proof fn lemma_way_encodes(
    fs: spec_fn(Seq<char>) -> Option<Seq<DirEntry>>,
    dir: Seq<char>,
    rest: Seq<char>,
    way: Seq<DirEntry>,
    goal: Seq<char>,
)
    requires
        leads(fs, dir, rest, way, goal),
    ensures
        rest == encoded_way(way) || (way.len() > 0 && rest == encoded_way(way) + seq!['-']),
    decreases way.len(),
{
    if way.len() == 0 {
        assert(rest =~= seq![]);
    } else {
        let head = encoded(way[0].name@);
        let next = behind(head, rest);
        let tail = way.drop_first();
        lemma_way_encodes(fs, way[0].path@, next, tail, goal);
        assert(head =~= rest.take(head.len() as int)) by {
            assert(head == rest.subrange(0, head.len() as int));
        }
        let cut = rest.skip(head.len() as int);
        assert(rest =~= head + cut);
        if cut.len() > 0 {
            assert(cut[0] == rest[head.len() as int]);
            assert(cut =~= seq!['-'] + next);
        }
        if tail.len() == 0 {
            assert(encoded_way(tail) =~= seq![]);
            assert(next =~= seq![]);
            if cut.len() > 0 {
                assert(rest =~= head + seq!['-']);
            } else {
                assert(rest =~= head);
            }
        } else {
            assert(leads(fs, way[0].path@, next, tail, goal));
            assert(head + seq!['-'] + (encoded_way(tail) + seq!['-']) =~= head + seq!['-']
                + encoded_way(tail) + seq!['-']);
            assert(rest =~= head + seq!['-'] + next);
        }
    }
}

/// Whatever has a way to it is found, or something else that has one.
pub proof fn law_what_is_there_is_found(
    fs: spec_fn(Seq<char>) -> Option<Seq<DirEntry>>,
    dir: Seq<char>,
    rest: Seq<char>,
    way: Seq<DirEntry>,
    goal: Seq<char>,
)
    requires
        leads(fs, dir, rest, way, goal),
    ensures
        walk(fs, dir, rest) is Some,
    decreases way.len(),
{
    if way.len() > 0 {
        let entries = fs(dir)->0;
        let found = candidates(entries, rest);
        lemma_candidates(entries, rest);
        let e = way[0];
        assert(found.contains(e));
        let k = choose|k: int| 0 <= k < found.len() && found[k] == e;
        let next = behind(encoded(e.name@), rest);
        law_what_is_there_is_found(fs, e.path@, next, way.drop_first(), goal);
        lemma_hit_from(fs, found, rest, 0, k);
    }
}

proof fn lemma_hit_from(
    fs: spec_fn(Seq<char>) -> Option<Seq<DirEntry>>,
    found: Seq<DirEntry>,
    rest: Seq<char>,
    i: int,
    k: int,
)
    requires
        0 <= i <= k < found.len(),
        fits(found[k], rest),
        walk(fs, found[k].path@, behind(encoded(found[k].name@), rest)) is Some,
    ensures
        first_hit(fs, found, rest, i) is Some,
    decreases k - i,
{
    if i < k {
        lemma_hit_from(fs, found, rest, i + 1, k);
    }
}

/// In a directory name letters and digits stay, everything else is a dash, and nothing moves: texts
/// can be encoded piece by piece, and what is encoded stays as it is.
pub proof fn law_names_are_encoded_in_place(a: Seq<char>, b: Seq<char>, i: int)
    ensures
        encoded(a).len() == a.len(),
        encoded(a + b) == encoded(a) + encoded(b),
        encoded(encoded(a)) == encoded(a),
        0 <= i < a.len() ==> {
            let c = a[i];
            let plain = ('0' <= c && c <= '9') || ('a' <= c && c <= 'z') || ('A' <= c && c <= 'Z');
            &&& plain ==> encoded(a)[i] == c
            &&& !plain ==> encoded(a)[i] == '-'
        },
{
    assert(encoded(a + b) =~= encoded(a) + encoded(b));
    assert(encoded(encoded(a)) =~= encoded(a));
}

/// Of the entries of a directory that fit, the longest is tried first; no other entry is tried, and
/// none that fits is passed over.
pub proof fn law_longer_names_are_tried_first(entries: Seq<DirEntry>, rest: Seq<char>, i: int, j: int)
    ensures
        ({
            let tried = candidates(entries, rest);
            &&& 0 <= i < j < tried.len() ==> encoded(tried[i].name@).len() >= encoded(
                tried[j].name@,
            ).len()
            &&& 0 <= i < tried.len() ==> {
                let name = encoded(tried[i].name@);
                &&& entries.contains(tried[i])
                &&& tried[i].is_dir
                &&& name.len() > 0
                &&& name.is_prefix_of(rest)
                &&& name.len() < rest.len() ==> rest[name.len() as int] == '-'
            }
            &&& forall|e: DirEntry|
                entries.contains(e) && e.is_dir && encoded(e.name@).len() > 0 && encoded(
                    e.name@,
                ).is_prefix_of(rest) && (encoded(e.name@).len() == rest.len() || rest[encoded(
                    e.name@,
                ).len() as int] == '-') ==> #[trigger] tried.contains(e)
        }),
{
    lemma_candidates(entries, rest);
    let fitting = entries.filter(|e: DirEntry| fits(e, rest));
    order::lemma_ranked_sorts(fitting);
    let tried = candidates(entries, rest);
    if 0 <= i < j < tried.len() {
        assert(tried[i].rank_le(&tried[j]));
    }
    if 0 <= i < tried.len() {
        assert(fits(tried[i], rest));
    }
}

/// A session directory whose name encodes the way to a project is taken for a project.
pub proof fn law_encoded_projects_are_found(
    fs: spec_fn(Seq<char>) -> Option<Seq<DirEntry>>,
    rest: Seq<char>,
    way: Seq<DirEntry>,
    goal: Seq<char>,
)
    requires
        rest.len() > 0,
        leads(fs, "/"@, rest, way, goal),
    ensures
        decoded(fs, seq!['-'] + rest) is Some,
{
    law_what_is_there_is_found(fs, "/"@, rest, way, goal);
    assert((seq!['-'] + rest).drop_first() =~= rest);
}

/// Of the entries that fit, the first that leads anywhere is where the search goes.
pub proof fn law_the_first_that_leads_anywhere_wins(
    fs: spec_fn(Seq<char>) -> Option<Seq<DirEntry>>,
    dir: Seq<char>,
    rest: Seq<char>,
    k: int,
)
    requires
        rest.len() > 0,
        fs(dir) is Some,
        0 <= k < candidates(fs(dir)->0, rest).len(),
        ({
            let tried = candidates(fs(dir)->0, rest);
            &&& walk(fs, tried[k].path@, behind(encoded(tried[k].name@), rest)) is Some
            &&& forall|j: int|
                0 <= j < k ==> walk(
                    fs,
                    (#[trigger] tried[j]).path@,
                    behind(encoded(tried[j].name@), rest),
                ) is None
        }),
    ensures
        ({
            let e = candidates(fs(dir)->0, rest)[k];
            walk(fs, dir, rest) == walk(fs, e.path@, behind(encoded(e.name@), rest))
        }),
{
    lemma_candidates(fs(dir)->0, rest);
    lemma_first_wins(fs, candidates(fs(dir)->0, rest), rest, 0, k);
}

proof fn lemma_first_wins(
    fs: spec_fn(Seq<char>) -> Option<Seq<DirEntry>>,
    tried: Seq<DirEntry>,
    rest: Seq<char>,
    i: int,
    k: int,
)
    requires
        0 <= i <= k < tried.len(),
        forall|j: int| 0 <= j < tried.len() ==> fits(#[trigger] tried[j], rest),
        walk(fs, tried[k].path@, behind(encoded(tried[k].name@), rest)) is Some,
        forall|j: int|
            0 <= j < k ==> walk(
                fs,
                (#[trigger] tried[j]).path@,
                behind(encoded(tried[j].name@), rest),
            ) is None,
    ensures
        first_hit(fs, tried, rest, i) == walk(
            fs,
            tried[k].path@,
            behind(encoded(tried[k].name@), rest),
        ),
    decreases k - i,
{
    assert(fits(tried[i], rest));
    if i < k {
        assert(walk(fs, tried[i].path@, behind(encoded(tried[i].name@), rest)) is None);
        lemma_first_wins(fs, tried, rest, i + 1, k);
    }
}

/// What is left of a directory name behind a component, and the dash that ends it, is what stood
/// there.
pub proof fn law_a_component_and_its_dash_are_taken_off(name: Seq<char>, rest: Seq<char>)
    requires
        name.len() > 0,
    ensures
        behind(name, name + seq!['-'] + rest) == rest,
        behind(name, name).len() == 0,
{
    let whole = name + seq!['-'] + rest;
    let next = whole.skip(name.len() as int);
    assert(next =~= seq!['-'] + rest);
    assert(next.drop_first() =~= rest);
    assert(name.skip(name.len() as int).len() == 0);
}

/// Only the names of absolute paths are read: they begin with a dash and do not end there.
pub proof fn law_only_absolute_paths_are_read(
    fs: spec_fn(Seq<char>) -> Option<Seq<DirEntry>>,
    name: Seq<char>,
)
    ensures
        decoded(fs, name) is Some ==> name.len() >= 2 && name[0] == '-',
{
}

}
