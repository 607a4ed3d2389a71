//! Orders on texts and a stable sort.
use crate::text::chars_of;
use vstd::prelude::*;

verus! {

/// Whether `a` comes before `b`, or is `b`, in dictionary order by code point.
pub open spec fn text_le(a: Seq<char>, b: Seq<char>) -> bool
    decreases a.len(),
{
    if a.len() == 0 {
        true
    } else if b.len() == 0 {
        false
    } else if a[0] == b[0] {
        text_le(a.drop_first(), b.drop_first())
    } else {
        (a[0] as int) < (b[0] as int)
    }
}

/// Dictionary order is total.
pub proof fn lemma_text_le_total(a: Seq<char>, b: Seq<char>)
    ensures
        text_le(a, b) || text_le(b, a),
    decreases a.len(),
{
    if a.len() > 0 && b.len() > 0 && a[0] == b[0] {
        lemma_text_le_total(a.drop_first(), b.drop_first());
    }
}

/// Dictionary order is transitive.
pub proof fn lemma_text_le_trans(a: Seq<char>, b: Seq<char>, c: Seq<char>)
    requires
        text_le(a, b),
        text_le(b, c),
    ensures
        text_le(a, c),
    decreases a.len(),
{
    if a.len() > 0 && b.len() > 0 && c.len() > 0 && a[0] == b[0] && b[0] == c[0] {
        lemma_text_le_trans(a.drop_first(), b.drop_first(), c.drop_first());
    }
}

/// Two texts that come before one another are the same text.
pub proof fn lemma_text_le_antisym(a: Seq<char>, b: Seq<char>)
    requires
        text_le(a, b),
        text_le(b, a),
    ensures
        a == b,
    decreases a.len(),
{
    if a.len() > 0 && b.len() > 0 {
        lemma_text_le_antisym(a.drop_first(), b.drop_first());
        assert(a =~= seq![a[0]] + a.drop_first());
        assert(b =~= seq![b[0]] + b.drop_first());
    } else {
        assert(a =~= b);
    }
}

/// Whether `a` comes before `b`, or is `b`, in dictionary order by code point.
pub fn text_before_or_same(a: &str, b: &str) -> (r: bool)
    ensures
        r == text_le(a@, b@),
{
    let x = chars_of(a);
    let y = chars_of(b);
    let mut i: usize = 0;
    assert(a@.skip(0) =~= a@);
    assert(b@.skip(0) =~= b@);
    while i < x.len() && i < y.len() && x[i] == y[i]
        invariant
            i <= x.len(),
            i <= y.len(),
            x@ == a@,
            y@ == b@,
            text_le(a@, b@) == text_le(a@.skip(i as int), b@.skip(i as int)),
        decreases x.len() - i,
    {
        assert(a@.skip(i as int).drop_first() =~= a@.skip(i + 1));
        assert(b@.skip(i as int).drop_first() =~= b@.skip(i + 1));
        i = i + 1;
    }
    if i == x.len() {
        true
    } else if i == y.len() {
        false
    } else {
        x[i] < y[i]
    }
}

/// A type whose values are put in order by a rank.
pub trait Ranked: Sized {
    /// Whether `self` may stand before `other`.
    spec fn rank_le(&self, other: &Self) -> bool;

    /// Of two values, one may stand before the other.
    proof fn lemma_rank_total(a: &Self, b: &Self)
        ensures
            a.rank_le(b) || b.rank_le(a),
    ;

    /// The rank is transitive.
    proof fn lemma_rank_trans(a: &Self, b: &Self, c: &Self)
        requires
            a.rank_le(b),
            b.rank_le(c),
        ensures
            a.rank_le(c),
    ;

    /// Whether `self` may stand before `other`.
    fn may_precede(&self, other: &Self) -> (r: bool)
        ensures
            r == self.rank_le(other),
    ;
}

/// `x` put into `s` behind everything at the end of `s` that may stand before it.
pub open spec fn rank_insert<T: Ranked>(s: Seq<T>, x: T) -> Seq<T>
    decreases s.len(),
{
    if s.len() == 0 {
        seq![x]
    } else if s.last().rank_le(&x) {
        s.push(x)
    } else {
        rank_insert(s.drop_last(), x).push(s.last())
    }
}

/// The elements of `s` in order of rank; elements of one rank keep their order.
pub open spec fn ranked<T: Ranked>(s: Seq<T>) -> Seq<T>
    decreases s.len(),
{
    if s.len() == 0 {
        s
    } else {
        rank_insert(ranked(s.drop_last()), s.last())
    }
}

/// Whether every element may stand before those behind it.
pub open spec fn in_order<T: Ranked>(s: Seq<T>) -> bool {
    forall|i: int, j: int|
        #![trigger s[i], s[j]]
        0 <= i < j < s.len() ==> s[i].rank_le(&s[j])
}

/// Sorting puts the elements in order, and keeps each as often as it was there.
pub proof fn lemma_ranked_sorts<T: Ranked>(s: Seq<T>)
    ensures
        in_order(ranked(s)),
        ranked(s).to_multiset() =~= s.to_multiset(),
        ranked(s).len() == s.len(),
    decreases s.len(),
{
    broadcast use vstd::seq_lib::group_to_multiset_ensures;

    if s.len() > 0 {
        lemma_ranked_sorts(s.drop_last());
        lemma_rank_insert(ranked(s.drop_last()), s.last());
        assert(s =~= s.drop_last().push(s.last()));
    }
}

proof fn lemma_rank_insert<T: Ranked>(s: Seq<T>, x: T)
    requires
        in_order(s),
    ensures
        in_order(rank_insert(s, x)),
        rank_insert(s, x).to_multiset() =~= s.to_multiset().insert(x),
        rank_insert(s, x).len() == s.len() + 1,
        forall|y: T|
            (#[trigger] rank_insert(s, x).contains(y)) ==> y == x || s.contains(y),
    decreases s.len(),
{
    broadcast use vstd::seq_lib::group_to_multiset_ensures;

    let r = rank_insert(s, x);
    if s.len() == 0 {
        assert(s.push(x) =~= seq![x]);
        assert(s =~= Seq::<T>::empty());
    } else if s.last().rank_le(&x) {
        assert forall|i: int, j: int|
            #![trigger r[i], r[j]]
            0 <= i < j < r.len() implies r[i].rank_le(&r[j]) by {
            if j == s.len() && i < s.len() - 1 {
                T::lemma_rank_trans(&s[i], &s.last(), &x);
            }
        }
    } else {
        let t = rank_insert(s.drop_last(), x);
        lemma_rank_insert(s.drop_last(), x);
        assert forall|i: int, j: int|
            #![trigger r[i], r[j]]
            0 <= i < j < r.len() implies r[i].rank_le(&r[j]) by {
            if j == t.len() {
                assert(t.contains(t[i]));
                T::lemma_rank_total(&x, &s.last());
                if t[i] != x {
                    let k = choose|k: int| 0 <= k < s.drop_last().len() && s.drop_last()[k] == t[i];
                    assert(s[k].rank_le(&s[s.len() - 1]));
                }
            }
        }
        assert(s =~= s.drop_last().push(s.last()));
        assert forall|y: T| (#[trigger] r.contains(y)) implies y == x || s.contains(y) by {
            let k = choose|k: int| 0 <= k < r.len() && r[k] == y;
            if k < t.len() {
                assert(t.contains(t[k]));
                if y != x {
                    let m = choose|m: int| 0 <= m < s.drop_last().len() && s.drop_last()[m] == y;
                    assert(s[m] == y);
                }
            } else {
                assert(s[s.len() - 1] == y);
            }
        }
    }
}

/// Sorts by rank; elements of one rank keep their order.
pub fn sort_ranked<T: Ranked>(items: Vec<T>) -> (r: Vec<T>)
    ensures
        r@ == ranked(items@),
{
    let mut out: Vec<T> = Vec::new();
    let ghost all = items@;
    for x in it: items
        invariant
            it.seq() == all,
            out@ == ranked(all.take(it.index() as int)),
    {
        let ghost before = out@;
        let mut p: usize = out.len();
        assert(before.take(p as int) =~= before);
        assert(rank_insert(before, x) =~= rank_insert(before.take(p as int), x) + before.skip(
            p as int,
        ));
        while p > 0 && !out[p - 1].may_precede(&x)
            invariant
                p <= out.len(),
                out@ == before,
                rank_insert(before, x) == rank_insert(before.take(p as int), x) + before.skip(
                    p as int,
                ),
            decreases p,
        {
            let ghost t = before.take(p as int);
            proof {
                assert(t.drop_last() =~= before.take(p - 1));
                assert(rank_insert(t, x) == rank_insert(t.drop_last(), x).push(t.last()));
                assert(rank_insert(before.take(p - 1), x).push(t.last()) + before.skip(p as int)
                    =~= rank_insert(before.take(p - 1), x) + before.skip(p - 1));
            }
            p = p - 1;
        }
        out.insert(p, x);
        proof {
            assert(out@ =~= before.take(p as int).push(x) + before.skip(p as int));
            assert(rank_insert(before.take(p as int), x) =~= before.take(p as int).push(x));
            assert(all.take(it.index() as int + 1).drop_last() =~= all.take(it.index() as int));
            assert(all.take(it.index() as int + 1).last() == x);
        }
    }
    assert(all.take(all.len() as int) =~= all);
    out
}

}
