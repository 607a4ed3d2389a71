//! File paths as texts, read the way POSIX systems or Windows read them.
//!
//! A path is a head and a body. On POSIX systems the head is at most the `/` of the root. On Windows
//! a prefix may stand before the root: a drive, the share of a server, a device, or one of the
//! verbatim forms that begin with `\\?\`, in whose body only `\` separates. In a body runs of
//! separators count once, and outside the verbatim forms a `.` counts only where a body without a
//! root begins with it.
use crate::text;
use crate::text::{chars_of, concat2, same_text, upper_of};
use vstd::prelude::*;
use vstd::string::{StrSliceExecFns, StringExecFns};

verus! {

/// What separates the components of a body.
#[derive(Clone, Copy, PartialEq, Eq, Structural, Debug)]
pub enum Style {
    Posix,
    Windows,
    Verbatim,
}

/// Whether a character separates components.
pub open spec fn is_sep(c: char, style: Style) -> bool {
    match style {
        Style::Posix => c == '/',
        Style::Windows => c == '/' || c == '\\',
        Style::Verbatim => c == '\\',
    }
}

/// Where the run of characters other than separators that is under way at `i` ends.
pub open spec fn run_end(s: Seq<char>, i: int, style: Style) -> int
    decreases s.len() - i,
{
    if i < 0 || i >= s.len() || is_sep(s[i], style) {
        i
    } else {
        run_end(s, i + 1, style)
    }
}

proof fn lemma_run_end(s: Seq<char>, i: int, style: Style)
    requires
        0 <= i <= s.len(),
    ensures
        i <= run_end(s, i, style) <= s.len(),
        run_end(s, i, style) == s.len() || is_sep(s[run_end(s, i, style)], style),
        forall|j: int| i <= j < run_end(s, i, style) ==> !is_sep(#[trigger] s[j], style),
    decreases s.len() - i,
{
    if i < s.len() && !is_sep(s[i], style) {
        lemma_run_end(s, i + 1, style);
    }
}

/// What may stand before the root of a path on Windows.
pub enum PrefixData {
    Nothing,
    /// A drive, in upper case: `C:`.
    Disk(char),
    /// A server and a share: `\\server\share`.
    Unc(Seq<char>, Seq<char>),
    /// A device: `\\.\name`.
    Device(Seq<char>),
    /// A verbatim name: `\\?\name`.
    Verbatim(Seq<char>),
    /// A verbatim server and share: `\\?\UNC\server\share`.
    VerbatimUnc(Seq<char>, Seq<char>),
    /// A verbatim drive, in upper case: `\\?\C:`.
    VerbatimDisk(char),
}

/// Whether a character can name a drive.
pub open spec fn is_drive_letter(c: char) -> bool {
    ('a' <= c && c <= 'z') || ('A' <= c && c <= 'Z')
}

/// Whether a path begins with two separators.
pub open spec fn two_seps(s: Seq<char>) -> bool {
    s.len() >= 2 && is_sep(s[0], Style::Windows) && is_sep(s[1], Style::Windows)
}

/// Whether a path begins with `\\?\`.
pub open spec fn is_verbatim(s: Seq<char>) -> bool {
    s.len() >= 4 && s[0] == '\\' && s[1] == '\\' && s[2] == '?' && s[3] == '\\'
}

/// A server and a share from index `from` on, and where they end.
pub open spec fn share_at(s: Seq<char>, from: int, style: Style) -> (Seq<char>, Seq<char>, int) {
    let e = run_end(s, from, style);
    let server = s.subrange(from, e);
    if e < s.len() {
        let f = run_end(s, e + 1, style);
        (server, s.subrange(e + 1, f), if f > e + 1 { f } else { e })
    } else {
        (server, seq![], e)
    }
}

/// The prefix of a path, and where it ends.
pub open spec fn prefix_at(s: Seq<char>, windows: bool) -> (PrefixData, int) {
    if !windows {
        (PrefixData::Nothing, 0)
    } else if is_verbatim(s) {
        if s.len() >= 8 && s[4] == 'U' && s[5] == 'N' && s[6] == 'C' && is_sep(
            s[7],
            Style::Windows,
        ) {
            let (server, share, end) = share_at(s, 8, Style::Verbatim);
            (PrefixData::VerbatimUnc(server, share), end)
        } else if s.len() >= 6 && is_drive_letter(s[4]) && s[5] == ':' && (s.len() == 6 || is_sep(
            s[6],
            Style::Windows,
        )) {
            (PrefixData::VerbatimDisk(text::upper_char(s[4])), 6)
        } else {
            let end = run_end(s, 4, Style::Verbatim);
            (PrefixData::Verbatim(s.subrange(4, end)), end)
        }
    } else if two_seps(s) && s.len() >= 4 && s[2] == '.' && is_sep(s[3], Style::Windows) {
        let end = run_end(s, 4, Style::Windows);
        (PrefixData::Device(s.subrange(4, end)), end)
    } else if two_seps(s) {
        let (server, share, end) = share_at(s, 2, Style::Windows);
        if server.len() > 0 && share.len() > 0 {
            (PrefixData::Unc(server, share), end)
        } else {
            (PrefixData::Nothing, 0)
        }
    } else if s.len() >= 2 && is_drive_letter(s[0]) && s[1] == ':' {
        (PrefixData::Disk(text::upper_char(s[0])), 2)
    } else {
        (PrefixData::Nothing, 0)
    }
}

/// The prefix of a path.
pub open spec fn prefix_of(s: Seq<char>, windows: bool) -> PrefixData {
    prefix_at(s, windows).0
}

/// Where the prefix of a path ends.
pub open spec fn prefix_end(s: Seq<char>, windows: bool) -> int {
    prefix_at(s, windows).1
}

/// How the body of a path is read.
pub open spec fn style_of(s: Seq<char>, windows: bool) -> Style {
    if !windows {
        Style::Posix
    } else if is_verbatim(s) {
        Style::Verbatim
    } else {
        Style::Windows
    }
}

/// How separators are written before the body.
pub open spec fn head_style(windows: bool) -> Style {
    if windows {
        Style::Windows
    } else {
        Style::Posix
    }
}

/// Whether a separator stands behind the prefix: the root.
pub open spec fn rooted(s: Seq<char>, windows: bool) -> bool {
    let end = prefix_end(s, windows);
    end < s.len() && is_sep(s[end], head_style(windows))
}

/// Whether a path begins at a root, written or implied: a share and a device are roots.
pub open spec fn has_root(s: Seq<char>, windows: bool) -> bool {
    rooted(s, windows) || prefix_of(s, windows) is Unc || prefix_of(s, windows) is Device
}

/// Where the body of a path begins.
pub open spec fn body_start(s: Seq<char>, windows: bool) -> int {
    prefix_end(s, windows) + if rooted(s, windows) {
        1int
    } else {
        0int
    }
}

/// The components of a body from index `from` on, each as its beginning and its end. A `.` counts at
/// index `first`, and in the verbatim forms anywhere.
pub open spec fn spans(s: Seq<char>, from: int, first: int, style: Style) -> Seq<(int, int)>
    decreases s.len() - from,
    when 0 <= from
    via spans_go_on
{
    if from >= s.len() {
        seq![]
    } else if is_sep(s[from], style) {
        spans(s, from + 1, first, style)
    } else {
        let end = run_end(s, from, style);
        let rest = spans(s, end, first, style);
        if from != first && style != Style::Verbatim && s.subrange(from, end) == seq!['.'] {
            rest
        } else {
            seq![(from, end)] + rest
        }
    }
}

#[via_fn]
proof fn spans_go_on(s: Seq<char>, from: int, first: int, style: Style) {
    if 0 <= from < s.len() && !is_sep(s[from], style) {
        lemma_run_end(s, from + 1, style);
    }
}

/// The components of a path, each as its beginning and its end.
pub open spec fn body_spans(s: Seq<char>, windows: bool) -> Seq<(int, int)> {
    spans(s, body_start(s, windows), prefix_end(s, windows), style_of(s, windows))
}

/// The components of a path, as texts.
pub open spec fn components(s: Seq<char>, windows: bool) -> Seq<Seq<char>> {
    let sp = body_spans(s, windows);
    Seq::new(sp.len(), |k: int| s.subrange(sp[k].0, sp[k].1))
}

/// Whether two texts name the same path.
pub open spec fn same(a: Seq<char>, b: Seq<char>, windows: bool) -> bool {
    &&& prefix_of(a, windows) == prefix_of(b, windows)
    &&& has_root(a, windows) == has_root(b, windows)
    &&& components(a, windows) == components(b, windows)
}

/// What is left of the components `names` after one more step: `.` stays, `..` goes up where there
/// is a name to leave.
pub open spec fn stepped(names: Seq<Seq<char>>, step: Seq<char>) -> Seq<Seq<char>> {
    if step == seq!['.'] {
        names
    } else if step == seq!['.', '.'] {
        if names.len() > 0 && names.last() != seq!['.'] && names.last() != seq!['.', '.'] {
            names.drop_last()
        } else {
            names
        }
    } else {
        names.push(step)
    }
}

/// Where some steps lead from the components `names`.
pub open spec fn walked(names: Seq<Seq<char>>, steps: Seq<Seq<char>>) -> Seq<Seq<char>>
    decreases steps.len(),
{
    if steps.len() == 0 {
        names
    } else {
        stepped(walked(names, steps.drop_last()), steps.last())
    }
}

/// Components as a text, a `\` between any two of them.
pub open spec fn backslashed(names: Seq<Seq<char>>) -> Seq<char>
    decreases names.len(),
{
    if names.len() == 0 {
        seq![]
    } else if names.len() == 1 {
        names[0]
    } else {
        backslashed(names.drop_last()) + seq!['\\'] + names.last()
    }
}

/// `rel` seen from a verbatim `base`: no `.` or `..` of it is left.
pub open spec fn verbatim_joined(base: Seq<char>, rel: Seq<char>) -> Seq<char> {
    let names = walked(
        if rooted(rel, true) { seq![] } else { components(base, true) },
        components(rel, true),
    );
    let divided = rooted(rel, true) || rooted(base, true) || names.len() > 0;
    base.take(prefix_end(base, true)) + (if divided { seq!['\\'] } else { seq![] }) + backslashed(
        names,
    )
}

/// Whether a separator is put between `base` and what is joined to it: not behind one, and not
/// behind a bare drive.
pub open spec fn needs_sep(base: Seq<char>, windows: bool) -> bool {
    &&& base.len() > 0
    &&& !is_sep(base.last(), head_style(windows))
    &&& !(prefix_of(base, windows) is Disk && base.len() == 2)
}

/// The separator of the platform.
pub open spec fn main_sep(windows: bool) -> char {
    if windows {
        '\\'
    } else {
        '/'
    }
}

/// `rel` seen from `base`: with a prefix, or on POSIX systems a root, it stands for itself; with a
/// root alone it keeps the prefix of `base`.
pub open spec fn joined(base: Seq<char>, rel: Seq<char>, windows: bool) -> Seq<char> {
    if prefix_of(rel, windows) !is Nothing || (!windows && rooted(rel, windows)) {
        rel
    } else if windows && is_verbatim(base) && rel.len() > 0 {
        verbatim_joined(base, rel)
    } else if rooted(rel, windows) {
        base.take(prefix_end(base, windows)) + rel
    } else if needs_sep(base, windows) {
        base + seq![main_sep(windows)] + rel
    } else {
        base + rel
    }
}

/// The path without its last component, if it has one.
pub open spec fn parent_of(s: Seq<char>, windows: bool) -> Option<Seq<char>> {
    let sp = body_spans(s, windows);
    if sp.len() == 0 {
        None
    } else if sp.len() == 1 {
        Some(s.take(body_start(s, windows)))
    } else {
        Some(s.take(sp[sp.len() - 2].1))
    }
}

/// The path without its last `n` components, if it has that many.
pub open spec fn ancestor(s: Seq<char>, n: nat, windows: bool) -> Option<Seq<char>>
    decreases n,
{
    if n == 0 {
        Some(s)
    } else {
        match parent_of(s, windows) {
            Some(p) => ancestor(p, (n - 1) as nat, windows),
            None => None,
        }
    }
}

/// The last component, where it names something: neither `..` nor `.`.
pub open spec fn name_of(s: Seq<char>, windows: bool) -> Option<Seq<char>> {
    let c = components(s, windows);
    if c.len() == 0 || c.last() == seq!['.', '.'] || c.last() == seq!['.'] {
        None
    } else {
        Some(c.last())
    }
}

/// Whether the path ends with the components of `tail`, and with its root and its prefix where it has
/// them.
pub open spec fn ends_with_path(s: Seq<char>, tail: Seq<char>, windows: bool) -> bool {
    if prefix_of(tail, windows) !is Nothing {
        same(s, tail, windows)
    } else if rooted(tail, windows) {
        has_root(s, windows) && components(s, windows) == components(tail, windows)
    } else {
        components(tail, windows).is_suffix_of(components(s, windows))
    }
}

/// A text that is one component and names something.
pub open spec fn is_name(s: Seq<char>, windows: bool) -> bool {
    &&& s.len() > 0
    &&& forall|i: int| 0 <= i < s.len() ==> !is_sep(#[trigger] s[i], head_style(windows))
    &&& s != seq!['.']
    &&& s != seq!['.', '.']
    &&& prefix_of(s, windows) is Nothing
}

/// Whether the head of a path stays what it is when a name is joined to the path. On Windows two
/// separators that begin no prefix could become one, a device without a name gets one, and the
/// verbatim forms are written anew.
pub open spec fn is_steady(s: Seq<char>, windows: bool) -> bool {
    windows ==> match prefix_of(s, windows) {
        PrefixData::Nothing => !two_seps(s),
        PrefixData::Disk(_) => true,
        PrefixData::Unc(_, _) => true,
        PrefixData::Device(name) => name.len() > 0,
        _ => false,
    }
}

proof fn lemma_run_end_take(s: Seq<char>, e: int, i: int, style: Style)
    requires
        0 <= i <= s.len(),
        run_end(s, i, style) <= e <= s.len(),
    ensures
        run_end(s.take(e), i, style) == run_end(s, i, style),
    decreases s.len() - i,
{
    lemma_run_end(s, i, style);
    if i < s.len() && !is_sep(s[i], style) {
        lemma_run_end(s, i + 1, style);
        lemma_run_end_take(s, e, i + 1, style);
    }
}

proof fn lemma_prefix_end(s: Seq<char>, windows: bool)
    ensures
        0 <= prefix_end(s, windows) <= body_start(s, windows) <= s.len(),
        prefix_of(s, windows) is Nothing ==> prefix_end(s, windows) == 0,
        prefix_of(s, windows) is Disk ==> prefix_end(s, windows) == 2,
{
    if windows {
        if is_verbatim(s) {
            lemma_run_end(s, 4, Style::Verbatim);
            if s.len() >= 8 {
                lemma_share(s, 8, Style::Verbatim);
            }
        } else if two_seps(s) {
            lemma_share(s, 2, Style::Windows);
            if s.len() >= 4 {
                lemma_run_end(s, 4, Style::Windows);
            }
        }
    }
}

proof fn lemma_share(s: Seq<char>, from: int, style: Style)
    requires
        0 <= from <= s.len(),
    ensures
        ({
            let e = run_end(s, from, style);
            let (server, share, end) = share_at(s, from, style);
            &&& from <= e <= end <= s.len()
            &&& end == s.len() || is_sep(s[end], style)
            &&& server.len() == e - from
            &&& share.len() > 0 ==> end == e + 1 + share.len()
            &&& share.len() == 0 ==> end == e
        }),
{
    lemma_run_end(s, from, style);
    let e = run_end(s, from, style);
    if e < s.len() {
        lemma_run_end(s, e + 1, style);
    }
}

/// A server and a share are the same where a path is cut behind them.
proof fn lemma_share_take(s: Seq<char>, from: int, style: Style, c: int)
    requires
        0 <= from <= s.len(),
        share_at(s, from, style).2 <= c <= s.len(),
    ensures
        share_at(s.take(c), from, style) == share_at(s, from, style),
{
    lemma_share(s, from, style);
    let t = s.take(c);
    let e = run_end(s, from, style);
    lemma_run_end_take(s, c, from, style);
    assert(t.subrange(from, e) =~= s.subrange(from, e));
    if e < s.len() {
        lemma_run_end(s, e + 1, style);
        let f = run_end(s, e + 1, style);
        if e < c {
            if f <= c {
                lemma_run_end_take(s, c, e + 1, style);
                assert(t.subrange(e + 1, f) =~= s.subrange(e + 1, f));
            }
        } else {
            assert(share_at(s, from, style).1 =~= seq![]);
        }
    }
}

/// A path that is cut in its body, or at its beginning, keeps its head.
proof fn lemma_head_take(s: Seq<char>, c: int, windows: bool)
    requires
        body_start(s, windows) <= c <= s.len(),
    ensures
        prefix_at(s.take(c), windows) == prefix_at(s, windows),
        rooted(s.take(c), windows) == rooted(s, windows),
        style_of(s.take(c), windows) == style_of(s, windows),
{
    lemma_prefix_end(s, windows);
    let t = s.take(c);
    if windows {
        if is_verbatim(s) {
            lemma_run_end(s, 4, Style::Verbatim);
            if s.len() >= 8 && s[4] == 'U' && s[5] == 'N' && s[6] == 'C' && is_sep(
                s[7],
                Style::Windows,
            ) {
                lemma_share(s, 8, Style::Verbatim);
                lemma_share_take(s, 8, Style::Verbatim, c);
            } else if s.len() >= 6 && is_drive_letter(s[4]) && s[5] == ':' && (s.len() == 6
                || is_sep(s[6], Style::Windows)) {
            } else {
                let e = run_end(s, 4, Style::Verbatim);
                lemma_run_end_take(s, c, 4, Style::Verbatim);
                assert(t.subrange(4, e) =~= s.subrange(4, e));
            }
        } else if two_seps(s) && s.len() >= 4 && s[2] == '.' && is_sep(s[3], Style::Windows) {
            lemma_run_end(s, 4, Style::Windows);
            let e = run_end(s, 4, Style::Windows);
            lemma_run_end_take(s, c, 4, Style::Windows);
            assert(t.subrange(4, e) =~= s.subrange(4, e));
        } else if two_seps(s) {
            lemma_share(s, 2, Style::Windows);
            if prefix_of(s, windows) is Unc {
                lemma_share_take(s, 2, Style::Windows, c);
            } else if c >= 2 {
                lemma_no_share_take(s, c);
            }
        }
    }
}

/// What is no server and share does not become one where it is cut.
proof fn lemma_no_share_take(s: Seq<char>, c: int)
    requires
        2 <= c <= s.len(),
        share_at(s, 2, Style::Windows).0.len() == 0 || share_at(s, 2, Style::Windows).1.len() == 0,
    ensures
        share_at(s.take(c), 2, Style::Windows).0.len() == 0 || share_at(
            s.take(c),
            2,
            Style::Windows,
        ).1.len() == 0,
{
    let t = s.take(c);
    lemma_share(s, 2, Style::Windows);
    lemma_share(t, 2, Style::Windows);
    lemma_run_end(s, 2, Style::Windows);
    lemma_run_end(t, 2, Style::Windows);
    let e = run_end(s, 2, Style::Windows);
    if e <= c {
        lemma_run_end_take(s, c, 2, Style::Windows);
        if e + 1 < c {
            assert(is_sep(s[e + 1], Style::Windows) || e == 2) by {
                lemma_run_end(s, e + 1, Style::Windows);
            }
            assert(t[e + 1] == s[e + 1]);
        }
    } else {
        let g = run_end(t, 2, Style::Windows);
        if g < c {
            assert(is_sep(t[g], Style::Windows));
            assert(t[g] == s[g]);
        }
    }
}

spec fn span_lies(s: Seq<char>, from: int, span: (int, int), style: Style) -> bool {
    from <= span.0 < span.1 <= s.len() && (span.1 == s.len() || is_sep(s[span.1], style))
}

proof fn lemma_spans_in_order(s: Seq<char>, from: int, first: int, style: Style)
    requires
        0 <= from <= s.len(),
    ensures
        forall|k: int|
            0 <= k < spans(s, from, first, style).len() ==> span_lies(
                s,
                from,
                #[trigger] spans(s, from, first, style)[k],
                style,
            ),
    decreases s.len() - from,
{
    let sp = spans(s, from, first, style);
    if from < s.len() {
        if is_sep(s[from], style) {
            let rest = spans(s, from + 1, first, style);
            lemma_spans_in_order(s, from + 1, first, style);
            assert(sp == rest);
            assert forall|k: int| 0 <= k < sp.len() implies span_lies(
                s,
                from,
                #[trigger] sp[k],
                style,
            ) by {
                assert(span_lies(s, from + 1, rest[k], style));
            }
        } else {
            lemma_run_end(s, from, style);
            lemma_run_end(s, from + 1, style);
            let end = run_end(s, from, style);
            let rest = spans(s, end, first, style);
            lemma_spans_in_order(s, end, first, style);
            assert forall|k: int| 0 <= k < sp.len() implies span_lies(
                s,
                from,
                #[trigger] sp[k],
                style,
            ) by {
                if sp.len() == rest.len() {
                    assert(sp == rest);
                    assert(span_lies(s, end, rest[k], style));
                } else if k > 0 {
                    assert(sp[k] == rest[k - 1]);
                    assert(span_lies(s, end, rest[k - 1], style));
                }
            }
        }
    }
}

/// Where a path is cut before or behind a separator, its components are those before the cut and
/// those behind.
proof fn lemma_spans_cut(s: Seq<char>, e: int, from: int, first: int, style: Style)
    requires
        0 <= from <= e <= s.len(),
        e == from || e == s.len() || is_sep(s[e], style) || is_sep(s[e - 1], style),
    ensures
        spans(s, from, first, style) == spans(s.take(e), from, first, style) + spans(
            s,
            e,
            first,
            style,
        ),
    decreases e - from,
{
    let t = s.take(e);
    let behind = spans(s, e, first, style);
    if from == e {
        assert(spans(t, from, first, style) =~= seq![]);
        assert(seq![] + behind =~= behind);
    } else if is_sep(s[from], style) {
        lemma_spans_cut(s, e, from + 1, first, style);
    } else {
        lemma_run_end(s, from, style);
        lemma_run_end(s, from + 1, style);
        let end = run_end(s, from, style);
        assert(end <= e) by {
            if end > e {
                assert(!is_sep(s[e], style));
                assert(!is_sep(s[e - 1], style));
            }
        }
        lemma_run_end_take(s, e, from, style);
        lemma_spans_cut(s, e, end, first, style);
        assert(s.subrange(from, end) =~= t.subrange(from, end));
        let rest = spans(t, end, first, style);
        assert(seq![(from, end)] + (rest + behind) =~= (seq![(from, end)] + rest) + behind);
    }
}

/// The spans behind the end of span `k` are those after it.
proof fn lemma_spans_behind(s: Seq<char>, from: int, first: int, style: Style, k: int)
    requires
        0 <= from <= s.len(),
        0 <= k < spans(s, from, first, style).len(),
    ensures
        ({
            let sp = spans(s, from, first, style);
            let e = sp[k].1;
            &&& from <= e <= s.len()
            &&& e == s.len() || is_sep(s[e], style)
            &&& spans(s, e, first, style) == sp.skip(k + 1)
        }),
    decreases s.len() - from,
{
    if is_sep(s[from], style) {
        lemma_spans_behind(s, from + 1, first, style, k);
    } else {
        lemma_run_end(s, from, style);
        lemma_run_end(s, from + 1, style);
        let end = run_end(s, from, style);
        let sp = spans(s, from, first, style);
        let rest = spans(s, end, first, style);
        if from != first && style != Style::Verbatim && s.subrange(from, end) == seq!['.'] {
            lemma_spans_behind(s, end, first, style, k);
        } else if k > 0 {
            lemma_spans_behind(s, end, first, style, k - 1);
            assert(sp.skip(k + 1) =~= rest.skip(k));
        } else {
            assert(sp.skip(1) =~= rest);
        }
    }
}

/// Cut at the end of component `k`, a path keeps its head and its components up to that one.
proof fn lemma_take_components(s: Seq<char>, k: int, windows: bool)
    requires
        0 <= k < body_spans(s, windows).len(),
    ensures
        ({
            let t = s.take(body_spans(s, windows)[k].1);
            &&& body_spans(t, windows) == body_spans(s, windows).take(k + 1)
            &&& components(t, windows) == components(s, windows).take(k + 1)
            &&& prefix_at(t, windows) == prefix_at(s, windows)
            &&& rooted(t, windows) == rooted(s, windows)
        }),
{
    let (b, first, style) = (
        body_start(s, windows),
        prefix_end(s, windows),
        style_of(s, windows),
    );
    lemma_prefix_end(s, windows);
    let sp = body_spans(s, windows);
    let e = sp[k].1;
    lemma_spans_in_order(s, b, first, style);
    lemma_spans_behind(s, b, first, style, k);
    lemma_spans_cut(s, e, b, first, style);
    let t = s.take(e);
    lemma_head_take(s, e, windows);
    assert(body_spans(t, windows).len() == k + 1);
    assert(body_spans(t, windows) =~= sp.take(k + 1));
    lemma_spans_in_order(t, b, first, style);
    assert forall|i: int| 0 <= i <= k implies components(t, windows)[i] == components(
        s,
        windows,
    )[i] by {
        assert(sp[i] == body_spans(t, windows)[i]);
        assert(span_lies(t, b, body_spans(t, windows)[i], style));
        assert(t.subrange(sp[i].0, sp[i].1) =~= s.subrange(sp[i].0, sp[i].1));
    }
    assert(components(t, windows) =~= components(s, windows).take(k + 1));
}

/// The parent of a path has its head, and its components but for the last.
pub proof fn law_parent_drops_the_last_component(s: Seq<char>, windows: bool)
    ensures
        parent_of(s, windows) is Some <==> components(s, windows).len() > 0,
        parent_of(s, windows) matches Some(p) ==> {
            &&& components(p, windows) == components(s, windows).drop_last()
            &&& prefix_of(p, windows) == prefix_of(s, windows)
            &&& rooted(p, windows) == rooted(s, windows)
        },
{
    let sp = body_spans(s, windows);
    if sp.len() == 1 {
        let b = body_start(s, windows);
        let p = s.take(b);
        lemma_prefix_end(s, windows);
        lemma_head_take(s, b, windows);
        assert(body_spans(p, windows) =~= seq![]);
        assert(components(p, windows) =~= components(s, windows).drop_last());
    } else if sp.len() > 1 {
        lemma_take_components(s, sp.len() - 2, windows);
        assert(components(s, windows).take(sp.len() - 1) =~= components(s, windows).drop_last());
    }
}

/// The parent of a path is the beginning of the path.
pub proof fn law_parent_begins_the_path(s: Seq<char>, windows: bool)
    ensures
        parent_of(s, windows) matches Some(p) ==> p.len() <= s.len() && p == s.take(p.len() as int),
{
    let sp = body_spans(s, windows);
    lemma_prefix_end(s, windows);
    let (b, first, style) = (
        body_start(s, windows),
        prefix_end(s, windows),
        style_of(s, windows),
    );
    lemma_spans_in_order(s, b, first, style);
    if sp.len() > 1 {
        assert(span_lies(s, b, sp[sp.len() - 2], style));
    }
    if let Some(p) = parent_of(s, windows) {
        assert(p =~= s.take(p.len() as int));
    }
}

/// An ancestor has the head of the path, and all but the last of its components.
pub proof fn law_ancestor_drops_components(s: Seq<char>, n: nat, windows: bool)
    ensures
        ancestor(s, n, windows) is Some <==> n <= components(s, windows).len(),
        ancestor(s, n, windows) matches Some(p) ==> {
            &&& components(p, windows) == components(s, windows).take(
                components(s, windows).len() - n,
            )
            &&& prefix_of(p, windows) == prefix_of(s, windows)
            &&& rooted(p, windows) == rooted(s, windows)
        },
    decreases n,
{
    let c = components(s, windows);
    if n == 0 {
        assert(c.take(c.len() as int) =~= c);
    } else {
        law_parent_drops_the_last_component(s, windows);
        if let Some(p) = parent_of(s, windows) {
            law_ancestor_drops_components(p, (n - 1) as nat, windows);
            if n <= c.len() {
                assert(c.drop_last().take(c.len() - n) =~= c.take(c.len() - n));
            }
        }
    }
}

proof fn lemma_run_to_the_end(s: Seq<char>, i: int, style: Style)
    requires
        0 <= i <= s.len(),
        forall|j: int| i <= j < s.len() ==> !is_sep(#[trigger] s[j], style),
    ensures
        run_end(s, i, style) == s.len(),
    decreases s.len() - i,
{
    if i < s.len() {
        lemma_run_to_the_end(s, i + 1, style);
    }
}

/// The head of a steady path with something more behind it, and a separator between where one is
/// needed: it is the same, but that the root may be written now where it was implied.
proof fn lemma_head_of_longer(base: Seq<char>, s: Seq<char>, windows: bool)
    requires
        is_steady(base, windows),
        base.len() < s.len(),
        base == s.take(base.len() as int),
        needs_sep(base, windows) ==> is_sep(s[base.len() as int], head_style(windows)),
        !needs_sep(base, windows) ==> !is_sep(s[base.len() as int], head_style(windows)),
        base.len() == 0 ==> prefix_of(s, windows) is Nothing,
    ensures
        prefix_at(s, windows) == prefix_at(base, windows),
        has_root(s, windows) == has_root(base, windows),
        style_of(s, windows) == style_of(base, windows),
        rooted(s, windows) == (rooted(base, windows) || (needs_sep(base, windows)
            && prefix_end(base, windows) == base.len())),
        is_steady(s, windows),
{
    let n = base.len() as int;
    lemma_prefix_end(base, windows);
    lemma_prefix_end(s, windows);
    assert(forall|i: int| 0 <= i < n ==> base[i] == s[i]);
    if windows && n > 0 {
        let w = Style::Windows;
        if two_seps(base) {
            if prefix_of(base, windows) is Device {
                lemma_run_end(base, 4, w);
                lemma_run_end(s, 4, w);
                let e = run_end(base, 4, w);
                assert(e < n || needs_sep(base, windows));
                assert(is_sep(s[e], w));
                lemma_run_end_stops(s, 4, e, w);
                assert(s.subrange(4, e) =~= base.subrange(4, e));
            } else {
                lemma_share(base, 2, w);
                lemma_run_end(base, 2, w);
                let e = run_end(base, 2, w);
                lemma_run_end_stops(s, 2, e, w);
                lemma_run_end(base, e + 1, w);
                let f = run_end(base, e + 1, w);
                assert(f < n || needs_sep(base, windows));
                assert(is_sep(s[f], w));
                lemma_run_end_stops(s, e + 1, f, w);
                assert(s.subrange(2, e) =~= base.subrange(2, e));
                assert(s.subrange(e + 1, f) =~= base.subrange(e + 1, f));
            }
        }
    }
}

proof fn lemma_run_end_stops(s: Seq<char>, i: int, e: int, style: Style)
    requires
        0 <= i <= e < s.len(),
        is_sep(s[e], style),
        forall|j: int| i <= j < e ==> !is_sep(#[trigger] s[j], style),
    ensures
        run_end(s, i, style) == e,
    decreases e - i,
{
    if i < e {
        lemma_run_end_stops(s, i + 1, e, style);
    }
}

/// A name behind a steady path, with a separator between where one is needed, becomes the last
/// component.
proof fn lemma_name_behind(base: Seq<char>, mid: Seq<char>, name: Seq<char>, windows: bool)
    requires
        is_steady(base, windows),
        is_name(name, windows),
        needs_sep(base, windows) ==> mid.len() == 1 && is_sep(mid[0], head_style(windows)),
        !needs_sep(base, windows) ==> mid.len() == 0,
    ensures
        ({
            let s = base + mid + name;
            &&& components(s, windows) == components(base, windows).push(name)
            &&& prefix_of(s, windows) == prefix_of(base, windows)
            &&& has_root(s, windows) == has_root(base, windows)
            &&& is_steady(s, windows)
        }),
{
    let s = base + mid + name;
    let n = base.len() as int;
    let from = n + mid.len();
    assert(base =~= s.take(n));
    assert(s.subrange(from, s.len() as int) =~= name);
    assert(s[from] == name[0]);
    if n == 0 {
        assert(s =~= name);
    }
    lemma_head_of_longer(base, s, windows);
    lemma_prefix_end(base, windows);
    lemma_prefix_end(s, windows);
    let (b, first, style) = (body_start(s, windows), prefix_end(s, windows), style_of(s, windows));
    assert(style == head_style(windows));
    let last = (from, s.len() as int);
    assert forall|j: int| from <= j < s.len() implies !is_sep(#[trigger] s[j], style) by {
        assert(s[j] == name[j - from]);
    }
    lemma_run_to_the_end(s, from, style);
    assert(spans(s, s.len() as int, first, style) =~= seq![]);
    assert(spans(s, from, first, style) =~= seq![last]) by {
        assert(seq![last] + spans(s, s.len() as int, first, style) =~= seq![last]);
    }
    assert(b <= from);
    assert(from == b || is_sep(s[from - 1], style)) by {
        if mid.len() == 0 && n > 0 && is_sep(base.last(), style) {
            assert(s[from - 1] == base.last());
        }
    }
    lemma_spans_cut(s, from, b, first, style);
    let t = s.take(from);
    let old = body_spans(base, windows);
    assert(spans(t, b, first, style) == old) by {
        if mid.len() == 0 {
            assert(t =~= base);
        } else if b > n {
            assert(spans(t, b, first, style) =~= seq![]);
            assert(old =~= seq![]);
        } else {
            lemma_spans_cut(t, n, b, first, style);
            assert(t.take(n) =~= base);
            assert(spans(t, n, first, style) =~= seq![]) by {
                assert(is_sep(t[n], style));
                assert(spans(t, n + 1, first, style) =~= seq![]);
            }
            assert(old + seq![] =~= old);
        }
    }
    let sp = body_spans(s, windows);
    assert(sp =~= old.push(last));
    lemma_spans_in_order(base, body_start(base, windows), first, style);
    assert forall|k: int| 0 <= k < sp.len() implies components(s, windows)[k] == components(
        base,
        windows,
    ).push(name)[k] by {
        if k < old.len() {
            assert(span_lies(base, body_start(base, windows), old[k], style));
            assert(s.subrange(old[k].0, old[k].1) =~= base.subrange(old[k].0, old[k].1));
        }
    }
    assert(components(s, windows) =~= components(base, windows).push(name));
}

/// Two names with a `/` between them are two components on every platform.
pub proof fn lemma_slash_divides(base: Seq<char>, name: Seq<char>, windows: bool)
    requires
        is_steady(base, windows),
        needs_sep(base, windows),
        is_name(name, windows),
    ensures
        ({
            let s = base + seq!['/'] + name;
            &&& components(s, windows) == components(base, windows).push(name)
            &&& prefix_of(s, windows) == prefix_of(base, windows)
            &&& has_root(s, windows) == has_root(base, windows)
            &&& is_steady(s, windows)
        }),
{
    lemma_name_behind(base, seq!['/'], name, windows);
}

/// A name joined to a steady path becomes its last component.
pub proof fn law_join_adds_a_component(base: Seq<char>, name: Seq<char>, windows: bool)
    requires
        is_steady(base, windows),
        is_name(name, windows),
    ensures
        ({
            let s = joined(base, name, windows);
            &&& components(s, windows) == components(base, windows).push(name)
            &&& prefix_of(s, windows) == prefix_of(base, windows)
            &&& has_root(s, windows) == has_root(base, windows)
            &&& name_of(s, windows) == Some(name)
            &&& is_steady(s, windows)
        }),
{
    assert(!is_sep(name[0], head_style(windows)));
    lemma_prefix_end(name, windows);
    let mid = if needs_sep(base, windows) {
        seq![main_sep(windows)]
    } else {
        seq![]
    };
    lemma_name_behind(base, mid, name, windows);
    assert(base + mid + name =~= joined(base, name, windows));
}

/// Going to a child and back to its parent leads to the same path.
pub proof fn law_parent_undoes_join(base: Seq<char>, name: Seq<char>, windows: bool)
    requires
        is_steady(base, windows),
        is_name(name, windows),
    ensures
        parent_of(joined(base, name, windows), windows) matches Some(p) && same(p, base, windows),
{
    let s = joined(base, name, windows);
    law_join_adds_a_component(base, name, windows);
    law_parent_drops_the_last_component(s, windows);
    assert(components(s, windows).drop_last() =~= components(base, windows));
}

fn sep(c: char, style: Style) -> (r: bool)
    ensures
        r == is_sep(c, style),
{
    match style {
        Style::Posix => c == '/',
        Style::Windows => c == '/' || c == '\\',
        Style::Verbatim => c == '\\',
    }
}

fn find_run_end(s: &Vec<char>, i: usize, style: Style) -> (r: usize)
    requires
        i <= s@.len(),
    ensures
        r == run_end(s@, i as int, style),
        i <= r <= s@.len(),
{
    let mut j: usize = i;
    while j < s.len() && !sep(s[j], style)
        invariant
            i <= j <= s@.len(),
            run_end(s@, i as int, style) == run_end(s@, j as int, style),
        decreases s@.len() - j,
    {
        j = j + 1;
    }
    j
}

/// What may stand before the root of a path on Windows.
pub enum Prefix {
    Nothing,
    Disk(char),
    Unc(String, String),
    Device(String),
    Verbatim(String),
    VerbatimUnc(String, String),
    VerbatimDisk(char),
}

impl DeepView for Prefix {
    type V = PrefixData;

    open spec fn deep_view(&self) -> PrefixData {
        match self {
            Prefix::Nothing => PrefixData::Nothing,
            Prefix::Disk(c) => PrefixData::Disk(*c),
            Prefix::Unc(server, share) => PrefixData::Unc(server@, share@),
            Prefix::Device(name) => PrefixData::Device(name@),
            Prefix::Verbatim(name) => PrefixData::Verbatim(name@),
            Prefix::VerbatimUnc(server, share) => PrefixData::VerbatimUnc(server@, share@),
            Prefix::VerbatimDisk(c) => PrefixData::VerbatimDisk(*c),
        }
    }
}

impl Prefix {
    fn is_nothing(&self) -> (r: bool)
        ensures
            r == self.deep_view() is Nothing,
    {
        match self {
            Prefix::Nothing => true,
            _ => false,
        }
    }

    fn is_disk(&self) -> (r: bool)
        ensures
            r == self.deep_view() is Disk,
    {
        match self {
            Prefix::Disk(_) => true,
            _ => false,
        }
    }

    fn is_root(&self) -> (r: bool)
        ensures
            r == (self.deep_view() is Unc || self.deep_view() is Device),
    {
        match self {
            Prefix::Unc(_, _) => true,
            Prefix::Device(_) => true,
            _ => false,
        }
    }

    fn is_same(&self, other: &Prefix) -> (r: bool)
        ensures
            r == (self.deep_view() == other.deep_view()),
    {
        match (self, other) {
            (Prefix::Nothing, Prefix::Nothing) => true,
            (Prefix::Disk(a), Prefix::Disk(b)) => *a == *b,
            (Prefix::Unc(a, x), Prefix::Unc(b, y)) => same_text(a.as_str(), b.as_str())
                && same_text(x.as_str(), y.as_str()),
            (Prefix::Device(a), Prefix::Device(b)) => same_text(a.as_str(), b.as_str()),
            (Prefix::Verbatim(a), Prefix::Verbatim(b)) => same_text(a.as_str(), b.as_str()),
            (Prefix::VerbatimUnc(a, x), Prefix::VerbatimUnc(b, y)) => same_text(
                a.as_str(),
                b.as_str(),
            ) && same_text(x.as_str(), y.as_str()),
            (Prefix::VerbatimDisk(a), Prefix::VerbatimDisk(b)) => *a == *b,
            _ => false,
        }
    }
}

fn find_share(s: &str, c: &Vec<char>, from: usize, style: Style) -> (r: (String, String, usize))
    requires
        c@ == s@,
        from <= c@.len(),
    ensures
        (r.0@, r.1@, r.2 as int) == share_at(s@, from as int, style),
{
    let e = find_run_end(c, from, style);
    let server = s.substring_char(from, e).to_owned();
    if e < c.len() {
        let f = find_run_end(c, e + 1, style);
        let share = s.substring_char(e + 1, f).to_owned();
        (
            server,
            share,
            if f > e + 1 {
                f
            } else {
                e
            },
        )
    } else {
        let none = String::new();
        assert(none@ =~= seq![]);
        (server, none, e)
    }
}

fn drive_letter(c: char) -> (r: bool)
    ensures
        r == is_drive_letter(c),
{
    ('a' <= c && c <= 'z') || ('A' <= c && c <= 'Z')
}

fn verbatim(c: &Vec<char>) -> (r: bool)
    ensures
        r == is_verbatim(c@),
{
    c.len() >= 4 && c[0] == '\\' && c[1] == '\\' && c[2] == '?' && c[3] == '\\'
}

fn find_prefix(s: &str, c: &Vec<char>, windows: bool) -> (r: (Prefix, usize))
    requires
        c@ == s@,
    ensures
        (r.0.deep_view(), r.1 as int) == prefix_at(s@, windows),
{
    if !windows {
        return (Prefix::Nothing, 0);
    }
    let n: usize = c.len();
    let w = Style::Windows;
    if verbatim(c) {
        if n >= 8 && c[4] == 'U' && c[5] == 'N' && c[6] == 'C' && sep(c[7], w) {
            let (server, share, end) = find_share(s, c, 8, Style::Verbatim);
            return (Prefix::VerbatimUnc(server, share), end);
        }
        if n >= 6 && drive_letter(c[4]) && c[5] == ':' && (n == 6 || sep(c[6], w)) {
            return (Prefix::VerbatimDisk(upper_of(c[4])), 6);
        }
        let end = find_run_end(c, 4, Style::Verbatim);
        return (Prefix::Verbatim(s.substring_char(4, end).to_owned()), end);
    }
    if n >= 2 && sep(c[0], w) && sep(c[1], w) {
        if n >= 4 && c[2] == '.' && sep(c[3], w) {
            let end = find_run_end(c, 4, w);
            return (Prefix::Device(s.substring_char(4, end).to_owned()), end);
        }
        let (server, share, end) = find_share(s, c, 2, w);
        if !server.as_str().is_empty() && !share.as_str().is_empty() {
            return (Prefix::Unc(server, share), end);
        }
        return (Prefix::Nothing, 0);
    }
    if n >= 2 && drive_letter(c[0]) && c[1] == ':' {
        return (Prefix::Disk(upper_of(c[0])), 2);
    }
    (Prefix::Nothing, 0)
}

/// The head of a path: its prefix and where that ends, whether a root is written, where the body
/// begins, and how it is read.
struct Head {
    prefix: Prefix,
    end: usize,
    rooted: bool,
    start: usize,
    style: Style,
}

impl Head {
    spec fn is_of(&self, s: Seq<char>, windows: bool) -> bool {
        &&& self.prefix.deep_view() == prefix_of(s, windows)
        &&& self.end == prefix_end(s, windows)
        &&& self.rooted == rooted(s, windows)
        &&& self.start == body_start(s, windows)
        &&& self.end <= self.start <= s.len()
        &&& self.style == style_of(s, windows)
    }

    fn has_root(&self) -> (r: bool)
        ensures
            forall|s: Seq<char>, windows: bool| #[trigger]
                self.is_of(s, windows) ==> r == has_root(s, windows),
    {
        self.rooted || self.prefix.is_root()
    }
}

fn outer_style(windows: bool) -> (r: Style)
    ensures
        r == head_style(windows),
{
    if windows {
        Style::Windows
    } else {
        Style::Posix
    }
}

fn find_head(s: &str, c: &Vec<char>, windows: bool) -> (r: Head)
    requires
        c@ == s@,
    ensures
        r.is_of(s@, windows),
{
    let (prefix, end) = find_prefix(s, c, windows);
    proof {
        lemma_prefix_end(s@, windows);
    }
    let rooted = end < c.len() && sep(c[end], outer_style(windows));
    let style = if windows && verbatim(c) {
        Style::Verbatim
    } else {
        outer_style(windows)
    };
    let start: usize = if rooted {
        end + 1
    } else {
        end
    };
    Head { prefix, end, rooted, start, style }
}

spec fn spans_view(v: Seq<(usize, usize)>) -> Seq<(int, int)> {
    Seq::new(v.len(), |k: int| (v[k].0 as int, v[k].1 as int))
}

fn find_spans(s: &Vec<char>, start: usize, first: usize, style: Style) -> (r: Vec<(usize, usize)>)
    requires
        start <= s@.len(),
    ensures
        spans_view(r@) == spans(s@, start as int, first as int, style),
        forall|k: int| 0 <= k < r@.len() ==> (#[trigger] r@[k]).0 <= r@[k].1 <= s@.len(),
{
    let mut out: Vec<(usize, usize)> = Vec::new();
    let mut i: usize = start;
    let ghost all = spans(s@, start as int, first as int, style);
    assert(spans_view(out@) + all =~= all);
    while i < s.len()
        invariant
            i <= s@.len(),
            spans_view(out@) + spans(s@, i as int, first as int, style) == all,
        decreases s@.len() - i,
    {
        if sep(s[i], style) {
            i = i + 1;
        } else {
            let end = find_run_end(s, i, style);
            proof {
                lemma_run_end(s@, i as int, style);
                lemma_run_end(s@, i + 1, style);
            }
            let dot = i != first && style != Style::Verbatim && end - i == 1 && s[i] == '.';
            assert(dot <==> i != first && style != Style::Verbatim && s@.subrange(
                i as int,
                end as int,
            ) == seq!['.']) by {
                if dot {
                    assert(s@.subrange(i as int, end as int) =~= seq!['.']);
                }
                if s@.subrange(i as int, end as int) == seq!['.'] {
                    assert(s@.subrange(i as int, end as int).len() == 1);
                    assert(s@.subrange(i as int, end as int)[0] == s@[i as int]);
                }
            }
            if !dot {
                let ghost before = spans_view(out@);
                let ghost rest = spans(s@, end as int, first as int, style);
                out.push((i, end));
                proof {
                    assert(spans_view(out@) =~= before.push((i as int, end as int)));
                    assert(spans_view(out@) + rest =~= before + (seq![(i as int, end as int)]
                        + rest));
                }
            }
            i = end;
        }
    }
    proof {
        assert(spans_view(out@) + spans(s@, i as int, first as int, style) =~= spans_view(out@));
        lemma_spans_in_order(s@, start as int, first as int, style);
        assert forall|k: int| 0 <= k < out@.len() implies (#[trigger] out@[k]).0 <= out@[k].1
            <= s@.len() by {
            assert(span_lies(s@, start as int, all[k], style));
        }
    }
    out
}

fn find_components(s: &str, c: &Vec<char>, head: &Head, windows: bool) -> (r: Vec<String>)
    requires
        c@ == s@,
        head.is_of(s@, windows),
    ensures
        r.deep_view() == components(s@, windows),
{
    let sp = find_spans(c, head.start, head.end, head.style);
    let ghost all = components(s@, windows);
    let mut out: Vec<String> = Vec::new();
    let mut k: usize = 0;
    while k < sp.len()
        invariant
            k <= sp.len(),
            c@ == s@,
            all == components(s@, windows),
            spans_view(sp@) == body_spans(s@, windows),
            forall|k: int| 0 <= k < sp@.len() ==> (#[trigger] sp@[k]).0 <= sp@[k].1 <= s@.len(),
            out.deep_view() == all.take(k as int),
        decreases sp.len() - k,
    {
        let (from, to) = sp[k];
        let t = s.substring_char(from, to).to_owned();
        let ghost before = out.deep_view();
        out.push(t);
        proof {
            assert(spans_view(sp@)[k as int] == (from as int, to as int));
            assert(out.deep_view() =~= before.push(t@));
            assert(all.take(k + 1) =~= before.push(t@));
        }
        k = k + 1;
    }
    assert(all.take(all.len() as int) =~= all);
    out
}

fn step(names: &mut Vec<String>, next: &String)
    ensures
        final(names).deep_view() == stepped(old(names).deep_view(), next@),
{
    let ghost before = names.deep_view();
    proof {
        reveal_strlit("..");
        reveal_strlit(".");
        assert(".."@ =~= seq!['.', '.']);
        assert("."@ =~= seq!['.']);
    }
    if same_text(next.as_str(), ".") {
        return;
    }
    if same_text(next.as_str(), "..") {
        let n: usize = names.len();
        if n > 0 && !same_text(names[n - 1].as_str(), ".") && !same_text(
            names[n - 1].as_str(),
            "..",
        ) {
            names.pop();
            assert(names.deep_view() =~= before.drop_last());
        }
        return;
    }
    names.push(next.clone());
    assert(names.deep_view() =~= before.push(next@));
}

fn join_verbatim(
    base: &str,
    base_chars: &Vec<char>,
    base_head: &Head,
    rel: &str,
    rel_chars: &Vec<char>,
    rel_head: &Head,
) -> (r: String)
    requires
        base_chars@ == base@,
        base_head.is_of(base@, true),
        rel_chars@ == rel@,
        rel_head.is_of(rel@, true),
    ensures
        r@ == verbatim_joined(base@, rel@),
{
    let mut names: Vec<String> = Vec::new();
    if !rel_head.rooted {
        names = find_components(base, base_chars, base_head, true);
    }
    let ghost started = names.deep_view();
    assert(rel_head.rooted ==> started =~= seq![]);
    let steps = find_components(rel, rel_chars, rel_head, true);
    let ghost all = steps.deep_view();
    let mut i: usize = 0;
    assert(all.take(0) =~= seq![]);
    while i < steps.len()
        invariant
            i <= steps.len(),
            all == steps.deep_view(),
            names.deep_view() == walked(started, all.take(i as int)),
        decreases steps.len() - i,
    {
        proof {
            assert(all.take(i + 1).drop_last() =~= all.take(i as int));
            assert(all.take(i + 1).last() == steps@[i as int]@);
        }
        step(&mut names, &steps[i]);
        i = i + 1;
    }
    assert(all.take(all.len() as int) =~= all);
    let ghost last = names.deep_view();
    let mut out = base.substring_char(0, base_head.end).to_owned();
    let ghost head = base@.take(prefix_end(base@, true));
    assert(out@ =~= head);
    let divided = rel_head.rooted || base_head.rooted || names.len() > 0;
    let ghost mid = if divided {
        seq!['\\']
    } else {
        seq![]
    };
    if divided {
        out.push('\\');
    }
    assert(out@ =~= head + mid + backslashed(last.take(0)));
    let mut k: usize = 0;
    while k < names.len()
        invariant
            k <= names.len(),
            last == names.deep_view(),
            out@ == head + mid + backslashed(last.take(k as int)),
        decreases names.len() - k,
    {
        let ghost before = backslashed(last.take(k as int));
        let ghost t = last.take(k + 1);
        proof {
            assert(t.drop_last() =~= last.take(k as int));
            assert(t.last() == names@[k as int]@);
        }
        if k > 0 {
            out.push('\\');
        }
        out.append(names[k].as_str());
        proof {
            if k > 0 {
                assert(out@ =~= head + mid + (before + seq!['\\'] + names@[k as int]@));
            } else {
                assert(t[0] == names@[0]@);
                assert(out@ =~= head + mid + names@[0]@);
            }
        }
        k = k + 1;
    }
    assert(last.take(last.len() as int) =~= last);
    out
}

/// `rel` seen from `base`.
pub fn join(base: &str, rel: &str, windows: bool) -> (r: String)
    ensures
        r@ == joined(base@, rel@, windows),
{
    let rel_chars = chars_of(rel);
    let rel_head = find_head(rel, &rel_chars, windows);
    if !rel_head.prefix.is_nothing() || (!windows && rel_head.rooted) {
        return rel.to_owned();
    }
    let base_chars = chars_of(base);
    let base_head = find_head(base, &base_chars, windows);
    let n: usize = base_chars.len();
    if windows && verbatim(&base_chars) && rel_chars.len() > 0 {
        return join_verbatim(base, &base_chars, &base_head, rel, &rel_chars, &rel_head);
    }
    if rel_head.rooted {
        let head = base.substring_char(0, base_head.end);
        assert(head@ =~= base@.take(base_head.end as int));
        return concat2(head, rel);
    }
    if n > 0 && !sep(base_chars[n - 1], outer_style(windows)) && !(base_head.prefix.is_disk() && n
        == 2) {
        let mut out = base.to_owned();
        out.push(
            if windows {
                '\\'
            } else {
                '/'
            },
        );
        assert(out@ =~= base@ + seq![main_sep(windows)]);
        out.append(rel);
        return out;
    }
    concat2(base, rel)
}

/// The path without its last component, if it has one.
pub fn parent(s: &str, windows: bool) -> (r: Option<String>)
    ensures
        r.deep_view() == parent_of(s@, windows),
{
    let c = chars_of(s);
    let head = find_head(s, &c, windows);
    let sp = find_spans(&c, head.start, head.end, head.style);
    let n: usize = sp.len();
    assert(n == body_spans(s@, windows).len());
    if n == 0 {
        return None;
    }
    let end: usize = if n == 1 {
        head.start
    } else {
        assert(spans_view(sp@)[n - 2].1 == sp@[n - 2].1);
        sp[n - 2].1
    };
    assert(s@.subrange(0, end as int) =~= s@.take(end as int));
    Some(s.substring_char(0, end).to_owned())
}

/// The path without its last `n` components, if it has that many.
pub fn nth_ancestor(s: &str, n: usize, windows: bool) -> (r: Option<String>)
    ensures
        r.deep_view() == ancestor(s@, n as nat, windows),
    decreases n,
{
    if n == 0 {
        Some(s.to_owned())
    } else {
        match parent(s, windows) {
            Some(p) => nth_ancestor(p.as_str(), n - 1, windows),
            None => None,
        }
    }
}

/// The last component, where it names something.
pub fn file_name(s: &str, windows: bool) -> (r: Option<String>)
    ensures
        r.deep_view() == name_of(s@, windows),
{
    let chars = chars_of(s);
    let head = find_head(s, &chars, windows);
    let mut c = find_components(s, &chars, &head, windows);
    proof {
        reveal_strlit("..");
        reveal_strlit(".");
        assert(".."@ =~= seq!['.', '.']);
        assert("."@ =~= seq!['.']);
    }
    match c.pop() {
        None => None,
        Some(last) => {
            assert(components(s@, windows).last() == last@);
            if same_text(last.as_str(), "..") || same_text(last.as_str(), ".") {
                None
            } else {
                Some(last)
            }
        },
    }
}

fn same_components(a: &Vec<String>, b: &Vec<String>, from: usize) -> (r: bool)
    requires
        from + b@.len() == a@.len(),
    ensures
        r == (a.deep_view().skip(from as int) == b.deep_view()),
{
    let n: usize = a.len();
    let mut i: usize = 0;
    let ghost tail = a.deep_view().skip(from as int);
    while i < b.len()
        invariant
            i <= b.len(),
            from + b@.len() == n == a@.len(),
            tail == a.deep_view().skip(from as int),
            forall|j: int| 0 <= j < i ==> #[trigger] tail[j] == b.deep_view()[j],
        decreases b.len() - i,
    {
        assert(tail[i as int] == a@[from + i]@);
        if !same_text(a[from + i].as_str(), b[i].as_str()) {
            assert(tail[i as int] != b.deep_view()[i as int]);
            return false;
        }
        i = i + 1;
    }
    assert(tail =~= b.deep_view());
    true
}

fn all_same(x: &Vec<String>, y: &Vec<String>) -> (r: bool)
    ensures
        r == (x.deep_view() == y.deep_view()),
{
    if x.len() != y.len() {
        assert(x.deep_view().len() != y.deep_view().len());
        return false;
    }
    assert(x.deep_view().skip(0) =~= x.deep_view());
    same_components(x, y, 0)
}

/// Whether two texts name the same path.
pub fn same_path(a: &str, b: &str, windows: bool) -> (r: bool)
    ensures
        r == same(a@, b@, windows),
{
    let (c, d) = (chars_of(a), chars_of(b));
    let (g, h) = (find_head(a, &c, windows), find_head(b, &d, windows));
    let x = find_components(a, &c, &g, windows);
    let y = find_components(b, &d, &h, windows);
    g.prefix.is_same(&h.prefix) && g.has_root() == h.has_root() && all_same(&x, &y)
}

/// Whether the path ends with the components of `tail`.
pub fn path_ends_with(s: &str, tail: &str, windows: bool) -> (r: bool)
    ensures
        r == ends_with_path(s@, tail@, windows),
{
    let (c, d) = (chars_of(s), chars_of(tail));
    let (g, h) = (find_head(s, &c, windows), find_head(tail, &d, windows));
    let x = find_components(s, &c, &g, windows);
    let y = find_components(tail, &d, &h, windows);
    if !h.prefix.is_nothing() {
        return g.prefix.is_same(&h.prefix) && g.has_root() == h.has_root() && all_same(&x, &y);
    }
    if h.rooted {
        return g.has_root() && all_same(&x, &y);
    }
    if y.len() > x.len() {
        assert(components(tail@, windows).len() > components(s@, windows).len());
        return false;
    }
    let from: usize = x.len() - y.len();
    assert(x.deep_view().skip(from as int) =~= x.deep_view().subrange(
        from as int,
        x@.len() as int,
    ));
    same_components(&x, &y, from)
}

}
