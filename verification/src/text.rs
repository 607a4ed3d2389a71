//! Text helpers. A text is seen as its sequence of characters.
use vstd::prelude::*;
use vstd::string::{StrSliceExecFns, StringExecFns};

verus! {

/// `String::push` appends one character at the end of the text.
pub assume_specification[ String::push ](s: &mut String, c: char)
    ensures
        final(s)@ == old(s)@.push(c),
;

/// Whether a character has the Unicode `White_Space` property.
pub open spec fn is_whitespace(c: char) -> bool {
    let n = c as int;
    ||| 0x9 <= n <= 0xd
    ||| n == 0x20
    ||| n == 0x85
    ||| n == 0xa0
    ||| n == 0x1680
    ||| 0x2000 <= n <= 0x200a
    ||| n == 0x2028
    ||| n == 0x2029
    ||| n == 0x202f
    ||| n == 0x205f
    ||| n == 0x3000
}

/// `char::is_whitespace` tells whether a character has the Unicode `White_Space` property: whether
/// it is one of the twenty-five that have it.
pub assume_specification[ char::is_whitespace ](c: char) -> (r: bool)
    ensures
        r == is_whitespace(c),
;

/// The Unicode lower-case form of a text.
pub uninterp spec fn lowercase(s: Seq<char>) -> Seq<char>;

/// `str::to_lowercase` gives the lower-case form of a text, which depends on its characters alone.
#[verifier::external_body]
pub(crate) fn to_lowercase(s: &str) -> (r: String)
    ensures
        r@ == lowercase(s@),
{
    s.to_lowercase()
}

/// The characters of `s`, in order.
pub fn chars_of(s: &str) -> (r: Vec<char>)
    ensures
        r@ == s@,
{
    let mut out: Vec<char> = Vec::new();
    for c in it: s.chars()
        invariant
            it.seq() == s@,
            out@ == s@.take(it.index() as int),
    {
        out.push(c);
        assert(s@.take(it.index() as int + 1) =~= s@.take(it.index() as int).push(c));
    }
    assert(s@.take(s@.len() as int) =~= s@);
    out
}

/// Whether two texts hold the same characters.
pub fn same_text(a: &str, b: &str) -> (r: bool)
    ensures
        r == (a@ == b@),
{
    let x = chars_of(a);
    let y = chars_of(b);
    if x.len() != y.len() {
        return false;
    }
    let mut i: usize = 0;
    while i < x.len()
        invariant
            i <= x.len(),
            x.len() == y.len(),
            x@ == a@,
            y@ == b@,
            forall|j: int| 0 <= j < i ==> x@[j] == y@[j],
        decreases x.len() - i,
    {
        if x[i] != y[i] {
            return false;
        }
        i = i + 1;
    }
    assert(a@ =~= b@);
    true
}

/// `a` followed by `b`.
pub fn concat2(a: &str, b: &str) -> (r: String)
    ensures
        r@ == a@ + b@,
{
    let mut out = a.to_owned();
    out.append(b);
    out
}

/// `a`, `b` and `c` in a row.
pub fn concat3(a: &str, b: &str, c: &str) -> (r: String)
    ensures
        r@ == a@ + b@ + c@,
{
    let mut out = a.to_owned();
    out.append(b);
    out.append(c);
    out
}

/// What is left of `s` without the characters at its front that meet `skip`.
pub open spec fn trim_start_by(s: Seq<char>, skip: spec_fn(char) -> bool) -> Seq<char>
    decreases s.len(),
{
    if s.len() > 0 && skip(s[0]) {
        trim_start_by(s.drop_first(), skip)
    } else {
        s
    }
}

/// What is left of `s` without the characters at its end that meet `skip`.
pub open spec fn trim_end_by(s: Seq<char>, skip: spec_fn(char) -> bool) -> Seq<char>
    decreases s.len(),
{
    if s.len() > 0 && skip(s.last()) {
        trim_end_by(s.drop_last(), skip)
    } else {
        s
    }
}

/// `s` without white space at either end.
pub open spec fn trimmed(s: Seq<char>) -> Seq<char> {
    trim_end_by(trim_start_by(s, |c: char| is_whitespace(c)), |c: char| is_whitespace(c))
}

/// Whether `s` holds nothing but white space.
pub open spec fn is_blank(s: Seq<char>) -> bool {
    forall|i: int| 0 <= i < s.len() ==> is_whitespace(#[trigger] s[i])
}

/// A text is blank exactly when trimming leaves nothing of it.
pub proof fn law_blank_texts_trim_to_nothing(s: Seq<char>)
    ensures
        is_blank(s) <==> trimmed(s).len() == 0,
{
    let ws = |c: char| is_whitespace(c);
    lemma_trim_start_blank(s);
    let t = trim_start_by(s, ws);
    if t.len() > 0 {
        lemma_trim_end_keeps_head(t);
    }
}

proof fn lemma_trim_start_blank(s: Seq<char>)
    ensures
        ({
            let t = trim_start_by(s, |c: char| is_whitespace(c));
            &&& is_blank(s) <==> t.len() == 0
            &&& t.len() > 0 ==> !is_whitespace(t[0])
        }),
    decreases s.len(),
{
    if s.len() > 0 && is_whitespace(s[0]) {
        lemma_trim_start_blank(s.drop_first());
        assert(is_blank(s) <==> is_blank(s.drop_first())) by {
            if is_blank(s.drop_first()) {
                assert forall|i: int| 0 <= i < s.len() implies is_whitespace(#[trigger] s[i]) by {
                    if i > 0 {
                        assert(s[i] == s.drop_first()[i - 1]);
                    }
                }
            }
            if is_blank(s) {
                assert forall|i: int| 0 <= i < s.drop_first().len() implies is_whitespace(
                    #[trigger] s.drop_first()[i],
                ) by {
                    assert(s[i + 1] == s.drop_first()[i]);
                }
            }
        }
    } else if s.len() > 0 {
        assert(!is_blank(s));
    }
}

proof fn lemma_trim_end_keeps_head(t: Seq<char>)
    requires
        t.len() > 0,
        !is_whitespace(t[0]),
    ensures
        trim_end_by(t, |c: char| is_whitespace(c)).len() > 0,
    decreases t.len(),
{
    if is_whitespace(t.last()) {
        lemma_trim_end_keeps_head(t.drop_last());
    }
}

/// `s` without white space at either end.
pub fn trim(s: &str) -> (r: String)
    ensures
        r@ == trimmed(s@),
{
    let chars = chars_of(s);
    let n: usize = chars.len();
    let ghost ws = |c: char| is_whitespace(c);
    let mut i: usize = 0;
    assert(s@.skip(0) =~= s@);
    while i < n && chars[i].is_whitespace()
        invariant
            i <= n,
            n == chars.len(),
            chars@ == s@,
            ws == (|c: char| is_whitespace(c)),
            trim_start_by(s@, ws) == trim_start_by(s@.skip(i as int), ws),
        decreases n - i,
    {
        assert(s@.skip(i as int).drop_first() =~= s@.skip(i + 1));
        i = i + 1;
    }
    let mut j: usize = n;
    let ghost t = s@.skip(i as int);
    assert(trim_start_by(s@, ws) == t);
    assert(t.take(n - i) =~= t);
    while j > i && chars[j - 1].is_whitespace()
        invariant
            i <= j <= n,
            n == chars.len(),
            chars@ == s@,
            t == s@.skip(i as int),
            ws == (|c: char| is_whitespace(c)),
            trim_end_by(t, ws) == trim_end_by(t.take(j - i), ws),
        decreases j,
    {
        assert(t.take(j - i).drop_last() =~= t.take(j - 1 - i));
        j = j - 1;
    }
    assert(s@.subrange(i as int, j as int) =~= t.take(j - i));
    s.substring_char(i, j).to_owned()
}

/// Whether `s` holds nothing but white space.
pub fn blank(s: &str) -> (r: bool)
    ensures
        r == is_blank(s@),
{
    for c in it: s.chars()
        invariant
            it.seq() == s@,
            forall|i: int| 0 <= i < it.index() ==> is_whitespace(#[trigger] s@[i]),
    {
        if !c.is_whitespace() {
            return false;
        }
    }
    true
}

/// Whether `s` ends with `suffix`.
pub fn ends_with(s: &str, suffix: &str) -> (r: bool)
    ensures
        r == suffix@.is_suffix_of(s@),
{
    let x = chars_of(s);
    let p = chars_of(suffix);
    if p.len() > x.len() {
        return false;
    }
    let base: usize = x.len() - p.len();
    let mut i: usize = 0;
    while i < p.len()
        invariant
            i <= p.len() <= x.len(),
            base == x.len() - p.len(),
            x@ == s@,
            p@ == suffix@,
            forall|j: int| 0 <= j < i ==> x@[base + j] == p@[j],
        decreases p.len() - i,
    {
        if x[base + i] != p[i] {
            assert(suffix@[i as int] != s@.subrange(base as int, s@.len() as int)[i as int]);
            return false;
        }
        i = i + 1;
    }
    assert(suffix@ =~= s@.subrange(base as int, s@.len() as int));
    true
}

/// `s` without `suffix` at its end, as often as it stands there.
pub open spec fn without_suffix(s: Seq<char>, suffix: Seq<char>) -> Seq<char>
    decreases s.len(),
{
    if suffix.len() > 0 && suffix.is_suffix_of(s) {
        without_suffix(s.take(s.len() - suffix.len()), suffix)
    } else {
        s
    }
}

/// `s` without `suffix` at its end, as often as it stands there.
pub fn trim_end_matches(s: &str, suffix: &str) -> (r: String)
    ensures
        r@ == without_suffix(s@, suffix@),
{
    let x = chars_of(s);
    let p = chars_of(suffix);
    let mut end: usize = x.len();
    assert(s@.take(s@.len() as int) =~= s@);
    while p.len() > 0 && p.len() <= end && run_matches(&x, &p, end - p.len())
        invariant
            end <= x.len(),
            x@ == s@,
            p@ == suffix@,
            without_suffix(s@, suffix@) == without_suffix(s@.take(end as int), suffix@),
        decreases end,
    {
        proof {
            let t = s@.take(end as int);
            let cut = end - p@.len();
            assert(t.subrange(cut, end as int) =~= s@.subrange(cut, end as int));
            assert(suffix@.is_suffix_of(t));
            assert(t.take(cut) =~= s@.take(cut));
        }
        end = end - p.len();
    }
    proof {
        let t = s@.take(end as int);
        if suffix@.len() > 0 && suffix@.is_suffix_of(t) {
            let cut = end - p@.len();
            assert(t.subrange(cut, end as int) =~= s@.subrange(cut, end as int));
        }
        assert(s@.subrange(0, end as int) =~= t);
    }
    s.substring_char(0, end).to_owned()
}

fn run_matches(x: &Vec<char>, p: &Vec<char>, at: usize) -> (r: bool)
    requires
        at + p@.len() <= x@.len(),
    ensures
        r == (x@.subrange(at as int, at + p@.len()) == p@),
{
    let n: usize = x.len();
    let mut i: usize = 0;
    while i < p.len()
        invariant
            i <= p.len(),
            n == x@.len(),
            at + p@.len() <= n,
            forall|j: int| 0 <= j < i ==> x@[at + j] == p@[j],
        decreases p.len() - i,
    {
        if x[at + i] != p[i] {
            assert(x@.subrange(at as int, at + p@.len())[i as int] != p@[i as int]);
            return false;
        }
        i = i + 1;
    }
    assert(x@.subrange(at as int, at + p@.len()) =~= p@);
    true
}

/// Whether `part` occurs in `s` at position `at`.
pub open spec fn occurs_at(s: Seq<char>, part: Seq<char>, at: int) -> bool {
    0 <= at && at + part.len() <= s.len() && s.subrange(at, at + part.len()) == part
}

/// Whether `part` occurs somewhere in `s`.
pub open spec fn occurs_in(s: Seq<char>, part: Seq<char>) -> bool {
    exists|at: int| occurs_at(s, part, at)
}

/// Whether `part` occurs somewhere in `s`.
pub fn contains(s: &str, part: &str) -> (r: bool)
    ensures
        r == occurs_in(s@, part@),
{
    let x = chars_of(s);
    let p = chars_of(part);
    if p.len() > x.len() {
        return false;
    }
    let last: usize = x.len() - p.len();
    let mut at: usize = 0;
    loop
        invariant
            at <= last,
            last == x.len() - p.len(),
            p.len() <= x.len(),
            x@ == s@,
            p@ == part@,
            forall|k: int| 0 <= k < at ==> !occurs_at(s@, part@, k),
        decreases last - at,
    {
        let mut i: usize = 0;
        while i < p.len() && x[at + i] == p[i]
            invariant
                at <= last,
                last == x.len() - p.len(),
                i <= p.len() <= x.len(),
                x@ == s@,
                p@ == part@,
                forall|j: int| 0 <= j < i ==> x@[at + j] == p@[j],
            decreases p.len() - i,
        {
            i = i + 1;
        }
        if i == p.len() {
            assert(s@.subrange(at as int, at + part@.len()) =~= part@);
            assert(occurs_at(s@, part@, at as int));
            return true;
        }
        assert(s@.subrange(at as int, at + part@.len())[i as int] == x@[at + i]);
        assert(!occurs_at(s@, part@, at as int));
        if at == last {
            return false;
        }
        at = at + 1;
    }
}

/// Where the last `c` of `s` stands.
pub open spec fn last_position(s: Seq<char>, c: char) -> Option<int>
    decreases s.len(),
{
    if s.len() == 0 {
        None
    } else if s.last() == c {
        Some(s.len() - 1)
    } else {
        last_position(s.drop_last(), c)
    }
}

/// `last_position` is the greatest index at which `c` stands, if there is one.
pub proof fn lemma_last_position(s: Seq<char>, c: char)
    ensures
        match last_position(s, c) {
            Some(i) => {
                &&& 0 <= i < s.len()
                &&& s[i] == c
                &&& forall|j: int| i < j < s.len() ==> s[j] != c
            },
            None => forall|j: int| 0 <= j < s.len() ==> s[j] != c,
        },
    decreases s.len(),
{
    if s.len() > 0 && s.last() != c {
        lemma_last_position(s.drop_last(), c);
        assert(forall|j: int| 0 <= j < s.len() - 1 ==> s.drop_last()[j] == s[j]);
    }
}

/// Where the last `c` of `s` stands, if there is one.
pub fn find_last(s: &str, c: char) -> (r: Option<usize>)
    ensures
        match r {
            Some(i) => last_position(s@, c) == Some(i as int) && i < s@.len(),
            None => last_position(s@, c) is None,
        },
{
    let x = chars_of(s);
    let mut i: usize = x.len();
    assert(s@.take(s@.len() as int) =~= s@);
    while i > 0
        invariant
            i <= x.len(),
            x@ == s@,
            last_position(s@, c) == last_position(s@.take(i as int), c),
        decreases i,
    {
        if x[i - 1] == c {
            return Some(i - 1);
        }
        assert(s@.take(i as int).drop_last() =~= s@.take(i - 1));
        i = i - 1;
    }
    None
}

/// `s` up to the last `c` in it, or all of `s` where there is none.
pub open spec fn before_last(s: Seq<char>, c: char) -> Seq<char> {
    match last_position(s, c) {
        Some(i) => s.take(i),
        None => s,
    }
}

/// Where the line that is under way at `i` ends.
pub open spec fn line_end(s: Seq<char>, i: int) -> int
    decreases s.len() - i,
{
    if i < 0 || i >= s.len() || s[i] == '\n' {
        i
    } else {
        line_end(s, i + 1)
    }
}

/// A line without the carriage return at its end.
pub open spec fn without_return(line: Seq<char>) -> Seq<char> {
    if line.len() > 0 && line.last() == '\r' {
        line.drop_last()
    } else {
        line
    }
}

/// The lines of `s` from index `from` on. A line ends with a line feed, or a carriage return and a
/// line feed, neither of which is part of it; the last line need not end with one.
pub open spec fn lines_from(s: Seq<char>, from: int) -> Seq<Seq<char>>
    decreases s.len() - from,
    when 0 <= from
    via lines_go_on
{
    if from >= s.len() {
        seq![]
    } else {
        let e = line_end(s, from);
        if e >= s.len() {
            seq![s.subrange(from, s.len() as int)]
        } else {
            seq![without_return(s.subrange(from, e))] + lines_from(s, e + 1)
        }
    }
}

#[via_fn]
proof fn lines_go_on(s: Seq<char>, from: int) {
    if 0 <= from < s.len() {
        lemma_line_end(s, from);
    }
}

proof fn lemma_line_end(s: Seq<char>, i: int)
    requires
        0 <= i <= s.len(),
    ensures
        i <= line_end(s, i) <= s.len(),
    decreases s.len() - i,
{
    if i < s.len() && s[i] != '\n' {
        lemma_line_end(s, i + 1);
    }
}

/// The lines of a text.
pub fn text_lines(s: &str) -> (r: Vec<String>)
    ensures
        r.deep_view() == lines_from(s@, 0),
{
    let x = chars_of(s);
    let n: usize = x.len();
    let mut out: Vec<String> = Vec::new();
    let mut from: usize = 0;
    assert(out.deep_view() + lines_from(s@, 0) =~= lines_from(s@, 0));
    while from < n
        invariant
            from <= n,
            n == x.len(),
            x@ == s@,
            out.deep_view() + lines_from(s@, from as int) == lines_from(s@, 0),
        decreases n - from,
    {
        let mut e: usize = from;
        while e < n && x[e] != '\n'
            invariant
                from <= e <= n,
                n == x.len(),
                x@ == s@,
                line_end(s@, from as int) == line_end(s@, e as int),
            decreases n - e,
        {
            e = e + 1;
        }
        let ended = e < n;
        let end: usize = if ended && e > from && x[e - 1] == '\r' {
            e - 1
        } else {
            e
        };
        let line = s.substring_char(from, end).to_owned();
        let ghost before = out.deep_view();
        out.push(line);
        proof {
            assert(out.deep_view() =~= before.push(line@));
            let whole = s@.subrange(from as int, e as int);
            if ended {
                assert(line@ =~= without_return(whole));
                assert(before + (seq![line@] + lines_from(s@, e + 1)) =~= before.push(line@)
                    + lines_from(s@, e + 1));
            } else {
                assert(line@ =~= whole);
                assert(before + seq![line@] =~= before.push(line@));
                assert(before.push(line@) + lines_from(s@, n as int) =~= before.push(line@));
            }
        }
        from = if ended {
            e + 1
        } else {
            n
        };
    }
    assert(out.deep_view() + lines_from(s@, from as int) =~= out.deep_view());
    out
}

/// A letter of the English alphabet in upper case; any other character as it is.
pub open spec fn upper_char(c: char) -> char {
    if 'a' <= c && c <= 'z' {
        (c as int - 32) as char
    } else {
        c
    }
}

/// A text with the letters of the English alphabet in upper case.
pub open spec fn upper(s: Seq<char>) -> Seq<char> {
    s.map_values(|c: char| upper_char(c))
}

/// A letter of the English alphabet in upper case; any other character as it is.
pub fn upper_of(c: char) -> (r: char)
    ensures
        r == upper_char(c),
{
    if 'a' <= c && c <= 'z' {
        ((c as u8) - 32) as char
    } else {
        c
    }
}

/// A text with the letters of the English alphabet in upper case.
pub fn ascii_upper(s: &str) -> (r: String)
    ensures
        r@ == upper(s@),
{
    let chars = chars_of(s);
    let mut out = String::new();
    let mut i: usize = 0;
    assert(out@ =~= upper(s@).take(0));
    while i < chars.len()
        invariant
            i <= chars.len(),
            chars@ == s@,
            out@ == upper(s@).take(i as int),
        decreases chars.len() - i,
    {
        let c = chars[i];
        let ghost before = out@;
        out.push(upper_of(c));
        assert(out@ =~= before.push(upper_char(c)));
        assert(out@ =~= upper(s@).take(i + 1));
        i = i + 1;
    }
    assert(upper(s@).take(s@.len() as int) =~= upper(s@));
    out
}

/// The hexadecimal digit of a number below sixteen, in lower case.
pub open spec fn hex_digit(d: int) -> char {
    if d < 10 {
        (('0' as int) + d) as char
    } else {
        (('a' as int) + d - 10) as char
    }
}

/// The two hexadecimal digits of a byte.
pub open spec fn hex_byte(b: u8) -> Seq<char> {
    seq![hex_digit(b as int / 16), hex_digit(b as int % 16)]
}

/// The hexadecimal digits of a run of bytes.
pub open spec fn hex(bytes: Seq<u8>) -> Seq<char>
    decreases bytes.len(),
{
    if bytes.len() == 0 {
        seq![]
    } else {
        hex(bytes.drop_last()) + hex_byte(bytes.last())
    }
}

fn hex_char(d: u8) -> (r: char)
    requires
        d < 16,
    ensures
        r == hex_digit(d as int),
{
    if d < 10 {
        (48 + d) as char
    } else {
        (97 + (d - 10)) as char
    }
}

/// The hexadecimal digits of the first `n` bytes.
pub fn hex_of(bytes: &[u8], n: usize) -> (r: String)
    requires
        n <= bytes@.len(),
    ensures
        r@ == hex(bytes@.take(n as int)),
{
    let mut out = String::new();
    let mut i: usize = 0;
    while i < n
        invariant
            i <= n <= bytes@.len(),
            out@ == hex(bytes@.take(i as int)),
        decreases n - i,
    {
        let b = bytes[i];
        out.push(hex_char(b / 16));
        out.push(hex_char(b % 16));
        proof {
            let t = bytes@.take(i + 1);
            assert(t.drop_last() =~= bytes@.take(i as int));
            assert(hex(t) == hex(t.drop_last()) + hex_byte(t.last()));
            assert(out@ =~= hex(t.drop_last()) + hex_byte(t.last()));
        }
        i = i + 1;
    }
    out
}

/// The decimal digits of a number.
pub open spec fn decimal(n: nat) -> Seq<char>
    decreases n,
{
    if n < 10 {
        seq![hex_digit(n as int)]
    } else {
        decimal(n / 10).push(hex_digit((n % 10) as int))
    }
}

/// The decimal digits of a number.
pub fn decimal_of(n: u64) -> (r: String)
    ensures
        r@ == decimal(n as nat),
    decreases n,
{
    if n < 10 {
        let mut out = String::new();
        out.push(hex_char(n as u8));
        assert(out@ =~= seq![hex_digit(n as int)]);
        out
    } else {
        let mut out = decimal_of(n / 10);
        out.push(hex_char((n % 10) as u8));
        out
    }
}

/// The last `n` hexadecimal digits of a number, zeros in front where it has fewer.
pub open spec fn hex_padded(v: int, n: nat) -> Seq<char>
    decreases n,
{
    if n == 0 {
        seq![]
    } else {
        hex_padded(v / 16, (n - 1) as nat).push(hex_digit(v % 16))
    }
}

/// The last `n` hexadecimal digits of a number, zeros in front where it has fewer.
pub fn hex_padded_of(v: u64, n: usize) -> (r: String)
    ensures
        r@ == hex_padded(v as int, n as nat),
    decreases n,
{
    if n == 0 {
        let out = String::new();
        assert(out@ =~= seq![]);
        out
    } else {
        let mut out = hex_padded_of(v / 16, n - 1);
        out.push(hex_char((v % 16) as u8));
        out
    }
}

proof fn lemma_hex_digit_apart(a: int, b: int)
    requires
        0 <= a < 16,
        0 <= b < 16,
        hex_digit(a) == hex_digit(b),
    ensures
        a == b,
{
    assert(hex_digit(a) as int == if a < 10 { 48 + a } else { 87 + a });
    assert(hex_digit(b) as int == if b < 10 { 48 + b } else { 87 + b });
}

proof fn lemma_decimal_len(n: nat)
    ensures
        decimal(n).len() >= 1,
        n >= 10 ==> decimal(n).len() >= 2,
    decreases n,
{
    if n >= 10 {
        lemma_decimal_len(n / 10);
    }
}

/// Two numbers with the same decimal digits are the same number.
pub proof fn law_decimal_tells_numbers_apart(a: nat, b: nat)
    requires
        decimal(a) == decimal(b),
    ensures
        a == b,
    decreases a,
{
    lemma_decimal_len(a);
    lemma_decimal_len(b);
    let (x, y) = (decimal(a), decimal(b));
    assert(x.last() == y.last());
    lemma_hex_digit_apart((a % 10) as int, (b % 10) as int);
    if a >= 10 && b >= 10 {
        assert(x.drop_last() =~= decimal(a / 10));
        assert(y.drop_last() =~= decimal(b / 10));
        law_decimal_tells_numbers_apart(a / 10, b / 10);
    }
}

pub proof fn lemma_hex_padded_len(v: int, n: nat)
    ensures
        hex_padded(v, n).len() == n,
    decreases n,
{
    if n > 0 {
        lemma_hex_padded_len(v / 16, (n - 1) as nat);
    }
}

/// How many numbers `n` hexadecimal digits can tell apart.
pub open spec fn hex_range(n: nat) -> int
    decreases n,
{
    if n == 0 {
        1
    } else {
        16 * hex_range((n - 1) as nat)
    }
}

/// Sixteen hexadecimal digits hold every 64-bit number.
pub proof fn lemma_sixteen_digits_hold_a_word()
    ensures
        hex_range(16) == u64::MAX + 1,
{
    reveal_with_fuel(hex_range, 17);
}

/// Two numbers that fit their digits and have the same digits are the same number.
pub proof fn law_hex_padded_tells_numbers_apart(a: int, b: int, n: nat)
    requires
        0 <= a < hex_range(n),
        0 <= b < hex_range(n),
        hex_padded(a, n) == hex_padded(b, n),
    ensures
        a == b,
    decreases n,
{
    if n > 0 {
        let (x, y) = (hex_padded(a, n), hex_padded(b, n));
        assert(x.last() == y.last());
        lemma_hex_digit_apart(a % 16, b % 16);
        assert(x.drop_last() =~= hex_padded(a / 16, (n - 1) as nat));
        assert(y.drop_last() =~= hex_padded(b / 16, (n - 1) as nat));
        law_hex_padded_tells_numbers_apart(a / 16, b / 16, (n - 1) as nat);
    }
}

/// Hexadecimal digits are no dashes.
pub proof fn lemma_hex_has_no_dash(bytes: Seq<u8>)
    ensures
        forall|i: int| 0 <= i < hex(bytes).len() ==> #[trigger] hex(bytes)[i] != '-',
    decreases bytes.len(),
{
    if bytes.len() > 0 {
        lemma_hex_has_no_dash(bytes.drop_last());
        let b = bytes.last() as int;
        assert(hex_digit(b / 16) as int >= 48);
        assert(hex_digit(b % 16) as int >= 48);
        let before = hex(bytes.drop_last());
        assert forall|i: int| 0 <= i < hex(bytes).len() implies #[trigger] hex(bytes)[i] != '-' by {
            if i < before.len() {
                assert(hex(bytes)[i] == before[i]);
            } else {
                assert(hex(bytes)[i] == hex_byte(bytes.last())[i - before.len()]);
            }
        }
    }
}

proof fn lemma_trim_start_cuts(s: Seq<char>) -> (i: int)
    ensures
        0 <= i <= s.len(),
        trim_start_by(s, |c: char| is_whitespace(c)) == s.skip(i),
        forall|k: int| 0 <= k < i ==> is_whitespace(#[trigger] s[k]),
        i < s.len() ==> !is_whitespace(s[i]),
    decreases s.len(),
{
    if s.len() > 0 && is_whitespace(s[0]) {
        let rest = s.drop_first();
        let i = lemma_trim_start_cuts(rest);
        assert(rest.skip(i) =~= s.skip(i + 1));
        assert forall|k: int| 0 <= k < i + 1 implies is_whitespace(#[trigger] s[k]) by {
            if k > 0 {
                assert(rest[k - 1] == s[k]);
            }
        }
        if i < rest.len() {
            assert(rest[i] == s[i + 1]);
        }
        i + 1
    } else {
        assert(s.skip(0) =~= s);
        0
    }
}

proof fn lemma_trim_end_cuts(s: Seq<char>) -> (j: int)
    ensures
        0 <= j <= s.len(),
        trim_end_by(s, |c: char| is_whitespace(c)) == s.take(j),
        forall|k: int| j <= k < s.len() ==> is_whitespace(#[trigger] s[k]),
        j > 0 ==> !is_whitespace(s[j - 1]),
    decreases s.len(),
{
    if s.len() > 0 && is_whitespace(s.last()) {
        let rest = s.drop_last();
        let j = lemma_trim_end_cuts(rest);
        assert(rest.take(j) =~= s.take(j));
        assert forall|k: int| j <= k < s.len() implies is_whitespace(#[trigger] s[k]) by {
            if k < rest.len() {
                assert(rest[k] == s[k]);
            }
        }
        j
    } else {
        assert(s.take(s.len() as int) =~= s);
        s.len() as int
    }
}

/// Trimming takes white space away and nothing else: what is left is a stretch of the text with
/// only white space around it, and neither begins nor ends with any.
pub proof fn law_trimming_takes_white_space_only(s: Seq<char>) -> (cut: (int, int))
    ensures
        0 <= cut.0 <= cut.1 <= s.len(),
        trimmed(s) == s.subrange(cut.0, cut.1),
        forall|k: int|
            0 <= k < s.len() && !(cut.0 <= k < cut.1) ==> is_whitespace(#[trigger] s[k]),
        trimmed(s).len() > 0 ==> !is_whitespace(trimmed(s)[0]) && !is_whitespace(trimmed(s).last()),
{
    let i = lemma_trim_start_cuts(s);
    let t = s.skip(i);
    let j = lemma_trim_end_cuts(t);
    assert(t.take(j) =~= s.subrange(i, i + j));
    assert forall|k: int| 0 <= k < s.len() && !(i <= k < i + j) implies is_whitespace(
        #[trigger] s[k],
    ) by {
        if k >= i + j {
            assert(t[k - i] == s[k]);
        }
    }
    if j > 0 {
        assert(trimmed(s)[0] == s[i]);
        assert(trimmed(s).last() == t[j - 1]);
    }
    (i, i + j)
}

/// `part` as often as `n` says.
pub open spec fn repeated(part: Seq<char>, n: nat) -> Seq<char>
    decreases n,
{
    if n == 0 {
        seq![]
    } else {
        repeated(part, (n - 1) as nat) + part
    }
}

/// What a text is without an ending: the beginning of the text that no longer has that ending, and
/// nothing but that ending, over and over, was taken away.
pub proof fn law_endings_are_taken_away(s: Seq<char>, suffix: Seq<char>) -> (n: nat)
    ensures
        s == without_suffix(s, suffix) + repeated(suffix, n),
        suffix.len() > 0 ==> !suffix.is_suffix_of(without_suffix(s, suffix)),
    decreases s.len(),
{
    if suffix.len() > 0 && suffix.is_suffix_of(s) {
        let less = s.take(s.len() - suffix.len());
        let n = law_endings_are_taken_away(less, suffix);
        assert(s =~= less + suffix);
        assert(s =~= without_suffix(s, suffix) + (repeated(suffix, n) + suffix));
        n + 1
    } else {
        assert(s =~= s + repeated(suffix, 0));
        0
    }
}

/// The number that some decimal digits stand for.
pub open spec fn number_of(digits: Seq<char>) -> int
    decreases digits.len(),
{
    if digits.len() == 0 {
        0
    } else {
        10 * number_of(digits.drop_last()) + (digits.last() as int - '0' as int)
    }
}

/// The decimal digits of a number are digits, and stand for that number.
pub proof fn law_digits_stand_for_their_number(n: nat)
    ensures
        number_of(decimal(n)) == n,
        forall|i: int| 0 <= i < decimal(n).len() ==> '0' <= #[trigger] decimal(n)[i] <= '9',
        decimal(n).len() > 0,
        n > 0 ==> decimal(n)[0] != '0',
    decreases n,
{
    let last = hex_digit((n % 10) as int);
    assert(last as int == '0' as int + n % 10);
    if n >= 10 {
        law_digits_stand_for_their_number(n / 10);
        assert(decimal(n).drop_last() =~= decimal(n / 10));
    } else {
        assert(decimal(n).drop_last() =~= seq![]);
        assert(number_of(seq![]) == 0);
    }
}

/// A line feed ends a line: what stands before the first is the first line, without a carriage return
/// at its end, and what stands behind it makes the other lines. A text without a line feed is one
/// line, as long as there is anything in it.
pub proof fn law_line_feeds_end_lines(first: Seq<char>, rest: Seq<char>)
    requires
        !first.contains('\n'),
    ensures
        lines_from(first + seq!['\n'] + rest, 0) == seq![without_return(first)] + lines_from(rest, 0),
        first.len() > 0 ==> lines_from(first, 0) == seq![first],
        lines_from(seq![], 0).len() == 0,
{
    let s = first + seq!['\n'] + rest;
    let n = first.len() as int;
    assert forall|k: int| 0 <= k < n implies s[k] != '\n' && first[k] != '\n' by {
        assert(first[k] == s[k]);
        assert(first.contains(first[k]));
    }
    assert(s[n] == '\n');
    lemma_line_ends_at(s, 0, n);
    assert(s.subrange(0, n) =~= first);
    assert(s.skip(n + 1) =~= rest);
    lemma_lines_behind(s, rest, n + 1, 0);
    if n > 0 {
        lemma_line_ends_at(first, 0, n);
        assert(first.subrange(0, n) =~= first);
    }
}

proof fn lemma_line_ends_at(s: Seq<char>, i: int, e: int)
    requires
        0 <= i <= e <= s.len(),
        forall|k: int| i <= k < e ==> s[k] != '\n',
        e < s.len() ==> s[e] == '\n',
    ensures
        line_end(s, i) == e,
    decreases e - i,
{
    if i < e {
        lemma_line_ends_at(s, i + 1, e);
    }
}

proof fn lemma_lines_behind(s: Seq<char>, rest: Seq<char>, at: int, from: int)
    requires
        0 <= at <= s.len(),
        0 <= from <= rest.len(),
        rest == s.skip(at),
    ensures
        lines_from(s, at + from) == lines_from(rest, from),
    decreases rest.len() - from,
{
    if from < rest.len() {
        lemma_line_end(rest, from);
        lemma_end_behind(s, rest, at, from);
        let e = line_end(rest, from);
        assert(s.subrange(at + from, at + e) =~= rest.subrange(from, e));
        if e < rest.len() {
            lemma_lines_behind(s, rest, at, e + 1);
        }
    }
}

proof fn lemma_end_behind(s: Seq<char>, rest: Seq<char>, at: int, i: int)
    requires
        0 <= at <= s.len(),
        0 <= i <= rest.len(),
        rest == s.skip(at),
    ensures
        line_end(s, at + i) == at + line_end(rest, i),
    decreases rest.len() - i,
{
    if i < rest.len() && rest[i] != '\n' {
        lemma_end_behind(s, rest, at, i + 1);
    }
}

/// The number that a hexadecimal digit stands for.
pub open spec fn digit_value(c: char) -> int {
    if '0' <= c && c <= '9' {
        c as int - '0' as int
    } else {
        c as int - 'a' as int + 10
    }
}

/// The hexadecimal digits of some bytes stand for these bytes, two for each and in order.
pub proof fn law_hex_digits_stand_for_their_bytes(bytes: Seq<u8>, i: int)
    requires
        0 <= i < bytes.len(),
    ensures
        hex(bytes).len() == 2 * bytes.len(),
        16 * digit_value(hex(bytes)[2 * i]) + digit_value(hex(bytes)[2 * i + 1]) == bytes[i],
    decreases bytes.len(),
{
    let less = bytes.drop_last();
    lemma_two_digits_each(bytes);
    lemma_two_digits_each(less);
    if i < less.len() {
        law_hex_digits_stand_for_their_bytes(less, i);
        assert(hex(bytes)[2 * i] == hex(less)[2 * i]);
        assert(hex(bytes)[2 * i + 1] == hex(less)[2 * i + 1]);
    } else {
        let b = bytes[i] as int;
        assert(hex(bytes)[2 * i] == hex_digit(b / 16));
        assert(hex(bytes)[2 * i + 1] == hex_digit(b % 16));
        lemma_digit_value(b / 16);
        lemma_digit_value(b % 16);
    }
}

proof fn lemma_two_digits_each(bytes: Seq<u8>)
    ensures
        hex(bytes).len() == 2 * bytes.len(),
    decreases bytes.len(),
{
    if bytes.len() > 0 {
        lemma_two_digits_each(bytes.drop_last());
    }
}

proof fn lemma_digit_value(d: int)
    requires
        0 <= d < 16,
    ensures
        digit_value(hex_digit(d)) == d,
{
    assert(hex_digit(d) as int == if d < 10 { 48 + d } else { 87 + d });
}

/// In capitals no small letter of the English alphabet is left, every other character stays, and
/// nothing moves.
pub proof fn law_capitals_stand_for_their_letters(s: Seq<char>, i: int)
    requires
        0 <= i < s.len(),
    ensures
        upper(s).len() == s.len(),
        !('a' <= upper(s)[i] && upper(s)[i] <= 'z'),
        'a' <= s[i] && s[i] <= 'z' ==> upper(s)[i] as int - 'A' as int == s[i] as int - 'a' as int,
        !('a' <= s[i] && s[i] <= 'z') ==> upper(s)[i] == s[i],
{
}

}
