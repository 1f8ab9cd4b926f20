//! Text as sequences of characters: building, trimming, splitting and
//! measuring strings.

use vstd::prelude::*;
use vstd::string::*;
use vstd::utf8::*;

verus! {

// ---------------------------------------------------------------------------
// Building
// ---------------------------------------------------------------------------

/// `String::push` appends the given character.
pub assume_specification[ String::push ](s: &mut String, c: char)
    ensures
        final(s)@ == old(s)@.push(c),
;

/// `String::push_str` appends the given text.
pub assume_specification[ String::push_str ](s: &mut String, t: &str)
    ensures
        final(s)@ == old(s)@ + t@,
;

/// `str` equality compares the two texts character for character.
pub assume_specification[ <str as PartialEq>::eq ](a: &str, b: &str) -> (r: bool)
    ensures
        r == (a@ == b@),
;

/// The characters of `s` in order.
pub fn chars_of(s: &str) -> (v: Vec<char>)
    ensures
        v@ == s@,
{
    let mut v: Vec<char> = Vec::new();
    for c in it: s.chars()
        invariant
            v@ == it.seq().take(it.index() as int),
            it.seq() == s@,
    {
        v.push(c);
    }
    v
}

/// The text made of `v[from..to]`.
pub fn string_of(v: &Vec<char>, from: usize, to: usize) -> (s: String)
    requires
        from <= to <= v@.len(),
    ensures
        s@ == v@.subrange(from as int, to as int),
{
    let mut s = String::new();
    let mut i: usize = from;
    while i < to
        invariant
            from <= i <= to <= v@.len(),
            s@ == v@.subrange(from as int, i as int),
        decreases to - i,
    {
        s.push(v[i]);
        i += 1;
        assert(s@ =~= v@.subrange(from as int, i as int));
    }
    s
}

/// A copy of the texts in `v`.
pub fn copy_texts(v: &Vec<String>) -> (r: Vec<String>)
    ensures
        r.deep_view() == v.deep_view(),
{
    let r = v.clone();
    assert(r.deep_view() =~= v.deep_view());
    r
}

/// Whether `a` and `b` are the same text.
pub fn same(a: &str, b: &str) -> (r: bool)
    ensures
        r == (a@ == b@),
{
    *a == *b
}

// ---------------------------------------------------------------------------
// White space
// ---------------------------------------------------------------------------

/// Whether `c` is white space: the Unicode `White_Space` property.
pub open spec fn white(c: char) -> bool {
    ||| '\u{9}' <= c <= '\u{d}'
    ||| c == ' '
    ||| c == '\u{85}'
    ||| c == '\u{a0}'
    ||| c == '\u{1680}'
    ||| '\u{2000}' <= c <= '\u{200a}'
    ||| c == '\u{2028}'
    ||| c == '\u{2029}'
    ||| c == '\u{202f}'
    ||| c == '\u{205f}'
    ||| c == '\u{3000}'
}

pub fn is_white(c: char) -> (r: bool)
    ensures
        r == white(c),
{
    ('\u{9}' <= c && c <= '\u{d}') || c == ' ' || c == '\u{85}' || c == '\u{a0}' || c == '\u{1680}'
        || ('\u{2000}' <= c && c <= '\u{200a}') || c == '\u{2028}' || c == '\u{2029}' || c
        == '\u{202f}' || c == '\u{205f}' || c == '\u{3000}'
}

/// `s` without the white space at its start.
pub open spec fn trim_start(s: Seq<char>) -> Seq<char>
    decreases s.len(),
{
    if s.len() > 0 && white(s[0]) {
        trim_start(s.drop_first())
    } else {
        s
    }
}

/// `s` without the white space at its end.
pub open spec fn trim_end(s: Seq<char>) -> Seq<char>
    decreases s.len(),
{
    if s.len() > 0 && white(s.last()) {
        trim_end(s.drop_last())
    } else {
        s
    }
}

/// `s` without the white space around it.
pub open spec fn trim(s: Seq<char>) -> Seq<char> {
    trim_end(trim_start(s))
}

fn trim_range(v: &Vec<char>, start: bool) -> (r: (usize, usize))
    ensures
        r.0 <= r.1 <= v@.len(),
        v@.subrange(r.0 as int, r.1 as int) == if start {
            trim(v@)
        } else {
            trim_end(v@)
        },
{
    let mut i: usize = 0;
    let n: usize = v.len();
    let ghost whole = if start {
        trim_start(v@)
    } else {
        v@
    };
    assert(v@.subrange(0, n as int) =~= v@);
    while start && i < n && is_white(v[i])
        invariant
            i <= n == v@.len(),
            start ==> whole == trim_start(v@.subrange(i as int, n as int)),
            !start ==> i == 0 && whole == v@,
        decreases n - i,
    {
        assert(v@.subrange(i as int, n as int).drop_first() =~= v@.subrange(i + 1, n as int));
        i += 1;
    }
    assert(!start ==> v@.subrange(0, n as int) =~= v@);
    assert(whole == v@.subrange(i as int, n as int));
    let mut j: usize = n;
    while i < j && is_white(v[j - 1])
        invariant
            i <= j <= n == v@.len(),
            trim_end(whole) == trim_end(v@.subrange(i as int, j as int)),
        decreases j,
    {
        assert(v@.subrange(i as int, j as int).drop_last() =~= v@.subrange(i as int, j - 1));
        j -= 1;
    }
    (i, j)
}

/// `s` without the white space around it.
pub fn trimmed(s: &str) -> (r: String)
    ensures
        r@ == trim(s@),
{
    let v = chars_of(s);
    let (i, j) = trim_range(&v, true);
    string_of(&v, i, j)
}

/// `s` without the white space at its end.
pub fn trimmed_end(s: &str) -> (r: String)
    ensures
        r@ == trim_end(s@),
{
    let v = chars_of(s);
    let (i, j) = trim_range(&v, false);
    string_of(&v, i, j)
}

/// Whether `s` holds nothing but white space.
pub fn is_blank(s: &str) -> (r: bool)
    ensures
        r == (trim(s@).len() == 0),
{
    let v = chars_of(s);
    let (i, j) = trim_range(&v, true);
    i == j
}

/// A text that starts with something else than white space is not blank.
pub proof fn lemma_not_blank(s: Seq<char>)
    requires
        s.len() > 0,
        !white(s[0]),
    ensures
        trim(s).len() > 0,
    decreases s.len(),
{
    assert(trim_start(s) == s);
    lemma_trim_end_keeps_first(s);
}

proof fn lemma_trim_end_keeps_first(s: Seq<char>)
    requires
        s.len() > 0,
        !white(s[0]),
    ensures
        trim_end(s).len() > 0,
    decreases s.len(),
{
    if white(s.last()) {
        lemma_trim_end_keeps_first(s.drop_last());
    }
}

// ---------------------------------------------------------------------------
// Finding
// ---------------------------------------------------------------------------

/// Whether `p` stands in `s` at position `i`.
pub open spec fn occurs_at(s: Seq<char>, p: Seq<char>, i: int) -> bool {
    0 <= i && i + p.len() <= s.len() && s.subrange(i, i + p.len()) == p
}

/// Whether `p` stands somewhere in `s`.
pub open spec fn contains_text(s: Seq<char>, p: Seq<char>) -> bool {
    exists|i: int| occurs_at(s, p, i)
}

/// Whether `s` begins with `p`.
pub open spec fn begins_with(s: Seq<char>, p: Seq<char>) -> bool {
    occurs_at(s, p, 0)
}

/// The first position at or after `from` where `p` stands in `s`, or -1.
pub open spec fn find_from(s: Seq<char>, p: Seq<char>, from: int) -> int
    decreases s.len() - from + 1,
{
    if from < 0 || from + p.len() > s.len() {
        -1
    } else if occurs_at(s, p, from) {
        from
    } else {
        find_from(s, p, from + 1)
    }
}

/// How often `p` stands in `s`, counted from the left without overlaps.
pub open spec fn count_from(s: Seq<char>, p: Seq<char>, from: int) -> nat
    decreases s.len() - from + 1,
{
    let i = find_from(s, p, from);
    if p.len() == 0 || from < 0 || i < from || i + p.len() > s.len() {
        0
    } else {
        1 + count_from(s, p, i + p.len())
    }
}

fn occurs_at_exec(s: &Vec<char>, p: &Vec<char>, i: usize) -> (r: bool)
    requires
        i + p@.len() <= s@.len(),
    ensures
        r == occurs_at(s@, p@, i as int),
{
    let n: usize = s.len();
    let mut k: usize = 0;
    while k < p.len()
        invariant
            n == s@.len(),
            k <= p@.len(),
            i + p@.len() <= s@.len(),
            forall|m: int| 0 <= m < k ==> s@[i + m] == p@[m],
        decreases p@.len() - k,
    {
        if s[i + k] != p[k] {
            assert(s@.subrange(i as int, i + p@.len())[k as int] != p@[k as int]);
            return false;
        }
        k += 1;
    }
    assert(s@.subrange(i as int, i + p@.len()) =~= p@);
    true
}

/// The first position at or after `from` where `p` stands in `s`.
pub fn find_chars(s: &Vec<char>, p: &Vec<char>, from: usize) -> (r: Option<usize>)
    ensures
        match r {
            Some(i) => find_from(s@, p@, from as int) == i && from <= i && occurs_at(s@, p@, i as int),
            None => find_from(s@, p@, from as int) == -1,
        },
{
    let mut i: usize = from;
    while i <= s.len() && p.len() <= s.len() - i
        invariant
            from <= i,
            find_from(s@, p@, from as int) == find_from(s@, p@, i as int),
        decreases s@.len() - i,
    {
        if occurs_at_exec(s, p, i) {
            return Some(i);
        }
        if i == s.len() {
            assert(find_from(s@, p@, i + 1) == -1);
            return None;
        }
        i += 1;
    }
    None
}

/// What is found at or after a position is the first that stands there.
pub proof fn lemma_find_from(s: Seq<char>, p: Seq<char>, from: int)
    requires
        0 <= from,
    ensures
        find_from(s, p, from) == -1 || (from <= find_from(s, p, from) && occurs_at(
            s,
            p,
            find_from(s, p, from),
        )),
        find_from(s, p, from) == -1 <==> forall|i: int| from <= i ==> !occurs_at(s, p, i),
        forall|i: int| from <= i && occurs_at(s, p, i) ==> find_from(s, p, from) <= i,
    decreases s.len() - from + 1,
{
    if from + p.len() > s.len() {
    } else if occurs_at(s, p, from) {
    } else {
        lemma_find_from(s, p, from + 1);
        assert forall|i: int| from <= i && occurs_at(s, p, i) implies from + 1 <= i by {}
    }
}

/// Whether `p` stands somewhere in `s`.
pub fn contains(s: &str, p: &str) -> (r: bool)
    ensures
        r == contains_text(s@, p@),
{
    let v = chars_of(s);
    let q = chars_of(p);
    proof {
        lemma_find_from(v@, q@, 0);
        assert(forall|i: int| occurs_at(v@, q@, i) ==> 0 <= i);
    }
    match find_chars(&v, &q, 0) {
        Some(_) => true,
        None => false,
    }
}

/// Whether `s` begins with `p`.
pub fn starts_with(s: &str, p: &str) -> (r: bool)
    ensures
        r == begins_with(s@, p@),
{
    let v = chars_of(s);
    let q = chars_of(p);
    q.len() <= v.len() && occurs_at_exec(&v, &q, 0)
}

/// How often `p` stands in `s`, counted from the left without overlaps.
pub fn count(s: &str, p: &str) -> (r: usize)
    requires
        p@.len() > 0,
    ensures
        r == count_from(s@, p@, 0),
{
    let v = chars_of(s);
    let q = chars_of(p);
    let mut n: usize = 0;
    let mut at: usize = 0;
    while at <= v.len()
        invariant
            v@ == s@,
            q@ == p@,
            q@.len() > 0,
            at <= v@.len(),
            n <= at,
            count_from(v@, q@, 0) == n + count_from(v@, q@, at as int),
        decreases v@.len() - at,
    {
        match find_chars(&v, &q, at) {
            Some(i) => {
                n += 1;
                at = i + q.len();
            },
            None => {
                return n;
            },
        }
    }
    n
}

/// `s` with the first `p` in it replaced by `q`.
pub open spec fn replace_first(s: Seq<char>, p: Seq<char>, q: Seq<char>) -> Seq<char> {
    let i = find_from(s, p, 0);
    if i < 0 {
        s
    } else {
        s.take(i) + q + s.skip(i + p.len())
    }
}

/// `s` with the first `p` in it replaced by `q`.
pub fn replaced_first(s: &str, p: &str, q: &str) -> (r: String)
    ensures
        r@ == replace_first(s@, p@, q@),
{
    let v = chars_of(s);
    let w = chars_of(p);
    match find_chars(&v, &w, 0) {
        Some(i) => {
            let mut r = string_of(&v, 0, i);
            r.push_str(q);
            let n: usize = v.len();
            let rest = string_of(&v, i + w.len(), n);
            r.push_str(rest.as_str());
            r
        },
        None => s.to_owned(),
    }
}

// ---------------------------------------------------------------------------
// Lines and pieces
// ---------------------------------------------------------------------------

/// The position of the first `c` in `s` at or after `from`, or the length.
pub open spec fn next_char(s: Seq<char>, c: char, from: int) -> int
    decreases s.len() - from,
{
    if from < 0 || from >= s.len() {
        s.len() as int
    } else if s[from] == c {
        from
    } else {
        next_char(s, c, from + 1)
    }
}

/// The first `c` at or after a position is there, and none stands before it.
pub proof fn lemma_next_char(s: Seq<char>, c: char, from: int)
    requires
        0 <= from <= s.len(),
    ensures
        from <= next_char(s, c, from) <= s.len(),
        next_char(s, c, from) < s.len() ==> s[next_char(s, c, from)] == c,
        forall|i: int| from <= i < next_char(s, c, from) ==> s[i] != c,
    decreases s.len() - from,
{
    if from < s.len() && s[from] != c {
        lemma_next_char(s, c, from + 1);
    }
}

/// A `c` with none before it, from a position on, is the first.
pub proof fn lemma_next_char_is(s: Seq<char>, c: char, from: int, at: int)
    requires
        0 <= from <= at < s.len(),
        s[at] == c,
        forall|i: int| from <= i < at ==> s[i] != c,
    ensures
        next_char(s, c, from) == at,
    decreases at - from,
{
    if from < at {
        lemma_next_char_is(s, c, from + 1, at);
    }
}

/// The position of the first `c` in `v` at or after `from`, or the length.
pub fn next_char_at(v: &Vec<char>, c: char, from: usize) -> (r: usize)
    requires
        from <= v@.len(),
    ensures
        r == next_char(v@, c, from as int),
        from <= r <= v@.len(),
        r < v@.len() ==> v@[r as int] == c,
{
    let mut i: usize = from;
    while i < v.len() && v[i] != c
        invariant
            from <= i <= v@.len(),
            next_char(v@, c, from as int) == next_char(v@, c, i as int),
        decreases v@.len() - i,
    {
        i += 1;
    }
    i
}

/// The position of the last `c` in `s`, or -1.
pub open spec fn last_char(s: Seq<char>, c: char) -> int
    decreases s.len(),
{
    if s.len() == 0 {
        -1
    } else if s.last() == c {
        s.len() - 1
    } else {
        last_char(s.drop_last(), c)
    }
}

/// The position of the last `c` in `v[..to]`.
pub fn last_char_at(v: &Vec<char>, c: char, to: usize) -> (r: Option<usize>)
    requires
        to <= v@.len(),
    ensures
        match r {
            Some(i) => last_char(v@.take(to as int), c) == i && i < to && v@[i as int] == c,
            None => last_char(v@.take(to as int), c) == -1,
        },
{
    let mut i: usize = to;
    while i > 0
        invariant
            i <= to <= v@.len(),
            last_char(v@.take(to as int), c) == last_char(v@.take(i as int), c),
        decreases i,
    {
        if v[i - 1] == c {
            return Some(i - 1);
        }
        assert(v@.take(i as int).drop_last() =~= v@.take(i - 1));
        i -= 1;
    }
    None
}

/// `s` without a carriage return at its end.
pub open spec fn strip_cr(s: Seq<char>) -> Seq<char> {
    if s.len() > 0 && s.last() == '\r' {
        s.drop_last()
    } else {
        s
    }
}

/// The lines of `s` from position `from` on: each ends at a line feed, or at a
/// carriage return and a line feed, or at the end of the text.
pub open spec fn lines_from(s: Seq<char>, from: int) -> Seq<Seq<char>>
    decreases s.len() - from,
{
    let end = next_char(s, '\n', from);
    if from < 0 || from >= s.len() || end < from {
        Seq::empty()
    } else if end >= s.len() {
        seq![s.skip(from)]
    } else {
        seq![strip_cr(s.subrange(from, end))] + lines_from(s, end + 1)
    }
}

/// The lines of `s`.
pub open spec fn lines(s: Seq<char>) -> Seq<Seq<char>> {
    lines_from(s, 0)
}

/// The lines of `s`.
pub fn lines_of(s: &str) -> (r: Vec<String>)
    ensures
        r.deep_view() == lines(s@),
{
    let v = chars_of(s);
    let mut r: Vec<String> = Vec::new();
    let mut at: usize = 0;
    while at < v.len()
        invariant
            v@ == s@,
            at <= v@.len(),
            lines(s@) == r.deep_view() + lines_from(s@, at as int),
        decreases v@.len() - at,
    {
        let end: usize = next_char_at(&v, '\n', at);
        let ghost before = r.deep_view();
        if end >= v.len() {
            let line = string_of(&v, at, end);
            r.push(line);
            proof {
                assert(line@ =~= s@.skip(at as int));
                assert(r.deep_view() =~= before.push(line@));
                assert(before + lines_from(s@, at as int) =~= before.push(line@));
                assert(r.deep_view() + lines_from(s@, end as int) =~= r.deep_view());
            }
            at = end;
        } else {
            let stop: usize = if end > at && v[end - 1] == '\r' {
                end - 1
            } else {
                end
            };
            let line = string_of(&v, at, stop);
            r.push(line);
            proof {
                assert(line@ =~= strip_cr(s@.subrange(at as int, end as int)));
                assert(r.deep_view() =~= before.push(line@));
                assert(before + lines_from(s@, at as int) =~= before.push(line@) + lines_from(
                    s@,
                    end + 1,
                ));
            }
            at = end + 1;
        }
    }
    assert(r.deep_view() + lines_from(s@, at as int) =~= r.deep_view());
    r
}

/// The pieces of `s` from position `from` on, as `c` parts them.
pub open spec fn split_from(s: Seq<char>, c: char, from: int) -> Seq<Seq<char>>
    decreases s.len() - from,
{
    let end = next_char(s, c, from);
    if from < 0 || from > s.len() || end < from || end >= s.len() {
        seq![s.skip(from)]
    } else {
        seq![s.subrange(from, end)] + split_from(s, c, end + 1)
    }
}

/// The pieces of `s`, as `c` parts them; there is at least one.
pub open spec fn split(s: Seq<char>, c: char) -> Seq<Seq<char>> {
    split_from(s, c, 0)
}

/// The pieces of `s`, as `c` parts them; there is at least one.
pub fn split_on(s: &str, c: char) -> (r: Vec<String>)
    ensures
        r.deep_view() == split(s@, c),
        r@.len() > 0,
{
    let v = chars_of(s);
    let mut r: Vec<String> = Vec::new();
    let mut at: usize = 0;
    assert(split(s@, c) =~= r.deep_view() + split_from(s@, c, 0));
    loop
        invariant
            v@ == s@,
            at <= v@.len(),
            split(s@, c) == r.deep_view() + split_from(s@, c, at as int),
        decreases v@.len() - at,
    {
        let end: usize = next_char_at(&v, c, at);
        let ghost before = r.deep_view();
        let piece = string_of(&v, at, end);
        r.push(piece);
        proof {
            assert(r.deep_view() =~= before.push(piece@));
        }
        if end >= v.len() {
            proof {
                assert(piece@ =~= s@.skip(at as int));
                assert(before + split_from(s@, c, at as int) =~= before.push(piece@));
            }
            return r;
        }
        proof {
            assert(before + split_from(s@, c, at as int) =~= before.push(piece@) + split_from(
                s@,
                c,
                end + 1,
            ));
        }
        at = end + 1;
    }
}

/// The texts in `parts`, parted by `sep`.
pub open spec fn join(parts: Seq<Seq<char>>, sep: Seq<char>) -> Seq<char>
    decreases parts.len(),
{
    if parts.len() == 0 {
        Seq::empty()
    } else if parts.len() == 1 {
        parts[0]
    } else {
        join(parts.drop_last(), sep) + sep + parts.last()
    }
}

/// The texts in `parts`, parted by `sep`.
pub fn joined(parts: &Vec<String>, sep: &str) -> (r: String)
    ensures
        r@ == join(parts.deep_view(), sep@),
{
    let mut r = String::new();
    let mut i: usize = 0;
    while i < parts.len()
        invariant
            i <= parts@.len(),
            r@ == join(parts.deep_view().take(i as int), sep@),
        decreases parts@.len() - i,
    {
        if i > 0 {
            r.push_str(sep);
        }
        r.push_str(parts[i].as_str());
        proof {
            let next = parts.deep_view().take(i + 1);
            assert(next.drop_last() =~= parts.deep_view().take(i as int));
            assert(next.last() == parts@[i as int]@);
            if i == 0 {
                assert(r@ =~= next[0]);
            }
        }
        i += 1;
    }
    assert(parts.deep_view().take(i as int) =~= parts.deep_view());
    r
}

// ---------------------------------------------------------------------------
// Numbers and repetition
// ---------------------------------------------------------------------------

/// The decimal digit of `d`.
pub open spec fn digit(d: int) -> char {
    (('0' as u32) + d) as char
}

/// The decimal text of `n`.
pub open spec fn decimal(n: nat) -> Seq<char>
    decreases n,
{
    if n < 10 {
        seq![digit(n as int)]
    } else {
        decimal(n / 10).push(digit((n % 10) as int))
    }
}

fn digit_char(d: u64) -> (c: char)
    requires
        d < 10,
    ensures
        c == digit(d as int),
{
    match d {
        0 => '0',
        1 => '1',
        2 => '2',
        3 => '3',
        4 => '4',
        5 => '5',
        6 => '6',
        7 => '7',
        8 => '8',
        _ => '9',
    }
}

/// The decimal text of `n`.
pub fn decimal_of(n: u64) -> (r: String)
    ensures
        r@ == decimal(n as nat),
    decreases n,
{
    if n < 10 {
        let mut r = String::new();
        r.push(digit_char(n));
        assert(r@ =~= decimal(n as nat));
        r
    } else {
        let mut r = decimal_of(n / 10);
        r.push(digit_char(n % 10));
        r
    }
}

/// Whether `c` is a decimal digit.
pub open spec fn is_digit(c: char) -> bool {
    '0' <= c <= '9'
}

/// The value of a digit.
pub open spec fn digit_value(c: char) -> int {
    c as int - '0' as int
}

/// Whether `s` is made of decimal digits.
pub open spec fn all_digits(s: Seq<char>) -> bool {
    forall|i: int| 0 <= i < s.len() ==> is_digit(#[trigger] s[i])
}

/// The number that a row of digits stands for.
pub open spec fn digits_value(s: Seq<char>) -> int
    decreases s.len(),
{
    if s.len() == 0 {
        0
    } else {
        10 * digits_value(s.drop_last()) + digit_value(s.last())
    }
}

/// The decimal text of a number is a row of digits that stands for it.
pub proof fn lemma_decimal(n: nat)
    ensures
        decimal(n).len() > 0,
        all_digits(decimal(n)),
        digits_value(decimal(n)) == n,
    decreases n,
{
    if n < 10 {
        let s = decimal(n);
        assert(s.drop_last() =~= Seq::<char>::empty());
        assert(digits_value(s.drop_last()) == 0);
        assert(is_digit(digit(n as int)));
    } else {
        lemma_decimal(n / 10);
        let s = decimal(n);
        assert(s.drop_last() =~= decimal(n / 10));
        assert(is_digit(digit((n % 10) as int)));
        assert forall|i: int| 0 <= i < s.len() implies is_digit(#[trigger] s[i]) by {
            if i < s.len() - 1 {
                assert(s[i] == decimal(n / 10)[i]);
            }
        }
    }
}

/// A longer row of digits stands for no smaller number.
pub proof fn lemma_digits_grow(s: Seq<char>, n: int)
    requires
        all_digits(s),
        0 <= n <= s.len(),
    ensures
        0 <= digits_value(s.take(n)) <= digits_value(s),
    decreases s.len(),
{
    if n == s.len() {
        assert(s.take(n) =~= s);
        if s.len() > 0 {
            assert(all_digits(s.drop_last())) by {
                assert forall|i: int| 0 <= i < s.len() - 1 implies is_digit(
                    #[trigger] s.drop_last()[i],
                ) by {
                    assert(is_digit(s[i]));
                }
            }
            lemma_digits_grow(s.drop_last(), s.len() - 1);
            assert(s.drop_last().take(s.len() - 1) =~= s.drop_last());
            assert(is_digit(s[s.len() - 1]));
        }
    } else {
        assert(all_digits(s.drop_last())) by {
            assert forall|i: int| 0 <= i < s.len() - 1 implies is_digit(
                #[trigger] s.drop_last()[i],
            ) by {
                assert(is_digit(s[i]));
            }
        }
        lemma_digits_grow(s.drop_last(), n);
        assert(s.drop_last().take(n) =~= s.take(n));
        assert(is_digit(s[s.len() - 1]));
    }
}

/// The number below 65536 that a text stands for: digits, at least one, with
/// an optional plus sign before them.
pub open spec fn port_number(s: Seq<char>) -> Option<int> {
    let d = if s.len() > 0 && s[0] == '+' {
        s.drop_first()
    } else {
        s
    };
    if d.len() > 0 && all_digits(d) && digits_value(d) <= 65535 {
        Some(digits_value(d))
    } else {
        None
    }
}

/// The number below 65536 that a text stands for.
pub fn parse_port(s: &str) -> (r: Option<u16>)
    ensures
        match r {
            Some(n) => port_number(s@) == Some(n as int),
            None => port_number(s@) is None,
        },
{
    let v = chars_of(s);
    let start: usize = if v.len() > 0 && v[0] == '+' {
        1
    } else {
        0
    };
    let ghost d = if s@.len() > 0 && s@[0] == '+' {
        s@.drop_first()
    } else {
        s@
    };
    assert(d =~= v@.skip(start as int));
    if start >= v.len() {
        return None;
    }
    let mut value: u32 = 0;
    let mut i: usize = start;
    assert(d.take(0) =~= Seq::<char>::empty());
    while i < v.len()
        invariant
            v@ == s@,
            start <= 1,
            start < v@.len(),
            start <= i <= v@.len(),
            d == v@.skip(start as int),
            d == (if s@.len() > 0 && s@[0] == '+' {
                s@.drop_first()
            } else {
                s@
            }),
            value <= 65535,
            all_digits(d.take(i - start)),
            value == digits_value(d.take(i - start)),
        decreases v@.len() - i,
    {
        let c: char = v[i];
        assert(c == d[i - start]);
        if !('0' <= c && c <= '9') {
            assert(!all_digits(d));
            return None;
        }
        let digit: u32 = (c as u32) - ('0' as u32);
        proof {
            let next = d.take(i + 1 - start);
            assert(next.drop_last() =~= d.take(i - start));
            assert(next.last() == c);
            assert(all_digits(next)) by {
                assert forall|k: int| 0 <= k < next.len() implies is_digit(#[trigger] next[k]) by {
                    if k < i - start {
                        assert(is_digit(d.take(i - start)[k]));
                    }
                }
            }
        }
        value = value * 10 + digit;
        i += 1;
        if value > 65535 {
            proof {
                if all_digits(d) {
                    lemma_digits_grow(d, i - start);
                }
            }
            return None;
        }
    }
    assert(d.take(i - start) =~= d);
    Some(value as u16)
}

/// The decimal text of an integer, with a minus sign where it is negative.
pub open spec fn signed_decimal(n: int) -> Seq<char> {
    if n < 0 {
        seq!['-'] + decimal((-n) as nat)
    } else {
        decimal(n as nat)
    }
}

/// The decimal text of `n`, with a minus sign where it is negative.
pub fn signed_decimal_of(n: i64) -> (r: String)
    ensures
        r@ == signed_decimal(n as int),
{
    if n < 0 {
        let magnitude: u64 = if n == i64::MIN {
            0x8000_0000_0000_0000u64
        } else {
            (-n) as u64
        };
        let mut r = String::new();
        r.push('-');
        r.push_str(decimal_of(magnitude).as_str());
        assert(r@ =~= signed_decimal(n as int));
        r
    } else {
        decimal_of(n as u64)
    }
}

/// `n` times the text `s`.
pub open spec fn repeat(s: Seq<char>, n: nat) -> Seq<char>
    decreases n,
{
    if n == 0 {
        Seq::empty()
    } else {
        repeat(s, (n - 1) as nat) + s
    }
}

/// `n` times the text `s`.
pub fn repeated(s: &str, n: usize) -> (r: String)
    ensures
        r@ == repeat(s@, n as nat),
{
    let mut r = String::new();
    let mut i: usize = 0;
    while i < n
        invariant
            i <= n,
            r@ == repeat(s@, i as nat),
        decreases n - i,
    {
        r.push_str(s);
        i += 1;
    }
    r
}

/// `s`, filled with spaces from the left up to `width` characters.
pub open spec fn pad_left(s: Seq<char>, width: nat) -> Seq<char> {
    if s.len() < width {
        repeat(" "@, (width - s.len()) as nat) + s
    } else {
        s
    }
}

/// `s`, filled with spaces from the left up to `width` characters.
pub fn padded_left(s: &str, width: usize) -> (r: String)
    ensures
        r@ == pad_left(s@, width as nat),
{
    let len: usize = s.unicode_len();
    if len < width {
        let mut r = repeated(" ", width - len);
        r.push_str(s);
        r
    } else {
        s.to_owned()
    }
}

// ---------------------------------------------------------------------------
// Bytes
// ---------------------------------------------------------------------------

/// The number of bytes of `s`.
pub open spec fn byte_len(s: Seq<char>) -> nat {
    encode_utf8(s).len()
}

/// The number of bytes of `s`.
pub fn byte_len_of(s: &str) -> (n: usize)
    ensures
        n == byte_len(s@),
{
    s.as_bytes().len()
}

/// Whether a text can be cut after `n` bytes.
pub open spec fn cuts_at(s: Seq<char>, n: int) -> bool {
    is_char_boundary(encode_utf8(s), n)
}

/// The first `n` bytes of `s`.
pub open spec fn cut(s: Seq<char>, n: int) -> Seq<char> {
    decode_utf8(encode_utf8(s).subrange(0, n))
}

/// The first `n` bytes of `s`.
pub fn cut_to(s: &str, n: usize) -> (r: String)
    requires
        cuts_at(s@, n as int),
    ensures
        r@ == cut(s@, n as int),
{
    broadcast use encode_utf8_decode_utf8;

    let (head, _tail) = s.split_at(n);
    assert(decode_utf8(encode_utf8(head@)) == head@);
    head.to_owned()
}

// ---------------------------------------------------------------------------
// Letters
// ---------------------------------------------------------------------------

/// `c` with an ASCII capital made small.
pub open spec fn lower(c: char) -> char {
    if 'A' <= c <= 'Z' {
        ((c as u32) + 32) as char
    } else {
        c
    }
}

/// `s` with its ASCII capitals made small.
pub open spec fn ascii_lower(s: Seq<char>) -> Seq<char> {
    s.map_values(|c: char| lower(c))
}

/// `s` with its ASCII capitals made small.
pub fn ascii_lower_of(s: &str) -> (r: String)
    ensures
        r@ == ascii_lower(s@),
{
    let v = chars_of(s);
    let mut r = String::new();
    let mut i: usize = 0;
    while i < v.len()
        invariant
            i <= v@.len(),
            r@ == ascii_lower(v@.take(i as int)),
        decreases v@.len() - i,
    {
        let c: char = v[i];
        let small: char = if 'A' <= c && c <= 'Z' {
            ((c as u8) + 32) as char
        } else {
            c
        };
        r.push(small);
        assert(ascii_lower(v@.take(i + 1)) =~= ascii_lower(v@.take(i as int)).push(lower(c)));
        i += 1;
    }
    assert(v@.take(i as int) =~= v@);
    r
}

/// How `Debug` writes a text.
pub uninterp spec fn debug_text(s: Seq<char>) -> Seq<char>;

/// `Debug` of `str` writes the text in double quotes, with what cannot be shown
/// as it is escaped.
#[verifier::external_body]
pub(crate) fn debug_of(s: &str) -> (r: String)
    ensures
        r@ == debug_text(s@),
{
    format!("{s:?}")
}

// ---------------------------------------------------------------------------
// Laws
// ---------------------------------------------------------------------------

/// Joining lists: the joined text of two lists, one behind the other, is that of
/// the first, the separator, and that of the second. One text alone is itself.
pub proof fn law_joins_concatenate(a: Seq<Seq<char>>, b: Seq<Seq<char>>, sep: Seq<char>)
    ensures
        join(Seq::<Seq<char>>::empty(), sep) == Seq::<char>::empty(),
        forall|p: Seq<char>| #[trigger] join(seq![p], sep) == p,
        a.len() > 0 && b.len() > 0 ==> join(a + b, sep) == join(a, sep) + sep + join(b, sep),
    decreases b.len(),
{
    if a.len() > 0 && b.len() > 0 {
        let whole = a + b;
        assert(whole.drop_last() =~= a + b.drop_last());
        assert(whole.last() == b.last());
        if b.len() == 1 {
            assert(b.drop_last() =~= Seq::empty());
            assert(whole.drop_last() =~= a);
        } else {
            law_joins_concatenate(a, b.drop_last(), sep);
            assert(join(a, sep) + sep + (join(b.drop_last(), sep) + sep + b.last()) =~= join(a, sep)
                + sep + join(b.drop_last(), sep) + sep + b.last());
        }
    }
}

/// Every one of some texts stands in their joined text, behind the joined text of
/// those before it.
pub proof fn law_joined_texts_hold_their_parts(parts: Seq<Seq<char>>, sep: Seq<char>, k: int)
    requires
        0 <= k < parts.len(),
    ensures
        contains_text(join(parts, sep), parts[k]),
        occurs_at(
            join(parts, sep),
            parts[k],
            if k == 0 {
                0
            } else {
                (join(parts.take(k), sep).len() + sep.len()) as int
            },
        ),
{
    let whole = join(parts, sep);
    let before = parts.take(k);
    let rest = parts.skip(k);
    let one = seq![parts[k]];
    let after = rest.skip(1);
    assert(rest =~= one + after);
    assert(parts =~= before + rest);
    assert(join(one, sep) == parts[k]) by {
        law_joins_concatenate(one, one, sep);
    }
    law_joins_concatenate(one, after, sep);
    if after.len() == 0 {
        assert(rest =~= one);
    }
    let tail = join(rest, sep);
    assert(tail.take(parts[k].len() as int) =~= parts[k]);
    let at: int = if k == 0 {
        0
    } else {
        (join(before, sep).len() + sep.len()) as int
    };
    if k == 0 {
        assert(parts =~= rest);
        assert(whole.subrange(0, parts[k].len() as int) =~= parts[k]);
    } else {
        law_joins_concatenate(before, rest, sep);
        assert(whole.subrange(at, at + parts[k].len()) =~= tail.take(parts[k].len() as int));
    }
    assert(occurs_at(whole, parts[k], at));
}

/// What stands in a part stands in the whole.
pub proof fn lemma_contained_in_part(whole: Seq<char>, part: Seq<char>, p: Seq<char>)
    requires
        contains_text(whole, part),
        contains_text(part, p),
    ensures
        contains_text(whole, p),
{
    let i = choose|i: int| occurs_at(whole, part, i);
    let j = choose|j: int| occurs_at(part, p, j);
    assert(whole.subrange(i + j, i + j + p.len()) =~= part.subrange(j, j + p.len()));
    assert(occurs_at(whole, p, i + j));
}

/// A text stands in itself with something around it.
pub proof fn lemma_contained_between(before: Seq<char>, p: Seq<char>, after: Seq<char>)
    ensures
        contains_text(before + p + after, p),
{
    let whole = before + p + after;
    assert(whole.subrange(before.len() as int, (before.len() + p.len()) as int) =~= p);
    assert(occurs_at(whole, p, before.len() as int));
}

/// Trimming takes white space from both ends and nothing else: what is left stands
/// in the text, with only white space around it, and neither starts nor ends with
/// white space.
pub proof fn law_trimming_takes_only_white_space(s: Seq<char>)
    ensures
        exists|from: int, to: int|
            0 <= from <= to <= s.len() && trim(s) == #[trigger] s.subrange(from, to) && (forall|
                i: int,
            |
                0 <= i < s.len() && !(from <= i < to) ==> white(#[trigger] s[i])),
        trim(s).len() > 0 ==> !white(trim(s)[0]) && !white(trim(s).last()),
        trim_start(s).len() > 0 ==> !white(trim_start(s)[0]),
{
    let from = lemma_trim_start(s);
    let rest = s.skip(from);
    let to = lemma_trim_end(rest);
    assert(trim(s) =~= s.subrange(from, from + to));
    assert forall|i: int| 0 <= i < s.len() && !(from <= i < from + to) implies white(
        #[trigger] s[i],
    ) by {
        if i >= from + to {
            assert(s[i] == rest[i - from]);
        }
    }
}

proof fn lemma_trim_start(s: Seq<char>) -> (from: int)
    ensures
        0 <= from <= s.len(),
        trim_start(s) == s.skip(from),
        forall|i: int| 0 <= i < from ==> white(#[trigger] s[i]),
        from < s.len() ==> !white(s[from]),
    decreases s.len(),
{
    if s.len() > 0 && white(s[0]) {
        let rest = s.drop_first();
        let from = lemma_trim_start(rest);
        assert(rest.skip(from) =~= s.skip(from + 1));
        assert forall|i: int| 0 <= i < from + 1 implies white(#[trigger] s[i]) by {
            if i > 0 {
                assert(s[i] == rest[i - 1]);
            }
        }
        from + 1
    } else {
        assert(s.skip(0) =~= s);
        0
    }
}

proof fn lemma_trim_end(s: Seq<char>) -> (to: int)
    ensures
        0 <= to <= s.len(),
        trim_end(s) == s.take(to),
        forall|i: int| to <= i < s.len() ==> white(#[trigger] s[i]),
        to > 0 ==> !white(s[to - 1]),
        to > 0 ==> trim_end(s)[0] == s[0],
    decreases s.len(),
{
    if s.len() > 0 && white(s.last()) {
        let rest = s.drop_last();
        let to = lemma_trim_end(rest);
        assert(rest.take(to) =~= s.take(to));
        assert forall|i: int| to <= i < s.len() implies white(#[trigger] s[i]) by {
            if i < s.len() - 1 {
                assert(s[i] == rest[i]);
            }
        }
        to
    } else {
        assert(s.take(s.len() as int) =~= s);
        s.len() as int
    }
}

/// Splitting loses nothing: the pieces, joined by the character, are the text, and
/// none of them holds it.
pub proof fn law_pieces_join_to_the_text(s: Seq<char>, c: char)
    ensures
        split(s, c).len() > 0,
        join(split(s, c), seq![c]) == s,
        forall|i: int, k: int|
            0 <= i < split(s, c).len() && 0 <= k < split(s, c)[i].len() ==> #[trigger] split(
                s,
                c,
            )[i][k] != c,
{
    lemma_pieces_join(s, c, 0);
    assert(s.skip(0) =~= s);
}

proof fn lemma_pieces_join(s: Seq<char>, c: char, from: int)
    requires
        0 <= from <= s.len(),
    ensures
        split_from(s, c, from).len() > 0,
        join(split_from(s, c, from), seq![c]) == s.skip(from),
        forall|i: int, k: int|
            0 <= i < split_from(s, c, from).len() && 0 <= k < split_from(s, c, from)[i].len()
                ==> #[trigger] split_from(s, c, from)[i][k] != c,
    decreases s.len() - from,
{
    lemma_next_char(s, c, from);
    let end = next_char(s, c, from);
    let whole = split_from(s, c, from);
    if end >= s.len() {
        assert(whole =~= seq![s.skip(from)]);
        law_joins_concatenate(whole, whole, seq![c]);
    } else {
        lemma_pieces_join(s, c, end + 1);
        let first = seq![s.subrange(from, end)];
        let rest = split_from(s, c, end + 1);
        law_joins_concatenate(first, rest, seq![c]);
        assert(s.subrange(from, end) + seq![c] + s.skip(end + 1) =~= s.skip(from));
        assert forall|i: int, k: int|
            0 <= i < whole.len() && 0 <= k < whole[i].len() implies #[trigger] whole[i][k] != c by {
            if i > 0 {
                assert(whole[i] == rest[i - 1]);
                assert(rest[i - 1][k] != c);
            }
        }
    }
}

/// The lines of a text that is made of lines, each ended by a line feed, or by a
/// carriage return and one, are those lines, in order.
pub proof fn law_lines_are_what_line_ends_part(
    line: Seq<char>,
    end: Seq<char>,
    rest: Seq<char>,
)
    requires
        end == seq!['\n'] || end == seq!['\r', '\n'],
        forall|i: int| 0 <= i < line.len() ==> line[i] != '\n',
        line.len() > 0 ==> line.last() != '\r',
    ensures
        lines(line + end + rest) == seq![line] + lines(rest),
        lines(line) == (if line.len() == 0 {
            Seq::empty()
        } else {
            seq![line]
        }),
{
    let whole = line + end + rest;
    let at = line.len() + end.len() - 1;
    lemma_next_char_is(whole, '\n', 0, at);
    let taken = whole.subrange(0, at);
    if end.len() == 1 {
        assert(taken =~= line);
    } else {
        assert(taken =~= line.push('\r'));
        assert(taken.drop_last() =~= line);
    }
    assert(strip_cr(taken) =~= line);
    lemma_lines_shift(line + end, rest, 0);
    assert((line + end).len() == at + 1);
    lemma_next_char(line, '\n', 0);
    assert(line.skip(0) =~= line);
}

proof fn lemma_lines_shift(before: Seq<char>, rest: Seq<char>, from: int)
    requires
        0 <= from <= rest.len(),
    ensures
        lines_from(before + rest, before.len() + from) == lines_from(rest, from),
    decreases rest.len() - from,
{
    let whole = before + rest;
    lemma_next_char(rest, '\n', from);
    lemma_next_char(whole, '\n', before.len() + from);
    let end = next_char(rest, '\n', from);
    if end < rest.len() {
        assert forall|i: int| before.len() + from <= i < before.len() + end implies whole[i]
            != '\n' by {
            assert(whole[i] == rest[i - before.len()]);
        }
        assert(whole[before.len() + end] == '\n');
        lemma_next_char_is(whole, '\n', before.len() + from, before.len() + end);
        assert(whole.subrange(before.len() + from, before.len() + end) =~= rest.subrange(
            from,
            end,
        ));
        lemma_lines_shift(before, rest, end + 1);
    } else {
        let at = next_char(whole, '\n', before.len() + from);
        if at < whole.len() {
            assert(whole[at] == rest[at - before.len()]);
        }
        assert(whole.skip(before.len() + from) =~= rest.skip(from));
    }
}

/// Finding the last of a character: none stands behind it.
pub proof fn law_the_last_is_found(s: Seq<char>, c: char)
    ensures
        -1 <= last_char(s, c) < s.len(),
        last_char(s, c) >= 0 ==> s[last_char(s, c)] == c,
        forall|i: int| last_char(s, c) < i < s.len() ==> s[i] != c,
    decreases s.len(),
{
    if s.len() > 0 && s.last() != c {
        law_the_last_is_found(s.drop_last(), c);
        assert forall|i: int| last_char(s, c) < i < s.len() implies s[i] != c by {
            if i < s.len() - 1 {
                assert(s[i] == s.drop_last()[i]);
            }
        }
    }
}

/// A text is counted as often as it stands in another without overlaps: not at all
/// only where it stands nowhere, and once more for one that is put before a text
/// in which the count begins anew.
pub proof fn law_occurrences_are_counted(s: Seq<char>, p: Seq<char>, q: Seq<char>)
    requires
        p.len() > 0,
    ensures
        count_from(s, p, 0) == 0 <==> !contains_text(s, p),
        count_from(p + q, p, 0) == 1 + count_from(p + q, p, p.len() as int),
{
    lemma_find_from(s, p, 0);
    lemma_find_from(p + q, p, 0);
    assert((p + q).subrange(0, p.len() as int) =~= p);
    assert(occurs_at(p + q, p, 0));
    let i = find_from(s, p, 0);
    if contains_text(s, p) {
        let j = choose|j: int| occurs_at(s, p, j);
        assert(occurs_at(s, p, j));
        assert(0 <= i <= j);
    } else {
        assert(i == -1) by {
            assert forall|j: int| 0 <= j implies !occurs_at(s, p, j) by {}
        }
    }
}

/// A repeated text is as long as it should be, and each character of it is that of
/// the text.
pub proof fn law_repetition_repeats(s: Seq<char>, n: nat)
    ensures
        repeat(s, n).len() == n * s.len(),
        forall|i: int|
            0 <= i < repeat(s, n).len() ==> s.len() > 0 && #[trigger] repeat(s, n)[i] == s[i
                % s.len() as int],
    decreases n,
{
    if n > 0 {
        let m = (n - 1) as nat;
        law_repetition_repeats(s, m);
        let l = s.len();
        assert(n * l == m * l + l) by (nonlinear_arith)
            requires
                n == m + 1,
        ;
        assert forall|i: int| 0 <= i < repeat(s, n).len() implies s.len() > 0 && #[trigger] repeat(
            s,
            n,
        )[i] == s[i % s.len() as int] by {
            if i >= m * l {
                let k = i - m * l;
                assert(i % l as int == k) by (nonlinear_arith)
                    requires
                        i == m * l + k,
                        0 <= k < l,
                ;
                assert(repeat(s, n)[i] == s[k]);
            } else {
                assert(repeat(s, n)[i] == repeat(s, m)[i]);
            }
        }
    } else {
        assert(n * s.len() == 0) by (nonlinear_arith)
            requires
                n == 0,
        ;
    }
}

/// A text filled up to a width has at least that width, ends with the text, and
/// holds only spaces before it.
pub proof fn law_padding_is_spaces_before(s: Seq<char>, width: nat)
    ensures
        pad_left(s, width).len() == (if s.len() < width {
            width
        } else {
            s.len()
        }),
        pad_left(s, width).skip(pad_left(s, width).len() - s.len()) == s,
        forall|i: int|
            0 <= i < pad_left(s, width).len() - s.len() ==> #[trigger] pad_left(s, width)[i] == ' ',
{
    reveal_strlit(" ");
    if s.len() < width {
        let n = (width - s.len()) as nat;
        law_repetition_repeats(" "@, n);
        assert forall|i: int| 0 <= i < n implies #[trigger] repeat(" "@, n)[i] == ' ' by {
            assert(i % 1 == 0);
        }
        assert(pad_left(s, width).skip(n as int) =~= s);
    } else {
        assert(s.skip(0) =~= s);
    }
}

/// Making ASCII capitals small keeps every other character, and makes of `A` to
/// `Z` the letters `a` to `z` in their order.
pub proof fn law_lower_changes_only_capitals(s: Seq<char>)
    ensures
        ascii_lower(s).len() == s.len(),
        forall|i: int|
            0 <= i < s.len() ==> #[trigger] ascii_lower(s)[i] as int == (if 'A' <= s[i] <= 'Z' {
                s[i] as int - 'A' as int + 'a' as int
            } else {
                s[i] as int
            }),
{
}

/// Negative numbers are written with a minus sign before the digits of their
/// absolute value.
pub proof fn law_signs_are_written(n: int)
    ensures
        n >= 0 ==> all_digits(signed_decimal(n)) && digits_value(signed_decimal(n)) == n,
        n < 0 ==> signed_decimal(n).len() > 1 && signed_decimal(n)[0] == '-' && all_digits(
            signed_decimal(n).skip(1),
        ) && digits_value(signed_decimal(n).skip(1)) == -n,
{
    if n < 0 {
        lemma_decimal((-n) as nat);
        assert(signed_decimal(n).skip(1) =~= decimal((-n) as nat));
    } else {
        lemma_decimal(n as nat);
    }
}

/// A port is written in digits, with a plus sign before them or not, and is below
/// 65536.
pub proof fn law_ports_are_read(n: nat, s: Seq<char>)
    ensures
        n <= 65535 ==> port_number(decimal(n)) == Some(n as int),
        n <= 65535 ==> port_number(seq!['+'] + decimal(n)) == Some(n as int),
        n > 65535 ==> port_number(decimal(n)) is None,
        port_number(s) matches Some(p) ==> 0 <= p <= 65535,
        s.len() == 0 ==> port_number(s) is None,
{
    lemma_decimal(n);
    assert(is_digit(decimal(n)[0]));
    assert((seq!['+'] + decimal(n)).drop_first() =~= decimal(n));
    if let Some(p) = port_number(s) {
        let d = if s.len() > 0 && s[0] == '+' {
            s.drop_first()
        } else {
            s
        };
        lemma_digits_grow(d, 0);
        assert(d.take(0) =~= Seq::empty());
    }
}

/// Replacing takes the first place where a text stands, and only that; where it
/// stands nowhere, nothing changes.
pub proof fn law_the_first_is_replaced(s: Seq<char>, p: Seq<char>, q: Seq<char>, i: int)
    requires
        occurs_at(s, p, i),
        forall|k: int| 0 <= k < i ==> !occurs_at(s, p, k),
    ensures
        replace_first(s, p, q) == s.take(i) + q + s.skip(i + p.len()),
        forall|t: Seq<char>| !contains_text(t, p) ==> #[trigger] replace_first(t, p, q) == t,
{
    lemma_find_from(s, p, 0);
    assert(find_from(s, p, 0) == i) by {
        let f = find_from(s, p, 0);
        assert(f <= i);
        if f < i {
            assert(occurs_at(s, p, f));
        }
    }
    assert forall|t: Seq<char>| !contains_text(t, p) implies #[trigger] replace_first(t, p, q)
        == t by {
        lemma_find_from(t, p, 0);
        if find_from(t, p, 0) >= 0 {
            assert(occurs_at(t, p, find_from(t, p, 0)));
        }
    }
}

/// A text begins with, and contains, what stands there, and nothing that does not.
pub proof fn law_what_stands_in_a_text(s: Seq<char>, p: Seq<char>)
    ensures
        begins_with(s, p) <==> s.len() >= p.len() && forall|k: int|
            0 <= k < p.len() ==> s[k] == #[trigger] p[k],
        contains_text(s, p) <==> exists|i: int|
            0 <= i <= s.len() - p.len() && begins_with(#[trigger] s.skip(i), p),
{
    if begins_with(s, p) {
        assert forall|k: int| 0 <= k < p.len() implies s[k] == #[trigger] p[k] by {
            assert(s.subrange(0, p.len() as int)[k] == s[k]);
        }
    }
    if s.len() >= p.len() && forall|k: int| 0 <= k < p.len() ==> s[k] == #[trigger] p[k] {
        assert(s.subrange(0, p.len() as int) =~= p);
    }
    if contains_text(s, p) {
        let i = choose|i: int| occurs_at(s, p, i);
        assert(s.skip(i).subrange(0, p.len() as int) =~= s.subrange(i, i + p.len()));
        assert(begins_with(s.skip(i), p));
    }
    if exists|i: int| 0 <= i <= s.len() - p.len() && begins_with(#[trigger] s.skip(i), p) {
        let i = choose|i: int| 0 <= i <= s.len() - p.len() && begins_with(#[trigger] s.skip(i), p);
        assert(s.skip(i).subrange(0, p.len() as int) =~= s.subrange(i, i + p.len()));
        assert(occurs_at(s, p, i));
    }
}

} // verus!
