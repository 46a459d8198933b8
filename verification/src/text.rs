//! Character-level text primitives shared by the parsers in this crate.
//!
//! Strings are handled as sequences of Unicode scalar values. Every helper
//! states its result over `Seq<char>` so callers can reason about the text
//! they build or inspect.
use vstd::prelude::*;

verus! {

broadcast use vstd::string::group_string_axioms;

/// `char::is_whitespace`: the Unicode `White_Space` property.
pub open spec fn is_whitespace(c: char) -> bool {
    let v = c as u32;
    ||| v == 0x09 || v == 0x0A || v == 0x0B || v == 0x0C || v == 0x0D || v == 0x20
    ||| v == 0x85 || v == 0xA0 || v == 0x1680
    ||| (0x2000 <= v && v <= 0x200A)
    ||| v == 0x2028 || v == 0x2029 || v == 0x202F || v == 0x205F || v == 0x3000
}

/// `s` without its leading white space.
pub open spec fn trim_start(s: Seq<char>) -> Seq<char>
    decreases s.len(),
{
    if s.len() > 0 && is_whitespace(s[0]) {
        trim_start(s.drop_first())
    } else {
        s
    }
}

/// `s` without its trailing white space.
pub open spec fn trim_end(s: Seq<char>) -> Seq<char>
    decreases s.len(),
{
    if s.len() > 0 && is_whitespace(s.last()) {
        trim_end(s.drop_last())
    } else {
        s
    }
}

/// `str::trim`: white space removed from both ends.
pub open spec fn trim(s: Seq<char>) -> Seq<char> {
    trim_end(trim_start(s))
}

/// ASCII lower-casing of one character; other characters are unchanged.
pub open spec fn ascii_lower(c: char) -> char {
    if 'A' <= c && c <= 'Z' {
        ((c as u32) + 32) as char
    } else {
        c
    }
}

/// Equality of two texts ignoring ASCII case.
pub open spec fn eq_ignore_ascii_case(a: Seq<char>, b: Seq<char>) -> bool {
    a.len() == b.len() && forall|i: int| 0 <= i < a.len() ==> ascii_lower(#[trigger] a[i]) == ascii_lower(b[i])
}

/// `needle` occurs in `hay` at position `i`.
pub open spec fn occurs_at(hay: Seq<char>, needle: Seq<char>, i: int) -> bool {
    0 <= i && i + needle.len() <= hay.len() && hay.subrange(i, i + needle.len()) == needle
}

/// `needle` occurs in `hay` at position `i`, ignoring ASCII case.
pub open spec fn occurs_at_ci(hay: Seq<char>, needle: Seq<char>, i: int) -> bool {
    0 <= i && i + needle.len() <= hay.len() && eq_ignore_ascii_case(hay.subrange(i, i + needle.len()), needle)
}

/// `hay` contains `needle`.
pub open spec fn contains(hay: Seq<char>, needle: Seq<char>) -> bool {
    exists|i: int| occurs_at(hay, needle, i)
}

/// The first position at or after `from` where `needle` occurs, ignoring
/// ASCII case.
pub open spec fn find_ci(hay: Seq<char>, needle: Seq<char>, from: int) -> Option<int>
    decreases hay.len() - from,
{
    if from < 0 || from + needle.len() > hay.len() {
        None
    } else if occurs_at_ci(hay, needle, from) {
        Some(from)
    } else if from >= hay.len() {
        None
    } else {
        find_ci(hay, needle, from + 1)
    }
}

/// The first position at or after `from` where `needle` occurs.
pub open spec fn find_exact(hay: Seq<char>, needle: Seq<char>, from: int) -> Option<int>
    decreases hay.len() - from,
{
    if from < 0 || from + needle.len() > hay.len() {
        None
    } else if occurs_at(hay, needle, from) {
        Some(from)
    } else if from >= hay.len() {
        None
    } else {
        find_exact(hay, needle, from + 1)
    }
}

/// The first position at or after `from` holding `c`.
pub open spec fn find_char(hay: Seq<char>, c: char, from: int) -> Option<int>
    decreases hay.len() - from,
{
    if from < 0 || from >= hay.len() {
        None
    } else if hay[from] == c {
        Some(from)
    } else {
        find_char(hay, c, from + 1)
    }
}

/// Number of leftmost non-overlapping occurrences (`str::matches(..).count()`).
pub open spec fn count_matches(hay: Seq<char>, needle: Seq<char>) -> nat
    recommends
        needle.len() > 0,
    decreases hay.len(),
{
    if needle.len() == 0 || hay.len() < needle.len() {
        0
    } else if hay.subrange(0, needle.len() as int) == needle {
        1 + count_matches(hay.skip(needle.len() as int), needle)
    } else {
        count_matches(hay.drop_first(), needle)
    }
}

/// Appends one character to a string.
#[verifier::external_body]
pub(crate) fn push_char(s: &mut String, c: char)
    ensures
        final(s)@ == old(s)@.push(c),
{
    s.push(c);
}

/// The characters of `s`, in order.
pub fn chars_of(s: &str) -> (v: Vec<char>)
    ensures
        v@ == s@,
{
    let mut v: Vec<char> = Vec::new();
    for c in it: s.chars()
        invariant
            v@ == it.seq().take(it.index() as int),
    {
        v.push(c);
    }
    v
}

/// A string holding exactly the characters `v[from..to]`.
pub fn string_of_range(v: &[char], from: usize, to: usize) -> (s: String)
    requires
        from <= to <= v@.len(),
    ensures
        s@ == v@.subrange(from as int, to as int),
{
    let mut s = String::new();
    let mut i = from;
    while i < to
        invariant
            from <= i <= to <= v@.len(),
            s@ == v@.subrange(from as int, i as int),
        decreases to - i,
    {
        push_char(&mut s, v[i]);
        assert(v@.subrange(from as int, i + 1) == v@.subrange(from as int, i as int).push(v@[i as int]));
        i += 1;
    }
    s
}

/// A string holding exactly the characters of `v`.
pub fn string_of(v: &[char]) -> (s: String)
    ensures
        s@ == v@,
{
    let s = string_of_range(v, 0, v.len());
    assert(v@.subrange(0, v@.len() as int) == v@);
    s
}

/// Appends the characters of `t` to the character buffer `v`.
pub fn extend_chars(v: &mut Vec<char>, t: &str)
    ensures
        final(v)@ == old(v)@ + t@,
{
    let cs = chars_of(t);
    let mut i: usize = 0;
    while i < cs.len()
        invariant
            i <= cs@.len(),
            cs@ == t@,
            v@ == old(v)@ + cs@.take(i as int),
        decreases cs.len() - i,
    {
        v.push(cs[i]);
        assert(cs@.take(i + 1) == cs@.take(i as int).push(cs@[i as int]));
        i += 1;
    }
    assert(cs@.take(cs@.len() as int) == cs@);
}

/// Appends `t[from..to]` to `v`.
pub fn extend_range(v: &mut Vec<char>, t: &[char], from: usize, to: usize)
    requires
        from <= to <= t@.len(),
    ensures
        final(v)@ == old(v)@ + t@.subrange(from as int, to as int),
{
    let mut i = from;
    while i < to
        invariant
            from <= i <= to <= t@.len(),
            v@ == old(v)@ + t@.subrange(from as int, i as int),
        decreases to - i,
    {
        v.push(t[i]);
        assert(t@.subrange(from as int, i + 1) == t@.subrange(from as int, i as int).push(t@[i as int]));
        i += 1;
    }
}

/// `char::is_whitespace`.
pub fn char_is_whitespace(c: char) -> (b: bool)
    ensures
        b == is_whitespace(c),
{
    let v = c as u32;
    v == 0x09 || v == 0x0A || v == 0x0B || v == 0x0C || v == 0x0D || v == 0x20 || v == 0x85
        || v == 0xA0 || v == 0x1680 || (0x2000 <= v && v <= 0x200A) || v == 0x2028 || v == 0x2029
        || v == 0x202F || v == 0x205F || v == 0x3000
}

/// ASCII lower-casing of one character.
pub fn to_ascii_lower(c: char) -> (r: char)
    ensures
        r == ascii_lower(c),
{
    if 'A' <= c && c <= 'Z' {
        let v = (c as u32) + 32;
        assert(0x61 <= v <= 0x7A);
        char_from_ascii(v)
    } else {
        c
    }
}

/// The character with an ASCII code point.
fn char_from_ascii(v: u32) -> (c: char)
    requires
        v < 128,
    ensures
        c == v as char,
{
    (v as u8) as char
}

pub proof fn lemma_trim_start_skip(s: Seq<char>, i: int)
    requires
        0 <= i <= s.len(),
        forall|j: int| 0 <= j < i ==> is_whitespace(#[trigger] s[j]),
        i == s.len() || !is_whitespace(s[i]),
    ensures
        trim_start(s) == s.skip(i),
    decreases i,
{
    if i == 0 {
        assert(s.skip(0) == s);
    } else {
        assert(is_whitespace(s[0]));
        lemma_trim_start_skip(s.drop_first(), i - 1);
        assert(s.drop_first().skip(i - 1) == s.skip(i));
    }
}

proof fn lemma_trim_end_take(s: Seq<char>, j: int)
    requires
        0 <= j <= s.len(),
        forall|k: int| j <= k < s.len() ==> is_whitespace(#[trigger] s[k]),
        j == 0 || !is_whitespace(s[j - 1]),
    ensures
        trim_end(s) == s.take(j),
    decreases s.len() - j,
{
    if j == s.len() {
        assert(s.take(j) == s);
    } else {
        assert(is_whitespace(s.last()));
        lemma_trim_end_take(s.drop_last(), j);
        assert(s.drop_last().take(j) == s.take(j));
    }
}

/// Bounds `(start, end)` of `v` without surrounding white space.
pub fn trim_bounds(v: &[char], from: usize, to: usize) -> (r: (usize, usize))
    requires
        from <= to <= v@.len(),
    ensures
        from <= r.0 <= r.1 <= to,
        v@.subrange(r.0 as int, r.1 as int) == trim(v@.subrange(from as int, to as int)),
{
    let ghost s = v@.subrange(from as int, to as int);
    let mut i = from;
    while i < to && char_is_whitespace(v[i])
        invariant
            from <= i <= to <= v@.len(),
            forall|k: int| from <= k < i ==> is_whitespace(#[trigger] v@[k]),
        decreases to - i,
    {
        i += 1;
    }
    proof {
        assert forall|k: int| 0 <= k < i - from implies is_whitespace(#[trigger] s[k]) by {
            assert(s[k] == v@[from + k]);
        }
        lemma_trim_start_skip(s, i - from);
    }
    let mut j = to;
    while j > i && char_is_whitespace(v[j - 1])
        invariant
            i <= j <= to,
            from <= i,
            to <= v@.len(),
            forall|k: int| j <= k < to ==> is_whitespace(#[trigger] v@[k]),
        decreases j - i,
    {
        j -= 1;
    }
    proof {
        let t = s.skip(i - from);
        assert(t == v@.subrange(i as int, to as int));
        assert forall|k: int| j - i <= k < t.len() implies is_whitespace(#[trigger] t[k]) by {
            assert(t[k] == v@[i + k]);
        }
        lemma_trim_end_take(t, j - i);
        assert(t.take(j - i) == v@.subrange(i as int, j as int));
    }
    (i, j)
}

/// `str::trim` over a whole string.
pub fn trim_str(s: &str) -> (r: String)
    ensures
        r@ == trim(s@),
{
    let v = chars_of(s);
    let (a, b) = trim_bounds(&v, 0, v.len());
    assert(v@.subrange(0, v@.len() as int) == v@);
    string_of_range(&v, a, b)
}

/// Whether `needle` occurs in `hay` at `i`.
pub fn matches_at(hay: &[char], needle: &[char], i: usize) -> (b: bool)
    ensures
        b == occurs_at(hay@, needle@, i as int),
{
    if i > hay.len() || needle.len() > hay.len() - i {
        return false;
    }
    let mut k: usize = 0;
    while k < needle.len()
        invariant
            i + needle@.len() <= hay@.len(),
            hay@.len() == hay.len(),
            k <= needle@.len(),
            forall|m: int| 0 <= m < k ==> hay@[i + m] == needle@[m],
        decreases needle.len() - k,
    {
        if hay[i + k] != needle[k] {
            assert(hay@.subrange(i as int, i + needle@.len())[k as int] != needle@[k as int]);
            return false;
        }
        k += 1;
    }
    assert(hay@.subrange(i as int, i + needle@.len()) =~= needle@);
    true
}

/// Whether `needle` occurs in `hay` at `i`, ignoring ASCII case.
pub fn matches_at_ci(hay: &[char], needle: &[char], i: usize) -> (b: bool)
    ensures
        b == occurs_at_ci(hay@, needle@, i as int),
{
    if i > hay.len() || needle.len() > hay.len() - i {
        return false;
    }
    let mut k: usize = 0;
    while k < needle.len()
        invariant
            i + needle@.len() <= hay@.len(),
            hay@.len() == hay.len(),
            k <= needle@.len(),
            forall|m: int| 0 <= m < k ==> ascii_lower(#[trigger] hay@[i + m]) == ascii_lower(needle@[m]),
        decreases needle.len() - k,
    {
        if to_ascii_lower(hay[i + k]) != to_ascii_lower(needle[k]) {
            assert(hay@.subrange(i as int, i + needle@.len())[k as int] == hay@[i + k]);
            return false;
        }
        k += 1;
    }
    let ghost w = hay@.subrange(i as int, i + needle@.len());
    assert forall|m: int| 0 <= m < w.len() implies ascii_lower(#[trigger] w[m]) == ascii_lower(needle@[m]) by {
        assert(w[m] == hay@[i + m]);
    }
    true
}

/// First position at or after `from` where `needle` occurs, ignoring ASCII case.
pub fn find_ci_from(hay: &[char], needle: &[char], from: usize) -> (r: Option<usize>)
    ensures
        match r {
            Some(i) => find_ci(hay@, needle@, from as int) == Some(i as int),
            None => find_ci(hay@, needle@, from as int) is None,
        },
        r matches Some(i) ==> from <= i && i + needle@.len() <= hay@.len(),
{
    if from > hay.len() || needle.len() > hay.len() - from {
        return None;
    }
    if needle.len() == 0 {
        assert(hay@.subrange(from as int, from as int) =~= needle@);
        return Some(from);
    }
    let mut i = from;
    while needle.len() <= hay.len() - i
        invariant
            from <= i <= hay@.len(),
            needle@.len() > 0,
            hay@.len() == hay.len(),
            find_ci(hay@, needle@, from as int) == find_ci(hay@, needle@, i as int),
        decreases hay.len() - i,
    {
        if matches_at_ci(hay, needle, i) {
            return Some(i);
        }
        i += 1;
    }
    None
}

/// First position at or after `from` where `needle` occurs.
pub fn find_exact_from(hay: &[char], needle: &[char], from: usize) -> (r: Option<usize>)
    ensures
        match r {
            Some(i) => find_exact(hay@, needle@, from as int) == Some(i as int),
            None => find_exact(hay@, needle@, from as int) is None,
        },
        r matches Some(i) ==> from <= i && i + needle@.len() <= hay@.len(),
{
    if from > hay.len() || needle.len() > hay.len() - from {
        return None;
    }
    if needle.len() == 0 {
        assert(hay@.subrange(from as int, from as int) =~= needle@);
        return Some(from);
    }
    let mut i = from;
    while needle.len() <= hay.len() - i
        invariant
            from <= i <= hay@.len(),
            needle@.len() > 0,
            hay@.len() == hay.len(),
            find_exact(hay@, needle@, from as int) == find_exact(hay@, needle@, i as int),
        decreases hay.len() - i,
    {
        if matches_at(hay, needle, i) {
            return Some(i);
        }
        i += 1;
    }
    None
}

/// First position at or after `from` holding `c`.
pub fn find_char_from(hay: &[char], c: char, from: usize) -> (r: Option<usize>)
    ensures
        match r {
            Some(i) => find_char(hay@, c, from as int) == Some(i as int),
            None => find_char(hay@, c, from as int) is None,
        },
        r matches Some(i) ==> from <= i < hay@.len(),
{
    let mut i = from;
    while i < hay.len()
        invariant
            from <= i,
            find_char(hay@, c, from as int) == find_char(hay@, c, i as int),
        decreases hay.len() - i,
    {
        if hay[i] == c {
            return Some(i);
        }
        i += 1;
    }
    None
}

/// A position where `needle` occurs is found by the search from any earlier start.
pub proof fn lemma_find_exact_some(hay: Seq<char>, needle: Seq<char>, from: int, i: int)
    requires
        0 <= from <= i,
        occurs_at(hay, needle, i),
    ensures
        find_exact(hay, needle, from) is Some,
    decreases i - from,
{
    if !occurs_at(hay, needle, from) {
        lemma_find_exact_some(hay, needle, from + 1, i);
    }
}

/// The search finds nothing exactly when the needle never occurs.
pub proof fn lemma_find_exact_none(hay: Seq<char>, needle: Seq<char>)
    ensures
        find_exact(hay, needle, 0) is None <==> !contains(hay, needle),
{
    if contains(hay, needle) {
        let i = choose|i: int| occurs_at(hay, needle, i);
        lemma_find_exact_some(hay, needle, 0, i);
    } else {
        lemma_find_exact_none_from(hay, needle, 0);
    }
}

proof fn lemma_find_exact_none_from(hay: Seq<char>, needle: Seq<char>, from: int)
    requires
        0 <= from,
        !contains(hay, needle),
    ensures
        find_exact(hay, needle, from) is None,
    decreases hay.len() - from,
{
    if from + needle.len() <= hay.len() && from < hay.len() {
        assert(!occurs_at(hay, needle, from));
        lemma_find_exact_none_from(hay, needle, from + 1);
    }
}

/// Whether `hay` contains `needle`.
pub fn contains_text(hay: &[char], needle: &[char]) -> (r: bool)
    ensures
        r == contains(hay@, needle@),
{
    proof {
        lemma_find_exact_none(hay@, needle@);
    }
    find_exact_from(hay, needle, 0).is_some()
}

/// Strict lexicographic order of texts by code point (the order of their
/// UTF-8 bytes).
pub open spec fn text_lt(a: Seq<char>, b: Seq<char>) -> bool
    decreases a.len(),
{
    if a.len() == 0 {
        b.len() > 0
    } else if b.len() == 0 {
        false
    } else if a[0] != b[0] {
        (a[0] as u32) < (b[0] as u32)
    } else {
        text_lt(a.drop_first(), b.drop_first())
    }
}

/// Whether `a` sorts strictly before `b` (see `text_lt`).
pub fn text_lt_exec(a: &[char], b: &[char]) -> (r: bool)
    ensures
        r == text_lt(a@, b@),
{
    let mut i: usize = 0;
    assert(a@.skip(0) =~= a@);
    assert(b@.skip(0) =~= b@);
    while i < a.len() && i < b.len() && a[i] == b[i]
        invariant
            i <= a@.len(),
            i <= b@.len(),
            text_lt(a@, b@) == text_lt(a@.skip(i as int), b@.skip(i as int)),
        decreases a.len() - i,
    {
        assert(a@.skip(i as int).drop_first() =~= a@.skip(i + 1));
        assert(b@.skip(i as int).drop_first() =~= b@.skip(i + 1));
        i += 1;
    }
    if i == a.len() {
        i < b.len()
    } else if i == b.len() {
        false
    } else {
        (a[i] as u32) < (b[i] as u32)
    }
}

/// `text_lt` is a strict total order.
pub proof fn lemma_text_lt_order(a: Seq<char>, b: Seq<char>, c: Seq<char>)
    ensures
        !text_lt(a, a),
        text_lt(a, b) ==> !text_lt(b, a),
        a != b ==> text_lt(a, b) || text_lt(b, a),
        text_lt(a, b) && text_lt(b, c) ==> text_lt(a, c),
    decreases a.len(),
{
    if a.len() > 0 {
        if b.len() > 0 && c.len() > 0 {
            lemma_text_lt_order(a.drop_first(), b.drop_first(), c.drop_first());
        } else if b.len() > 0 {
            lemma_text_lt_order(a.drop_first(), b.drop_first(), b.drop_first());
        } else {
            lemma_text_lt_order(a.drop_first(), a.drop_first(), a.drop_first());
        }
        if b.len() > 0 && a[0] != b[0] {
            vstd::utf8::char_u32_cast(a[0], a[0] as u32);
            vstd::utf8::char_u32_cast(b[0], b[0] as u32);
            assert((a[0] as u32) != (b[0] as u32));
        }
        if a != b && b.len() > 0 && a[0] == b[0] {
            assert(a.drop_first() != b.drop_first()) by {
                if a.drop_first() == b.drop_first() {
                    assert(a =~= seq![a[0]] + a.drop_first());
                    assert(b =~= seq![b[0]] + b.drop_first());
                }
            }
        }
    } else {
        if b.len() == 0 {
            assert(a =~= b);
        }
    }
}

/// Pieces of `s` between occurrences of `sep` (`str::split`); never empty.
pub open spec fn split_on(s: Seq<char>, sep: char) -> Seq<Seq<char>>
    decreases s.len(),
{
    if s.len() == 0 {
        seq![Seq::<char>::empty()]
    } else {
        let r = split_on(s.drop_last(), sep);
        if s.last() == sep {
            r.push(Seq::<char>::empty())
        } else {
            r.update(r.len() - 1, r.last().push(s.last()))
        }
    }
}

/// One trailing carriage return removed, if present.
pub open spec fn strip_cr(p: Seq<char>) -> Seq<char> {
    if p.len() > 0 && p.last() == '\r' {
        p.drop_last()
    } else {
        p
    }
}

/// `str::lines`: pieces split at `\n`, a carriage return before the `\n`
/// removed, and no final empty line after a trailing newline.
pub open spec fn lines(s: Seq<char>) -> Seq<Seq<char>> {
    let p = split_on(s, '\n');
    let n = if p.last().len() == 0 { p.len() - 1 } else { p.len() as int };
    Seq::new(n as nat, |i: int| if i < p.len() - 1 { strip_cr(p[i]) } else { p[i] })
}

pub proof fn lemma_split_on_len(s: Seq<char>, sep: char)
    ensures
        split_on(s, sep).len() >= 1,
    decreases s.len(),
{
    if s.len() > 0 {
        lemma_split_on_len(s.drop_last(), sep);
    }
}

/// Ranges `[start, end)` of the lines of `v` (see `lines`).
pub fn line_ranges(v: &[char]) -> (r: Vec<(usize, usize)>)
    ensures
        r@.len() == lines(v@).len(),
        forall|k: int|
            0 <= k < r@.len() ==> {
                &&& (#[trigger] r@[k]).0 <= r@[k].1 <= v@.len()
                &&& v@.subrange(r@[k].0 as int, r@[k].1 as int) == lines(v@)[k]
            },
{
    let mut r: Vec<(usize, usize)> = Vec::new();
    let mut start: usize = 0;
    let mut i: usize = 0;
    proof {
        assert(v@.take(0) =~= Seq::<char>::empty());
    }
    while i < v.len()
        invariant
            start <= i <= v@.len(),
            split_on(v@.take(i as int), '\n').len() == r@.len() + 1,
            split_on(v@.take(i as int), '\n').last() == v@.subrange(start as int, i as int),
            forall|k: int|
                0 <= k < r@.len() ==> {
                    &&& (#[trigger] r@[k]).0 <= r@[k].1 <= v@.len()
                    &&& v@.subrange(r@[k].0 as int, r@[k].1 as int) == strip_cr(
                        split_on(v@.take(i as int), '\n')[k],
                    )
                },
        decreases v.len() - i,
    {
        let ghost prev = split_on(v@.take(i as int), '\n');
        proof {
            assert(v@.take(i + 1).drop_last() =~= v@.take(i as int));
            assert(v@.take(i + 1).last() == v@[i as int]);
        }
        if v[i] == '\n' {
            let end = if i > start && v[i - 1] == '\r' { i - 1 } else { i };
            proof {
                let piece = v@.subrange(start as int, i as int);
                if i > start && v@[i - 1] == '\r' {
                    assert(piece.last() == '\r');
                    assert(piece.drop_last() =~= v@.subrange(start as int, end as int));
                } else {
                    assert(piece =~= v@.subrange(start as int, end as int));
                }
            }
            r.push((start, end));
            start = i + 1;
            proof {
                assert(v@.subrange(start as int, i + 1) =~= Seq::<char>::empty());
            }
        } else {
            proof {
                assert(v@.subrange(start as int, i + 1) =~= v@.subrange(start as int, i as int).push(v@[i as int]));
            }
        }
        i += 1;
    }
    proof {
        assert(v@.take(v@.len() as int) =~= v@);
    }
    if start < v.len() {
        r.push((start, v.len()));
    }
    r
}

/// The lines of `s` (see `lines`), each as its characters.
pub fn split_lines(s: &str) -> (r: Vec<Vec<char>>)
    ensures
        r@.len() == lines(s@).len(),
        forall|k: int| 0 <= k < r@.len() ==> (#[trigger] r@[k])@ == lines(s@)[k],
{
    let v = chars_of(s);
    let ranges = line_ranges(&v);
    let mut r: Vec<Vec<char>> = Vec::new();
    let mut k: usize = 0;
    while k < ranges.len()
        invariant
            k <= ranges@.len(),
            v@ == s@,
            ranges@.len() == lines(v@).len(),
            forall|q: int|
                0 <= q < ranges@.len() ==> {
                    &&& (#[trigger] ranges@[q]).0 <= ranges@[q].1 <= v@.len()
                    &&& v@.subrange(ranges@[q].0 as int, ranges@[q].1 as int) == lines(v@)[q]
                },
            r@.len() == k,
            forall|q: int| 0 <= q < k ==> (#[trigger] r@[q])@ == lines(s@)[q],
        decreases ranges.len() - k,
    {
        let (a, b) = ranges[k];
        let line = copy_range(&v, a, b);
        r.push(line);
        k += 1;
    }
    r
}

/// Whether two character sequences are equal.
pub fn eq_chars(a: &[char], b: &[char]) -> (r: bool)
    ensures
        r == (a@ == b@),
{
    if a.len() != b.len() {
        return false;
    }
    let mut i: usize = 0;
    while i < a.len()
        invariant
            i <= a@.len(),
            a@.len() == b@.len(),
            forall|q: int| 0 <= q < i ==> a@[q] == b@[q],
        decreases a.len() - i,
    {
        if a[i] != b[i] {
            return false;
        }
        i += 1;
    }
    assert(a@ =~= b@);
    true
}

/// Whether `a` holds exactly the characters of `b`.
pub fn eq_str(a: &[char], b: &str) -> (r: bool)
    ensures
        r == (a@ == b@),
{
    let bv = chars_of(b);
    eq_chars(a, &bv)
}

proof fn lemma_count_matches_step(hay: Seq<char>, needle: Seq<char>, i: int)
    requires
        needle.len() > 0,
        0 <= i,
        i + needle.len() <= hay.len(),
    ensures
        count_matches(hay.skip(i), needle) == if hay.subrange(i, i + needle.len()) == needle {
            1 + count_matches(hay.skip(i + needle.len()), needle)
        } else {
            count_matches(hay.skip(i + 1), needle)
        },
{
    let t = hay.skip(i);
    assert(t.subrange(0, needle.len() as int) =~= hay.subrange(i, i + needle.len()));
    assert(t.skip(needle.len() as int) =~= hay.skip(i + needle.len()));
    assert(t.drop_first() =~= hay.skip(i + 1));
}

/// `hay.matches(needle).count()`.
pub fn count_matches_in(hay: &[char], needle: &[char]) -> (n: usize)
    requires
        needle@.len() > 0,
    ensures
        n == count_matches(hay@, needle@),
{
    let mut count: usize = 0;
    let mut i: usize = 0;
    assert(hay@.skip(0) =~= hay@);
    while i < hay.len() && needle.len() <= hay.len() - i
        invariant
            i <= hay@.len(),
            needle@.len() > 0,
            count <= i,
            count + count_matches(hay@.skip(i as int), needle@) == count_matches(hay@, needle@),
        decreases hay.len() - i,
    {
        proof {
            lemma_count_matches_step(hay@, needle@, i as int);
        }
        if matches_at(hay, needle, i) {
            count += 1;
            i += needle.len();
        } else {
            i += 1;
        }
    }
    count
}

/// A copy of `v[from..to]`.
pub fn copy_range(v: &[char], from: usize, to: usize) -> (r: Vec<char>)
    requires
        from <= to <= v@.len(),
    ensures
        r@ == v@.subrange(from as int, to as int),
{
    let mut r: Vec<char> = Vec::new();
    extend_range(&mut r, v, from, to);
    r
}

/// Number of bytes in the UTF-8 encoding of `c`.
pub open spec fn utf8_width(c: char) -> nat {
    let v = c as u32;
    if v <= 0x7F {
        1
    } else if v <= 0x7FF {
        2
    } else if v <= 0xFFFF {
        3
    } else {
        4
    }
}

/// Number of bytes in the UTF-8 encoding of `s` (`str::len`).
pub open spec fn utf8_len(s: Seq<char>) -> nat
    decreases s.len(),
{
    if s.len() == 0 {
        0
    } else {
        utf8_len(s.drop_last()) + utf8_width(s.last())
    }
}

/// Whether the UTF-8 encoding of `v` is longer than `limit` bytes.
pub fn utf8_len_exceeds(v: &[char], limit: usize) -> (r: bool)
    requires
        limit < usize::MAX - 4,
    ensures
        r == (utf8_len(v@) > limit),
{
    let mut total: usize = 0;
    let mut i: usize = 0;
    while i < v.len()
        invariant
            i <= v@.len(),
            limit < usize::MAX - 4,
            total == utf8_len(v@.take(i as int)),
            total <= limit,
        decreases v.len() - i,
    {
        let c = v[i] as u32;
        let w: usize = if c <= 0x7F {
            1
        } else if c <= 0x7FF {
            2
        } else if c <= 0xFFFF {
            3
        } else {
            4
        };
        assert(v@.take(i + 1).drop_last() =~= v@.take(i as int));
        total += w;
        i += 1;
        if total > limit {
            proof {
                lemma_utf8_len_prefix(v@, i as int);
            }
            return true;
        }
    }
    assert(v@.take(v@.len() as int) =~= v@);
    false
}

/// A prefix is never longer in UTF-8 than the whole text.
pub proof fn lemma_utf8_len_prefix(s: Seq<char>, i: int)
    requires
        0 <= i <= s.len(),
    ensures
        utf8_len(s.take(i)) <= utf8_len(s),
    decreases s.len() - i,
{
    if i < s.len() {
        lemma_utf8_len_prefix(s.drop_last(), i);
        assert(s.drop_last().take(i) =~= s.take(i));
    } else {
        assert(s.take(i) =~= s);
    }
}

/// ASCII letter or digit (`char::is_ascii_alphanumeric`).
pub open spec fn is_ascii_alnum(c: char) -> bool {
    ('a' <= c && c <= 'z') || ('A' <= c && c <= 'Z') || ('0' <= c && c <= '9')
}

/// `char::is_ascii_alphanumeric`.
pub fn char_is_ascii_alnum(c: char) -> (b: bool)
    ensures
        b == is_ascii_alnum(c),
{
    ('a' <= c && c <= 'z') || ('A' <= c && c <= 'Z') || ('0' <= c && c <= '9')
}

/// The Unicode lowercase mapping of one character (`char::to_lowercase`).
pub uninterp spec fn char_lowercase(c: char) -> Seq<char>;

/// `char::to_lowercase`, collected. The lowercase of an ASCII character is its
/// ASCII lowercase (std documents `to_lowercase` as the Unicode mapping, which
/// agrees with `to_ascii_lowercase` on ASCII).
#[verifier::external_body]
pub(crate) fn lowercase_of(c: char) -> (v: Vec<char>)
    ensures
        v@ == char_lowercase(c),
        (c as u32) < 128 ==> v@ == seq![ascii_lower(c)],
{
    c.to_lowercase().collect()
}

/// The Unicode lowercase of a whole string (`str::to_lowercase`), which
/// also takes a character's position into account (a final capital sigma).
pub uninterp spec fn str_to_lowercase(s: Seq<char>) -> Seq<char>;

/// `str::to_lowercase`: the string's lowercase under Unicode's mapping; a
/// function of the string.
#[verifier::external_body]
pub(crate) fn str_lowercase(s: &str) -> (r: String)
    ensures
        r@ == str_to_lowercase(s@),
{
    s.to_lowercase()
}

/// The Unicode lowercase of every character of `s`, concatenated
/// (`s.chars().flat_map(char::to_lowercase)`).
pub open spec fn lowercase_all(s: Seq<char>) -> Seq<char>
    decreases s.len(),
{
    if s.len() == 0 {
        Seq::empty()
    } else {
        lowercase_all(s.drop_last()) + char_lowercase(s.last())
    }
}

/// The decimal digit character of a value below 10.
pub open spec fn digit_char(d: nat) -> char {
    ((d + 48) as u32) as char
}

/// Decimal text of `n` without leading zeros (`n.to_string()`).
pub open spec fn decimal(n: nat) -> Seq<char>
    decreases n,
{
    if n < 10 {
        seq![digit_char(n)]
    } else {
        decimal(n / 10).push(digit_char(n % 10))
    }
}

/// `n` in decimal, padded with leading zeros to at least `width` digits
/// (`format!("{n:0width$}")`).
pub open spec fn zero_padded(n: nat, width: nat) -> Seq<char> {
    let d = decimal(n);
    if d.len() < width {
        Seq::new((width - d.len()) as nat, |i: int| '0') + d
    } else {
        d
    }
}

/// Appends `decimal(n)` to `out`.
pub fn push_decimal(out: &mut Vec<char>, n: u64)
    ensures
        final(out)@ == old(out)@ + decimal(n as nat),
    decreases n,
{
    if n >= 10 {
        push_decimal(out, n / 10);
    }
    let d = (n % 10) as u32 + 48;
    out.push(char_from_ascii(d));
    assert(decimal(n as nat) == if n < 10 { seq![digit_char(n as nat)] } else { decimal((n / 10) as nat).push(digit_char((n % 10) as nat)) });
    assert(old(out)@ + decimal(n as nat) =~= out@);
}

/// Appends `zero_padded(n, width)` to `out`.
pub fn push_zero_padded(out: &mut Vec<char>, n: u64, width: usize)
    ensures
        final(out)@ == old(out)@ + zero_padded(n as nat, width as nat),
{
    let mut digits: Vec<char> = Vec::new();
    push_decimal(&mut digits, n);
    assert(Seq::<char>::empty() + decimal(n as nat) =~= decimal(n as nat));
    if digits.len() < width {
        let pad = width - digits.len();
        let mut i: usize = 0;
        let ghost base = out@;
        while i < pad
            invariant
                i <= pad,
                out@ == base + Seq::new(i as nat, |q: int| '0'),
            decreases pad - i,
        {
            out.push('0');
            assert(base + Seq::new((i + 1) as nat, |q: int| '0') =~= base + Seq::new(i as nat, |q: int| '0') + seq!['0']);
            i += 1;
        }
        extend_range(out, &digits, 0, digits.len());
        assert(digits@.subrange(0, digits@.len() as int) =~= digits@);
        assert(out@ =~= base + (Seq::new(pad as nat, |q: int| '0') + digits@));
    } else {
        extend_range(out, &digits, 0, digits.len());
        assert(digits@.subrange(0, digits@.len() as int) =~= digits@);
    }
}

} // verus!
