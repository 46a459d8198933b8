//! Offline HTML policy for the capture pipeline: active content is removed,
//! external resources are refused, and each slide gets a capture-only page.
use crate::text::{
    ascii_lower, char_is_whitespace, char_lowercase, chars_of, contains, contains_text, count_matches,
    count_matches_in, decimal, extend_chars, find_char, find_char_from, find_ci, find_ci_from,
    find_exact, find_exact_from, is_whitespace, occurs_at_ci, lowercase_all, lowercase_of, push_decimal, string_of,
    string_of_range, to_ascii_lower, trim_start, utf8_len, utf8_len_exceeds,
};
use vstd::prelude::*;

verus! {

broadcast use vstd::string::group_string_axioms;

/// Bump when capture HTML or layout changes so stale cache entries are not reused.
pub const RENDERER_VERSION: &'static str = "html-capture-v2";

/// Revision of the deck handler whose HTML this pipeline understands.
pub const HANDLER_REVISION: &'static str = "officecli-acabe4959a37235dd587bbcc788565f19a824bb7";

/// How often one slide is captured before its last error is reported.
pub const CAPTURE_ATTEMPTS: u32 = 3;

/// The attribute prefix of every top-level slide container of the handler.
pub const SLIDE_CONTAINER_MARKER: &'static str = "class=\"slide-container\" data-slide=\"";

/// Largest renderer document, in UTF-8 bytes (64 MiB).
pub const MAX_OFFLINE_HTML_BYTES: usize = 67108864;

/// Elements removed with their content before capture.
pub const ACTIVE_TAGS: [&'static str; 7] = ["script", "iframe", "frame", "object", "embed", "applet", "form"];

/// Markers of external or network resources, looked for in the compacted,
/// lower-cased document.
pub const FORBIDDEN_MARKERS: [&'static str; 10] = [
    "http:",
    "https:",
    "ftp:",
    "ftps:",
    "ws:",
    "wss:",
    "file:",
    "//",
    "@import",
    "srcset=",
];

/// Why a renderer document was refused.
#[derive(Clone, Copy, Debug, PartialEq, Eq, Structural)]
pub enum OfflineHtmlError {
    /// The document is larger than `MAX_OFFLINE_HTML_BYTES`.
    TooLarge,
    /// The marker with this index in `FORBIDDEN_MARKERS` occurs.
    ExternalResource(usize),
}

/// Number of top-level slide containers the handler emitted: the
/// non-overlapping occurrences of `SLIDE_CONTAINER_MARKER`, as a `u32`.
pub fn handler_slide_count(source: &str) -> (n: u32)
    ensures
        n == count_matches(source@, SLIDE_CONTAINER_MARKER@) as u32,
{
    let hay = chars_of(source);
    let needle = chars_of(SLIDE_CONTAINER_MARKER);
    proof {
        reveal_strlit("class=\"slide-container\" data-slide=\"");
    }
    let c = count_matches_in(&hay, &needle);
    #[verifier::truncate]
    (c as u32)
}

/// `<tag`.
pub open spec fn open_marker(tag: Seq<char>) -> Seq<char> {
    seq!['<'] + tag
}

/// `</tag>`.
pub open spec fn close_marker(tag: Seq<char>) -> Seq<char> {
    seq!['<', '/'] + tag + seq!['>']
}

/// `v` without the characters in `[s, e)`.
pub open spec fn cut(v: Seq<char>, s: int, e: int) -> Seq<char> {
    v.take(s) + v.skip(e)
}

/// End of an active element opened at `start`: past its closing tag, else
/// past the first `>`, else the end of the document.
pub open spec fn element_end(v: Seq<char>, start: int, tag: Seq<char>) -> int {
    match find_ci(v, close_marker(tag), start) {
        Some(p) => p + close_marker(tag).len(),
        None => match find_char(v, '>', start) {
            Some(p) => p + 1,
            None => v.len() as int,
        },
    }
}

/// Every element `tag` removed, first occurrence first, and whether any was.
pub open spec fn strip_element(v: Seq<char>, tag: Seq<char>) -> (Seq<char>, bool)
    decreases v.len(),
{
    match find_ci(v, open_marker(tag), 0) {
        None => (v, false),
        Some(s) => {
            let e = element_end(v, s, tag);
            if 0 <= s < e <= v.len() {
                (strip_element(cut(v, s, e), tag).0, true)
            } else {
                (v, false)
            }
        },
    }
}

/// The active elements from `ACTIVE_TAGS[k]` on removed in order, and whether
/// anything was removed.
pub open spec fn strip_active(v: Seq<char>, k: int) -> (Seq<char>, bool)
    decreases 7 - k,
{
    if k < 0 || k >= 7 {
        (v, false)
    } else {
        let w = strip_element(v, ACTIVE_TAGS@[k]@);
        let x = strip_active(w.0, k + 1);
        (x.0, w.1 || x.1)
    }
}

/// Every `<tag ...>` removed up to its first `>` (or the end).
pub open spec fn strip_void(v: Seq<char>, tag: Seq<char>) -> Seq<char>
    decreases v.len(),
{
    match find_ci(v, open_marker(tag), 0) {
        None => v,
        Some(s) => {
            let e = match find_char(v, '>', s) {
                Some(p) => p + 1,
                None => v.len() as int,
            };
            if 0 <= s < e <= v.len() {
                strip_void(cut(v, s, e), tag)
            } else {
                v
            }
        },
    }
}

fn cut_range(v: &Vec<char>, s: usize, e: usize) -> (r: Vec<char>)
    requires
        s <= e <= v@.len(),
    ensures
        r@ == cut(v@, s as int, e as int),
{
    let mut r: Vec<char> = Vec::new();
    let mut i: usize = 0;
    while i < s
        invariant
            i <= s <= e <= v@.len(),
            r@ == v@.take(i as int),
        decreases s - i,
    {
        r.push(v[i]);
        assert(v@.take(i + 1) =~= v@.take(i as int).push(v@[i as int]));
        i += 1;
    }
    let mut j: usize = e;
    while j < v.len()
        invariant
            s <= e <= j <= v@.len(),
            r@ == v@.take(s as int) + v@.subrange(e as int, j as int),
        decreases v.len() - j,
    {
        r.push(v[j]);
        assert(v@.subrange(e as int, j + 1) =~= v@.subrange(e as int, j as int).push(v@[j as int]));
        j += 1;
    }
    assert(v@.subrange(e as int, v@.len() as int) =~= v@.skip(e as int));
    r
}

fn marker_open(tag: &[char]) -> (m: Vec<char>)
    ensures
        m@ == open_marker(tag@),
{
    let mut m: Vec<char> = Vec::new();
    m.push('<');
    let mut i: usize = 0;
    while i < tag.len()
        invariant
            i <= tag@.len(),
            m@ == seq!['<'] + tag@.take(i as int),
        decreases tag.len() - i,
    {
        m.push(tag[i]);
        assert(tag@.take(i + 1) =~= tag@.take(i as int).push(tag@[i as int]));
        i += 1;
    }
    assert(tag@.take(tag@.len() as int) =~= tag@);
    m
}

fn marker_close(tag: &[char]) -> (m: Vec<char>)
    ensures
        m@ == close_marker(tag@),
{
    let mut m: Vec<char> = Vec::new();
    m.push('<');
    m.push('/');
    let mut i: usize = 0;
    while i < tag.len()
        invariant
            i <= tag@.len(),
            m@ == seq!['<', '/'] + tag@.take(i as int),
        decreases tag.len() - i,
    {
        m.push(tag[i]);
        assert(tag@.take(i + 1) =~= tag@.take(i as int).push(tag@[i as int]));
        i += 1;
    }
    m.push('>');
    assert(tag@.take(tag@.len() as int) =~= tag@);
    assert(m@ =~= close_marker(tag@));
    m
}

fn strip_element_exec(v: Vec<char>, tag: &[char]) -> (r: (Vec<char>, bool))
    ensures
        (r.0@, r.1) == strip_element(v@, tag@),
{
    let open = marker_open(tag);
    let close = marker_close(tag);
    let mut cur = v;
    let mut removed = false;
    loop
        invariant
            open@ == open_marker(tag@),
            close@ == close_marker(tag@),
            strip_element(v@, tag@) == (strip_element(cur@, tag@).0, removed || strip_element(cur@, tag@).1),
        decreases cur@.len(),
    {
        let s = match find_ci_from(&cur, &open, 0) {
            None => {
                return (cur, removed);
            },
            Some(s) => s,
        };
        let e = match find_ci_from(&cur, &close, s) {
            Some(p) => {
                assert(p + close@.len() <= cur@.len());
                p + close.len()
            },
            None => match find_char_from(&cur, '>', s) {
                Some(p) => {
                    assert(p < cur@.len());
                    p + 1
                },
                None => cur.len(),
            },
        };
        assert(e == element_end(cur@, s as int, tag@));
        assert(s < e);
        let next = cut_range(&cur, s, e);
        cur = next;
        removed = true;
    }
}

/// A position `find_ci` reports is an occurrence at or after `from`.
proof fn lemma_find_ci_found(hay: Seq<char>, needle: Seq<char>, from: int)
    requires
        find_ci(hay, needle, from) is Some,
    ensures
        from <= find_ci(hay, needle, from)->0,
        occurs_at_ci(hay, needle, find_ci(hay, needle, from)->0),
    decreases hay.len() - from,
{
    if !(from < 0 || from + needle.len() > hay.len()) && !occurs_at_ci(hay, needle, from) && from < hay.len() {
        lemma_find_ci_found(hay, needle, from + 1);
    }
}

/// When `find_ci` reports nothing, the needle occurs nowhere from `from` on.
proof fn lemma_find_ci_absent(hay: Seq<char>, needle: Seq<char>, from: int, i: int)
    requires
        0 <= from <= i,
        find_ci(hay, needle, from) is None,
    ensures
        !occurs_at_ci(hay, needle, i),
    decreases i - from,
{
    if from + needle.len() <= hay.len() && !occurs_at_ci(hay, needle, from) && from < hay.len() && from < i {
        lemma_find_ci_absent(hay, needle, from + 1, i);
    }
}

/// A position `find_char` reports is inside the text, at or after `from`.
proof fn lemma_find_char_found(hay: Seq<char>, c: char, from: int)
    requires
        find_char(hay, c, from) is Some,
    ensures
        from <= find_char(hay, c, from)->0 < hay.len(),
    decreases hay.len() - from,
{
    if !(from < 0 || from >= hay.len()) && hay[from] != c {
        lemma_find_char_found(hay, c, from + 1);
    }
}

/// Stripping an element removes every one of them: no `<tag`, in any ASCII
/// case, is left anywhere in the result, including one that a removal
/// brought together.
pub proof fn lemma_strip_element_leaves_no_opening(v: Seq<char>, tag: Seq<char>, i: int)
    ensures
        !occurs_at_ci(strip_element(v, tag).0, seq!['<'] + tag, i),
    decreases v.len(),
{
    let m = seq!['<'] + tag;
    assert(open_marker(tag) == m);
    match find_ci(v, m, 0) {
        None => {
            if i >= 0 {
                lemma_find_ci_absent(v, m, 0, i);
            }
        },
        Some(s) => {
            lemma_find_ci_found(v, m, 0);
            let e = element_end(v, s, tag);
            match find_ci(v, close_marker(tag), s) {
                Some(p) => {
                    lemma_find_ci_found(v, close_marker(tag), s);
                },
                None => match find_char(v, '>', s) {
                    Some(p) => {
                        lemma_find_char_found(v, '>', s);
                    },
                    None => {},
                },
            }
            assert(0 <= s < e <= v.len());
            lemma_strip_element_leaves_no_opening(cut(v, s, e), tag, i);
        },
    }
}

/// Stripping also reports whether anything was removed: exactly when the
/// text held a `<tag` in some ASCII case.
pub proof fn lemma_strip_element_reports_removal(v: Seq<char>, tag: Seq<char>)
    ensures
        strip_element(v, tag).1 <==> exists|i: int| occurs_at_ci(v, seq!['<'] + tag, i),
        !strip_element(v, tag).1 ==> strip_element(v, tag).0 == v,
{
    let m = seq!['<'] + tag;
    assert(open_marker(tag) == m);
    match find_ci(v, m, 0) {
        None => {
            assert forall|i: int| !occurs_at_ci(v, m, i) by {
                if i >= 0 {
                    lemma_find_ci_absent(v, m, 0, i);
                }
            }
        },
        Some(s) => {
            lemma_find_ci_found(v, m, 0);
            let e = element_end(v, s, tag);
            match find_ci(v, close_marker(tag), s) {
                Some(p) => {
                    lemma_find_ci_found(v, close_marker(tag), s);
                },
                None => match find_char(v, '>', s) {
                    Some(p) => {
                        lemma_find_char_found(v, '>', s);
                    },
                    None => {},
                },
            }
            assert(0 <= s < e <= v.len());
        },
    }
}

/// The last active element, `form`, never survives in what
/// `strip_active_content` hands on, and a text without any `<tag` of an
/// active element in any ASCII case is handed on unchanged.
pub proof fn lemma_strip_active_content(v: Seq<char>, i: int)
    ensures
        !occurs_at_ci(strip_active(v, 0).0, "<form"@, i),
        (forall|k: int, j: int| 0 <= k < 7 ==> !(#[trigger] occurs_at_ci(v, seq!['<'] + ACTIVE_TAGS@[k]@, j))) ==> strip_active(v, 0)
            == (v, false),
{
    reveal_strlit("<form");
    reveal_strlit("form");
    assert("<form"@ == seq!['<'] + "form"@);
    let w0 = strip_element(v, ACTIVE_TAGS@[0]@).0;
    let w1 = strip_element(w0, ACTIVE_TAGS@[1]@).0;
    let w2 = strip_element(w1, ACTIVE_TAGS@[2]@).0;
    let w3 = strip_element(w2, ACTIVE_TAGS@[3]@).0;
    let w4 = strip_element(w3, ACTIVE_TAGS@[4]@).0;
    let w5 = strip_element(w4, ACTIVE_TAGS@[5]@).0;
    assert(strip_active(v, 0).0 == strip_element(w5, ACTIVE_TAGS@[6]@).0) by {
        reveal_with_fuel(strip_active, 8);
    }
    assert(ACTIVE_TAGS@[6]@ == "form"@);
    lemma_strip_element_leaves_no_opening(w5, "form"@, i);
    if forall|k: int, j: int| 0 <= k < 7 ==> !(#[trigger] occurs_at_ci(v, seq!['<'] + ACTIVE_TAGS@[k]@, j)) {
        assert forall|k: int| 0 <= k < 7 implies strip_element(v, #[trigger] ACTIVE_TAGS@[k]@) == (v, false) by {
            lemma_strip_element_reports_removal(v, ACTIVE_TAGS@[k]@);
            let j = 0int;
            if strip_element(v, ACTIVE_TAGS@[k]@).1 {
                let j = choose|j: int| occurs_at_ci(v, seq!['<'] + ACTIVE_TAGS@[k]@, j);
                assert(!occurs_at_ci(v, seq!['<'] + ACTIVE_TAGS@[k]@, j));
            }
        }
        assert(strip_active(v, 0) == (v, false)) by {
            reveal_with_fuel(strip_active, 8);
            assert(strip_element(v, ACTIVE_TAGS@[0]@) == (v, false));
            assert(strip_element(v, ACTIVE_TAGS@[1]@) == (v, false));
            assert(strip_element(v, ACTIVE_TAGS@[2]@) == (v, false));
            assert(strip_element(v, ACTIVE_TAGS@[3]@) == (v, false));
            assert(strip_element(v, ACTIVE_TAGS@[4]@) == (v, false));
            assert(strip_element(v, ACTIVE_TAGS@[5]@) == (v, false));
            assert(strip_element(v, ACTIVE_TAGS@[6]@) == (v, false));
        }
    }
}

/// Active elements (`ACTIVE_TAGS`) removed with their content, and whether
/// anything was removed.
pub fn strip_active_content(source: &str) -> (r: (String, bool))
    ensures
        (r.0@, r.1) == strip_active(source@, 0),
{
    let mut cur = chars_of(source);
    let mut removed = false;
    let mut k: usize = 0;
    while k < 7
        invariant
            k <= 7,
            strip_active(source@, 0) == (strip_active(cur@, k as int).0, removed || strip_active(cur@, k as int).1),
        decreases 7 - k,
    {
        let tag = chars_of(ACTIVE_TAGS[k]);
        assert(tag@ == ACTIVE_TAGS@[k as int]@);
        let (next, any) = strip_element_exec(cur, &tag);
        cur = next;
        removed = removed || any;
        k += 1;
    }
    (string_of(&cur), removed)
}

/// Every `<tag ...>` removed (see `strip_void`).
pub fn strip_void_tag(source: &str, tag: &str) -> (r: String)
    ensures
        r@ == strip_void(source@, tag@),
{
    let t = chars_of(tag);
    let open = marker_open(&t);
    let mut cur = chars_of(source);
    loop
        invariant
            open@ == open_marker(tag@),
            t@ == tag@,
            strip_void(source@, tag@) == strip_void(cur@, tag@),
        decreases cur@.len(),
    {
        let s = match find_ci_from(&cur, &open, 0) {
            None => {
                return string_of(&cur);
            },
            Some(s) => s,
        };
        let e = match find_char_from(&cur, '>', s) {
            Some(p) => {
                assert(p < cur@.len());
                assert(cur@.len() <= usize::MAX);
                p + 1
            },
            None => cur.len(),
        };
        let next = cut_range(&cur, s, e);
        cur = next;
    }
}

/// ASCII white space (`char::is_ascii_whitespace`).
pub open spec fn is_ascii_space(c: char) -> bool {
    c == ' ' || c == '\t' || c == '\n' || c == '\r' || (c as u32) == 0x0C
}

/// A control character (`char::is_control`, general category Cc).
pub open spec fn is_control(c: char) -> bool {
    (c as u32) < 0x20 || (0x7F <= (c as u32) && (c as u32) <= 0x9F)
}

/// The characters the external-resource scan looks at.
pub open spec fn scan_kept(s: Seq<char>) -> Seq<char>
    decreases s.len(),
{
    if s.len() == 0 {
        Seq::empty()
    } else if is_ascii_space(s.last()) || is_control(s.last()) {
        scan_kept(s.drop_last())
    } else {
        scan_kept(s.drop_last()).push(s.last())
    }
}

/// The text the external-resource scan searches: white space and control
/// characters dropped, then lower-cased.
pub open spec fn scan_text(s: Seq<char>) -> Seq<char> {
    lowercase_all(scan_kept(s))
}

/// Index of the first of `FORBIDDEN_MARKERS[k..]` that occurs in `compact`.
pub open spec fn first_forbidden(compact: Seq<char>, k: int) -> Option<int>
    decreases 10 - k,
{
    if k < 0 || k >= 10 {
        None
    } else if contains(compact, FORBIDDEN_MARKERS@[k]@) {
        Some(k)
    } else {
        first_forbidden(compact, k + 1)
    }
}

/// The verdict on a renderer document.
pub open spec fn offline_verdict(s: Seq<char>) -> Result<(), OfflineHtmlError> {
    if utf8_len(s) > MAX_OFFLINE_HTML_BYTES {
        Err(OfflineHtmlError::TooLarge)
    } else {
        match first_forbidden(scan_text(s), 0) {
            Some(k) => Err(OfflineHtmlError::ExternalResource(k as usize)),
            None => Ok(()),
        }
    }
}

/// The text the external-resource scan searches (see `scan_text`).
pub fn scan_text_of(source: &str) -> (r: String)
    ensures
        r@ == scan_text(source@),
{
    let v = chars_of(source);
    let mut out: Vec<char> = Vec::new();
    let mut i: usize = 0;
    while i < v.len()
        invariant
            i <= v@.len(),
            v@ == source@,
            out@ == lowercase_all(scan_kept(v@.take(i as int))),
        decreases v.len() - i,
    {
        let c = v[i];
        let cv = c as u32;
        let dropped = c == ' ' || c == '\t' || c == '\n' || c == '\r' || cv == 0x0C || cv < 0x20 || (0x7F <= cv && cv <= 0x9F);
        let ghost before = scan_kept(v@.take(i as int));
        assert(v@.take(i + 1).drop_last() =~= v@.take(i as int));
        if !dropped {
            let low = lowercase_of(c);
            let mut j: usize = 0;
            while j < low.len()
                invariant
                    j <= low@.len(),
                    out@ == lowercase_all(before) + low@.take(j as int),
                decreases low.len() - j,
            {
                out.push(low[j]);
                assert(low@.take(j + 1) =~= low@.take(j as int).push(low@[j as int]));
                j += 1;
            }
            assert(low@.take(low@.len() as int) =~= low@);
            assert(before.push(c).drop_last() =~= before);
            assert(lowercase_all(before.push(c)) == lowercase_all(before) + char_lowercase(c));
        } else {
            assert(out@ =~= lowercase_all(before) + Seq::<char>::empty());
        }
        i += 1;
    }
    assert(v@.take(v@.len() as int) =~= v@);
    string_of(&out)
}

/// Index of the first forbidden marker that occurs in an already compacted text.
pub fn first_forbidden_marker(compact: &str) -> (r: Option<usize>)
    ensures
        match r {
            Some(k) => first_forbidden(compact@, 0) == Some(k as int),
            None => first_forbidden(compact@, 0) is None,
        },
{
    let hay = chars_of(compact);
    let mut k: usize = 0;
    while k < 10
        invariant
            k <= 10,
            hay@ == compact@,
            first_forbidden(compact@, 0) == first_forbidden(compact@, k as int),
        decreases 10 - k,
    {
        let m = chars_of(FORBIDDEN_MARKERS[k]);
        assert(m@ == FORBIDDEN_MARKERS@[k as int]@);
        if contains_text(&hay, &m) {
            return Some(k);
        }
        k += 1;
    }
    None
}

/// Refuses documents larger than 64 MiB and documents that, with white space
/// and control characters dropped and lower-cased, hold any of
/// `FORBIDDEN_MARKERS`; the first marker in that list decides the error.
pub fn validate_offline_html(source: &str) -> (r: Result<(), OfflineHtmlError>)
    ensures
        r == offline_verdict(source@),
{
    let v = chars_of(source);
    if utf8_len_exceeds(&v, MAX_OFFLINE_HTML_BYTES) {
        return Err(OfflineHtmlError::TooLarge);
    }
    let compact = scan_text_of(source);
    match first_forbidden_marker(compact.as_str()) {
        Some(k) => Err(OfflineHtmlError::ExternalResource(k)),
        None => Ok(()),
    }
}

/// Head of the capture page up to the first slide index.
pub const CAPTURE_HEAD_START: &'static str = r#"<meta http-equiv="Content-Security-Policy" content="default-src 'none'; img-src 'self' data:; media-src 'none'; font-src 'self' data:; style-src 'unsafe-inline'; script-src 'none'; connect-src 'none'; frame-src 'none'; object-src 'none'; base-uri 'none'; form-action 'none'">
<style>
html,body{margin:0!important;padding:0!important;overflow:hidden!important;background:#ffffff!important}
body>*:not(.main){display:none!important}
.main{display:block!important;margin:0!important;padding:0!important;overflow:hidden!important;width:100vw!important;height:100vh!important}
.main>.slide-container{display:none!important;margin:0!important;padding:0!important}
.main>.slide-container[data-slide=""#;

/// Head of the capture page between the first and second slide index.
pub const CAPTURE_HEAD_SHOWN: &'static str = r#""]{display:block!important;margin:0!important;padding:0!important}
.main>.slide-container[data-slide=""#;

/// Head of the capture page between the second and third slide index.
pub const CAPTURE_HEAD_WRAPPER: &'static str = r#""] .slide-wrapper{display:block!important;margin:0!important;padding:0!important}
.main>.slide-container[data-slide=""#;

/// Head of the capture page between the third slide index and the scale.
pub const CAPTURE_HEAD_SLIDE: &'static str = r#""] .slide{margin:0!important;box-shadow:none!important;border-radius:0!important;transform:scale("#;

/// Head of the capture page after the scale.
pub const CAPTURE_HEAD_END: &'static str = r#")!important;transform-origin:top left!important}
.slide-builder-unsupported{position:fixed;inset:auto 1rem 1rem 1rem;z-index:2147483647;padding:.5rem;background:#fff3cd;color:#5f4700;font:14px sans-serif}
</style>"#;

/// Notice placed in the body when active content was removed.
pub const UNSUPPORTED_BANNER: &'static str = "<div class=\"slide-builder-unsupported\">Unsupported dynamic content was removed for offline preview.</div>";

/// Why no capture page was built.
#[derive(Clone, Copy, Debug, PartialEq, Eq, Structural)]
pub enum CaptureHtmlError {
    /// Slide indices are one-based.
    ZeroSlide,
    /// The capture viewport has a zero dimension.
    EmptyViewport,
    /// The document, with active content removed, was refused.
    Offline(OfflineHtmlError),
}

/// A renderer document with active content, `<base>` and `<meta>` removed,
/// ready for the capture head.
#[derive(Clone, Debug)]
pub struct PreparedCapture {
    pub html: String,
    /// Whether active elements were removed, which the page then reports.
    pub dynamic_removed: bool,
}

/// The prepared document of `source`, or why it is refused.
pub open spec fn prepared_of(source: Seq<char>) -> Result<(Seq<char>, bool), OfflineHtmlError> {
    let a = strip_active(source, 0);
    match offline_verdict(a.0) {
        Err(e) => Err(e),
        Ok(()) => Ok((strip_void(strip_void(a.0, "base"@), "meta"@), a.1)),
    }
}

/// The style and policy head that shows slide `index` at `scale`.
pub open spec fn capture_head(index: nat, scale: Seq<char>) -> Seq<char> {
    CAPTURE_HEAD_START@ + decimal(index) + CAPTURE_HEAD_SHOWN@ + decimal(index) + CAPTURE_HEAD_WRAPPER@
        + decimal(index) + CAPTURE_HEAD_SLIDE@ + scale + CAPTURE_HEAD_END@
}

/// Position just after the `>` of the first `<body` tag.
pub open spec fn body_content_start(h: Seq<char>) -> Option<int> {
    match find_ci(h, "<body"@, 0) {
        None => None,
        Some(s) => match find_char(h, '>', s) {
            None => None,
            Some(p) => Some(p + 1),
        },
    }
}

/// `head` inserted before `</head>`, else as a head element before `<body`,
/// else around the whole document.
pub open spec fn with_head(h: Seq<char>, head: Seq<char>) -> Seq<char> {
    match find_ci(h, "</head>"@, 0) {
        Some(p) => h.take(p) + head + h.skip(p),
        None => match find_ci(h, "<body"@, 0) {
            Some(p) => h.take(p) + "<head>"@ + head + "</head>"@ + h.skip(p),
            None => "<!doctype html><head>"@ + head + "</head><body>"@ + h + "</body>"@,
        },
    }
}

/// The capture page: the head inserted, and the notice at the start of the
/// body (or at the end) when active content was removed.
pub open spec fn capture_page(h: Seq<char>, dynamic_removed: bool, index: nat, scale: Seq<char>) -> Seq<char> {
    let w = with_head(h, capture_head(index, scale));
    if dynamic_removed {
        match body_content_start(w) {
            Some(p) => w.take(p) + UNSUPPORTED_BANNER@ + w.skip(p),
            None => w + UNSUPPORTED_BANNER@,
        }
    } else {
        w
    }
}

/// Removes active content, refuses external resources, and removes `<base>`
/// and `<meta>` elements. Slide index 0 and an empty viewport are refused first.
pub fn prepare_capture_source(source: &str, slide_index: u32, width: u32, height: u32) -> (r: Result<PreparedCapture, CaptureHtmlError>)
    ensures
        slide_index == 0 ==> r == Err::<PreparedCapture, CaptureHtmlError>(CaptureHtmlError::ZeroSlide),
        slide_index != 0 && (width == 0 || height == 0) ==> r == Err::<PreparedCapture, CaptureHtmlError>(CaptureHtmlError::EmptyViewport),
        slide_index != 0 && width != 0 && height != 0 ==> match prepared_of(source@) {
            Err(e) => r == Err::<PreparedCapture, CaptureHtmlError>(CaptureHtmlError::Offline(e)),
            Ok(p) => (r matches Ok(c) && c.html@ == p.0 && c.dynamic_removed == p.1),
        },
{
    if slide_index == 0 {
        return Err(CaptureHtmlError::ZeroSlide);
    }
    if width == 0 || height == 0 {
        return Err(CaptureHtmlError::EmptyViewport);
    }
    let (html, removed) = strip_active_content(source);
    match validate_offline_html(html.as_str()) {
        Err(e) => {
            return Err(CaptureHtmlError::Offline(e));
        },
        Ok(()) => {},
    }
    let html = strip_void_tag(html.as_str(), "base");
    let html = strip_void_tag(html.as_str(), "meta");
    Ok(PreparedCapture { html, dynamic_removed: removed })
}

fn push_range(out: &mut Vec<char>, v: &[char], from: usize, to: usize)
    requires
        from <= to <= v@.len(),
    ensures
        final(out)@ == old(out)@ + v@.subrange(from as int, to as int),
{
    crate::text::extend_range(out, v, from, to);
}

/// Position just after the `>` of the first `<body` tag, if any.
pub fn find_body_content_start(html: &[char]) -> (r: Option<usize>)
    ensures
        match r {
            Some(p) => body_content_start(html@) == Some(p as int),
            None => body_content_start(html@) is None,
        },
        r matches Some(p) ==> p <= html@.len(),
{
    let body = chars_of("<body");
    let s = match find_ci_from(html, &body, 0) {
        None => {
            return None;
        },
        Some(s) => s,
    };
    match find_char_from(html, '>', s) {
        None => None,
        Some(p) => {
            assert(html@.len() == html.len());
            Some(p + 1)
        },
    }
}

/// The capture page of a prepared document for slide `slide_index`, with
/// `scale_css` the decimal scale that fits the slide into the viewport.
pub fn finish_capture_html(prepared: &PreparedCapture, slide_index: u32, scale_css: &str) -> (r: String)
    ensures
        r@ == capture_page(prepared.html@, prepared.dynamic_removed, slide_index as nat, scale_css@),
{
    let mut head: Vec<char> = Vec::new();
    extend_chars(&mut head, CAPTURE_HEAD_START);
    push_decimal(&mut head, slide_index as u64);
    extend_chars(&mut head, CAPTURE_HEAD_SHOWN);
    push_decimal(&mut head, slide_index as u64);
    extend_chars(&mut head, CAPTURE_HEAD_WRAPPER);
    push_decimal(&mut head, slide_index as u64);
    extend_chars(&mut head, CAPTURE_HEAD_SLIDE);
    extend_chars(&mut head, scale_css);
    extend_chars(&mut head, CAPTURE_HEAD_END);
    assert(head@ =~= capture_head(slide_index as nat, scale_css@));
    let h = chars_of(prepared.html.as_str());
    let end_head = chars_of("</head>");
    let body = chars_of("<body");
    let mut w: Vec<char> = Vec::new();
    match find_ci_from(&h, &end_head, 0) {
        Some(p) => {
            push_range(&mut w, &h, 0, p);
            push_range(&mut w, &head, 0, head.len());
            push_range(&mut w, &h, p, h.len());
            assert(head@.subrange(0, head@.len() as int) =~= head@);
            assert(w@ =~= h@.take(p as int) + head@ + h@.skip(p as int));
        },
        None => match find_ci_from(&h, &body, 0) {
            Some(p) => {
                push_range(&mut w, &h, 0, p);
                extend_chars(&mut w, "<head>");
                push_range(&mut w, &head, 0, head.len());
                extend_chars(&mut w, "</head>");
                push_range(&mut w, &h, p, h.len());
                assert(head@.subrange(0, head@.len() as int) =~= head@);
                assert(w@ =~= h@.take(p as int) + "<head>"@ + head@ + "</head>"@ + h@.skip(p as int));
            },
            None => {
                extend_chars(&mut w, "<!doctype html><head>");
                push_range(&mut w, &head, 0, head.len());
                extend_chars(&mut w, "</head><body>");
                push_range(&mut w, &h, 0, h.len());
                extend_chars(&mut w, "</body>");
                assert(head@.subrange(0, head@.len() as int) =~= head@);
                assert(h@.subrange(0, h@.len() as int) =~= h@);
                assert(w@ =~= "<!doctype html><head>"@ + head@ + "</head><body>"@ + h@ + "</body>"@);
            },
        },
    }
    assert(w@ == with_head(prepared.html@, capture_head(slide_index as nat, scale_css@)));
    if !prepared.dynamic_removed {
        return string_of(&w);
    }
    let mut out: Vec<char> = Vec::new();
    match find_body_content_start(&w) {
        Some(p) => {
            push_range(&mut out, &w, 0, p);
            extend_chars(&mut out, UNSUPPORTED_BANNER);
            push_range(&mut out, &w, p, w.len());
            assert(out@ =~= w@.take(p as int) + UNSUPPORTED_BANNER@ + w@.skip(p as int));
        },
        None => {
            push_range(&mut out, &w, 0, w.len());
            extend_chars(&mut out, UNSUPPORTED_BANNER);
            assert(w@.subrange(0, w@.len() as int) =~= w@);
        },
    }
    string_of(&out)
}

/// Unit of a slide design length.
#[derive(Clone, Copy, Debug, PartialEq, Eq, Structural)]
pub enum CssUnit {
    /// Points: 96/72 CSS pixels each.
    Pt,
    /// CSS pixels.
    Px,
}

/// `s` without leading `:` and white space.
pub open spec fn skip_colons_and_space(s: Seq<char>) -> Seq<char>
    decreases s.len(),
{
    if s.len() > 0 && (s[0] == ':' || is_whitespace(s[0])) {
        skip_colons_and_space(s.drop_first())
    } else {
        s
    }
}

/// A character of a CSS number as the handler writes it.
pub open spec fn is_number_char(c: char) -> bool {
    ('0' <= c && c <= '9') || c == '.'
}

/// Length of the leading run of number characters.
pub open spec fn number_prefix_len(s: Seq<char>) -> nat
    decreases s.len(),
{
    if s.len() > 0 && is_number_char(s[0]) {
        1 + number_prefix_len(s.drop_first())
    } else {
        0
    }
}

/// `pt` or `px`, ignoring ASCII case, at the start of `s`.
pub open spec fn unit_of(s: Seq<char>) -> Option<CssUnit> {
    if s.len() >= 2 && ascii_lower(s[0]) == 'p' && ascii_lower(s[1]) == 't' {
        Some(CssUnit::Pt)
    } else if s.len() >= 2 && ascii_lower(s[0]) == 'p' && ascii_lower(s[1]) == 'x' {
        Some(CssUnit::Px)
    } else {
        None
    }
}

/// The number text and unit written after the first occurrence of `name`:
/// `name`, then `:` and white space, then digits and dots, then optional white
/// space and `pt` or `px`.
pub open spec fn css_var_length_of(html: Seq<char>, name: Seq<char>) -> Option<(Seq<char>, CssUnit)> {
    match find_exact(html, name, 0) {
        None => None,
        Some(i) => {
            let after = skip_colons_and_space(html.skip(i + name.len()));
            let n = number_prefix_len(after);
            if n == 0 {
                None
            } else {
                match unit_of(trim_start(after.skip(n as int))) {
                    None => None,
                    Some(u) => Some((after.take(n as int), u)),
                }
            }
        },
    }
}

/// See `css_var_length_of`; the number text is returned as written.
pub fn css_var_length(html: &str, name: &str) -> (r: Option<(String, CssUnit)>)
    ensures
        match css_var_length_of(html@, name@) {
            None => r is None,
            Some(x) => (r matches Some(y) && y.0@ == x.0 && y.1 == x.1),
        },
{
    let h = chars_of(html);
    let nm = chars_of(name);
    let i = match find_exact_from(&h, &nm, 0) {
        None => {
            return None;
        },
        Some(i) => i,
    };
    let hl = h.len();
    let nl = nm.len();
    assert(i + nl <= hl);
    let mut a = i + nl;
    assert(h@.skip(i + nm@.len()) =~= h@.subrange(a as int, h@.len() as int));
    while a < h.len() && (h[a] == ':' || char_is_whitespace(h[a]))
        invariant
            i + nm@.len() <= a <= h@.len(),
            skip_colons_and_space(h@.skip(i + nm@.len())) == skip_colons_and_space(h@.skip(a as int)),
        decreases h.len() - a,
    {
        assert(h@.skip(a as int).drop_first() =~= h@.skip(a + 1));
        a += 1;
    }
    let ghost after = h@.skip(a as int);
    assert(skip_colons_and_space(after) == after);
    let mut b = a;
    while b < h.len() && (('0' <= h[b] && h[b] <= '9') || h[b] == '.')
        invariant
            a <= b <= h@.len(),
            after == h@.skip(a as int),
            number_prefix_len(after) == (b - a) + number_prefix_len(h@.skip(b as int)),
        decreases h.len() - b,
    {
        assert(h@.skip(b as int).drop_first() =~= h@.skip(b + 1));
        b += 1;
    }
    assert(number_prefix_len(h@.skip(b as int)) == 0);
    if b == a {
        return None;
    }
    let mut c = b;
    while c < h.len() && char_is_whitespace(h[c])
        invariant
            b <= c <= h@.len(),
            forall|k: int| b <= k < c ==> is_whitespace(#[trigger] h@[k]),
        decreases h.len() - c,
    {
        c += 1;
    }
    proof {
        let t = h@.skip(b as int);
        assert(after.skip(b - a) =~= t);
        assert forall|k: int| 0 <= k < c - b implies is_whitespace(#[trigger] t[k]) by {
            assert(t[k] == h@[b + k]);
        }
        crate::text::lemma_trim_start_skip(t, c - b);
        assert(t.skip(c - b) =~= h@.skip(c as int));
    }
    let unit = if h.len() - c >= 2 && to_ascii_lower(h[c]) == 'p' && to_ascii_lower(h[c + 1]) == 't' {
        CssUnit::Pt
    } else if h.len() - c >= 2 && to_ascii_lower(h[c]) == 'p' && to_ascii_lower(h[c + 1]) == 'x' {
        CssUnit::Px
    } else {
        return None;
    };
    assert(after.take(b - a) =~= h@.subrange(a as int, b as int));
    Some((string_of_range(&h, a, b), unit))
}

} // verus!
