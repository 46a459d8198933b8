//! The `/export` command: its arguments, the default destination, and the
//! pixels of each PDF page.
use crate::path::{extension, extension_of, with_extension, with_extension_of};
use crate::text::{
    char_is_whitespace, chars_of, eq_ignore_ascii_case, extend_chars, is_whitespace, matches_at_ci,
    string_of, string_of_range, trim, trim_bounds,
};
use vstd::prelude::*;

verus! {

broadcast use vstd::string::group_string_axioms;

/// How to use the command.
pub const USAGE: &'static str = "Usage: /export pdf [destination.pdf]. Defaults beside the active PowerPoint file. Existing files are never overwritten.";

/// The outcome of an export.
#[derive(Clone, Debug, PartialEq, Eq)]
pub struct ExportReport {
    pub path: String,
    /// Set when the 300 dpi target had to be reduced to fit the renderer.
    pub resolution_notice: Option<String>,
}

/// Why `/export` arguments were refused.
#[derive(Clone, Debug, PartialEq, Eq)]
pub enum ExportArgumentError {
    /// No format was given.
    Usage,
    /// A format other than `pdf` was given.
    UnsupportedFormat(String),
    /// The destination does not end in `.pdf`.
    NotPdf,
}

/// The kinds of argument errors.
#[derive(Clone, Copy, Debug, PartialEq, Eq, Structural)]
pub enum ArgumentFault {
    Usage,
    UnsupportedFormat,
    NotPdf,
}

/// The message shown for an error.
pub open spec fn error_message(e: ExportArgumentError) -> Seq<char> {
    match e {
        ExportArgumentError::Usage => USAGE@,
        ExportArgumentError::UnsupportedFormat(f) => "Unsupported export format '"@ + f@ + "'. "@ + USAGE@,
        ExportArgumentError::NotPdf => "The export destination must end in .pdf. "@ + USAGE@,
    }
}

impl ExportArgumentError {
    /// The message shown to the user.
    pub fn message(&self) -> (r: String)
        ensures
            r@ == error_message(*self),
    {
        let mut out: Vec<char> = Vec::new();
        match self {
            ExportArgumentError::Usage => {},
            ExportArgumentError::UnsupportedFormat(f) => {
                extend_chars(&mut out, "Unsupported export format '");
                extend_chars(&mut out, f.as_str());
                extend_chars(&mut out, "'. ");
            },
            ExportArgumentError::NotPdf => {
                extend_chars(&mut out, "The export destination must end in .pdf. ");
            },
        }
        extend_chars(&mut out, USAGE);
        string_of(&out)
    }
}

/// Position of the first white-space character.
pub open spec fn first_space(s: Seq<char>, k: int) -> Option<int>
    decreases s.len() - k,
{
    if k < 0 || k >= s.len() {
        None
    } else if is_whitespace(s[k]) {
        Some(k)
    } else {
        first_space(s, k + 1)
    }
}

/// The format and the rest of `/export` arguments: split at the first white
/// space of the trimmed arguments, which is dropped.
pub open spec fn split_arguments(a: Seq<char>) -> (Seq<char>, Seq<char>) {
    let t = trim(a);
    match first_space(t, 0) {
        Some(i) => (t.take(i), t.skip(i + 1)),
        None => (t, Seq::empty()),
    }
}

/// The verdict on `/export` arguments: the destination text, if one was
/// given, or the error.
pub open spec fn export_arguments(a: Seq<char>) -> Result<Option<Seq<char>>, ArgumentFault> {
    let (format, rest) = split_arguments(a);
    let dest = trim(rest);
    if format.len() == 0 {
        Err(ArgumentFault::Usage)
    } else if !eq_ignore_ascii_case(format, "pdf"@) {
        Err(ArgumentFault::UnsupportedFormat)
    } else if dest.len() == 0 {
        Ok(None)
    } else {
        match extension(dest) {
            Some(e) if eq_ignore_ascii_case(e, "pdf"@) => Ok(Some(dest)),
            _ => Err(ArgumentFault::NotPdf),
        }
    }
}

fn eq_ci(a: &[char], b: &str) -> (r: bool)
    ensures
        r == eq_ignore_ascii_case(a@, b@),
{
    let bv = chars_of(b);
    if a.len() != bv.len() {
        return false;
    }
    let r = matches_at_ci(a, &bv, 0);
    assert(a@.subrange(0, bv@.len() as int) =~= a@);
    r
}

/// Parses `/export` arguments: the format `pdf` in any ASCII case, then
/// optionally a destination ending in `.pdf`; the destination is the whole
/// remainder, so it may contain spaces.
pub fn parse_arguments(arguments: &str) -> (r: Result<Option<String>, ExportArgumentError>)
    ensures
        match r {
            Ok(None) => export_arguments(arguments@) == Ok::<Option<Seq<char>>, ArgumentFault>(None),
            Ok(Some(d)) => export_arguments(arguments@) == Ok::<Option<Seq<char>>, ArgumentFault>(Some(d@)),
            Err(ExportArgumentError::Usage) => export_arguments(arguments@) == Err::<Option<Seq<char>>, ArgumentFault>(ArgumentFault::Usage),
            Err(ExportArgumentError::UnsupportedFormat(f)) => {
                &&& export_arguments(arguments@) == Err::<Option<Seq<char>>, ArgumentFault>(ArgumentFault::UnsupportedFormat)
                &&& f@ == split_arguments(arguments@).0
            },
            Err(ExportArgumentError::NotPdf) => export_arguments(arguments@) == Err::<Option<Seq<char>>, ArgumentFault>(ArgumentFault::NotPdf),
        },
{
    let v = chars_of(arguments);
    let (a, b) = trim_bounds(&v, 0, v.len());
    assert(v@.subrange(0, v@.len() as int) =~= v@);
    let ghost t = v@.subrange(a as int, b as int);
    let mut i = a;
    while i < b && !char_is_whitespace(v[i])
        invariant
            a <= i <= b <= v@.len(),
            t == v@.subrange(a as int, b as int),
            first_space(t, 0) == first_space(t, i - a),
        decreases b - i,
    {
        i += 1;
    }
    let (fe, rs, re) = if i < b {
        (i, i + 1, b)
    } else {
        (b, b, b)
    };
    proof {
        if i < b {
            assert(t.take(i - a) =~= v@.subrange(a as int, i as int));
            assert(t.skip(i - a + 1) =~= v@.subrange(i + 1, b as int));
        } else {
            assert(t =~= v@.subrange(a as int, b as int));
            assert(v@.subrange(b as int, b as int) =~= Seq::<char>::empty());
        }
    }
    if fe == a {
        return Err(ExportArgumentError::Usage);
    }
    let format = crate::text::copy_range(&v, a, fe);
    if !eq_ci(&format, "pdf") {
        return Err(ExportArgumentError::UnsupportedFormat(string_of(&format)));
    }
    let (c, d) = trim_bounds(&v, rs, re);
    if c == d {
        return Ok(None);
    }
    let dest = string_of_range(&v, c, d);
    match extension_of(dest.as_str()) {
        Some(e) => {
            let ev = chars_of(e.as_str());
            if eq_ci(&ev, "pdf") {
                Ok(Some(dest))
            } else {
                Err(ExportArgumentError::NotPdf)
            }
        },
        None => Err(ExportArgumentError::NotPdf),
    }
}

/// The requested destination, else the deck path with the extension `pdf`.
pub fn destination(deck: &str, requested: Option<String>) -> (r: String)
    ensures
        match requested {
            Some(p) => r == p,
            None => r@ == with_extension(deck@, "pdf"@),
        },
{
    match requested {
        Some(p) => p,
        None => with_extension_of(deck, "pdf"),
    }
}

/// One channel of a pixel with alpha `a` composited onto white, rounded.
pub open spec fn over_white(c: u8, a: u8) -> int {
    (c * a + 255 * (255 - a) + 127) / 255
}

/// The RGB bytes of an RGBA buffer flattened onto a white background, as
/// each PDF page image is stored.
pub open spec fn flattened(rgba: Seq<u8>, rgb: Seq<u8>) -> bool {
    &&& rgb.len() * 4 == rgba.len() * 3
    &&& forall|p: int, c: int|
        0 <= p < rgba.len() / 4 && 0 <= c < 3 ==> #[trigger] rgb[3 * p + c] == over_white(rgba[4 * p + c], rgba[4 * p + 3])
}

/// See `flattened`.
pub fn flatten_onto_white(rgba: &Vec<u8>) -> (rgb: Vec<u8>)
    requires
        rgba.len() % 4 == 0,
    ensures
        flattened(rgba@, rgb@),
{
    let mut rgb: Vec<u8> = Vec::new();
    let mut p: usize = 0;
    let len = rgba.len();
    let n = len / 4;
    while p < n
        invariant
            len == rgba@.len(),
            n == rgba@.len() / 4,
            rgba@.len() % 4 == 0,
            p <= n,
            rgb@.len() == 3 * p,
            forall|q: int, c: int| 0 <= q < p && 0 <= c < 3 ==> #[trigger] rgb@[3 * q + c] == over_white(rgba@[4 * q + c], rgba@[4 * q + 3]),
        decreases n - p,
    {
        assert(4 * p + 3 < len) by (nonlinear_arith)
            requires
                p < n,
                n == len / 4,
        ;
        let at = 4 * p;
        let a = rgba[at + 3] as u32;
        let mut c: usize = 0;
        while c < 3
            invariant
                n == rgba@.len() / 4,
                rgba@.len() % 4 == 0,
                p < n,
                4 * p + 3 < rgba@.len(),
                at == 4 * p,
                a == rgba@[4 * p + 3],
                c <= 3,
                rgb@.len() == 3 * p + c,
                forall|q: int, d: int| 0 <= q < p && 0 <= d < 3 ==> #[trigger] rgb@[3 * q + d] == over_white(rgba@[4 * q + d], rgba@[4 * q + 3]),
                forall|d: int| 0 <= d < c ==> #[trigger] rgb@[3 * p + d] == over_white(rgba@[4 * p + d], rgba@[4 * p + 3]),
            decreases 3 - c,
        {
            let v = rgba[at + c] as u32;
            assert(v * a <= 255 * 255) by (nonlinear_arith)
                requires
                    v <= 255,
                    a <= 255,
            ;
            let w = (v * a + 255 * (255 - a) + 127) / 255;
            assert(w <= 255) by (nonlinear_arith)
                requires
                    w == (v * a + 255 * (255 - a) + 127) / 255,
                    v <= 255,
                    a <= 255,
            ;
            rgb.push(w as u8);
            c += 1;
        }
        p += 1;
    }
    proof {
        assert(rgb@.len() * 4 == rgba@.len() * 3);
    }
    rgb
}

} // verus!
