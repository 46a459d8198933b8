//! Design packages: a `DESIGN.md` with PowerPoint templates and supporting
//! files, and the order in which configured and scanned packages are offered.
use crate::path::{extension, extension_of, file_name, file_name_of, join, join_path};
use crate::text::{
    text_lt, text_lt_exec, ascii_lower, chars_of, eq_chars, eq_ignore_ascii_case, lines, str_lowercase, str_to_lowercase,
    matches_at_ci, split_lines, string_of, to_ascii_lower, trim, trim_bounds, copy_range,
};
use vstd::prelude::*;

verus! {

broadcast use vstd::string::group_string_axioms;

/// A PowerPoint template inside a design package.
#[derive(Clone, Debug, PartialEq, Eq)]
pub struct DeckTemplate {
    pub path: String,
    pub relative_path: String,
    pub size_bytes: u64,
}

/// A design package: display name, directory, guidelines, supporting files
/// and templates (preferred template first).
#[derive(Clone, Debug, PartialEq, Eq)]
pub struct DesignPackage {
    pub name: String,
    pub path: String,
    pub guidelines: String,
    pub supplementary_files: Vec<String>,
    pub templates: Vec<DeckTemplate>,
}

/// Why a design package could not be assembled.
#[derive(Clone, Copy, Debug, PartialEq, Eq, Structural)]
pub enum DesignError {
    /// No configured name and no H1 heading in `DESIGN.md`.
    MissingDisplayName,
}

/// The title of a line `# title`, trimmed, when not blank.
pub open spec fn h1_value(l: Seq<char>) -> Option<Seq<char>> {
    if l.len() >= 2 && l[0] == '#' && l[1] == ' ' && trim(l.skip(2)).len() > 0 {
        Some(trim(l.skip(2)))
    } else {
        None
    }
}

/// The first H1 title among lines `k..`.
pub open spec fn first_h1_from(ls: Seq<Seq<char>>, k: int) -> Option<Seq<char>>
    decreases ls.len() - k,
{
    if k < 0 || k >= ls.len() {
        None
    } else {
        match h1_value(ls[k]) {
            Some(v) => Some(v),
            None => first_h1_from(ls, k + 1),
        }
    }
}

/// The first H1 title of a Markdown document.
pub open spec fn first_h1_of(md: Seq<char>) -> Option<Seq<char>> {
    first_h1_from(lines(md), 0)
}

/// The first line `# title` with a non-blank title, trimmed.
pub fn first_h1(markdown: &str) -> (r: Option<String>)
    ensures
        match r {
            Some(t) => first_h1_of(markdown@) == Some(t@),
            None => first_h1_of(markdown@) is None,
        },
{
    let ls = split_lines(markdown);
    let mut k: usize = 0;
    while k < ls.len()
        invariant
            k <= ls@.len(),
            ls@.len() == lines(markdown@).len(),
            forall|q: int| 0 <= q < ls@.len() ==> (#[trigger] ls@[q])@ == lines(markdown@)[q],
            first_h1_of(markdown@) == first_h1_from(lines(markdown@), k as int),
        decreases ls.len() - k,
    {
        let l = &ls[k];
        assert(l@ == lines(markdown@)[k as int]);
        if l.len() >= 2 && l[0] == '#' && l[1] == ' ' {
            let (a, b) = trim_bounds(l, 2, l.len());
            assert(l@.subrange(2, l@.len() as int) =~= l@.skip(2));
            if a < b {
                return Some(crate::text::string_of_range(l, a, b));
            }
        }
        k += 1;
    }
    None
}

/// A path whose extension is `pptx` in any ASCII case.
pub open spec fn is_pptx_path(p: Seq<char>) -> bool {
    match extension(p) {
        Some(e) => eq_ignore_ascii_case(e, "pptx"@),
        None => false,
    }
}

fn eq_ignore_case_str(a: &str, b: &str) -> (r: bool)
    ensures
        r == eq_ignore_ascii_case(a@, b@),
{
    let av = chars_of(a);
    let bv = chars_of(b);
    if av.len() != bv.len() {
        return false;
    }
    let r = matches_at_ci(&av, &bv, 0);
    assert(av@.subrange(0, bv@.len() as int) =~= av@);
    r
}

/// Whether a path names a PowerPoint file.
pub fn is_pptx(path: &str) -> (r: bool)
    ensures
        r == is_pptx_path(path@),
{
    match extension_of(path) {
        Some(e) => eq_ignore_case_str(e.as_str(), "pptx"),
        None => false,
    }
}

/// A template named `template.pptx` in any ASCII case is offered first.
pub open spec fn is_preferred_template(relative: Seq<char>) -> bool {
    match file_name(relative) {
        Some(n) => eq_ignore_ascii_case(n, "template.pptx"@),
        None => false,
    }
}

/// A template as plain values: absolute path, relative path, size.
pub open spec fn template_view(t: DeckTemplate) -> (Seq<char>, Seq<char>, u64) {
    (t.path@, t.relative_path@, t.size_bytes)
}

/// The texts of a sequence of strings.
pub open spec fn texts(s: Seq<String>) -> Seq<Seq<char>> {
    s.map_values(|x: String| x@)
}

/// The plain values of a sequence of templates.
pub open spec fn views(s: Seq<DeckTemplate>) -> Seq<(Seq<char>, Seq<char>, u64)> {
    s.map_values(|t: DeckTemplate| template_view(t))
}

/// Sort key of a template's relative path: not preferred, then the path lower-cased.
pub open spec fn key_of(relative: Seq<char>) -> (bool, Seq<char>) {
    (!is_preferred_template(relative), str_to_lowercase(relative))
}

/// Strict order of sort keys: `false` before `true`, then the text.
pub open spec fn key_lt(a: (bool, Seq<char>), b: (bool, Seq<char>)) -> bool {
    (!a.0 && b.0) || (a.0 == b.0 && text_lt(a.1, b.1))
}

/// `t` inserted into `s` before the first element with a greater key.
pub open spec fn insert_by_key(s: Seq<(Seq<char>, Seq<char>, u64)>, t: (Seq<char>, Seq<char>, u64)) -> Seq<(Seq<char>, Seq<char>, u64)>
    decreases s.len(),
{
    if s.len() == 0 {
        seq![t]
    } else if key_lt(key_of(t.1), key_of(s[0].1)) {
        seq![t] + s
    } else {
        seq![s[0]] + insert_by_key(s.drop_first(), t)
    }
}

/// Templates stably sorted by `key_of` their relative path.
pub open spec fn sorted_templates(s: Seq<(Seq<char>, Seq<char>, u64)>) -> Seq<(Seq<char>, Seq<char>, u64)>
    decreases s.len(),
{
    if s.len() == 0 {
        Seq::empty()
    } else {
        insert_by_key(sorted_templates(s.drop_last()), s.last())
    }
}

/// The sort key of a template.
pub fn template_sort_key(t: &DeckTemplate) -> (k: (bool, String))
    ensures
        k.0 == key_of(t.relative_path@).0,
        k.1@ == key_of(t.relative_path@).1,
{
    let preferred = match file_name_of(t.relative_path.as_str()) {
        Some(n) => eq_ignore_case_str(n.as_str(), "template.pptx"),
        None => false,
    };
    (!preferred, str_lowercase(t.relative_path.as_str()))
}

fn key_lt_exec(a: &(bool, String), b: &(bool, String)) -> (r: bool)
    ensures
        r == key_lt((a.0, a.1@), (b.0, b.1@)),
{
    if !a.0 && b.0 {
        return true;
    }
    if a.0 != b.0 {
        return false;
    }
    let av = chars_of(a.1.as_str());
    let bv = chars_of(b.1.as_str());
    text_lt_exec(&av, &bv)
}

proof fn lemma_insert_by_key_at(s: Seq<(Seq<char>, Seq<char>, u64)>, t: (Seq<char>, Seq<char>, u64), j: int)
    requires
        0 <= j <= s.len(),
        forall|q: int| 0 <= q < j ==> !key_lt(key_of(t.1), key_of(#[trigger] s[q].1)),
        j == s.len() || key_lt(key_of(t.1), key_of(s[j].1)),
    ensures
        insert_by_key(s, t) == s.take(j) + seq![t] + s.skip(j),
    decreases j,
{
    if j == 0 {
        if s.len() == 0 {
            assert(s.take(0) + seq![t] + s.skip(0) =~= seq![t]);
        } else {
            assert(s.take(0) + seq![t] + s.skip(0) =~= seq![t] + s);
        }
    } else {
        assert(!key_lt(key_of(t.1), key_of(s[0].1)));
        lemma_insert_by_key_at(s.drop_first(), t, j - 1);
        assert(seq![s[0]] + (s.drop_first().take(j - 1) + seq![t] + s.drop_first().skip(j - 1)) =~= s.take(j) + seq![t] + s.skip(j));
    }
}

/// The file name of a relative path is `template.pptx` in some ASCII case.
spec fn named_template_pptx(relative: Seq<char>) -> bool {
    match file_name(relative) {
        Some(n) => eq_ignore_ascii_case(n, "template.pptx"@),
        None => false,
    }
}

/// No template named `template.pptx` stands after one that is not.
spec fn named_first(s: Seq<(Seq<char>, Seq<char>, u64)>) -> bool {
    forall|i: int, j: int|
        0 <= i < j < s.len() && named_template_pptx(#[trigger] s[j].1) ==> named_template_pptx(#[trigger] s[i].1)
}

/// Inserting keeps the named templates first, and adds only `t`.
proof fn lemma_insert_keeps_named_first(s: Seq<(Seq<char>, Seq<char>, u64)>, t: (Seq<char>, Seq<char>, u64))
    requires
        named_first(s),
    ensures
        named_first(insert_by_key(s, t)),
        forall|k: int| 0 <= k < insert_by_key(s, t).len() ==> #[trigger] insert_by_key(s, t)[k] == t || s.contains(insert_by_key(s, t)[k]),
    decreases s.len(),
{
    let r = insert_by_key(s, t);
    if s.len() == 0 {
    } else if key_lt(key_of(t.1), key_of(s[0].1)) {
        assert(r == seq![t] + s);
        if !named_template_pptx(t.1) {
            assert(!named_template_pptx(s[0].1));
            assert forall|j: int| 0 <= j < s.len() implies !named_template_pptx(#[trigger] s[j].1) by {
                if j > 0 && named_template_pptx(s[j].1) {
                    assert(named_template_pptx(s[0].1));
                }
            }
        }
        assert forall|k: int| 0 <= k < r.len() implies #[trigger] r[k] == t || s.contains(r[k]) by {
            if k > 0 {
                assert(r[k] == s[k - 1]);
            }
        }
    } else {
        let rest = s.drop_first();
        assert forall|i: int, j: int| 0 <= i < j < rest.len() && named_template_pptx(#[trigger] rest[j].1) implies named_template_pptx(#[trigger] rest[i].1) by {
            assert(rest[j] == s[j + 1]);
            assert(rest[i] == s[i + 1]);
        }
        lemma_insert_keeps_named_first(rest, t);
        let q = insert_by_key(rest, t);
        assert(r == seq![s[0]] + q);
        assert forall|j: int| 0 <= j < q.len() && named_template_pptx(#[trigger] q[j].1) implies named_template_pptx(s[0].1) by {
            if q[j] == t {
                assert(!key_lt(key_of(t.1), key_of(s[0].1)));
            } else {
                assert(rest.contains(q[j]));
                let m = choose|m: int| 0 <= m < rest.len() && rest[m] == q[j];
                assert(s[m + 1] == q[j]);
            }
        }
        assert forall|i: int, j: int| 0 <= i < j < r.len() && named_template_pptx(#[trigger] r[j].1) implies named_template_pptx(#[trigger] r[i].1) by {
            assert(r[j] == q[j - 1]);
            if i > 0 {
                assert(r[i] == q[i - 1]);
            }
        }
        assert forall|k: int| 0 <= k < r.len() implies #[trigger] r[k] == t || s.contains(r[k]) by {
            if k > 0 {
                assert(r[k] == q[k - 1]);
                if q[k - 1] != t {
                    assert(rest.contains(q[k - 1]));
                    let m = choose|m: int| 0 <= m < rest.len() && rest[m] == q[k - 1];
                    assert(s[m + 1] == q[k - 1]);
                }
            } else {
                assert(s[0] == r[0]);
            }
        }
    }
}

/// In the sorted templates, every template whose file name is
/// `template.pptx` (in any ASCII case) comes before every template whose
/// file name is not, so the preferred template is offered first.
pub proof fn lemma_named_template_comes_first(s: Seq<(Seq<char>, Seq<char>, u64)>, i: int, j: int)
    requires
        0 <= i < j < sorted_templates(s).len(),
        match file_name(sorted_templates(s)[j].1) {
            Some(n) => eq_ignore_ascii_case(n, "template.pptx"@),
            None => false,
        },
    ensures
        match file_name(sorted_templates(s)[i].1) {
            Some(n) => eq_ignore_ascii_case(n, "template.pptx"@),
            None => false,
        },
{
    lemma_sorted_named_first(s);
}

proof fn lemma_sorted_named_first(s: Seq<(Seq<char>, Seq<char>, u64)>)
    ensures
        named_first(sorted_templates(s)),
    decreases s.len(),
{
    if s.len() > 0 {
        lemma_sorted_named_first(s.drop_last());
        lemma_insert_keeps_named_first(sorted_templates(s.drop_last()), s.last());
    }
}

/// Templates stably sorted so the preferred `template.pptx` comes first and
/// the rest follow by lower-cased relative path.
pub fn sort_templates(templates: Vec<DeckTemplate>) -> (r: Vec<DeckTemplate>)
    ensures
        views(r@) == sorted_templates(views(templates@)),
{
    let mut input = templates;
    let ghost orig = views(input@);
    let mut out: Vec<DeckTemplate> = Vec::new();
    let mut keys: Vec<(bool, String)> = Vec::new();
    let mut i: usize = 0;
    let n = input.len();
    assert(orig.len() == n);
    while input.len() > 0
        invariant
            i + input@.len() == orig.len(),
            orig.len() <= usize::MAX,
            views(input@) == orig.skip(i as int),
            views(out@) == sorted_templates(orig.take(i as int)),
            keys@.len() == out@.len(),
            forall|q: int| 0 <= q < keys@.len() ==> (#[trigger] keys@[q]).0 == key_of(out@[q].relative_path@).0 && keys@[q].1@ == key_of(out@[q].relative_path@).1,
        decreases input.len(),
    {
        let ghost before_in = input@;
        let t = input.remove(0);
        assert(template_view(t) == orig[i as int]) by {
            assert(views(before_in)[0] == orig.skip(i as int)[0]);
        }
        assert(views(input@) =~= orig.skip(i + 1)) by {
            assert(views(before_in) == orig.skip(i as int));
            assert forall|q: int| 0 <= q < input@.len() implies #[trigger] views(input@)[q] == orig.skip(i + 1)[q] by {
                assert(input@[q] == before_in[q + 1]);
                assert(views(before_in)[q + 1] == orig.skip(i as int)[q + 1]);
            }
        }
        let k = template_sort_key(&t);
        let ghost ov = views(out@);
        let mut j: usize = 0;
        while j < out.len() && !key_lt_exec(&k, &keys[j])
            invariant
                j <= out@.len(),
                keys@.len() == out@.len(),
                ov == views(out@),
                forall|q: int| 0 <= q < keys@.len() ==> (#[trigger] keys@[q]).0 == key_of(out@[q].relative_path@).0 && keys@[q].1@ == key_of(out@[q].relative_path@).1,
                k.0 == key_of(t.relative_path@).0,
                k.1@ == key_of(t.relative_path@).1,
                forall|q: int| 0 <= q < j ==> !key_lt(key_of(t.relative_path@), key_of(#[trigger] ov[q].1)),
            decreases out.len() - j,
        {
            assert(ov[j as int].1 == out@[j as int].relative_path@);
            j += 1;
        }
        proof {
            if j < out@.len() {
                assert(ov[j as int].1 == out@[j as int].relative_path@);
            }
            lemma_insert_by_key_at(ov, template_view(t), j as int);
            assert(orig.take(i + 1).drop_last() =~= orig.take(i as int));
            assert(orig.take(i + 1).last() == template_view(t));
        }
        let ghost old_out = out@;
        let ghost old_keys = keys@;
        out.insert(j, t);
        keys.insert(j, k);
        assert(views(out@) =~= ov.take(j as int) + seq![template_view(t)] + ov.skip(j as int)) by {
            assert forall|q: int| 0 <= q < out@.len() implies #[trigger] views(out@)[q] == (ov.take(j as int) + seq![template_view(t)] + ov.skip(j as int))[q] by {
                if q < j {
                    assert(out@[q] == old_out[q]);
                } else if q > j {
                    assert(out@[q] == old_out[q - 1]);
                }
            }
        }
        assert forall|q: int| 0 <= q < keys@.len() implies (#[trigger] keys@[q]).0 == key_of(out@[q].relative_path@).0 && keys@[q].1@ == key_of(out@[q].relative_path@).1 by {
            if q < j {
                assert(keys@[q] == old_keys[q] && out@[q] == old_out[q]);
            } else if q > j {
                assert(keys@[q] == old_keys[q - 1] && out@[q] == old_out[q - 1]);
            }
        }
        i += 1;
    }
    assert(orig.take(i as int) =~= orig);
    out
}

/// A file of a package directory: its path relative to the package, and size.
#[derive(Clone, Debug)]
pub struct PackageFile {
    pub relative_path: String,
    pub size_bytes: u64,
}

/// The display name: a configured name that is not blank, else the H1 of the guidelines.
pub open spec fn display_name_of(configured: Option<Seq<char>>, guidelines: Seq<char>) -> Option<Seq<char>> {
    match configured {
        Some(n) if trim(n).len() > 0 => Some(n),
        _ => first_h1_of(guidelines),
    }
}

/// The files other than `DESIGN.md`, in order, that are templates or not.
pub open spec fn files_where(files: Seq<PackageFile>, template: bool) -> Seq<PackageFile>
    decreases files.len(),
{
    if files.len() == 0 {
        Seq::empty()
    } else {
        let rest = files_where(files.drop_last(), template);
        let f = files.last();
        if f.relative_path@ != "DESIGN.md"@ && is_pptx_path(f.relative_path@) == template {
            rest.push(f)
        } else {
            rest
        }
    }
}

/// A template file as plain values: absolute path under `root`, relative path, size.
pub open spec fn file_template(root: Seq<char>, f: PackageFile) -> (Seq<char>, Seq<char>, u64) {
    (join(root, f.relative_path@), f.relative_path@, f.size_bytes)
}

/// The supplementary files: files other than `DESIGN.md` that are not templates.
pub open spec fn supplementary_of(files: Seq<PackageFile>) -> Seq<Seq<char>> {
    files_where(files, false).map_values(|f: PackageFile| f.relative_path@)
}

/// The templates of a package rooted at `root`, sorted.
pub open spec fn package_templates(root: Seq<char>, files: Seq<PackageFile>) -> Seq<(Seq<char>, Seq<char>, u64)> {
    sorted_templates(files_where(files, true).map_values(|f: PackageFile| file_template(root, f)))
}

impl DesignPackage {
    /// A package at `path` from its `DESIGN.md` text and its files in walk
    /// order (relative paths, sorted). The name is the configured one when not
    /// blank, else the guidelines' H1; `DESIGN.md` itself is neither a
    /// template nor a supplementary file.
    pub fn assemble(
        path: &str,
        configured_name: Option<&str>,
        guidelines: &str,
        files: &Vec<PackageFile>,
    ) -> (r: Result<DesignPackage, DesignError>)
        ensures
            match r {
                Ok(p) => {
                    &&& display_name_of(
                        match configured_name {
                            Some(n) => Some(n@),
                            None => None::<Seq<char>>,
                        },
                        guidelines@,
                    ) == Some(p.name@)
                    &&& p.path@ == path@
                    &&& p.guidelines@ == guidelines@
                    &&& texts(p.supplementary_files@) == supplementary_of(files@)
                    &&& views(p.templates@) == package_templates(path@, files@)
                },
                Err(e) => {
                    &&& e == DesignError::MissingDisplayName
                    &&& display_name_of(
                        match configured_name {
                            Some(n) => Some(n@),
                            None => None::<Seq<char>>,
                        },
                        guidelines@,
                    ) is None
                },
            },
    {
        let configured = match configured_name {
            Some(n) => {
                let v = chars_of(n);
                let (a, b) = trim_bounds(&v, 0, v.len());
                assert(v@.subrange(0, v@.len() as int) =~= v@);
                if a < b {
                    Some(n.to_owned())
                } else {
                    None
                }
            },
            None => None,
        };
        let name = match configured {
            Some(n) => n,
            None => match first_h1(guidelines) {
                Some(h) => h,
                None => {
                    return Err(DesignError::MissingDisplayName);
                },
            },
        };
        let mut supplementary: Vec<String> = Vec::new();
        let mut templates: Vec<DeckTemplate> = Vec::new();
        let mut i: usize = 0;
        while i < files.len()
            invariant
                i <= files@.len(),
                texts(supplementary@) == files_where(files@.take(i as int), false).map_values(|f: PackageFile| f.relative_path@),
                views(templates@) == files_where(files@.take(i as int), true).map_values(|f: PackageFile| file_template(path@, f)),
            decreases files.len() - i,
        {
            let f = &files[i];
            assert(files@.take(i + 1).drop_last() =~= files@.take(i as int));
            assert(files@.take(i + 1).last() == files@[i as int]);
            let rel = chars_of(f.relative_path.as_str());
            let is_design = crate::text::eq_str(&rel, "DESIGN.md");
            if !is_design {
                if is_pptx(f.relative_path.as_str()) {
                    let ghost before = templates@;
                    templates.push(DeckTemplate {
                        path: join_path(path, f.relative_path.as_str()),
                        relative_path: f.relative_path.clone(),
                        size_bytes: f.size_bytes,
                    });
                    assert(views(templates@) =~= views(before).push(file_template(path@, files@[i as int])));
                } else {
                    let ghost before = supplementary@;
                    supplementary.push(f.relative_path.clone());
                    assert(texts(supplementary@) =~= texts(before).push(files@[i as int].relative_path@));
                }
            }
            i += 1;
        }
        assert(files@.take(files@.len() as int) =~= files@);
        let templates = sort_templates(templates);
        Ok(DesignPackage {
            name,
            path: path.to_owned(),
            guidelines: guidelines.to_owned(),
            supplementary_files: supplementary,
            templates,
        })
    }
}

/// A package directory found by scanning: its identity (canonical path),
/// and, when it loaded, the package with the identity of its path.
#[derive(Clone, Debug)]
pub struct ScannedPackage {
    pub identity: String,
    pub loaded: Option<(String, DesignPackage)>,
}

/// Indices of the configured packages kept, in order, and the identities
/// seen: a package whose identity was seen before is dropped.
pub open spec fn configured_picks(ids: Seq<Seq<char>>) -> (Seq<int>, Set<Seq<char>>)
    decreases ids.len(),
{
    if ids.len() == 0 {
        (Seq::empty(), Set::empty())
    } else {
        let prev = configured_picks(ids.drop_last());
        if prev.1.contains(ids.last()) {
            prev
        } else {
            (prev.0.push(ids.len() - 1), prev.1.insert(ids.last()))
        }
    }
}

/// Indices of the scanned packages kept after `seen`: a candidate whose
/// identity was seen is skipped, one that did not load is ignored, and a
/// loaded one is kept and its package identity marked seen.
pub open spec fn scanned_picks(cs: Seq<(Seq<char>, Option<Seq<char>>)>, seen: Set<Seq<char>>) -> (Seq<int>, Set<Seq<char>>)
    decreases cs.len(),
{
    if cs.len() == 0 {
        (Seq::empty(), seen)
    } else {
        let prev = scanned_picks(cs.drop_last(), seen);
        let c = cs.last();
        if prev.1.contains(c.0) {
            prev
        } else {
            match c.1 {
                None => prev,
                Some(id) => (prev.0.push(cs.len() - 1), prev.1.insert(id)),
            }
        }
    }
}

/// Identities of configured packages.
pub open spec fn configured_ids(cs: Seq<(String, DesignPackage)>) -> Seq<Seq<char>> {
    cs.map_values(|c: (String, DesignPackage)| c.0@)
}

/// A scanned candidate as plain values.
pub open spec fn scanned_view(c: ScannedPackage) -> (Seq<char>, Option<Seq<char>>) {
    (c.identity@, match c.loaded {
        Some(l) => Some(l.0@),
        None => None,
    })
}

/// Scanned candidates as plain values.
pub open spec fn scanned_views(cs: Seq<ScannedPackage>) -> Seq<(Seq<char>, Option<Seq<char>>)> {
    cs.map_values(|c: ScannedPackage| scanned_view(c))
}

fn seen_contains(seen: &Vec<String>, id: &str) -> (r: bool)
    ensures
        r == texts(seen@).contains(id@),
{
    let idv = chars_of(id);
    let mut k: usize = 0;
    while k < seen.len()
        invariant
            k <= seen@.len(),
            idv@ == id@,
            forall|q: int| 0 <= q < k ==> seen@[q]@ != id@,
        decreases seen.len() - k,
    {
        let sv = chars_of(seen[k].as_str());
        if eq_chars(&sv, &idv) {
            assert(texts(seen@)[k as int] == id@);
            return true;
        }
        k += 1;
    }
    assert forall|q: int| 0 <= q < seen@.len() implies #[trigger] texts(seen@)[q] != id@ by {
        assert(seen@[q]@ != id@);
    }
    false
}

/// Configured packages first, then scanned ones, each identity offered once.
/// Configured packages are deduplicated by identity; a scanned candidate is
/// skipped when its identity was already seen, and a loaded one marks its
/// package identity seen.
pub fn discover(configured: Vec<(String, DesignPackage)>, scanned: Vec<ScannedPackage>) -> (r: Vec<DesignPackage>)
    ensures
        ({
            let p1 = configured_picks(configured_ids(configured@));
            let p2 = scanned_picks(scanned_views(scanned@), p1.1);
            &&& r@.len() == p1.0.len() + p2.0.len()
            &&& forall|k: int| 0 <= k < p1.0.len() ==> r@[k] == configured@[#[trigger] p1.0[k]].1
            &&& forall|k: int| 0 <= k < p2.0.len() ==> (scanned@[#[trigger] p2.0[k]].loaded matches Some(l) && r@[p1.0.len() + k] == l.1)
        }),
{
    let ghost conf = configured@;
    let ghost scan = scanned@;
    let ghost ids = configured_ids(conf);
    let mut seen: Vec<String> = Vec::new();
    let mut out: Vec<DesignPackage> = Vec::new();
    let mut input = configured;
    let mut i: usize = 0;
    let n = input.len();
    while input.len() > 0
        invariant
            i + input@.len() == conf.len(),
            conf.len() == n,
            input@ == conf.skip(i as int),
            ids == configured_ids(conf),
            texts(seen@).to_set() == configured_picks(ids.take(i as int)).1,
            out@.len() == configured_picks(ids.take(i as int)).0.len(),
            forall|k: int| 0 <= k < out@.len() ==> out@[k] == conf[#[trigger] configured_picks(ids.take(i as int)).0[k]].1,
            forall|k: int| 0 <= k < out@.len() ==> 0 <= #[trigger] configured_picks(ids.take(i as int)).0[k] < i,
        decreases input.len(),
    {
        let ghost before = input@;
        let (id, pkg) = input.remove(0);
        assert((id, pkg) == conf[i as int]);
        assert(input@ =~= conf.skip(i + 1));
        assert(ids.take(i + 1).drop_last() =~= ids.take(i as int));
        assert(ids.take(i + 1).last() == id@);
        let ghost old_seen = seen@;
        if !seen_contains(&seen, id.as_str()) {
            assert(!texts(old_seen).to_set().contains(id@));
            seen.push(id);
            assert(texts(seen@) =~= texts(old_seen).push(id@));
            proof {
                texts(old_seen).lemma_push_to_set_commute(id@);
            }
            out.push(pkg);
        } else {
            assert(texts(old_seen).to_set().contains(id@));
        }
        i += 1;
    }
    assert(ids.take(i as int) =~= ids);
    let ghost p1 = configured_picks(ids);
    let ghost svs = scanned_views(scan);
    let mut input = scanned;
    let mut j: usize = 0;
    let m = input.len();
    while input.len() > 0
        invariant
            j + input@.len() == scan.len(),
            scan.len() == m,
            input@ == scan.skip(j as int),
            svs == scanned_views(scan),
            p1 == configured_picks(configured_ids(conf)),
            texts(seen@).to_set() == scanned_picks(svs.take(j as int), p1.1).1,
            out@.len() == p1.0.len() + scanned_picks(svs.take(j as int), p1.1).0.len(),
            forall|k: int| 0 <= k < p1.0.len() ==> out@[k] == conf[#[trigger] p1.0[k]].1,
            forall|k: int|
                0 <= k < scanned_picks(svs.take(j as int), p1.1).0.len() ==> (scan[#[trigger] scanned_picks(svs.take(j as int), p1.1).0[k]].loaded matches Some(l) && out@[p1.0.len() + k] == l.1),
            forall|k: int|
                0 <= k < scanned_picks(svs.take(j as int), p1.1).0.len() ==> 0 <= #[trigger] scanned_picks(svs.take(j as int), p1.1).0[k] < j,
        decreases input.len(),
    {
        let c = input.remove(0);
        assert(c == scan[j as int]);
        assert(input@ =~= scan.skip(j + 1));
        assert(svs.take(j + 1).drop_last() =~= svs.take(j as int));
        assert(svs.take(j + 1).last() == scanned_view(c));
        let ghost prev = scanned_picks(svs.take(j as int), p1.1);
        let ghost old_seen = seen@;
        let ghost old_out = out@;
        if !seen_contains(&seen, c.identity.as_str()) {
            match c.loaded {
                Some((pid, pkg)) => {
                    let ghost pidv = pid@;
                    if seen_contains(&seen, pid.as_str()) {
                        assert(texts(old_seen).to_set() =~= texts(old_seen).to_set().insert(pidv));
                    } else {
                        seen.push(pid);
                        assert(texts(seen@) =~= texts(old_seen).push(pidv));
                        proof {
                            texts(old_seen).lemma_push_to_set_commute(pidv);
                        }
                    }
                    out.push(pkg);
                    assert forall|k: int|
                        0 <= k < scanned_picks(svs.take(j + 1), p1.1).0.len() implies (scan[#[trigger] scanned_picks(svs.take(j + 1), p1.1).0[k]].loaded matches Some(l) && out@[p1.0.len() + k] == l.1) by {
                        if k < prev.0.len() {
                            assert(scanned_picks(svs.take(j + 1), p1.1).0[k] == prev.0[k]);
                            assert(out@[p1.0.len() + k] == old_out[p1.0.len() + k]);
                        }
                    }
                },
                None => {},
            }
        } else {
            assert(texts(old_seen).to_set().contains(c.identity@));
        }
        j += 1;
    }
    assert(svs.take(j as int) =~= svs);
    out
}

/// A directory entry of a scan root is a package candidate when it is a
/// directory holding `DESIGN.md` and its name does not start with `.`.
pub fn is_scan_candidate(name: &str, is_package_dir: bool) -> (r: bool)
    ensures
        r == (is_package_dir && !(name@.len() > 0 && name@[0] == '.')),
{
    if !is_package_dir {
        return false;
    }
    let v = chars_of(name);
    !(v.len() > 0 && v[0] == '.')
}

} // verus!
