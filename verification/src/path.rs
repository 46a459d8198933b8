//! Unix paths held as text, with the meaning `std::path` gives them.
//!
//! A path's components follow `Path::components`: a leading `/` is the root,
//! empty segments and `.` segments are dropped except a leading `.`.
use crate::text::{chars_of, extend_chars, lemma_split_on_len, split_on, string_of};
use vstd::prelude::*;

verus! {

broadcast use vstd::string::group_string_axioms;

/// The path begins at the root.
pub open spec fn is_absolute(p: Seq<char>) -> bool {
    p.len() > 0 && p[0] == '/'
}

/// A segment that stays a component: not empty and not `.`.
pub open spec fn keeps_segment(s: Seq<char>) -> bool {
    s.len() > 0 && s != seq!['.']
}

/// The segments of `ss` that stay components, in order.
pub open spec fn kept_segments(ss: Seq<Seq<char>>) -> Seq<Seq<char>>
    decreases ss.len(),
{
    if ss.len() == 0 {
        Seq::empty()
    } else {
        kept_segments(ss.drop_last()) + if keeps_segment(ss.last()) {
            seq![ss.last()]
        } else {
            Seq::empty()
        }
    }
}

/// `Path::components`, each written as text: the root is `/`, a leading
/// current directory is `.`, a parent directory is `..`.
pub open spec fn components(p: Seq<char>) -> Seq<Seq<char>> {
    let segs = split_on(p, '/');
    if is_absolute(p) {
        seq![seq!['/']] + kept_segments(segs.drop_first())
    } else if segs[0] == seq!['.'] {
        seq![seq!['.']] + kept_segments(segs.drop_first())
    } else {
        kept_segments(segs)
    }
}

/// Two paths are equal as `Path`s: same components.
pub open spec fn path_eq(a: Seq<char>, b: Seq<char>) -> bool {
    components(a) == components(b)
}

/// A component is a name: not the root, `.` or `..`.
pub open spec fn is_name(c: Seq<char>) -> bool {
    c != seq!['/'] && c != seq!['.'] && c != seq!['.', '.']
}

/// `Path::file_name`: the last component when it is a name.
pub open spec fn file_name(p: Seq<char>) -> Option<Seq<char>> {
    let c = components(p);
    if c.len() > 0 && is_name(c.last()) {
        Some(c.last())
    } else {
        None
    }
}

/// `path.parent().and_then(Path::file_name)`: the name of the directory
/// that holds the last component.
pub open spec fn parent_name(p: Seq<char>) -> Option<Seq<char>> {
    let c = components(p);
    if c.len() >= 2 && is_name(c[c.len() - 2]) {
        Some(c[c.len() - 2])
    } else {
        None
    }
}

/// Position of the last `.` in `name`, if any.
pub open spec fn last_dot(name: Seq<char>) -> Option<int>
    decreases name.len(),
{
    if name.len() == 0 {
        None
    } else if name.last() == '.' {
        Some(name.len() - 1)
    } else {
        last_dot(name.drop_last())
    }
}

/// `Path::extension`: the text after the last `.` of the file name, unless
/// that `.` starts the name.
pub open spec fn extension(p: Seq<char>) -> Option<Seq<char>> {
    match file_name(p) {
        None => None,
        Some(name) => match last_dot(name) {
            Some(i) if i > 0 => Some(name.skip(i + 1)),
            _ => None,
        },
    }
}

/// Some component is `..`.
pub open spec fn has_parent_dir(p: Seq<char>) -> bool {
    exists|k: int| 0 <= k < split_on(p, '/').len() && #[trigger] split_on(p, '/')[k] == seq!['.', '.']
}

/// `base.join(rel)`: `rel` when it is absolute, otherwise `rel` appended
/// after one separator (none when `base` is empty or already ends in `/`).
pub open spec fn join(base: Seq<char>, rel: Seq<char>) -> Seq<char> {
    if is_absolute(rel) {
        rel
    } else if base.len() == 0 || base.last() == '/' {
        base + rel
    } else {
        base + seq!['/'] + rel
    }
}

/// `Path::starts_with`: the components of `root` are a prefix of those of `child`.
pub open spec fn path_starts_with(child: Seq<char>, root: Seq<char>) -> bool {
    let c = components(child);
    let r = components(root);
    r.len() <= c.len() && c.take(r.len() as int) == r
}

/// `base.join(rel)` on text paths.
pub fn join_path(base: &str, rel: &str) -> (joined: String)
    ensures
        joined@ == join(base@, rel@),
{
    let r = chars_of(rel);
    if r.len() > 0 && r[0] == '/' {
        return string_of(&r);
    }
    let mut out = chars_of(base);
    if out.len() > 0 && out[out.len() - 1] != '/' {
        out.push('/');
    }
    extend_chars(&mut out, rel);
    string_of(&out)
}

/// Ranges of the pieces of `v` between occurrences of `sep` (see `split_on`).
pub fn split_ranges(v: &[char], sep: char) -> (r: Vec<(usize, usize)>)
    ensures
        r@.len() == split_on(v@, sep).len(),
        forall|k: int|
            0 <= k < r@.len() ==> {
                &&& (#[trigger] r@[k]).0 <= r@[k].1 <= v@.len()
                &&& v@.subrange(r@[k].0 as int, r@[k].1 as int) == split_on(v@, sep)[k]
            },
{
    let mut r: Vec<(usize, usize)> = Vec::new();
    let mut start: usize = 0;
    let mut i: usize = 0;
    assert(v@.take(0) =~= Seq::<char>::empty());
    while i < v.len()
        invariant
            start <= i <= v@.len(),
            split_on(v@.take(i as int), sep).len() == r@.len() + 1,
            split_on(v@.take(i as int), sep).last() == v@.subrange(start as int, i as int),
            forall|k: int|
                0 <= k < r@.len() ==> {
                    &&& (#[trigger] r@[k]).0 <= r@[k].1 <= v@.len()
                    &&& v@.subrange(r@[k].0 as int, r@[k].1 as int) == split_on(v@.take(i as int), sep)[k]
                },
        decreases v.len() - i,
    {
        proof {
            assert(v@.take(i + 1).drop_last() =~= v@.take(i as int));
            assert(v@.take(i + 1).last() == v@[i as int]);
        }
        if v[i] == sep {
            r.push((start, i));
            start = i + 1;
            assert(v@.subrange(start as int, i + 1) =~= Seq::<char>::empty());
        } else {
            assert(v@.subrange(start as int, i + 1) =~= v@.subrange(start as int, i as int).push(v@[i as int]));
        }
        i += 1;
    }
    assert(v@.take(v@.len() as int) =~= v@);
    r.push((start, v.len()));
    r
}

fn is_dot(v: &[char], a: usize, b: usize) -> (r: bool)
    requires
        a <= b <= v@.len(),
    ensures
        r == (v@.subrange(a as int, b as int) == seq!['.']),
{
    let r = b - a == 1 && v[a] == '.';
    proof {
        if b - a == 1 {
            assert(v@.subrange(a as int, b as int)[0] == v@[a as int]);
            if v@[a as int] == '.' {
                assert(v@.subrange(a as int, b as int) =~= seq!['.']);
            }
        } else {
            assert(v@.subrange(a as int, b as int).len() != 1);
        }
    }
    r
}

/// Ranges in `v` of the components of the path `v` (see `components`).
pub fn component_ranges(v: &[char]) -> (r: Vec<(usize, usize)>)
    ensures
        r@.len() == components(v@).len(),
        forall|k: int|
            0 <= k < r@.len() ==> {
                &&& (#[trigger] r@[k]).0 <= r@[k].1 <= v@.len()
                &&& v@.subrange(r@[k].0 as int, r@[k].1 as int) == components(v@)[k]
            },
{
    let segs = split_ranges(v, '/');
    let ghost ss = split_on(v@, '/');
    proof {
        lemma_split_on_len(v@, '/');
    }
    let mut r: Vec<(usize, usize)> = Vec::new();
    let first = segs[0];
    let ghost head: Seq<Seq<char>>;
    if v.len() > 0 && v[0] == '/' {
        r.push((0, 1));
        proof {
            head = seq![seq!['/']];
            assert(v@.subrange(0, 1) =~= seq!['/']);
        }
    } else if is_dot(v, first.0, first.1) {
        r.push(first);
        proof {
            head = seq![seq!['.']];
        }
    } else {
        proof {
            head = Seq::empty();
        }
    }
    let mut k: usize = if r.len() == 1 { 1 } else { 0 };
    proof {
        assert(ss.skip(k as int).take(0) =~= Seq::<Seq<char>>::empty());
        assert(ss.drop_first() =~= ss.skip(1));
        assert(ss =~= ss.skip(0));
        if k == 0 {
            assert(v@.len() == 0 || v@[0] != '/');
        }
    }
    let ghost k0 = k as int;
    while k < segs.len()
        invariant
            k0 <= k <= segs@.len(),
            k0 == 0 || k0 == 1,
            segs@.len() == ss.len(),
            forall|q: int|
                0 <= q < segs@.len() ==> {
                    &&& (#[trigger] segs@[q]).0 <= segs@[q].1 <= v@.len()
                    &&& v@.subrange(segs@[q].0 as int, segs@[q].1 as int) == ss[q]
                },
            components(v@) == head + kept_segments(ss.skip(k0)),
            r@.len() == head.len() + kept_segments(ss.skip(k0).take(k - k0)).len(),
            forall|q: int|
                0 <= q < r@.len() ==> {
                    &&& (#[trigger] r@[q]).0 <= r@[q].1 <= v@.len()
                    &&& v@.subrange(r@[q].0 as int, r@[q].1 as int) == (head + kept_segments(ss.skip(k0).take(k - k0)))[q]
                },
        decreases segs.len() - k,
    {
        let (a, b) = segs[k];
        proof {
            assert(ss.skip(k0).take(k + 1 - k0).drop_last() =~= ss.skip(k0).take(k - k0));
            assert(ss.skip(k0).take(k + 1 - k0).last() == ss[k as int]);
        }
        if b > a && !is_dot(v, a, b) {
            r.push((a, b));
        }
        k += 1;
    }
    proof {
        assert(ss.skip(k0).take(k - k0) =~= ss.skip(k0));
    }
    r
}

/// `p` without trailing `/` characters and trailing `/.` segments.
pub open spec fn strip_tail(p: Seq<char>) -> Seq<char>
    decreases p.len(),
{
    if p.len() > 0 && p.last() == '/' {
        strip_tail(p.drop_last())
    } else if p.len() >= 2 && p.last() == '.' && p[p.len() - 2] == '/' {
        strip_tail(p.drop_last())
    } else {
        p
    }
}

/// Position just after the last `/` of `q`, or 0.
pub open spec fn after_last_slash(q: Seq<char>) -> int
    decreases q.len(),
{
    if q.len() == 0 {
        0
    } else if q.last() == '/' {
        q.len() as int
    } else {
        after_last_slash(q.drop_last())
    }
}

/// `Path::with_extension`: the file stem followed by `.ext` (nothing when
/// `ext` is empty), with everything after the file name dropped; the path
/// unchanged when it has no file name.
pub open spec fn with_extension(p: Seq<char>, ext: Seq<char>) -> Seq<char> {
    let q = strip_tail(p);
    let start = after_last_slash(q);
    let name = q.skip(start);
    if name.len() == 0 || name == seq!['.'] || name == seq!['.', '.'] {
        p
    } else {
        let stem = match last_dot(name) {
            Some(i) if i > 0 => name.take(i),
            _ => name,
        };
        q.take(start) + stem + if ext.len() > 0 {
            seq!['.'] + ext
        } else {
            Seq::<char>::empty()
        }
    }
}

/// The last `.` lies inside the name.
pub proof fn lemma_last_dot(name: Seq<char>)
    ensures
        last_dot(name) is Some ==> 0 <= last_dot(name)->0 < name.len() && name[last_dot(name)->0] == '.',
    decreases name.len(),
{
    if name.len() > 0 && name.last() != '.' {
        lemma_last_dot(name.drop_last());
    }
}

/// Position of the last `.` of `v[a..b]`, as an offset from `a`.
pub fn last_dot_in(v: &[char], a: usize, b: usize) -> (r: Option<usize>)
    requires
        a <= b <= v@.len(),
    ensures
        match r {
            Some(i) => last_dot(v@.subrange(a as int, b as int)) == Some(i as int),
            None => last_dot(v@.subrange(a as int, b as int)) == None::<int>,
        },
{
    let mut j = b;
    while j > a
        invariant
            a <= j <= b <= v@.len(),
            last_dot(v@.subrange(a as int, b as int)) == last_dot(v@.subrange(a as int, j as int)),
        decreases j - a,
    {
        assert(v@.subrange(a as int, j as int).drop_last() =~= v@.subrange(a as int, j - 1));
        if v[j - 1] == '.' {
            return Some(j - 1 - a);
        }
        j -= 1;
    }
    None
}

fn ranges_equal(a: &[char], ra: (usize, usize), b: &[char], rb: (usize, usize)) -> (r: bool)
    requires
        ra.0 <= ra.1 <= a@.len(),
        rb.0 <= rb.1 <= b@.len(),
    ensures
        r == (a@.subrange(ra.0 as int, ra.1 as int) == b@.subrange(rb.0 as int, rb.1 as int)),
{
    let x = crate::text::copy_range(a, ra.0, ra.1);
    let y = crate::text::copy_range(b, rb.0, rb.1);
    crate::text::eq_chars(&x, &y)
}

/// Whether two text paths are equal as `Path`s (same components).
pub fn paths_equal(a: &str, b: &str) -> (r: bool)
    ensures
        r == path_eq(a@, b@),
{
    let av = chars_of(a);
    let bv = chars_of(b);
    let ca = component_ranges(&av);
    let cb = component_ranges(&bv);
    if ca.len() != cb.len() {
        return false;
    }
    let mut k: usize = 0;
    while k < ca.len()
        invariant
            k <= ca@.len(),
            ca@.len() == cb@.len(),
            ca@.len() == components(a@).len(),
            cb@.len() == components(b@).len(),
            av@ == a@,
            bv@ == b@,
            forall|q: int|
                0 <= q < ca@.len() ==> {
                    &&& (#[trigger] ca@[q]).0 <= ca@[q].1 <= av@.len()
                    &&& av@.subrange(ca@[q].0 as int, ca@[q].1 as int) == components(a@)[q]
                },
            forall|q: int|
                0 <= q < cb@.len() ==> {
                    &&& (#[trigger] cb@[q]).0 <= cb@[q].1 <= bv@.len()
                    &&& bv@.subrange(cb@[q].0 as int, cb@[q].1 as int) == components(b@)[q]
                },
            forall|q: int| 0 <= q < k ==> components(a@)[q] == components(b@)[q],
        decreases ca.len() - k,
    {
        if !ranges_equal(&av, ca[k], &bv, cb[k]) {
            return false;
        }
        k += 1;
    }
    assert(components(a@) =~= components(b@));
    true
}

/// For absolute paths, `a.parent() == b.parent()` with both present: each
/// has a component after the root, and all but the last components agree.
pub open spec fn same_parent(a: Seq<char>, b: Seq<char>) -> bool {
    components(a).len() >= 2 && components(b).len() >= 2 && components(a).drop_last() == components(b).drop_last()
}

/// See `same_parent`.
pub fn same_parent_of(a: &str, b: &str) -> (r: bool)
    ensures
        r == same_parent(a@, b@),
{
    let av = chars_of(a);
    let bv = chars_of(b);
    let ca = component_ranges(&av);
    let cb = component_ranges(&bv);
    if ca.len() < 2 || cb.len() < 2 || ca.len() != cb.len() {
        proof {
            if ca.len() >= 2 && cb.len() >= 2 {
                assert(components(a@).drop_last().len() != components(b@).drop_last().len());
            }
        }
        return false;
    }
    let n = ca.len() - 1;
    let mut k: usize = 0;
    while k < n
        invariant
            n == ca@.len() - 1,
            k <= n,
            ca@.len() == cb@.len(),
            ca@.len() == components(a@).len(),
            cb@.len() == components(b@).len(),
            av@ == a@,
            bv@ == b@,
            forall|q: int|
                0 <= q < ca@.len() ==> {
                    &&& (#[trigger] ca@[q]).0 <= ca@[q].1 <= av@.len()
                    &&& av@.subrange(ca@[q].0 as int, ca@[q].1 as int) == components(a@)[q]
                },
            forall|q: int|
                0 <= q < cb@.len() ==> {
                    &&& (#[trigger] cb@[q]).0 <= cb@[q].1 <= bv@.len()
                    &&& bv@.subrange(cb@[q].0 as int, cb@[q].1 as int) == components(b@)[q]
                },
            forall|q: int| 0 <= q < k ==> components(a@)[q] == components(b@)[q],
        decreases n - k,
    {
        if !ranges_equal(&av, ca[k], &bv, cb[k]) {
            assert(components(a@).drop_last()[k as int] != components(b@).drop_last()[k as int]);
            return false;
        }
        k += 1;
    }
    assert(components(a@).drop_last() =~= components(b@).drop_last());
    true
}

/// `Path::starts_with` on text paths.
pub fn path_starts_with_of(child: &str, root: &str) -> (r: bool)
    ensures
        r == path_starts_with(child@, root@),
{
    let cv = chars_of(child);
    let rv = chars_of(root);
    let cc = component_ranges(&cv);
    let rc = component_ranges(&rv);
    if rc.len() > cc.len() {
        return false;
    }
    let mut k: usize = 0;
    while k < rc.len()
        invariant
            k <= rc@.len() <= cc@.len(),
            cc@.len() == components(child@).len(),
            rc@.len() == components(root@).len(),
            cv@ == child@,
            rv@ == root@,
            forall|q: int|
                0 <= q < cc@.len() ==> {
                    &&& (#[trigger] cc@[q]).0 <= cc@[q].1 <= cv@.len()
                    &&& cv@.subrange(cc@[q].0 as int, cc@[q].1 as int) == components(child@)[q]
                },
            forall|q: int|
                0 <= q < rc@.len() ==> {
                    &&& (#[trigger] rc@[q]).0 <= rc@[q].1 <= rv@.len()
                    &&& rv@.subrange(rc@[q].0 as int, rc@[q].1 as int) == components(root@)[q]
                },
            forall|q: int| 0 <= q < k ==> components(child@)[q] == components(root@)[q],
        decreases rc.len() - k,
    {
        if !ranges_equal(&cv, cc[k], &rv, rc[k]) {
            assert(components(child@).take(rc@.len() as int)[k as int] != components(root@)[k as int]);
            return false;
        }
        k += 1;
    }
    assert(components(child@).take(rc@.len() as int) =~= components(root@));
    true
}

/// `Path::file_name` on text paths.
pub fn file_name_of(p: &str) -> (r: Option<String>)
    ensures
        match r {
            Some(n) => file_name(p@) == Some(n@),
            None => file_name(p@) == None::<Seq<char>>,
        },
{
    let v = chars_of(p);
    let cs = component_ranges(&v);
    if cs.len() == 0 {
        return None;
    }
    let (a, b) = cs[cs.len() - 1];
    if is_name_range(&v, a, b) {
        Some(crate::text::string_of_range(&v, a, b))
    } else {
        None
    }
}

/// `path.parent().and_then(Path::file_name)` on text paths.
pub fn parent_name_of(p: &str) -> (r: Option<String>)
    ensures
        match r {
            Some(n) => parent_name(p@) == Some(n@),
            None => parent_name(p@) == None::<Seq<char>>,
        },
{
    let v = chars_of(p);
    let cs = component_ranges(&v);
    if cs.len() < 2 {
        return None;
    }
    let (a, b) = cs[cs.len() - 2];
    if is_name_range(&v, a, b) {
        Some(crate::text::string_of_range(&v, a, b))
    } else {
        None
    }
}

/// `Path::file_stem`: the file name up to its last `.`, unless that `.`
/// starts the name.
pub open spec fn file_stem(p: Seq<char>) -> Option<Seq<char>> {
    match file_name(p) {
        None => None,
        Some(name) => match last_dot(name) {
            Some(i) if i > 0 => Some(name.take(i)),
            _ => Some(name),
        },
    }
}

/// `Path::file_stem` on text paths.
pub fn file_stem_of(p: &str) -> (r: Option<String>)
    ensures
        match r {
            Some(s) => file_stem(p@) == Some(s@),
            None => file_stem(p@) == None::<Seq<char>>,
        },
{
    let v = chars_of(p);
    let cs = component_ranges(&v);
    if cs.len() == 0 {
        return None;
    }
    let (a, b) = cs[cs.len() - 1];
    if !is_name_range(&v, a, b) {
        return None;
    }
    proof {
        lemma_last_dot(v@.subrange(a as int, b as int));
    }
    match last_dot_in(&v, a, b) {
        Some(i) if i > 0 => {
            assert(v@.subrange(a as int, b as int).take(i as int) =~= v@.subrange(a as int, a + i));
            Some(crate::text::string_of_range(&v, a, a + i))
        },
        _ => Some(crate::text::string_of_range(&v, a, b)),
    }
}

/// `Path::extension` on text paths.
pub fn extension_of(p: &str) -> (r: Option<String>)
    ensures
        match r {
            Some(e) => extension(p@) == Some(e@),
            None => extension(p@) == None::<Seq<char>>,
        },
{
    let v = chars_of(p);
    let cs = component_ranges(&v);
    if cs.len() == 0 {
        return None;
    }
    let (a, b) = cs[cs.len() - 1];
    if !is_name_range(&v, a, b) {
        return None;
    }
    proof {
        lemma_last_dot(v@.subrange(a as int, b as int));
    }
    match last_dot_in(&v, a, b) {
        Some(i) if i > 0 => {
            assert(v@.subrange(a as int, b as int).skip(i + 1) =~= v@.subrange(a + i + 1, b as int));
            Some(crate::text::string_of_range(&v, a + i + 1, b))
        },
        _ => None,
    }
}

fn is_name_range(v: &[char], a: usize, b: usize) -> (r: bool)
    requires
        a <= b <= v@.len(),
    ensures
        r == is_name(v@.subrange(a as int, b as int)),
{
    let ghost s = v@.subrange(a as int, b as int);
    let len = b - a;
    let r = !(len == 1 && (v[a] == '/' || v[a] == '.')) && !(len == 2 && v[a] == '.' && v[a + 1] == '.');
    proof {
        if len == 1 {
            assert(s[0] == v@[a as int]);
            if v@[a as int] == '/' {
                assert(s =~= seq!['/']);
            }
            if v@[a as int] == '.' {
                assert(s =~= seq!['.']);
            }
        }
        if len == 2 {
            assert(s[0] == v@[a as int] && s[1] == v@[a + 1]);
            if v@[a as int] == '.' && v@[a + 1] == '.' {
                assert(s =~= seq!['.', '.']);
            }
            assert(s.len() != seq!['/'].len());
        }
        if len != 1 {
            assert(s.len() != seq!['/'].len());
            assert(s.len() != seq!['.'].len());
        }
        if len != 2 {
            assert(s.len() != seq!['.', '.'].len());
        }
    }
    r
}

/// Length of `strip_tail(v)`.
fn strip_tail_len(v: &[char]) -> (end: usize)
    ensures
        end <= v@.len(),
        strip_tail(v@) == v@.take(end as int),
{
    let mut end = v.len();
    assert(v@.take(v@.len() as int) =~= v@);
    while end > 0 && (v[end - 1] == '/' || (end >= 2 && v[end - 1] == '.' && v[end - 2] == '/'))
        invariant
            end <= v@.len(),
            strip_tail(v@) == strip_tail(v@.take(end as int)),
        decreases end,
    {
        assert(v@.take(end as int).drop_last() =~= v@.take(end - 1));
        end -= 1;
    }
    end
}

/// `after_last_slash(v[..end])`.
fn name_start(v: &[char], end: usize) -> (start: usize)
    requires
        end <= v@.len(),
    ensures
        start <= end,
        after_last_slash(v@.take(end as int)) == start,
{
    let mut start = end;
    assert(v@.take(end as int).take(end as int) =~= v@.take(end as int));
    while start > 0 && v[start - 1] != '/'
        invariant
            start <= end <= v@.len(),
            after_last_slash(v@.take(end as int)) == after_last_slash(v@.take(start as int)),
        decreases start,
    {
        assert(v@.take(start as int).drop_last() =~= v@.take(start - 1));
        start -= 1;
    }
    start
}

/// `Path::with_extension` on text paths.
pub fn with_extension_of(p: &str, ext: &str) -> (r: String)
    ensures
        r@ == with_extension(p@, ext@),
{
    let v = chars_of(p);
    let end = strip_tail_len(&v);
    let start = name_start(&v, end);
    let ghost q = v@.take(end as int);
    let ghost name = q.skip(start as int);
    assert(name =~= v@.subrange(start as int, end as int));
    let len = end - start;
    let bare = len == 0 || (len == 1 && v[start] == '.') || (len == 2 && v[start] == '.' && v[start + 1] == '.');
    proof {
        if len == 1 {
            assert(name[0] == v@[start as int]);
            if v@[start as int] == '.' {
                assert(name =~= seq!['.']);
            }
        } else {
            assert(name.len() != seq!['.'].len());
        }
        if len == 2 {
            assert(name[0] == v@[start as int] && name[1] == v@[start + 1]);
            if v@[start as int] == '.' && v@[start + 1] == '.' {
                assert(name =~= seq!['.', '.']);
            }
        } else {
            assert(name.len() != seq!['.', '.'].len());
        }
    }
    if bare {
        return string_of(&v);
    }
    proof {
        lemma_last_dot(name);
    }
    let dot = last_dot_in(&v, start, end);
    let stem_end = match dot {
        Some(i) if i > 0 => start + i,
        _ => end,
    };
    let ghost stem = match last_dot(name) {
        Some(i) if i > 0 => name.take(i),
        _ => name,
    };
    assert(v@.subrange(0, stem_end as int) =~= q.take(start as int) + stem);
    let mut out = crate::text::copy_range(&v, 0, stem_end);
    let e = chars_of(ext);
    if e.len() > 0 {
        out.push('.');
        crate::text::extend_range(&mut out, &e, 0, e.len());
        assert(e@.subrange(0, e@.len() as int) =~= e@);
    }
    string_of(&out)
}

/// Whether some component of `p` is `..`.
pub fn has_parent_dir_of(p: &str) -> (r: bool)
    ensures
        r == has_parent_dir(p@),
{
    let v = chars_of(p);
    let segs = split_ranges(&v, '/');
    let mut k: usize = 0;
    while k < segs.len()
        invariant
            k <= segs@.len(),
            segs@.len() == split_on(v@, '/').len(),
            v@ == p@,
            forall|q: int|
                0 <= q < segs@.len() ==> {
                    &&& (#[trigger] segs@[q]).0 <= segs@[q].1 <= v@.len()
                    &&& v@.subrange(segs@[q].0 as int, segs@[q].1 as int) == split_on(v@, '/')[q]
                },
            forall|q: int| 0 <= q < k ==> split_on(v@, '/')[q] != seq!['.', '.'],
        decreases segs.len() - k,
    {
        let (a, b) = segs[k];
        if b - a == 2 && v[a] == '.' && v[a + 1] == '.' {
            assert(v@.subrange(a as int, b as int) =~= seq!['.', '.']);
            return true;
        }
        proof {
            let s = v@.subrange(a as int, b as int);
            if b - a == 2 {
                assert(s[0] == v@[a as int] && s[1] == v@[a + 1]);
            } else {
                assert(s.len() != seq!['.', '.'].len());
            }
        }
        k += 1;
    }
    false
}

} // verus!
