//! Agent skills: `SKILL.md` frontmatter, name rules, and precedence between
//! project, user and built-in skills.
use crate::path::{parent_name, parent_name_of};
use crate::text::{
    chars_of, copy_range, eq_chars, eq_str, find_char, find_char_from, lines, split_lines, string_of,
    trim, trim_bounds, utf8_len, utf8_len_exceeds,
};
use vstd::prelude::*;

verus! {

broadcast use vstd::string::group_string_axioms;

/// Where a skill was found; each variant holds the skill's directory.
#[derive(Clone, Debug, PartialEq, Eq)]
pub enum SkillSource {
    Project(String),
    User(String),
    BuiltIn(String),
}

/// A validated skill.
#[derive(Clone, Debug, PartialEq, Eq)]
pub struct Skill {
    pub name: String,
    pub description: String,
    pub source: SkillSource,
    pub path: String,
    pub contents: String,
}

/// Why a `SKILL.md` was refused.
#[derive(Clone, Copy, Debug, PartialEq, Eq, Structural)]
pub enum SkillError {
    /// The first line is not `---`.
    MissingFrontmatter,
    /// No closing `---` line.
    UnterminatedFrontmatter,
    /// `name` or `description` is given twice.
    DuplicateField,
    MissingName,
    MissingDescription,
    /// The name is empty or longer than 64 bytes.
    NameLength,
    /// The name is not lower-case alphanumeric with single inner hyphens.
    NameCharacters,
    /// The description is empty or longer than 1024 bytes.
    DescriptionLength,
    /// The skill path has no directory name.
    NoDirectoryName,
    /// The name differs from the directory name.
    DirectoryMismatch,
}

/// The two frontmatter fields a skill uses.
#[derive(Clone, Debug)]
pub struct Frontmatter {
    pub name: Option<String>,
    pub description: Option<String>,
}

/// A line that starts with a space or a tab.
pub open spec fn starts_indented(l: Seq<char>) -> bool {
    l.len() > 0 && (l[0] == ' ' || l[0] == '\t')
}

/// A YAML block scalar indicator.
pub open spec fn is_block_indicator(v: Seq<char>) -> bool {
    v == "|"@ || v == "|-"@ || v == "|+"@ || v == ">"@ || v == ">-"@ || v == ">+"@
}

/// A line that ends a block scalar: the closing `---` or an unindented non-empty line.
pub open spec fn ends_block(l: Seq<char>) -> bool {
    l == "---"@ || (l.len() > 0 && !starts_indented(l))
}

/// The first line at or after `i` that ends a block scalar, or the line count.
pub open spec fn block_end(ls: Seq<Seq<char>>, i: int) -> int
    decreases ls.len() - i,
{
    if i < 0 || i >= ls.len() || ends_block(ls[i]) {
        i
    } else {
        block_end(ls, i + 1)
    }
}

/// `parts` joined with `sep` between neighbours.
pub open spec fn join_with(parts: Seq<Seq<char>>, sep: Seq<char>) -> Seq<char>
    decreases parts.len(),
{
    if parts.len() == 0 {
        Seq::empty()
    } else if parts.len() == 1 {
        parts[0]
    } else {
        join_with(parts.drop_last(), sep) + sep + parts.last()
    }
}

/// The value of a block scalar on lines `[from, to)`: lines trimmed, joined
/// with a space when folded and a newline otherwise, and trimmed.
pub open spec fn block_value(ls: Seq<Seq<char>>, from: int, to: int, folded: bool) -> Seq<char> {
    trim(join_with(ls.subrange(from, to).map_values(|l: Seq<char>| trim(l)), if folded { " "@ } else { "\n"@ }))
}

/// A value without one pair of matching surrounding quotes.
pub open spec fn unquoted(v: Seq<char>) -> Seq<char> {
    if v.len() >= 2 && ((v[0] == '"' && v.last() == '"') || (v[0] == '\'' && v.last() == '\'')) {
        v.subrange(1, v.len() - 1)
    } else {
        v
    }
}

/// The `name` and `description` fields read from line `i` on, or the error.
pub open spec fn frontmatter_from(
    ls: Seq<Seq<char>>,
    i: int,
    name: Option<Seq<char>>,
    desc: Option<Seq<char>>,
) -> Result<(Option<Seq<char>>, Option<Seq<char>>), SkillError>
    decreases ls.len() - i,
{
    if i < 0 || i >= ls.len() {
        Err(SkillError::UnterminatedFrontmatter)
    } else {
        let line = ls[i];
        if line == "---"@ {
            Ok((name, desc))
        } else if trim(line).len() == 0 || starts_indented(line) {
            frontmatter_from(ls, i + 1, name, desc)
        } else {
            match find_char(line, ':', 0) {
                None => frontmatter_from(ls, i + 1, name, desc),
                Some(c) => {
                    let key = trim(line.take(c));
                    if key != "name"@ && key != "description"@ {
                        frontmatter_from(ls, i + 1, name, desc)
                    } else {
                        let raw = trim(line.skip(c + 1));
                        let block = is_block_indicator(raw);
                        let next = if block { block_end(ls, i + 1) } else { i + 1 };
                        let value = if block {
                            block_value(ls, i + 1, next, raw[0] == '>')
                        } else {
                            unquoted(raw)
                        };
                        if (key == "name"@ && name is Some) || (key == "description"@ && desc is Some) {
                            Err(SkillError::DuplicateField)
                        } else if next <= i || next > ls.len() {
                            Err(SkillError::UnterminatedFrontmatter)
                        } else if key == "name"@ {
                            frontmatter_from(ls, next, Some(value), desc)
                        } else {
                            frontmatter_from(ls, next, name, Some(value))
                        }
                    }
                },
            }
        }
    }
}

/// The `name` and `description` of a `SKILL.md`'s frontmatter, or the error.
pub open spec fn frontmatter_of(contents: Seq<char>) -> Result<(Option<Seq<char>>, Option<Seq<char>>), SkillError> {
    let ls = lines(contents);
    if ls.len() == 0 || ls[0] != "---"@ {
        Err(SkillError::MissingFrontmatter)
    } else {
        frontmatter_from(ls, 1, None, None)
    }
}

/// A character allowed in a skill name.
pub open spec fn is_name_char(c: char) -> bool {
    ('a' <= c && c <= 'z') || ('0' <= c && c <= '9') || c == '-'
}

/// What is wrong with a skill name, if anything.
pub open spec fn name_problem(n: Seq<char>) -> Option<SkillError> {
    if n.len() == 0 || utf8_len(n) > 64 {
        Some(SkillError::NameLength)
    } else if n[0] == '-' || n.last() == '-' || (exists|i: int| 0 <= i < n.len() - 1 && n[i] == '-' && #[trigger] n[i + 1] == '-')
        || !(forall|i: int| 0 <= i < n.len() ==> is_name_char(#[trigger] n[i])) {
        Some(SkillError::NameCharacters)
    } else {
        None
    }
}

/// A skill name is accepted exactly when it is 1 to 64 bytes of lower-case
/// ASCII letters, digits and hyphens, with no hyphen first, last or next to
/// another; a name of the right length with any other character, or with
/// such a hyphen, is refused for its characters.
pub proof fn lemma_skill_name_rule(n: Seq<char>)
    ensures
        (n.len() > 0 && utf8_len(n) <= 64 && (forall|i: int|
            0 <= i < n.len() ==> ('a' <= #[trigger] n[i] <= 'z' || '0' <= n[i] <= '9' || n[i] == '-')) && n[0] != '-'
            && n[n.len() - 1] != '-' && (forall|i: int| 0 <= i < n.len() - 1 ==> !(n[i] == '-' && #[trigger] n[i + 1] == '-')))
            ==> name_problem(n) is None,
        (n.len() > 0 && utf8_len(n) <= 64 && exists|i: int|
            0 <= i < n.len() && !('a' <= #[trigger] n[i] <= 'z' || '0' <= n[i] <= '9' || n[i] == '-')) ==> name_problem(n)
            == Some(SkillError::NameCharacters),
        (n.len() == 0 || utf8_len(n) > 64) ==> name_problem(n) == Some(SkillError::NameLength),
{
    if n.len() > 0 {
        assert(n.last() == n[n.len() - 1]);
    }
}

/// The name and description of a valid skill at `path`, or why it is refused.
pub open spec fn skill_of(contents: Seq<char>, path: Seq<char>) -> Result<(Seq<char>, Seq<char>), SkillError> {
    match frontmatter_of(contents) {
        Err(e) => Err(e),
        Ok(f) => match f.0 {
            None => Err(SkillError::MissingName),
            Some(n) => match f.1 {
                None => Err(SkillError::MissingDescription),
                Some(d) => match name_problem(n) {
                    Some(e) => Err(e),
                    None => if d.len() == 0 || utf8_len(d) > 1024 {
                        Err(SkillError::DescriptionLength)
                    } else {
                        match parent_name(path) {
                            None => Err(SkillError::NoDirectoryName),
                            Some(dir) => if dir != n {
                                Err(SkillError::DirectoryMismatch)
                            } else {
                                Ok((n, d))
                            },
                        }
                    },
                },
            },
        },
    }
}

/// A value without one pair of matching surrounding quotes.
pub fn unquote(v: &[char]) -> (r: Vec<char>)
    ensures
        r@ == unquoted(v@),
{
    let n = v.len();
    if n >= 2 && ((v[0] == '"' && v[n - 1] == '"') || (v[0] == '\'' && v[n - 1] == '\'')) {
        copy_range(v, 1, n - 1)
    } else {
        copy_range(v, 0, n)
    }
}

fn trimmed(v: &[char], from: usize, to: usize) -> (r: Vec<char>)
    requires
        from <= to <= v@.len(),
    ensures
        r@ == trim(v@.subrange(from as int, to as int)),
{
    let (a, b) = trim_bounds(v, from, to);
    copy_range(v, a, b)
}

fn is_block_indicator_exec(v: &[char]) -> (r: bool)
    ensures
        r == is_block_indicator(v@),
{
    eq_str(v, "|") || eq_str(v, "|-") || eq_str(v, "|+") || eq_str(v, ">") || eq_str(v, ">-") || eq_str(v, ">+")
}

fn ends_block_exec(l: &[char]) -> (r: bool)
    ensures
        r == ends_block(l@),
{
    eq_str(l, "---") || (l.len() > 0 && !(l[0] == ' ' || l[0] == '\t'))
}

/// Appends `trim(line)`, preceded by `sep` unless `out` starts empty.
proof fn lemma_join_push(parts: Seq<Seq<char>>, sep: Seq<char>, p: Seq<char>)
    requires
        parts.len() > 0,
    ensures
        join_with(parts.push(p), sep) == join_with(parts, sep) + sep + p,
{
    assert(parts.push(p).drop_last() =~= parts);
}

fn block_text(ls: &Vec<Vec<char>>, from: usize, to: usize, folded: bool) -> (r: Vec<char>)
    requires
        from <= to <= ls@.len(),
    ensures
        r@ == block_value(ls@.map_values(|l: Vec<char>| l@), from as int, to as int, folded),
{
    let ghost lv = ls@.map_values(|l: Vec<char>| l@);
    let ghost sep: Seq<char> = if folded { " "@ } else { "\n"@ };
    let mut joined: Vec<char> = Vec::new();
    let mut k = from;
    proof {
        reveal_strlit(" ");
        reveal_strlit("\n");
        assert(lv.subrange(from as int, from as int).map_values(|l: Seq<char>| trim(l)) =~= Seq::<Seq<char>>::empty());
    }
    while k < to
        invariant
            from <= k <= to <= ls@.len(),
            lv == ls@.map_values(|l: Vec<char>| l@),
            sep == (if folded { " "@ } else { "\n"@ }),
            sep == seq![if folded { ' ' } else { '\n' }],
            joined@ == join_with(lv.subrange(from as int, k as int).map_values(|l: Seq<char>| trim(l)), sep),
        decreases to - k,
    {
        let line = &ls[k];
        let t = trimmed(line, 0, line.len());
        assert(line@.subrange(0, line@.len() as int) =~= line@);
        let ghost parts = lv.subrange(from as int, k as int).map_values(|l: Seq<char>| trim(l));
        assert(lv.subrange(from as int, k + 1).map_values(|l: Seq<char>| trim(l)) =~= parts.push(trim(lv[k as int])));
        if k > from {
            if folded {
                joined.push(' ');
            } else {
                joined.push('\n');
            }
            proof {
                lemma_join_push(parts, sep, trim(lv[k as int]));
            }
            assert(joined@ =~= join_with(parts, sep) + sep);
        } else {
            assert(parts =~= Seq::<Seq<char>>::empty());
            assert(parts.push(trim(lv[k as int])).len() == 1);
        }
        assert(ls@[k as int]@ == lv[k as int]);
        let mut j: usize = 0;
        let ghost base = joined@;
        while j < t.len()
            invariant
                j <= t@.len(),
                joined@ == base + t@.take(j as int),
            decreases t.len() - j,
        {
            joined.push(t[j]);
            assert(t@.take(j + 1) =~= t@.take(j as int).push(t@[j as int]));
            j += 1;
        }
        assert(t@.take(t@.len() as int) =~= t@);
        proof {
            if k > from {
                assert(joined@ =~= join_with(parts, sep) + sep + trim(lv[k as int]));
            } else {
                assert(join_with(parts, sep) =~= Seq::<char>::empty());
                assert(base =~= Seq::<char>::empty());
                assert(t@ == trim(lv[k as int]));
                assert(joined@ =~= trim(lv[k as int]));
            }
        }
        k += 1;
    }
    let r = trimmed(&joined, 0, joined.len());
    assert(joined@.subrange(0, joined@.len() as int) =~= joined@);
    r
}

fn block_end_exec(ls: &Vec<Vec<char>>, from: usize) -> (e: usize)
    requires
        from <= ls@.len(),
    ensures
        e as int == block_end(ls@.map_values(|l: Vec<char>| l@), from as int),
        from <= e <= ls@.len(),
{
    let ghost lv = ls@.map_values(|l: Vec<char>| l@);
    let mut e = from;
    while e < ls.len() && !ends_block_exec(&ls[e])
        invariant
            from <= e <= ls@.len(),
            lv == ls@.map_values(|l: Vec<char>| l@),
            block_end(lv, from as int) == block_end(lv, e as int),
        decreases ls.len() - e,
    {
        e += 1;
    }
    e
}

/// The text of an optional character buffer.
pub open spec fn opt_text(o: Option<String>) -> Option<Seq<char>> {
    match o {
        Some(s) => Some(s@),
        None => None,
    }
}

fn opt_string(o: Option<Vec<char>>) -> (r: Option<String>)
    ensures
        opt_text(r) == match o {
            Some(v) => Some(v@),
            None => None::<Seq<char>>,
        },
{
    match o {
        Some(v) => Some(string_of(&v)),
        None => None,
    }
}

/// The `name` and `description` of a `SKILL.md`'s YAML frontmatter. Block
/// scalars (`|`, `>`, with `-` or `+`) are read from the indented lines that
/// follow; other values lose one pair of surrounding quotes.
pub fn parse_frontmatter(contents: &str) -> (r: Result<Frontmatter, SkillError>)
    ensures
        match r {
            Ok(f) => frontmatter_of(contents@) == Ok::<(Option<Seq<char>>, Option<Seq<char>>), SkillError>(
                (opt_text(f.name), opt_text(f.description)),
            ),
            Err(e) => frontmatter_of(contents@) == Err::<(Option<Seq<char>>, Option<Seq<char>>), SkillError>(e),
        },
{
    let ls = split_lines(contents);
    let ghost lv = ls@.map_values(|l: Vec<char>| l@);
    assert(lv =~= lines(contents@));
    if ls.len() == 0 || !eq_str(&ls[0], "---") {
        return Err(SkillError::MissingFrontmatter);
    }
    let mut name: Option<Vec<char>> = None;
    let mut desc: Option<Vec<char>> = None;
    let mut i: usize = 1;
    loop
        invariant
            1 <= i <= ls@.len(),
            lv == ls@.map_values(|l: Vec<char>| l@),
            lv == lines(contents@),
            frontmatter_of(contents@) == frontmatter_from(
                lv,
                i as int,
                match name {
                    Some(v) => Some(v@),
                    None => None::<Seq<char>>,
                },
                match desc {
                    Some(v) => Some(v@),
                    None => None::<Seq<char>>,
                },
            ),
        decreases ls.len() - i,
    {
        if i >= ls.len() {
            return Err(SkillError::UnterminatedFrontmatter);
        }
        let line = &ls[i];
        assert(line@ == lv[i as int]);
        if eq_str(line, "---") {
            return Ok(Frontmatter { name: opt_string(name), description: opt_string(desc) });
        }
        let (ta, tb) = trim_bounds(line, 0, line.len());
        assert(line@.subrange(0, line@.len() as int) =~= line@);
        if ta == tb || (line.len() > 0 && (line[0] == ' ' || line[0] == '\t')) {
            i += 1;
            continue;
        }
        let c = match find_char_from(line, ':', 0) {
            None => {
                i += 1;
                continue;
            },
            Some(c) => c,
        };
        let key = trimmed(line, 0, c);
        assert(line@.subrange(0, c as int) =~= line@.take(c as int));
        let is_name = eq_str(&key, "name");
        let is_desc = eq_str(&key, "description");
        if !is_name && !is_desc {
            i += 1;
            continue;
        }
        let raw = trimmed(line, c + 1, line.len());
        assert(line@.subrange(c + 1, line@.len() as int) =~= line@.skip(c + 1));
        let block = is_block_indicator_exec(&raw);
        proof {
            reveal_strlit("|");
            reveal_strlit("|-");
            reveal_strlit("|+");
            reveal_strlit(">");
            reveal_strlit(">-");
            reveal_strlit(">+");
        }
        let (value, next) = if block {
            let e = block_end_exec(&ls, i + 1);
            (block_text(&ls, i + 1, e, raw[0] == '>'), e)
        } else {
            (unquote(&raw), i + 1)
        };
        if (is_name && name.is_some()) || (is_desc && desc.is_some()) {
            return Err(SkillError::DuplicateField);
        }
        if is_name {
            name = Some(value);
        } else {
            desc = Some(value);
        }
        i = next;
    }
}

/// What is wrong with a skill name: empty or over 64 bytes, or not
/// lower-case ASCII letters and digits with single inner hyphens.
pub fn validate_name(name: &[char]) -> (r: Result<(), SkillError>)
    ensures
        match r {
            Ok(()) => name_problem(name@) is None,
            Err(e) => name_problem(name@) == Some(e),
        },
{
    let n = name.len();
    if n == 0 || utf8_len_exceeds(name, 64) {
        return Err(SkillError::NameLength);
    }
    if name[0] == '-' || name[n - 1] == '-' {
        return Err(SkillError::NameCharacters);
    }
    let mut i: usize = 0;
    while i < n
        invariant
            i <= n == name@.len(),
            n > 0,
            utf8_len(name@) <= 64,
            name@[0] != '-',
            name@[n - 1] != '-',
            forall|q: int| 0 <= q < i ==> is_name_char(#[trigger] name@[q]),
            forall|q: int| 0 <= q < i && q + 1 < n ==> !(name@[q] == '-' && #[trigger] name@[q + 1] == '-'),
        decreases n - i,
    {
        let c = name[i];
        if !(('a' <= c && c <= 'z') || ('0' <= c && c <= '9') || c == '-') {
            return Err(SkillError::NameCharacters);
        }
        if i + 1 < n && c == '-' && name[i + 1] == '-' {
            assert(name@[i as int] == '-' && name@[i + 1] == '-');
            return Err(SkillError::NameCharacters);
        }
        i += 1;
    }
    Ok(())
}

fn clone_source(s: &SkillSource) -> (r: SkillSource)
    ensures
        r == *s,
{
    match s {
        SkillSource::Project(p) => SkillSource::Project(p.clone()),
        SkillSource::User(p) => SkillSource::User(p.clone()),
        SkillSource::BuiltIn(p) => SkillSource::BuiltIn(p.clone()),
    }
}

/// A skill from the contents of its `SKILL.md` at `path`: frontmatter with a
/// valid `name` and a 1-1024 byte `description`, and a name equal to the
/// name of the directory holding the file.
pub fn parse_skill(contents: &str, path: &str, source: SkillSource) -> (r: Result<Skill, SkillError>)
    ensures
        match r {
            Ok(sk) => {
                &&& skill_of(contents@, path@) == Ok::<(Seq<char>, Seq<char>), SkillError>((sk.name@, sk.description@))
                &&& sk.source == source
                &&& sk.path@ == path@
                &&& sk.contents@ == contents@
            },
            Err(e) => skill_of(contents@, path@) == Err::<(Seq<char>, Seq<char>), SkillError>(e),
        },
{
    let f = match parse_frontmatter(contents) {
        Err(e) => {
            return Err(e);
        },
        Ok(f) => f,
    };
    let name = match f.name {
        None => {
            return Err(SkillError::MissingName);
        },
        Some(n) => n,
    };
    let description = match f.description {
        None => {
            return Err(SkillError::MissingDescription);
        },
        Some(d) => d,
    };
    let nv = chars_of(name.as_str());
    match validate_name(&nv) {
        Err(e) => {
            return Err(e);
        },
        Ok(()) => {},
    }
    let dv = chars_of(description.as_str());
    if dv.len() == 0 || utf8_len_exceeds(&dv, 1024) {
        return Err(SkillError::DescriptionLength);
    }
    let directory = match parent_name_of(path) {
        None => {
            return Err(SkillError::NoDirectoryName);
        },
        Some(d) => d,
    };
    let dirv = chars_of(directory.as_str());
    if !eq_chars(&dirv, &nv) {
        return Err(SkillError::DirectoryMismatch);
    }
    Ok(Skill { name, description, source, path: path.to_owned(), contents: contents.to_owned() })
}

/// A skill file found during discovery, in precedence order, with its
/// contents when it could be read.
#[derive(Clone, Debug)]
pub struct SkillCandidate {
    pub path: String,
    pub source: SkillSource,
    pub contents: Option<String>,
}

/// The name and description of a candidate that is a valid skill.
pub open spec fn accepted(c: SkillCandidate) -> Option<(Seq<char>, Seq<char>)> {
    match c.contents {
        None => None,
        Some(t) => match skill_of(t@, c.path@) {
            Ok(x) => Some(x),
            Err(_) => None,
        },
    }
}

/// The skills chosen from `cs`: valid candidates whose name no earlier valid
/// candidate has, as (name, description, candidate index).
pub open spec fn selection(cs: Seq<SkillCandidate>) -> Seq<(Seq<char>, Seq<char>, int)>
    decreases cs.len(),
{
    if cs.len() == 0 {
        Seq::empty()
    } else {
        let prev = selection(cs.drop_last());
        match accepted(cs.last()) {
            None => prev,
            Some(x) => if exists|j: int| 0 <= j < prev.len() && (#[trigger] prev[j]).0 == x.0 {
                prev
            } else {
                prev.push((x.0, x.1, cs.len() - 1))
            },
        }
    }
}

/// Skills in precedence order: unreadable and invalid candidates are
/// skipped, and the first valid skill of each name shadows later ones.
pub fn select_skills(candidates: &Vec<SkillCandidate>) -> (r: Vec<Skill>)
    ensures
        r@.len() == selection(candidates@).len(),
        forall|k: int|
            0 <= k < r@.len() ==> {
                let e = #[trigger] selection(candidates@)[k];
                let c = candidates@[e.2];
                &&& 0 <= e.2 < candidates@.len()
                &&& r@[k].name@ == e.0
                &&& r@[k].description@ == e.1
                &&& r@[k].path@ == c.path@
                &&& r@[k].source == c.source
                &&& c.contents matches Some(t) && r@[k].contents@ == t@
            },
{
    let mut r: Vec<Skill> = Vec::new();
    let mut i: usize = 0;
    while i < candidates.len()
        invariant
            i <= candidates@.len(),
            r@.len() == selection(candidates@.take(i as int)).len(),
            forall|k: int|
                0 <= k < r@.len() ==> {
                    let e = #[trigger] selection(candidates@.take(i as int))[k];
                    let c = candidates@[e.2];
                    &&& 0 <= e.2 < i
                    &&& r@[k].name@ == e.0
                    &&& r@[k].description@ == e.1
                    &&& r@[k].path@ == c.path@
                    &&& r@[k].source == c.source
                    &&& c.contents matches Some(t) && r@[k].contents@ == t@
                },
        decreases candidates.len() - i,
    {
        let c = &candidates[i];
        let ghost prev = selection(candidates@.take(i as int));
        assert(candidates@.take(i + 1).drop_last() =~= candidates@.take(i as int));
        assert(candidates@.take(i + 1).last() == candidates@[i as int]);
        if let Some(t) = &c.contents {
            match parse_skill(t.as_str(), c.path.as_str(), clone_source(&c.source)) {
                Ok(sk) => {
                    let nv = chars_of(sk.name.as_str());
                    let mut seen = false;
                    let mut k: usize = 0;
                    while k < r.len()
                        invariant
                            k <= r@.len(),
                            r@.len() == prev.len(),
                            forall|q: int| 0 <= q < r@.len() ==> (#[trigger] r@[q]).name@ == prev[q].0,
                            seen <==> exists|q: int| 0 <= q < k && (#[trigger] prev[q]).0 == nv@,
                        decreases r.len() - k,
                    {
                        let other = chars_of(r[k].name.as_str());
                        if eq_chars(&other, &nv) {
                            seen = true;
                        }
                        k += 1;
                    }
                    if !seen {
                        r.push(sk);
                    }
                },
                Err(_) => {},
            }
        }
        i += 1;
    }
    proof {
        assert(candidates@.take(candidates@.len() as int) =~= candidates@);
        let sel = selection(candidates@);
        assert(sel == selection(candidates@.take(i as int)));
        assert forall|k: int| 0 <= k < r@.len() implies {
            let e = #[trigger] sel[k];
            let c = candidates@[e.2];
            &&& 0 <= e.2 < candidates@.len()
            &&& r@[k].name@ == e.0
            &&& r@[k].description@ == e.1
            &&& r@[k].path@ == c.path@
            &&& r@[k].source == c.source
            &&& c.contents matches Some(t) && r@[k].contents@ == t@
        } by {
            assert(sel[k] == selection(candidates@.take(i as int))[k]);
        }
    }
    r
}

/// No two selected skills share a name.
pub proof fn lemma_selection_names_distinct(cs: Seq<SkillCandidate>)
    ensures
        forall|a: int, b: int|
            0 <= a < b < selection(cs).len() ==> (#[trigger] selection(cs)[a]).0 != (#[trigger] selection(cs)[b]).0,
    decreases cs.len(),
{
    if cs.len() > 0 {
        lemma_selection_names_distinct(cs.drop_last());
        let prev = selection(cs.drop_last());
        match accepted(cs.last()) {
            None => {},
            Some(x) => {
                if !(exists|j: int| 0 <= j < prev.len() && (#[trigger] prev[j]).0 == x.0) {
                    let sel = prev.push((x.0, x.1, cs.len() - 1));
                    assert(selection(cs) == sel);
                    assert forall|a: int, b: int| 0 <= a < b < sel.len() implies (#[trigger] sel[a]).0 != (#[trigger] sel[b]).0 by {
                        assert(sel[a] == prev[a]);
                        if b < prev.len() {
                            assert(sel[b] == prev[b]);
                        }
                    }
                }
            },
        }
    }
}

} // verus!
