//! Application directories, project keys and `~` expansion.
use crate::digest::{hex_lower, lemma_hex_lower, push_hex, sha256, sha256_digest, is_lower_hex_char};
use crate::path::{components, join, join_path, component_ranges};
use crate::text::{chars_of, contains, string_of};
use vstd::prelude::*;

verus! {

broadcast use vstd::string::group_string_axioms;

/// The application's name, used for its directories.
pub const APP_NAME: &'static str = "slide-builder";

/// Why a path could not be computed.
#[derive(Clone, Copy, Debug, PartialEq, Eq, Structural)]
pub enum PathError {
    /// `~` needs a home directory and none is known.
    HomeUnavailable,
    /// A project path must not be empty.
    EmptyProjectPath,
    /// The user's configuration and data directories could not be determined.
    DirectoriesUnavailable,
}

/// Whether an application name is made of lower-case ASCII letters, digits
/// and `-` only, and is not empty: such a name is the project path fragment
/// that `directories` uses for it on every platform.
pub open spec fn is_plain_project_name(name: Seq<char>) -> bool {
    &&& name.len() > 0
    &&& forall|i: int| 0 <= i < name.len() ==> {
        let c = #[trigger] name[i];
        ('a' <= c <= 'z') || ('0' <= c <= '9') || c == '-'
    }
}

/// `directories::ProjectDirs::from("", "", application)`: the configuration
/// and data directories of an application, taken from the environment;
/// `None` when no home directory is known. Which directories come back is
/// left unsaid (it rests on the platform and the environment). For a plain
/// name, both are a base directory joined with a path that holds the name
/// as it is (the platform's `project_dirs_from` and `project_dirs_from_path`),
/// so the name occurs in both.
#[verifier::external_body]
fn project_dirs(application: &str) -> (r: Option<(String, String)>)
    ensures
        match r {
            Some((config, data)) => is_plain_project_name(application@) ==> contains(config@, application@)
                && contains(data@, application@),
            None => true,
        },
{
    match directories::ProjectDirs::from("", "", application) {
        Some(d) => Some((d.config_dir().to_string_lossy().into_owned(), d.data_dir().to_string_lossy().into_owned())),
        None => None,
    }
}

/// The user's home directory (`directories::BaseDirs::new()` and its
/// `home_dir`), taken from the environment; `None` when unknown. Nothing is
/// promised of the path.
#[verifier::external_body]
pub fn home_dir() -> (r: Option<String>) {
    match directories::BaseDirs::new() {
        Some(d) => Some(d.home_dir().to_string_lossy().into_owned()),
        None => None,
    }
}

/// Configuration and data roots of the application.
#[derive(Clone, Debug, PartialEq, Eq)]
pub struct AppPaths {
    pub config_dir: String,
    pub data_dir: String,
}

/// The project key of a normalized project path: the first 8 bytes of the
/// SHA-256 of its UTF-8 bytes, as 16 lower-case hex digits.
pub open spec fn project_key_of(normalized: Seq<char>) -> Seq<char> {
    hex_lower(sha256(vstd::utf8::encode_utf8(normalized)).take(8))
}

/// Stable 16-character project identifier of an absolute, normalized project
/// path (the caller resolves a relative path against the current directory
/// and canonicalizes it where it exists).
pub fn project_key(normalized: &str) -> (r: Result<String, PathError>)
    ensures
        normalized@.len() == 0 <==> r is Err,
        r matches Err(e) ==> e == PathError::EmptyProjectPath,
        r matches Ok(k) ==> k@ == project_key_of(normalized@),
        r matches Ok(k) ==> k@.len() == 16 && forall|i: int| 0 <= i < 16 ==> is_lower_hex_char(#[trigger] k@[i]),
{
    if normalized.is_empty() {
        return Err(PathError::EmptyProjectPath);
    }
    let digest = sha256_digest(normalized.as_bytes());
    let mut first: Vec<u8> = Vec::new();
    let mut i: usize = 0;
    while i < 8
        invariant
            i <= 8,
            digest@.len() == 32,
            first@ == digest@.take(i as int),
        decreases 8 - i,
    {
        first.push(digest[i]);
        assert(digest@.take(i + 1) =~= digest@.take(i as int).push(digest@[i as int]));
        i += 1;
    }
    let mut out: Vec<char> = Vec::new();
    push_hex(&mut out, &first);
    proof {
        lemma_hex_lower(first@);
        assert(Seq::<char>::empty() + hex_lower(first@) =~= hex_lower(first@));
    }
    Ok(string_of(&out))
}

impl AppPaths {
    /// The platform's configuration and data directories for this application.
    pub fn discover() -> (r: Result<AppPaths, PathError>)
        ensures
            r matches Err(e) ==> e == PathError::DirectoriesUnavailable,
            r matches Ok(p) ==> contains(p.config_dir@, APP_NAME@) && contains(p.data_dir@, APP_NAME@),
    {
        proof {
            reveal_strlit("slide-builder");
            assert(is_plain_project_name(APP_NAME@));
        }
        match project_dirs(APP_NAME) {
            Some((config_dir, data_dir)) => Ok(AppPaths { config_dir, data_dir }),
            None => Err(PathError::DirectoriesUnavailable),
        }
    }

    /// Paths rooted at the given configuration and data directories.
    pub fn from_roots(config_dir: &str, data_dir: &str) -> (r: Self)
        ensures
            r.config_dir@ == config_dir@,
            r.data_dir@ == data_dir@,
    {
        AppPaths { config_dir: config_dir.to_owned(), data_dir: data_dir.to_owned() }
    }

    /// `config_dir/config.toml`.
    pub fn config_file(&self) -> (r: String)
        ensures
            r@ == join(self.config_dir@, "config.toml"@),
    {
        join_path(self.config_dir.as_str(), "config.toml")
    }

    /// `data_dir/projects`.
    pub fn projects_dir(&self) -> (r: String)
        ensures
            r@ == join(self.data_dir@, "projects"@),
    {
        join_path(self.data_dir.as_str(), "projects")
    }

    /// `data_dir/skills`.
    pub fn skills_dir(&self) -> (r: String)
        ensures
            r@ == join(self.data_dir@, "skills"@),
    {
        join_path(self.data_dir.as_str(), "skills")
    }

    /// `data_dir/projects/<project key>` for a normalized project path.
    pub fn project_dir(&self, cwd: &str) -> (r: Result<String, PathError>)
        ensures
            cwd@.len() == 0 <==> r is Err,
            r matches Ok(d) ==> d@ == join(join(self.data_dir@, "projects"@), project_key_of(cwd@)),
    {
        let key = match project_key(cwd) {
            Ok(key) => key,
            Err(e) => {
                return Err(e);
            },
        };
        let projects = self.projects_dir();
        Ok(join_path(projects.as_str(), key.as_str()))
    }

    /// The project's `project.toml`.
    pub fn project_file(&self, cwd: &str) -> (r: Result<String, PathError>)
        ensures
            cwd@.len() == 0 <==> r is Err,
            r matches Ok(d) ==> d@ == join(
                join(join(self.data_dir@, "projects"@), project_key_of(cwd@)),
                "project.toml"@,
            ),
    {
        match self.project_dir(cwd) {
            Ok(dir) => Ok(join_path(dir.as_str(), "project.toml")),
            Err(e) => Err(e),
        }
    }

    /// The project's `sessions` directory.
    pub fn sessions_dir(&self, cwd: &str) -> (r: Result<String, PathError>)
        ensures
            cwd@.len() == 0 <==> r is Err,
            r matches Ok(d) ==> d@ == join(
                join(join(self.data_dir@, "projects"@), project_key_of(cwd@)),
                "sessions"@,
            ),
    {
        match self.project_dir(cwd) {
            Ok(dir) => Ok(join_path(dir.as_str(), "sessions")),
            Err(e) => Err(e),
        }
    }

    /// The project's `render-cache` directory.
    pub fn render_cache_dir(&self, cwd: &str) -> (r: Result<String, PathError>)
        ensures
            cwd@.len() == 0 <==> r is Err,
            r matches Ok(d) ==> d@ == join(
                join(join(self.data_dir@, "projects"@), project_key_of(cwd@)),
                "render-cache"@,
            ),
    {
        match self.project_dir(cwd) {
            Ok(dir) => Ok(join_path(dir.as_str(), "render-cache")),
            Err(e) => Err(e),
        }
    }
}

/// `base` with each of `comps` pushed in turn (`PathBuf::extend`).
pub open spec fn push_all(base: Seq<char>, comps: Seq<Seq<char>>) -> Seq<char>
    decreases comps.len(),
{
    if comps.len() == 0 {
        base
    } else {
        join(push_all(base, comps.drop_last()), comps.last())
    }
}

/// The path leads with the component `~`.
pub open spec fn leads_with_tilde(path: Seq<char>) -> bool {
    components(path).len() > 0 && components(path)[0] == seq!['~']
}

/// `~` expansion: a path whose first component is `~` becomes `home` with the
/// remaining components pushed; any other path is unchanged.
pub open spec fn expand_tilde_of(path: Seq<char>, home: Option<Seq<char>>) -> Result<Seq<char>, PathError> {
    if leads_with_tilde(path) {
        match home {
            None => Err(PathError::HomeUnavailable),
            Some(h) => Ok(push_all(h, components(path).drop_first())),
        }
    } else {
        Ok(path)
    }
}

/// Expands a leading `~` component. Other uses of `~` are left untouched.
pub fn expand_tilde_with_home(path: &str, home: Option<&str>) -> (r: Result<String, PathError>)
    ensures
        match r {
            Ok(p) => expand_tilde_of(path@, match home { Some(h) => Some(h@), None => None }) == Ok::<Seq<char>, PathError>(p@),
            Err(e) => expand_tilde_of(path@, match home { Some(h) => Some(h@), None => None }) == Err::<Seq<char>, PathError>(e),
        },
{
    let v = chars_of(path);
    let cs = component_ranges(&v);
    let leads = cs.len() > 0 && cs[0].1 - cs[0].0 == 1 && v[cs[0].0] == '~';
    proof {
        if cs@.len() > 0 {
            let s = v@.subrange(cs@[0].0 as int, cs@[0].1 as int);
            if cs@[0].1 - cs@[0].0 == 1 {
                assert(s[0] == v@[cs@[0].0 as int]);
                if v@[cs@[0].0 as int] == '~' {
                    assert(s =~= seq!['~']);
                }
            } else {
                assert(s.len() != seq!['~'].len());
            }
        }
    }
    if !leads {
        return Ok(string_of(&v));
    }
    let h = match home {
        Some(h) => h,
        None => {
            return Err(PathError::HomeUnavailable);
        },
    };
    let ghost comps = components(v@);
    let mut out = h.to_owned();
    let mut k: usize = 1;
    assert(comps.drop_first().take(0) =~= Seq::<Seq<char>>::empty());
    while k < cs.len()
        invariant
            1 <= k <= cs@.len(),
            cs@.len() == comps.len(),
            forall|q: int|
                0 <= q < cs@.len() ==> {
                    &&& (#[trigger] cs@[q]).0 <= cs@[q].1 <= v@.len()
                    &&& v@.subrange(cs@[q].0 as int, cs@[q].1 as int) == comps[q]
                },
            out@ == push_all(h@, comps.drop_first().take(k - 1)),
        decreases cs.len() - k,
    {
        let (a, b) = cs[k];
        let c = crate::text::string_of_range(&v, a, b);
        out = join_path(out.as_str(), c.as_str());
        assert(comps.drop_first().take(k as int).drop_last() =~= comps.drop_first().take(k - 1));
        assert(comps.drop_first().take(k as int).last() == comps[k as int]);
        k += 1;
    }
    assert(comps.drop_first().take(k - 1) =~= comps.drop_first());
    Ok(out)
}

/// Expands a leading `~` component against the user's home directory. Other
/// uses of `~` are left untouched.
pub fn expand_tilde(path: &str) -> (r: Result<String, PathError>)
    ensures
        !leads_with_tilde(path@) ==> (r matches Ok(p) && p@ == path@),
        leads_with_tilde(path@) ==> match r {
            Ok(p) => exists|h: Seq<char>| #[trigger] push_all(h, components(path@).drop_first()) == p@,
            Err(e) => e == PathError::HomeUnavailable,
        },
{
    let home = home_dir();
    let r = match &home {
        Some(h) => expand_tilde_with_home(path, Some(h.as_str())),
        None => expand_tilde_with_home(path, None),
    };
    proof {
        if leads_with_tilde(path@) && home is Some && r is Ok {
            assert(push_all(home->0@, components(path@).drop_first()) == r->Ok_0@);
        }
    }
    r
}

} // verus!
