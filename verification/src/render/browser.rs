//! Renderer selection: which executable captures slides, under which
//! isolation, and the identity that separates its cache entries.
use crate::digest::{hex_digit, hex_lower, le_bytes, lemma_hex_lower, push_hex, push_le, sha256, sha256_digest};
use crate::path::{components, has_parent_dir, has_parent_dir_of, is_absolute, join, join_path, path_eq, paths_equal, same_parent, same_parent_of};
use crate::text::{chars_of, decimal, extend_chars, push_decimal, string_of};
use vstd::prelude::*;
use vstd::utf8::encode_utf8;

verus! {

broadcast use vstd::string::group_string_axioms;

/// Chromium-family executables looked for on `PATH`, in order of preference.
pub const CHROMIUM_CANDIDATES: [&'static str; 7] = [
    "google-chrome-stable",
    "google-chrome",
    "chromium",
    "chromium-browser",
    "brave-browser",
    "microsoft-edge-stable",
    "microsoft-edge",
];

/// Directories searched after those of `PATH`.
pub const FALLBACK_DIRECTORIES: [&'static str; 2] = ["/usr/bin", "/usr/local/bin"];

/// Prefix of the cache identity of the embedded Obscura worker.
pub const OBSCURA_IDENTITY_PREFIX: &'static str = "obscura-embedded-a1e09de6-isolated-v3-";

/// Prefix of the cache identity of a Chromium executable.
pub const CHROMIUM_IDENTITY_PREFIX: &'static str = "chromium-v1-";

/// The isolation tool that runs the embedded worker.
#[derive(Clone, Debug, PartialEq, Eq)]
pub struct Sandbox {
    pub executable: String,
}

/// The capture engine and, for Obscura, its isolation.
#[derive(Clone, Debug, PartialEq, Eq)]
pub enum Engine {
    Chromium,
    Obscura(Sandbox),
}

/// A renderer: its executable, engine and cache identity.
#[derive(Clone, Debug, PartialEq, Eq)]
pub struct Browser {
    pub executable: String,
    pub engine: Engine,
    pub cache_identity: String,
}

/// Output of a capture process, kept for diagnostics.
#[derive(Clone, Debug)]
pub struct CaptureDiagnostics {
    pub stderr: String,
    pub stdout: String,
}

/// What the file system says about an executable path: its canonical path,
/// whether it is a regular file, its permission bits, and the metadata that
/// changes when it is replaced or rewritten.
#[derive(Clone, Debug)]
pub struct ExecutableFile {
    pub canonical_path: String,
    pub is_file: bool,
    pub mode: u32,
    pub dev: u64,
    pub ino: u64,
    pub size: u64,
    pub mtime: i64,
    pub mtime_nsec: i64,
    pub ctime: i64,
    pub ctime_nsec: i64,
}

/// Why a renderer could not be used.
#[derive(Clone, Copy, Debug, PartialEq, Eq, Structural)]
pub enum BrowserError {
    /// The renderer path is not absolute.
    NotAbsolute,
    /// The path could not be inspected.
    Uninspectable,
    /// The path is not a regular file with an execute bit.
    NotExecutable,
    /// No Chromium-family browser was found.
    NotFound,
    /// A capture path is relative or has a `..` component.
    UnsafeCapturePath,
    /// A capture path holds a NUL character.
    NulInCapturePath,
    /// The capture HTML has no parent directory.
    NoCaptureDirectory,
    /// The capture HTML, screenshot and profile are not distinct siblings.
    CapturePathsNotSiblings,
}

/// An optional borrowed inspection result as a value.
pub open spec fn owned(f: Option<&ExecutableFile>) -> Option<ExecutableFile> {
    match f {
        Some(x) => Some(*x),
        None => None,
    }
}

/// The verdict on an executable path given what inspecting it returned.
pub open spec fn executable_verdict(path: Seq<char>, file: Option<ExecutableFile>) -> Result<Seq<char>, BrowserError> {
    if !is_absolute(path) {
        Err(BrowserError::NotAbsolute)
    } else {
        match file {
            None => Err(BrowserError::Uninspectable),
            Some(f) => if !f.is_file || f.mode & 0o111 == 0 {
                Err(BrowserError::NotExecutable)
            } else {
                Ok(f.canonical_path@)
            },
        }
    }
}

/// An executable must be an absolute path to a regular file with an
/// execute bit; its canonical path is used.
pub fn validate_executable(path: &str, file: Option<&ExecutableFile>) -> (r: Result<String, BrowserError>)
    ensures
        match r {
            Ok(p) => executable_verdict(path@, owned(file)) == Ok::<Seq<char>, BrowserError>(p@),
            Err(e) => executable_verdict(path@, owned(file)) == Err::<Seq<char>, BrowserError>(e),
        },
{
    let v = chars_of(path);
    if !(v.len() > 0 && v[0] == '/') {
        return Err(BrowserError::NotAbsolute);
    }
    match file {
        None => Err(BrowserError::Uninspectable),
        Some(f) => if !f.is_file || f.mode & 0o111 == 0 {
            Err(BrowserError::NotExecutable)
        } else {
            Ok(f.canonical_path.clone())
        },
    }
}

/// The bytes the identity of an executable is computed over: its path, a
/// NUL, then device, inode, size, modification and change times, each as
/// 8 little-endian bytes.
pub open spec fn identity_material(f: ExecutableFile) -> Seq<u8> {
    encode_utf8(f.canonical_path@) + seq![0u8] + le_bytes(f.dev as nat, 8) + le_bytes(f.ino as nat, 8)
        + le_bytes(f.size as nat, 8) + le_bytes((f.mtime as u64) as nat, 8) + le_bytes((f.mtime_nsec as u64) as nat, 8)
        + le_bytes((f.ctime as u64) as nat, 8) + le_bytes((f.ctime_nsec as u64) as nat, 8)
}

/// The installation identity of an executable: the SHA-256 of its path and
/// file metadata, in lower-case hex. Replacing or rewriting the file changes
/// it without hashing the executable's contents.
pub fn executable_identity(f: &ExecutableFile) -> (r: String)
    ensures
        r@ == hex_lower(sha256(identity_material(*f))),
{
    let mut m: Vec<u8> = Vec::new();
    m.extend_from_slice(f.canonical_path.as_str().as_bytes());
    m.push(0u8);
    push_le(&mut m, f.dev, 8);
    push_le(&mut m, f.ino, 8);
    push_le(&mut m, f.size, 8);
    push_le(&mut m, f.mtime as u64, 8);
    push_le(&mut m, f.mtime_nsec as u64, 8);
    push_le(&mut m, f.ctime as u64, 8);
    push_le(&mut m, f.ctime_nsec as u64, 8);
    assert(m@ =~= identity_material(*f));
    let d = sha256_digest(&m);
    let mut out: Vec<char> = Vec::new();
    push_hex(&mut out, &d);
    proof {
        lemma_hex_lower(d@);
        assert(Seq::<char>::empty() + hex_lower(d@) =~= hex_lower(d@));
    }
    string_of(&out)
}

impl Browser {
    /// A Chromium renderer at `path`, inspected as `file`; its cache identity
    /// is `chromium-v1-` and the executable's identity.
    pub fn from_path(path: &str, file: Option<&ExecutableFile>) -> (r: Result<Browser, BrowserError>)
        ensures
            match r {
                Ok(b) => {
                    &&& executable_verdict(path@, owned(file)) == Ok::<Seq<char>, BrowserError>(b.executable@)
                    &&& b.engine == Engine::Chromium
                    &&& file matches Some(f) && b.cache_identity@ == CHROMIUM_IDENTITY_PREFIX@ + hex_lower(sha256(identity_material(*f)))
                },
                Err(e) => executable_verdict(path@, owned(file)) == Err::<Seq<char>, BrowserError>(e),
            },
    {
        let executable = match validate_executable(path, file) {
            Ok(p) => p,
            Err(e) => {
                return Err(e);
            },
        };
        let f = match file {
            Some(f) => f,
            None => {
                return Err(BrowserError::Uninspectable);
            },
        };
        let id = executable_identity(f);
        let mut c: Vec<char> = Vec::new();
        extend_chars(&mut c, CHROMIUM_IDENTITY_PREFIX);
        extend_chars(&mut c, id.as_str());
        Ok(Browser { executable, engine: Engine::Chromium, cache_identity: string_of(&c) })
    }

    /// The embedded Obscura worker in `executable` (inspected as `file`),
    /// isolated by `sandbox` (whose executable was inspected as
    /// `sandbox_file`). The cache identity covers the adapter policy and both
    /// executables' identities.
    pub fn with_embedded_worker(
        executable: &str,
        file: Option<&ExecutableFile>,
        sandbox: Sandbox,
        sandbox_file: &ExecutableFile,
    ) -> (r: Result<Browser, BrowserError>)
        ensures
            match r {
                Ok(b) => {
                    &&& executable_verdict(executable@, owned(file)) == Ok::<Seq<char>, BrowserError>(b.executable@)
                    &&& b.engine == Engine::Obscura(sandbox)
                    &&& file matches Some(f) && b.cache_identity@ == OBSCURA_IDENTITY_PREFIX@ + hex_lower(sha256(identity_material(*f))) + seq!['-']
                        + hex_lower(sha256(identity_material(*sandbox_file)))
                },
                Err(e) => executable_verdict(executable@, owned(file)) == Err::<Seq<char>, BrowserError>(e),
            },
    {
        let path = match validate_executable(executable, file) {
            Ok(p) => p,
            Err(e) => {
                return Err(e);
            },
        };
        let f = match file {
            Some(f) => f,
            None => {
                return Err(BrowserError::Uninspectable);
            },
        };
        let a = executable_identity(f);
        let b = executable_identity(sandbox_file);
        let mut c: Vec<char> = Vec::new();
        extend_chars(&mut c, OBSCURA_IDENTITY_PREFIX);
        extend_chars(&mut c, a.as_str());
        c.push('-');
        extend_chars(&mut c, b.as_str());
        Ok(Browser { executable: path, engine: Engine::Obscura(sandbox), cache_identity: string_of(&c) })
    }

    /// The executable that captures slides.
    pub fn executable(&self) -> (r: &str)
        ensures
            r@ == self.executable@,
    {
        self.executable.as_str()
    }

    /// The identity that separates this renderer's cache entries: adapter
    /// policy and executable installation, not just the engine name.
    pub fn cache_identity(&self) -> (r: &str)
        ensures
            r@ == self.cache_identity@,
    {
        self.cache_identity.as_str()
    }
}

/// The directories searched for Chromium: those of `PATH`, then the fallbacks.
pub open spec fn search_directories(path_dirs: Seq<Seq<char>>) -> Seq<Seq<char>> {
    path_dirs + seq!["/usr/bin"@, "/usr/local/bin"@]
}

/// The paths tried for Chromium, candidate by candidate, each in every
/// search directory.
pub open spec fn chromium_search_paths(path_dirs: Seq<Seq<char>>) -> Seq<Seq<char>> {
    let ds = search_directories(path_dirs);
    Seq::new(7 * ds.len(), |i: int| join(ds[i % ds.len() as int], CHROMIUM_CANDIDATES@[i / ds.len() as int]@))
}

/// The texts of a sequence of strings.
pub open spec fn texts_of(s: Seq<String>) -> Seq<Seq<char>> {
    s.map_values(|x: String| x@)
}

/// The paths tried for Chromium, in order (see `chromium_search_paths`).
pub fn chromium_search_list(path_dirs: &Vec<String>) -> (r: Vec<String>)
    requires
        path_dirs@.len() + 2 <= usize::MAX / 8,
    ensures
        texts_of(r@) == chromium_search_paths(texts_of(path_dirs@)),
{
    let mut dirs: Vec<String> = Vec::new();
    let mut k: usize = 0;
    while k < path_dirs.len()
        invariant
            k <= path_dirs@.len(),
            texts_of(dirs@) == texts_of(path_dirs@).take(k as int),
        decreases path_dirs.len() - k,
    {
        let ghost before = dirs@;
        dirs.push(path_dirs[k].clone());
        assert(texts_of(dirs@) =~= texts_of(path_dirs@).take(k + 1)) by {
            assert(texts_of(dirs@) =~= texts_of(before).push(path_dirs@[k as int]@));
        }
        k += 1;
    }
    let ghost mid = dirs@;
    dirs.push("/usr/bin".to_owned());
    dirs.push("/usr/local/bin".to_owned());
    let ghost ds = search_directories(texts_of(path_dirs@));
    assert(texts_of(dirs@) =~= ds) by {
        assert(texts_of(path_dirs@).take(path_dirs@.len() as int) =~= texts_of(path_dirs@));
        assert(texts_of(dirs@) =~= texts_of(mid).push("/usr/bin"@).push("/usr/local/bin"@));
    }
    let n = dirs.len();
    let mut r: Vec<String> = Vec::new();
    let mut c: usize = 0;
    while c < 7
        invariant
            c <= 7,
            n == dirs@.len() == ds.len(),
            n >= 2,
            n <= usize::MAX / 8,
            texts_of(dirs@) == ds,
            texts_of(r@) =~= Seq::new((c * n) as nat, |i: int| join(ds[i % n as int], CHROMIUM_CANDIDATES@[i / n as int]@)),
        decreases 7 - c,
    {
        let name: &str = CHROMIUM_CANDIDATES[c];
        let mut d: usize = 0;
        while d < n
            invariant
                c < 7,
                d <= n,
                n == dirs@.len() == ds.len(),
                n >= 2,
                n <= usize::MAX / 8,
                texts_of(dirs@) == ds,
                name@ == CHROMIUM_CANDIDATES@[c as int]@,
                texts_of(r@) =~= Seq::new((c * n + d) as nat, |i: int| join(ds[i % n as int], CHROMIUM_CANDIDATES@[i / n as int]@)),
            decreases n - d,
        {
            let ghost before = r@;
            let p = join_path(dirs[d].as_str(), name);
            r.push(p);
            proof {
                let i = c * n + d;
                assert(i % n as int == d) by (nonlinear_arith)
                    requires i == c * n + d, 0 <= d < n;
                assert(i / n as int == c) by (nonlinear_arith)
                    requires i == c * n + d, 0 <= d < n;
                assert(ds[d as int] == dirs@[d as int]@);
                assert(texts_of(r@) =~= texts_of(before).push(join(ds[d as int], CHROMIUM_CANDIDATES@[c as int]@)));
            }
            d += 1;
        }
        assert(c * n + n == (c + 1) * n) by (nonlinear_arith);
        c += 1;
    }
    r
}

/// The Chromium executable chosen: a configured path other than `auto` is
/// authoritative; otherwise the first search path that is a valid executable.
pub open spec fn chromium_choice(
    configured: Option<Seq<char>>,
    configured_file: Option<ExecutableFile>,
    search: Seq<(Seq<char>, Option<ExecutableFile>)>,
) -> Option<(Seq<char>, Option<ExecutableFile>)> {
    match configured {
        Some(p) if !path_eq(p, "auto"@) => Some((p, configured_file)),
        _ => first_valid(search, 0),
    }
}

/// The first of `search[k..]` whose inspection makes it a valid executable.
pub open spec fn first_valid(search: Seq<(Seq<char>, Option<ExecutableFile>)>, k: int) -> Option<(Seq<char>, Option<ExecutableFile>)>
    decreases search.len() - k,
{
    if k < 0 || k >= search.len() {
        None
    } else if executable_verdict(search[k].0, search[k].1) is Ok {
        Some(search[k])
    } else {
        first_valid(search, k + 1)
    }
}

/// A search path and what inspecting it returned, as plain values.
pub open spec fn probe_view(p: (String, Option<ExecutableFile>)) -> (Seq<char>, Option<ExecutableFile>) {
    (p.0@, p.1)
}

impl Browser {
    /// A Chromium renderer: the configured path when it is not `auto`,
    /// otherwise the first valid executable among `search` (see
    /// `chromium_search_list`), or `NotFound`.
    pub fn probe_chromium(
        configured: Option<&str>,
        configured_file: Option<&ExecutableFile>,
        search: &Vec<(String, Option<ExecutableFile>)>,
    ) -> (r: Result<Browser, BrowserError>)
        ensures
            ({
                let choice = chromium_choice(
                    match configured { Some(c) => Some(c@), None => None },
                    owned(configured_file),
                    search@.map_values(|p: (String, Option<ExecutableFile>)| probe_view(p)),
                );
                match choice {
                    None => r == Err::<Browser, BrowserError>(BrowserError::NotFound),
                    Some(c) => match r {
                        Ok(b) => {
                            &&& executable_verdict(c.0, c.1) == Ok::<Seq<char>, BrowserError>(b.executable@)
                            &&& b.engine == Engine::Chromium
                            &&& c.1 matches Some(f) && b.cache_identity@ == CHROMIUM_IDENTITY_PREFIX@ + hex_lower(sha256(identity_material(f)))
                        },
                        Err(e) => executable_verdict(c.0, c.1) == Err::<Seq<char>, BrowserError>(e),
                    },
                }
            }),
    {
        match configured {
            Some(p) => {
                if !paths_equal(p, "auto") {
                    return Browser::from_path(p, configured_file);
                }
            },
            None => {},
        }
        let ghost sv = search@.map_values(|p: (String, Option<ExecutableFile>)| probe_view(p));
        let mut k: usize = 0;
        while k < search.len()
            invariant
                k <= search@.len(),
                sv == search@.map_values(|p: (String, Option<ExecutableFile>)| probe_view(p)),
                first_valid(sv, 0) == first_valid(sv, k as int),
                match configured {
                    Some(c) => path_eq(c@, "auto"@),
                    None => true,
                },
            decreases search.len() - k,
        {
            let (p, f) = &search[k];
            assert(sv[k as int] == probe_view(search@[k as int]));
            let opt = match f {
                Some(x) => Some(x),
                None => None,
            };
            assert(owned(opt) == sv[k as int].1);
            if validate_executable(p.as_str(), opt).is_ok() {
                return Browser::from_path(p.as_str(), opt);
            }
            k += 1;
        }
        Err(BrowserError::NotFound)
    }
}

/// A capture path must be absolute without `..` components, and hold no NUL.
pub open spec fn capture_path_verdict(p: Seq<char>) -> Result<(), BrowserError> {
    if !is_absolute(p) || has_parent_dir(p) {
        Err(BrowserError::UnsafeCapturePath)
    } else if p.contains('\0') {
        Err(BrowserError::NulInCapturePath)
    } else {
        Ok(())
    }
}

/// See `capture_path_verdict`.
pub fn validate_capture_path(path: &str) -> (r: Result<(), BrowserError>)
    ensures
        r == capture_path_verdict(path@),
{
    let v = chars_of(path);
    if !(v.len() > 0 && v[0] == '/') || has_parent_dir_of(path) {
        return Err(BrowserError::UnsafeCapturePath);
    }
    let mut i: usize = 0;
    while i < v.len()
        invariant
            i <= v@.len(),
            v@ == path@,
            is_absolute(path@),
            !has_parent_dir(path@),
            forall|q: int| 0 <= q < i ==> v@[q] != '\0',
        decreases v.len() - i,
    {
        if v[i] == '\0' {
            assert(path@[i as int] == '\0');
            return Err(BrowserError::NulInCapturePath);
        }
        i += 1;
    }
    assert(!path@.contains('\0'));
    Ok(())
}

/// A byte kept as is in a `file://` URL path: ASCII letters, digits and `/ - _ . ~`.
pub open spec fn is_url_safe(b: u8) -> bool {
    (97 <= b && b <= 122) || (65 <= b && b <= 90) || (48 <= b && b <= 57) || b == 47 || b == 45
        || b == 95 || b == 46 || b == 126
}

/// Upper-case hexadecimal digit of a value below 16.
pub open spec fn hex_upper(v: u8) -> char {
    if v < 10 {
        ((v as u32) + 48) as char
    } else {
        ((v as u32) + 55) as char
    }
}

/// The URL form of one byte.
pub open spec fn percent_byte(b: u8) -> Seq<char> {
    if is_url_safe(b) {
        seq![b as char]
    } else {
        seq!['%', hex_upper(b / 16), hex_upper(b % 16)]
    }
}

/// The URL form of a byte string.
pub open spec fn percent_encoded(bs: Seq<u8>) -> Seq<char>
    decreases bs.len(),
{
    if bs.len() == 0 {
        Seq::empty()
    } else {
        percent_encoded(bs.drop_last()) + percent_byte(bs.last())
    }
}

fn hex_upper_char(v: u8) -> (c: char)
    requires
        v < 16,
    ensures
        c == hex_upper(v),
{
    if v < 10 {
        ((v + 48) as char)
    } else {
        ((v + 55) as char)
    }
}

/// The path of a `file://` URL: every UTF-8 byte other than ASCII letters,
/// digits and `/ - _ . ~` written as `%XX` in upper-case hex.
pub fn percent_encode_path(path: &str) -> (r: String)
    ensures
        r@ == percent_encoded(encode_utf8(path@)),
{
    let bytes = path.as_bytes();
    let mut out: Vec<char> = Vec::new();
    let mut i: usize = 0;
    while i < bytes.len()
        invariant
            i <= bytes@.len(),
            bytes@ == encode_utf8(path@),
            out@ == percent_encoded(bytes@.take(i as int)),
        decreases bytes.len() - i,
    {
        let b = bytes[i];
        assert(bytes@.take(i + 1).drop_last() =~= bytes@.take(i as int));
        assert(bytes@.take(i + 1).last() == b);
        if (97 <= b && b <= 122) || (65 <= b && b <= 90) || (48 <= b && b <= 57) || b == 47 || b == 45
            || b == 95 || b == 46 || b == 126 {
            out.push(b as char);
        } else {
            out.push('%');
            out.push(hex_upper_char(b / 16));
            out.push(hex_upper_char(b % 16));
        }
        i += 1;
    }
    assert(bytes@.take(bytes@.len() as int) =~= bytes@);
    string_of(&out)
}

/// Where a capture reads and writes: each path valid on its own, then the
/// HTML, screenshot and browser profile distinct entries of one directory.
pub open spec fn capture_layout_verdict(html: Seq<char>, output: Seq<char>, profile: Seq<char>) -> Result<(), BrowserError> {
    if capture_path_verdict(html) is Err {
        capture_path_verdict(html)
    } else if capture_path_verdict(output) is Err {
        capture_path_verdict(output)
    } else if capture_path_verdict(profile) is Err {
        capture_path_verdict(profile)
    } else if components(html).len() < 2 {
        Err(BrowserError::NoCaptureDirectory)
    } else if !same_parent(output, html) || !same_parent(profile, html) || path_eq(html, output) || path_eq(
        html,
        profile,
    ) || path_eq(output, profile) {
        Err(BrowserError::CapturePathsNotSiblings)
    } else {
        Ok(())
    }
}

/// See `capture_layout_verdict`.
pub fn check_capture_layout(html: &str, output: &str, profile: &str) -> (r: Result<(), BrowserError>)
    ensures
        r == capture_layout_verdict(html@, output@, profile@),
{
    validate_capture_path(html)?;
    validate_capture_path(output)?;
    validate_capture_path(profile)?;
    let hv = chars_of(html);
    let hc = crate::path::component_ranges(&hv);
    if hc.len() < 2 {
        return Err(BrowserError::NoCaptureDirectory);
    }
    if !same_parent_of(output, html) || !same_parent_of(profile, html) || paths_equal(html, output) || paths_equal(
        html,
        profile,
    ) || paths_equal(output, profile) {
        return Err(BrowserError::CapturePathsNotSiblings);
    }
    Ok(())
}

/// Chromium switches that do not depend on the capture.
pub const CHROMIUM_FIXED_ARGS: [&'static str; 13] = [
    "--headless=new",
    "--hide-scrollbars",
    "--disable-background-networking",
    "--disable-component-update",
    "--disable-default-apps",
    "--disable-domain-reliability",
    "--disable-features=Translate,MediaRouter,OptimizationHints,AutofillServerCommunication",
    "--disable-sync",
    "--metrics-recording-only",
    "--no-first-run",
    "--no-pings",
    "--password-store=basic",
    "--use-mock-keychain",
];

/// The arguments of a headless Chromium screenshot: the fixed switches (no
/// `--no-sandbox`, no debugging interface), the private profile, window size,
/// scale and time budget, the screenshot path, `--disable-gpu` on macOS, and
/// last the `file://` URL of the capture HTML.
pub open spec fn chromium_args_of(
    html: Seq<char>,
    output: Seq<char>,
    profile: Seq<char>,
    width: u32,
    height: u32,
    scale: Seq<char>,
    timeout_millis: u64,
    macos: bool,
) -> Seq<Seq<char>> {
    Seq::new(13, |i: int| CHROMIUM_FIXED_ARGS@[i]@) + seq![
        "--user-data-dir="@ + profile,
        "--window-size="@ + decimal(width as nat) + ","@ + decimal(height as nat),
        "--force-device-scale-factor="@ + scale,
        "--virtual-time-budget="@ + decimal(timeout_millis as nat),
        "--screenshot="@ + output,
    ] + (if macos {
        seq!["--disable-gpu"@]
    } else {
        Seq::empty()
    }) + seq!["file://"@ + percent_encoded(encode_utf8(html))]
}

fn arg_of(parts: &Vec<char>) -> (s: String)
    ensures
        s@ == parts@,
{
    string_of(parts)
}

/// See `chromium_args_of`; `scale` is the decimal device scale factor.
pub fn chromium_capture_args(
    html: &str,
    output: &str,
    profile: &str,
    width: u32,
    height: u32,
    scale: &str,
    timeout_millis: u64,
    macos: bool,
) -> (r: Vec<String>)
    ensures
        texts_of(r@) == chromium_args_of(html@, output@, profile@, width, height, scale@, timeout_millis, macos),
{
    let ghost expected = chromium_args_of(html@, output@, profile@, width, height, scale@, timeout_millis, macos);
    let mut r: Vec<String> = Vec::new();
    let mut i: usize = 0;
    while i < 13
        invariant
            i <= 13,
            texts_of(r@) == Seq::new(i as nat, |k: int| CHROMIUM_FIXED_ARGS@[k]@),
        decreases 13 - i,
    {
        let ghost before = r@;
        let mut f: Vec<char> = Vec::new();
        extend_chars(&mut f, CHROMIUM_FIXED_ARGS[i]);
        r.push(arg_of(&f));
        assert(texts_of(r@) =~= texts_of(before).push(CHROMIUM_FIXED_ARGS@[i as int]@));
        i += 1;
        assert(texts_of(r@) =~= Seq::new(i as nat, |k: int| CHROMIUM_FIXED_ARGS@[k]@));
    }
    let ghost fixed = r@;
    let mut a: Vec<char> = Vec::new();
    extend_chars(&mut a, "--user-data-dir=");
    extend_chars(&mut a, profile);
    r.push(arg_of(&a));
    let mut b: Vec<char> = Vec::new();
    extend_chars(&mut b, "--window-size=");
    push_decimal(&mut b, width as u64);
    extend_chars(&mut b, ",");
    push_decimal(&mut b, height as u64);
    r.push(arg_of(&b));
    let mut c: Vec<char> = Vec::new();
    extend_chars(&mut c, "--force-device-scale-factor=");
    extend_chars(&mut c, scale);
    r.push(arg_of(&c));
    let mut d: Vec<char> = Vec::new();
    extend_chars(&mut d, "--virtual-time-budget=");
    push_decimal(&mut d, timeout_millis);
    r.push(arg_of(&d));
    let mut e: Vec<char> = Vec::new();
    extend_chars(&mut e, "--screenshot=");
    extend_chars(&mut e, output);
    r.push(arg_of(&e));
    if macos {
        let mut g: Vec<char> = Vec::new();
        extend_chars(&mut g, "--disable-gpu");
        r.push(arg_of(&g));
    }
    let ghost before_url = r@;
    let mut u: Vec<char> = Vec::new();
    extend_chars(&mut u, "file://");
    let encoded = percent_encode_path(html);
    extend_chars(&mut u, encoded.as_str());
    r.push(arg_of(&u));
    assert(texts_of(r@) =~= texts_of(before_url).push("file://"@ + percent_encoded(encode_utf8(html@))));
    assert(texts_of(before_url) =~= texts_of(fixed) + seq![
        "--user-data-dir="@ + profile@,
        "--window-size="@ + decimal(width as nat) + ","@ + decimal(height as nat),
        "--force-device-scale-factor="@ + scale@,
        "--virtual-time-budget="@ + decimal(timeout_millis as nat),
        "--screenshot="@ + output@,
    ] + (if macos {
        seq!["--disable-gpu"@]
    } else {
        Seq::empty()
    }));
    assert(texts_of(r@) =~= expected);
    r
}

/// Where macOS keeps `sandbox-exec`.
pub const SANDBOX_EXEC: &'static str = "/usr/bin/sandbox-exec";

/// The isolation tool to inspect: `sandbox-exec` for `auto`, else the configured path.
pub open spec fn sandbox_path_of(configured: Seq<char>) -> Seq<char> {
    if configured == "auto"@ {
        SANDBOX_EXEC@
    } else {
        configured
    }
}

/// See `sandbox_path_of`.
pub fn sandbox_path(configured: &str) -> (r: &str)
    ensures
        r@ == sandbox_path_of(configured@),
{
    let v = chars_of(configured);
    if crate::text::eq_str(&v, "auto") {
        SANDBOX_EXEC
    } else {
        configured
    }
}

impl Sandbox {
    /// The isolation tool at `path` (see `sandbox_path`), inspected as
    /// `file`: it must be an executable, and its canonical path is kept.
    pub fn probe(path: &str, file: Option<&ExecutableFile>) -> (r: Result<Sandbox, BrowserError>)
        ensures
            match r {
                Ok(s) => executable_verdict(path@, owned(file)) == Ok::<Seq<char>, BrowserError>(s.executable@),
                Err(e) => executable_verdict(path@, owned(file)) == Err::<Seq<char>, BrowserError>(e),
            },
    {
        let executable = validate_executable(path, file)?;
        Ok(Sandbox { executable })
    }
}

} // verus!
