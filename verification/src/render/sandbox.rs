//! Linux isolation of the embedded renderer with bubblewrap: the renderer
//! sees its executable, read-only runtime libraries and fonts, one input file
//! and one writable output file, in fresh namespaces without network.
use crate::design::texts;
use crate::path::{join, join_path};
use vstd::prelude::*;

verus! {

broadcast use vstd::string::group_string_axioms;

/// Isolation options given to bubblewrap before any bind mount.
pub const ISOLATION_ARGS: [&'static str; 29] = [
    "--unshare-all",
    "--unshare-user",
    "--disable-userns",
    "--die-with-parent",
    "--new-session",
    "--cap-drop",
    "ALL",
    "--clearenv",
    "--proc",
    "/proc",
    "--dev",
    "/dev",
    "--tmpfs",
    "/tmp",
    "--dir",
    "/home/renderer",
    "--setenv",
    "HOME",
    "/home/renderer",
    "--setenv",
    "XDG_CACHE_HOME",
    "/tmp/cache",
    "--setenv",
    "LANG",
    "C.UTF-8",
    "--setenv",
    "PATH",
    "/app",
    "--chdir",
];

/// Working directory inside the sandbox (the argument of the last isolation option).
pub const SANDBOX_INPUT_DIR: &'static str = "/input";

/// Runtime libraries and fonts mounted read-only when they exist on the host.
pub const SYSTEM_PATHS: [&'static str; 10] = [
    "/usr/lib",
    "/usr/lib64",
    "/lib",
    "/lib64",
    "/etc/ld.so.cache",
    "/etc/fonts",
    "/usr/share/fonts",
    "/usr/local/share/fonts",
    "/usr/share/fontconfig",
    "/var/cache/fontconfig",
];

/// User font directories, relative to the home directory.
pub const USER_FONT_DIRS: [&'static str; 2] = [".fonts", ".local/share/fonts"];

/// Where the worker executable appears inside the sandbox.
pub const SANDBOX_WORKER: &'static str = "/app/slide-builder";

/// Where the capture document appears inside the sandbox.
pub const SANDBOX_INPUT: &'static str = "/input/capture.html";

/// Where the screenshot is written inside the sandbox.
pub const SANDBOX_OUTPUT: &'static str = "/output/capture.png";

/// The renderer home inside the sandbox.
pub const SANDBOX_HOME: &'static str = "/home/renderer";

/// The mounts of the system paths that exist, in order.
pub open spec fn system_mounts(present: Seq<bool>, k: int) -> Seq<Seq<char>>
    decreases k,
{
    if k <= 0 || k > 10 || k > present.len() {
        Seq::empty()
    } else {
        system_mounts(present, k - 1) + if present[k - 1] {
            seq!["--ro-bind"@, SYSTEM_PATHS@[k - 1]@, SYSTEM_PATHS@[k - 1]@]
        } else {
            Seq::empty()
        }
    }
}

/// The mounts of the user font directories that exist, in order.
pub open spec fn font_mounts(home: Option<Seq<char>>, present: Seq<bool>, k: int) -> Seq<Seq<char>>
    decreases k,
{
    match home {
        None => Seq::empty(),
        Some(h) => if k <= 0 || k > 2 || k > present.len() {
            Seq::empty()
        } else {
            font_mounts(home, present, k - 1) + if present[k - 1] {
                seq!["--ro-bind"@, join(h, USER_FONT_DIRS@[k - 1]@), join(SANDBOX_HOME@, USER_FONT_DIRS@[k - 1]@)]
            } else {
                Seq::empty()
            }
        },
    }
}

/// The bubblewrap arguments: isolation, read-only system and font mounts,
/// then the worker and input read-only and the output as the only writable
/// mount, and the worker as the command.
pub open spec fn bwrap_args(
    worker: Seq<char>,
    html: Seq<char>,
    output: Seq<char>,
    system_present: Seq<bool>,
    font_home: Option<Seq<char>>,
    fonts_present: Seq<bool>,
) -> Seq<Seq<char>> {
    ISOLATION_ARGS@.map_values(|a: &'static str| a@) + seq![SANDBOX_INPUT_DIR@] + system_mounts(system_present, 10)
        + font_mounts(font_home, fonts_present, 2) + seq![
        "--ro-bind"@,
        worker,
        SANDBOX_WORKER@,
        "--ro-bind"@,
        html,
        SANDBOX_INPUT@,
        "--bind"@,
        output,
        SANDBOX_OUTPUT@,
        "--"@,
        SANDBOX_WORKER@,
    ]
}

fn push_text(out: &mut Vec<String>, t: &str)
    ensures
        texts(final(out)@) == texts(old(out)@).push(t@),
{
    out.push(t.to_owned());
    assert(texts(out@) =~= texts(old(out)@).push(t@));
}

/// The bubblewrap arguments of one capture (see `bwrap_args`).
/// `system_present[i]` says whether `SYSTEM_PATHS[i]` exists; `fonts_present[i]`
/// whether `USER_FONT_DIRS[i]` is a directory under `font_home`. `html` and
/// `output` are the canonical host paths of the input and the freshly created
/// output file.
pub fn bwrap_arguments(
    worker: &str,
    html: &str,
    output: &str,
    system_present: &Vec<bool>,
    font_home: Option<&str>,
    fonts_present: &Vec<bool>,
) -> (r: Vec<String>)
    requires
        system_present@.len() == 10,
        fonts_present@.len() == 2,
    ensures
        texts(r@) == bwrap_args(
            worker@,
            html@,
            output@,
            system_present@,
            match font_home {
                Some(h) => Some(h@),
                None => None,
            },
            fonts_present@,
        ),
{
    let mut out: Vec<String> = Vec::new();
    let mut k: usize = 0;
    while k < 29
        invariant
            k <= 29,
            texts(out@) == ISOLATION_ARGS@.map_values(|a: &'static str| a@).take(k as int),
        decreases 29 - k,
    {
        let ghost before = out@;
        push_text(&mut out, ISOLATION_ARGS[k]);
        assert(ISOLATION_ARGS@.map_values(|a: &'static str| a@).take(k + 1) =~= ISOLATION_ARGS@.map_values(|a: &'static str| a@).take(k as int).push(ISOLATION_ARGS@[k as int]@));
        k += 1;
    }
    assert(ISOLATION_ARGS@.map_values(|a: &'static str| a@).take(29) =~= ISOLATION_ARGS@.map_values(|a: &'static str| a@));
    push_text(&mut out, SANDBOX_INPUT_DIR);
    let ghost base = texts(out@);
    let mut i: usize = 0;
    while i < 10
        invariant
            i <= 10,
            system_present@.len() == 10,
            texts(out@) == base + system_mounts(system_present@, i as int),
        decreases 10 - i,
    {
        if system_present[i] {
            let p: &str = SYSTEM_PATHS[i];
            push_text(&mut out, "--ro-bind");
            push_text(&mut out, p);
            push_text(&mut out, p);
        }
        assert(texts(out@) =~= base + system_mounts(system_present@, i + 1));
        i += 1;
    }
    let ghost base2 = texts(out@);
    let ghost home = match font_home {
        Some(h) => Some(h@),
        None => None::<Seq<char>>,
    };
    match font_home {
        Some(h) => {
            let mut j: usize = 0;
            while j < 2
                invariant
                    j <= 2,
                    fonts_present@.len() == 2,
                    home == Some(h@),
                    texts(out@) == base2 + font_mounts(home, fonts_present@, j as int),
                decreases 2 - j,
            {
                if fonts_present[j] {
                    let rel: &str = USER_FONT_DIRS[j];
                    let source = join_path(h, rel);
                    let target = join_path(SANDBOX_HOME, rel);
                    push_text(&mut out, "--ro-bind");
                    push_text(&mut out, source.as_str());
                    push_text(&mut out, target.as_str());
                }
                assert(texts(out@) =~= base2 + font_mounts(home, fonts_present@, j + 1));
                j += 1;
            }
        },
        None => {
            assert(texts(out@) =~= base2 + font_mounts(home, fonts_present@, 2));
        },
    }
    let ghost base3 = texts(out@);
    push_text(&mut out, "--ro-bind");
    push_text(&mut out, worker);
    push_text(&mut out, SANDBOX_WORKER);
    push_text(&mut out, "--ro-bind");
    push_text(&mut out, html);
    push_text(&mut out, SANDBOX_INPUT);
    push_text(&mut out, "--bind");
    push_text(&mut out, output);
    push_text(&mut out, SANDBOX_OUTPUT);
    push_text(&mut out, "--");
    push_text(&mut out, SANDBOX_WORKER);
    assert(texts(out@) =~= bwrap_args(worker@, html@, output@, system_present@, home, fonts_present@));
    out
}

} // verus!
