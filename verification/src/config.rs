//! Server configuration, shared request state, and the location of the
//! full-text tokenizer extension.

use vstd::prelude::*;

use crate::text::{concat, str_chars, str_eq};

verus! {

/// Where the server keeps its database and which address it binds.
#[derive(Debug, Clone)]
pub struct Config {
    pub db_path: String,
    pub bind: String,
}

/// State shared by every request handler: the connection pool, the bearer
/// token requests must carry (when one is configured), and the directory
/// the skill bundle is served from.
#[derive(Clone)]
pub struct AppState<P> {
    pub pool: P,
    pub bearer_token: Option<String>,
    pub skill_dir: Option<String>,
}

/// File name of the tokenizer extension on a target operating system (as
/// `std::env::consts::OS` names it).
pub open spec fn lib_filename_of(target_os: Seq<char>) -> Seq<char> {
    if target_os == "macos"@ {
        "libsimple.dylib"@
    } else if target_os == "windows"@ {
        "simple.dll"@
    } else {
        "libsimple.so"@
    }
}

/// File name of the tokenizer extension: `libsimple.dylib` on macOS,
/// `simple.dll` on Windows, `libsimple.so` elsewhere.
pub fn lib_filename(target_os: &str) -> (name: &'static str)
    ensures
        name@ == lib_filename_of(target_os@),
{
    if str_eq(target_os, "macos") {
        "libsimple.dylib"
    } else if str_eq(target_os, "windows") {
        "simple.dll"
    } else {
        "libsimple.so"
    }
}

/// `dir` joined with a file name: nothing in between when `dir` is empty or
/// already ends with `/`, one `/` otherwise.
pub open spec fn path_join(dir: Seq<char>, name: Seq<char>) -> Seq<char> {
    if dir.len() == 0 {
        name
    } else if dir.last() == '/' {
        dir + name
    } else {
        dir + "/"@ + name
    }
}

/// Full path of the tokenizer extension inside `lib_dir`.
pub fn lib_path(lib_dir: &str, target_os: &str) -> (p: String)
    ensures
        p@ == path_join(lib_dir@, lib_filename_of(target_os@)),
{
    let name = lib_filename(target_os);
    let chars = str_chars(lib_dir);
    if chars.len() == 0 {
        String::from_str(name)
    } else if chars[chars.len() - 1] == '/' {
        concat(lib_dir, name)
    } else {
        let d = concat(lib_dir, "/");
        let r = concat(d.as_str(), name);
        r
    }
}

pub open spec fn opt_text(o: Option<String>) -> Option<Seq<char>> {
    match o {
        Some(s) => Some(s@),
        None => None,
    }
}

/// Where the tokenizer's files are looked for: the run-time override when
/// it is set; else the directory beside the executable when it exists; else
/// the directory fixed when the program was built.
pub open spec fn chosen_dir(
    env: Option<Seq<char>>,
    beside_exe: Option<Seq<char>>,
    beside_exists: bool,
    built: Seq<char>,
) -> Seq<char> {
    match env {
        Some(e) => e,
        None => match beside_exe {
            Some(b) => if beside_exists {
                b
            } else {
                built
            },
            None => built,
        },
    }
}

/// Chooses the directory of the tokenizer extension (or of its
/// dictionaries) as `chosen_dir` says.
pub fn choose_dir(env: Option<String>, beside_exe: Option<String>, beside_exists: bool, built: &str) -> (d:
    String)
    ensures
        d@ == chosen_dir(opt_text(env), opt_text(beside_exe), beside_exists, built@),
{
    match env {
        Some(e) => e,
        None => match beside_exe {
            Some(b) => if beside_exists {
                b
            } else {
                String::from_str(built)
            },
            None => String::from_str(built),
        },
    }
}

} // verus!
