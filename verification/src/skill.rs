//! The skill bundle endpoints: where the bundle lives, the public base URL
//! of a request, and the install plan handed to an agent client.

use vstd::prelude::*;

use crate::config::AppState;
use crate::refs::{contains_text, lemma_occurs_in_concat, lemma_occurs_piece};
use crate::text::{concat, starts_with, trim_spec, trim_ws};

verus! {

/// Directory the skill bundle is served from: the configured one, else
/// `./skill`.
pub fn skill_dir<P>(state: &AppState<P>) -> (d: String)
    ensures
        d@ == match state.skill_dir {
            Some(s) => s@,
            None => "./skill"@,
        },
{
    match &state.skill_dir {
        Some(s) => s.clone(),
        None => String::from_str("./skill"),
    }
}

/// Public base URL of a request: the `Host` header (`kb.lan` when absent)
/// with the `X-Forwarded-Proto` scheme; without that header, `http` for
/// loopback hosts (`127.0.0.1...`, `localhost...`) and `https` otherwise.
pub open spec fn base_url_of(host: Option<Seq<char>>, proto: Option<Seq<char>>) -> Seq<char> {
    let h = match host {
        Some(h) => h,
        None => "kb.lan"@,
    };
    let p = match proto {
        Some(p) => p,
        None => if h.len() >= 9 && h.take(9) == "127.0.0.1"@ || h.len() >= 9 && h.take(9)
            == "localhost"@ {
            "http"@
        } else {
            "https"@
        },
    };
    p + "://"@ + h
}

pub open spec fn opt_view(o: Option<&str>) -> Option<Seq<char>> {
    match o {
        Some(s) => Some(s@),
        None => None,
    }
}

/// Derives the public base URL of a request from its `Host` and
/// `X-Forwarded-Proto` header values.
pub fn derive_base_url(host: Option<&str>, forwarded_proto: Option<&str>) -> (url: String)
    ensures
        url@ == base_url_of(opt_view(host), opt_view(forwarded_proto)),
{
    proof {
        reveal_strlit("127.0.0.1");
        reveal_strlit("localhost");
    }
    let h: &str = match host {
        Some(h) => h,
        None => "kb.lan",
    };
    let p: &str = match forwarded_proto {
        Some(p) => p,
        None => if starts_with(h, "127.0.0.1") || starts_with(h, "localhost") {
            "http"
        } else {
            "https"
        },
    };
    let a = concat(p, "://");
    concat(a.as_str(), h)
}

/// The coding assistant the install plan is written for: its display name
/// and the name of its per-user / per-project configuration directory.
#[derive(Debug, Clone)]
pub struct AgentClient {
    pub name: String,
    pub config_dir: String,
}

pub open spec fn step0_intro() -> Seq<char> {
    "Install the kb skill on this machine. Follow these steps in order.\n\nSTEP 0 (MANDATORY — do not skip): Ask the user which install scope they want.\nWord it like this:\n  \"Install kb at user scope (~/"@
}

pub open spec fn step0_user() -> Seq<char> {
    " — every project on this machine sees it) or project scope (./"@
}

pub open spec fn step0_project() -> Seq<char> {
    " — only this repo)?\"\n\nSet $TARGET to ~/"@
}

pub open spec fn step0_choice() -> Seq<char> {
    " (user scope) or ./"@
}

pub open spec fn step1_intro() -> Seq<char> {
    " (project scope) based on their answer. Do not pick a default; wait for the user to choose.\n\nSTEP 1: Download and unpack the skill bundle.\n  mkdir -p $TARGET/skills\n  curl -fsSL "@
}

pub open spec fn steps_rest() -> Seq<char> {
    " | tar -xz -C $TARGET/skills/\n\nThis creates $TARGET/skills/kb-skill/ containing SKILL.md, mcp.json, examples/, VERSION. The mcp.json in the tarball has placeholder URL/token values.\n\nSTEP 2: Overwrite $TARGET/skills/kb-skill/mcp.json with the `mcp_config` field from this response (it already contains the real URL and bearer token). Write it with two-space indentation, no trailing whitespace.\n\nSTEP 3: Tell the user installation is complete and to restart "@
}

pub open spec fn closing() -> Seq<char> {
    " so the new MCP server is registered. Mention the scope they chose.\n\nDo not run other commands. Do not edit anything outside $TARGET/skills/kb-skill/. Do not echo the bearer token to the user — just write it into mcp.json."@
}

/// The install instructions for `client`, with the bundle's download URL in
/// step 1.
pub open spec fn instructions_of(url: Seq<char>, name: Seq<char>, dir: Seq<char>) -> Seq<char> {
    step0_intro() + dir + step0_user() + dir + step0_project() + dir + step0_choice() + dir
        + step1_intro() + url + steps_rest() + name + closing()
}

/// The install instructions, with the bundle's download URL in step 1 and
/// the client's configuration directory and name filled in.
pub fn build_instructions(skill_download_url: &str, client: &AgentClient) -> (s: String)
    ensures
        s@ == instructions_of(skill_download_url@, client.name@, client.config_dir@),
        contains_text(s@, "This creates "@ + bundle_dir()),
        contains_text(s@, "STEP 2: Overwrite "@ + bundle_dir() + "mcp.json"@),
{
    proof {
        lemma_step2_overwrites_unpacked_config(skill_download_url@, client.name@, client.config_dir@);
    }
    let dir = client.config_dir.as_str();
    let s = concat(
        "Install the kb skill on this machine. Follow these steps in order.\n\nSTEP 0 (MANDATORY — do not skip): Ask the user which install scope they want.\nWord it like this:\n  \"Install kb at user scope (~/",
        dir,
    );
    let s = concat(s.as_str(), " — every project on this machine sees it) or project scope (./");
    let s = concat(s.as_str(), dir);
    let s = concat(s.as_str(), " — only this repo)?\"\n\nSet $TARGET to ~/");
    let s = concat(s.as_str(), dir);
    let s = concat(s.as_str(), " (user scope) or ./");
    let s = concat(s.as_str(), dir);
    let s = concat(
        s.as_str(),
        " (project scope) based on their answer. Do not pick a default; wait for the user to choose.\n\nSTEP 1: Download and unpack the skill bundle.\n  mkdir -p $TARGET/skills\n  curl -fsSL ",
    );
    let s = concat(s.as_str(), skill_download_url);
    let s = concat(
        s.as_str(),
        " | tar -xz -C $TARGET/skills/\n\nThis creates $TARGET/skills/kb-skill/ containing SKILL.md, mcp.json, examples/, VERSION. The mcp.json in the tarball has placeholder URL/token values.\n\nSTEP 2: Overwrite $TARGET/skills/kb-skill/mcp.json with the `mcp_config` field from this response (it already contains the real URL and bearer token). Write it with two-space indentation, no trailing whitespace.\n\nSTEP 3: Tell the user installation is complete and to restart ",
    );
    let s = concat(s.as_str(), client.name.as_str());
    concat(
        s.as_str(),
        " so the new MCP server is registered. Mention the scope they chose.\n\nDo not run other commands. Do not edit anything outside $TARGET/skills/kb-skill/. Do not echo the bearer token to the user — just write it into mcp.json.",
    )
}

/// What an install plan tells the client.
#[derive(Debug, Clone)]
pub struct InstallInfo {
    pub version: String,
    pub instructions: String,
    pub skill_download_url: String,
    pub mcp_url: String,
    pub authorization: String,
    pub user_scope: String,
    pub project_scope: String,
}

/// The install plan for a server at `base`: the bundle version (the trimmed
/// `VERSION` file, or `unknown`), the MCP endpoint `<base>/mcp`, the bundle
/// at `<base>/skill/download`, the instructions, the `Authorization` value
/// `Bearer <token>` (empty token when none is configured), and the two
/// install scopes `~/<dir>` and `./<dir>`.
pub fn install_info(
    base: &str,
    version_file: Option<String>,
    token: Option<String>,
    client: &AgentClient,
) -> (i: InstallInfo)
    ensures
        i.version@ == match version_file {
            Some(v) => trim_spec(v@),
            None => "unknown"@,
        },
        i.mcp_url@ == base@ + "/mcp"@,
        i.skill_download_url@ == base@ + "/skill/download"@,
        i.instructions@ == instructions_of(i.skill_download_url@, client.name@, client.config_dir@),
        i.authorization@ == "Bearer "@ + match token {
            Some(t) => t@,
            None => Seq::<char>::empty(),
        },
        i.user_scope@ == "~/"@ + client.config_dir@,
        i.project_scope@ == "./"@ + client.config_dir@,
{
    let version = match version_file {
        Some(v) => trim_ws(v.as_str()),
        None => String::from_str("unknown"),
    };
    let mcp_url = concat(base, "/mcp");
    let skill_download_url = concat(base, "/skill/download");
    let instructions = build_instructions(skill_download_url.as_str(), client);
    let authorization = match token {
        Some(t) => concat("Bearer ", t.as_str()),
        None => {
            let a = String::from_str("Bearer ");
            proof {
                reveal_strlit("Bearer ");
            }
            assert(a@ == "Bearer "@ + Seq::<char>::empty());
            a
        },
    };
    let user_scope = concat("~/", client.config_dir.as_str());
    let project_scope = concat("./", client.config_dir.as_str());
    InstallInfo {
        version,
        instructions,
        skill_download_url,
        mcp_url,
        authorization,
        user_scope,
        project_scope,
    }
}

/// The directory the bundle unpacks into.
pub open spec fn bundle_dir() -> Seq<char> {
    "$TARGET/skills/kb-skill/"@
}

/// Law: the instructions unpack the bundle under `$TARGET/skills/`, say that
/// this creates `bundle_dir()`, and have step 2 overwrite the `mcp.json`
/// inside that same directory, whatever the URL and client.
pub proof fn lemma_step2_overwrites_unpacked_config(url: Seq<char>, name: Seq<char>, dir: Seq<char>)
    ensures
        contains_text(instructions_of(url, name, dir), "tar -xz -C $TARGET/skills/"@),
        contains_text(instructions_of(url, name, dir), "This creates "@ + bundle_dir()),
        contains_text(instructions_of(url, name, dir), "STEP 2: Overwrite "@ + bundle_dir() + "mcp.json"@),
{
    let a = step0_intro() + dir + step0_user() + dir + step0_project() + dir + step0_choice() + dir + step1_intro() + url;
    let b = name + closing();
    assert(instructions_of(url, name, dir) =~= a + steps_rest() + b);
    reveal_strlit("$TARGET/skills/kb-skill/");
    reveal_strlit(" | tar -xz -C $TARGET/skills/\n\nThis creates $TARGET/skills/kb-skill/ containing SKILL.md, mcp.json, examples/, VERSION. The mcp.json in the tarball has placeholder URL/token values.\n\nSTEP 2: Overwrite $TARGET/skills/kb-skill/mcp.json with the `mcp_config` field from this response (it already contains the real URL and bearer token). Write it with two-space indentation, no trailing whitespace.\n\nSTEP 3: Tell the user installation is complete and to restart ");
    reveal_strlit(" | ");
    reveal_strlit("tar -xz -C $TARGET/skills/");
    reveal_strlit("\n\nThis creates $TARGET/skills/kb-skill/ containing SKILL.md, mcp.json, examples/, VERSION. The mcp.json in the tarball has placeholder URL/token values.\n\nSTEP 2: Overwrite $TARGET/skills/kb-skill/mcp.json with the `mcp_config` field from this response (it already contains the real URL and bearer token). Write it with two-space indentation, no trailing whitespace.\n\nSTEP 3: Tell the user installation is complete and to restart ");
    assert(" | tar -xz -C $TARGET/skills/\n\nThis creates $TARGET/skills/kb-skill/ containing SKILL.md, mcp.json, examples/, VERSION. The mcp.json in the tarball has placeholder URL/token values.\n\nSTEP 2: Overwrite $TARGET/skills/kb-skill/mcp.json with the `mcp_config` field from this response (it already contains the real URL and bearer token). Write it with two-space indentation, no trailing whitespace.\n\nSTEP 3: Tell the user installation is complete and to restart "@ =~= " | "@ + "tar -xz -C $TARGET/skills/"@ + "\n\nThis creates $TARGET/skills/kb-skill/ containing SKILL.md, mcp.json, examples/, VERSION. The mcp.json in the tarball has placeholder URL/token values.\n\nSTEP 2: Overwrite $TARGET/skills/kb-skill/mcp.json with the `mcp_config` field from this response (it already contains the real URL and bearer token). Write it with two-space indentation, no trailing whitespace.\n\nSTEP 3: Tell the user installation is complete and to restart "@);
    lemma_occurs_piece(" | "@, "tar -xz -C $TARGET/skills/"@, "\n\nThis creates $TARGET/skills/kb-skill/ containing SKILL.md, mcp.json, examples/, VERSION. The mcp.json in the tarball has placeholder URL/token values.\n\nSTEP 2: Overwrite $TARGET/skills/kb-skill/mcp.json with the `mcp_config` field from this response (it already contains the real URL and bearer token). Write it with two-space indentation, no trailing whitespace.\n\nSTEP 3: Tell the user installation is complete and to restart "@);
    lemma_occurs_in_concat(a, steps_rest(), b, "tar -xz -C $TARGET/skills/"@, " | "@.len() as int);
    reveal_strlit(" | tar -xz -C $TARGET/skills/\n\nThis creates $TARGET/skills/kb-skill/ containing SKILL.md, mcp.json, examples/, VERSION. The mcp.json in the tarball has placeholder URL/token values.\n\nSTEP 2: Overwrite $TARGET/skills/kb-skill/mcp.json with the `mcp_config` field from this response (it already contains the real URL and bearer token). Write it with two-space indentation, no trailing whitespace.\n\nSTEP 3: Tell the user installation is complete and to restart ");
    reveal_strlit(" | tar -xz -C $TARGET/skills/\n\n");
    reveal_strlit("This creates $TARGET/skills/kb-skill/");
    reveal_strlit(" containing SKILL.md, mcp.json, examples/, VERSION. The mcp.json in the tarball has placeholder URL/token values.\n\nSTEP 2: Overwrite $TARGET/skills/kb-skill/mcp.json with the `mcp_config` field from this response (it already contains the real URL and bearer token). Write it with two-space indentation, no trailing whitespace.\n\nSTEP 3: Tell the user installation is complete and to restart ");
    assert(" | tar -xz -C $TARGET/skills/\n\nThis creates $TARGET/skills/kb-skill/ containing SKILL.md, mcp.json, examples/, VERSION. The mcp.json in the tarball has placeholder URL/token values.\n\nSTEP 2: Overwrite $TARGET/skills/kb-skill/mcp.json with the `mcp_config` field from this response (it already contains the real URL and bearer token). Write it with two-space indentation, no trailing whitespace.\n\nSTEP 3: Tell the user installation is complete and to restart "@ =~= " | tar -xz -C $TARGET/skills/\n\n"@ + "This creates $TARGET/skills/kb-skill/"@ + " containing SKILL.md, mcp.json, examples/, VERSION. The mcp.json in the tarball has placeholder URL/token values.\n\nSTEP 2: Overwrite $TARGET/skills/kb-skill/mcp.json with the `mcp_config` field from this response (it already contains the real URL and bearer token). Write it with two-space indentation, no trailing whitespace.\n\nSTEP 3: Tell the user installation is complete and to restart "@);
    lemma_occurs_piece(" | tar -xz -C $TARGET/skills/\n\n"@, "This creates $TARGET/skills/kb-skill/"@, " containing SKILL.md, mcp.json, examples/, VERSION. The mcp.json in the tarball has placeholder URL/token values.\n\nSTEP 2: Overwrite $TARGET/skills/kb-skill/mcp.json with the `mcp_config` field from this response (it already contains the real URL and bearer token). Write it with two-space indentation, no trailing whitespace.\n\nSTEP 3: Tell the user installation is complete and to restart "@);
    reveal_strlit("This creates ");
    assert("This creates $TARGET/skills/kb-skill/"@ =~= "This creates "@ + bundle_dir());
    lemma_occurs_in_concat(a, steps_rest(), b, "This creates $TARGET/skills/kb-skill/"@, " | tar -xz -C $TARGET/skills/\n\n"@.len() as int);
    reveal_strlit(" | tar -xz -C $TARGET/skills/\n\nThis creates $TARGET/skills/kb-skill/ containing SKILL.md, mcp.json, examples/, VERSION. The mcp.json in the tarball has placeholder URL/token values.\n\nSTEP 2: Overwrite $TARGET/skills/kb-skill/mcp.json with the `mcp_config` field from this response (it already contains the real URL and bearer token). Write it with two-space indentation, no trailing whitespace.\n\nSTEP 3: Tell the user installation is complete and to restart ");
    reveal_strlit(" | tar -xz -C $TARGET/skills/\n\nThis creates $TARGET/skills/kb-skill/ containing SKILL.md, mcp.json, examples/, VERSION. The mcp.json in the tarball has placeholder URL/token values.\n\n");
    reveal_strlit("STEP 2: Overwrite $TARGET/skills/kb-skill/mcp.json");
    reveal_strlit(" with the `mcp_config` field from this response (it already contains the real URL and bearer token). Write it with two-space indentation, no trailing whitespace.\n\nSTEP 3: Tell the user installation is complete and to restart ");
    assert(" | tar -xz -C $TARGET/skills/\n\nThis creates $TARGET/skills/kb-skill/ containing SKILL.md, mcp.json, examples/, VERSION. The mcp.json in the tarball has placeholder URL/token values.\n\nSTEP 2: Overwrite $TARGET/skills/kb-skill/mcp.json with the `mcp_config` field from this response (it already contains the real URL and bearer token). Write it with two-space indentation, no trailing whitespace.\n\nSTEP 3: Tell the user installation is complete and to restart "@ =~= " | tar -xz -C $TARGET/skills/\n\nThis creates $TARGET/skills/kb-skill/ containing SKILL.md, mcp.json, examples/, VERSION. The mcp.json in the tarball has placeholder URL/token values.\n\n"@ + "STEP 2: Overwrite $TARGET/skills/kb-skill/mcp.json"@ + " with the `mcp_config` field from this response (it already contains the real URL and bearer token). Write it with two-space indentation, no trailing whitespace.\n\nSTEP 3: Tell the user installation is complete and to restart "@);
    lemma_occurs_piece(" | tar -xz -C $TARGET/skills/\n\nThis creates $TARGET/skills/kb-skill/ containing SKILL.md, mcp.json, examples/, VERSION. The mcp.json in the tarball has placeholder URL/token values.\n\n"@, "STEP 2: Overwrite $TARGET/skills/kb-skill/mcp.json"@, " with the `mcp_config` field from this response (it already contains the real URL and bearer token). Write it with two-space indentation, no trailing whitespace.\n\nSTEP 3: Tell the user installation is complete and to restart "@);
    reveal_strlit("STEP 2: Overwrite ");
    reveal_strlit("mcp.json");
    assert("STEP 2: Overwrite $TARGET/skills/kb-skill/mcp.json"@ =~= "STEP 2: Overwrite "@ + bundle_dir() + "mcp.json"@);
    lemma_occurs_in_concat(a, steps_rest(), b, "STEP 2: Overwrite $TARGET/skills/kb-skill/mcp.json"@, " | tar -xz -C $TARGET/skills/\n\nThis creates $TARGET/skills/kb-skill/ containing SKILL.md, mcp.json, examples/, VERSION. The mcp.json in the tarball has placeholder URL/token values.\n\n"@.len() as int);
}

} // verus!
