use kb::config::{choose_dir, lib_filename, lib_path, AppState};
use kb::dedup::{
    compute_proceed_token, decide_dedup, layer1_candidate, layer1_query, layer2_candidate, layer2_query, DedupOutcome,
    EXACT_SCORE_BITS, LAYER2_LIMIT,
};
use kb::ids::{id_text, parse_id, UlidError};
use kb::store::SqlParam;
use kb::text::char_is_whitespace;
use kb::entry::{DedupLayer, DuplicateCandidate, EntryKind};
use kb::error::KbError;
use kb::mcp::{RecentArgs, SearchArgs};
use kb::normalize::{natural_key, NaturalKey};
use kb::rest::{check_auth, parse_kind_list, parse_tag_list, search_params_query, SearchParams};
use kb::skill::{build_instructions, derive_base_url, install_info, skill_dir, AgentClient};

fn state(token: Option<&str>, dir: Option<&str>) -> AppState<()> {
    AppState { pool: (), bearer_token: token.map(String::from), skill_dir: dir.map(String::from) }
}

fn candidate(id: u128, layer: DedupLayer) -> DuplicateCandidate {
    DuplicateCandidate {
        id,
        kind: EntryKind::Fact,
        title: format!("c{id}"),
        natural_key_text: "k".into(),
        layer,
        score_bits: 0.5f64.to_bits(),
    }
}

fn key(text: &str) -> NaturalKey {
    natural_key(&kb::entry::KindData::Fact { claim: text.into(), evidence: vec![] })
}

fn client() -> AgentClient {
    AgentClient { name: "Acme Agent".into(), config_dir: ".acme".into() }
}

// ---- errors ----

#[test]
fn error_statuses() {
    assert_eq!(KbError::NotFound.status(), 404);
    assert_eq!(KbError::BadRequest("x".into()).status(), 400);
    assert_eq!(KbError::Unauthorized.status(), 401);
    assert_eq!(KbError::Conflict("x".into()).status(), 409);
    assert_eq!(KbError::Db("x".into()).status(), 500);
    assert_eq!(KbError::Pool("x".into()).status(), 500);
    assert_eq!(KbError::Json("x".into()).status(), 500);
    assert_eq!(KbError::Ulid("x".into()).status(), 500);
    assert_eq!(KbError::Other("x".into()).status(), 500);
}

#[test]
fn error_messages() {
    assert_eq!(KbError::NotFound.message(), "not found");
    assert_eq!(KbError::BadRequest("bad".into()).message(), "invalid input: bad");
    assert_eq!(KbError::Unauthorized.message(), "unauthorized");
    assert_eq!(KbError::Conflict("already deprecated".into()).message(), "conflict: already deprecated");
    assert_eq!(KbError::Db("disk I/O error".into()).message(), "disk I/O error");
}

// ---- dedup ----

#[test]
fn layer1_hit_is_the_only_candidate() {
    let nk = key("kernel 5.15 xt_TPROXY sets SO_ORIGINAL_DST");
    let out = decide_dedup(
        Some(candidate(1, DedupLayer::Exact)),
        vec![candidate(2, DedupLayer::Fts), candidate(3, DedupLayer::Fts)],
        &nk,
    );
    match out {
        DedupOutcome::Found { candidates, proceed_token } => {
            assert_eq!(candidates.len(), 1);
            assert_eq!(candidates[0].id, 1);
            assert_eq!(candidates[0].layer, DedupLayer::Exact);
            assert_eq!(proceed_token, compute_proceed_token(&nk));
        }
        DedupOutcome::Clean => panic!("layer 1 should have fired"),
    }
}

#[test]
fn layer2_hits_are_candidates() {
    let nk = key("tokio 阻塞 worker 线程");
    match decide_dedup(None, vec![candidate(5, DedupLayer::Fts), candidate(6, DedupLayer::Fts)], &nk) {
        DedupOutcome::Found { candidates, .. } => {
            assert_eq!(candidates.iter().map(|c| c.id).collect::<Vec<_>>(), vec![5, 6]);
        }
        DedupOutcome::Clean => panic!("Layer 2 should have caught this"),
    }
    assert_eq!(LAYER2_LIMIT, 10);
}

#[test]
fn no_hits_is_clean() {
    assert!(matches!(decide_dedup(None, vec![], &key("fresh")), DedupOutcome::Clean));
}

#[test]
fn proceed_token_value() {
    // lowercase hex of SHA-256("kb:proceed:v1:" + text)
    let t = compute_proceed_token(&key(""));
    assert_eq!(t.len(), 64);
    assert!(t.chars().all(|c| c.is_ascii_hexdigit() && !c.is_ascii_uppercase()));
    assert_eq!(t, compute_proceed_token(&key("   ")));
    assert_ne!(t, compute_proceed_token(&key("a")));
    // SHA-256 of "kb:proceed:v1:" alone
    assert_eq!(t, "56ac3fd7bd0fca649344bba0edc609146dec637cea25b93ab69ce622c49feb87");
    assert_eq!(
        compute_proceed_token(&key("Duplicate me on purpose")),
        "d70288a2530653d3477742e9784ea77f11b6cd9aff142c4a309dcfb12ec84643"
    );
}

// ---- authorization ----

#[test]
fn no_token_configured_lets_everything_through() {
    let s = state(None, None);
    assert!(check_auth(&s, None).is_ok());
    assert!(check_auth(&s, Some("Bearer whatever")).is_ok());
}

#[test]
fn bearer_token_must_match() {
    let s = state(Some("s3cret"), None);
    assert!(check_auth(&s, Some("Bearer s3cret")).is_ok());
    assert!(matches!(check_auth(&s, Some("Bearer nope")), Err(KbError::Unauthorized)));
    assert!(matches!(check_auth(&s, Some("s3cret")), Err(KbError::Unauthorized)));
    assert!(matches!(check_auth(&s, Some("bearer s3cret")), Err(KbError::Unauthorized)));
    assert!(matches!(check_auth(&s, None), Err(KbError::Unauthorized)));
}

// ---- query-string search ----

#[test]
fn kind_list_skips_unknown_names() {
    assert_eq!(
        parse_kind_list("Fact, Lesson ,bogus,Heuristic,"),
        vec![EntryKind::Fact, EntryKind::Lesson, EntryKind::Heuristic]
    );
    assert_eq!(parse_kind_list(""), vec![]);
}

#[test]
fn tag_list_trims_each() {
    assert_eq!(parse_tag_list(" network/ ,rust/tokio"), vec!["network/", "rust/tokio"]);
    assert_eq!(parse_tag_list(""), vec![""]);
}

#[test]
fn query_string_defaults() {
    let q = search_params_query(SearchParams { q: None, kind: None, tag: None, limit: None, include_deprecated: None });
    assert!(q.kinds.is_empty());
    assert!(q.tag_prefixes.is_empty());
    assert_eq!(q.query, None);
    assert_eq!(q.limit, 20);
    assert!(!q.include_deprecated);

    let q = search_params_query(SearchParams {
        q: Some("tokio".into()),
        kind: Some("Decision,ProblemSolution".into()),
        tag: Some("rust/".into()),
        limit: Some(5),
        include_deprecated: Some(true),
    });
    assert_eq!(q.kinds, vec![EntryKind::Decision, EntryKind::ProblemSolution]);
    assert_eq!(q.tag_prefixes, vec!["rust/"]);
    assert_eq!(q.query.as_deref(), Some("tokio"));
    assert_eq!(q.limit, 5);
    assert!(q.include_deprecated);
}

#[test]
fn tool_arguments_defaults() {
    let q = SearchArgs { kinds: vec![], tag_prefixes: vec![], query: None, limit: None, include_deprecated: None }
        .into_query();
    assert_eq!(q.limit, 20);
    assert!(!q.include_deprecated);
    assert_eq!(RecentArgs { n: None, since: None }.count(), 20);
    assert_eq!(RecentArgs { n: Some(3), since: None }.count(), 3);
}

// ---- tokenizer extension ----

#[test]
fn extension_file_names() {
    assert_eq!(lib_filename("macos"), "libsimple.dylib");
    assert_eq!(lib_filename("windows"), "simple.dll");
    assert_eq!(lib_filename("linux"), "libsimple.so");
    assert_eq!(lib_path("/opt/libsimple", "linux"), "/opt/libsimple/libsimple.so");
    assert_eq!(lib_path("/opt/libsimple/", "macos"), "/opt/libsimple/libsimple.dylib");
    assert_eq!(lib_path("", "windows"), "simple.dll");
}

// ---- skill bundle ----

#[test]
fn skill_dir_default() {
    assert_eq!(skill_dir(&state(None, None)), "./skill");
    assert_eq!(skill_dir(&state(None, Some("/srv/skill"))), "/srv/skill");
}

#[test]
fn base_url_from_headers() {
    assert_eq!(derive_base_url(None, None), "https://kb.lan");
    assert_eq!(derive_base_url(Some("127.0.0.1:7890"), None), "http://127.0.0.1:7890");
    assert_eq!(derive_base_url(Some("localhost:7890"), None), "http://localhost:7890");
    assert_eq!(derive_base_url(Some("kb.example.com"), None), "https://kb.example.com");
    assert_eq!(derive_base_url(Some("localhost"), Some("https")), "https://localhost");
}

#[test]
fn install_plan() {
    let i = install_info("https://kb.lan", Some(" 1.4.0\n".into()), Some("tok".into()), &client());
    assert_eq!(i.version, "1.4.0");
    assert_eq!(i.mcp_url, "https://kb.lan/mcp");
    assert_eq!(i.skill_download_url, "https://kb.lan/skill/download");
    assert_eq!(i.authorization, "Bearer tok");
    assert_eq!(i.user_scope, "~/.acme");
    assert_eq!(i.project_scope, "./.acme");
    assert!(i.instructions.contains("curl -fsSL https://kb.lan/skill/download | tar -xz -C $TARGET/skills/"));
    assert!(i.instructions.contains("Set $TARGET to ~/.acme (user scope) or ./.acme (project scope)"));
    assert!(i.instructions.contains("restart Acme Agent so the new MCP server is registered"));

    let i = install_info("http://x", None, None, &client());
    assert_eq!(i.version, "unknown");
    assert_eq!(i.authorization, "Bearer ");
}

#[test]
fn instructions_text() {
    let s = build_instructions("U", &client());
    assert!(s.starts_with("Install the kb skill on this machine. Follow these steps in order.\n\nSTEP 0 (MANDATORY — do not skip)"));
    assert!(s.contains("  \"Install kb at user scope (~/.acme — every project on this machine sees it) or project scope (./.acme — only this repo)?\"\n"));
    assert!(s.contains("  mkdir -p $TARGET/skills\n  curl -fsSL U | tar -xz -C $TARGET/skills/\n"));
    assert!(s.ends_with("Do not echo the bearer token to the user — just write it into mcp.json."));
}

#[test]
fn dedup_statements() {
    let nk = key("kernel 5.15 xt_TPROXY sets SO_ORIGINAL_DST");
    let q1 = layer1_query(EntryKind::Fact, &nk);
    assert_eq!(
        q1.sql,
        "SELECT ulid, kind, title, natural_key_text\n           FROM entries\n          WHERE natural_key_hash = ?1\n            AND kind = ?2\n            AND deprecated_at IS NULL\n          LIMIT 1"
    );
    assert!(matches!(&q1.params[0], SqlParam::Blob(b) if b.as_slice() == nk.hash.as_slice()));
    assert!(matches!(&q1.params[1], SqlParam::Text(k) if k == "Fact"));
    assert_eq!(q1.params.len(), 2);
    let q2 = layer2_query(EntryKind::Lesson, &nk);
    assert!(q2.sql.contains("WHERE entries_fts MATCH jieba_query(?1)"));
    assert!(q2.sql.contains("bm25(entries_fts, 10.0, 3.0, 1.0) AS score"));
    assert!(q2.sql.ends_with("ORDER BY score\n          LIMIT ?3"));
    assert!(matches!(&q2.params[0], SqlParam::Text(t) if *t == nk.text));
    assert!(matches!(&q2.params[1], SqlParam::Text(k) if k == "Lesson"));
    assert!(matches!(&q2.params[2], SqlParam::Int(10)));
}

#[test]
fn identifier_text_round_trip() {
    let t = id_text(0x41414141414141414141414141414141);
    assert_eq!(t, "21850M2GA1850M2GA1850M2GA1");
    assert_eq!(parse_id(&t), Ok(0x41414141414141414141414141414141));
    assert_eq!(parse_id(&t.to_lowercase()), Ok(0x41414141414141414141414141414141));
    assert_eq!(parse_id("short"), Err(UlidError::InvalidLength));
    assert_eq!(parse_id("21850M2GA1850M2GA1850M2GU1"), Err(UlidError::InvalidChar));
}

#[test]
fn unicode_whitespace() {
    for c in ['\t', '\n', ' ', '\u{85}', '\u{a0}', '\u{2007}', '\u{3000}'] {
        assert!(char_is_whitespace(c));
        assert_eq!(char_is_whitespace(c), c.is_whitespace());
    }
    for c in ['a', '_', '\u{1f}', '\u{200b}', '\u{feff}'] {
        assert!(!char_is_whitespace(c));
        assert_eq!(char_is_whitespace(c), c.is_whitespace());
    }
}

#[test]
fn candidates_from_rows() {
    let id = id_text(7);
    let c = layer1_candidate(&id, "Fact", "t".into(), "k".into()).unwrap();
    assert_eq!((c.id, c.kind, c.layer), (7, EntryKind::Fact, DedupLayer::Exact));
    assert_eq!(f64::from_bits(c.score_bits), 1.0);
    assert_eq!(EXACT_SCORE_BITS, 1.0f64.to_bits());
    let c = layer2_candidate(&id, "Lesson", "t".into(), "k".into(), (-2.5f64).to_bits()).unwrap();
    assert_eq!((c.kind, c.layer), (EntryKind::Lesson, DedupLayer::Fts));
    assert_eq!(f64::from_bits(c.score_bits), -2.5);
    assert_eq!(layer1_candidate("x", "Fact", "t".into(), "k".into()).unwrap_err(), "invalid length");
    assert_eq!(layer1_candidate(&id, "Nope", "t".into(), "k".into()).unwrap_err(), "unknown kind: Nope");
}

#[test]
fn tokenizer_directory_choice() {
    assert_eq!(choose_dir(Some("/env".into()), Some("/exe/libsimple".into()), true, "/built"), "/env");
    assert_eq!(choose_dir(None, Some("/exe/libsimple".into()), true, "/built"), "/exe/libsimple");
    assert_eq!(choose_dir(None, Some("/exe/libsimple".into()), false, "/built"), "/built");
    assert_eq!(choose_dir(None, None, false, "/built"), "/built");
}
