use kb::dedup::{compute_proceed_token, decide_dedup, DedupOutcome};
use kb::entry::{
    default_dedup, DedupLayer, DedupMode, DuplicateCandidate, Entry, EntryKind, KindData, Source,
    WriteInput, WriteResult,
};
use kb::error::KbError;
use kb::normalize::natural_key;
use kb::store::{
    apply_update, build_entry, build_stats, check_write, clamp_to_limit, dedup_write_result,
    default_limit, deprecation_result, escape_like, supersede_reason, parse_kind, plan_recent, plan_search,
    structured_query, KindCount, PartialEntry, SearchQuery, SqlParam,
};

fn fact(claim: &str) -> KindData {
    KindData::Fact { claim: claim.to_string(), evidence: vec![] }
}

fn query(kinds: Vec<EntryKind>, tags: Vec<&str>, q: Option<&str>, limit: u32, dep: bool) -> SearchQuery {
    SearchQuery {
        kinds,
        tag_prefixes: tags.into_iter().map(String::from).collect(),
        query: q.map(String::from),
        limit,
        include_deprecated: dep,
    }
}

fn ints_and_texts(ps: &[SqlParam]) -> Vec<String> {
    ps.iter()
        .map(|p| match p {
            SqlParam::Int(n) => format!("#{n}"),
            SqlParam::Text(s) => s.clone(),
            SqlParam::Blob(b) => format!("{b:?}"),
        })
        .collect()
}

fn sample_entry() -> Entry {
    let nk = natural_key(&fact("initial wording"));
    build_entry(
        WriteInput {
            title: "t".into(),
            body: "b".into(),
            tags: vec!["x".into()],
            source: Source::Human,
            data: fact("initial wording"),
            supersedes: None,
            dedup: DedupMode::Check,
            proceed_token: None,
        },
        nk,
        7,
        "2024-01-01T00:00:00+00:00".into(),
    )
}

// ---- limits ----

#[test]
fn limit_defaults_to_twenty() {
    assert_eq!(default_limit(), 20);
}

#[test]
fn limit_is_clamped() {
    assert_eq!(clamp_to_limit(0), 1);
    assert_eq!(clamp_to_limit(1), 1);
    assert_eq!(clamp_to_limit(57), 57);
    assert_eq!(clamp_to_limit(200), 200);
    assert_eq!(clamp_to_limit(201), 200);
    assert_eq!(clamp_to_limit(u32::MAX), 200);
}

// ---- LIKE escaping ----

#[test]
fn like_wildcards_escaped() {
    assert_eq!(escape_like("50%_off"), "50\\%\\_off");
    assert_eq!(escape_like("a\\"), "a\\\\");
    assert_eq!(escape_like("network/"), "network/");
    assert_eq!(escape_like(""), "");
}

// ---- statement planning ----

#[test]
fn structured_search_statement_with_filters() {
    let q = query(vec![EntryKind::Fact, EntryKind::Lesson], vec!["network/"], None, 20, false);
    let r = plan_search(&q);
    assert_eq!(
        r.sql,
        "SELECT ulid, kind, title, substr(body, 1, ?) AS summary_line, tags,\n                created_at, updated_at, deprecated_at\n           FROM entries\n          WHERE 1=1 AND kind IN (?2,?3) AND tags LIKE ?4 ESCAPE '\\' AND deprecated_at IS NULL ORDER BY updated_at DESC LIMIT ?5"
    );
    assert_eq!(
        ints_and_texts(&r.params),
        vec!["#120", "Fact", "Lesson", "%\"network/%", "#20"]
    );
}

#[test]
fn structured_search_includes_deprecated_when_asked() {
    let q = query(vec![], vec![], None, 500, true);
    let r = structured_query(&q, clamp_to_limit(q.limit));
    assert!(r.sql.ends_with("WHERE 1=1 ORDER BY updated_at DESC LIMIT ?2"));
    assert!(!r.sql.contains("deprecated_at IS NULL"));
    assert_eq!(ints_and_texts(&r.params), vec!["#120", "#200"]);
}

#[test]
fn blank_query_runs_structured_mode() {
    let q = query(vec![], vec![], Some("   \t"), 10, false);
    let r = plan_search(&q);
    assert!(r.sql.starts_with("SELECT ulid, kind"));
    assert!(r.sql.ends_with(" AND deprecated_at IS NULL ORDER BY updated_at DESC LIMIT ?2"));
    assert_eq!(ints_and_texts(&r.params), vec!["#120", "#10"]);
}

#[test]
fn text_query_runs_fts_mode() {
    let q = query(vec![EntryKind::Decision], vec!["rust/", "a_b"], Some("tokio 任务取消"), 0, false);
    let r = plan_search(&q);
    assert!(r.sql.contains("WHERE entries_fts MATCH simple_query(?2)"));
    assert!(r.sql.contains("bm25(entries_fts, 5.0, 5.0, 1.0) AS score"));
    assert!(r.sql.ends_with(
        " AND e.kind IN (?3) AND e.tags LIKE ?4 ESCAPE '\\' AND e.tags LIKE ?5 ESCAPE '\\' AND e.deprecated_at IS NULL ORDER BY score LIMIT ?6"
    ));
    assert_eq!(
        ints_and_texts(&r.params),
        vec!["#120", "tokio 任务取消", "Decision", "%\"rust/%", "%\"a\\_b%", "#1"]
    );
}

#[test]
fn recent_statement_with_and_without_since() {
    let r = plan_recent(5, None);
    assert!(r.sql.ends_with("WHERE deprecated_at IS NULL ORDER BY updated_at DESC LIMIT ?2"));
    assert_eq!(ints_and_texts(&r.params), vec!["#120", "#5"]);
    let r = plan_recent(1000, Some("2024-05-01T00:00:00+00:00".into()));
    assert!(r.sql.ends_with(
        "WHERE deprecated_at IS NULL AND updated_at >= ?2 ORDER BY updated_at DESC LIMIT ?3"
    ));
    assert_eq!(ints_and_texts(&r.params), vec!["#120", "2024-05-01T00:00:00+00:00", "#200"]);
}

// ---- kinds ----

#[test]
fn stored_kind_names_parse() {
    for k in [
        EntryKind::Fact,
        EntryKind::ProblemSolution,
        EntryKind::Lesson,
        EntryKind::Decision,
        EntryKind::Heuristic,
    ] {
        assert_eq!(parse_kind(k.as_str()), Ok(k));
    }
    assert_eq!(parse_kind("fact"), Err("unknown kind: fact".to_string()));
    assert_eq!(parse_kind(""), Err("unknown kind: ".to_string()));
}

// ---- write gate ----

#[test]
fn dedup_defaults_to_check() {
    assert_eq!(default_dedup(), DedupMode::Check);
}

#[test]
fn check_mode_runs_dedup() {
    let nk = natural_key(&fact("x"));
    assert!(matches!(check_write(DedupMode::Check, &None, &nk), Ok(true)));
    assert!(matches!(check_write(DedupMode::Check, &Some("junk".into()), &nk), Ok(true)));
}

#[test]
fn force_without_token_refused() {
    let nk = natural_key(&fact("x"));
    match check_write(DedupMode::Force, &None, &nk) {
        Err(KbError::BadRequest(m)) => assert_eq!(m, "dedup='force' requires proceed_token"),
        other => panic!("unexpected {other:?}"),
    }
}

#[test]
fn force_with_wrong_token_refused() {
    let nk = natural_key(&fact("x"));
    let other = compute_proceed_token(&natural_key(&fact("y")));
    match check_write(DedupMode::Force, &Some(other), &nk) {
        Err(KbError::BadRequest(m)) => assert_eq!(m, "proceed_token mismatch"),
        other => panic!("unexpected {other:?}"),
    }
}

#[test]
fn dedup_force_with_matching_token_skips_check() {
    // The token handed back with duplicates_found lets the same key through.
    let nk = natural_key(&fact("duplicate me on purpose"));
    let found = decide_dedup(
        Some(DuplicateCandidate {
            id: 1,
            kind: EntryKind::Fact,
            title: "t".into(),
            natural_key_text: nk.text.clone(),
            layer: DedupLayer::Exact,
            score_bits: 1.0f64.to_bits(),
        }),
        vec![],
        &nk,
    );
    let token = match found {
        DedupOutcome::Found { proceed_token, .. } => proceed_token,
        DedupOutcome::Clean => panic!("expected candidates"),
    };
    // Same key written with a different surface form normalizes to the same text.
    let again = natural_key(&fact("  Duplicate   ME on purpose "));
    assert!(matches!(check_write(DedupMode::Force, &Some(token), &again), Ok(false)));
}

#[test]
fn duplicates_found_answer() {
    let nk = natural_key(&fact("x"));
    let out = DedupOutcome::Found { candidates: vec![], proceed_token: "tok".into() };
    match dedup_write_result(out) {
        Some(WriteResult::DuplicatesFound { candidates, proceed_token }) => {
            assert!(candidates.is_empty());
            assert_eq!(proceed_token, "tok");
        }
        other => panic!("unexpected {other:?}"),
    }
    assert!(dedup_write_result(DedupOutcome::Clean).is_none());
    let _ = nk;
}

// ---- entries ----

#[test]
fn new_entry_is_version_one_and_live() {
    let e = sample_entry();
    assert_eq!(e.id, 7);
    assert_eq!(e.version, 1);
    assert_eq!(e.created_at, e.updated_at);
    assert!(e.deprecated_at.is_none());
    assert!(e.superseded_by.is_none());
    assert_eq!(e.natural_key_text, "initial wording");
    assert_eq!(e.natural_key_hash.len(), 64);
}

#[test]
fn update_bumps_version_and_keeps_unset_fields() {
    let prev = sample_entry();
    let partial = PartialEntry {
        title: Some("rewritten title".into()),
        body: None,
        tags: None,
        data: Some(fact("New Wording")),
    };
    let (e, nk) = apply_update(prev.clone(), partial, "2024-02-02T00:00:00+00:00".into()).unwrap();
    assert_eq!(e.version, 2);
    assert_eq!(e.title, "rewritten title");
    assert_eq!(e.body, prev.body);
    assert_eq!(e.tags, prev.tags);
    assert_eq!(e.created_at, prev.created_at);
    assert_eq!(e.updated_at, "2024-02-02T00:00:00+00:00");
    assert_eq!(nk.text, "new wording");
    assert_eq!(e.natural_key_text, "new wording");
    assert_eq!(e.natural_key_hash, nk.hash_hex());
}

#[test]
fn update_refuses_kind_change() {
    let prev = sample_entry();
    let partial = PartialEntry {
        title: None,
        body: None,
        tags: None,
        data: Some(KindData::Lesson {
            trap: "t".into(),
            correction: "c".into(),
            why: "w".into(),
            context: None,
        }),
    };
    match apply_update(prev, partial, "now".into()) {
        Err(KbError::BadRequest(m)) => assert_eq!(m, "kind cannot change on update; supersede instead"),
        other => panic!("unexpected {other:?}"),
    }
}

#[test]
fn second_deprecation_conflicts() {
    assert!(deprecation_result(1).is_ok());
    match deprecation_result(0) {
        Err(KbError::Conflict(m)) => assert_eq!(m, "already deprecated"),
        other => panic!("unexpected {other:?}"),
    }
}

#[test]
fn stats_deprecated_is_total_minus_active() {
    let s = build_stats(
        3,
        2,
        vec![
            KindCount { kind: EntryKind::Fact, active: 1, deprecated: 1 },
            KindCount { kind: EntryKind::Lesson, active: 1, deprecated: 0 },
        ],
    );
    assert_eq!((s.total, s.active, s.deprecated), (3, 2, 1));
    assert_eq!(s.by_kind.len(), 2);
}

#[test]
fn superseded_entries_are_deprecated_with_reason() {
    assert_eq!(supersede_reason(), "superseded");
}

#[test]
fn kind_change_refused_at_any_version() {
    let mut prev = sample_entry();
    prev.version = u32::MAX;
    let partial = PartialEntry {
        title: None,
        body: None,
        tags: None,
        data: Some(KindData::Heuristic { problem_class: "p".into(), pattern: "q".into(), limits: None }),
    };
    match apply_update(prev, partial, "now".into()) {
        Err(KbError::BadRequest(m)) => assert_eq!(m, "kind cannot change on update; supersede instead"),
        other => panic!("unexpected {other:?}"),
    }
}
