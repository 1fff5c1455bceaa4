use chrono::TimeZone;
use kb::entry::{Alternative, EntryKind, Evidence, EvidenceKind, KindData};
use kb::normalize::{collapse_whitespace, hex_encode, kind_of, natural_key, normalize_text, NaturalKey};

// ---- normalize_text rules ----

#[test]
fn nfkc_fullwidth_to_halfwidth() {
    // Fullwidth Latin → Halfwidth
    assert_eq!(normalize_text("Ｔｏｋｉｏ"), "tokio");
}

#[test]
fn nfkc_combining_marks() {
    // 'é' as 'e' + combining acute → composed and lowercased
    assert_eq!(normalize_text("Cafe\u{301}"), "café");
}

#[test]
fn lowercase_fold() {
    assert_eq!(normalize_text("Tokio"), "tokio");
    assert_eq!(normalize_text("RUST"), "rust");
}

#[test]
fn whitespace_collapse_and_trim() {
    assert_eq!(normalize_text("  foo   bar\tbaz\n  "), "foo bar baz");
}

#[test]
fn ideographic_space_treated_as_whitespace() {
    assert_eq!(normalize_text("foo\u{3000}bar"), "foo bar");
}

#[test]
fn punctuation_preserved() {
    let a = normalize_text("tokio block_in_place");
    let b = normalize_text("tokio block in place");
    assert_ne!(a, b);
    assert_eq!(a, "tokio block_in_place");
}

// ---- natural_key per kind ----

#[test]
fn nk_fact_uses_claim_only() {
    let nk = natural_key(&KindData::Fact {
        claim: "  Kernel 5.15 + xt_TPROXY  绑定 TPROXY_ORIGINAL_DST_ADDR4  ".into(),
        evidence: vec![Evidence {
            kind: EvidenceKind::Output,
            content: "irrelevant".into(),
            captured_at: chrono::Utc.with_ymd_and_hms(2024, 1, 1, 0, 0, 0).unwrap().to_rfc3339(),
        }],
    });
    assert_eq!(nk.text, "kernel 5.15 + xt_tproxy 绑定 tproxy_original_dst_addr4");
    assert_eq!(nk.hash.len(), 32);
}

#[test]
fn nk_problem_solution_sorts_symptoms() {
    let a = natural_key(&KindData::ProblemSolution {
        problem: "p".into(),
        environment: "e".into(),
        symptoms: vec!["B".into(), "A".into()],
        root_cause: "RC".into(),
        solution: "s".into(),
        verification: None,
    });
    let b = natural_key(&KindData::ProblemSolution {
        problem: "p".into(),
        environment: "e".into(),
        symptoms: vec!["A".into(), "B".into()],
        root_cause: "RC".into(),
        solution: "s".into(),
        verification: None,
    });
    assert_eq!(a.text, b.text);
    assert_eq!(a.hash, b.hash);
    assert!(a.text.contains('\u{1F}'));
    assert!(a.text.ends_with("rc"));
}

#[test]
fn nk_lesson_uses_trap_only() {
    let nk = natural_key(&KindData::Lesson {
        trap: "RAII drop order assumed top-down".into(),
        correction: "actually bottom-up".into(),
        why: "spec wording".into(),
        context: None,
    });
    assert_eq!(nk.text, "raii drop order assumed top-down");
}

#[test]
fn nk_decision_joins_context_and_decision() {
    let nk = natural_key(&KindData::Decision {
        context: "Need async runtime for KB write path".into(),
        decision: "Pick tokio".into(),
        rationale: "ecosystem".into(),
        alternatives: vec![Alternative {
            option: "smol".into(),
            why_not: "smaller ecosystem".into(),
        }],
        tradeoffs: vec!["bigger binary".into()],
    });
    assert!(nk.text.contains('\u{1F}'));
    let parts: Vec<&str> = nk.text.split('\u{1F}').collect();
    assert_eq!(parts.len(), 2);
    assert_eq!(parts[0], "need async runtime for kb write path");
    assert_eq!(parts[1], "pick tokio");
}

#[test]
fn nk_heuristic_joins_class_and_pattern() {
    let nk = natural_key(&KindData::Heuristic {
        problem_class: "Network connectivity diagnosis".into(),
        pattern: "Layer up: cable → link → ip → route → fw → app".into(),
        limits: Some("Doesn't cover BGP".into()),
    });
    let parts: Vec<&str> = nk.text.split('\u{1F}').collect();
    assert_eq!(parts.len(), 2);
    assert!(parts[0].starts_with("network"));
    assert!(parts[1].starts_with("layer up"));
}

// ---- hash properties ----

#[test]
fn equal_text_equal_hash() {
    let a = natural_key(&KindData::Fact { claim: "Foo".into(), evidence: vec![] });
    let b = natural_key(&KindData::Fact { claim: "FOO".into(), evidence: vec![] });
    assert_eq!(a.hash, b.hash);
}

#[test]
fn different_text_different_hash() {
    let a = natural_key(&KindData::Fact { claim: "foo".into(), evidence: vec![] });
    let b = natural_key(&KindData::Fact { claim: "bar".into(), evidence: vec![] });
    assert_ne!(a.hash, b.hash);
}

// ---- further cases ----

#[test]
fn collapse_keeps_inner_punctuation_and_trims() {
    assert_eq!(collapse_whitespace("\u{3000} a\u{a0}\u{a0}b_c \r\n"), "a b_c");
    assert_eq!(collapse_whitespace(""), "");
    assert_eq!(collapse_whitespace(" \t\n"), "");
}

#[test]
fn collapse_twice_is_collapse_once() {
    let inputs = ["  a  b ", "x", "\t\ty\u{2003}z", "", "  "];
    for s in inputs {
        let once = collapse_whitespace(s);
        assert_eq!(collapse_whitespace(&once), once);
    }
}

#[test]
fn hex_of_known_bytes() {
    assert_eq!(hex_encode(&[0x00, 0x0f, 0xa5, 0xff]), "000fa5ff");
    assert_eq!(hex_encode(&[]), "");
}

#[test]
fn sha256_of_empty_key() {
    // Lesson with an empty trap: the key text is empty and the hash is SHA-256("").
    let nk = natural_key(&KindData::Lesson {
        trap: String::new(),
        correction: "c".into(),
        why: "w".into(),
        context: None,
    });
    assert_eq!(nk.text, "");
    assert_eq!(
        nk.hash_hex(),
        "e3b0c44298fc1c149afbf4c8996fb92427ae41e4649b934ca495991b7852b855"
    );
}

#[test]
fn natural_key_hash_hex_has_64_digits() {
    let nk: NaturalKey = natural_key(&KindData::Fact { claim: "x".into(), evidence: vec![] });
    assert_eq!(nk.hash_hex().len(), 64);
    assert!(nk.hash_hex().chars().all(|c| c.is_ascii_hexdigit() && !c.is_ascii_uppercase()));
}

#[test]
fn problem_solution_key_text_exact() {
    let nk = natural_key(&KindData::ProblemSolution {
        problem: "p".into(),
        environment: "e".into(),
        symptoms: vec!["Zeta".into(), "alpha".into(), "Beta".into()],
        root_cause: "Root".into(),
        solution: "s".into(),
        verification: Some("v".into()),
    });
    // Sorted by code point: "Beta" < "Zeta" < "alpha".
    assert_eq!(nk.text, "beta,zeta,alpha\u{1F}root");
}

#[test]
fn kind_of_each_variant() {
    assert_eq!(kind_of(&KindData::Fact { claim: "c".into(), evidence: vec![] }), EntryKind::Fact);
    assert_eq!(
        kind_of(&KindData::Heuristic { problem_class: "a".into(), pattern: "b".into(), limits: None }),
        EntryKind::Heuristic
    );
}
