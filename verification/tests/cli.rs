use kb::cli::{
    parse_evidence_line, purge_report, request_url, resolved_token, resolved_url, FileConfig,
    PurgedLine, RewrittenLine,
};

fn file(url: Option<&str>, token: Option<&str>) -> FileConfig {
    FileConfig { url: url.map(String::from), token: token.map(String::from) }
}

#[test]
fn url_prefers_command_line() {
    assert_eq!(
        resolved_url(Some("https://a".into()), &file(Some("https://b"), None)),
        Ok("https://a".to_string())
    );
    assert_eq!(resolved_url(None, &file(Some("https://b"), None)), Ok("https://b".to_string()));
}

#[test]
fn url_missing_everywhere() {
    assert_eq!(
        resolved_url(None, &file(None, Some("t"))),
        Err("--url / KB_URL / config 'url' not set".to_string())
    );
}

#[test]
fn token_prefers_command_line() {
    assert_eq!(resolved_token(Some("x".into()), &file(None, Some("y"))), Some("x".to_string()));
    assert_eq!(resolved_token(None, &file(None, Some("y"))), Some("y".to_string()));
    assert_eq!(resolved_token(None, &file(Some("u"), None)), None);
}

#[test]
fn request_urls() {
    assert_eq!(request_url("https://kb.lan", "/api/stats"), "https://kb.lan/api/stats");
    assert_eq!(request_url("https://kb.lan///", "/api/stats"), "https://kb.lan/api/stats");
    assert_eq!(request_url("", "/api/recent?n=5"), "/api/recent?n=5");
}

#[test]
fn evidence_lines() {
    assert_eq!(
        parse_evidence_line("Url::https://example.com/a::b"),
        ("Url".to_string(), "https://example.com/a::b".to_string())
    );
    assert_eq!(
        parse_evidence_line("ran it locally"),
        ("SelfVerification".to_string(), "ran it locally".to_string())
    );
    assert_eq!(parse_evidence_line("::x"), (String::new(), "x".to_string()));
    assert_eq!(parse_evidence_line("a:b"), ("SelfVerification".to_string(), "a:b".to_string()));
}

#[test]
fn purge_preview_report() {
    let lines = purge_report(
        Some(true),
        false,
        Some(vec![
            PurgedLine { id: "01A".into(), kind: "Fact".into(), title: "first".into() },
            PurgedLine { id: "01B".into(), kind: "ProblemSolution".into(), title: "second".into() },
        ]),
        Some(vec![
            RewrittenLine { id: "01C".into(), refs: 1 },
            RewrittenLine { id: "01D".into(), refs: 2 },
        ]),
    );
    assert_eq!(
        lines,
        vec![
            "Would purge 2 entries:",
            "  [Fact            ] 01A  first",
            "  [ProblemSolution ] 01B  second",
            "Would rewrite body in 2 other entries:",
            "  01C  (1 reference)",
            "  01D  (2 references)",
            "",
            "Re-run with --yes to apply.",
        ]
    );
}

#[test]
fn purge_applied_report() {
    let lines = purge_report(
        None,
        true,
        Some(vec![PurgedLine { id: "01A".into(), kind: "Heuristic".into(), title: "t".into() }]),
        Some(vec![]),
    );
    assert_eq!(lines, vec!["Purged 1 entries:", "  [Heuristic       ] 01A  t"]);
}

#[test]
fn purge_report_nothing() {
    assert_eq!(purge_report(Some(false), true, Some(vec![]), None), vec!["(nothing to purge)"]);
    // Without a purged list, only the preview hint remains.
    assert_eq!(purge_report(None, false, None, None), vec!["", "Re-run with --yes to apply."]);
}
