use kb::entry::{DedupMode, EntryKind, KindData, Source, WriteInput};
use kb::error::KbError;
use kb::normalize::natural_key;
use kb::purge::{apply_rewrite, plan_purge, purge_closure, PurgeRow};
use kb::store::build_entry;

fn id_text(n: u128) -> String {
    ulid::Ulid(n).to_string()
}

fn row(rowid: i64, n: u128, kind: &str, title: &str, body: &str, superseded_by: Option<u128>) -> PurgeRow {
    PurgeRow {
        rowid,
        ulid: id_text(n),
        kind: kind.into(),
        title: title.into(),
        body: body.into(),
        superseded_by: superseded_by.map(id_text),
    }
}

/// A (1) superseded B (2), which superseded C (3); D (4) references A and C;
/// E (5) references nothing; F (6) superseded E.
fn table() -> Vec<PurgeRow> {
    let a = id_text(1);
    let c = id_text(3);
    vec![
        row(10, 1, "Fact", "a", "root", None),
        row(11, 2, "Fact", "b", "older", Some(1)),
        row(12, 3, "Lesson", "c", "oldest", Some(2)),
        row(13, 4, "Decision", "d", &format!("see [[{a}]] and [[{c}]], again [[{a}]]"), None),
        row(14, 5, "Fact", "e", &format!("mentions {a} without brackets"), None),
        row(15, 6, "Fact", "f", "other chain", Some(5)),
    ]
}

#[test]
fn purge_follows_the_supersede_chain() {
    let plan = plan_purge(&table(), 1, true).unwrap();
    assert!(plan.summary.dry_run);
    let ids: Vec<u128> = plan.summary.purged.iter().map(|p| p.id).collect();
    assert_eq!(ids, vec![1, 2, 3]);
    assert_eq!(plan.summary.purged[2].kind, EntryKind::Lesson);
    assert_eq!(plan.summary.purged[1].title, "b");
    assert_eq!(plan.purge_rowids, vec![10, 11, 12]);
    assert_eq!(plan.purged_texts, vec![id_text(1), id_text(2), id_text(3)]);
}

#[test]
fn purge_rewrites_references_in_survivors() {
    let plan = plan_purge(&table(), 1, false).unwrap();
    assert!(!plan.summary.dry_run);
    assert_eq!(plan.summary.rewritten.len(), 1);
    assert_eq!(plan.summary.rewritten[0].id, 4);
    assert_eq!(plan.summary.rewritten[0].refs_count, 3);
    assert_eq!(plan.body_updates.len(), 1);
    assert_eq!(plan.body_updates[0].rowid, 13);
    let a = id_text(1);
    let c = id_text(3);
    assert_eq!(
        plan.body_updates[0].body,
        format!("see [[{a} → deleted]] and [[{c} → deleted]], again [[{a} → deleted]]")
    );
}

#[test]
fn purge_of_a_middle_entry_keeps_its_successor() {
    let plan = plan_purge(&table(), 2, true).unwrap();
    let ids: Vec<u128> = plan.summary.purged.iter().map(|p| p.id).collect();
    assert_eq!(ids, vec![2, 3]);
    // D references C, which goes.
    assert_eq!(plan.summary.rewritten.len(), 1);
    assert_eq!(plan.summary.rewritten[0].refs_count, 1);
}

#[test]
fn purge_of_unknown_entry_is_not_found() {
    assert!(matches!(plan_purge(&table(), 99, true), Err(KbError::NotFound)));
    assert!(matches!(plan_purge(&vec![], 1, false), Err(KbError::NotFound)));
}

#[test]
fn purge_skips_dangling_successor_links() {
    // B points to A, which is absent; purging B only takes B.
    let rows = vec![row(1, 2, "Fact", "b", "", Some(1))];
    let plan = plan_purge(&rows, 2, true).unwrap();
    assert_eq!(plan.summary.purged.len(), 1);
    assert!(plan.summary.rewritten.is_empty());
}

#[test]
fn purge_refuses_corrupt_kind() {
    let mut rows = table();
    rows[1].kind = "Bogus".into();
    match plan_purge(&rows, 1, true) {
        Err(KbError::BadRequest(m)) => assert_eq!(m, "corrupt kind in row 11: unknown kind: Bogus"),
        other => panic!("unexpected {other:?}"),
    }
    // Not reachable from E: purging E is unaffected.
    assert!(plan_purge(&rows, 5, true).is_ok());
}

#[test]
fn purge_refuses_corrupt_successor_identifier() {
    let mut rows = table();
    rows.push(PurgeRow {
        rowid: 20,
        ulid: "not-a-ulid".into(),
        kind: "Fact".into(),
        title: "x".into(),
        body: String::new(),
        superseded_by: Some(id_text(5)),
    });
    match plan_purge(&rows, 5, true) {
        Err(KbError::BadRequest(m)) => {
            assert_eq!(m, "corrupt superseded_by ulid not-a-ulid: invalid length")
        }
        other => panic!("unexpected {other:?}"),
    }
}

#[test]
fn purge_refuses_corrupt_referencing_identifier() {
    let a = id_text(1);
    let mut rows = table();
    rows.push(PurgeRow {
        rowid: 21,
        ulid: "0000000000000000000000000!".into(),
        kind: "Fact".into(),
        title: "x".into(),
        body: format!("[[{a}]]"),
        superseded_by: None,
    });
    match plan_purge(&rows, 1, true) {
        Err(KbError::BadRequest(m)) => {
            assert_eq!(m, "corrupt ulid 0000000000000000000000000!: invalid character")
        }
        other => panic!("unexpected {other:?}"),
    }
}

#[test]
fn closure_visits_each_entry_once() {
    // Two rows claiming the same successor, and a cycle back to the root.
    let rows = vec![
        row(1, 1, "Fact", "a", "", Some(3)),
        row(2, 2, "Fact", "b", "", Some(1)),
        row(3, 3, "Fact", "c", "", Some(1)),
    ];
    let set = purge_closure(&rows, 1).unwrap();
    let mut ids: Vec<u128> = set.entries.iter().map(|e| e.id).collect();
    assert_eq!(ids[0], 1);
    ids.sort();
    assert_eq!(ids, vec![1, 2, 3]);
}

#[test]
fn lowercase_identifier_in_reference_is_left_alone() {
    let a = id_text(u128::MAX).to_lowercase();
    assert_ne!(a, id_text(u128::MAX));
    let rows = vec![row(1, u128::MAX, "Fact", "a", "", None), row(2, 2, "Fact", "b", &format!("[[{a}]]"), None)];
    let plan = plan_purge(&rows, u128::MAX, true).unwrap();
    assert!(plan.summary.rewritten.is_empty());
}

#[test]
fn rewritten_entry_gets_next_version() {
    let data = KindData::Fact { claim: "c".into(), evidence: vec![] };
    let prev = build_entry(
        WriteInput {
            title: "t".into(),
            body: "see [[X]]".into(),
            tags: vec![],
            source: Source::Human,
            data: data.clone(),
            supersedes: None,
            dedup: DedupMode::Check,
            proceed_token: None,
        },
        natural_key(&data),
        9,
        "2024-01-01T00:00:00+00:00".into(),
    );
    let next = apply_rewrite(prev.clone(), "see [[X → deleted]]".into(), "2024-03-03T00:00:00+00:00".into());
    assert_eq!(next.body, "see [[X → deleted]]");
    assert_eq!(next.version, 2);
    assert_eq!(next.updated_at, "2024-03-03T00:00:00+00:00");
    assert_eq!(next.created_at, prev.created_at);
    assert_eq!(next.title, prev.title);
    assert_eq!(next.id, 9);
}

#[test]
fn purge_visits_breadth_first_in_table_order() {
    // 1 superseded 3 and 2 (2 comes later in the table); 3 superseded 4.
    let rows = vec![
        row(1, 1, "Fact", "root", "", None),
        row(2, 3, "Fact", "c", "", Some(1)),
        row(3, 4, "Fact", "d", "", Some(3)),
        row(4, 2, "Fact", "b", "", Some(1)),
    ];
    let plan = plan_purge(&rows, 1, false).unwrap();
    let ids: Vec<u128> = plan.summary.purged.iter().map(|p| p.id).collect();
    assert_eq!(ids, vec![1, 3, 2, 4]);
}

#[test]
fn preview_matches_real_run() {
    let preview = plan_purge(&table(), 1, true).unwrap();
    let real = plan_purge(&table(), 1, false).unwrap();
    assert!(preview.summary.dry_run && !real.summary.dry_run);
    let ids = |p: &kb::purge::PurgePlan| p.summary.purged.iter().map(|e| e.id).collect::<Vec<_>>();
    assert_eq!(ids(&preview), ids(&real));
    assert_eq!(preview.purge_rowids, real.purge_rowids);
    assert_eq!(preview.summary.rewritten.len(), real.summary.rewritten.len());
    assert_eq!(preview.summary.rewritten[0].refs_count, real.summary.rewritten[0].refs_count);
    assert_eq!(preview.body_updates[0].body, real.body_updates[0].body);
}

#[test]
fn nothing_left_points_at_a_purged_entry() {
    let rows = table();
    let plan = plan_purge(&rows, 1, false).unwrap();
    let left: Vec<PurgeRow> =
        rows.iter().filter(|r| !plan.purge_rowids.contains(&r.rowid)).cloned().collect();
    // No row left is superseded by a purged entry, and the entry is gone.
    for r in &left {
        if let Some(s) = &r.superseded_by {
            assert!(!plan.purged_texts.contains(s));
        }
    }
    assert!(matches!(plan_purge(&left, 1, false), Err(KbError::NotFound)));
    // Every survivor holding a marker is rewritten.
    for r in &left {
        let marked = plan.purged_texts.iter().any(|p| r.body.contains(&format!("[[{p}]]")));
        assert_eq!(marked, plan.body_updates.iter().any(|u| u.rowid == r.rowid));
    }
}
