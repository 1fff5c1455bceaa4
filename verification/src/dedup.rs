//! Duplicate detection decisions.
//!
//! Layer 1 is an exact match on natural-key hash and kind among live
//! entries; layer 2 is a bm25 full-text search on the natural-key text,
//! at most `LAYER2_LIMIT` candidates. Both queries run against storage; this
//! module decides what their answers mean. On any candidate the caller gets
//! a `proceed_token` derived from the natural key alone, and re-sending the
//! write with `dedup = force` and that token bypasses the check for this key.

use vstd::prelude::*;

use crate::entry::{kind_name, DedupLayer, DuplicateCandidate, EntryKind};
use crate::ids::{parse_id, ulid_decode_spec, ulid_error_text};
use crate::refs::{contains_text, filtered_by, lemma_occurs_piece};
use crate::store::{kind_named, param_views, parse_kind, ParamView, SqlParam, SqlQuery};
use crate::normalize::{hex_encode, hex_of, sha256_of, NaturalKey};
use vstd::utf8::encode_utf8;

verus! {

/// Largest number of layer-2 candidates requested from full-text search.
pub const LAYER2_LIMIT: u32 = 10;

/// What the duplicate check concluded.
#[derive(Debug, Clone)]
pub enum DedupOutcome {
    Clean,
    Found { candidates: Vec<DuplicateCandidate>, proceed_token: String },
}

/// The salt that prefixes the natural-key text before hashing a token.
pub open spec fn token_salt() -> Seq<char> {
    "kb:proceed:v1:"@
}

/// The proceed token of a natural-key text: lowercase hex of
/// SHA-256(`kb:proceed:v1:` followed by the text, as UTF-8).
pub open spec fn proceed_token_of(text: Seq<char>) -> Seq<char> {
    hex_of(sha256_of(encode_utf8(token_salt() + text)))
}

/// Deterministic per-key proceed token. It only says "the client saw the
/// candidates returned for this key"; the single-user model needs no replay
/// protection.
pub fn compute_proceed_token(nk: &NaturalKey) -> (t: String)
    ensures
        t@ == proceed_token_of(nk.text@),
{
    let mut salted = String::from_str("kb:proceed:v1:");
    salted.append(nk.text.as_str());
    let digest = crate::normalize::sha256_digest(salted.as_str().as_bytes());
    hex_encode(&digest)
}

/// Combines the two layers: an exact (layer-1) hit short-circuits and is the
/// only candidate; otherwise the layer-2 hits are the candidates; with none,
/// the write is clean.
pub fn decide_dedup(
    layer1: Option<DuplicateCandidate>,
    layer2: Vec<DuplicateCandidate>,
    nk: &NaturalKey,
) -> (out: DedupOutcome)
    ensures
        match layer1 {
            Some(c) => out matches DedupOutcome::Found { candidates, proceed_token }
                && candidates@ == seq![c] && proceed_token@ == proceed_token_of(nk.text@),
            None => if layer2@.len() == 0 {
                out is Clean
            } else {
                out matches DedupOutcome::Found { candidates, proceed_token }
                    && candidates@ == layer2@ && proceed_token@ == proceed_token_of(nk.text@)
            },
        },
{
    match layer1 {
        Some(c) => {
            let mut candidates = Vec::new();
            candidates.push(c);
            DedupOutcome::Found { candidates, proceed_token: compute_proceed_token(nk) }
        },
        None => {
            if layer2.len() == 0 {
                DedupOutcome::Clean
            } else {
                DedupOutcome::Found { candidates: layer2, proceed_token: compute_proceed_token(nk) }
            }
        },
    }
}

/// Layer-1 statement: a live entry of the same kind with the same
/// natural-key hash, at most one.
pub open spec fn layer1_sql() -> Seq<char> {
    "SELECT ulid, kind, title, natural_key_text\n           FROM entries\n          WHERE natural_key_hash = ?1\n            AND kind = ?2\n            AND deprecated_at IS NULL\n          LIMIT 1"@
}

/// Layer-2 statement: live entries of the same kind whose full-text index
/// matches `jieba_query` of the natural-key text, scored with bm25 weights
/// (10, 3, 1), best first, at most `LAYER2_LIMIT`.
pub open spec fn layer2_sql() -> Seq<char> {
    "SELECT e.ulid, e.kind, e.title, e.natural_key_text,\n                bm25(entries_fts, 10.0, 3.0, 1.0) AS score\n           FROM entries_fts\n           JOIN entries e ON entries_fts.rowid = e.rowid\n          WHERE entries_fts MATCH jieba_query(?1)\n            AND e.kind = ?2\n            AND e.deprecated_at IS NULL\n          ORDER BY score\n          LIMIT ?3"@
}

/// The layer-1 query for a key of kind `kind`. Parameters: the hash bytes
/// and the kind name.
pub fn layer1_query(kind: EntryKind, nk: &NaturalKey) -> (r: SqlQuery)
    ensures
        r.sql@ == layer1_sql(),
        param_views(r.params@) == seq![ParamView::Blob(nk.hash@), ParamView::Text(kind_name(kind))],
        !r.scored,
        filtered_by(r.sql@, "AND kind = ?2"@),
        filtered_by(r.sql@, "AND deprecated_at IS NULL"@),
{
    proof {
        lemma_layer1_live_same_kind();
    }
    let mut hash: Vec<u8> = Vec::new();
    let mut i: usize = 0;
    while i < 32
        invariant
            i <= 32,
            nk.hash@.len() == 32,
            hash@ == nk.hash@.take(i as int),
        decreases 32 - i,
    {
        hash.push(nk.hash[i]);
        assert(nk.hash@.take(i + 1) == nk.hash@.take(i as int).push(nk.hash@[i as int]));
        i = i + 1;
    }
    assert(nk.hash@.take(32) == nk.hash@);
    let mut params: Vec<SqlParam> = Vec::new();
    params.push(SqlParam::Blob(hash));
    params.push(SqlParam::Text(String::from_str(kind.as_str())));
    assert(param_views(params@) =~= seq![ParamView::Blob(nk.hash@), ParamView::Text(kind_name(kind))]);
    let sql = String::from_str(
        "SELECT ulid, kind, title, natural_key_text\n           FROM entries\n          WHERE natural_key_hash = ?1\n            AND kind = ?2\n            AND deprecated_at IS NULL\n          LIMIT 1",
    );
    SqlQuery { sql, params, scored: false }
}

/// The layer-2 query for a key of kind `kind`. Parameters: the key text,
/// the kind name and `LAYER2_LIMIT`.
pub fn layer2_query(kind: EntryKind, nk: &NaturalKey) -> (r: SqlQuery)
    ensures
        r.sql@ == layer2_sql(),
        param_views(r.params@) == seq![
            ParamView::Text(nk.text@),
            ParamView::Text(kind_name(kind)),
            ParamView::Int(10),
        ],
        !r.scored,
        filtered_by(r.sql@, "AND e.kind = ?2"@),
        filtered_by(r.sql@, "AND e.deprecated_at IS NULL"@),
{
    proof {
        lemma_layer2_live_same_kind();
    }
    let mut params: Vec<SqlParam> = Vec::new();
    params.push(SqlParam::Text(nk.text.clone()));
    params.push(SqlParam::Text(String::from_str(kind.as_str())));
    params.push(SqlParam::Int(LAYER2_LIMIT as i64));
    assert(param_views(params@) =~= seq![
        ParamView::Text(nk.text@),
        ParamView::Text(kind_name(kind)),
        ParamView::Int(10),
    ]);
    let sql = String::from_str(
        "SELECT e.ulid, e.kind, e.title, e.natural_key_text,\n                bm25(entries_fts, 10.0, 3.0, 1.0) AS score\n           FROM entries_fts\n           JOIN entries e ON entries_fts.rowid = e.rowid\n          WHERE entries_fts MATCH jieba_query(?1)\n            AND e.kind = ?2\n            AND e.deprecated_at IS NULL\n          ORDER BY score\n          LIMIT ?3",
    );
    SqlQuery { sql, params, scored: false }
}

/// Bits of the score a layer-1 (exact) candidate carries: the `f64` 1.0.
pub const EXACT_SCORE_BITS: u64 = 0x3FF0_0000_0000_0000;

/// The candidate a duplicate-check row stands for: its identifier and
/// kind read from their stored texts (identifier first), with the given
/// layer and score. A corrupt identifier answers its decoding error's text;
/// an unknown kind `unknown kind: <kind>`.
pub open spec fn row_candidate_spec(
    ulid: Seq<char>,
    kind: Seq<char>,
    title: String,
    nk_text: String,
    layer: DedupLayer,
    score_bits: u64,
) -> Result<DuplicateCandidate, Seq<char>> {
    match ulid_decode_spec(ulid) {
        Err(e) => Err(ulid_error_text(e)),
        Ok(id) => match kind_named(kind) {
            None => Err("unknown kind: "@ + kind),
            Some(k) => Ok(
                DuplicateCandidate {
                    id,
                    kind: k,
                    title,
                    natural_key_text: nk_text,
                    layer,
                    score_bits,
                },
            ),
        },
    }
}

fn row_candidate(
    ulid: &str,
    kind: &str,
    title: String,
    nk_text: String,
    layer: DedupLayer,
    score_bits: u64,
) -> (r: Result<DuplicateCandidate, String>)
    ensures
        match row_candidate_spec(ulid@, kind@, title, nk_text, layer, score_bits) {
            Ok(c) => r == Ok::<DuplicateCandidate, String>(c),
            Err(m) => r matches Err(e) && e@ == m,
        },
{
    let id = match parse_id(ulid) {
        Ok(id) => id,
        Err(e) => return Err(e.message()),
    };
    let k = match parse_kind(kind) {
        Ok(k) => k,
        Err(m) => return Err(m),
    };
    Ok(DuplicateCandidate { id, kind: k, title, natural_key_text: nk_text, layer, score_bits })
}

/// A layer-1 row as a candidate: layer `Exact`, score 1.0.
pub fn layer1_candidate(ulid: &str, kind: &str, title: String, nk_text: String) -> (r: Result<
    DuplicateCandidate,
    String,
>)
    ensures
        match row_candidate_spec(ulid@, kind@, title, nk_text, DedupLayer::Exact, EXACT_SCORE_BITS) {
            Ok(c) => r == Ok::<DuplicateCandidate, String>(c),
            Err(m) => r matches Err(e) && e@ == m,
        },
{
    row_candidate(ulid, kind, title, nk_text, DedupLayer::Exact, EXACT_SCORE_BITS)
}

/// A layer-2 row as a candidate: layer `Fts`, with the bits of the row's
/// bm25 score.
pub fn layer2_candidate(
    ulid: &str,
    kind: &str,
    title: String,
    nk_text: String,
    score_bits: u64,
) -> (r: Result<DuplicateCandidate, String>)
    ensures
        match row_candidate_spec(ulid@, kind@, title, nk_text, DedupLayer::Fts, score_bits) {
            Ok(c) => r == Ok::<DuplicateCandidate, String>(c),
            Err(m) => r matches Err(e) && e@ == m,
        },
{
    row_candidate(ulid, kind, title, nk_text, DedupLayer::Fts, score_bits)
}

/// Law: the layer-1 statement returns only live entries of the written kind
/// whose natural-key hash is the written one: its filter holds
/// `natural_key_hash = ?1` (the hash bytes), `AND kind = ?2` (the kind name,
/// see `layer1_query`) and `AND deprecated_at IS NULL`.
pub proof fn lemma_layer1_live_same_kind()
    ensures
        filtered_by(layer1_sql(), "natural_key_hash = ?1"@),
        filtered_by(layer1_sql(), "AND kind = ?2"@),
        filtered_by(layer1_sql(), "AND deprecated_at IS NULL"@),
        contains_text(layer1_sql(), "LIMIT 1"@),
{
    reveal_strlit("SELECT ulid, kind, title, natural_key_text\n           FROM entries\n          WHERE natural_key_hash = ?1\n            AND kind = ?2\n            AND deprecated_at IS NULL\n          LIMIT 1");
    reveal_strlit("SELECT ulid, kind, title, natural_key_text\n           FROM entries\n          ");
    reveal_strlit("WHERE ");
    reveal_strlit("natural_key_hash = ?1\n            AND kind = ?2\n            AND deprecated_at IS NULL\n          LIMIT 1");
    assert("SELECT ulid, kind, title, natural_key_text\n           FROM entries\n          WHERE natural_key_hash = ?1\n            AND kind = ?2\n            AND deprecated_at IS NULL\n          LIMIT 1"@ =~= "SELECT ulid, kind, title, natural_key_text\n           FROM entries\n          "@ + "WHERE "@ + "natural_key_hash = ?1\n            AND kind = ?2\n            AND deprecated_at IS NULL\n          LIMIT 1"@);
    lemma_occurs_piece("SELECT ulid, kind, title, natural_key_text\n           FROM entries\n          "@, "WHERE "@, "natural_key_hash = ?1\n            AND kind = ?2\n            AND deprecated_at IS NULL\n          LIMIT 1"@);
    reveal_strlit("SELECT ulid, kind, title, natural_key_text\n           FROM entries\n          WHERE natural_key_hash = ?1\n            AND kind = ?2\n            AND deprecated_at IS NULL\n          LIMIT 1");
    reveal_strlit("SELECT ulid, kind, title, natural_key_text\n           FROM entries\n          WHERE natural_key_hash = ?1\n            AND kind = ?2\n            AND deprecated_at IS NULL\n          ");
    reveal_strlit("LIMIT");
    reveal_strlit(" 1");
    assert("SELECT ulid, kind, title, natural_key_text\n           FROM entries\n          WHERE natural_key_hash = ?1\n            AND kind = ?2\n            AND deprecated_at IS NULL\n          LIMIT 1"@ =~= "SELECT ulid, kind, title, natural_key_text\n           FROM entries\n          WHERE natural_key_hash = ?1\n            AND kind = ?2\n            AND deprecated_at IS NULL\n          "@ + "LIMIT"@ + " 1"@);
    lemma_occurs_piece("SELECT ulid, kind, title, natural_key_text\n           FROM entries\n          WHERE natural_key_hash = ?1\n            AND kind = ?2\n            AND deprecated_at IS NULL\n          "@, "LIMIT"@, " 1"@);
    reveal_strlit("SELECT ulid, kind, title, natural_key_text\n           FROM entries\n          WHERE natural_key_hash = ?1\n            AND kind = ?2\n            AND deprecated_at IS NULL\n          LIMIT 1");
    reveal_strlit("SELECT ulid, kind, title, natural_key_text\n           FROM entries\n          WHERE ");
    reveal_strlit("natural_key_hash = ?1");
    reveal_strlit("\n            AND kind = ?2\n            AND deprecated_at IS NULL\n          LIMIT 1");
    assert("SELECT ulid, kind, title, natural_key_text\n           FROM entries\n          WHERE natural_key_hash = ?1\n            AND kind = ?2\n            AND deprecated_at IS NULL\n          LIMIT 1"@ =~= "SELECT ulid, kind, title, natural_key_text\n           FROM entries\n          WHERE "@ + "natural_key_hash = ?1"@ + "\n            AND kind = ?2\n            AND deprecated_at IS NULL\n          LIMIT 1"@);
    lemma_occurs_piece("SELECT ulid, kind, title, natural_key_text\n           FROM entries\n          WHERE "@, "natural_key_hash = ?1"@, "\n            AND kind = ?2\n            AND deprecated_at IS NULL\n          LIMIT 1"@);
    reveal_strlit("SELECT ulid, kind, title, natural_key_text\n           FROM entries\n          WHERE natural_key_hash = ?1\n            AND kind = ?2\n            AND deprecated_at IS NULL\n          LIMIT 1");
    reveal_strlit("SELECT ulid, kind, title, natural_key_text\n           FROM entries\n          WHERE natural_key_hash = ?1\n            ");
    reveal_strlit("AND kind = ?2");
    reveal_strlit("\n            AND deprecated_at IS NULL\n          LIMIT 1");
    assert("SELECT ulid, kind, title, natural_key_text\n           FROM entries\n          WHERE natural_key_hash = ?1\n            AND kind = ?2\n            AND deprecated_at IS NULL\n          LIMIT 1"@ =~= "SELECT ulid, kind, title, natural_key_text\n           FROM entries\n          WHERE natural_key_hash = ?1\n            "@ + "AND kind = ?2"@ + "\n            AND deprecated_at IS NULL\n          LIMIT 1"@);
    lemma_occurs_piece("SELECT ulid, kind, title, natural_key_text\n           FROM entries\n          WHERE natural_key_hash = ?1\n            "@, "AND kind = ?2"@, "\n            AND deprecated_at IS NULL\n          LIMIT 1"@);
    reveal_strlit("SELECT ulid, kind, title, natural_key_text\n           FROM entries\n          WHERE natural_key_hash = ?1\n            AND kind = ?2\n            AND deprecated_at IS NULL\n          LIMIT 1");
    reveal_strlit("SELECT ulid, kind, title, natural_key_text\n           FROM entries\n          WHERE natural_key_hash = ?1\n            AND kind = ?2\n            ");
    reveal_strlit("AND deprecated_at IS NULL");
    reveal_strlit("\n          LIMIT 1");
    assert("SELECT ulid, kind, title, natural_key_text\n           FROM entries\n          WHERE natural_key_hash = ?1\n            AND kind = ?2\n            AND deprecated_at IS NULL\n          LIMIT 1"@ =~= "SELECT ulid, kind, title, natural_key_text\n           FROM entries\n          WHERE natural_key_hash = ?1\n            AND kind = ?2\n            "@ + "AND deprecated_at IS NULL"@ + "\n          LIMIT 1"@);
    lemma_occurs_piece("SELECT ulid, kind, title, natural_key_text\n           FROM entries\n          WHERE natural_key_hash = ?1\n            AND kind = ?2\n            "@, "AND deprecated_at IS NULL"@, "\n          LIMIT 1"@);
    reveal_strlit("SELECT ulid, kind, title, natural_key_text\n           FROM entries\n          WHERE natural_key_hash = ?1\n            AND kind = ?2\n            AND deprecated_at IS NULL\n          LIMIT 1");
    reveal_strlit("SELECT ulid, kind, title, natural_key_text\n           FROM entries\n          WHERE natural_key_hash = ?1\n            AND kind = ?2\n            AND deprecated_at IS NULL\n          ");
    reveal_strlit("LIMIT 1");
    reveal_strlit("");
    assert("SELECT ulid, kind, title, natural_key_text\n           FROM entries\n          WHERE natural_key_hash = ?1\n            AND kind = ?2\n            AND deprecated_at IS NULL\n          LIMIT 1"@ =~= "SELECT ulid, kind, title, natural_key_text\n           FROM entries\n          WHERE natural_key_hash = ?1\n            AND kind = ?2\n            AND deprecated_at IS NULL\n          "@ + "LIMIT 1"@ + ""@);
    lemma_occurs_piece("SELECT ulid, kind, title, natural_key_text\n           FROM entries\n          WHERE natural_key_hash = ?1\n            AND kind = ?2\n            AND deprecated_at IS NULL\n          "@, "LIMIT 1"@, ""@);
}

/// Law: the layer-2 statement returns only live entries of the written kind
/// that match the key text: its filter holds `MATCH jieba_query(?1)` (the
/// key text), `AND e.kind = ?2` (the kind name, see `layer2_query`) and
/// `AND e.deprecated_at IS NULL`; the score is bm25 with weights (10, 3, 1),
/// ranked ascending (best match first), at most `?3` rows.
pub proof fn lemma_layer2_live_same_kind()
    ensures
        filtered_by(layer2_sql(), "entries_fts MATCH jieba_query(?1)"@),
        filtered_by(layer2_sql(), "AND e.kind = ?2"@),
        filtered_by(layer2_sql(), "AND e.deprecated_at IS NULL"@),
        contains_text(layer2_sql(), "bm25(entries_fts, 10.0, 3.0, 1.0) AS score"@),
        contains_text(layer2_sql(), "ORDER BY score\n          LIMIT ?3"@),
{
    reveal_strlit("SELECT e.ulid, e.kind, e.title, e.natural_key_text,\n                bm25(entries_fts, 10.0, 3.0, 1.0) AS score\n           FROM entries_fts\n           JOIN entries e ON entries_fts.rowid = e.rowid\n          WHERE entries_fts MATCH jieba_query(?1)\n            AND e.kind = ?2\n            AND e.deprecated_at IS NULL\n          ORDER BY score\n          LIMIT ?3");
    reveal_strlit("SELECT e.ulid, e.kind, e.title, e.natural_key_text,\n                bm25(entries_fts, 10.0, 3.0, 1.0) AS score\n           FROM entries_fts\n           JOIN entries e ON entries_fts.rowid = e.rowid\n          ");
    reveal_strlit("WHERE ");
    reveal_strlit("entries_fts MATCH jieba_query(?1)\n            AND e.kind = ?2\n            AND e.deprecated_at IS NULL\n          ORDER BY score\n          LIMIT ?3");
    assert("SELECT e.ulid, e.kind, e.title, e.natural_key_text,\n                bm25(entries_fts, 10.0, 3.0, 1.0) AS score\n           FROM entries_fts\n           JOIN entries e ON entries_fts.rowid = e.rowid\n          WHERE entries_fts MATCH jieba_query(?1)\n            AND e.kind = ?2\n            AND e.deprecated_at IS NULL\n          ORDER BY score\n          LIMIT ?3"@ =~= "SELECT e.ulid, e.kind, e.title, e.natural_key_text,\n                bm25(entries_fts, 10.0, 3.0, 1.0) AS score\n           FROM entries_fts\n           JOIN entries e ON entries_fts.rowid = e.rowid\n          "@ + "WHERE "@ + "entries_fts MATCH jieba_query(?1)\n            AND e.kind = ?2\n            AND e.deprecated_at IS NULL\n          ORDER BY score\n          LIMIT ?3"@);
    lemma_occurs_piece("SELECT e.ulid, e.kind, e.title, e.natural_key_text,\n                bm25(entries_fts, 10.0, 3.0, 1.0) AS score\n           FROM entries_fts\n           JOIN entries e ON entries_fts.rowid = e.rowid\n          "@, "WHERE "@, "entries_fts MATCH jieba_query(?1)\n            AND e.kind = ?2\n            AND e.deprecated_at IS NULL\n          ORDER BY score\n          LIMIT ?3"@);
    reveal_strlit("SELECT e.ulid, e.kind, e.title, e.natural_key_text,\n                bm25(entries_fts, 10.0, 3.0, 1.0) AS score\n           FROM entries_fts\n           JOIN entries e ON entries_fts.rowid = e.rowid\n          WHERE entries_fts MATCH jieba_query(?1)\n            AND e.kind = ?2\n            AND e.deprecated_at IS NULL\n          ORDER BY score\n          LIMIT ?3");
    reveal_strlit("SELECT e.ulid, e.kind, e.title, e.natural_key_text,\n                bm25(entries_fts, 10.0, 3.0, 1.0) AS score\n           FROM entries_fts\n           JOIN entries e ON entries_fts.rowid = e.rowid\n          WHERE entries_fts MATCH jieba_query(?1)\n            AND e.kind = ?2\n            AND e.deprecated_at IS NULL\n          ORDER BY score\n          ");
    reveal_strlit("LIMIT");
    reveal_strlit(" ?3");
    assert("SELECT e.ulid, e.kind, e.title, e.natural_key_text,\n                bm25(entries_fts, 10.0, 3.0, 1.0) AS score\n           FROM entries_fts\n           JOIN entries e ON entries_fts.rowid = e.rowid\n          WHERE entries_fts MATCH jieba_query(?1)\n            AND e.kind = ?2\n            AND e.deprecated_at IS NULL\n          ORDER BY score\n          LIMIT ?3"@ =~= "SELECT e.ulid, e.kind, e.title, e.natural_key_text,\n                bm25(entries_fts, 10.0, 3.0, 1.0) AS score\n           FROM entries_fts\n           JOIN entries e ON entries_fts.rowid = e.rowid\n          WHERE entries_fts MATCH jieba_query(?1)\n            AND e.kind = ?2\n            AND e.deprecated_at IS NULL\n          ORDER BY score\n          "@ + "LIMIT"@ + " ?3"@);
    lemma_occurs_piece("SELECT e.ulid, e.kind, e.title, e.natural_key_text,\n                bm25(entries_fts, 10.0, 3.0, 1.0) AS score\n           FROM entries_fts\n           JOIN entries e ON entries_fts.rowid = e.rowid\n          WHERE entries_fts MATCH jieba_query(?1)\n            AND e.kind = ?2\n            AND e.deprecated_at IS NULL\n          ORDER BY score\n          "@, "LIMIT"@, " ?3"@);
    reveal_strlit("SELECT e.ulid, e.kind, e.title, e.natural_key_text,\n                bm25(entries_fts, 10.0, 3.0, 1.0) AS score\n           FROM entries_fts\n           JOIN entries e ON entries_fts.rowid = e.rowid\n          WHERE entries_fts MATCH jieba_query(?1)\n            AND e.kind = ?2\n            AND e.deprecated_at IS NULL\n          ORDER BY score\n          LIMIT ?3");
    reveal_strlit("SELECT e.ulid, e.kind, e.title, e.natural_key_text,\n                bm25(entries_fts, 10.0, 3.0, 1.0) AS score\n           FROM entries_fts\n           JOIN entries e ON entries_fts.rowid = e.rowid\n          WHERE ");
    reveal_strlit("entries_fts MATCH jieba_query(?1)");
    reveal_strlit("\n            AND e.kind = ?2\n            AND e.deprecated_at IS NULL\n          ORDER BY score\n          LIMIT ?3");
    assert("SELECT e.ulid, e.kind, e.title, e.natural_key_text,\n                bm25(entries_fts, 10.0, 3.0, 1.0) AS score\n           FROM entries_fts\n           JOIN entries e ON entries_fts.rowid = e.rowid\n          WHERE entries_fts MATCH jieba_query(?1)\n            AND e.kind = ?2\n            AND e.deprecated_at IS NULL\n          ORDER BY score\n          LIMIT ?3"@ =~= "SELECT e.ulid, e.kind, e.title, e.natural_key_text,\n                bm25(entries_fts, 10.0, 3.0, 1.0) AS score\n           FROM entries_fts\n           JOIN entries e ON entries_fts.rowid = e.rowid\n          WHERE "@ + "entries_fts MATCH jieba_query(?1)"@ + "\n            AND e.kind = ?2\n            AND e.deprecated_at IS NULL\n          ORDER BY score\n          LIMIT ?3"@);
    lemma_occurs_piece("SELECT e.ulid, e.kind, e.title, e.natural_key_text,\n                bm25(entries_fts, 10.0, 3.0, 1.0) AS score\n           FROM entries_fts\n           JOIN entries e ON entries_fts.rowid = e.rowid\n          WHERE "@, "entries_fts MATCH jieba_query(?1)"@, "\n            AND e.kind = ?2\n            AND e.deprecated_at IS NULL\n          ORDER BY score\n          LIMIT ?3"@);
    reveal_strlit("SELECT e.ulid, e.kind, e.title, e.natural_key_text,\n                bm25(entries_fts, 10.0, 3.0, 1.0) AS score\n           FROM entries_fts\n           JOIN entries e ON entries_fts.rowid = e.rowid\n          WHERE entries_fts MATCH jieba_query(?1)\n            AND e.kind = ?2\n            AND e.deprecated_at IS NULL\n          ORDER BY score\n          LIMIT ?3");
    reveal_strlit("SELECT e.ulid, e.kind, e.title, e.natural_key_text,\n                bm25(entries_fts, 10.0, 3.0, 1.0) AS score\n           FROM entries_fts\n           JOIN entries e ON entries_fts.rowid = e.rowid\n          WHERE entries_fts MATCH jieba_query(?1)\n            ");
    reveal_strlit("AND e.kind = ?2");
    reveal_strlit("\n            AND e.deprecated_at IS NULL\n          ORDER BY score\n          LIMIT ?3");
    assert("SELECT e.ulid, e.kind, e.title, e.natural_key_text,\n                bm25(entries_fts, 10.0, 3.0, 1.0) AS score\n           FROM entries_fts\n           JOIN entries e ON entries_fts.rowid = e.rowid\n          WHERE entries_fts MATCH jieba_query(?1)\n            AND e.kind = ?2\n            AND e.deprecated_at IS NULL\n          ORDER BY score\n          LIMIT ?3"@ =~= "SELECT e.ulid, e.kind, e.title, e.natural_key_text,\n                bm25(entries_fts, 10.0, 3.0, 1.0) AS score\n           FROM entries_fts\n           JOIN entries e ON entries_fts.rowid = e.rowid\n          WHERE entries_fts MATCH jieba_query(?1)\n            "@ + "AND e.kind = ?2"@ + "\n            AND e.deprecated_at IS NULL\n          ORDER BY score\n          LIMIT ?3"@);
    lemma_occurs_piece("SELECT e.ulid, e.kind, e.title, e.natural_key_text,\n                bm25(entries_fts, 10.0, 3.0, 1.0) AS score\n           FROM entries_fts\n           JOIN entries e ON entries_fts.rowid = e.rowid\n          WHERE entries_fts MATCH jieba_query(?1)\n            "@, "AND e.kind = ?2"@, "\n            AND e.deprecated_at IS NULL\n          ORDER BY score\n          LIMIT ?3"@);
    reveal_strlit("SELECT e.ulid, e.kind, e.title, e.natural_key_text,\n                bm25(entries_fts, 10.0, 3.0, 1.0) AS score\n           FROM entries_fts\n           JOIN entries e ON entries_fts.rowid = e.rowid\n          WHERE entries_fts MATCH jieba_query(?1)\n            AND e.kind = ?2\n            AND e.deprecated_at IS NULL\n          ORDER BY score\n          LIMIT ?3");
    reveal_strlit("SELECT e.ulid, e.kind, e.title, e.natural_key_text,\n                bm25(entries_fts, 10.0, 3.0, 1.0) AS score\n           FROM entries_fts\n           JOIN entries e ON entries_fts.rowid = e.rowid\n          WHERE entries_fts MATCH jieba_query(?1)\n            AND e.kind = ?2\n            ");
    reveal_strlit("AND e.deprecated_at IS NULL");
    reveal_strlit("\n          ORDER BY score\n          LIMIT ?3");
    assert("SELECT e.ulid, e.kind, e.title, e.natural_key_text,\n                bm25(entries_fts, 10.0, 3.0, 1.0) AS score\n           FROM entries_fts\n           JOIN entries e ON entries_fts.rowid = e.rowid\n          WHERE entries_fts MATCH jieba_query(?1)\n            AND e.kind = ?2\n            AND e.deprecated_at IS NULL\n          ORDER BY score\n          LIMIT ?3"@ =~= "SELECT e.ulid, e.kind, e.title, e.natural_key_text,\n                bm25(entries_fts, 10.0, 3.0, 1.0) AS score\n           FROM entries_fts\n           JOIN entries e ON entries_fts.rowid = e.rowid\n          WHERE entries_fts MATCH jieba_query(?1)\n            AND e.kind = ?2\n            "@ + "AND e.deprecated_at IS NULL"@ + "\n          ORDER BY score\n          LIMIT ?3"@);
    lemma_occurs_piece("SELECT e.ulid, e.kind, e.title, e.natural_key_text,\n                bm25(entries_fts, 10.0, 3.0, 1.0) AS score\n           FROM entries_fts\n           JOIN entries e ON entries_fts.rowid = e.rowid\n          WHERE entries_fts MATCH jieba_query(?1)\n            AND e.kind = ?2\n            "@, "AND e.deprecated_at IS NULL"@, "\n          ORDER BY score\n          LIMIT ?3"@);
    reveal_strlit("SELECT e.ulid, e.kind, e.title, e.natural_key_text,\n                bm25(entries_fts, 10.0, 3.0, 1.0) AS score\n           FROM entries_fts\n           JOIN entries e ON entries_fts.rowid = e.rowid\n          WHERE entries_fts MATCH jieba_query(?1)\n            AND e.kind = ?2\n            AND e.deprecated_at IS NULL\n          ORDER BY score\n          LIMIT ?3");
    reveal_strlit("SELECT e.ulid, e.kind, e.title, e.natural_key_text,\n                ");
    reveal_strlit("bm25(entries_fts, 10.0, 3.0, 1.0) AS score");
    reveal_strlit("\n           FROM entries_fts\n           JOIN entries e ON entries_fts.rowid = e.rowid\n          WHERE entries_fts MATCH jieba_query(?1)\n            AND e.kind = ?2\n            AND e.deprecated_at IS NULL\n          ORDER BY score\n          LIMIT ?3");
    assert("SELECT e.ulid, e.kind, e.title, e.natural_key_text,\n                bm25(entries_fts, 10.0, 3.0, 1.0) AS score\n           FROM entries_fts\n           JOIN entries e ON entries_fts.rowid = e.rowid\n          WHERE entries_fts MATCH jieba_query(?1)\n            AND e.kind = ?2\n            AND e.deprecated_at IS NULL\n          ORDER BY score\n          LIMIT ?3"@ =~= "SELECT e.ulid, e.kind, e.title, e.natural_key_text,\n                "@ + "bm25(entries_fts, 10.0, 3.0, 1.0) AS score"@ + "\n           FROM entries_fts\n           JOIN entries e ON entries_fts.rowid = e.rowid\n          WHERE entries_fts MATCH jieba_query(?1)\n            AND e.kind = ?2\n            AND e.deprecated_at IS NULL\n          ORDER BY score\n          LIMIT ?3"@);
    lemma_occurs_piece("SELECT e.ulid, e.kind, e.title, e.natural_key_text,\n                "@, "bm25(entries_fts, 10.0, 3.0, 1.0) AS score"@, "\n           FROM entries_fts\n           JOIN entries e ON entries_fts.rowid = e.rowid\n          WHERE entries_fts MATCH jieba_query(?1)\n            AND e.kind = ?2\n            AND e.deprecated_at IS NULL\n          ORDER BY score\n          LIMIT ?3"@);
    reveal_strlit("SELECT e.ulid, e.kind, e.title, e.natural_key_text,\n                bm25(entries_fts, 10.0, 3.0, 1.0) AS score\n           FROM entries_fts\n           JOIN entries e ON entries_fts.rowid = e.rowid\n          WHERE entries_fts MATCH jieba_query(?1)\n            AND e.kind = ?2\n            AND e.deprecated_at IS NULL\n          ORDER BY score\n          LIMIT ?3");
    reveal_strlit("SELECT e.ulid, e.kind, e.title, e.natural_key_text,\n                bm25(entries_fts, 10.0, 3.0, 1.0) AS score\n           FROM entries_fts\n           JOIN entries e ON entries_fts.rowid = e.rowid\n          WHERE entries_fts MATCH jieba_query(?1)\n            AND e.kind = ?2\n            AND e.deprecated_at IS NULL\n          ");
    reveal_strlit("ORDER BY score\n          LIMIT ?3");
    reveal_strlit("");
    assert("SELECT e.ulid, e.kind, e.title, e.natural_key_text,\n                bm25(entries_fts, 10.0, 3.0, 1.0) AS score\n           FROM entries_fts\n           JOIN entries e ON entries_fts.rowid = e.rowid\n          WHERE entries_fts MATCH jieba_query(?1)\n            AND e.kind = ?2\n            AND e.deprecated_at IS NULL\n          ORDER BY score\n          LIMIT ?3"@ =~= "SELECT e.ulid, e.kind, e.title, e.natural_key_text,\n                bm25(entries_fts, 10.0, 3.0, 1.0) AS score\n           FROM entries_fts\n           JOIN entries e ON entries_fts.rowid = e.rowid\n          WHERE entries_fts MATCH jieba_query(?1)\n            AND e.kind = ?2\n            AND e.deprecated_at IS NULL\n          "@ + "ORDER BY score\n          LIMIT ?3"@ + ""@);
    lemma_occurs_piece("SELECT e.ulid, e.kind, e.title, e.natural_key_text,\n                bm25(entries_fts, 10.0, 3.0, 1.0) AS score\n           FROM entries_fts\n           JOIN entries e ON entries_fts.rowid = e.rowid\n          WHERE entries_fts MATCH jieba_query(?1)\n            AND e.kind = ?2\n            AND e.deprecated_at IS NULL\n          "@, "ORDER BY score\n          LIMIT ?3"@, ""@);
}

} // verus!
