//! Storage planning: the statements a search runs, the entry a write
//! creates, what an update changes, and how deprecations and counts are
//! judged. Executing the statements is left to the caller.

use vstd::prelude::*;

use crate::dedup::{proceed_token_of, DedupOutcome};
use crate::entry::{
    data_kind, kind_name, DedupMode, Entry, EntryKind, KindData, WriteInput, WriteResult,
};
use crate::error::KbError;
use crate::normalize::{hex_of, natural_key, nk_hash, nk_text, NaturalKey};
use crate::refs::{contains_text, lemma_occurs_in_concat, lemma_occurs_piece, occurs_at};
use crate::text::{
    decimal, push_char, str_chars, string_from_chars, trim_spec, trim_ws, u64_decimal,
};

verus! {

/// Length of the body prefix shown as a search hit's summary line.
pub const SUMMARY_LEN: usize = 120;

/// Smallest and largest number of hits a search or listing returns.
pub const MIN_LIMIT: u32 = 1;
pub const MAX_LIMIT: u32 = 200;

/// A search request.
#[derive(Debug, Clone)]
pub struct SearchQuery {
    pub kinds: Vec<EntryKind>,
    pub tag_prefixes: Vec<String>,
    pub query: Option<String>,
    pub limit: u32,
    pub include_deprecated: bool,
}

/// The limit a search uses when none is given.
pub fn default_limit() -> (n: u32)
    ensures
        n == 20,
{
    20
}

/// A statement parameter.
#[derive(Debug, Clone)]
pub enum SqlParam {
    Int(i64),
    Text(String),
    Blob(Vec<u8>),
}

/// A statement with its numbered parameters (`?1` is the first). A scored
/// statement is a search returning the bm25 score as its ninth column.
#[derive(Debug, Clone)]
pub struct SqlQuery {
    pub sql: String,
    pub params: Vec<SqlParam>,
    pub scored: bool,
}

/// A parameter as a plain value.
pub enum ParamView {
    Int(int),
    Text(Seq<char>),
    Blob(Seq<u8>),
}

pub open spec fn param_view(p: SqlParam) -> ParamView {
    match p {
        SqlParam::Int(n) => ParamView::Int(n as int),
        SqlParam::Text(s) => ParamView::Text(s@),
        SqlParam::Blob(b) => ParamView::Blob(b@),
    }
}

pub open spec fn param_views(ps: Seq<SqlParam>) -> Seq<ParamView> {
    ps.map_values(|p: SqlParam| param_view(p))
}

proof fn lemma_param_views_push(v: Seq<SqlParam>, x: SqlParam)
    ensures
        param_views(v.push(x)) == param_views(v).push(param_view(x)),
{
    assert(param_views(v.push(x)) =~= param_views(v).push(param_view(x)));
}

/// `n` clamped into `[MIN_LIMIT, MAX_LIMIT]`.
pub open spec fn clamp_limit(n: u32) -> u32 {
    if n < 1 {
        1
    } else if n > 200 {
        200
    } else {
        n
    }
}

/// The number of hits actually requested: clamped into `[1, 200]`.
pub fn clamp_to_limit(n: u32) -> (r: u32)
    ensures
        r == clamp_limit(n),
        MIN_LIMIT <= r <= MAX_LIMIT,
{
    if n < MIN_LIMIT {
        MIN_LIMIT
    } else if n > MAX_LIMIT {
        MAX_LIMIT
    } else {
        n
    }
}

/// `s` escaped for `LIKE ... ESCAPE '\'`: `%`, `_` and the backslash itself
/// get a preceding backslash, so each stands for itself.
pub open spec fn escape_like_spec(s: Seq<char>) -> Seq<char>
    decreases s.len(),
{
    if s.len() == 0 {
        Seq::empty()
    } else {
        let p = escape_like_spec(s.drop_last());
        let c = s.last();
        if c == '%' || c == '_' || c == '\\' {
            p.push('\\').push(c)
        } else {
            p.push(c)
        }
    }
}

/// Escapes `%` as `\%`, `_` as `\_` and `\` as `\\`.
pub fn escape_like(s: &str) -> (r: String)
    ensures
        r@ == escape_like_spec(s@),
{
    let v = str_chars(s);
    let mut out: Vec<char> = Vec::new();
    let mut i: usize = 0;
    while i < v.len()
        invariant
            v@ == s@,
            i <= v.len(),
            out@ == escape_like_spec(v@.take(i as int)),
        decreases v.len() - i,
    {
        assert(v@.take(i + 1).drop_last() == v@.take(i as int));
        let c = v[i];
        if c == '%' || c == '_' || c == '\\' {
            out.push('\\');
        }
        out.push(c);
        i = i + 1;
    }
    assert(v@.take(v.len() as int) == v@);
    string_from_chars(&out)
}

/// The `LIKE` pattern matching a tag prefix inside the JSON tag array.
pub open spec fn tag_pattern(prefix: Seq<char>) -> Seq<char> {
    "%\""@ + escape_like_spec(prefix) + "%"@
}

/// `?start,?start+1,...` with `count` placeholders.
pub open spec fn placeholders(start: nat, count: nat) -> Seq<char>
    decreases count,
{
    if count == 0 {
        Seq::empty()
    } else if count == 1 {
        seq!['?'] + decimal(start)
    } else {
        placeholders(start, (count - 1) as nat) + ","@ + seq!['?'] + decimal(
            (start + count - 1) as nat,
        )
    }
}

/// One `AND <col>tags LIKE ?n ESCAPE '\'` clause per tag prefix, numbered
/// from `start`; the escape character makes the escaped `%` and `_` of a
/// prefix match themselves.
pub open spec fn tag_clauses(col: Seq<char>, start: nat, count: nat) -> Seq<char>
    decreases count,
{
    if count == 0 {
        Seq::empty()
    } else {
        tag_clauses(col, start, (count - 1) as nat) + " AND "@ + col + "tags LIKE ?"@ + decimal(
            (start + count - 1) as nat,
        ) + " ESCAPE '\\'"@
    }
}

/// The filter clauses of a search: kinds, tag prefixes, and the exclusion of
/// deprecated entries, with placeholders numbered from `start`.
pub open spec fn filter_sql(q: SearchQuery, col: Seq<char>, start: nat) -> Seq<char> {
    let k = q.kinds@.len();
    let t = q.tag_prefixes@.len();
    (if k == 0 {
        Seq::empty()
    } else {
        " AND "@ + col + "kind IN ("@ + placeholders(start, k) + ")"@
    }) + tag_clauses(col, start + k, t) + (if q.include_deprecated {
        Seq::empty()
    } else {
        " AND "@ + col + "deprecated_at IS NULL"@
    })
}

/// The parameters bound by the filter clauses.
pub open spec fn filter_params(q: SearchQuery) -> Seq<ParamView> {
    q.kinds@.map_values(|k: EntryKind| ParamView::Text(kind_name(k))) + q.tag_prefixes@.map_values(
        |p: String| ParamView::Text(tag_pattern(p@)),
    )
}

pub open spec fn structured_base() -> Seq<char> {
    "SELECT ulid, kind, title, substr(body, 1, ?) AS summary_line, tags,\n                created_at, updated_at, deprecated_at\n           FROM entries\n          WHERE 1=1"@
}

pub open spec fn fts_base() -> Seq<char> {
    "SELECT e.ulid, e.kind, e.title, substr(e.body, 1, ?1) AS summary_line, e.tags,\n                e.created_at, e.updated_at, e.deprecated_at,\n                bm25(entries_fts, 5.0, 5.0, 1.0) AS score\n           FROM entries_fts\n           JOIN entries e ON entries_fts.rowid = e.rowid\n          WHERE entries_fts MATCH simple_query(?2)"@
}

pub open spec fn recent_base() -> Seq<char> {
    "SELECT ulid, kind, title, substr(body, 1, ?1) AS summary_line, tags,\n                created_at, updated_at, deprecated_at\n           FROM entries\n          WHERE deprecated_at IS NULL"@
}

/// Statement of a structured search: filters, newest update first.
pub open spec fn structured_sql(q: SearchQuery) -> Seq<char> {
    let n = 2 + q.kinds@.len() + q.tag_prefixes@.len();
    structured_base() + filter_sql(q, Seq::empty(), 2) + " ORDER BY updated_at DESC LIMIT ?"@
        + decimal(n as nat)
}

/// Statement of a full-text search: filters, best bm25 score first.
pub open spec fn fts_sql(q: SearchQuery) -> Seq<char> {
    let n = 3 + q.kinds@.len() + q.tag_prefixes@.len();
    fts_base() + filter_sql(q, "e."@, 3) + " ORDER BY score LIMIT ?"@ + decimal(n as nat)
}

/// The columns a search hit is read from, in order: identifier, kind,
/// title, the body's first `SUMMARY_LEN` characters (bound to `len_param`),
/// tags, creation time, update time and deprecation time, each under the
/// table alias `col`.
pub open spec fn hit_select(col: Seq<char>, len_param: Seq<char>) -> Seq<char> {
    "SELECT "@ + col + "ulid, "@ + col + "kind, "@ + col + "title, substr("@ + col + "body, 1, "@
        + len_param + ") AS summary_line, "@ + col + "tags,\n                "@ + col
        + "created_at, "@ + col + "updated_at, "@ + col + "deprecated_at"@
}

/// Law: every hit statement (structured search, full-text search, recent
/// listing) selects the hit columns in the one order `hit_select` gives, so
/// column 5 is the creation time and column 6 the update time in all of
/// them.
pub proof fn lemma_hit_columns(q: SearchQuery, since: bool)
    ensures
        occurs_at(structured_sql(q), hit_select(""@, "?"@), 0),
        occurs_at(fts_sql(q), hit_select("e."@, "?1"@), 0),
        occurs_at(recent_sql(since), hit_select(""@, "?1"@), 0),
{
    reveal_strlit("SELECT ulid, kind, title, substr(body, 1, ?) AS summary_line, tags,\n                created_at, updated_at, deprecated_at\n           FROM entries\n          WHERE 1=1");
    reveal_strlit("\n           FROM entries\n          WHERE 1=1");
    reveal_strlit("");
    reveal_strlit("?");
    reveal_strlit("SELECT ");
    reveal_strlit("ulid, ");
    reveal_strlit("kind, ");
    reveal_strlit("title, substr(");
    reveal_strlit("body, 1, ");
    reveal_strlit(") AS summary_line, ");
    reveal_strlit("tags,\n                ");
    reveal_strlit("created_at, ");
    reveal_strlit("updated_at, ");
    reveal_strlit("deprecated_at");
    assert("SELECT ulid, kind, title, substr(body, 1, ?) AS summary_line, tags,\n                created_at, updated_at, deprecated_at\n           FROM entries\n          WHERE 1=1"@ =~= hit_select(""@, "?"@) + "\n           FROM entries\n          WHERE 1=1"@);
    reveal_strlit("SELECT e.ulid, e.kind, e.title, substr(e.body, 1, ?1) AS summary_line, e.tags,\n                e.created_at, e.updated_at, e.deprecated_at,\n                bm25(entries_fts, 5.0, 5.0, 1.0) AS score\n           FROM entries_fts\n           JOIN entries e ON entries_fts.rowid = e.rowid\n          WHERE entries_fts MATCH simple_query(?2)");
    reveal_strlit(",\n                bm25(entries_fts, 5.0, 5.0, 1.0) AS score\n           FROM entries_fts\n           JOIN entries e ON entries_fts.rowid = e.rowid\n          WHERE entries_fts MATCH simple_query(?2)");
    reveal_strlit("e.");
    reveal_strlit("?1");
    reveal_strlit("SELECT ");
    reveal_strlit("ulid, ");
    reveal_strlit("kind, ");
    reveal_strlit("title, substr(");
    reveal_strlit("body, 1, ");
    reveal_strlit(") AS summary_line, ");
    reveal_strlit("tags,\n                ");
    reveal_strlit("created_at, ");
    reveal_strlit("updated_at, ");
    reveal_strlit("deprecated_at");
    assert("SELECT e.ulid, e.kind, e.title, substr(e.body, 1, ?1) AS summary_line, e.tags,\n                e.created_at, e.updated_at, e.deprecated_at,\n                bm25(entries_fts, 5.0, 5.0, 1.0) AS score\n           FROM entries_fts\n           JOIN entries e ON entries_fts.rowid = e.rowid\n          WHERE entries_fts MATCH simple_query(?2)"@ =~= hit_select("e."@, "?1"@) + ",\n                bm25(entries_fts, 5.0, 5.0, 1.0) AS score\n           FROM entries_fts\n           JOIN entries e ON entries_fts.rowid = e.rowid\n          WHERE entries_fts MATCH simple_query(?2)"@);
    reveal_strlit("SELECT ulid, kind, title, substr(body, 1, ?1) AS summary_line, tags,\n                created_at, updated_at, deprecated_at\n           FROM entries\n          WHERE deprecated_at IS NULL");
    reveal_strlit("\n           FROM entries\n          WHERE deprecated_at IS NULL");
    reveal_strlit("");
    reveal_strlit("?1");
    reveal_strlit("SELECT ");
    reveal_strlit("ulid, ");
    reveal_strlit("kind, ");
    reveal_strlit("title, substr(");
    reveal_strlit("body, 1, ");
    reveal_strlit(") AS summary_line, ");
    reveal_strlit("tags,\n                ");
    reveal_strlit("created_at, ");
    reveal_strlit("updated_at, ");
    reveal_strlit("deprecated_at");
    assert("SELECT ulid, kind, title, substr(body, 1, ?1) AS summary_line, tags,\n                created_at, updated_at, deprecated_at\n           FROM entries\n          WHERE deprecated_at IS NULL"@ =~= hit_select(""@, "?1"@) + "\n           FROM entries\n          WHERE deprecated_at IS NULL"@);
    let n1 = 2 + q.kinds@.len() + q.tag_prefixes@.len();
    lemma_occurs_piece(Seq::<char>::empty(), hit_select(""@, "?"@), structured_base().skip(hit_select(""@, "?"@).len() as int) + filter_sql(q, Seq::empty(), 2) + " ORDER BY updated_at DESC LIMIT ?"@ + decimal(n1 as nat));
    assert(Seq::<char>::empty() + hit_select(""@, "?"@) + (structured_base().skip(hit_select(""@, "?"@).len() as int) + filter_sql(q, Seq::empty(), 2) + " ORDER BY updated_at DESC LIMIT ?"@ + decimal(n1 as nat)) =~= structured_sql(q));
    let n2 = 3 + q.kinds@.len() + q.tag_prefixes@.len();
    lemma_occurs_piece(Seq::<char>::empty(), hit_select("e."@, "?1"@), fts_base().skip(hit_select("e."@, "?1"@).len() as int) + filter_sql(q, "e."@, 3) + " ORDER BY score LIMIT ?"@ + decimal(n2 as nat));
    assert(Seq::<char>::empty() + hit_select("e."@, "?1"@) + (fts_base().skip(hit_select("e."@, "?1"@).len() as int) + filter_sql(q, "e."@, 3) + " ORDER BY score LIMIT ?"@ + decimal(n2 as nat)) =~= fts_sql(q));
    let tail = if since { " AND updated_at >= ?2"@ + " ORDER BY updated_at DESC LIMIT ?"@ + decimal(3) } else { " ORDER BY updated_at DESC LIMIT ?"@ + decimal(2) };
    lemma_occurs_piece(Seq::<char>::empty(), hit_select(""@, "?1"@), recent_base().skip(hit_select(""@, "?1"@).len() as int) + tail);
    assert(Seq::<char>::empty() + hit_select(""@, "?1"@) + (recent_base().skip(hit_select(""@, "?1"@).len() as int) + tail) =~= recent_sql(since));
}

/// Law: a full-text search ranks by relevance, best first: right after the
/// hit columns its score column is exactly `bm25(entries_fts, 5.0, 5.0,
/// 1.0)`, and the hits are ordered by that score ascending (SQLite's bm25
/// is smaller for better matches) before the limit.
pub proof fn lemma_fts_best_first(q: SearchQuery)
    ensures
        contains_text(fts_sql(q), "e.deprecated_at,\n                bm25(entries_fts, 5.0, 5.0, 1.0) AS score\n"@),
        contains_text(fts_sql(q), " ORDER BY score LIMIT ?"@),
{
    reveal_strlit("SELECT e.ulid, e.kind, e.title, substr(e.body, 1, ?1) AS summary_line, e.tags,\n                e.created_at, e.updated_at, e.deprecated_at,\n                bm25(entries_fts, 5.0, 5.0, 1.0) AS score\n           FROM entries_fts\n           JOIN entries e ON entries_fts.rowid = e.rowid\n          WHERE entries_fts MATCH simple_query(?2)");
    reveal_strlit("SELECT e.ulid, e.kind, e.title, substr(e.body, 1, ?1) AS summary_line, e.tags,\n                e.created_at, e.updated_at, ");
    reveal_strlit("e.deprecated_at,\n                bm25(entries_fts, 5.0, 5.0, 1.0) AS score\n");
    reveal_strlit("           FROM entries_fts\n           JOIN entries e ON entries_fts.rowid = e.rowid\n          WHERE entries_fts MATCH simple_query(?2)");
    assert("SELECT e.ulid, e.kind, e.title, substr(e.body, 1, ?1) AS summary_line, e.tags,\n                e.created_at, e.updated_at, e.deprecated_at,\n                bm25(entries_fts, 5.0, 5.0, 1.0) AS score\n           FROM entries_fts\n           JOIN entries e ON entries_fts.rowid = e.rowid\n          WHERE entries_fts MATCH simple_query(?2)"@ =~= "SELECT e.ulid, e.kind, e.title, substr(e.body, 1, ?1) AS summary_line, e.tags,\n                e.created_at, e.updated_at, "@ + "e.deprecated_at,\n                bm25(entries_fts, 5.0, 5.0, 1.0) AS score\n"@ + "           FROM entries_fts\n           JOIN entries e ON entries_fts.rowid = e.rowid\n          WHERE entries_fts MATCH simple_query(?2)"@);
    lemma_occurs_piece("SELECT e.ulid, e.kind, e.title, substr(e.body, 1, ?1) AS summary_line, e.tags,\n                e.created_at, e.updated_at, "@, "e.deprecated_at,\n                bm25(entries_fts, 5.0, 5.0, 1.0) AS score\n"@, "           FROM entries_fts\n           JOIN entries e ON entries_fts.rowid = e.rowid\n          WHERE entries_fts MATCH simple_query(?2)"@);
    let n = 3 + q.kinds@.len() + q.tag_prefixes@.len();
    let rest = filter_sql(q, "e."@, 3) + " ORDER BY score LIMIT ?"@ + decimal(n as nat);
    lemma_occurs_in_concat(Seq::<char>::empty(), fts_base(), rest, "e.deprecated_at,\n                bm25(entries_fts, 5.0, 5.0, 1.0) AS score\n"@, "SELECT e.ulid, e.kind, e.title, substr(e.body, 1, ?1) AS summary_line, e.tags,\n                e.created_at, e.updated_at, "@.len() as int);
    assert(Seq::<char>::empty() + fts_base() + rest =~= fts_sql(q));
    lemma_occurs_piece(fts_base() + filter_sql(q, "e."@, 3), " ORDER BY score LIMIT ?"@, decimal(n as nat));
    assert(fts_base() + filter_sql(q, "e."@, 3) + " ORDER BY score LIMIT ?"@ + decimal(n as nat) =~= fts_sql(q));
}

/// Appends the filter clauses and their parameters; returns the number of
/// the next placeholder.
fn push_filters(
    sql: &mut String,
    params: &mut Vec<SqlParam>,
    q: &SearchQuery,
    col: &str,
    start: u64,
) -> (next: u64)
    requires
        start + q.kinds@.len() + q.tag_prefixes@.len() <= 0x7fff_ffff,
    ensures
        next == start + q.kinds@.len() + q.tag_prefixes@.len(),
        final(sql)@ == old(sql)@ + filter_sql(*q, col@, start as nat),
        param_views(final(params)@) == param_views(old(params)@) + filter_params(*q),
{
    let ghost sql0 = sql@;
    let ghost params0 = param_views(params@);
    let mut idx = start;
    if q.kinds.len() > 0 {
        sql.append(" AND ");
        sql.append(col);
        sql.append("kind IN (");
        let mut j: usize = 0;
        while j < q.kinds.len()
            invariant
                j <= q.kinds.len(),
                idx == start + j,
                start + q.kinds@.len() + q.tag_prefixes@.len() <= 0x7fff_ffff,
                sql@ == sql0 + " AND "@ + col@ + "kind IN ("@ + placeholders(start as nat, j as nat),
            decreases q.kinds.len() - j,
        {
            if j > 0 {
                sql.append(",");
            }
            push_char(sql, '?');
            let d = u64_decimal(idx);
            sql.append(d.as_str());
            idx = idx + 1;
            j = j + 1;
        }
        sql.append(")");
    }
    let ghost sql1 = sql@;
    assert(sql1 == sql0 + (if q.kinds@.len() == 0 {
        Seq::empty()
    } else {
        " AND "@ + col@ + "kind IN ("@ + placeholders(start as nat, q.kinds@.len()) + ")"@
    }));
    let mut j: usize = 0;
    while j < q.kinds.len()
        invariant
            j <= q.kinds.len(),
            param_views(params@) == params0 + q.kinds@.take(j as int).map_values(
                |k: EntryKind| ParamView::Text(kind_name(k)),
            ),
        decreases q.kinds.len() - j,
    {
        let name = String::from_str(q.kinds[j].as_str());
        let ghost before = params@;
        params.push(SqlParam::Text(name));
        proof {
            lemma_param_views_push(before, params@.last());
            assert(params@ == before.push(params@.last()));
            let f = |k: EntryKind| ParamView::Text(kind_name(k));
            assert(q.kinds@.take(j + 1).map_values(f) =~= q.kinds@.take(j as int).map_values(f).push(
                f(q.kinds@[j as int]),
            ));
        }
        assert(q.kinds@.take(j + 1) == q.kinds@.take(j as int).push(q.kinds@[j as int]));
        j = j + 1;
    }
    assert(q.kinds@.take(q.kinds.len() as int) == q.kinds@);
    let ghost params1 = param_views(params@);
    let mut j: usize = 0;
    while j < q.tag_prefixes.len()
        invariant
            j <= q.tag_prefixes.len(),
            idx == start + q.kinds@.len() + j,
            start + q.kinds@.len() + q.tag_prefixes@.len() <= 0x7fff_ffff,
            sql@ == sql1 + tag_clauses(col@, (start + q.kinds@.len()) as nat, j as nat),
            param_views(params@) == params1 + q.tag_prefixes@.take(j as int).map_values(
                |p: String| ParamView::Text(tag_pattern(p@)),
            ),
        decreases q.tag_prefixes.len() - j,
    {
        sql.append(" AND ");
        sql.append(col);
        sql.append("tags LIKE ?");
        let d = u64_decimal(idx);
        sql.append(d.as_str());
        sql.append(" ESCAPE '\\'");
        idx = idx + 1;
        let mut pat = String::from_str("%\"");
        let esc = escape_like(q.tag_prefixes[j].as_str());
        pat.append(esc.as_str());
        pat.append("%");
        let ghost before = params@;
        params.push(SqlParam::Text(pat));
        proof {
            lemma_param_views_push(before, params@.last());
            assert(params@ == before.push(params@.last()));
            let f = |p: String| ParamView::Text(tag_pattern(p@));
            assert(q.tag_prefixes@.take(j + 1).map_values(f) =~= q.tag_prefixes@.take(
                j as int,
            ).map_values(f).push(f(q.tag_prefixes@[j as int])));
        }
        assert(q.tag_prefixes@.take(j + 1) == q.tag_prefixes@.take(j as int).push(
            q.tag_prefixes@[j as int],
        ));
        j = j + 1;
    }
    assert(q.tag_prefixes@.take(q.tag_prefixes.len() as int) == q.tag_prefixes@);
    if !q.include_deprecated {
        sql.append(" AND ");
        sql.append(col);
        sql.append("deprecated_at IS NULL");
    }
    idx
}

/// The structured-search statement: kinds and tag prefixes filter,
/// deprecated entries are left out unless asked for, newest update first,
/// at most `limit` rows. Parameters: summary length, kind names, tag
/// patterns, limit.
pub fn structured_query(q: &SearchQuery, limit: u32) -> (r: SqlQuery)
    requires
        q.kinds@.len() + q.tag_prefixes@.len() <= 0x7fff_0000,
    ensures
        r.sql@ == structured_sql(*q),
        param_views(r.params@) == seq![ParamView::Int(120)] + filter_params(*q) + seq![
            ParamView::Int(limit as int),
        ],
        !r.scored,
{
    let mut sql = String::from_str(
        "SELECT ulid, kind, title, substr(body, 1, ?) AS summary_line, tags,\n                created_at, updated_at, deprecated_at\n           FROM entries\n          WHERE 1=1",
    );
    let mut params: Vec<SqlParam> = Vec::new();
    params.push(SqlParam::Int(SUMMARY_LEN as i64));
    assert(param_views(params@) =~= seq![ParamView::Int(120)]);
    let idx = push_filters(&mut sql, &mut params, q, "", 2);
    sql.append(" ORDER BY updated_at DESC LIMIT ?");
    let d = u64_decimal(idx);
    sql.append(d.as_str());
    let ghost before = params@;
    params.push(SqlParam::Int(limit as i64));
    proof {
        lemma_param_views_push(before, params@.last());
        assert(params@ == before.push(params@.last()));
        reveal_strlit("");
        assert(""@ == Seq::<char>::empty());
    }
    SqlQuery { sql, params, scored: false }
}

/// The full-text statement: `simple_query` match on the text, bm25 weights
/// (5, 5, 1), the same filters, best score first, at most `limit` rows.
/// Parameters: summary length, query text, kind names, tag patterns, limit.
pub fn fts_query(q: &SearchQuery, text: &str, limit: u32) -> (r: SqlQuery)
    requires
        q.kinds@.len() + q.tag_prefixes@.len() <= 0x7fff_0000,
    ensures
        r.sql@ == fts_sql(*q),
        param_views(r.params@) == seq![ParamView::Int(120), ParamView::Text(text@)]
            + filter_params(*q) + seq![ParamView::Int(limit as int)],
        r.scored,
        occurs_at(r.sql@, hit_select("e."@, "?1"@), 0),
        contains_text(r.sql@, "e.deprecated_at,\n                bm25(entries_fts, 5.0, 5.0, 1.0) AS score\n"@),
        contains_text(r.sql@, " ORDER BY score LIMIT ?"@),
{
    proof {
        lemma_hit_columns(*q, false);
        lemma_fts_best_first(*q);
    }
    let mut sql = String::from_str(
        "SELECT e.ulid, e.kind, e.title, substr(e.body, 1, ?1) AS summary_line, e.tags,\n                e.created_at, e.updated_at, e.deprecated_at,\n                bm25(entries_fts, 5.0, 5.0, 1.0) AS score\n           FROM entries_fts\n           JOIN entries e ON entries_fts.rowid = e.rowid\n          WHERE entries_fts MATCH simple_query(?2)",
    );
    let mut params: Vec<SqlParam> = Vec::new();
    params.push(SqlParam::Int(SUMMARY_LEN as i64));
    params.push(SqlParam::Text(String::from_str(text)));
    assert(param_views(params@) =~= seq![ParamView::Int(120), ParamView::Text(text@)]);
    let idx = push_filters(&mut sql, &mut params, q, "e.", 3);
    sql.append(" ORDER BY score LIMIT ?");
    let d = u64_decimal(idx);
    sql.append(d.as_str());
    let ghost before = params@;
    params.push(SqlParam::Int(limit as i64));
    proof {
        lemma_param_views_push(before, params@.last());
        assert(params@ == before.push(params@.last()));
    }
    SqlQuery { sql, params, scored: true }
}

/// The query text when a search runs in full-text mode: present and not
/// blank after trimming.
pub open spec fn fts_text(q: SearchQuery) -> Option<Seq<char>> {
    match q.query {
        Some(t) => if trim_spec(t@).len() > 0 {
            Some(t@)
        } else {
            None
        },
        None => None,
    }
}

/// Plans a search: the limit is clamped into `[1, 200]`; a non-blank query
/// selects full-text mode (scored), otherwise the structured mode runs.
pub fn plan_search(q: &SearchQuery) -> (r: SqlQuery)
    requires
        q.kinds@.len() + q.tag_prefixes@.len() <= 0x7fff_0000,
    ensures
        r.scored == (fts_text(*q) is Some),
        match fts_text(*q) {
            Some(t) => r.sql@ == fts_sql(*q) && param_views(r.params@) == seq![
                ParamView::Int(120),
                ParamView::Text(t),
            ] + filter_params(*q) + seq![ParamView::Int(clamp_limit(q.limit) as int)],
            None => r.sql@ == structured_sql(*q) && param_views(r.params@) == seq![
                ParamView::Int(120),
            ] + filter_params(*q) + seq![ParamView::Int(clamp_limit(q.limit) as int)],
        },
{
    let limit = clamp_to_limit(q.limit);
    match &q.query {
        Some(t) => {
            let trimmed = trim_ws(t.as_str());
            if trimmed.as_str().unicode_len() > 0 {
                fts_query(q, t.as_str(), limit)
            } else {
                structured_query(q, limit)
            }
        },
        None => structured_query(q, limit),
    }
}

/// Statement listing the most recently updated live entries, optionally
/// only those updated at or after `since`.
pub open spec fn recent_sql(since: bool) -> Seq<char> {
    if since {
        recent_base() + " AND updated_at >= ?2"@ + " ORDER BY updated_at DESC LIMIT ?"@ + decimal(3)
    } else {
        recent_base() + " ORDER BY updated_at DESC LIMIT ?"@ + decimal(2)
    }
}

/// Plans the listing of recent entries: live entries only, newest update
/// first, at most `n` clamped into `[1, 200]`, and when `since` is given
/// only entries updated at or after it. Parameters: summary length, `since`
/// when given, limit.
pub fn plan_recent(n: u32, since: Option<String>) -> (r: SqlQuery)
    ensures
        !r.scored,
        r.sql@ == recent_sql(since is Some),
        occurs_at(r.sql@, hit_select(""@, "?1"@), 0),
        param_views(r.params@) == match since {
            Some(s) => seq![ParamView::Int(120), ParamView::Text(s@), ParamView::Int(clamp_limit(n) as int)],
            None => seq![ParamView::Int(120), ParamView::Int(clamp_limit(n) as int)],
        },
{
    proof {
        lemma_hit_columns(vstd::pervasive::arbitrary(), since is Some);
    }
    let limit = clamp_to_limit(n);
    let mut sql = String::from_str(
        "SELECT ulid, kind, title, substr(body, 1, ?1) AS summary_line, tags,\n                created_at, updated_at, deprecated_at\n           FROM entries\n          WHERE deprecated_at IS NULL",
    );
    let mut params: Vec<SqlParam> = Vec::new();
    params.push(SqlParam::Int(SUMMARY_LEN as i64));
    let mut next: u64 = 2;
    let has_since = since.is_some();
    match since {
        Some(s) => {
            sql.append(" AND updated_at >= ?2");
            next = 3;
            params.push(SqlParam::Text(s));
        },
        None => {},
    }
    sql.append(" ORDER BY updated_at DESC LIMIT ?");
    let d = u64_decimal(next);
    sql.append(d.as_str());
    params.push(SqlParam::Int(limit as i64));
    SqlQuery { sql, params, scored: false }
}

/// The kind stored under `s`, if any.
pub open spec fn kind_named(s: Seq<char>) -> Option<EntryKind> {
    if s == kind_name(EntryKind::Fact) {
        Some(EntryKind::Fact)
    } else if s == kind_name(EntryKind::ProblemSolution) {
        Some(EntryKind::ProblemSolution)
    } else if s == kind_name(EntryKind::Lesson) {
        Some(EntryKind::Lesson)
    } else if s == kind_name(EntryKind::Decision) {
        Some(EntryKind::Decision)
    } else if s == kind_name(EntryKind::Heuristic) {
        Some(EntryKind::Heuristic)
    } else {
        None
    }
}

/// Parses a stored kind name; anything else is `unknown kind: <s>`.
pub fn parse_kind(s: &str) -> (r: Result<EntryKind, String>)
    ensures
        match kind_named(s@) {
            Some(k) => r == Ok::<EntryKind, String>(k),
            None => r matches Err(m) && m@ == "unknown kind: "@ + s@,
        },
{
    let t = String::from_str(s);
    if t == String::from_str("Fact") {
        Ok(EntryKind::Fact)
    } else if t == String::from_str("ProblemSolution") {
        Ok(EntryKind::ProblemSolution)
    } else if t == String::from_str("Lesson") {
        Ok(EntryKind::Lesson)
    } else if t == String::from_str("Decision") {
        Ok(EntryKind::Decision)
    } else if t == String::from_str("Heuristic") {
        Ok(EntryKind::Heuristic)
    } else {
        let mut m = String::from_str("unknown kind: ");
        m.append(s);
        Err(m)
    }
}

/// Law: every kind is parsed back from its stored name, and different kinds
/// have different names.
pub proof fn lemma_kind_name_roundtrip(k: EntryKind, j: EntryKind)
    ensures
        kind_named(kind_name(k)) == Some(k),
        kind_name(k) == kind_name(j) ==> k == j,
{
    reveal_strlit("Fact");
    reveal_strlit("ProblemSolution");
    reveal_strlit("Lesson");
    reveal_strlit("Decision");
    reveal_strlit("Heuristic");
    assert(kind_name(EntryKind::Fact)[0] != kind_name(EntryKind::ProblemSolution)[0]);
    assert(kind_name(EntryKind::Fact)[0] != kind_name(EntryKind::Lesson)[0]);
    assert(kind_name(EntryKind::Fact)[0] != kind_name(EntryKind::Decision)[0]);
    assert(kind_name(EntryKind::Fact)[0] != kind_name(EntryKind::Heuristic)[0]);
    assert(kind_name(EntryKind::ProblemSolution)[0] != kind_name(EntryKind::Lesson)[0]);
    assert(kind_name(EntryKind::ProblemSolution)[0] != kind_name(EntryKind::Decision)[0]);
    assert(kind_name(EntryKind::ProblemSolution)[0] != kind_name(EntryKind::Heuristic)[0]);
    assert(kind_name(EntryKind::Lesson)[0] != kind_name(EntryKind::Decision)[0]);
    assert(kind_name(EntryKind::Lesson)[0] != kind_name(EntryKind::Heuristic)[0]);
    assert(kind_name(EntryKind::Decision)[0] != kind_name(EntryKind::Heuristic)[0]);
}

/// What a write does before it touches storage, given its dedup mode, the
/// proceed token it carries and its natural-key text. `Ok(true)`: run the
/// duplicate check. `Ok(false)`: a forced write whose token is this key's,
/// so the check is skipped. `Err`: the refusal message of a forced write
/// without a token, or with the token of another key.
pub open spec fn write_gate(dedup: DedupMode, token: Option<Seq<char>>, key: Seq<char>) -> Result<
    bool,
    Seq<char>,
> {
    match dedup {
        DedupMode::Check => Ok(true),
        DedupMode::Force => match token {
            None => Err("dedup='force' requires proceed_token"@),
            Some(t) => if t == proceed_token_of(key) {
                Ok(false)
            } else {
                Err("proceed_token mismatch"@)
            },
        },
    }
}

pub open spec fn opt_text(o: Option<String>) -> Option<Seq<char>> {
    match o {
        Some(s) => Some(s@),
        None => None,
    }
}

/// Decides what a write does before it touches storage (see `write_gate`);
/// a refusal is a `BadRequest`.
pub fn check_write(dedup: DedupMode, proceed_token: &Option<String>, nk: &NaturalKey) -> (r: Result<
    bool,
    KbError,
>)
    ensures
        match write_gate(dedup, opt_text(*proceed_token), nk.text@) {
            Ok(b) => r == Ok::<bool, KbError>(b),
            Err(m) => r matches Err(KbError::BadRequest(e)) && e@ == m,
        },
{
    match dedup {
        DedupMode::Check => Ok(true),
        DedupMode::Force => match proceed_token {
            None => Err(KbError::BadRequest(String::from_str("dedup='force' requires proceed_token"))),
            Some(t) => {
                let expected = crate::dedup::compute_proceed_token(nk);
                if *t == expected {
                    Ok(false)
                } else {
                    Err(KbError::BadRequest(String::from_str("proceed_token mismatch")))
                }
            },
        },
    }
}

/// Law: the proceed token handed back with the candidates for a key lets a
/// forced write of that same key through without the duplicate check, and
/// a checked write always runs the check.
pub proof fn lemma_found_token_admits_forced_write(key: Seq<char>, token: Option<Seq<char>>)
    ensures
        write_gate(DedupMode::Force, Some(proceed_token_of(key)), key) == Ok::<bool, Seq<char>>(false),
        write_gate(DedupMode::Check, token, key) == Ok::<bool, Seq<char>>(true),
{
}

/// The deprecation reason recorded on an entry that a new write supersedes.
pub fn supersede_reason() -> (s: String)
    ensures
        s@ == "superseded"@,
{
    String::from_str("superseded")
}

/// The answer a write gives when the duplicate check found candidates, or
/// `None` when the write may go ahead.
pub fn dedup_write_result(outcome: DedupOutcome) -> (r: Option<WriteResult>)
    ensures
        match outcome {
            DedupOutcome::Clean => r is None,
            DedupOutcome::Found { candidates, proceed_token } => r matches Some(
                WriteResult::DuplicatesFound { candidates: c, proceed_token: t },
            ) && c@ == candidates@ && t@ == proceed_token@,
        },
{
    match outcome {
        DedupOutcome::Clean => None,
        DedupOutcome::Found { candidates, proceed_token } => Some(
            WriteResult::DuplicatesFound { candidates, proceed_token },
        ),
    }
}

/// The entry a write creates: the input's content, its natural key, version
/// 1, created and updated at `now`, not deprecated.
pub fn build_entry(input: WriteInput, nk: NaturalKey, id: u128, now: String) -> (e: Entry)
    ensures
        e.id == id,
        e.title == input.title,
        e.body == input.body,
        e.tags == input.tags,
        e.source == input.source,
        e.data == input.data,
        e.natural_key_text@ == nk.text@,
        e.natural_key_hash@ == hex_of(nk.hash@),
        e.created_at@ == now@,
        e.updated_at@ == now@,
        e.version == 1,
        e.deprecated_at is None,
        e.deprecation_reason is None,
        e.superseded_by is None,
{
    let hash_hex = nk.hash_hex();
    Entry {
        id,
        title: input.title,
        body: input.body,
        tags: input.tags,
        source: input.source,
        data: input.data,
        natural_key_text: nk.text,
        natural_key_hash: hash_hex,
        created_at: now.clone(),
        updated_at: now,
        version: 1,
        deprecated_at: None,
        deprecation_reason: None,
        superseded_by: None,
    }
}

/// The fields an update may change; absent fields keep their values.
#[derive(Debug, Clone)]
pub struct PartialEntry {
    pub title: Option<String>,
    pub body: Option<String>,
    pub tags: Option<Vec<String>>,
    pub data: Option<KindData>,
}

/// The kind data an update leaves in place.
pub open spec fn updated_data(prev: Entry, p: PartialEntry) -> KindData {
    match p.data {
        Some(d) => d,
        None => prev.data,
    }
}

/// Applies an update: omitted fields keep their values, the natural key is
/// derived afresh, the version goes up by one and `updated_at` becomes
/// `now`; identity, source, creation time and deprecation stay. The kind
/// cannot change: such an update is refused (supersede instead). The new
/// natural key is returned beside the entry.
pub fn apply_update(prev: Entry, partial: PartialEntry, now: String) -> (r: Result<
    (Entry, NaturalKey),
    KbError,
>)
    requires
        data_kind(updated_data(prev, partial)) == data_kind(prev.data) ==> prev.version < u32::MAX,
    ensures
        data_kind(updated_data(prev, partial)) != data_kind(prev.data) ==> (r matches Err(
            KbError::BadRequest(m),
        ) && m@ == "kind cannot change on update; supersede instead"@),
        data_kind(updated_data(prev, partial)) == data_kind(prev.data) ==> (r matches Ok((e, nk)) && {
            &&& e.id == prev.id
            &&& e.title == (match partial.title {
                Some(t) => t,
                None => prev.title,
            })
            &&& e.body == (match partial.body {
                Some(b) => b,
                None => prev.body,
            })
            &&& e.tags == (match partial.tags {
                Some(t) => t,
                None => prev.tags,
            })
            &&& e.source == prev.source
            &&& e.data == updated_data(prev, partial)
            &&& nk.text@ == nk_text(e.data)
            &&& nk.hash@ == nk_hash(e.data)
            &&& e.natural_key_text@ == nk.text@
            &&& e.natural_key_hash@ == hex_of(nk.hash@)
            &&& e.created_at == prev.created_at
            &&& e.updated_at@ == now@
            &&& e.version == prev.version + 1
            &&& e.deprecated_at == prev.deprecated_at
            &&& e.deprecation_reason == prev.deprecation_reason
            &&& e.superseded_by == prev.superseded_by
        }),
{
    let prev_kind = prev.data.kind();
    let new_data = match partial.data {
        Some(d) => d,
        None => prev.data,
    };
    if new_data.kind() != prev_kind {
        return Err(KbError::BadRequest(String::from_str("kind cannot change on update; supersede instead")));
    }
    let title = match partial.title {
        Some(t) => t,
        None => prev.title,
    };
    let body = match partial.body {
        Some(b) => b,
        None => prev.body,
    };
    let tags = match partial.tags {
        Some(t) => t,
        None => prev.tags,
    };
    let nk = natural_key(&new_data);
    let text = nk.text.clone();
    let hash_hex = nk.hash_hex();
    let e = Entry {
        id: prev.id,
        title,
        body,
        tags,
        source: prev.source,
        data: new_data,
        natural_key_text: text,
        natural_key_hash: hash_hex,
        created_at: prev.created_at,
        updated_at: now,
        version: prev.version + 1,
        deprecated_at: prev.deprecated_at,
        deprecation_reason: prev.deprecation_reason,
        superseded_by: prev.superseded_by,
    };
    Ok((e, nk))
}

/// Judges a deprecation from the number of live rows it changed: none means
/// the entry was already deprecated.
pub fn deprecation_result(changed: usize) -> (r: Result<(), KbError>)
    ensures
        changed == 0 ==> (r matches Err(KbError::Conflict(m)) && m@ == "already deprecated"@),
        changed != 0 ==> r is Ok,
{
    if changed == 0 {
        Err(KbError::Conflict(String::from_str("already deprecated")))
    } else {
        Ok(())
    }
}

/// Live and deprecated counts of one kind.
#[derive(Debug, Clone, Copy)]
pub struct KindCount {
    pub kind: EntryKind,
    pub active: i64,
    pub deprecated: i64,
}

/// Aggregate counts over the whole knowledge base.
#[derive(Debug, Clone)]
pub struct Stats {
    pub total: i64,
    pub active: i64,
    pub deprecated: i64,
    pub by_kind: Vec<KindCount>,
}

/// Assembles the counts: whatever is not active is deprecated.
pub fn build_stats(total: i64, active: i64, by_kind: Vec<KindCount>) -> (s: Stats)
    requires
        i64::MIN <= total - active <= i64::MAX,
    ensures
        s.total == total,
        s.active == active,
        s.deprecated == total - active,
        s.by_kind@ == by_kind@,
{
    Stats { total, active, deprecated: total - active, by_kind }
}

} // verus!
