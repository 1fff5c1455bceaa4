//! Physical deletion planning. Purging an entry also purges every entry
//! that (transitively) was superseded by one being purged; every surviving
//! body that references a purged entry as `[[<ulid>]]` has the reference
//! rewritten to `[[<ulid> → deleted]]`.
//!
//! The plan is computed from a snapshot of the `entries` table (rowid,
//! ulid, kind, title, body, superseded_by); applying it is left to the
//! caller.

use vstd::prelude::*;

use crate::entry::{Entry, EntryKind};
use crate::error::KbError;
use crate::ids::{lemma_ulid_roundtrip, ulid_decode_spec, ulid_from_str, ulid_text, ulid_to_string};
use crate::store::{kind_named, parse_kind};
use crate::refs::{
    lemma_marker_nonempty, lemma_no_reference_survives, lemma_ulid_text_marker, lemma_zero_count_replace,
    marker_id,
};
use crate::text::{
    concat, count_occ, i64_decimal, replace_count, replace_occ, str_chars,
    string_from_chars, string_views,
};

verus! {

/// One row of the `entries` table, as the purge reads it.
#[derive(Debug, Clone)]
pub struct PurgeRow {
    pub rowid: i64,
    pub ulid: String,
    pub kind: String,
    pub title: String,
    pub body: String,
    pub superseded_by: Option<String>,
}

/// An entry that a purge deletes.
#[derive(Debug, Clone)]
pub struct PurgedEntry {
    pub id: u128,
    pub kind: EntryKind,
    pub title: String,
}

/// A surviving entry whose body a purge rewrites, with the number of
/// references rewritten.
#[derive(Debug, Clone, Copy)]
pub struct RewrittenEntry {
    pub id: u128,
    pub refs_count: u32,
}

/// What a purge did, or would do for a dry run.
#[derive(Debug, Clone)]
pub struct PurgeSummary {
    pub dry_run: bool,
    pub purged: Vec<PurgedEntry>,
    pub rewritten: Vec<RewrittenEntry>,
}

/// `rows[i]` carries the identifier text `t`.
pub open spec fn has_ulid_at(rows: Seq<PurgeRow>, t: Seq<char>, i: int) -> bool {
    0 <= i < rows.len() && rows[i].ulid@ == t
}

/// The first row at or after `i` carrying the identifier text `t`.
pub open spec fn find_from(rows: Seq<PurgeRow>, t: Seq<char>, i: int) -> Option<int>
    decreases rows.len() - i,
{
    if i < 0 || i >= rows.len() {
        None
    } else if rows[i].ulid@ == t {
        Some(i)
    } else {
        find_from(rows, t, i + 1)
    }
}

/// The first row carrying the identifier text `t`, as a lookup by `ulid`
/// finds it.
pub open spec fn find_row(rows: Seq<PurgeRow>, t: Seq<char>) -> Option<int> {
    find_from(rows, t, 0)
}

proof fn lemma_find_from(rows: Seq<PurgeRow>, t: Seq<char>, i: int)
    requires
        0 <= i,
    ensures
        find_from(rows, t, i) matches Some(k) ==> i <= k && has_ulid_at(rows, t, k) && forall|j: int|
            i <= j < k ==> !#[trigger] has_ulid_at(rows, t, j),
        find_from(rows, t, i) is None ==> forall|j: int| i <= j ==> !#[trigger] has_ulid_at(rows, t, j),
    decreases rows.len() - i,
{
    if i < rows.len() && rows[i].ulid@ != t {
        lemma_find_from(rows, t, i + 1);
    }
}

/// The row found for `t` carries `t`, and no earlier row does.
pub proof fn lemma_find_row(rows: Seq<PurgeRow>, t: Seq<char>)
    ensures
        find_row(rows, t) matches Some(k) ==> has_ulid_at(rows, t, k) && forall|j: int|
            0 <= j < k ==> !#[trigger] has_ulid_at(rows, t, j),
        find_row(rows, t) is None ==> forall|j: int| !#[trigger] has_ulid_at(rows, t, j),
{
    lemma_find_from(rows, t, 0);
}

/// `rows[j]` was superseded by the entry with identifier text `t`.
pub open spec fn points_to(rows: Seq<PurgeRow>, j: int, t: Seq<char>) -> bool {
    0 <= j < rows.len() && rows[j].superseded_by is Some && rows[j].superseded_by->0@ == t
}

/// The purge moves from the present entry `t` to `u`: some row superseded
/// by `t` has an identifier whose canonical text is `u`.
pub open spec fn edge(rows: Seq<PurgeRow>, t: Seq<char>, u: Seq<char>) -> bool {
    &&& find_row(rows, t) is Some
    &&& exists|j: int|
        #[trigger] points_to(rows, j, t) && ulid_decode_spec(rows[j].ulid@) is Ok && ulid_text(
            ulid_decode_spec(rows[j].ulid@)->Ok_0,
        ) == u
}

/// Identifier texts within `n` steps of `root`.
pub open spec fn level(rows: Seq<PurgeRow>, root: Seq<char>, n: nat) -> Set<Seq<char>>
    decreases n,
{
    if n == 0 {
        set![root]
    } else {
        let p = level(rows, root, (n - 1) as nat);
        p.union(Set::new(|u: Seq<char>| exists|t: Seq<char>| p.contains(t) && #[trigger] edge(rows, t, u)))
    }
}

/// `u` is reached from `root` by following supersede links backwards.
pub open spec fn reachable(rows: Seq<PurgeRow>, root: Seq<char>, u: Seq<char>) -> bool {
    exists|n: nat| #[trigger] level(rows, root, n).contains(u)
}

/// Some row superseded by `t` has an identifier that does not decode.
pub open spec fn kid_bad(rows: Seq<PurgeRow>, t: Seq<char>) -> bool {
    exists|j: int| #[trigger] points_to(rows, j, t) && ulid_decode_spec(rows[j].ulid@) is Err
}

/// The present entry `t` cannot be purged: its stored kind is unknown, or
/// an entry it superseded has a corrupt identifier.
pub open spec fn row_bad(rows: Seq<PurgeRow>, t: Seq<char>) -> bool {
    &&& find_row(rows, t) is Some
    &&& (kind_named(rows[find_row(rows, t)->0].kind@) is None || kid_bad(rows, t))
}

/// Identifiers of the rows among the first `n` that `t` superseded, in row
/// order (rows whose identifier does not decode are left out).
pub open spec fn kid_ids(rows: Seq<PurgeRow>, t: Seq<char>, n: nat) -> Seq<u128>
    decreases n,
{
    if n == 0 {
        Seq::empty()
    } else {
        let prev = kid_ids(rows, t, (n - 1) as nat);
        let j = n - 1;
        if points_to(rows, j, t) && ulid_decode_spec(rows[j].ulid@) is Ok {
            prev.push(ulid_decode_spec(rows[j].ulid@)->Ok_0)
        } else {
            prev
        }
    }
}

proof fn lemma_kid_ids_edge(rows: Seq<PurgeRow>, t: Seq<char>, n: nat, m: int)
    requires
        n <= rows.len(),
        0 <= m < kid_ids(rows, t, n).len(),
    ensures
        exists|j: int|
            #[trigger] points_to(rows, j, t) && ulid_decode_spec(rows[j].ulid@) == Ok::<
                u128,
                crate::ids::UlidError,
            >(kid_ids(rows, t, n)[m]),
    decreases n,
{
    let j = n - 1;
    if points_to(rows, j, t) && ulid_decode_spec(rows[j].ulid@) is Ok && m == kid_ids(
        rows,
        t,
        (n - 1) as nat,
    ).len() {
        assert(points_to(rows, j, t));
    } else {
        lemma_kid_ids_edge(rows, t, (n - 1) as nat, m);
    }
}

proof fn lemma_edge_kid_ids(rows: Seq<PurgeRow>, t: Seq<char>, n: nat, j: int)
    requires
        n <= rows.len(),
        0 <= j < n,
        points_to(rows, j, t),
        ulid_decode_spec(rows[j].ulid@) is Ok,
    ensures
        kid_ids(rows, t, n).contains(ulid_decode_spec(rows[j].ulid@)->Ok_0),
    decreases n,
{
    if j == n - 1 {
        let k = ulid_decode_spec(rows[j].ulid@)->Ok_0;
        let s = kid_ids(rows, t, n);
        assert(s[s.len() - 1] == k);
    } else {
        lemma_edge_kid_ids(rows, t, (n - 1) as nat, j);
        let k = ulid_decode_spec(rows[j].ulid@)->Ok_0;
        let p = kid_ids(rows, t, (n - 1) as nat);
        let i = choose|i: int| 0 <= i < p.len() && p[i] == k;
        assert(kid_ids(rows, t, n)[i] == k);
    }
}

/// Finds the first row carrying identifier text `t`.
fn find_row_index(rows: &Vec<PurgeRow>, t: &String) -> (r: Option<usize>)
    ensures
        match r {
            Some(i) => find_row(rows@, t@) == Some(i as int),
            None => find_row(rows@, t@) is None,
        },
{
    let mut i: usize = 0;
    while i < rows.len()
        invariant
            i <= rows.len(),
            find_row(rows@, t@) == find_from(rows@, t@, i as int),
        decreases rows.len() - i,
    {
        if rows[i].ulid == *t {
            return Some(i);
        }
        i = i + 1;
    }
    None
}

/// Checks a present row for purging and appends the identifiers of the rows
/// it superseded to `queue`. Refused when the row's stored kind is unknown
/// or one of those rows has a corrupt identifier.
fn visit(rows: &Vec<PurgeRow>, i: usize, queue: &mut Vec<u128>) -> (r: Result<EntryKind, KbError>)
    requires
        i < rows.len(),
    ensures
        (r is Ok) == (kind_named(rows@[i as int].kind@) is Some && !kid_bad(
            rows@,
            rows@[i as int].ulid@,
        )),
        r matches Ok(k) ==> kind_named(rows@[i as int].kind@) == Some(k) && final(queue)@ == old(
            queue,
        )@ + kid_ids(rows@, rows@[i as int].ulid@, rows@.len()),
        r is Err ==> r matches Err(KbError::BadRequest(_)),
{
    let row = &rows[i];
    let kind = match parse_kind(row.kind.as_str()) {
        Ok(k) => k,
        Err(e) => {
            let a = concat("corrupt kind in row ", i64_decimal(row.rowid).as_str());
            let b = concat(a.as_str(), ": ");
            let m = concat(b.as_str(), e.as_str());
            return Err(KbError::BadRequest(m));
        },
    };
    let ghost t = row.ulid@;
    let ghost q0 = queue@;
    let mut j: usize = 0;
    while j < rows.len()
        invariant
            j <= rows.len(),
            i < rows.len(),
            t == rows@[i as int].ulid@,
            queue@ == q0 + kid_ids(rows@, t, j as nat),
            forall|jj: int|
                0 <= jj < j ==> !(#[trigger] points_to(rows@, jj, t) && ulid_decode_spec(
                    rows@[jj].ulid@,
                ) is Err),
        decreases rows.len() - j,
    {
        let is_kid = match &rows[j].superseded_by {
            Some(s) => *s == rows[i].ulid,
            None => false,
        };
        assert(is_kid == points_to(rows@, j as int, t));
        if is_kid {
            match ulid_from_str(rows[j].ulid.as_str()) {
                Ok(k) => {
                    queue.push(k);
                    assert(queue@ =~= q0 + kid_ids(rows@, t, (j + 1) as nat));
                },
                Err(e) => {
                    let a = concat("corrupt superseded_by ulid ", rows[j].ulid.as_str());
                    let b = concat(a.as_str(), ": ");
                    let m = concat(b.as_str(), e.message().as_str());
                    assert(points_to(rows@, j as int, t));
                    return Err(KbError::BadRequest(m));
                },
            }
        } else {
            assert(kid_ids(rows@, t, (j + 1) as nat) == kid_ids(rows@, t, j as nat));
        }
        j = j + 1;
    }
    assert(!kid_bad(rows@, t));
    Ok(kind)
}

proof fn lemma_reach_root(rows: Seq<PurgeRow>, root: Seq<char>)
    ensures
        reachable(rows, root, root),
{
    assert(level(rows, root, 0).contains(root));
}

proof fn lemma_reach_step(rows: Seq<PurgeRow>, root: Seq<char>, t: Seq<char>, u: Seq<char>)
    requires
        reachable(rows, root, t),
        edge(rows, t, u),
    ensures
        reachable(rows, root, u),
{
    let n = choose|n: nat| #[trigger] level(rows, root, n).contains(t);
    let p = level(rows, root, n);
    assert(exists|t2: Seq<char>| p.contains(t2) && #[trigger] edge(rows, t2, u));
    assert(level(rows, root, n + 1).contains(u));
}

/// `u` is the text of a queued identifier at or after `head`.
pub open spec fn in_queue(q: Seq<u128>, head: int, u: Seq<char>) -> bool {
    exists|m: int| head <= m < q.len() && #[trigger] ulid_text(q[m]) == u
}

/// Every move out of a visited entry lands on a visited or queued one.
#[verifier::opaque]
pub open spec fn closed_upto(rows: Seq<PurgeRow>, sv: Seq<Seq<char>>, q: Seq<u128>, head: int) -> bool {
    forall|t: Seq<char>, u: Seq<char>|
        sv.contains(t) && #[trigger] edge(rows, t, u) ==> sv.contains(u) || in_queue(q, head, u)
}

/// Every queued identifier at or after `head` is reachable.
#[verifier::opaque]
pub open spec fn queue_reachable(rows: Seq<PurgeRow>, root: Seq<char>, q: Seq<u128>, head: int) -> bool {
    forall|m: int| head <= m < q.len() ==> reachable(rows, root, #[trigger] ulid_text(q[m]))
}

proof fn lemma_pop_seen(rows: Seq<PurgeRow>, sv: Seq<Seq<char>>, q: Seq<u128>, h: int)
    requires
        0 <= h < q.len(),
        closed_upto(rows, sv, q, h),
        sv.contains(ulid_text(q[h])),
    ensures
        closed_upto(rows, sv, q, h + 1),
{
    reveal(closed_upto);
    reveal(queue_reachable);
    reveal(visited_ok);
    assert forall|t: Seq<char>, u: Seq<char>|
        sv.contains(t) && #[trigger] edge(rows, t, u) implies sv.contains(u) || in_queue(q, h + 1, u) by {
        if !sv.contains(u) {
            let m = choose|m: int| h <= m < q.len() && #[trigger] ulid_text(q[m]) == u;
            if m == h {
            } else {
                assert(h + 1 <= m < q.len() && ulid_text(q[m]) == u);
            }
        }
    }
}

proof fn lemma_pop_absent(rows: Seq<PurgeRow>, sv: Seq<Seq<char>>, q: Seq<u128>, h: int)
    requires
        0 <= h < q.len(),
        closed_upto(rows, sv, q, h),
        find_row(rows, ulid_text(q[h])) is None,
    ensures
        closed_upto(rows, sv.push(ulid_text(q[h])), q, h + 1),
{
    reveal(closed_upto);
    reveal(queue_reachable);
    reveal(visited_ok);
    let t0 = ulid_text(q[h]);
    let sv2 = sv.push(t0);
    assert forall|t: Seq<char>, u: Seq<char>|
        sv2.contains(t) && #[trigger] edge(rows, t, u) implies sv2.contains(u) || in_queue(q, h + 1, u) by {
        if t == t0 {
            assert(find_row(rows, t) is Some);
        } else {
            assert(sv.contains(t)) by {
                let i = choose|i: int| 0 <= i < sv2.len() && sv2[i] == t;
                assert(i < sv.len());
                assert(sv[i] == t);
            }
            if !sv.contains(u) {
                let m = choose|m: int| h <= m < q.len() && #[trigger] ulid_text(q[m]) == u;
                if m == h {
                    assert(sv2[sv.len() as int] == u);
                } else {
                    assert(h + 1 <= m < q.len() && ulid_text(q[m]) == u);
                }
            } else {
                let i = choose|i: int| 0 <= i < sv.len() && sv[i] == u;
                assert(sv2[i] == u);
            }
        }
    }
}

proof fn lemma_pop_visit(rows: Seq<PurgeRow>, sv: Seq<Seq<char>>, q: Seq<u128>, h: int)
    requires
        0 <= h < q.len(),
        closed_upto(rows, sv, q, h),
        find_row(rows, ulid_text(q[h])) is Some,
    ensures
        closed_upto(
            rows,
            sv.push(ulid_text(q[h])),
            q + kid_ids(rows, ulid_text(q[h]), rows.len()),
            h + 1,
        ),
{
    reveal(closed_upto);
    reveal(queue_reachable);
    reveal(visited_ok);
    let t0 = ulid_text(q[h]);
    let sv2 = sv.push(t0);
    let kids = kid_ids(rows, t0, rows.len());
    let q2 = q + kids;
    assert forall|t: Seq<char>, u: Seq<char>|
        sv2.contains(t) && #[trigger] edge(rows, t, u) implies sv2.contains(u) || in_queue(q2, h + 1, u) by {
        if t == t0 {
            let j = choose|j: int|
                #[trigger] points_to(rows, j, t) && ulid_decode_spec(rows[j].ulid@) is Ok && ulid_text(
                    ulid_decode_spec(rows[j].ulid@)->Ok_0,
                ) == u;
            lemma_edge_kid_ids(rows, t0, rows.len(), j);
            let k = ulid_decode_spec(rows[j].ulid@)->Ok_0;
            let i = choose|i: int| 0 <= i < kids.len() && kids[i] == k;
            assert(q2[q.len() + i] == k);
            assert(h + 1 <= q.len() + i < q2.len() && ulid_text(q2[q.len() + i]) == u);
        } else {
            assert(sv.contains(t)) by {
                let i = choose|i: int| 0 <= i < sv2.len() && sv2[i] == t;
                assert(i < sv.len());
                assert(sv[i] == t);
            }
            if !sv.contains(u) {
                let m = choose|m: int| h <= m < q.len() && #[trigger] ulid_text(q[m]) == u;
                if m == h {
                    assert(sv2[sv.len() as int] == u);
                } else {
                    assert(q2[m] == q[m]);
                    assert(h + 1 <= m < q2.len() && ulid_text(q2[m]) == u);
                }
            } else {
                let i = choose|i: int| 0 <= i < sv.len() && sv[i] == u;
                assert(sv2[i] == u);
            }
        }
    }
}

proof fn lemma_queue_extend(rows: Seq<PurgeRow>, root: Seq<char>, q: Seq<u128>, h: int)
    requires
        0 <= h < q.len(),
        queue_reachable(rows, root, q, h),
        find_row(rows, ulid_text(q[h])) is Some,
    ensures
        queue_reachable(rows, root, q + kid_ids(rows, ulid_text(q[h]), rows.len()), h + 1),
{
    reveal(closed_upto);
    reveal(queue_reachable);
    reveal(visited_ok);
    let t0 = ulid_text(q[h]);
    let kids = kid_ids(rows, t0, rows.len());
    let q2 = q + kids;
    assert(reachable(rows, root, t0));
    assert forall|m: int| h + 1 <= m < q2.len() implies reachable(rows, root, #[trigger] ulid_text(q2[m])) by {
        if m < q.len() {
            assert(q2[m] == q[m]);
        } else {
            let i = m - q.len();
            lemma_kid_ids_edge(rows, t0, rows.len(), i);
            let j = choose|j: int|
                #[trigger] points_to(rows, j, t0) && ulid_decode_spec(rows[j].ulid@) == Ok::<
                    u128,
                    crate::ids::UlidError,
                >(kids[i]);
            assert(edge(rows, t0, ulid_text(kids[i])));
            lemma_reach_step(rows, root, t0, ulid_text(kids[i]));
        }
    }
}

proof fn lemma_closed_covers(rows: Seq<PurgeRow>, root: Seq<char>, sv: Seq<Seq<char>>, n: nat)
    requires
        sv.contains(root),
        forall|t: Seq<char>, u: Seq<char>| sv.contains(t) && #[trigger] edge(rows, t, u) ==> sv.contains(u),
    ensures
        forall|u: Seq<char>| #[trigger] level(rows, root, n).contains(u) ==> sv.contains(u),
    decreases n,
{
    if n > 0 {
        lemma_closed_covers(rows, root, sv, (n - 1) as nat);
        let p = level(rows, root, (n - 1) as nat);
        assert forall|u: Seq<char>| #[trigger] level(rows, root, n).contains(u) implies sv.contains(u) by {
            if !p.contains(u) {
                let t = choose|t: Seq<char>| p.contains(t) && #[trigger] edge(rows, t, u);
            }
        }
    }
}

/// Number of rows among the first `n` whose identifier text is not in `sv`;
/// it bounds the work left to a breadth-first visit.
pub open spec fn unseen(rows: Seq<PurgeRow>, sv: Seq<Seq<char>>, n: nat) -> nat
    decreases n,
{
    if n == 0 {
        0
    } else {
        unseen(rows, sv, (n - 1) as nat) + if sv.contains(rows[n - 1].ulid@) {
            0nat
        } else {
            1nat
        }
    }
}

/// Marking `t` seen never adds unseen rows; it removes one when a row
/// carries `t`, and none when no row does.
pub proof fn lemma_unseen_push(rows: Seq<PurgeRow>, sv: Seq<Seq<char>>, t: Seq<char>, n: nat)
    requires
        n <= rows.len(),
    ensures
        unseen(rows, sv.push(t), n) <= unseen(rows, sv, n),
        (exists|i: int| 0 <= i < n && #[trigger] has_ulid_at(rows, t, i)) && !sv.contains(t)
            ==> unseen(rows, sv.push(t), n) < unseen(rows, sv, n),
        (forall|i: int| 0 <= i < n ==> !#[trigger] has_ulid_at(rows, t, i)) ==> unseen(
            rows,
            sv.push(t),
            n,
        ) == unseen(rows, sv, n),
    decreases n,
{
    if n > 0 {
        lemma_unseen_push(rows, sv, t, (n - 1) as nat);
        let x = rows[n - 1].ulid@;
        let sv2 = sv.push(t);
        assert(sv2.contains(x) == (sv.contains(x) || x == t)) by {
            if sv2.contains(x) {
                let i = choose|i: int| 0 <= i < sv2.len() && sv2[i] == x;
                if i < sv.len() {
                    assert(sv[i] == x);
                }
            }
            if sv.contains(x) {
                let i = choose|i: int| 0 <= i < sv.len() && sv[i] == x;
                assert(sv2[i] == x);
            }
            if x == t {
                assert(sv2[sv.len() as int] == x);
            }
        }
        if forall|i: int| 0 <= i < n ==> !#[trigger] has_ulid_at(rows, t, i) {
            assert(!has_ulid_at(rows, t, n - 1));
        }
        if (exists|i: int| 0 <= i < n && #[trigger] has_ulid_at(rows, t, i)) && !sv.contains(t) {
            if !(exists|i: int| 0 <= i < n - 1 && #[trigger] has_ulid_at(rows, t, i)) {
                let i = choose|i: int| 0 <= i < n && #[trigger] has_ulid_at(rows, t, i);
                assert(i == n - 1);
            }
        }
    }
}

fn strings_contain(seen: &Vec<String>, t: &String) -> (r: bool)
    ensures
        r == string_views(seen@).contains(t@),
{
    let mut i: usize = 0;
    while i < seen.len()
        invariant
            i <= seen.len(),
            forall|j: int| 0 <= j < i ==> string_views(seen@)[j] != t@,
        decreases seen.len() - i,
    {
        if seen[i] == *t {
            assert(string_views(seen@)[i as int] == t@);
            return true;
        }
        i = i + 1;
    }
    false
}

proof fn lemma_push_contains<A>(s: Seq<A>, x: A, y: A)
    ensures
        s.push(x).contains(y) == (s.contains(y) || y == x),
{
    if s.push(x).contains(y) {
        let i = choose|i: int| 0 <= i < s.push(x).len() && s.push(x)[i] == y;
        if i < s.len() {
            assert(s[i] == y);
        }
    }
    if s.contains(y) {
        let i = choose|i: int| 0 <= i < s.len() && s[i] == y;
        assert(s.push(x)[i] == y);
    }
    if y == x {
        assert(s.push(x)[s.len() as int] == y);
    }
}

/// The entries a purge deletes: their identifiers' texts, rows and summary
/// lines, in visiting order (the requested entry first).
#[derive(Debug, Clone)]
pub struct PurgeSet {
    pub entries: Vec<PurgedEntry>,
    pub rowids: Vec<i64>,
    pub texts: Vec<String>,
}

/// `e` and `rowid` describe the present, reachable entry with text `t`.
pub open spec fn entry_matches(
    rows: Seq<PurgeRow>,
    rt: Seq<char>,
    t: Seq<char>,
    e: PurgedEntry,
    rowid: i64,
) -> bool {
    &&& reachable(rows, rt, t)
    &&& find_row(rows, t) is Some
    &&& ulid_text(e.id) == t
    &&& kind_named(rows[find_row(rows, t)->0].kind@) == Some(e.kind)
    &&& e.title@ == rows[find_row(rows, t)->0].title@
    &&& rowid == rows[find_row(rows, t)->0].rowid
}

/// `p` is the purge set of `root`: the requested entry first; then every
/// present entry reachable from it over supersede links, once each, with
/// the kind, title and row of its stored row.
pub open spec fn purge_set_ok(rows: Seq<PurgeRow>, root: u128, p: PurgeSet) -> bool {
    let rt = ulid_text(root);
    let tv = string_views(p.texts@);
    &&& p.entries@.len() == tv.len()
    &&& p.rowids@.len() == tv.len()
    &&& tv.len() > 0
    &&& tv[0] == rt
    &&& p.entries@[0].id == root
    &&& tv.no_duplicates()
    &&& forall|i: int|
        0 <= i < tv.len() ==> entry_matches(rows, rt, #[trigger] tv[i], p.entries@[i], p.rowids@[i])
    &&& forall|u: Seq<char>|
        reachable(rows, rt, u) && #[trigger] find_row(rows, u) is Some ==> tv.contains(u)
}

/// What the traversal keeps true of the visited texts `sv` and the
/// collected texts `tv`, entries and rows.
#[verifier::opaque]
pub open spec fn visited_ok(
    rows: Seq<PurgeRow>,
    rt: Seq<char>,
    sv: Seq<Seq<char>>,
    tv: Seq<Seq<char>>,
    es: Seq<PurgedEntry>,
    ids: Seq<i64>,
) -> bool {
    &&& sv.contains(rt)
    &&& forall|t: Seq<char>| #[trigger] sv.contains(t) ==> reachable(rows, rt, t)
    &&& es.len() == tv.len()
    &&& ids.len() == tv.len()
    &&& tv.no_duplicates()
    &&& forall|i: int| 0 <= i < tv.len() ==> sv.contains(#[trigger] tv[i])
    &&& forall|i: int| 0 <= i < tv.len() ==> entry_matches(rows, rt, #[trigger] tv[i], es[i], ids[i])
    &&& forall|t: Seq<char>|
        sv.contains(t) && #[trigger] find_row(rows, t) is Some ==> tv.contains(t) && !row_bad(rows, t)
}

proof fn lemma_queue_pop(rows: Seq<PurgeRow>, rt: Seq<char>, q: Seq<u128>, h: int)
    requires
        0 <= h < q.len(),
        queue_reachable(rows, rt, q, h),
    ensures
        queue_reachable(rows, rt, q, h + 1),
        reachable(rows, rt, ulid_text(q[h])),
{
    reveal(closed_upto);
    reveal(queue_reachable);
    reveal(visited_ok);
}

proof fn lemma_visit_absent(
    rows: Seq<PurgeRow>,
    rt: Seq<char>,
    sv: Seq<Seq<char>>,
    tv: Seq<Seq<char>>,
    es: Seq<PurgedEntry>,
    ids: Seq<i64>,
    t: Seq<char>,
)
    requires
        visited_ok(rows, rt, sv, tv, es, ids),
        reachable(rows, rt, t),
        find_row(rows, t) is None,
    ensures
        visited_ok(rows, rt, sv.push(t), tv, es, ids),
{
    reveal(closed_upto);
    reveal(queue_reachable);
    reveal(visited_ok);
    let sv2 = sv.push(t);
    lemma_push_contains(sv, t, rt);
    assert forall|x: Seq<char>| #[trigger] sv2.contains(x) implies reachable(rows, rt, x) by {
        lemma_push_contains(sv, t, x);
    }
    assert forall|i: int| 0 <= i < tv.len() implies sv2.contains(#[trigger] tv[i]) by {
        lemma_push_contains(sv, t, tv[i]);
    }
    assert forall|x: Seq<char>|
        sv2.contains(x) && #[trigger] find_row(rows, x) is Some implies tv.contains(x) && !row_bad(
        rows,
        x,
    ) by {
        lemma_push_contains(sv, t, x);
    }
}

proof fn lemma_visit_present(
    rows: Seq<PurgeRow>,
    rt: Seq<char>,
    sv: Seq<Seq<char>>,
    tv: Seq<Seq<char>>,
    es: Seq<PurgedEntry>,
    ids: Seq<i64>,
    t: Seq<char>,
    e: PurgedEntry,
    rowid: i64,
)
    requires
        visited_ok(rows, rt, sv, tv, es, ids),
        !sv.contains(t),
        entry_matches(rows, rt, t, e, rowid),
        !row_bad(rows, t),
    ensures
        visited_ok(rows, rt, sv.push(t), tv.push(t), es.push(e), ids.push(rowid)),
{
    reveal(closed_upto);
    reveal(queue_reachable);
    reveal(visited_ok);
    let sv2 = sv.push(t);
    let tv2 = tv.push(t);
    let es2 = es.push(e);
    let ids2 = ids.push(rowid);
    lemma_push_contains(sv, t, rt);
    assert forall|x: Seq<char>| #[trigger] sv2.contains(x) implies reachable(rows, rt, x) by {
        lemma_push_contains(sv, t, x);
    }
    assert(!tv.contains(t)) by {
        if tv.contains(t) {
            let j = choose|j: int| 0 <= j < tv.len() && tv[j] == t;
            assert(sv.contains(tv[j]));
        }
    }
    assert forall|a: int, b: int| 0 <= a < tv2.len() && 0 <= b < tv2.len() && a != b implies tv2[a]
        != tv2[b] by {
        if a == tv.len() {
            assert(tv.contains(tv[b]));
        } else if b == tv.len() {
            assert(tv.contains(tv[a]));
        } else {
            assert(tv[a] == tv2[a] && tv[b] == tv2[b]);
        }
    }
    assert forall|i: int| 0 <= i < tv2.len() implies sv2.contains(#[trigger] tv2[i]) by {
        lemma_push_contains(sv, t, tv2[i]);
        if i < tv.len() {
            assert(tv2[i] == tv[i]);
        }
    }
    assert forall|i: int| 0 <= i < tv2.len() implies entry_matches(
        rows,
        rt,
        #[trigger] tv2[i],
        es2[i],
        ids2[i],
    ) by {
        if i < tv.len() {
            assert(tv2[i] == tv[i] && es2[i] == es[i] && ids2[i] == ids[i]);
        }
    }
    assert forall|x: Seq<char>|
        sv2.contains(x) && #[trigger] find_row(rows, x) is Some implies tv2.contains(x) && !row_bad(
        rows,
        x,
    ) by {
        lemma_push_contains(sv, t, x);
        lemma_push_contains(tv, t, x);
    }
}

proof fn lemma_traversal_done(
    rows: Seq<PurgeRow>,
    rt: Seq<char>,
    sv: Seq<Seq<char>>,
    tv: Seq<Seq<char>>,
    es: Seq<PurgedEntry>,
    ids: Seq<i64>,
    q: Seq<u128>,
)
    requires
        visited_ok(rows, rt, sv, tv, es, ids),
        closed_upto(rows, sv, q, q.len() as int),
    ensures
        !exists|u: Seq<char>| reachable(rows, rt, u) && #[trigger] row_bad(rows, u),
        forall|u: Seq<char>| reachable(rows, rt, u) && #[trigger] find_row(rows, u) is Some ==> tv.contains(u),
{
    reveal(closed_upto);
    reveal(queue_reachable);
    reveal(visited_ok);
    assert forall|t: Seq<char>, u: Seq<char>| sv.contains(t) && #[trigger] edge(rows, t, u) implies sv.contains(u) by {
        if !sv.contains(u) {
            assert(in_queue(q, q.len() as int, u));
        }
    }
    assert forall|u: Seq<char>| #[trigger] reachable(rows, rt, u) implies sv.contains(u) by {
        let n = choose|n: nat| #[trigger] level(rows, rt, n).contains(u);
        lemma_closed_covers(rows, rt, sv, n);
    }
    assert forall|u: Seq<char>| reachable(rows, rt, u) implies !#[trigger] row_bad(rows, u) by {
        assert(sv.contains(u));
    }
    assert forall|u: Seq<char>| reachable(rows, rt, u) && #[trigger] find_row(rows, u) is Some implies tv.contains(u) by {
        assert(sv.contains(u));
    }
}

proof fn lemma_traversal_start(rows: Seq<PurgeRow>, rt: Seq<char>, q: Seq<u128>)
    requires
        find_row(rows, rt) is Some,
        q == kid_ids(rows, rt, rows.len()),
    ensures
        closed_upto(rows, seq![rt], q, 0),
        queue_reachable(rows, rt, q, 0),
{
    reveal(closed_upto);
    reveal(queue_reachable);
    reveal(visited_ok);
    let sv = seq![rt];
    lemma_reach_root(rows, rt);
    assert forall|t: Seq<char>, u: Seq<char>|
        sv.contains(t) && #[trigger] edge(rows, t, u) implies sv.contains(u) || in_queue(q, 0, u) by {
        assert(sv[0] == t);
        let j = choose|j: int|
            #[trigger] points_to(rows, j, t) && ulid_decode_spec(rows[j].ulid@) is Ok && ulid_text(
                ulid_decode_spec(rows[j].ulid@)->Ok_0,
            ) == u;
        lemma_edge_kid_ids(rows, rt, rows.len(), j);
        let k = ulid_decode_spec(rows[j].ulid@)->Ok_0;
        let i = choose|i: int| 0 <= i < q.len() && q[i] == k;
        assert(0 <= i < q.len() && ulid_text(q[i]) == u);
    }
    assert forall|m: int| 0 <= m < q.len() implies reachable(rows, rt, #[trigger] ulid_text(q[m])) by {
        lemma_kid_ids_edge(rows, rt, rows.len(), m);
        assert(edge(rows, rt, ulid_text(q[m])));
        lemma_reach_step(rows, rt, rt, ulid_text(q[m]));
    }
}

/// The breadth-first visit from queue position `head`: each queued
/// identifier not yet seen is marked seen; when a row carries it, its text
/// joins `out` and the identifiers of the rows it superseded join the queue,
/// in row order. The result is the texts of the visited present entries.
pub open spec fn bfs(
    rows: Seq<PurgeRow>,
    q: Seq<u128>,
    head: int,
    seen: Seq<Seq<char>>,
    out: Seq<Seq<char>>,
) -> Seq<Seq<char>>
    decreases unseen(rows, seen, rows.len()), q.len() - head,
{
    if 0 <= head < q.len() {
        let t = ulid_text(q[head]);
        if seen.contains(t) {
            bfs(rows, q, head + 1, seen, out)
        } else if find_row(rows, t) is Some {
            proof {
                lemma_find_row(rows, t);
                lemma_unseen_push(rows, seen, t, rows.len());
                assert(has_ulid_at(rows, t, find_row(rows, t)->0));
            }
            bfs(rows, q + kid_ids(rows, t, rows.len()), head + 1, seen.push(t), out.push(t))
        } else {
            proof {
                lemma_find_row(rows, t);
                lemma_unseen_push(rows, seen, t, rows.len());
            }
            bfs(rows, q, head + 1, seen.push(t), out)
        }
    } else {
        out
    }
}

/// The order in which a purge of `root` visits entries: `root` first, then
/// breadth-first over supersede links, the superseded rows of each entry in
/// table order.
pub open spec fn purge_order(rows: Seq<PurgeRow>, root: u128) -> Seq<Seq<char>> {
    let rt = ulid_text(root);
    bfs(rows, kid_ids(rows, rt, rows.len()), 0, seq![rt], seq![rt])
}

/// Collects the entries a purge of `root` deletes (see `purge_set_ok`).
/// Refused with `NotFound` when `root` has no row, and with `BadRequest`
/// when some reachable present entry has an unknown kind or superseded an
/// entry with a corrupt identifier.
pub fn purge_closure(rows: &Vec<PurgeRow>, root: u128) -> (r: Result<PurgeSet, KbError>)
    ensures
        find_row(rows@, ulid_text(root)) is None ==> r matches Err(KbError::NotFound),
        find_row(rows@, ulid_text(root)) is Some ==> {
            &&& (r is Err) == (exists|u: Seq<char>|
                reachable(rows@, ulid_text(root), u) && #[trigger] row_bad(rows@, u))
            &&& (r is Err ==> r matches Err(KbError::BadRequest(_)))
            &&& (r matches Ok(p) ==> purge_set_ok(rows@, root, p) && string_views(p.texts@)
                == purge_order(rows@, root))
        },
{
    let root_text = ulid_to_string(root);
    let ghost rt = root_text@;
    let ri = match find_row_index(rows, &root_text) {
        Some(i) => i,
        None => return Err(KbError::NotFound),
    };
    proof {
        lemma_reach_root(rows@, rt);
        lemma_find_row(rows@, rt);
    }
    let mut queue: Vec<u128> = Vec::new();
    let k0 = match visit(rows, ri, &mut queue) {
        Ok(k) => k,
        Err(e) => {
            assert(row_bad(rows@, rt));
            return Err(e);
        },
    };
    let mut seen: Vec<String> = Vec::new();
    seen.push(root_text.clone());
    let mut entries: Vec<PurgedEntry> = Vec::new();
    entries.push(PurgedEntry { id: root, kind: k0, title: rows[ri].title.clone() });
    let mut rowids: Vec<i64> = Vec::new();
    rowids.push(rows[ri].rowid);
    let mut texts: Vec<String> = Vec::new();
    texts.push(root_text);
    let mut head: usize = 0;
    proof {
        assert(queue@ =~= kid_ids(rows@, rt, rows@.len()));
        lemma_traversal_start(rows@, rt, queue@);
        assert(string_views(seen@) =~= Seq::<Seq<char>>::empty().push(rt));
        assert(string_views(texts@) =~= Seq::<Seq<char>>::empty().push(rt));
        assert(entries@ =~= Seq::<PurgedEntry>::empty().push(entries@[0]));
        assert(rowids@ =~= Seq::<i64>::empty().push(rowids@[0]));
        assert(entry_matches(rows@, rt, rt, entries@[0], rowids@[0]));
        lemma_push_contains(Seq::<Seq<char>>::empty(), rt, rt);
        assert(visited_ok(rows@, rt, string_views(seen@), string_views(texts@), entries@, rowids@))
            by {
            reveal(visited_ok);
            let sv = string_views(seen@);
            assert forall|x: Seq<char>| #[trigger] sv.contains(x) implies reachable(rows@, rt, x) by {
                lemma_push_contains(Seq::<Seq<char>>::empty(), rt, x);
            }
            assert forall|x: Seq<char>|
                sv.contains(x) && #[trigger] find_row(rows@, x) is Some implies string_views(
                texts@,
            ).contains(x) && !row_bad(rows@, x) by {
                lemma_push_contains(Seq::<Seq<char>>::empty(), rt, x);
                assert(string_views(texts@)[0] == x);
            }
            assert(string_views(texts@)[0] == rt);
        }
        assert(closed_upto(rows@, string_views(seen@), queue@, 0));
        assert(string_views(seen@) == seq![rt]);
        assert(string_views(texts@) == seq![rt]);
    }
    while head < queue.len()
        invariant
            head <= queue.len(),
            bfs(rows@, queue@, head as int, string_views(seen@), string_views(texts@))
                == purge_order(rows@, root),
            rt == ulid_text(root),
            find_row(rows@, rt) is Some,
            entries@.len() > 0,
            string_views(texts@).len() > 0,
            string_views(texts@)[0] == rt,
            entries@[0].id == root,
            visited_ok(rows@, rt, string_views(seen@), string_views(texts@), entries@, rowids@),
            queue_reachable(rows@, rt, queue@, head as int),
            closed_upto(rows@, string_views(seen@), queue@, head as int),
        decreases unseen(rows@, string_views(seen@), rows@.len()), queue.len() - head,
    {
        let cur = queue[head];
        let t = ulid_to_string(cur);
        let ghost h = head as int;
        let ghost sv0 = string_views(seen@);
        let ghost q0 = queue@;
        let ghost tv0 = string_views(texts@);
        proof {
            lemma_queue_pop(rows@, rt, q0, h);
        }
        head = head + 1;
        if strings_contain(&seen, &t) {
            proof {
                lemma_pop_seen(rows@, sv0, q0, h);
            }
        } else {
            seen.push(t.clone());
            assert(string_views(seen@) =~= sv0.push(t@));
            proof {
                lemma_unseen_push(rows@, sv0, t@, rows@.len());
            }
            match find_row_index(rows, &t) {
                None => {
                    proof {
                        lemma_pop_absent(rows@, sv0, q0, h);
                        lemma_visit_absent(rows@, rt, sv0, tv0, entries@, rowids@, t@);
                        lemma_find_row(rows@, t@);
                    }
                },
                Some(i) => {
                    proof {
                        lemma_find_row(rows@, t@);
                    }
                    match visit(rows, i, &mut queue) {
                        Ok(k) => {
                            proof {
                                lemma_pop_visit(rows@, sv0, q0, h);
                                lemma_queue_extend(rows@, rt, q0, h);
                            }
                            let e = PurgedEntry { id: cur, kind: k, title: rows[i].title.clone() };
                            let ghost es0 = entries@;
                            let ghost ids0 = rowids@;
                            proof {
                                assert(entry_matches(rows@, rt, t@, e, rows@[i as int].rowid));
                                assert(!row_bad(rows@, t@));
                                lemma_visit_present(rows@, rt, sv0, tv0, es0, ids0, t@, e, rows@[i as int].rowid);
                            }
                            entries.push(e);
                            rowids.push(rows[i].rowid);
                            texts.push(t);
                            proof {
                                assert(entries@ == es0.push(e));
                                assert(string_views(texts@) =~= tv0.push(t@));
                                assert(string_views(texts@)[0] == tv0[0]);
                                assert(entries@[0] == es0[0]);
                            }
                        },
                        Err(e) => {
                            proof {
                                assert(row_bad(rows@, t@));
                            }
                            return Err(e);
                        },
                    }
                },
            }
        }
    }
    proof {
        lemma_traversal_done(rows@, rt, string_views(seen@), string_views(texts@), entries@, rowids@, queue@);
        reveal(visited_ok);
    }
    Ok(PurgeSet { entries, rowids, texts })
}

/// The reference marker `[[<id>]]`.
pub open spec fn ref_marker(pid: Seq<char>) -> Seq<char> {
    "[["@ + pid + "]]"@
}

/// The marker a reference to a purged entry becomes: `[[<id> → deleted]]`.
pub open spec fn deleted_marker(pid: Seq<char>) -> Seq<char> {
    "[["@ + pid + " → deleted]]"@
}

/// `body` after rewriting the references to each of `pids`, in order.
pub open spec fn rewrite_body(body: Seq<char>, pids: Seq<Seq<char>>) -> Seq<char>
    decreases pids.len(),
{
    if pids.len() == 0 {
        body
    } else {
        replace_occ(
            rewrite_body(body, pids.drop_last()),
            ref_marker(pids.last()),
            deleted_marker(pids.last()),
        )
    }
}

/// Number of references rewritten in `body`.
pub open spec fn ref_total(body: Seq<char>, pids: Seq<Seq<char>>) -> nat
    decreases pids.len(),
{
    if pids.len() == 0 {
        0
    } else {
        ref_total(body, pids.drop_last()) + count_occ(
            rewrite_body(body, pids.drop_last()),
            ref_marker(pids.last()),
        )
    }
}

/// Rewrites the references to `pids` in `body`; returns how many there were.
fn rewrite_refs(body: &String, pids: &Vec<String>) -> (r: (u128, String))
    ensures
        r.0 == ref_total(body@, string_views(pids@)),
        r.1@ == rewrite_body(body@, string_views(pids@)),
{
    let ghost pv = string_views(pids@);
    let mut cur = str_chars(body.as_str());
    let mut total: u128 = 0;
    let mut j: usize = 0;
    proof {
        reveal_strlit("[[");
        assert(pv.take(0) == Seq::<Seq<char>>::empty());
    }
    while j < pids.len()
        invariant
            j <= pids.len(),
            pv == string_views(pids@),
            total == ref_total(body@, pv.take(j as int)),
            cur@ == rewrite_body(body@, pv.take(j as int)),
            total <= j * 0xffff_ffff_ffff_ffffint,
        decreases pids.len() - j,
    {
        let a = concat("[[", pids[j].as_str());
        let needle_s = concat(a.as_str(), "]]");
        let rep_s = concat(a.as_str(), " → deleted]]");
        let needle = str_chars(needle_s.as_str());
        let rep = str_chars(rep_s.as_str());
        assert(needle@.len() > 0) by {
            reveal_strlit("[[");
        }
        let (n, next) = replace_count(&cur, &needle, &rep);
        assert(pv.take(j + 1).drop_last() == pv.take(j as int));
        assert(pv.take(j + 1).last() == pids@[j as int]@);
        assert(total + n <= (j + 1) * 0xffff_ffff_ffff_ffffint) by (nonlinear_arith)
            requires
                total <= j * 0xffff_ffff_ffff_ffffint,
                n <= 0xffff_ffff_ffff_ffffint,
        ;
        assert((j + 1) * 0xffff_ffff_ffff_ffffint <= 0x1_0000_0000_0000_0000int * 0xffff_ffff_ffff_ffffint)
            by (nonlinear_arith)
            requires
                j + 1 <= 0x1_0000_0000_0000_0000int,
        ;
        total = total + n as u128;
        cur = next;
        j = j + 1;
    }
    assert(pv.take(pids.len() as int) == pv);
    (total, string_from_chars(&cur))
}

/// A body rewrite to apply.
#[derive(Debug, Clone)]
pub struct BodyUpdate {
    pub rowid: i64,
    pub body: String,
}

/// A surviving row (not purged) whose body references a purged entry.
pub open spec fn needs_rewrite(r: PurgeRow, pids: Seq<Seq<char>>) -> bool {
    !pids.contains(r.ulid@) && ref_total(r.body@, pids) > 0
}

/// The rows among the first `n` that need a rewrite, in row order.
pub open spec fn selected(rows: Seq<PurgeRow>, pids: Seq<Seq<char>>, n: nat) -> Seq<PurgeRow>
    decreases n,
{
    if n == 0 {
        Seq::empty()
    } else {
        let p = selected(rows, pids, (n - 1) as nat);
        if needs_rewrite(rows[n - 1], pids) {
            p.push(rows[n - 1])
        } else {
            p
        }
    }
}

/// Law: a row picked for a body rewrite survives the purge (its identifier
/// is not among the purged ones), references a purged entry, and is a row
/// of the table.
#[verifier::spinoff_prover]
pub proof fn lemma_rewritten_rows_survive(rows: Seq<PurgeRow>, pids: Seq<Seq<char>>, n: nat)
    requires
        n <= rows.len(),
    ensures
        forall|m: int|
            0 <= m < selected(rows, pids, n).len() ==> !pids.contains(
                #[trigger] selected(rows, pids, n)[m].ulid@,
            ) && ref_total(selected(rows, pids, n)[m].body@, pids) > 0,
        forall|m: int|
            0 <= m < selected(rows, pids, n).len() ==> exists|j: int|
                0 <= j < n && rows[j] == #[trigger] selected(rows, pids, n)[m],
    decreases n,
{
    if n > 0 {
        lemma_rewritten_rows_survive(rows, pids, (n - 1) as nat);
        let p = selected(rows, pids, (n - 1) as nat);
        if needs_rewrite(rows[n - 1], pids) {
            assert forall|m: int| 0 <= m < selected(rows, pids, n).len() implies exists|j: int|
                0 <= j < n && rows[j] == #[trigger] selected(rows, pids, n)[m] by {
                if m < p.len() {
                    assert(selected(rows, pids, n)[m] == p[m]);
                    let j = choose|j: int| 0 <= j < n - 1 && rows[j] == #[trigger] p[m];
                    assert(0 <= j < n && rows[j] == selected(rows, pids, n)[m]);
                } else {
                    assert(rows[n - 1] == selected(rows, pids, n)[m]);
                }
            }
        } else {
            assert forall|m: int| 0 <= m < selected(rows, pids, n).len() implies exists|j: int|
                0 <= j < n && rows[j] == #[trigger] selected(rows, pids, n)[m] by {
                let j = choose|j: int| 0 <= j < n - 1 && rows[j] == #[trigger] p[m];
                assert(0 <= j < n && rows[j] == selected(rows, pids, n)[m]);
            }
        }
    }
}

/// `rw` and `up` describe the rewrite of `row`: its identifier, the number
/// of references (wrapping at 2^32 like the 32-bit counter), its row and
/// the rewritten body.
pub open spec fn rewrite_matches(
    row: PurgeRow,
    pids: Seq<Seq<char>>,
    rw: RewrittenEntry,
    up: BodyUpdate,
) -> bool {
    &&& ulid_decode_spec(row.ulid@) == Ok::<u128, crate::ids::UlidError>(rw.id)
    &&& rw.refs_count as int == ref_total(row.body@, pids) % 0x1_0000_0000
    &&& up.rowid == row.rowid
    &&& up.body@ == rewrite_body(row.body@, pids)
}

/// A row that needs a rewrite has a corrupt identifier.
pub open spec fn rewrite_bad(rows: Seq<PurgeRow>, pids: Seq<Seq<char>>, j: int) -> bool {
    0 <= j < rows.len() && needs_rewrite(rows[j], pids) && ulid_decode_spec(rows[j].ulid@) is Err
}

/// Plans the body rewrites of the surviving rows that reference any of
/// `pids`; refused when such a row's identifier is corrupt.
pub fn plan_rewrites(rows: &Vec<PurgeRow>, pids: &Vec<String>) -> (r: Result<
    (Vec<RewrittenEntry>, Vec<BodyUpdate>),
    KbError,
>)
    ensures
        (r is Err) == (exists|j: int| #[trigger] rewrite_bad(rows@, string_views(pids@), j)),
        r is Err ==> r matches Err(KbError::BadRequest(_)),
        r matches Ok((rw, ups)) ==> {
            let sel = selected(rows@, string_views(pids@), rows@.len());
            &&& rw@.len() == sel.len()
            &&& ups@.len() == sel.len()
            &&& forall|m: int|
                0 <= m < sel.len() ==> rewrite_matches(
                    #[trigger] sel[m],
                    string_views(pids@),
                    rw@[m],
                    ups@[m],
                )
        },
{
    let ghost pv = string_views(pids@);
    let mut rw: Vec<RewrittenEntry> = Vec::new();
    let mut ups: Vec<BodyUpdate> = Vec::new();
    let mut i: usize = 0;
    while i < rows.len()
        invariant
            i <= rows.len(),
            pv == string_views(pids@),
            forall|j: int| 0 <= j < i ==> !#[trigger] rewrite_bad(rows@, pv, j),
            rw@.len() == selected(rows@, pv, i as nat).len(),
            ups@.len() == selected(rows@, pv, i as nat).len(),
            forall|m: int|
                0 <= m < selected(rows@, pv, i as nat).len() ==> rewrite_matches(
                    #[trigger] selected(rows@, pv, i as nat)[m],
                    pv,
                    rw@[m],
                    ups@[m],
                ),
        decreases rows.len() - i,
    {
        let ghost sel0 = selected(rows@, pv, i as nat);
        let row = &rows[i];
        if strings_contain(pids, &row.ulid) {
            assert(!needs_rewrite(rows@[i as int], pv));
        } else {
            let (total, new_body) = rewrite_refs(&row.body, pids);
            if total > 0 {
                match ulid_from_str(row.ulid.as_str()) {
                    Ok(id) => {
                        let refs_count = (total % 0x1_0000_0000) as u32;
                        let ghost rw0 = rw@;
                        let ghost ups0 = ups@;
                        rw.push(RewrittenEntry { id, refs_count });
                        ups.push(BodyUpdate { rowid: row.rowid, body: new_body });
                        proof {
                            let sel = selected(rows@, pv, (i + 1) as nat);
                            assert(sel == sel0.push(rows@[i as int]));
                            assert forall|m: int| 0 <= m < sel.len() implies rewrite_matches(
                                #[trigger] sel[m],
                                pv,
                                rw@[m],
                                ups@[m],
                            ) by {
                                if m < sel0.len() {
                                    assert(sel[m] == sel0[m]);
                                    assert(rw@[m] == rw0[m] && ups@[m] == ups0[m]);
                                }
                            }
                        }
                    },
                    Err(e) => {
                        let a = concat("corrupt ulid ", row.ulid.as_str());
                        let b = concat(a.as_str(), ": ");
                        let m = concat(b.as_str(), e.message().as_str());
                        assert(rewrite_bad(rows@, pv, i as int));
                        return Err(KbError::BadRequest(m));
                    },
                }
            }
        }
        i = i + 1;
    }
    Ok((rw, ups))
}

/// A purge to apply: the summary it answers with, the rows to delete, and
/// the body rewrites of the surviving rows.
#[derive(Debug, Clone)]
pub struct PurgePlan {
    pub summary: PurgeSummary,
    pub purge_rowids: Vec<i64>,
    /// Identifier texts of the purged entries, in the order of `purged`.
    pub purged_texts: Vec<String>,
    pub body_updates: Vec<BodyUpdate>,
}

/// Whether a purge of `id` succeeds: the entry exists, no entry reached
/// from it is corrupt, and no surviving row to be rewritten has a corrupt
/// identifier.
pub open spec fn purge_succeeds(rows: Seq<PurgeRow>, id: u128) -> bool {
    &&& find_row(rows, ulid_text(id)) is Some
    &&& !(exists|u: Seq<char>| reachable(rows, ulid_text(id), u) && #[trigger] row_bad(rows, u))
    &&& !(exists|j: int| #[trigger] rewrite_bad(rows, purge_order(rows, id), j))
}

/// `plan` is the purge of `id` (apart from its dry-run flag): the entries
/// deleted are those of `purge_set_ok`, in `purge_order`; the rewrites are
/// those of the rows `selected` for it, in table order; and no rewritten
/// body keeps a marker of a deleted entry.
pub open spec fn plan_ok(rows: Seq<PurgeRow>, id: u128, plan: PurgePlan) -> bool {
    let pv = string_views(plan.purged_texts@);
    let sel = selected(rows, pv, rows.len());
    &&& purge_set_ok(
        rows,
        id,
        (PurgeSet {
            entries: plan.summary.purged,
            rowids: plan.purge_rowids,
            texts: plan.purged_texts,
        }),
    )
    &&& pv == purge_order(rows, id)
    &&& plan.summary.rewritten@.len() == sel.len()
    &&& plan.body_updates@.len() == sel.len()
    &&& forall|m: int|
        0 <= m < sel.len() ==> rewrite_matches(
            #[trigger] sel[m],
            pv,
            plan.summary.rewritten@[m],
            plan.body_updates@[m],
        )
    &&& forall|m: int, p: Seq<char>|
        0 <= m < plan.body_updates@.len() && pv.contains(p) ==> #[trigger] count_occ(
            plan.body_updates@[m].body@,
            ref_marker(p),
        ) == 0
}

/// Plans the purge of `id`: the entry and everything reachable from it over
/// supersede links are deleted (see `purge_closure`), and every other
/// entry's references `[[<ulid>]]` to a deleted entry become
/// `[[<ulid> → deleted]]` (see `plan_rewrites`), so no rewritten body keeps
/// a marker of a deleted entry. `dry_run` is carried into the summary; the
/// plan is otherwise the same either way (see `lemma_preview_matches_run`).
pub fn plan_purge(rows: &Vec<PurgeRow>, id: u128, dry_run: bool) -> (r: Result<PurgePlan, KbError>)
    ensures
        (r is Ok) == purge_succeeds(rows@, id),
        find_row(rows@, ulid_text(id)) is None ==> r matches Err(KbError::NotFound),
        r is Err ==> r matches Err(KbError::NotFound) || r matches Err(KbError::BadRequest(_)),
        find_row(rows@, ulid_text(id)) is Some && r is Err ==> r matches Err(KbError::BadRequest(_)),
        r matches Ok(plan) ==> plan.summary.dry_run == dry_run && plan_ok(rows@, id, plan),
{
    let set = match purge_closure(rows, id) {
        Ok(p) => p,
        Err(e) => return Err(e),
    };
    let (rewritten, body_updates) = match plan_rewrites(rows, &set.texts) {
        Ok(x) => x,
        Err(e) => return Err(e),
    };
    proof {
        let pv = string_views(set.texts@);
        let sel = selected(rows@, pv, rows@.len());
        assert forall|i: int| 0 <= i < pv.len() implies marker_id(#[trigger] pv[i]) by {
            lemma_ulid_text_marker(set.entries@[i].id);
        }
        assert forall|m: int, p: Seq<char>|
            0 <= m < body_updates@.len() && pv.contains(p) implies #[trigger] count_occ(
            body_updates@[m].body@,
            ref_marker(p),
        ) == 0 by {
            assert(rewrite_matches(sel[m], pv, rewritten@[m], body_updates@[m]));
            lemma_no_reference_survives(sel[m].body@, pv);
        }
    }
    let summary = PurgeSummary { dry_run, purged: set.entries, rewritten };
    let plan = PurgePlan { summary, purge_rowids: set.rowids, purged_texts: set.texts, body_updates };
    assert(plan_ok(rows@, id, plan));
    Ok(plan)
}

/// A surviving entry after its body rewrite: the new body, the next
/// version, updated at `now`; everything else stays.
pub fn apply_rewrite(prev: Entry, body: String, now: String) -> (e: Entry)
    requires
        prev.version < u32::MAX,
    ensures
        e.body == body,
        e.version == prev.version + 1,
        e.updated_at == now,
        e.id == prev.id,
        e.title == prev.title,
        e.tags == prev.tags,
        e.source == prev.source,
        e.data == prev.data,
        e.natural_key_text == prev.natural_key_text,
        e.natural_key_hash == prev.natural_key_hash,
        e.created_at == prev.created_at,
        e.deprecated_at == prev.deprecated_at,
        e.deprecation_reason == prev.deprecation_reason,
        e.superseded_by == prev.superseded_by,
{
    let version = prev.version + 1;
    Entry { body, version, updated_at: now, ..prev }
}

/// A body none of whose purged references was counted is left as it is,
/// and holds no marker of any of them.
proof fn lemma_no_refs_unchanged(body: Seq<char>, pids: Seq<Seq<char>>)
    requires
        ref_total(body, pids) == 0,
    ensures
        rewrite_body(body, pids) == body,
        forall|q: Seq<char>| #[trigger] pids.contains(q) ==> count_occ(body, ref_marker(q)) == 0,
    decreases pids.len(),
{
    if pids.len() > 0 {
        let prev = pids.drop_last();
        lemma_no_refs_unchanged(body, prev);
        lemma_marker_nonempty(pids.last());
        lemma_zero_count_replace(body, ref_marker(pids.last()), deleted_marker(pids.last()));
        assert forall|q: Seq<char>| #[trigger] pids.contains(q) implies count_occ(body, ref_marker(q))
            == 0 by {
            let i = choose|i: int| 0 <= i < pids.len() && pids[i] == q;
            if i < pids.len() - 1 {
                assert(prev[i] == q);
                assert(prev.contains(q));
            }
        }
    }
}

/// Every row among the first `n` that needs a rewrite is selected.
proof fn lemma_selected_covers(rows: Seq<PurgeRow>, pids: Seq<Seq<char>>, n: nat, j: int)
    requires
        n <= rows.len(),
        0 <= j < n,
        needs_rewrite(rows[j], pids),
    ensures
        selected(rows, pids, n).contains(rows[j]),
    decreases n,
{
    let s = selected(rows, pids, n);
    if j == n - 1 {
        assert(s[s.len() - 1] == rows[j]);
    } else {
        lemma_selected_covers(rows, pids, (n - 1) as nat, j);
        let p = selected(rows, pids, (n - 1) as nat);
        let i = choose|i: int| 0 <= i < p.len() && p[i] == rows[j];
        assert(s[i] == rows[j]);
    }
}

/// The rows a purge leaves in the table: those whose row is not deleted.
pub open spec fn rows_left(rows: Seq<PurgeRow>, deleted: Seq<i64>) -> Seq<PurgeRow>
    decreases rows.len(),
{
    if rows.len() == 0 {
        rows
    } else {
        let p = rows_left(rows.drop_last(), deleted);
        if deleted.contains(rows.last().rowid) {
            p
        } else {
            p.push(rows.last())
        }
    }
}

proof fn lemma_rows_left(rows: Seq<PurgeRow>, deleted: Seq<i64>)
    ensures
        forall|k: int|
            0 <= k < rows_left(rows, deleted).len() ==> exists|j: int|
                0 <= j < rows.len() && rows[j] == #[trigger] rows_left(rows, deleted)[k]
                    && !deleted.contains(rows[j].rowid),
    decreases rows.len(),
{
    if rows.len() > 0 {
        let prev = rows.drop_last();
        lemma_rows_left(prev, deleted);
        let l = rows_left(rows, deleted);
        let p = rows_left(prev, deleted);
        assert forall|k: int| 0 <= k < l.len() implies exists|j: int|
            0 <= j < rows.len() && rows[j] == #[trigger] l[k] && !deleted.contains(rows[j].rowid) by {
            if k < p.len() {
                assert(l[k] == p[k]);
                let j = choose|j: int|
                    0 <= j < prev.len() && prev[j] == #[trigger] p[k] && !deleted.contains(prev[j].rowid);
                assert(rows[j] == prev[j]);
            } else {
                assert(l[k] == rows[rows.len() - 1]);
            }
        }
    }
}

/// No two rows carry the same identifier text (the `ulid` column is
/// unique).
pub open spec fn ids_unique(rows: Seq<PurgeRow>) -> bool {
    forall|i: int, j: int| 0 <= i < rows.len() && 0 <= j < rows.len() && i != j ==> rows[i].ulid@ != rows[j].ulid@
}

/// The row's identifier text is the canonical text of its value.
pub open spec fn canonical_id(r: PurgeRow) -> bool {
    ulid_decode_spec(r.ulid@) is Ok && ulid_text(ulid_decode_spec(r.ulid@)->Ok_0) == r.ulid@
}

/// Law: after a purge nothing left points at a deleted entry. Every row
/// (with a canonical identifier) that a deleted entry superseded is deleted
/// too; every surviving row whose body references a deleted entry is among
/// the rewrites, and no other survivor holds such a reference; and no row
/// left carries a deleted identifier, so purging `id` again answers
/// `NotFound`.
pub proof fn lemma_purge_leaves_nothing_behind(rows: Seq<PurgeRow>, id: u128, plan: PurgePlan)
    requires
        plan_ok(rows, id, plan),
        ids_unique(rows),
    ensures
        forall|j: int, t: Seq<char>|
            0 <= j < rows.len() && canonical_id(rows[j]) && string_views(plan.purged_texts@).contains(t)
                && #[trigger] points_to(rows, j, t) ==> string_views(plan.purged_texts@).contains(
                rows[j].ulid@,
            ) && plan.purge_rowids@.contains(rows[j].rowid),
        forall|j: int|
            0 <= j < rows.len() && #[trigger] needs_rewrite(rows[j], string_views(plan.purged_texts@))
                ==> selected(rows, string_views(plan.purged_texts@), rows.len()).contains(rows[j]),
        forall|j: int, q: Seq<char>|
            0 <= j < rows.len() && !string_views(plan.purged_texts@).contains(rows[j].ulid@)
                && !needs_rewrite(rows[j], string_views(plan.purged_texts@)) && string_views(
                plan.purged_texts@,
            ).contains(q) ==> #[trigger] count_occ(rows[j].body@, ref_marker(q)) == 0,
        forall|t: Seq<char>|
            #[trigger] string_views(plan.purged_texts@).contains(t) ==> find_row(
                rows_left(rows, plan.purge_rowids@),
                t,
            ) is None,
        find_row(rows_left(rows, plan.purge_rowids@), ulid_text(id)) is None,
{
    let tv = string_views(plan.purged_texts@);
    let rt = ulid_text(id);
    let es = plan.summary.purged@;
    let ids = plan.purge_rowids@;
    // A row's text in the purge set means its row is deleted.
    assert forall|j: int| 0 <= j < rows.len() && tv.contains(#[trigger] rows[j].ulid@) implies ids.contains(
        rows[j].rowid,
    ) by {
        let t = rows[j].ulid@;
        let i = choose|i: int| 0 <= i < tv.len() && tv[i] == t;
        assert(entry_matches(rows, rt, tv[i], es[i], ids[i]));
        lemma_find_row(rows, t);
        let k = find_row(rows, t)->0;
        assert(has_ulid_at(rows, t, k));
        assert(k == j);
        assert(ids[i] == rows[j].rowid);
    }
    assert forall|j: int, t: Seq<char>|
        0 <= j < rows.len() && canonical_id(rows[j]) && tv.contains(t) && #[trigger] points_to(rows, j, t)
        implies tv.contains(rows[j].ulid@) && ids.contains(rows[j].rowid) by {
        let u = rows[j].ulid@;
        let i = choose|i: int| 0 <= i < tv.len() && tv[i] == t;
        assert(entry_matches(rows, rt, tv[i], es[i], ids[i]));
        assert(edge(rows, t, u));
        lemma_reach_step(rows, rt, t, u);
        lemma_find_row(rows, u);
        assert(has_ulid_at(rows, u, j));
        assert(find_row(rows, u) is Some);
    }
    assert forall|j: int|
        0 <= j < rows.len() && #[trigger] needs_rewrite(rows[j], tv) implies selected(
        rows,
        tv,
        rows.len(),
    ).contains(rows[j]) by {
        lemma_selected_covers(rows, tv, rows.len(), j);
    }
    assert forall|j: int, q: Seq<char>|
        0 <= j < rows.len() && !tv.contains(rows[j].ulid@) && !needs_rewrite(rows[j], tv) && tv.contains(q)
        implies #[trigger] count_occ(rows[j].body@, ref_marker(q)) == 0 by {
        lemma_no_refs_unchanged(rows[j].body@, tv);
    }
    lemma_rows_left(rows, ids);
    let left = rows_left(rows, ids);
    assert forall|t: Seq<char>| #[trigger] tv.contains(t) implies find_row(left, t) is None by {
        lemma_find_row(left, t);
        if find_row(left, t) is Some {
            let k = find_row(left, t)->0;
            assert(has_ulid_at(left, t, k));
            let j = choose|j: int| 0 <= j < rows.len() && rows[j] == #[trigger] left[k] && !ids.contains(rows[j].rowid);
            assert(tv.contains(rows[j].ulid@));
        }
    }
    assert(tv[0] == rt);
    assert(tv.contains(rt));
}

/// Law: a dry run previews exactly what the real run does. Two plans of the
/// same purge (whatever their dry-run flags) delete the same entries, in
/// the same order, with the same rows, and rewrite the same bodies the same
/// way. (Whether a plan is produced at all does not depend on the flag
/// either: see `purge_succeeds`.)
pub proof fn lemma_preview_matches_run(rows: Seq<PurgeRow>, id: u128, a: PurgePlan, b: PurgePlan)
    requires
        plan_ok(rows, id, a),
        plan_ok(rows, id, b),
    ensures
        string_views(a.purged_texts@) == string_views(b.purged_texts@),
        a.purge_rowids@ == b.purge_rowids@,
        a.summary.purged@.len() == b.summary.purged@.len(),
        forall|i: int|
            #![trigger a.summary.purged@[i]]
            0 <= i < a.summary.purged@.len() ==> a.summary.purged@[i].id == b.summary.purged@[i].id
                && a.summary.purged@[i].kind == b.summary.purged@[i].kind && a.summary.purged@[i].title@
                == b.summary.purged@[i].title@,
        a.summary.rewritten@ == b.summary.rewritten@,
        a.body_updates@.len() == b.body_updates@.len(),
        forall|m: int|
            #![trigger a.body_updates@[m]]
            0 <= m < a.body_updates@.len() ==> a.body_updates@[m].rowid == b.body_updates@[m].rowid
                && a.body_updates@[m].body@ == b.body_updates@[m].body@,
{
    let tv = string_views(a.purged_texts@);
    let rt = ulid_text(id);
    let sel = selected(rows, tv, rows.len());
    assert(tv == string_views(b.purged_texts@));
    assert forall|i: int| #![trigger a.summary.purged@[i]] 0 <= i < a.summary.purged@.len() implies a.summary.purged@[i].id
        == b.summary.purged@[i].id && a.summary.purged@[i].kind == b.summary.purged@[i].kind
        && a.summary.purged@[i].title@ == b.summary.purged@[i].title@ by {
        let ea = a.summary.purged@[i];
        let eb = b.summary.purged@[i];
        assert(entry_matches(rows, rt, tv[i], ea, a.purge_rowids@[i]));
        assert(entry_matches(rows, rt, tv[i], eb, b.purge_rowids@[i]));
        lemma_ulid_roundtrip(ea.id);
        lemma_ulid_roundtrip(eb.id);
    }
    assert forall|i: int| 0 <= i < a.purge_rowids@.len() implies a.purge_rowids@[i] == b.purge_rowids@[i] by {
        assert(entry_matches(rows, rt, tv[i], a.summary.purged@[i], a.purge_rowids@[i]));
        assert(entry_matches(rows, rt, tv[i], b.summary.purged@[i], b.purge_rowids@[i]));
    }
    assert(a.purge_rowids@ =~= b.purge_rowids@);
    assert forall|m: int|
        #![trigger a.body_updates@[m]]
        #![trigger a.summary.rewritten@[m]]
        0 <= m < sel.len() implies a.summary.rewritten@[m] == b.summary.rewritten@[m]
        && a.body_updates@[m].rowid == b.body_updates@[m].rowid && a.body_updates@[m].body@
        == b.body_updates@[m].body@ by {
        assert(rewrite_matches(sel[m], tv, a.summary.rewritten@[m], a.body_updates@[m]));
        assert(rewrite_matches(sel[m], tv, b.summary.rewritten@[m], b.body_updates@[m]));
    }
    assert(a.summary.rewritten@ =~= b.summary.rewritten@);
}

} // verus!
