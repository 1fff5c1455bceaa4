//! Reference markers in entry bodies. A body refers to an entry as
//! `[[<ulid>]]`; a purge turns such a marker into `[[<ulid> → deleted]]`.
//! This module proves that after the rewrite no marker to a purged entry is
//! left.

use vstd::prelude::*;

use crate::ids::{crockford_symbol, lemma_pow32_pos, pow32, ulid_text};
use crate::purge::{deleted_marker, ref_marker, rewrite_body};
use crate::text::{count_occ, replace_occ};

verus! {

/// `p` occurs in `s` starting at `i`.
pub open spec fn occurs_at(s: Seq<char>, p: Seq<char>, i: int) -> bool {
    0 <= i && i + p.len() <= s.len() && s.subrange(i, i + p.len()) == p
}

/// `p` occurs nowhere in `s`.
pub open spec fn no_occ(s: Seq<char>, p: Seq<char>) -> bool {
    forall|i: int| !#[trigger] occurs_at(s, p, i)
}

/// An identifier text that can stand in a marker: 26 characters, none of
/// them `[`.
pub open spec fn marker_id(x: Seq<char>) -> bool {
    x.len() == 26 && forall|k: int| 0 <= k < 26 ==> x[k] != '['
}

proof fn lemma_occurs_shift(s: Seq<char>, p: Seq<char>, d: int, i: int)
    requires
        0 <= d <= s.len(),
        occurs_at(s.skip(d), p, i),
    ensures
        occurs_at(s, p, i + d),
{
    assert(s.skip(d).subrange(i, i + p.len()) =~= s.subrange(i + d, i + d + p.len()));
}

/// No occurrence means nothing to count.
proof fn lemma_no_occ_count(s: Seq<char>, p: Seq<char>)
    requires
        p.len() > 0,
        no_occ(s, p),
    ensures
        count_occ(s, p) == 0,
    decreases s.len(),
{
    if s.len() >= p.len() {
        assert(s.take(p.len() as int) =~= s.subrange(0, p.len() as int));
        assert(!occurs_at(s, p, 0));
        assert(s.drop_first() =~= s.skip(1));
        assert forall|i: int| !#[trigger] occurs_at(s.drop_first(), p, i) by {
            if occurs_at(s.skip(1), p, i) {
                lemma_occurs_shift(s, p, 1, i);
            }
        }
        lemma_no_occ_count(s.drop_first(), p);
    }
}

/// Without an occurrence, replacing changes nothing.
proof fn lemma_no_occ_replace(s: Seq<char>, p: Seq<char>, r: Seq<char>)
    requires
        p.len() > 0,
        no_occ(s, p),
    ensures
        replace_occ(s, p, r) == s,
    decreases s.len(),
{
    if s.len() >= p.len() {
        assert(s.take(p.len() as int) =~= s.subrange(0, p.len() as int));
        assert(!occurs_at(s, p, 0));
        assert(s.drop_first() =~= s.skip(1));
        assert forall|i: int| !#[trigger] occurs_at(s.drop_first(), p, i) by {
            if occurs_at(s.skip(1), p, i) {
                lemma_occurs_shift(s, p, 1, i);
            }
        }
        lemma_no_occ_replace(s.drop_first(), p, r);
        assert(seq![s[0]] + s.drop_first() =~= s);
    }
}

/// The first occurrence at or before `i`.
proof fn lemma_first_occ(s: Seq<char>, p: Seq<char>, i: int) -> (j: int)
    requires
        occurs_at(s, p, i),
    ensures
        occurs_at(s, p, j),
        j <= i,
        forall|k: int| k < j ==> !#[trigger] occurs_at(s, p, k),
    decreases i,
{
    if exists|k: int| k < i && #[trigger] occurs_at(s, p, k) {
        let k = choose|k: int| k < i && #[trigger] occurs_at(s, p, k);
        lemma_first_occ(s, p, k)
    } else {
        i
    }
}

/// Replacing splits at the first occurrence: the text before it is copied,
/// the occurrence becomes `r`, and the rest is replaced in turn.
proof fn lemma_replace_split(s: Seq<char>, p: Seq<char>, r: Seq<char>, j: int)
    requires
        p.len() > 0,
        occurs_at(s, p, j),
        forall|k: int| k < j ==> !#[trigger] occurs_at(s, p, k),
    ensures
        replace_occ(s, p, r) == s.take(j) + r + replace_occ(s.skip(j + p.len()), p, r),
    decreases j,
{
    assert(s.take(p.len() as int) =~= s.subrange(0, p.len() as int));
    if j == 0 {
        assert(s.take(0) =~= Seq::<char>::empty());
        assert(s.take(0) + r =~= r);
    } else {
        assert(!occurs_at(s, p, 0));
        let s1 = s.drop_first();
        assert(s1 =~= s.skip(1));
        assert(s1.subrange(j - 1, j - 1 + p.len()) =~= s.subrange(j, j + p.len()));
        assert forall|k: int| k < j - 1 implies !#[trigger] occurs_at(s1, p, k) by {
            if occurs_at(s.skip(1), p, k) {
                lemma_occurs_shift(s, p, 1, k);
            }
        }
        lemma_replace_split(s1, p, r, j - 1);
        assert(s.take(j) =~= seq![s[0]] + s1.take(j - 1));
        assert(s1.skip(j - 1 + p.len()) =~= s.skip(j + p.len()));
    }
}

/// The characters of the two markers around an identifier `x`.
proof fn lemma_marker_chars(x: Seq<char>)
    requires
        marker_id(x),
    ensures
        ref_marker(x).len() == 30,
        ref_marker(x)[0] == '[' && ref_marker(x)[1] == '[',
        forall|k: int| 0 <= k < 26 ==> #[trigger] ref_marker(x)[2 + k] == x[k],
        ref_marker(x)[28] == ']' && ref_marker(x)[29] == ']',
        deleted_marker(x).len() == 40,
        deleted_marker(x)[0] == '[' && deleted_marker(x)[1] == '[',
        forall|k: int| 0 <= k < 26 ==> #[trigger] deleted_marker(x)[2 + k] == x[k],
        deleted_marker(x)[28] == ' ',
        forall|k: int| 2 <= k < 40 ==> #[trigger] deleted_marker(x)[k] != '[',
{
    reveal_strlit("[[");
    reveal_strlit("]]");
    reveal_strlit(" → deleted]]");
    let rm = ref_marker(x);
    let dm = deleted_marker(x);
    assert(rm =~= seq!['[', '['] + x + seq![']', ']']);
    assert(dm =~= seq!['[', '['] + x + seq![' ', '→', ' ', 'd', 'e', 'l', 'e', 't', 'e', 'd', ']', ']']);
    assert forall|k: int| 2 <= k < 40 implies #[trigger] dm[k] != '[' by {
        if k < 28 {
            assert(dm[k] == x[k - 2]);
        }
    }
}

/// Replacing the markers of `y` creates no marker of `x`: none of `y` when
/// `x == y`, and none of another identifier `x` that `s` did not hold.
proof fn lemma_replace_keeps_out(s: Seq<char>, x: Seq<char>, y: Seq<char>)
    requires
        marker_id(x),
        marker_id(y),
        x == y || no_occ(s, ref_marker(x)),
    ensures
        no_occ(replace_occ(s, ref_marker(y), deleted_marker(y)), ref_marker(x)),
    decreases s.len(),
{
    let px = ref_marker(x);
    let py = ref_marker(y);
    let ry = deleted_marker(y);
    lemma_marker_chars(x);
    lemma_marker_chars(y);
    if no_occ(s, py) {
        lemma_no_occ_replace(s, py, ry);
        return;
    }
    let i0 = choose|i: int| #[trigger] occurs_at(s, py, i);
    let j = lemma_first_occ(s, py, i0);
    lemma_replace_split(s, py, ry, j);
    let s2 = s.skip(j + 30);
    if x != y {
        assert forall|i: int| !#[trigger] occurs_at(s2, px, i) by {
            if occurs_at(s2, px, i) {
                lemma_occurs_shift(s, px, j + 30, i);
            }
        }
    }
    lemma_replace_keeps_out(s2, x, y);
    let t2 = replace_occ(s2, py, ry);
    let t = s.take(j) + ry + t2;
    assert forall|i: int| !#[trigger] occurs_at(t, px, i) by {
        if occurs_at(t, px, i) {
            let w = t.subrange(i, i + 30);
            assert(w == px);
            if i + 30 <= j {
                assert(s.subrange(i, i + 30) =~= w);
                assert(occurs_at(s, px, i));
                if x == y {
                    assert(occurs_at(s, py, i));
                }
            } else if i < j {
                let d = j - i;
                assert(w[d] == t[j]);
                assert(t[j] == ry[0]);
                if 2 <= d < 28 {
                    assert(px[2 + (d - 2)] == x[d - 2]);
                } else if d >= 28 {
                    assert(px[d] == ']');
                }
                assert(d == 1);
                assert(w[2] == t[j + 1]);
                assert(t[j + 1] == ry[1]);
                assert(px[2 + 0int] == x[0]);
            } else if i < j + 40 {
                let e = i - j;
                assert(w[0] == t[i]);
                assert(t[i] == ry[e]);
                assert(e < 2);
                if e == 1 {
                    assert(w[1] == t[i + 1]);
                    assert(t[i + 1] == ry[2 + 0int]);
                } else {
                    assert forall|k: int| 0 <= k < 26 implies x[k] == y[k] by {
                        assert(w[2 + k] == t[j + 2 + k]);
                        assert(t[j + 2 + k] == ry[2 + k]);
                    }
                    assert(x =~= y);
                    assert(w[28] == t[j + 28]);
                    assert(t[j + 28] == ry[28]);
                }
            } else {
                let k = i - j - 40;
                assert(t2.subrange(k, k + 30) =~= w);
                assert(occurs_at(t2, px, k));
            }
        }
    }
}

/// Law: after a purge rewrites a body, no marker `[[<id>]]` of a purged
/// identifier is left in it.
pub proof fn lemma_no_reference_survives(body: Seq<char>, pids: Seq<Seq<char>>)
    requires
        forall|i: int| 0 <= i < pids.len() ==> marker_id(#[trigger] pids[i]),
    ensures
        forall|p: Seq<char>| #[trigger] pids.contains(p) ==> count_occ(rewrite_body(body, pids), ref_marker(p)) == 0,
{
    lemma_no_marker_left(body, pids);
    assert forall|p: Seq<char>| #[trigger] pids.contains(p) implies count_occ(
        rewrite_body(body, pids),
        ref_marker(p),
    ) == 0 by {
        let i = choose|i: int| 0 <= i < pids.len() && pids[i] == p;
        lemma_marker_chars(pids[i]);
        lemma_no_occ_count(rewrite_body(body, pids), ref_marker(p));
    }
}

proof fn lemma_no_marker_left(body: Seq<char>, pids: Seq<Seq<char>>)
    requires
        forall|i: int| 0 <= i < pids.len() ==> marker_id(#[trigger] pids[i]),
    ensures
        forall|p: Seq<char>| #[trigger] pids.contains(p) ==> no_occ(rewrite_body(body, pids), ref_marker(p)),
    decreases pids.len(),
{
    if pids.len() > 0 {
        let prev = pids.drop_last();
        let y = pids.last();
        assert forall|i: int| 0 <= i < prev.len() implies marker_id(#[trigger] prev[i]) by {
            assert(prev[i] == pids[i]);
        }
        lemma_no_marker_left(body, prev);
        assert forall|p: Seq<char>| #[trigger] pids.contains(p) implies no_occ(
            rewrite_body(body, pids),
            ref_marker(p),
        ) by {
            let i = choose|i: int| 0 <= i < pids.len() && pids[i] == p;
            assert(marker_id(pids[i]));
            assert(marker_id(pids[pids.len() - 1]));
            if p != y {
                assert(i < pids.len() - 1);
                assert(prev[i] == p);
                assert(prev.contains(p));
            }
            lemma_replace_keeps_out(rewrite_body(body, prev), p, y);
        }
    }
}

/// Every identifier text is fit for a marker.
pub proof fn lemma_ulid_text_marker(v: u128)
    ensures
        marker_id(ulid_text(v)),
{
    let t = ulid_text(v);
    assert forall|k: int| 0 <= k < 26 implies t[k] != '[' by {
        let d = (v as int / pow32((25 - k) as nat)) % 32;
        lemma_pow32_pos((25 - k) as nat);
        assert(0 <= d < 32);
        lemma_symbol_not_bracket(d);
    }
}

proof fn lemma_symbol_not_bracket(d: int)
    requires
        0 <= d < 32,
    ensures
        crockford_symbol(d) != '[',
{
    assert(crockford_symbol(d) as int <= 90);
}

/// Nothing to count means nothing to replace.
pub proof fn lemma_zero_count_replace(s: Seq<char>, p: Seq<char>, r: Seq<char>)
    requires
        p.len() > 0,
        count_occ(s, p) == 0,
    ensures
        replace_occ(s, p, r) == s,
    decreases s.len(),
{
    if s.len() >= p.len() {
        assert(s.take(p.len() as int) != p);
        lemma_zero_count_replace(s.drop_first(), p, r);
        assert(seq![s[0]] + s.drop_first() =~= s);
    }
}

/// A marker is never empty.
pub proof fn lemma_marker_nonempty(x: Seq<char>)
    ensures
        ref_marker(x).len() > 0,
{
    reveal_strlit("[[");
}

/// `p` occurs somewhere in `s`.
pub open spec fn contains_text(s: Seq<char>, p: Seq<char>) -> bool {
    exists|i: int| #[trigger] occurs_at(s, p, i)
}

/// In a statement `s`, `clause` is one of the conditions of the filter: it
/// comes after the `WHERE` keyword and before the `LIMIT`.
pub open spec fn filtered_by(s: Seq<char>, clause: Seq<char>) -> bool {
    exists|w: int, c: int, l: int|
        #![trigger occurs_at(s, "WHERE "@, w), occurs_at(s, clause, c), occurs_at(s, "LIMIT"@, l)]
        occurs_at(s, "WHERE "@, w) && occurs_at(s, clause, c) && occurs_at(s, "LIMIT"@, l) && w < c < l
}

/// An occurrence in the middle piece is an occurrence in the whole.
pub proof fn lemma_occurs_in_concat(a: Seq<char>, b: Seq<char>, c: Seq<char>, p: Seq<char>, i: int)
    requires
        occurs_at(b, p, i),
    ensures
        occurs_at(a + b + c, p, a.len() + i),
{
    assert((a + b + c).subrange(a.len() + i, a.len() + i + p.len()) =~= b.subrange(i, i + p.len()));
}

/// A piece occurs where it stands.
pub proof fn lemma_occurs_piece(a: Seq<char>, p: Seq<char>, c: Seq<char>)
    ensures
        occurs_at(a + p + c, p, a.len() as int),
{
    assert((a + p + c).subrange(a.len() as int, (a.len() + p.len()) as int) =~= p);
}

} // verus!
