//! Text normalization and natural-key derivation.

use vstd::prelude::*;

use crate::entry::{data_kind, EntryKind, KindData};
use crate::text::{
    char_is_whitespace, is_white_space, join_seq, join_strings, lemma_lex_total,
    lemma_sorted_unique, lex_order, push_char, str_chars, string_from_chars, string_views,
};
use sha2::{Digest, Sha256};
use vstd::relations::sorted_by;
use vstd::utf8::encode_utf8;
use unicode_normalization::UnicodeNormalization;

verus! {

/// Result of NFKC normalization (`unicode_normalization`'s `nfkc`) of a
/// character sequence.
pub uninterp spec fn nfkc_of(s: Seq<char>) -> Seq<char>;

/// Result of `str::to_lowercase` on a character sequence.
pub uninterp spec fn lowercase_of(s: Seq<char>) -> Seq<char>;

/// Calls `UnicodeNormalization::nfkc` on `s` and collects the characters.
/// The contract only names the result: NFKC is defined by the Unicode
/// decomposition and composition tables, which are not restated here.
#[verifier::external_body]
fn nfkc_string(s: &str) -> (r: String)
    ensures
        r@ == nfkc_of(s@),
{
    s.nfkc().collect()
}

/// Calls `str::to_lowercase`. The contract only names the result: the
/// lowercase mapping comes from the Unicode case tables.
#[verifier::external_body]
fn lowercase_string(s: &str) -> (r: String)
    ensures
        r@ == lowercase_of(s@),
{
    s.to_lowercase()
}

/// One step of whitespace squeezing: a whitespace character becomes a single
/// ASCII space, unless the output is empty or already ends with a space.
pub open spec fn squeeze_step(acc: Seq<char>, c: char) -> Seq<char> {
    if is_white_space(c) {
        if acc.len() > 0 && acc.last() != ' ' {
            acc.push(' ')
        } else {
            acc
        }
    } else {
        acc.push(c)
    }
}

/// Squeezes every run of whitespace in `s` into one ASCII space and drops
/// leading whitespace.
pub open spec fn squeeze_ws(s: Seq<char>) -> Seq<char>
    decreases s.len(),
{
    if s.len() == 0 {
        Seq::empty()
    } else {
        squeeze_step(squeeze_ws(s.drop_last()), s.last())
    }
}

/// Whitespace collapse: runs of whitespace become one ASCII space, and the
/// result carries no leading or trailing space.
pub open spec fn collapse_ws(s: Seq<char>) -> Seq<char> {
    let a = squeeze_ws(s);
    if a.len() > 0 && a.last() == ' ' {
        a.drop_last()
    } else {
        a
    }
}

/// The normalization rules applied in order: NFKC, lowercase fold,
/// whitespace collapse.
pub open spec fn normalize_spec(s: Seq<char>) -> Seq<char> {
    collapse_ws(lowercase_of(nfkc_of(s)))
}

/// The characters of `s` that are not whitespace, in order.
pub open spec fn non_ws_chars(s: Seq<char>) -> Seq<char>
    decreases s.len(),
{
    if s.len() == 0 {
        Seq::empty()
    } else if is_white_space(s.last()) {
        non_ws_chars(s.drop_last())
    } else {
        non_ws_chars(s.drop_last()).push(s.last())
    }
}

/// `t` is in collapsed form: the only whitespace it holds is the ASCII space,
/// it neither starts nor ends with one, and no two spaces are adjacent.
pub open spec fn ws_collapsed(t: Seq<char>) -> bool {
    &&& forall|i: int| 0 <= i < t.len() ==> t[i] == ' ' || !is_white_space(#[trigger] t[i])
    &&& t.len() > 0 ==> t[0] != ' ' && t.last() != ' '
    &&& forall|i: int| 0 <= i < t.len() - 1 ==> !(#[trigger] t[i] == ' ' && t[i + 1] == ' ')
}

/// Properties of the squeezed prefix: no leading whitespace, only ASCII
/// spaces as whitespace, no two adjacent spaces, and the same non-whitespace
/// characters as the input.
proof fn lemma_squeeze_shape(s: Seq<char>)
    ensures
        ({
            let a = squeeze_ws(s);
            &&& forall|i: int| 0 <= i < a.len() ==> a[i] == ' ' || !is_white_space(#[trigger] a[i])
            &&& a.len() > 0 ==> a[0] != ' '
            &&& forall|i: int| 0 <= i < a.len() - 1 ==> !(#[trigger] a[i] == ' ' && a[i + 1] == ' ')
            &&& non_ws_chars(a) == non_ws_chars(s)
        }),
    decreases s.len(),
{
    if s.len() > 0 {
        lemma_squeeze_shape(s.drop_last());
        let acc = squeeze_ws(s.drop_last());
        let c = s.last();
        let a = squeeze_ws(s);
        assert(a == squeeze_step(acc, c));
        if is_white_space(c) {
            if acc.len() > 0 && acc.last() != ' ' {
                assert(a.drop_last() == acc);
                assert(is_white_space(' '));
            }
        } else {
            assert(a.drop_last() == acc);
        }
    }
}

/// Squeezing a string that has no leading whitespace, no whitespace other
/// than the ASCII space and no two adjacent spaces changes nothing.
proof fn lemma_squeeze_fixed(t: Seq<char>)
    requires
        forall|i: int| 0 <= i < t.len() ==> t[i] == ' ' || !is_white_space(#[trigger] t[i]),
        t.len() > 0 ==> t[0] != ' ',
        forall|i: int| 0 <= i < t.len() - 1 ==> !(#[trigger] t[i] == ' ' && t[i + 1] == ' '),
    ensures
        squeeze_ws(t) == t,
    decreases t.len(),
{
    if t.len() > 0 {
        let p = t.drop_last();
        assert forall|i: int| 0 <= i < p.len() implies p[i] == ' ' || !is_white_space(#[trigger] p[i]) by {
            assert(p[i] == t[i]);
        }
        assert forall|i: int| 0 <= i < p.len() - 1 implies !(#[trigger] p[i] == ' ' && p[i + 1] == ' ') by {
            assert(p[i] == t[i] && p[i + 1] == t[i + 1]);
        }
        lemma_squeeze_fixed(p);
        let c = t.last();
        if is_white_space(c) {
            assert(c == ' ');
            assert(t.len() >= 2);
            assert(p.last() == t[t.len() - 2]);
        }
        assert(p.push(c) == t);
    }
}

/// Law: the collapsed text is in collapsed form and keeps every
/// non-whitespace character of the input, in order (punctuation is never
/// dropped).
pub proof fn lemma_collapse_shape(s: Seq<char>)
    ensures
        ws_collapsed(collapse_ws(s)),
        non_ws_chars(collapse_ws(s)) == non_ws_chars(s),
{
    lemma_squeeze_shape(s);
    let a = squeeze_ws(s);
    let t = collapse_ws(s);
    if a.len() > 0 && a.last() == ' ' {
        assert(t == a.drop_last());
        assert(is_white_space(' '));
        assert(non_ws_chars(a) == non_ws_chars(a.drop_last()));
        assert forall|i: int| 0 <= i < t.len() implies t[i] == ' ' || !is_white_space(#[trigger] t[i]) by {
            assert(t[i] == a[i]);
        }
        assert forall|i: int| 0 <= i < t.len() - 1 implies !(#[trigger] t[i] == ' ' && t[i + 1] == ' ') by {
            assert(t[i] == a[i] && t[i + 1] == a[i + 1]);
        }
        if t.len() > 0 {
            assert(t[0] == a[0]);
            assert(t.last() == a[a.len() - 2]);
        }
    }
}

/// Law: collapsing whitespace twice gives the same text as collapsing once.
pub proof fn lemma_collapse_idempotent(s: Seq<char>)
    ensures
        collapse_ws(collapse_ws(s)) == collapse_ws(s),
{
    lemma_collapse_shape(s);
    let t = collapse_ws(s);
    lemma_squeeze_fixed(t);
}

/// Collapses every run of whitespace (Unicode `White_Space`, including the
/// ideographic space) into one ASCII space and trims both ends.
/// Punctuation and every other character are kept as they are.
pub fn collapse_whitespace(s: &str) -> (out: String)
    ensures
        out@ == collapse_ws(s@),
{
    let chars = str_chars(s);
    let mut out: Vec<char> = Vec::new();
    let mut prev_ws = false;
    let mut i: usize = 0;
    while i < chars.len()
        invariant
            chars@ == s@,
            i <= chars.len(),
            out@ == squeeze_ws(chars@.take(i as int)),
            prev_ws ==> (out@.len() == 0 || out@.last() == ' '),
            !prev_ws && out@.len() > 0 ==> out@.last() != ' ',
        decreases chars.len() - i,
    {
        let c = chars[i];
        assert(chars@.take(i + 1).drop_last() == chars@.take(i as int));
        if char_is_whitespace(c) {
            if !prev_ws && out.len() > 0 {
                out.push(' ');
            }
            prev_ws = true;
        } else {
            out.push(c);
            prev_ws = false;
        }
        i = i + 1;
    }
    assert(chars@.take(chars.len() as int) == chars@);
    if out.len() > 0 && out[out.len() - 1] == ' ' {
        out.pop();
    }
    string_from_chars(&out)
}

/// Applies the normalize rules in order: NFKC, lowercase fold, whitespace
/// collapse (any run of `\t \r \n \u{3000}` etc. becomes a single ASCII
/// space, both ends trimmed). Punctuation is preserved, so
/// `tokio block_in_place` and `tokio block in place` stay different.
pub fn normalize_text(s: &str) -> (out: String)
    ensures
        out@ == normalize_spec(s@),
{
    let nfkc = nfkc_string(s);
    let lower = lowercase_string(nfkc.as_str());
    collapse_whitespace(lower.as_str())
}

/// ASCII Unit Separator. Joins multi-field natural keys without colliding
/// with content.
pub const FIELD_SEP: char = '\u{1F}';

/// SHA-256 digest of a byte sequence.
pub uninterp spec fn sha256_of(data: Seq<u8>) -> Seq<u8>;

/// Calls `sha2::Sha256::digest`. The contract only names the digest (and its
/// 32-byte size, which the array type carries): SHA-256 itself is not
/// restated.
#[verifier::external_body]
pub(crate) fn sha256_digest(data: &[u8]) -> (r: [u8; 32])
    ensures
        r@ == sha256_of(data@),
{
    Sha256::digest(data).into()
}

/// Calls `<[String]>::sort`: the elements end up in ascending `String`
/// order (lexicographic over the UTF-8 bytes, which is the code-point order
/// `lex_le`), and the call only permutes them.
#[verifier::external_body]
fn sort_strings(v: &mut Vec<String>)
    ensures
        string_views(final(v)@).to_multiset() == string_views(old(v)@).to_multiset(),
        sorted_by(string_views(final(v)@), lex_order()),
{
    v.sort()
}

/// Lowercase hex digit of `n` (`n < 16`).
pub open spec fn hex_digit(n: int) -> char {
    if n == 0 { '0' } else if n == 1 { '1' } else if n == 2 { '2' } else if n == 3 { '3' }
    else if n == 4 { '4' } else if n == 5 { '5' } else if n == 6 { '6' } else if n == 7 { '7' }
    else if n == 8 { '8' } else if n == 9 { '9' } else if n == 10 { 'a' } else if n == 11 { 'b' }
    else if n == 12 { 'c' } else if n == 13 { 'd' } else if n == 14 { 'e' } else { 'f' }
}

/// Lowercase hex encoding: two digits per byte, high nibble first.
pub open spec fn hex_of(b: Seq<u8>) -> Seq<char>
    decreases b.len(),
{
    if b.len() == 0 {
        Seq::empty()
    } else {
        hex_of(b.drop_last()).push(hex_digit(b.last() as int / 16)).push(hex_digit(b.last() as int % 16))
    }
}

fn hex_digit_char(n: u8) -> (c: char)
    requires
        n < 16,
    ensures
        c == hex_digit(n as int),
{
    if n == 0 { '0' } else if n == 1 { '1' } else if n == 2 { '2' } else if n == 3 { '3' }
    else if n == 4 { '4' } else if n == 5 { '5' } else if n == 6 { '6' } else if n == 7 { '7' }
    else if n == 8 { '8' } else if n == 9 { '9' } else if n == 10 { 'a' } else if n == 11 { 'b' }
    else if n == 12 { 'c' } else if n == 13 { 'd' } else if n == 14 { 'e' } else { 'f' }
}

/// Lowercase hex encoding of `bytes`.
pub fn hex_encode(bytes: &[u8]) -> (out: String)
    ensures
        out@ == hex_of(bytes@),
{
    let mut out = String::new();
    let mut i: usize = 0;
    while i < bytes.len()
        invariant
            i <= bytes.len(),
            out@ == hex_of(bytes@.take(i as int)),
        decreases bytes.len() - i,
    {
        let b = bytes[i];
        assert(bytes@.take(i + 1).drop_last() == bytes@.take(i as int));
        push_char(&mut out, hex_digit_char(b / 16));
        push_char(&mut out, hex_digit_char(b % 16));
        i = i + 1;
    }
    assert(bytes@.take(bytes.len() as int) == bytes@);
    out
}

/// Law: the hex encoding has two characters per byte.
pub proof fn lemma_hex_len(b: Seq<u8>)
    ensures
        hex_of(b).len() == 2 * b.len(),
    decreases b.len(),
{
    if b.len() > 0 {
        lemma_hex_len(b.drop_last());
    }
}

/// Law: different byte strings have different hex encodings.
pub proof fn lemma_hex_injective(a: Seq<u8>, b: Seq<u8>)
    requires
        hex_of(a) == hex_of(b),
    ensures
        a == b,
    decreases a.len(),
{
    lemma_hex_len(a);
    lemma_hex_len(b);
    if a.len() > 0 {
        let ha = hex_of(a);
        let pa = hex_of(a.drop_last());
        let pb = hex_of(b.drop_last());
        lemma_hex_len(a.drop_last());
        lemma_hex_len(b.drop_last());
        assert(ha[ha.len() - 1] == hex_digit(a.last() as int % 16));
        assert(ha[ha.len() - 2] == hex_digit(a.last() as int / 16));
        assert(ha[ha.len() - 1] == hex_digit(b.last() as int % 16));
        assert(ha[ha.len() - 2] == hex_digit(b.last() as int / 16));
        assert(a.last() % 16 == b.last() % 16);
        assert(a.last() / 16 == b.last() / 16);
        assert(a.last() == b.last());
        assert(pa =~= ha.take(ha.len() - 2));
        assert(pb =~= ha.take(ha.len() - 2));
        lemma_hex_injective(a.drop_last(), b.drop_last());
        assert(a =~= b) by {
            assert forall|i: int| 0 <= i < a.len() implies a[i] == b[i] by {
                if i < a.len() - 1 {
                    assert(a[i] == a.drop_last()[i]);
                    assert(b[i] == b.drop_last()[i]);
                }
            }
        }
    }
}

/// Result of natural-key derivation: the normalized text used for full-text
/// search and hashing, and its SHA-256 hash.
#[derive(Debug, Clone)]
pub struct NaturalKey {
    pub text: String,
    pub hash: [u8; 32],
}

impl NaturalKey {
    /// Lowercase hex of the hash.
    pub fn hash_hex(&self) -> (s: String)
        ensures
            s@ == hex_of(self.hash@),
    {
        hex_encode(&self.hash)
    }
}

/// The symptoms of a problem in ascending string order.
pub open spec fn sorted_views(v: Seq<String>) -> Seq<Seq<char>> {
    string_views(v).sort_by(lex_order())
}

/// The raw natural-key text of a piece of kind data, before normalization:
/// - Fact            : `claim`
/// - ProblemSolution : `sort(symptoms).join(",") + \x1F + root_cause`
/// - Lesson          : `trap`
/// - Decision        : `context + \x1F + decision`
/// - Heuristic       : `problem_class + \x1F + pattern`
pub open spec fn nk_raw(d: KindData) -> Seq<char> {
    match d {
        KindData::Fact { claim, .. } => claim@,
        KindData::ProblemSolution { symptoms, root_cause, .. } => join_seq(
            sorted_views(symptoms@),
            ","@,
        ).push(FIELD_SEP) + root_cause@,
        KindData::Lesson { trap, .. } => trap@,
        KindData::Decision { context, decision, .. } => context@.push(FIELD_SEP) + decision@,
        KindData::Heuristic { problem_class, pattern, .. } => problem_class@.push(FIELD_SEP)
            + pattern@,
    }
}

/// The natural-key text of a piece of kind data.
pub open spec fn nk_text(d: KindData) -> Seq<char> {
    normalize_spec(nk_raw(d))
}

/// The natural-key hash: SHA-256 over the UTF-8 bytes of the text.
pub open spec fn nk_hash(d: KindData) -> Seq<u8> {
    sha256_of(encode_utf8(nk_text(d)))
}

/// Sorted copy of a list of strings.
fn sorted_copy(v: &Vec<String>) -> (r: Vec<String>)
    ensures
        string_views(r@) == sorted_views(v@),
{
    let mut s = v.clone();
    assert(s@ =~= v@) by {
        assert forall|i: int| 0 <= i < s@.len() implies s@[i] == v@[i] by {
            assert(vstd::pervasive::cloned::<String>(v[i], s[i]));
        }
    }
    sort_strings(&mut s);
    proof {
        lemma_lex_total();
        string_views(v@).lemma_sort_by_ensures(lex_order());
        lemma_sorted_unique(string_views(s@), sorted_views(v@), lex_order());
    }
    s
}

/// Derives the natural key of a piece of kind data (see `nk_raw`): the raw
/// text is normalized with `normalize_text` and hashed with SHA-256.
pub fn natural_key(data: &KindData) -> (nk: NaturalKey)
    ensures
        nk.text@ == nk_text(*data),
        nk.hash@ == nk_hash(*data),
{
    let raw: String = match data {
        KindData::Fact { claim, .. } => claim.clone(),
        KindData::ProblemSolution { symptoms, root_cause, .. } => {
            let sorted = sorted_copy(symptoms);
            let mut joined = join_strings(&sorted, ",");
            push_char(&mut joined, FIELD_SEP);
            joined.append(root_cause.as_str());
            joined
        },
        KindData::Lesson { trap, .. } => trap.clone(),
        KindData::Decision { context, decision, .. } => {
            let mut s = context.clone();
            push_char(&mut s, FIELD_SEP);
            s.append(decision.as_str());
            s
        },
        KindData::Heuristic { problem_class, pattern, .. } => {
            let mut s = problem_class.clone();
            push_char(&mut s, FIELD_SEP);
            s.append(pattern.as_str());
            s
        },
    };
    let text = normalize_text(raw.as_str());
    let hash = sha256_digest(text.as_str().as_bytes());
    NaturalKey { text, hash }
}

/// The kind of a piece of kind data; the single entry point writers use.
pub fn kind_of(data: &KindData) -> (k: EntryKind)
    ensures
        k == data_kind(*data),
{
    data.kind()
}

/// Law: the order in which a problem's symptoms are listed does not change
/// its natural key.
pub proof fn lemma_symptom_order_irrelevant(a: KindData, b: KindData)
    requires
        a is ProblemSolution,
        b is ProblemSolution,
        string_views(a->ProblemSolution_symptoms@).to_multiset() == string_views(
            b->ProblemSolution_symptoms@,
        ).to_multiset(),
        a->ProblemSolution_root_cause@ == b->ProblemSolution_root_cause@,
    ensures
        nk_text(a) == nk_text(b),
        nk_hash(a) == nk_hash(b),
{
    let va = string_views(a->ProblemSolution_symptoms@);
    let vb = string_views(b->ProblemSolution_symptoms@);
    lemma_lex_total();
    va.lemma_sort_by_ensures(lex_order());
    vb.lemma_sort_by_ensures(lex_order());
    lemma_sorted_unique(va.sort_by(lex_order()), vb.sort_by(lex_order()), lex_order());
}

/// Law: equal natural-key texts give equal hashes, so two kind data whose
/// normalized keys coincide (e.g. `Foo` and `FOO`) collide on the hash.
pub proof fn lemma_equal_text_equal_hash(a: KindData, b: KindData)
    requires
        nk_text(a) == nk_text(b),
    ensures
        nk_hash(a) == nk_hash(b),
{
}

/// Law: what each kind's natural key is made of. A fact is keyed by its
/// claim alone, a lesson by its trap alone, a decision by its context and
/// decision, a heuristic by its problem class and pattern, and a problem by
/// its symptoms in ascending order joined by `,` and its root cause; two
/// fields are joined by the unit separator U+001F, and the text is then
/// normalized. The hash is SHA-256 of the key text's UTF-8 bytes.
pub proof fn lemma_key_fields(d: KindData)
    ensures
        nk_hash(d) == sha256_of(encode_utf8(nk_text(d))),
        d matches KindData::Fact { claim, .. } ==> nk_text(d) == normalize_spec(claim@),
        d matches KindData::Lesson { trap, .. } ==> nk_text(d) == normalize_spec(trap@),
        d matches KindData::Decision { context, decision, .. } ==> nk_text(d) == normalize_spec(
            context@ + seq!['\u{1F}'] + decision@,
        ),
        d matches KindData::Heuristic { problem_class, pattern, .. } ==> nk_text(d) == normalize_spec(
            problem_class@ + seq!['\u{1F}'] + pattern@,
        ),
        d matches KindData::ProblemSolution { symptoms, root_cause, .. } ==> nk_text(d)
            == normalize_spec(
            join_seq(string_views(symptoms@).sort_by(lex_order()), seq![',']) + seq!['\u{1F}']
                + root_cause@,
        ),
{
    reveal_strlit(",");
    assert(","@ =~= seq![',']);
    match d {
        KindData::Decision { context, decision, .. } => {
            assert(context@.push(FIELD_SEP) + decision@ =~= context@ + seq!['\u{1F}'] + decision@);
        },
        KindData::Heuristic { problem_class, pattern, .. } => {
            assert(problem_class@.push(FIELD_SEP) + pattern@ =~= problem_class@ + seq!['\u{1F}']
                + pattern@);
        },
        KindData::ProblemSolution { symptoms, root_cause, .. } => {
            let j = join_seq(sorted_views(symptoms@), ","@);
            assert(j.push(FIELD_SEP) + root_cause@ =~= j + seq!['\u{1F}'] + root_cause@);
        },
        _ => {},
    }
}

/// Law: a heuristic's limits, a fact's evidence, a lesson's correction, why
/// and context, and a decision's rationale, alternatives and tradeoffs do
/// not enter the natural key: data of one kind that agree on the key fields
/// get the same key text and hash.
pub proof fn lemma_key_ignores_other_fields(a: KindData, b: KindData)
    requires
        ({
            ||| a matches KindData::Heuristic { problem_class: pa, pattern: ta, .. } && b matches KindData::Heuristic { problem_class: pb, pattern: tb, .. } && pa@ == pb@ && ta@ == tb@
            ||| a matches KindData::Fact { claim: ca, .. } && b matches KindData::Fact { claim: cb, .. } && ca@ == cb@
            ||| a matches KindData::Lesson { trap: ta, .. } && b matches KindData::Lesson { trap: tb, .. } && ta@ == tb@
            ||| a matches KindData::Decision { context: ca, decision: da, .. } && b matches KindData::Decision { context: cb, decision: db, .. } && ca@ == cb@ && da@ == db@
        }),
    ensures
        nk_text(a) == nk_text(b),
        nk_hash(a) == nk_hash(b),
{
    lemma_key_fields(a);
    lemma_key_fields(b);
}

} // verus!
