//! Command-line client helpers: resolving the server and token, building
//! request URLs, reading evidence arguments, and wording the purge report.

use vstd::prelude::*;

use crate::text::{concat, decimal, push_char, str_chars, string_from_chars, u64_decimal};

verus! {

/// Settings read from the client's configuration file.
#[derive(Debug, Clone)]
pub struct FileConfig {
    pub url: Option<String>,
    pub token: Option<String>,
}

/// The server URL: the command-line (or environment) value first, then the
/// configuration file; an error when neither gives one.
pub fn resolved_url(cli_url: Option<String>, file: &FileConfig) -> (r: Result<String, String>)
    ensures
        match cli_url {
            Some(u) => r == Ok::<String, String>(u),
            None => match file.url {
                Some(u) => r == Ok::<String, String>(u),
                None => r matches Err(m) && m@ == "--url / KB_URL / config 'url' not set"@,
            },
        },
{
    match cli_url {
        Some(u) => Ok(u),
        None => match &file.url {
            Some(u) => Ok(u.clone()),
            None => Err(String::from_str("--url / KB_URL / config 'url' not set")),
        },
    }
}

/// The bearer token: the command-line (or environment) value first, then
/// the configuration file.
pub fn resolved_token(cli_token: Option<String>, file: &FileConfig) -> (r: Option<String>)
    ensures
        r == match cli_token {
            Some(t) => Some(t),
            None => file.token,
        },
{
    match cli_token {
        Some(t) => Some(t),
        None => match &file.token {
            Some(t) => Some(t.clone()),
            None => None,
        },
    }
}

/// `s` without the copies of `c` at its end.
pub open spec fn trim_end_char(s: Seq<char>, c: char) -> Seq<char>
    decreases s.len(),
{
    if s.len() > 0 && s.last() == c {
        trim_end_char(s.drop_last(), c)
    } else {
        s
    }
}

/// The URL of an API path: the base without trailing slashes, then the path.
pub fn request_url(base: &str, path: &str) -> (url: String)
    ensures
        url@ == trim_end_char(base@, '/') + path@,
{
    let v = str_chars(base);
    let mut end: usize = v.len();
    assert(v@.take(v.len() as int) == v@);
    while end > 0 && v[end - 1] == '/'
        invariant
            v@ == base@,
            end <= v.len(),
            trim_end_char(base@, '/') == trim_end_char(v@.take(end as int), '/'),
        decreases end,
    {
        assert(v@.take(end as int).drop_last() == v@.take(end - 1));
        end = end - 1;
    }
    let mut out: Vec<char> = Vec::new();
    let mut i: usize = 0;
    while i < end
        invariant
            i <= end <= v.len(),
            out@ == v@.take(i as int),
        decreases end - i,
    {
        out.push(v[i]);
        assert(v@.take(i + 1) == v@.take(i as int).push(v@[i as int]));
        i = i + 1;
    }
    let b = string_from_chars(&out);
    concat(b.as_str(), path)
}

/// `s` holds `::` at position `i`.
pub open spec fn double_colon_at(s: Seq<char>, i: int) -> bool {
    0 <= i < s.len() - 1 && s[i] == ':' && s[i + 1] == ':'
}

/// Position of the first `::` in `s`, if any.
pub open spec fn first_double_colon(s: Seq<char>) -> Option<int> {
    if exists|i: int| #[trigger] double_colon_at(s, i) {
        Some(
            choose|i: int|
                #[trigger] double_colon_at(s, i) && forall|j: int|
                    0 <= j < i ==> !#[trigger] double_colon_at(s, j),
        )
    } else {
        None
    }
}

/// The kind and content of an evidence argument `KIND::content`; without
/// `::` the whole line is self-verification content.
pub fn parse_evidence_line(line: &str) -> (r: (String, String))
    ensures
        match first_double_colon(line@) {
            Some(i) => r.0@ == line@.take(i) && r.1@ == line@.skip(i + 2),
            None => r.0@ == "SelfVerification"@ && r.1@ == line@,
        },
{
    let v = str_chars(line);
    let mut i: usize = 0;
    while i < v.len() && i + 1 < v.len()
        invariant
            v@ == line@,
            i <= v.len(),
            forall|j: int| 0 <= j < i ==> !#[trigger] double_colon_at(line@, j),
        decreases v.len() - i,
    {
        if v[i] == ':' && v[i + 1] == ':' {
            let ghost k = i as int;
            assert(double_colon_at(line@, k));
            let ghost c = first_double_colon(line@)->0;
            assert(c == k) by {
                assert(double_colon_at(line@, c) && forall|j: int|
                    0 <= j < c ==> !#[trigger] double_colon_at(line@, j));
                if c < k {
                    assert(!double_colon_at(line@, c));
                } else if c > k {
                    assert(!double_colon_at(line@, k));
                }
            }
            let mut a: Vec<char> = Vec::new();
            let mut j: usize = 0;
            while j < i
                invariant
                    j <= i,
                    i + 1 < v.len(),
                    a@ == v@.take(j as int),
                decreases i - j,
            {
                a.push(v[j]);
                assert(v@.take(j + 1) == v@.take(j as int).push(v@[j as int]));
                j = j + 1;
            }
            let mut b: Vec<char> = Vec::new();
            let mut j: usize = i + 2;
            while j < v.len()
                invariant
                    i + 2 <= j <= v.len(),
                    b@ == v@.subrange(i + 2, j as int),
                decreases v.len() - j,
            {
                b.push(v[j]);
                j = j + 1;
            }
            assert(v@.subrange(i + 2, v.len() as int) == v@.skip(i + 2));
            return (string_from_chars(&a), string_from_chars(&b));
        }
        i = i + 1;
    }
    assert(!exists|i: int| #[trigger] double_colon_at(line@, i)) by {
        assert forall|i: int| !#[trigger] double_colon_at(line@, i) by {
            if 0 <= i < line@.len() - 1 {
                assert(i < v.len() - 1);
            }
        }
    }
    (String::from_str("SelfVerification"), String::from_str(line))
}

/// `s` padded with spaces to at least `width` characters.
pub open spec fn pad_right(s: Seq<char>, width: nat) -> Seq<char> {
    if s.len() < width {
        s + Seq::new((width - s.len()) as nat, |i: int| ' ')
    } else {
        s
    }
}

fn pad_to(s: &str, width: usize) -> (r: String)
    ensures
        r@ == pad_right(s@, width as nat),
{
    let v = str_chars(s);
    let mut out = String::from_str(s);
    let mut n = v.len();
    while n < width
        invariant
            v@ == s@,
            v.len() <= n <= width || (n == v.len() && n >= width),
            out@ == s@ + Seq::new((n - v.len()) as nat, |i: int| ' '),
        decreases width - n,
    {
        let ghost before = out@;
        push_char(&mut out, ' ');
        assert(out@ =~= s@ + Seq::new((n + 1 - v.len()) as nat, |i: int| ' '));
        n = n + 1;
    }
    proof {
        if v.len() >= width {
            assert(out@ =~= s@);
        }
    }
    out
}

/// One purged entry as the report shows it.
#[derive(Debug, Clone)]
pub struct PurgedLine {
    pub id: String,
    pub kind: String,
    pub title: String,
}

/// One rewritten entry as the report shows it.
#[derive(Debug, Clone)]
pub struct RewrittenLine {
    pub id: String,
    pub refs: u64,
}

pub open spec fn purged_item_line(p: PurgedLine) -> Seq<char> {
    "  ["@ + pad_right(p.kind@, 16) + "] "@ + p.id@ + "  "@ + p.title@
}

pub open spec fn rewritten_item_line(r: RewrittenLine) -> Seq<char> {
    "  "@ + r.id@ + "  ("@ + decimal(r.refs as nat) + " reference"@ + (if r.refs == 1 {
        Seq::empty()
    } else {
        "s"@
    }) + ")"@
}

/// Whether a purge answer describes a preview.
pub open spec fn report_is_dry(dry_run: Option<bool>, applied: bool) -> bool {
    match dry_run {
        Some(b) => b,
        None => !applied,
    }
}

/// The lines of the purge report. Listing the purged entries: `(nothing to
/// purge)` alone for an empty list, else a header and one line each. Then
/// the rewritten entries, when there are any. A preview ends with a blank
/// line and the hint to re-run with `--yes`.
pub open spec fn purge_report_lines(
    dry_run: Option<bool>,
    applied: bool,
    purged: Option<Seq<PurgedLine>>,
    rewritten: Option<Seq<RewrittenLine>>,
) -> Seq<Seq<char>> {
    let dry = report_is_dry(dry_run, applied);
    if purged is Some && purged->0.len() == 0 {
        seq!["(nothing to purge)"@]
    } else {
        let head: Seq<Seq<char>> = match purged {
            Some(arr) => seq![
                (if dry { "Would purge"@ } else { "Purged"@ }) + " "@ + decimal(arr.len())
                    + " entries:"@,
            ] + arr.map_values(|p: PurgedLine| purged_item_line(p)),
            None => Seq::empty(),
        };
        let mid: Seq<Seq<char>> = match rewritten {
            Some(arr) => if arr.len() > 0 {
                seq![
                    (if dry { "Would rewrite"@ } else { "Rewrote"@ }) + " body in "@ + decimal(
                        arr.len(),
                    ) + " other entries:"@,
                ] + arr.map_values(|r: RewrittenLine| rewritten_item_line(r))
            } else {
                Seq::empty()
            },
            None => Seq::empty(),
        };
        let tail: Seq<Seq<char>> = if dry {
            seq![Seq::empty(), "Re-run with --yes to apply."@]
        } else {
            Seq::empty()
        };
        head + mid + tail
    }
}

pub open spec fn opt_seq<T>(o: Option<Vec<T>>) -> Option<Seq<T>> {
    match o {
        Some(a) => Some(a@),
        None => None,
    }
}

pub open spec fn line_views(v: Seq<String>) -> Seq<Seq<char>> {
    v.map_values(|s: String| s@)
}

fn push_line(lines: &mut Vec<String>, s: String)
    ensures
        line_views(final(lines)@) == line_views(old(lines)@).push(s@),
{
    lines.push(s);
    assert(line_views(lines@) =~= line_views(old(lines)@).push(s@));
}

/// Words the purge report (see `purge_report_lines`).
pub fn purge_report(
    dry_run: Option<bool>,
    applied: bool,
    purged: Option<Vec<PurgedLine>>,
    rewritten: Option<Vec<RewrittenLine>>,
) -> (lines: Vec<String>)
    requires
        match purged {
            Some(a) => a@.len() <= u64::MAX,
            None => true,
        },
    ensures
        line_views(lines@) == purge_report_lines(
            dry_run,
            applied,
            opt_seq(purged),
            opt_seq(rewritten),
        ),
{
    let dry = match dry_run {
        Some(b) => b,
        None => !applied,
    };
    let mut lines: Vec<String> = Vec::new();
    let ghost pv = opt_seq(purged);
    let ghost rv = opt_seq(rewritten);
    match &purged {
        Some(arr) => {
            if arr.len() == 0 {
                push_line(&mut lines, String::from_str("(nothing to purge)"));
                assert(line_views(lines@) =~= seq!["(nothing to purge)"@]);
                return lines;
            }
            let header = if dry { "Would purge" } else { "Purged" };
            let a = concat(header, " ");
            let n = u64_decimal(arr.len() as u64);
            let b = concat(a.as_str(), n.as_str());
            let c = concat(b.as_str(), " entries:");
            push_line(&mut lines, c);
            let mut i: usize = 0;
            while i < arr.len()
                invariant
                    i <= arr.len(),
                    line_views(lines@) == seq![
                        (if dry { "Would purge"@ } else { "Purged"@ }) + " "@ + decimal(
                            arr@.len(),
                        ) + " entries:"@,
                    ] + arr@.take(i as int).map_values(|p: PurgedLine| purged_item_line(p)),
                decreases arr.len() - i,
            {
                let kind = pad_to(arr[i].kind.as_str(), 16);
                let s1 = concat("  [", kind.as_str());
                let s2 = concat(s1.as_str(), "] ");
                let s3 = concat(s2.as_str(), arr[i].id.as_str());
                let s4 = concat(s3.as_str(), "  ");
                let s5 = concat(s4.as_str(), arr[i].title.as_str());
                push_line(&mut lines, s5);
                assert(arr@.take(i + 1).map_values(|p: PurgedLine| purged_item_line(p)) =~= arr@.take(
                    i as int,
                ).map_values(|p: PurgedLine| purged_item_line(p)).push(
                    purged_item_line(arr@[i as int]),
                ));
                i = i + 1;
            }
            assert(arr@.take(arr.len() as int) == arr@);
        },
        None => {},
    }
    let ghost after_head = line_views(lines@);
    match &rewritten {
        Some(arr) => {
            if arr.len() > 0 {
                let action = if dry { "Would rewrite" } else { "Rewrote" };
                let a = concat(action, " body in ");
                let n = u64_decimal(arr.len() as u64);
                let b = concat(a.as_str(), n.as_str());
                let c = concat(b.as_str(), " other entries:");
                push_line(&mut lines, c);
                let mut i: usize = 0;
                while i < arr.len()
                    invariant
                        i <= arr.len(),
                        line_views(lines@) == after_head + seq![
                            (if dry { "Would rewrite"@ } else { "Rewrote"@ }) + " body in "@
                                + decimal(arr@.len()) + " other entries:"@,
                        ] + arr@.take(i as int).map_values(
                            |r: RewrittenLine| rewritten_item_line(r),
                        ),
                    decreases arr.len() - i,
                {
                    let s1 = concat("  ", arr[i].id.as_str());
                    let s2 = concat(s1.as_str(), "  (");
                    let n = u64_decimal(arr[i].refs);
                    let s3 = concat(s2.as_str(), n.as_str());
                    let s4 = concat(s3.as_str(), " reference");
                    let s5 = if arr[i].refs == 1 {
                        let s = concat(s4.as_str(), "");
                        proof {
                            reveal_strlit("");
                        }
                        assert(s@ == s4@ + Seq::<char>::empty());
                        s
                    } else {
                        concat(s4.as_str(), "s")
                    };
                    let s6 = concat(s5.as_str(), ")");
                    push_line(&mut lines, s6);
                    assert(arr@.take(i + 1).map_values(|r: RewrittenLine| rewritten_item_line(r))
                        =~= arr@.take(i as int).map_values(
                        |r: RewrittenLine| rewritten_item_line(r),
                    ).push(rewritten_item_line(arr@[i as int])));
                    i = i + 1;
                }
                assert(arr@.take(arr.len() as int) == arr@);
            }
        },
        None => {},
    }
    if dry {
        push_line(&mut lines, String::new());
        push_line(&mut lines, String::from_str("Re-run with --yes to apply."));
    }
    proof {
        let expected = purge_report_lines(dry_run, applied, pv, rv);
        assert(line_views(lines@) =~= expected);
    }
    lines
}

} // verus!
