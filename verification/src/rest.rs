//! Request handling for the HTTP interface: authorization and the
//! reading of query-string parameters as a search.

use vstd::prelude::*;

use crate::config::AppState;
use crate::entry::EntryKind;
use crate::error::KbError;
use crate::store::{kind_named, parse_kind, SearchQuery};
use crate::text::{concat, split_char, split_spec, string_views, trim_spec, trim_ws};

verus! {

/// Whether a request with this `Authorization` header may proceed: always
/// when no token is configured, otherwise only for `Bearer <token>`.
pub open spec fn authorized(token: Option<String>, header: Option<Seq<char>>) -> bool {
    match token {
        None => true,
        Some(t) => header == Some("Bearer "@ + t@),
    }
}

/// Checks the optional bearer token of a request.
pub fn check_auth<P>(state: &AppState<P>, authorization: Option<&str>) -> (r: Result<(), KbError>)
    ensures
        authorized(state.bearer_token, match authorization {
            Some(h) => Some(h@),
            None => None,
        }) ==> r is Ok,
        !authorized(state.bearer_token, match authorization {
            Some(h) => Some(h@),
            None => None,
        }) ==> r matches Err(KbError::Unauthorized),
{
    match &state.bearer_token {
        None => Ok(()),
        Some(expected) => match authorization {
            Some(h) => {
                let wanted = concat("Bearer ", expected.as_str());
                if String::from_str(h) == wanted {
                    Ok(())
                } else {
                    Err(KbError::Unauthorized)
                }
            },
            None => Err(KbError::Unauthorized),
        },
    }
}

/// Body of a deprecation request.
#[derive(Debug, Clone)]
pub struct DeprecateBody {
    pub reason: String,
}

/// Answer to an update request.
#[derive(Debug, Clone, Copy)]
pub struct UpdateResponse {
    pub id: u128,
    pub version: u32,
}

/// Query-string parameters of a search.
#[derive(Debug, Clone)]
pub struct SearchParams {
    pub q: Option<String>,
    pub kind: Option<String>,
    pub tag: Option<String>,
    pub limit: Option<u32>,
    pub include_deprecated: Option<bool>,
}

/// The kinds named in a comma-separated list; unknown names are skipped.
pub open spec fn kinds_in(pieces: Seq<Seq<char>>) -> Seq<EntryKind>
    decreases pieces.len(),
{
    if pieces.len() == 0 {
        Seq::empty()
    } else {
        let prev = kinds_in(pieces.drop_last());
        match kind_named(trim_spec(pieces.last())) {
            Some(k) => prev.push(k),
            None => prev,
        }
    }
}

/// Parses a comma-separated list of kind names, trimming each and skipping
/// those that name no kind.
pub fn parse_kind_list(s: &str) -> (kinds: Vec<EntryKind>)
    ensures
        kinds@ == kinds_in(split_spec(s@, ',')),
{
    let pieces = split_char(s, ',');
    let ghost views = string_views(pieces@);
    let mut kinds: Vec<EntryKind> = Vec::new();
    let mut i: usize = 0;
    while i < pieces.len()
        invariant
            i <= pieces.len(),
            views == string_views(pieces@),
            kinds@ == kinds_in(views.take(i as int)),
        decreases pieces.len() - i,
    {
        assert(views.take(i + 1).drop_last() == views.take(i as int));
        assert(views.take(i + 1).last() == pieces@[i as int]@);
        let t = trim_ws(pieces[i].as_str());
        match parse_kind(t.as_str()) {
            Ok(k) => kinds.push(k),
            Err(_) => {},
        }
        i = i + 1;
    }
    assert(views.take(pieces.len() as int) == views);
    kinds
}

/// Parses a comma-separated list of tag prefixes, trimming each.
pub fn parse_tag_list(s: &str) -> (tags: Vec<String>)
    ensures
        string_views(tags@) == split_spec(s@, ',').map_values(|p: Seq<char>| trim_spec(p)),
{
    let pieces = split_char(s, ',');
    let ghost views = string_views(pieces@);
    let mut tags: Vec<String> = Vec::new();
    let mut i: usize = 0;
    while i < pieces.len()
        invariant
            i <= pieces.len(),
            views == string_views(pieces@),
            string_views(tags@) == views.take(i as int).map_values(|p: Seq<char>| trim_spec(p)),
        decreases pieces.len() - i,
    {
        let t = trim_ws(pieces[i].as_str());
        let ghost before = tags@;
        tags.push(t);
        assert(string_views(tags@) =~= string_views(before).push(t@));
        assert(views.take(i + 1).map_values(|p: Seq<char>| trim_spec(p)) =~= views.take(
            i as int,
        ).map_values(|p: Seq<char>| trim_spec(p)).push(trim_spec(views[i as int])));
        i = i + 1;
    }
    assert(views.take(pieces.len() as int) == views);
    tags
}

/// The search a query string asks for: kinds and tags parsed from their
/// comma-separated lists (absent lists filter nothing), limit 20 and live
/// entries only unless given.
pub fn search_params_query(p: SearchParams) -> (q: SearchQuery)
    ensures
        q.kinds@ == match p.kind {
            Some(k) => kinds_in(split_spec(k@, ',')),
            None => Seq::<EntryKind>::empty(),
        },
        string_views(q.tag_prefixes@) == match p.tag {
            Some(t) => split_spec(t@, ',').map_values(|x: Seq<char>| trim_spec(x)),
            None => Seq::<Seq<char>>::empty(),
        },
        q.query == p.q,
        q.limit == match p.limit {
            Some(n) => n,
            None => 20,
        },
        q.include_deprecated == match p.include_deprecated {
            Some(b) => b,
            None => false,
        },
{
    let kinds = match &p.kind {
        Some(k) => parse_kind_list(k.as_str()),
        None => Vec::new(),
    };
    let tag_prefixes = match &p.tag {
        Some(t) => parse_tag_list(t.as_str()),
        None => {
            let v: Vec<String> = Vec::new();
            assert(string_views(v@) =~= Seq::<Seq<char>>::empty());
            v
        },
    };
    let limit = match p.limit {
        Some(n) => n,
        None => 20,
    };
    let include_deprecated = match p.include_deprecated {
        Some(b) => b,
        None => false,
    };
    SearchQuery { kinds, tag_prefixes, query: p.q, limit, include_deprecated }
}

} // verus!
