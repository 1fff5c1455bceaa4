//! Arguments and answers of the MCP tools (write, get, update, deprecate,
//! search, recent, stats). The tools run the same storage operations as the
//! HTTP routes.

use vstd::prelude::*;

use crate::entry::{Entry, EntryKind, WriteInput, WriteResult};
use crate::store::{PartialEntry, SearchQuery};

verus! {

/// Arguments of the `write` tool.
#[derive(Debug, Clone)]
pub struct WriteArgs {
    pub inner: WriteInput,
}

/// Arguments of the `get` tool. `include_history` is accepted and unused.
#[derive(Debug, Clone)]
pub struct GetArgs {
    pub id: String,
    pub include_history: bool,
}

/// Arguments of the `update` tool.
#[derive(Debug, Clone)]
pub struct UpdateArgs {
    pub id: String,
    pub partial: PartialEntry,
}

/// Arguments of the `deprecate` tool.
#[derive(Debug, Clone)]
pub struct DeprecateArgs {
    pub id: String,
    pub reason: String,
}

/// Arguments of the `search` tool.
#[derive(Debug, Clone)]
pub struct SearchArgs {
    pub kinds: Vec<EntryKind>,
    pub tag_prefixes: Vec<String>,
    pub query: Option<String>,
    pub limit: Option<u32>,
    pub include_deprecated: Option<bool>,
}

impl SearchArgs {
    /// The search these arguments ask for: limit 20 and live entries only
    /// unless given.
    pub fn into_query(self) -> (q: SearchQuery)
        ensures
            q.kinds == self.kinds,
            q.tag_prefixes == self.tag_prefixes,
            q.query == self.query,
            q.limit == match self.limit {
                Some(n) => n,
                None => 20,
            },
            q.include_deprecated == match self.include_deprecated {
                Some(b) => b,
                None => false,
            },
    {
        let limit = match self.limit {
            Some(n) => n,
            None => 20,
        };
        let include_deprecated = match self.include_deprecated {
            Some(b) => b,
            None => false,
        };
        SearchQuery {
            kinds: self.kinds,
            tag_prefixes: self.tag_prefixes,
            query: self.query,
            limit,
            include_deprecated,
        }
    }
}

/// Arguments of the `recent` tool; `since` is an RFC 3339 timestamp.
#[derive(Debug, Clone)]
pub struct RecentArgs {
    pub n: Option<u32>,
    pub since: Option<String>,
}

impl RecentArgs {
    /// How many entries are asked for: `n`, or 20.
    pub fn count(&self) -> (c: u32)
        ensures
            c == match self.n {
                Some(n) => n,
                None => 20,
            },
    {
        match self.n {
            Some(n) => n,
            None => 20,
        }
    }
}

/// Answer of the `update` tool.
#[derive(Debug, Clone)]
pub struct UpdateOk {
    pub id: String,
    pub version: u32,
}

/// Answer of the `deprecate` tool.
#[derive(Debug, Clone, Copy)]
pub struct DeprecateOk {
    pub ok: bool,
}

/// Answer of the `write` tool.
#[derive(Debug, Clone)]
pub struct WriteOutput {
    pub result: WriteResult,
}

/// Answer of the `get` tool.
#[derive(Debug, Clone)]
pub struct GetOutput {
    pub entry: Option<Entry>,
}

} // verus!
