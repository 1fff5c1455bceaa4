//! Knowledge-base core: entry schema, text normalization, natural keys,
//! duplicate detection decisions, storage planning and request helpers.

pub mod cli;
pub mod config;
pub mod dedup;
pub mod entry;
pub mod error;
pub mod ids;
pub mod mcp;
pub mod normalize;
pub mod purge;
pub mod refs;
pub mod rest;
pub mod skill;
pub mod store;
pub mod text;
