//! Entry schema: the five entry kinds and the data each one carries.
//!
//! Identifiers are ULIDs held as their 128-bit value; timestamps are RFC 3339
//! text, exactly as they are stored.

use vstd::prelude::*;

verus! {

/// The five kinds of knowledge entry.
#[derive(Debug, Clone, Copy, PartialEq, Eq, Hash, Structural)]
pub enum EntryKind {
    Fact,
    ProblemSolution,
    Lesson,
    Decision,
    Heuristic,
}

/// The stored name of a kind.
pub open spec fn kind_name(k: EntryKind) -> Seq<char> {
    match k {
        EntryKind::Fact => "Fact"@,
        EntryKind::ProblemSolution => "ProblemSolution"@,
        EntryKind::Lesson => "Lesson"@,
        EntryKind::Decision => "Decision"@,
        EntryKind::Heuristic => "Heuristic"@,
    }
}

impl EntryKind {
    /// The name under which the kind is stored and serialized.
    pub fn as_str(self) -> (s: &'static str)
        ensures
            s@ == kind_name(self),
    {
        match self {
            EntryKind::Fact => "Fact",
            EntryKind::ProblemSolution => "ProblemSolution",
            EntryKind::Lesson => "Lesson",
            EntryKind::Decision => "Decision",
            EntryKind::Heuristic => "Heuristic",
        }
    }
}

/// How a piece of evidence was obtained.
#[derive(Debug, Clone, Copy, PartialEq, Eq, Structural)]
pub enum EvidenceKind {
    Output,
    Url,
    SelfVerification,
}

/// Evidence backing a fact.
#[derive(Debug, Clone)]
pub struct Evidence {
    pub kind: EvidenceKind,
    pub content: String,
    /// RFC 3339 timestamp.
    pub captured_at: String,
}

/// An option that was considered and rejected by a decision.
#[derive(Debug, Clone)]
pub struct Alternative {
    pub option: String,
    pub why_not: String,
}

/// Kind-specific data of an entry.
#[derive(Debug, Clone)]
pub enum KindData {
    Fact { claim: String, evidence: Vec<Evidence> },
    ProblemSolution {
        problem: String,
        environment: String,
        symptoms: Vec<String>,
        root_cause: String,
        solution: String,
        verification: Option<String>,
    },
    Lesson { trap: String, correction: String, why: String, context: Option<String> },
    Decision {
        context: String,
        decision: String,
        rationale: String,
        alternatives: Vec<Alternative>,
        tradeoffs: Vec<String>,
    },
    Heuristic { problem_class: String, pattern: String, limits: Option<String> },
}

/// The kind that a piece of kind data belongs to.
pub open spec fn data_kind(d: KindData) -> EntryKind {
    match d {
        KindData::Fact { .. } => EntryKind::Fact,
        KindData::ProblemSolution { .. } => EntryKind::ProblemSolution,
        KindData::Lesson { .. } => EntryKind::Lesson,
        KindData::Decision { .. } => EntryKind::Decision,
        KindData::Heuristic { .. } => EntryKind::Heuristic,
    }
}

impl KindData {
    /// The kind of this data.
    pub fn kind(&self) -> (k: EntryKind)
        ensures
            k == data_kind(*self),
    {
        match self {
            KindData::Fact { .. } => EntryKind::Fact,
            KindData::ProblemSolution { .. } => EntryKind::ProblemSolution,
            KindData::Lesson { .. } => EntryKind::Lesson,
            KindData::Decision { .. } => EntryKind::Decision,
            KindData::Heuristic { .. } => EntryKind::Heuristic,
        }
    }
}

/// Where an entry came from.
#[derive(Debug, Clone)]
pub enum Source {
    Human,
    ClaudeCode { session_id: String, project: String, cwd: String },
    /// `original_date` is an RFC 3339 timestamp.
    Imported { from: String, original_date: String },
}

/// A stored entry.
#[derive(Debug, Clone)]
pub struct Entry {
    pub id: u128,
    pub title: String,
    pub body: String,
    pub tags: Vec<String>,
    pub source: Source,
    pub data: KindData,
    pub natural_key_text: String,
    /// Lowercase hex of the SHA-256 natural-key hash.
    pub natural_key_hash: String,
    pub created_at: String,
    pub updated_at: String,
    pub version: u32,
    pub deprecated_at: Option<String>,
    pub deprecation_reason: Option<String>,
    pub superseded_by: Option<u128>,
}

/// Whether a write runs the duplicate check.
#[derive(Debug, Clone, Copy, PartialEq, Eq, Structural)]
pub enum DedupMode {
    Check,
    Force,
}

/// The dedup mode a write uses when none is given.
pub fn default_dedup() -> (m: DedupMode)
    ensures
        m == DedupMode::Check,
{
    DedupMode::Check
}

/// A request to write a new entry.
#[derive(Debug, Clone)]
pub struct WriteInput {
    pub title: String,
    pub body: String,
    pub tags: Vec<String>,
    pub source: Source,
    pub data: KindData,
    pub supersedes: Option<u128>,
    pub dedup: DedupMode,
    pub proceed_token: Option<String>,
}

/// Which dedup layer caught a candidate.
#[derive(Debug, Clone, Copy, PartialEq, Eq, Structural)]
pub enum DedupLayer {
    Exact,
    Fts,
}

/// An existing entry that looks like a duplicate of the one being written.
#[derive(Debug, Clone)]
pub struct DuplicateCandidate {
    pub id: u128,
    pub kind: EntryKind,
    pub title: String,
    pub natural_key_text: String,
    pub layer: DedupLayer,
    /// IEEE-754 bits of the score: 1.0 for the exact layer, the bm25 score
    /// (negative, smaller is better) for the full-text layer.
    pub score_bits: u64,
}

/// Outcome of a write request.
#[derive(Debug, Clone)]
pub enum WriteResult {
    Written { id: u128, version: u32 },
    DuplicatesFound { candidates: Vec<DuplicateCandidate>, proceed_token: String },
}

} // verus!
