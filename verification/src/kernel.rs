use vstd::prelude::*;

use crate::text::{concat2, decimal, decimal_text_wide, text_eq};

verus! {

// ---------------------------------------------------------------------------
// Profiles and evidence requests
// ---------------------------------------------------------------------------

/// How strict a consumer wants the kernel to be.
#[derive(Debug, Clone, Copy, PartialEq, Eq, Structural)]
pub enum KernelProfile {
    Strict,
    Standard,
    Prototype,
    Research,
    Custom,
}

/// The name of a profile.
pub open spec fn profile_name(p: KernelProfile) -> Seq<char> {
    match p {
        KernelProfile::Strict => "strict"@,
        KernelProfile::Standard => "standard"@,
        KernelProfile::Prototype => "prototype"@,
        KernelProfile::Research => "research"@,
        KernelProfile::Custom => "custom"@,
    }
}

/// The profile with the given name, if any.
pub open spec fn profile_named(name: Seq<char>) -> Option<KernelProfile> {
    if name == "strict"@ {
        Some(KernelProfile::Strict)
    } else if name == "standard"@ {
        Some(KernelProfile::Standard)
    } else if name == "prototype"@ {
        Some(KernelProfile::Prototype)
    } else if name == "research"@ {
        Some(KernelProfile::Research)
    } else if name == "custom"@ {
        Some(KernelProfile::Custom)
    } else {
        None
    }
}

impl KernelProfile {
    /// The profile with the given name, if any.
    pub fn parse(value: &str) -> (r: Option<KernelProfile>)
        ensures
            r == profile_named(value@),
            match r {
                Some(p) => profile_name(p) == value@,
                None => forall|p: KernelProfile| profile_name(p) != value@,
            },
    {
        if text_eq(value, "strict") {
            Some(KernelProfile::Strict)
        } else if text_eq(value, "standard") {
            Some(KernelProfile::Standard)
        } else if text_eq(value, "prototype") {
            Some(KernelProfile::Prototype)
        } else if text_eq(value, "research") {
            Some(KernelProfile::Research)
        } else if text_eq(value, "custom") {
            Some(KernelProfile::Custom)
        } else {
            None
        }
    }

    /// The name of the profile.
    pub fn as_str(self) -> (r: &'static str)
        ensures
            r@ == profile_name(self),
    {
        match self {
            KernelProfile::Strict => "strict",
            KernelProfile::Standard => "standard",
            KernelProfile::Prototype => "prototype",
            KernelProfile::Research => "research",
            KernelProfile::Custom => "custom",
        }
    }
}

/// A task on a repository, under a profile.
#[derive(Debug, Clone, PartialEq, Eq)]
pub struct EvidenceRequest {
    pub task: String,
    pub repo_path: String,
    pub profile: KernelProfile,
}

// ---------------------------------------------------------------------------
// Session memory
// ---------------------------------------------------------------------------

#[derive(Debug, Clone, Copy, PartialEq, Eq, Structural)]
pub enum AgentEventType {
    TaskStarted,
    RepoScoped,
    EvidenceCollected,
    HypothesisCreated,
    HypothesisRejected,
    EditPlanned,
    PatchPreflighted,
    DiagnosticDeltaRecorded,
    TestRunRecorded,
    DecisionRecorded,
}

/// An event of an agent session, stamped with the time it was created.
#[derive(Debug, Clone, PartialEq, Eq)]
pub struct AgentEvent {
    pub id: String,
    pub task_id: Option<String>,
    pub event_type: AgentEventType,
    pub payload_json: String,
    pub created_at_unix_ms: u128,
}

/// The event created at `created_at_unix_ms` (milliseconds since the Unix epoch);
/// its identifier is `event-` and that number.
pub fn create_session_event(
    event_type: AgentEventType,
    task_id: Option<String>,
    payload_json: String,
    created_at_unix_ms: u128,
) -> (e: AgentEvent)
    ensures
        e.id@ == "event-"@ + decimal(created_at_unix_ms as nat),
        e.task_id == task_id,
        e.event_type == event_type,
        e.payload_json == payload_json,
        e.created_at_unix_ms == created_at_unix_ms,
{
    let stamp = decimal_text_wide(created_at_unix_ms);
    AgentEvent {
        id: concat2("event-", stamp.as_str()),
        task_id,
        event_type,
        payload_json,
        created_at_unix_ms,
    }
}

// ---------------------------------------------------------------------------
// Adapters and storage
// ---------------------------------------------------------------------------

/// The LSP adapter and the languages it is meant for.
#[derive(Debug, Clone, PartialEq, Eq)]
pub struct LspBridge {
    pub languages: Vec<&'static str>,
    pub status: &'static str,
}

/// The LSP adapter: a placeholder for TypeScript.
pub fn create_lsp_bridge() -> (b: LspBridge)
    ensures
        b.languages@.len() == 1,
        b.languages@[0]@ == "typescript"@,
        b.status@ == "placeholder"@,
{
    let mut languages: Vec<&'static str> = Vec::new();
    languages.push("typescript");
    LspBridge { languages, status: "placeholder" }
}

/// The tree-sitter adapter and the languages it serves.
#[derive(Debug, Clone, PartialEq, Eq)]
pub struct TreeSitterExtractor {
    pub languages: Vec<&'static str>,
    pub status: &'static str,
}

/// The tree-sitter adapter: Rust, through the symbol graph.
pub fn create_tree_sitter_extractor() -> (t: TreeSitterExtractor)
    ensures
        t.languages@.len() == 1,
        t.languages@[0]@ == "rust"@,
        t.status@ == "implemented in SymbolGraph-lite for top-level Rust facts"@,
{
    let mut languages: Vec<&'static str> = Vec::new();
    languages.push("rust");
    TreeSitterExtractor { languages, status: "implemented in SymbolGraph-lite for top-level Rust facts" }
}

/// The kernel's database: read-only, a placeholder.
#[derive(Debug, Clone, PartialEq, Eq)]
pub struct KernelDatabase {
    pub path: String,
    pub read_only: bool,
    pub status: &'static str,
}

/// Opens the database at `path`: read-only, a placeholder.
pub fn open_kernel_database(path: String) -> (d: KernelDatabase)
    ensures
        d.path == path,
        d.read_only,
        d.status@ == "placeholder"@,
{
    KernelDatabase { path, read_only: true, status: "placeholder" }
}

/// What a process reward is scored from.
#[derive(Debug, Clone, PartialEq, Eq)]
pub struct ProcessRewardInput {
    pub diagnostics_before: Option<u32>,
    pub diagnostics_after: Option<u32>,
    pub edit_scope_ok: Option<bool>,
    pub impacted_tests_known: Option<bool>,
}

} // verus!
