use vstd::prelude::*;

use crate::order::{Ordered, SameItem};
use crate::text::{lemma_seq_lt_total, lemma_seq_lt_transitive, seq_le, seq_lt, text_eq, text_less};

verus! {

pub const INSPECT_CONTRACT_VERSION: &'static str = "0.2";

pub const IMPACT_CONTRACT_VERSION: &'static str = "0.2";

#[derive(Debug, Clone, Copy, PartialEq, Eq, Structural)]
pub enum RepoCommandKind {
    Test,
    Lint,
    Build,
    Check,
    Format,
    Typecheck,
    Other,
}

#[derive(Debug, Clone, Copy, PartialEq, Eq, Structural)]
pub enum PackageManagerKind {
    Cargo,
    Npm,
    Pnpm,
    Yarn,
    Uv,
    Poetry,
    Pip,
    Go,
    Make,
    Just,
    Docker,
    GitHubActions,
}

#[derive(Debug, Clone, Copy, PartialEq, Eq, Structural)]
pub enum DetectedFileKind {
    Manifest,
    Lockfile,
    WorkspaceConfig,
    BuildConfig,
    TestConfig,
    Workflow,
    ContainerConfig,
    SourceHint,
}

#[derive(Debug, Clone, Copy, PartialEq, Eq, Structural)]
pub enum DetectionSeverity {
    Info,
    Warning,
    Error,
}

#[derive(Debug, Clone, Copy, PartialEq, Eq, Structural)]
pub enum DetectionCategory {
    AmbiguousDetection,
    IgnoredPath,
    MalformedManifest,
    MissingCommand,
    NoSupportedManifests,
    PartialSupport,
    RepoGraphOnly,
    UnmappedChange,
    UnreadableManifest,
    UnsupportedPattern,
}

#[derive(Debug, Clone, Copy, PartialEq, Eq, Structural)]
pub enum RelationshipKind {
    Contains,
    BelongsToWorkspace,
    DefinesComponent,
    HasCommand,
    HasTest,
    Tests,
    DependsOn,
    UsesPackageManager,
    EvidenceFor,
}

#[derive(Debug, Clone, Copy, PartialEq, Eq, Structural)]
pub enum ImpactStatus {
    Complete,
    Partial,
    InsufficientEvidence,
}

#[derive(Debug, Clone, Copy, PartialEq, Eq, Structural)]
pub enum ImpactKind {
    Direct,
    Transitive,
    Broad,
    Uncertain,
}

#[derive(Debug, Clone, Copy, PartialEq, Eq, Structural)]
pub enum ImpactScope {
    Targeted,
    Broad,
    Mixed,
    Unknown,
}

#[derive(Debug, Clone, Copy, PartialEq, Eq, Structural)]
pub enum ImpactConfidence {
    High,
    Medium,
    Low,
    Insufficient,
}

/// A repository inspection: every fact names the evidence it rests on.
#[derive(Debug, Clone, PartialEq)]
pub struct RepoInspection {
    pub contract_version: String,
    pub repo: RepoInfo,
    pub detected_files: Vec<DetectedFile>,
    pub package_managers: Vec<PackageManager>,
    pub workspaces: Vec<Workspace>,
    pub components: Vec<Component>,
    pub commands: Vec<RepoCommand>,
    pub tests: Vec<TestTarget>,
    pub relationships: Vec<Relationship>,
    pub evidence: Vec<Evidence>,
    pub warnings: Vec<DetectionIssue>,
}

#[derive(Debug, Clone, PartialEq, Eq)]
pub struct RepoInfo {
    pub root: String,
    pub read_only: bool,
}

#[derive(Debug, Clone, PartialEq, Eq)]
pub struct DetectedFile {
    pub id: String,
    pub path: String,
    pub kind: DetectedFileKind,
    pub evidence_id: String,
}

#[derive(Debug, Clone, PartialEq, Eq)]
pub struct PackageManager {
    pub id: String,
    pub kind: PackageManagerKind,
    pub name: String,
    pub evidence_id: String,
}

#[derive(Debug, Clone, PartialEq, Eq)]
pub struct Workspace {
    pub id: String,
    pub name: String,
    pub members: Vec<String>,
    pub evidence_id: String,
}

#[derive(Debug, Clone, PartialEq, Eq)]
pub struct Component {
    pub id: String,
    pub name: String,
    pub kind: String,
    pub path: String,
    pub file_patterns: Vec<String>,
    pub evidence_id: String,
}

/// A repository command; `confidence` is in hundredths (95 stands for 0.95).
#[derive(Debug, Clone, PartialEq)]
pub struct RepoCommand {
    pub id: String,
    pub kind: RepoCommandKind,
    pub command: String,
    pub scope: String,
    pub scope_ref: Option<String>,
    pub confidence: u32,
    pub evidence_id: String,
}

/// A test target; `confidence` is in hundredths (95 stands for 0.95).
#[derive(Debug, Clone, PartialEq)]
pub struct TestTarget {
    pub id: String,
    pub name: String,
    pub command: String,
    pub scope: String,
    pub scope_ref: Option<String>,
    pub confidence: u32,
    pub evidence_id: String,
}

#[derive(Debug, Clone, PartialEq, Eq)]
pub struct Relationship {
    pub id: String,
    pub kind: RelationshipKind,
    pub src_id: String,
    pub dst_id: String,
    pub evidence_id: String,
}

#[derive(Debug, Clone, PartialEq)]
pub struct ImpactReport {
    pub contract_version: String,
    pub status: ImpactStatus,
    pub impact_scope: ImpactScope,
    pub confidence: ImpactConfidence,
    pub changed_files: Vec<String>,
    pub impacted_components: Vec<ImpactedComponent>,
    pub impacted_workspaces: Vec<ImpactedWorkspace>,
    pub recommended_commands: Vec<RecommendedCommand>,
    pub recommended_tests: Vec<RecommendedTest>,
    pub evidence: Vec<Evidence>,
    pub warnings: Vec<DetectionIssue>,
    pub limitations: Vec<String>,
}

#[derive(Debug, Clone, PartialEq, Eq)]
pub struct ImpactedComponent {
    pub component_id: String,
    pub name: String,
    pub kind: String,
    pub path: String,
    pub impact_kind: ImpactKind,
    pub distance: Option<u32>,
    pub reason: String,
    pub evidence_ids: Vec<String>,
}

#[derive(Debug, Clone, PartialEq, Eq)]
pub struct ImpactedWorkspace {
    pub workspace_id: String,
    pub name: String,
    pub impact_kind: ImpactKind,
    pub distance: Option<u32>,
    pub reason: String,
    pub evidence_ids: Vec<String>,
}

#[derive(Debug, Clone, PartialEq)]
pub struct RecommendedCommand {
    pub command_id: String,
    pub command: String,
    pub kind: RepoCommandKind,
    pub scope_ref: Option<String>,
    pub rank: u32,
    pub reason: String,
    pub confidence: ImpactConfidence,
    pub evidence_ids: Vec<String>,
}

#[derive(Debug, Clone, PartialEq)]
pub struct RecommendedTest {
    pub test_id: String,
    pub command: String,
    pub scope_ref: Option<String>,
    pub rank: u32,
    pub reason: String,
    pub confidence: ImpactConfidence,
    pub evidence_ids: Vec<String>,
}

#[derive(Debug, Clone, PartialEq, Eq)]
pub struct Evidence {
    pub id: String,
    pub path: String,
    pub kind: String,
    pub field: Option<String>,
    pub reason: String,
}

#[derive(Debug, Clone, PartialEq, Eq)]
pub struct DetectionIssue {
    pub id: String,
    pub severity: DetectionSeverity,
    pub category: DetectionCategory,
    pub message: String,
    pub path: Option<String>,
    pub evidence_id: Option<String>,
}

// ---------------------------------------------------------------------------
// Views used by contracts
// ---------------------------------------------------------------------------

/// The texts of a list of strings.
pub open spec fn texts(v: Seq<String>) -> Seq<Seq<char>> {
    v.map_values(|s: String| s@)
}

/// The text of an optional string.
pub open spec fn opt_text(o: Option<String>) -> Option<Seq<char>> {
    match o {
        Some(s) => Some(s@),
        None => None,
    }
}

/// The identifiers of a list of evidence items.
pub open spec fn evidence_id_set(ev: Seq<Evidence>) -> Set<Seq<char>> {
    ev.map_values(|e: Evidence| e.id@).to_set()
}

// ---------------------------------------------------------------------------
// Copies with a known result
// ---------------------------------------------------------------------------

pub fn copy_strings(v: &Vec<String>) -> (r: Vec<String>)
    ensures
        r@ == v@,
{
    let mut r: Vec<String> = Vec::new();
    let mut i: usize = 0;
    while i < v.len()
        invariant
            i <= v@.len(),
            r@ == v@.take(i as int),
        decreases v@.len() - i,
    {
        r.push(v[i].clone());
        assert(v@.take(i + 1) =~= v@.take(i as int).push(v@[i as int]));
        i = i + 1;
    }
    assert(v@.take(v@.len() as int) =~= v@);
    r
}

pub fn copy_opt_string(o: &Option<String>) -> (r: Option<String>)
    ensures
        r == *o,
{
    match o {
        Some(s) => Some(s.clone()),
        None => None,
    }
}

impl Evidence {
    pub fn duplicate(&self) -> (r: Evidence)
        ensures
            r == *self,
    {
        Evidence {
            id: self.id.clone(),
            path: self.path.clone(),
            kind: self.kind.clone(),
            field: copy_opt_string(&self.field),
            reason: self.reason.clone(),
        }
    }
}

impl DetectionIssue {
    pub fn duplicate(&self) -> (r: DetectionIssue)
        ensures
            r == *self,
    {
        DetectionIssue {
            id: self.id.clone(),
            severity: self.severity,
            category: self.category,
            message: self.message.clone(),
            path: copy_opt_string(&self.path),
            evidence_id: copy_opt_string(&self.evidence_id),
        }
    }
}

pub fn copy_evidence_list(v: &Vec<Evidence>) -> (r: Vec<Evidence>)
    ensures
        r@ == v@,
{
    let mut r: Vec<Evidence> = Vec::new();
    let mut i: usize = 0;
    while i < v.len()
        invariant
            i <= v@.len(),
            r@ == v@.take(i as int),
        decreases v@.len() - i,
    {
        r.push(v[i].duplicate());
        assert(v@.take(i + 1) =~= v@.take(i as int).push(v@[i as int]));
        i = i + 1;
    }
    assert(v@.take(v@.len() as int) =~= v@);
    r
}

pub fn copy_issue_list(v: &Vec<DetectionIssue>) -> (r: Vec<DetectionIssue>)
    ensures
        r@ == v@,
{
    let mut r: Vec<DetectionIssue> = Vec::new();
    let mut i: usize = 0;
    while i < v.len()
        invariant
            i <= v@.len(),
            r@ == v@.take(i as int),
        decreases v@.len() - i,
    {
        r.push(v[i].duplicate());
        assert(v@.take(i + 1) =~= v@.take(i as int).push(v@[i as int]));
        i = i + 1;
    }
    assert(v@.take(v@.len() as int) =~= v@);
    r
}

impl Ordered for Evidence {
    open spec fn le(self, other: Self) -> bool {
        seq_le(self.id@, other.id@)
    }

    proof fn lemma_le_transitive(a: Self, b: Self, c: Self) {
        if seq_lt(a.id@, b.id@) && seq_lt(b.id@, c.id@) {
            lemma_seq_lt_transitive(a.id@, b.id@, c.id@);
        }
    }

    proof fn lemma_le_total(a: Self, b: Self) {
        lemma_seq_lt_total(a.id@, b.id@);
    }

    fn le_exec(&self, other: &Self) -> (r: bool) {
        text_less(self.id.as_str(), other.id.as_str()) || text_eq(self.id.as_str(), other.id.as_str())
    }
}

impl SameItem for Evidence {
    open spec fn same(self, other: Self) -> bool {
        self.id@ == other.id@
    }

    fn same_exec(&self, other: &Self) -> (r: bool) {
        text_eq(self.id.as_str(), other.id.as_str())
    }
}

/// Some evidence item of `ev` has identifier `id`.
pub fn evidence_has_id(ev: &Vec<Evidence>, id: &str) -> (r: bool)
    ensures
        r == evidence_id_set(ev@).contains(id@),
{
    let mut i: usize = 0;
    while i < ev.len()
        invariant
            i <= ev@.len(),
            forall|k: int| 0 <= k < i ==> (#[trigger] ev@[k]).id@ != id@,
        decreases ev@.len() - i,
    {
        if text_eq(ev[i].id.as_str(), id) {
            assert(ev@.map_values(|e: Evidence| e.id@)[i as int] == id@);
            return true;
        }
        i = i + 1;
    }
    assert(!evidence_id_set(ev@).contains(id@)) by {
        let ids = ev@.map_values(|e: Evidence| e.id@);
        if ids.contains(id@) {
            let k = choose|k: int| 0 <= k < ids.len() && #[trigger] ids[k] == id@;
            assert(ev@[k].id@ == id@);
        }
    }
    false
}

/// Every identifier of the list names an evidence item, and there is at least one.
pub open spec fn ids_backed(ids: Seq<String>, known: Set<Seq<char>>) -> bool {
    ids.len() > 0 && forall|i: int| 0 <= i < ids.len() ==> known.contains(#[trigger] ids[i]@)
}

/// An optional identifier names an evidence item when it is there.
pub open spec fn opt_backed(id: Option<String>, known: Set<Seq<char>>) -> bool {
    match id {
        Some(x) => known.contains(x@),
        None => true,
    }
}

pub fn ids_backed_exec(ids: &Vec<String>, ev: &Vec<Evidence>) -> (r: bool)
    ensures
        r == ids_backed(ids@, evidence_id_set(ev@)),
{
    if ids.len() == 0 {
        return false;
    }
    let mut i: usize = 0;
    while i < ids.len()
        invariant
            i <= ids@.len(),
            forall|k: int| 0 <= k < i ==> evidence_id_set(ev@).contains(#[trigger] ids@[k]@),
        decreases ids@.len() - i,
    {
        if !evidence_has_id(ev, ids[i].as_str()) {
            return false;
        }
        i = i + 1;
    }
    true
}

pub fn opt_backed_exec(id: &Option<String>, ev: &Vec<Evidence>) -> (r: bool)
    ensures
        r == opt_backed(*id, evidence_id_set(ev@)),
{
    match id {
        Some(x) => evidence_has_id(ev, x.as_str()),
        None => true,
    }
}

} // verus!
