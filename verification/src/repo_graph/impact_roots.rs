use vstd::prelude::*;

use super::impact_map::{has_entry, has_key, keeps_existing, upsert_component, component_keys};
use super::paths::{is_test_path, is_test_path_spec, normalize_changed_file, normalize_changed_spec, path_matches_pattern, pattern_matches_spec};
use super::types::{Component, DetectedFileKind, ImpactKind, ImpactedComponent, RepoInspection};
use crate::text::{text_eq};
use crate::textset::{is_id_set_of, single_id_set, sorted_id_set, strictly_sorted, views};

verus! {

/// The normalized changed files of the request, before removing empty ones.
pub open spec fn normalized_views(files: Seq<String>) -> Seq<Seq<char>> {
    files.map_values(|f: String| normalize_changed_spec(f@))
}

/// Changed files: normalized, without empty paths or repetitions, in increasing order.
pub fn normalize_changed_files(files: &Vec<String>) -> (r: Vec<String>)
    ensures
        is_id_set_of(views(r@), normalized_views(files@)),
{
    let mut all: Vec<String> = Vec::new();
    let mut i: usize = 0;
    while i < files.len()
        invariant
            i <= files@.len(),
            views(all@) == normalized_views(files@.take(i as int)),
        decreases files@.len() - i,
    {
        let n = normalize_changed_file(files[i].as_str());
        all.push(n);
        assert(normalized_views(files@.take(i + 1)) =~= normalized_views(files@.take(i as int)).push(
            normalize_changed_spec(files@[i as int]@),
        ));
        assert(views(all@) =~= normalized_views(files@.take(i as int)).push(
            normalize_changed_spec(files@[i as int]@),
        ));
        i = i + 1;
    }
    assert(files@.take(files@.len() as int) =~= files@);
    sorted_id_set(all)
}

/// Detected-file kinds whose change may affect the whole repository.
pub open spec fn is_broad_kind(k: DetectedFileKind) -> bool {
    match k {
        DetectedFileKind::Manifest | DetectedFileKind::Lockfile
        | DetectedFileKind::WorkspaceConfig | DetectedFileKind::BuildConfig => true,
        _ => false,
    }
}

/// `f` is a manifest, lockfile, workspace or build configuration of the repository.
pub open spec fn is_broad_file(g: RepoInspection, f: Seq<char>) -> bool {
    exists|i: int|
        0 <= i < g.detected_files@.len() && (#[trigger] g.detected_files@[i]).path@ == f
            && is_broad_kind(g.detected_files@[i].kind)
}

pub fn is_broad_repo_change(g: &RepoInspection, f: &String) -> (r: bool)
    ensures
        r == is_broad_file(*g, f@),
{
    let mut i: usize = 0;
    while i < g.detected_files.len()
        invariant
            i <= g.detected_files@.len(),
            forall|j: int|
                0 <= j < i ==> !((#[trigger] g.detected_files@[j]).path@ == f@ && is_broad_kind(
                    g.detected_files@[j].kind,
                )),
        decreases g.detected_files@.len() - i,
    {
        let d = &g.detected_files[i];
        let broad_kind = match d.kind {
            DetectedFileKind::Manifest | DetectedFileKind::Lockfile
            | DetectedFileKind::WorkspaceConfig | DetectedFileKind::BuildConfig => true,
            _ => false,
        };
        if broad_kind && text_eq(d.path.as_str(), f.as_str()) {
            return true;
        }
        i = i + 1;
    }
    false
}

/// Some file pattern of `c` matches the changed path `f`.
pub open spec fn component_matches_spec(c: Component, f: Seq<char>) -> bool {
    exists|j: int|
        0 <= j < c.file_patterns@.len() && pattern_matches_spec(f, (#[trigger] c.file_patterns@[j])@)
}

pub fn component_matches_changed_file(c: &Component, f: &String) -> (r: bool)
    ensures
        r == component_matches_spec(*c, f@),
{
    let mut j: usize = 0;
    while j < c.file_patterns.len()
        invariant
            j <= c.file_patterns@.len(),
            forall|q: int|
                0 <= q < j ==> !pattern_matches_spec(f@, (#[trigger] c.file_patterns@[q])@),
        decreases c.file_patterns@.len() - j,
    {
        if path_matches_pattern(f.as_str(), c.file_patterns[j].as_str()) {
            return true;
        }
        j = j + 1;
    }
    false
}

/// The identifier list made of one identifier, empty identifiers left out.
pub open spec fn single_ids(x: Seq<char>) -> Seq<Seq<char>> {
    if x.len() > 0 {
        seq![x]
    } else {
        seq![]
    }
}

/// `e` copies identifier, name, kind and path of `c`, and rests on its evidence.
pub open spec fn entry_copies(e: ImpactedComponent, c: Component) -> bool {
    &&& e.component_id == c.id
    &&& e.name == c.name
    &&& e.kind == c.kind
    &&& e.path == c.path
    &&& views(e.evidence_ids@) == single_ids(c.evidence_id@)
}

/// The reason given for a component matched directly by a changed file.
pub open spec fn direct_reason(f: Seq<char>) -> Seq<char> {
    if is_test_path_spec(f) {
        "test_path_matched_component_scope"@
    } else {
        "path_matched_component_scope"@
    }
}

/// Changed file `k` is not a repository-wide file and matches component `j`.
pub open spec fn direct_pair(g: RepoInspection, files: Seq<Seq<char>>, k: int, j: int) -> bool {
    0 <= k < files.len() && 0 <= j < g.components@.len() && !is_broad_file(g, files[k])
        && component_matches_spec(g.components@[j], files[k])
}

/// Changed file `k` is a repository-wide file; component `j` is then impacted broadly.
pub open spec fn broad_pair(g: RepoInspection, files: Seq<Seq<char>>, k: int, j: int) -> bool {
    0 <= k < files.len() && 0 <= j < g.components@.len() && is_broad_file(g, files[k])
}

pub open spec fn pair_before(k: int, j: int, fi: int, cj: int) -> bool {
    k < fi || (k == fi && j < cj)
}

/// Some component with identifier `x` is matched directly by a changed file.
pub open spec fn direct_before(g: RepoInspection, files: Seq<Seq<char>>, x: Seq<char>, fi: int, cj: int) -> bool {
    exists|k: int, j: int|
        #![trigger g.components@[j], files[k]]
        pair_before(k, j, fi, cj) && direct_pair(g, files, k, j) && g.components@[j].id@ == x
}

pub open spec fn direct_entry_from(g: RepoInspection, files: Seq<Seq<char>>, e: ImpactedComponent, k: int, j: int) -> bool {
    &&& direct_pair(g, files, k, j)
    &&& entry_copies(e, g.components@[j])
    &&& e.impact_kind == ImpactKind::Direct
    &&& e.distance == Some(0u32)
    &&& e.reason@ == direct_reason(files[k])
}

pub open spec fn broad_entry_from(g: RepoInspection, files: Seq<Seq<char>>, e: ImpactedComponent, k: int, j: int) -> bool {
    &&& broad_pair(g, files, k, j)
    &&& entry_copies(e, g.components@[j])
    &&& e.impact_kind == ImpactKind::Broad
    &&& e.distance == None::<u32>
    &&& e.reason@ == "manifest_or_build_file_changed"@
}

/// What an entry made from the changed files is: a direct match, or a broad impact of a
/// component that no changed file matches directly.
pub open spec fn root_entry_ok(g: RepoInspection, files: Seq<Seq<char>>, e: ImpactedComponent, fi: int, cj: int) -> bool {
    (exists|k: int, j: int|
        #![trigger g.components@[j], files[k]]
        pair_before(k, j, fi, cj) && direct_entry_from(g, files, e, k, j)) || (!direct_before(
        g,
        files,
        e.component_id@,
        fi,
        cj,
    ) && exists|k: int, j: int|
        #![trigger g.components@[j], files[k]]
        pair_before(k, j, fi, cj) && broad_entry_from(g, files, e, k, j))
}

/// The entries computed from the changed files, before dependency edges are followed.
pub open spec fn roots_ok(g: RepoInspection, files: Seq<Seq<char>>, m: Seq<ImpactedComponent>, fi: int, cj: int) -> bool {
    &&& strictly_sorted(component_keys(m))
    &&& forall|i: int| 0 <= i < m.len() ==> root_entry_ok(g, files, #[trigger] m[i], fi, cj)
    &&& forall|k: int, j: int|
        #![trigger g.components@[j], files[k]]
        pair_before(k, j, fi, cj) && direct_pair(g, files, k, j) ==> exists|e: ImpactedComponent|
            has_entry(m, g.components@[j].id@, e) && e.impact_kind == ImpactKind::Direct
    &&& forall|k: int, j: int|
        #![trigger g.components@[j], files[k]]
        pair_before(k, j, fi, cj) && broad_pair(g, files, k, j) ==> has_key(
            m,
            g.components@[j].id@,
        )
}

fn make_root_entry(c: &Component, kind: ImpactKind, distance: Option<u32>, reason: &str) -> (e: ImpactedComponent)
    ensures
        e.component_id == c.id,
        e.name == c.name,
        e.kind == c.kind,
        e.path == c.path,
        views(e.evidence_ids@) == single_ids(c.evidence_id@),
        e.impact_kind == kind,
        e.distance == distance,
        e.reason@ == reason@,
{
    let ids = single_id_set(&c.evidence_id);
    proof {
        if c.evidence_id@.len() == 0 {
            assert(views(ids@) =~= Seq::<Seq<char>>::empty());
        }
    }
    ImpactedComponent {
        component_id: c.id.clone(),
        name: c.name.clone(),
        kind: c.kind.clone(),
        path: c.path.clone(),
        impact_kind: kind,
        distance,
        reason: reason.to_owned(),
        evidence_ids: ids,
    }
}


/// What `upsert_component` guarantees.
pub open spec fn upserted(m0: Seq<ImpactedComponent>, m1: Seq<ImpactedComponent>, cand: ImpactedComponent) -> bool {
    &&& strictly_sorted(component_keys(m1))
    &&& forall|k: Seq<char>, e: ImpactedComponent|
        k != cand.component_id@ ==> (has_entry(m1, k, e) <==> has_entry(m0, k, e))
    &&& !has_key(m0, cand.component_id@) ==> forall|e: ImpactedComponent|
        #[trigger] has_entry(m1, cand.component_id@, e) <==> e == cand
    &&& forall|x: ImpactedComponent, e: ImpactedComponent|
        #![trigger has_entry(m0, cand.component_id@, x), has_entry(m1, cand.component_id@, e)]
        has_entry(m0, cand.component_id@, x) ==> (has_entry(m1, cand.component_id@, e) <==> e == (if keeps_existing(x, cand) {
            x
        } else {
            cand
        }))
}

proof fn key_entry(m: Seq<ImpactedComponent>, k: Seq<char>) -> (e: ImpactedComponent)
    requires
        has_key(m, k),
    ensures
        has_entry(m, k, e),
{
    let i = choose|i: int| 0 <= i < m.len() && m[i].component_id@ == k;
    m[i]
}

proof fn lemma_upserted_kept(m0: Seq<ImpactedComponent>, m1: Seq<ImpactedComponent>, cand: ImpactedComponent, d: ImpactedComponent)
    requires
        upserted(m0, m1, cand),
        has_entry(m0, cand.component_id@, d),
    ensures
        keeps_existing(d, cand) ==> has_entry(m1, cand.component_id@, d),
        !keeps_existing(d, cand) ==> has_entry(m1, cand.component_id@, cand),
{
    if keeps_existing(d, cand) {
        assert(has_entry(m0, cand.component_id@, d) ==> (has_entry(m1, cand.component_id@, d) <==> d == (if keeps_existing(d, cand) { d } else { cand })));
    } else {
        assert(has_entry(m0, cand.component_id@, d) ==> (has_entry(m1, cand.component_id@, cand) <==> cand == (if keeps_existing(d, cand) { d } else { cand })));
    }
}

proof fn lemma_upserted_new(m0: Seq<ImpactedComponent>, m1: Seq<ImpactedComponent>, cand: ImpactedComponent)
    requires
        upserted(m0, m1, cand),
        !has_key(m0, cand.component_id@),
    ensures
        has_entry(m1, cand.component_id@, cand),
{
    assert(has_entry(m1, cand.component_id@, cand) <==> cand == cand);
}

proof fn lemma_upserted_other(m0: Seq<ImpactedComponent>, m1: Seq<ImpactedComponent>, cand: ImpactedComponent, e: ImpactedComponent)
    requires
        upserted(m0, m1, cand),
        has_entry(m1, cand.component_id@, e),
        !(has_entry(m0, cand.component_id@, e) && keeps_existing(e, cand)),
    ensures
        e == cand,
{
    if has_key(m0, cand.component_id@) {
        let x = key_entry(m0, cand.component_id@);
        assert(has_entry(m0, cand.component_id@, x));
        assert(has_entry(m1, cand.component_id@, e) <==> e == (if keeps_existing(x, cand) { x } else { cand }));
    } else {
        assert(has_entry(m1, cand.component_id@, e) <==> e == cand);
    }
}

proof fn lemma_upserted_same(m0: Seq<ImpactedComponent>, m1: Seq<ImpactedComponent>, cand: ImpactedComponent, k: Seq<char>, e: ImpactedComponent)
    requires
        upserted(m0, m1, cand),
        k != cand.component_id@,
    ensures
        has_entry(m1, k, e) <==> has_entry(m0, k, e),
{
}

proof fn lemma_entry_of_index(m: Seq<ImpactedComponent>, i: int)
    requires
        0 <= i < m.len(),
    ensures
        has_entry(m, m[i].component_id@, m[i]),
{
}

proof fn lemma_roots_step(
    g: RepoInspection,
    files: Seq<Seq<char>>,
    m0: Seq<ImpactedComponent>,
    m1: Seq<ImpactedComponent>,
    cand: ImpactedComponent,
    fi: int,
    cj: int,
)
    requires
        0 <= fi < files.len(),
        0 <= cj < g.components@.len(),
        roots_ok(g, files, m0, fi, cj),
        broad_pair(g, files, fi, cj) ==> broad_entry_from(g, files, cand, fi, cj) && upserted(m0, m1, cand),
        direct_pair(g, files, fi, cj) ==> direct_entry_from(g, files, cand, fi, cj) && upserted(m0, m1, cand),
        !broad_pair(g, files, fi, cj) && !direct_pair(g, files, fi, cj) ==> m1 == m0,
    ensures
        roots_ok(g, files, m1, fi, cj + 1),
{
    let x = g.components@[cj].id@;
    let is_direct = direct_pair(g, files, fi, cj);
    let is_broad = broad_pair(g, files, fi, cj);
    assert(is_direct ==> !is_broad);
    assert forall|y: Seq<char>| y != x implies (direct_before(g, files, y, fi, cj + 1) <==> direct_before(g, files, y, fi, cj)) by {
        if direct_before(g, files, y, fi, cj + 1) {
            let (k, j) = choose|k: int, j: int| #![trigger g.components@[j], files[k]] pair_before(k, j, fi, cj + 1) && direct_pair(g, files, k, j) && g.components@[j].id@ == y;
            assert(pair_before(k, j, fi, cj));
        }
        if direct_before(g, files, y, fi, cj) {
            let (k, j) = choose|k: int, j: int| #![trigger g.components@[j], files[k]] pair_before(k, j, fi, cj) && direct_pair(g, files, k, j) && g.components@[j].id@ == y;
            assert(pair_before(k, j, fi, cj + 1));
        }
    }
    assert(direct_before(g, files, x, fi, cj + 1) <==> (direct_before(g, files, x, fi, cj) || is_direct)) by {
        if direct_before(g, files, x, fi, cj + 1) && !is_direct {
            let (k, j) = choose|k: int, j: int| #![trigger g.components@[j], files[k]] pair_before(k, j, fi, cj + 1) && direct_pair(g, files, k, j) && g.components@[j].id@ == x;
            assert(pair_before(k, j, fi, cj));
        }
        if direct_before(g, files, x, fi, cj) {
            let (k, j) = choose|k: int, j: int| #![trigger g.components@[j], files[k]] pair_before(k, j, fi, cj) && direct_pair(g, files, k, j) && g.components@[j].id@ == x;
            assert(pair_before(k, j, fi, cj + 1));
        }
        if is_direct {
            assert(pair_before(fi, cj, fi, cj + 1));
        }
    }
    // root_entry_ok is monotone for a key that the step leaves alone
    assert forall|e: ImpactedComponent| root_entry_ok(g, files, e, fi, cj) && (e.component_id@ != x || !is_direct) implies root_entry_ok(g, files, e, fi, cj + 1) by {
        if exists|k: int, j: int| #![trigger g.components@[j], files[k]] pair_before(k, j, fi, cj) && direct_entry_from(g, files, e, k, j) {
            let (k, j) = choose|k: int, j: int| #![trigger g.components@[j], files[k]] pair_before(k, j, fi, cj) && direct_entry_from(g, files, e, k, j);
            assert(pair_before(k, j, fi, cj + 1));
        } else {
            let (k, j) = choose|k: int, j: int| #![trigger g.components@[j], files[k]] pair_before(k, j, fi, cj) && broad_entry_from(g, files, e, k, j);
            assert(pair_before(k, j, fi, cj + 1));
        }
    }
    if !is_direct && !is_broad {
        assert forall|i: int| 0 <= i < m1.len() implies root_entry_ok(g, files, #[trigger] m1[i], fi, cj + 1) by {
            assert(root_entry_ok(g, files, m0[i], fi, cj));
        }
        assert forall|k: int, j: int| #![trigger g.components@[j], files[k]] pair_before(k, j, fi, cj + 1) && direct_pair(g, files, k, j) implies exists|e: ImpactedComponent| has_entry(m1, g.components@[j].id@, e) && e.impact_kind == ImpactKind::Direct by {
            assert(pair_before(k, j, fi, cj));
        }
        assert forall|k: int, j: int| #![trigger g.components@[j], files[k]] pair_before(k, j, fi, cj + 1) && broad_pair(g, files, k, j) implies has_key(m1, g.components@[j].id@) by {
            assert(pair_before(k, j, fi, cj));
        }
        return;
    }
    assert(cand.component_id@ == x);
    assert(upserted(m0, m1, cand));
    lemma_roots_step_entries(g, files, m0, m1, cand, fi, cj);
    lemma_roots_step_direct(g, files, m0, m1, cand, fi, cj);
    lemma_roots_step_broad(g, files, m0, m1, cand, fi, cj);
}

proof fn lemma_direct_before_step(g: RepoInspection, files: Seq<Seq<char>>, fi: int, cj: int, y: Seq<char>)
    requires
        0 <= fi < files.len(),
        0 <= cj < g.components@.len(),
    ensures
        direct_before(g, files, y, fi, cj + 1) <==> (direct_before(g, files, y, fi, cj) || (direct_pair(g, files, fi, cj) && g.components@[cj].id@ == y)),
{
    if direct_before(g, files, y, fi, cj + 1) {
        let (k, j) = choose|k: int, j: int| #![trigger g.components@[j], files[k]] pair_before(k, j, fi, cj + 1) && direct_pair(g, files, k, j) && g.components@[j].id@ == y;
        if !(k == fi && j == cj) {
            assert(pair_before(k, j, fi, cj));
        }
    }
    if direct_before(g, files, y, fi, cj) {
        let (k, j) = choose|k: int, j: int| #![trigger g.components@[j], files[k]] pair_before(k, j, fi, cj) && direct_pair(g, files, k, j) && g.components@[j].id@ == y;
        assert(pair_before(k, j, fi, cj + 1));
    }
    if direct_pair(g, files, fi, cj) && g.components@[cj].id@ == y {
        assert(pair_before(fi, cj, fi, cj + 1));
    }
}

proof fn lemma_root_entry_mono(g: RepoInspection, files: Seq<Seq<char>>, e: ImpactedComponent, fi: int, cj: int)
    requires
        0 <= fi < files.len(),
        0 <= cj < g.components@.len(),
        root_entry_ok(g, files, e, fi, cj),
        !(direct_pair(g, files, fi, cj) && g.components@[cj].id@ == e.component_id@),
    ensures
        root_entry_ok(g, files, e, fi, cj + 1),
{
    lemma_direct_before_step(g, files, fi, cj, e.component_id@);
    if exists|k: int, j: int| #![trigger g.components@[j], files[k]] pair_before(k, j, fi, cj) && direct_entry_from(g, files, e, k, j) {
        let (k, j) = choose|k: int, j: int| #![trigger g.components@[j], files[k]] pair_before(k, j, fi, cj) && direct_entry_from(g, files, e, k, j);
        assert(pair_before(k, j, fi, cj + 1));
    } else {
        let (k, j) = choose|k: int, j: int| #![trigger g.components@[j], files[k]] pair_before(k, j, fi, cj) && broad_entry_from(g, files, e, k, j);
        assert(pair_before(k, j, fi, cj + 1));
    }
}

pub proof fn lemma_key_unique(m: Seq<ImpactedComponent>, k: Seq<char>, a: ImpactedComponent, b: ImpactedComponent)
    requires
        strictly_sorted(component_keys(m)),
        has_entry(m, k, a),
        has_entry(m, k, b),
    ensures
        a == b,
{
    let i = choose|i: int| 0 <= i < m.len() && m[i] == a && m[i].component_id@ == k;
    let j = choose|j: int| 0 <= j < m.len() && m[j] == b && m[j].component_id@ == k;
    crate::textset::lemma_strictly_sorted_no_duplicates(component_keys(m));
    assert(component_keys(m)[i] == component_keys(m)[j]);
}

proof fn lemma_roots_step_entries(
    g: RepoInspection,
    files: Seq<Seq<char>>,
    m0: Seq<ImpactedComponent>,
    m1: Seq<ImpactedComponent>,
    cand: ImpactedComponent,
    fi: int,
    cj: int,
)
    requires
        0 <= fi < files.len(),
        0 <= cj < g.components@.len(),
        roots_ok(g, files, m0, fi, cj),
        direct_pair(g, files, fi, cj) || broad_pair(g, files, fi, cj),
        direct_pair(g, files, fi, cj) ==> direct_entry_from(g, files, cand, fi, cj),
        broad_pair(g, files, fi, cj) ==> broad_entry_from(g, files, cand, fi, cj),
        upserted(m0, m1, cand),
    ensures
        forall|i: int| 0 <= i < m1.len() ==> root_entry_ok(g, files, #[trigger] m1[i], fi, cj + 1),
{
    let x = cand.component_id@;
    let is_direct = direct_pair(g, files, fi, cj);
    assert(x == g.components@[cj].id@);
    assert forall|i: int| 0 <= i < m1.len() implies root_entry_ok(g, files, #[trigger] m1[i], fi, cj + 1) by {
        let e = m1[i];
        lemma_entry_of_index(m1, i);
        if e.component_id@ != x {
            lemma_upserted_same(m0, m1, cand, e.component_id@, e);
            let i0 = choose|i0: int| 0 <= i0 < m0.len() && m0[i0] == e && m0[i0].component_id@ == e.component_id@;
            assert(root_entry_ok(g, files, m0[i0], fi, cj));
            lemma_root_entry_mono(g, files, e, fi, cj);
        } else if has_entry(m0, x, e) && keeps_existing(e, cand) {
            let i0 = choose|i0: int| 0 <= i0 < m0.len() && m0[i0] == e && m0[i0].component_id@ == x;
            assert(root_entry_ok(g, files, m0[i0], fi, cj));
            if is_direct {
                assert(e.impact_kind == ImpactKind::Direct);
                if exists|k: int, j: int| #![trigger g.components@[j], files[k]] pair_before(k, j, fi, cj) && direct_entry_from(g, files, e, k, j) {
                    let (k, j) = choose|k: int, j: int| #![trigger g.components@[j], files[k]] pair_before(k, j, fi, cj) && direct_entry_from(g, files, e, k, j);
                    assert(pair_before(k, j, fi, cj + 1));
                } else {
                    let (k, j) = choose|k: int, j: int| #![trigger g.components@[j], files[k]] pair_before(k, j, fi, cj) && broad_entry_from(g, files, e, k, j);
                    assert(false);
                }
            } else {
                lemma_root_entry_mono(g, files, e, fi, cj);
            }
        } else {
            assert(has_entry(m1, cand.component_id@, e));
            lemma_upserted_other(m0, m1, cand, e);
            assert(pair_before(fi, cj, fi, cj + 1));
            if !is_direct {
                lemma_direct_before_step(g, files, fi, cj, x);
                if direct_before(g, files, x, fi, cj) {
                    let (k, j) = choose|k: int, j: int| #![trigger g.components@[j], files[k]] pair_before(k, j, fi, cj) && direct_pair(g, files, k, j) && g.components@[j].id@ == x;
                    let d = choose|d: ImpactedComponent| has_entry(m0, g.components@[j].id@, d) && d.impact_kind == ImpactKind::Direct;
                    assert(has_entry(m0, x, d));
                    lemma_upserted_kept(m0, m1, cand, d);
                    assert(keeps_existing(d, cand));
                    lemma_key_unique(m1, x, d, e);
                    assert(false);
                }
            }
        }
    }
}

proof fn lemma_roots_step_direct(
    g: RepoInspection,
    files: Seq<Seq<char>>,
    m0: Seq<ImpactedComponent>,
    m1: Seq<ImpactedComponent>,
    cand: ImpactedComponent,
    fi: int,
    cj: int,
)
    requires
        0 <= fi < files.len(),
        0 <= cj < g.components@.len(),
        roots_ok(g, files, m0, fi, cj),
        direct_pair(g, files, fi, cj) || broad_pair(g, files, fi, cj),
        direct_pair(g, files, fi, cj) ==> direct_entry_from(g, files, cand, fi, cj),
        broad_pair(g, files, fi, cj) ==> broad_entry_from(g, files, cand, fi, cj),
        upserted(m0, m1, cand),
    ensures
        forall|k: int, j: int|
            #![trigger g.components@[j], files[k]]
            pair_before(k, j, fi, cj + 1) && direct_pair(g, files, k, j) ==> exists|e: ImpactedComponent|
                has_entry(m1, g.components@[j].id@, e) && e.impact_kind == ImpactKind::Direct,
{
    let x = cand.component_id@;
    assert(x == g.components@[cj].id@);
    assert forall|k: int, j: int| #![trigger g.components@[j], files[k]] pair_before(k, j, fi, cj + 1) && direct_pair(g, files, k, j) implies exists|e: ImpactedComponent| has_entry(m1, g.components@[j].id@, e) && e.impact_kind == ImpactKind::Direct by {
        let y = g.components@[j].id@;
        if k == fi && j == cj {
            if has_key(m0, x) {
                let d = key_entry(m0, x);
                lemma_upserted_kept(m0, m1, cand, d);
                if keeps_existing(d, cand) {
                    assert(has_entry(m1, y, d));
                } else {
                    assert(has_entry(m1, y, cand));
                }
            } else {
                lemma_upserted_new(m0, m1, cand);
                assert(has_entry(m1, y, cand));
            }
        } else {
            assert(pair_before(k, j, fi, cj));
            let d = choose|d: ImpactedComponent| has_entry(m0, y, d) && d.impact_kind == ImpactKind::Direct;
            if y != x {
                lemma_upserted_same(m0, m1, cand, y, d);
                assert(has_entry(m1, y, d));
            } else {
                lemma_upserted_kept(m0, m1, cand, d);
                assert(keeps_existing(d, cand));
                assert(has_entry(m1, y, d));
            }
        }
    }
}

proof fn lemma_roots_step_broad(
    g: RepoInspection,
    files: Seq<Seq<char>>,
    m0: Seq<ImpactedComponent>,
    m1: Seq<ImpactedComponent>,
    cand: ImpactedComponent,
    fi: int,
    cj: int,
)
    requires
        0 <= fi < files.len(),
        0 <= cj < g.components@.len(),
        roots_ok(g, files, m0, fi, cj),
        direct_pair(g, files, fi, cj) || broad_pair(g, files, fi, cj),
        direct_pair(g, files, fi, cj) ==> direct_entry_from(g, files, cand, fi, cj),
        broad_pair(g, files, fi, cj) ==> broad_entry_from(g, files, cand, fi, cj),
        upserted(m0, m1, cand),
    ensures
        forall|k: int, j: int|
            #![trigger g.components@[j], files[k]]
            pair_before(k, j, fi, cj + 1) && broad_pair(g, files, k, j) ==> has_key(m1, g.components@[j].id@),
{
    let x = cand.component_id@;
    assert(x == g.components@[cj].id@);
    assert(has_key(m1, x)) by {
        if has_key(m0, x) {
            let d = key_entry(m0, x);
            lemma_upserted_kept(m0, m1, cand, d);
        } else {
            lemma_upserted_new(m0, m1, cand);
        }
    }
    assert forall|k: int, j: int| #![trigger g.components@[j], files[k]] pair_before(k, j, fi, cj + 1) && broad_pair(g, files, k, j) implies has_key(m1, g.components@[j].id@) by {
        let y = g.components@[j].id@;
        if y != x {
            assert(pair_before(k, j, fi, cj));
            assert(has_key(m0, y));
            let d = key_entry(m0, y);
            lemma_upserted_same(m0, m1, cand, y, d);
            assert(has_entry(m1, y, d));
        }
    }
}

proof fn lemma_roots_next_file(g: RepoInspection, files: Seq<Seq<char>>, m: Seq<ImpactedComponent>, fi: int)
    requires
        0 <= fi < files.len(),
        roots_ok(g, files, m, fi, g.components@.len() as int),
    ensures
        roots_ok(g, files, m, fi + 1, 0),
{
    let n = g.components@.len() as int;
    assert forall|k: int, j: int| 0 <= j < n implies (pair_before(k, j, fi, n) <==> pair_before(k, j, fi + 1, 0)) by {}
    assert forall|y: Seq<char>| direct_before(g, files, y, fi, n) <==> direct_before(g, files, y, fi + 1, 0) by {
        if direct_before(g, files, y, fi, n) {
            let (k, j) = choose|k: int, j: int| #![trigger g.components@[j], files[k]] pair_before(k, j, fi, n) && direct_pair(g, files, k, j) && g.components@[j].id@ == y;
            assert(pair_before(k, j, fi + 1, 0));
        }
        if direct_before(g, files, y, fi + 1, 0) {
            let (k, j) = choose|k: int, j: int| #![trigger g.components@[j], files[k]] pair_before(k, j, fi + 1, 0) && direct_pair(g, files, k, j) && g.components@[j].id@ == y;
            assert(pair_before(k, j, fi, n));
        }
    }
    assert forall|i: int| 0 <= i < m.len() implies root_entry_ok(g, files, #[trigger] m[i], fi + 1, 0) by {
        let e = m[i];
        assert(root_entry_ok(g, files, e, fi, n));
        if exists|k: int, j: int| #![trigger g.components@[j], files[k]] pair_before(k, j, fi, n) && direct_entry_from(g, files, e, k, j) {
            let (k, j) = choose|k: int, j: int| #![trigger g.components@[j], files[k]] pair_before(k, j, fi, n) && direct_entry_from(g, files, e, k, j);
            assert(pair_before(k, j, fi + 1, 0));
        } else {
            let (k, j) = choose|k: int, j: int| #![trigger g.components@[j], files[k]] pair_before(k, j, fi, n) && broad_entry_from(g, files, e, k, j);
            assert(pair_before(k, j, fi + 1, 0));
        }
    }
    assert forall|k: int, j: int| #![trigger g.components@[j], files[k]] pair_before(k, j, fi + 1, 0) && direct_pair(g, files, k, j) implies exists|e: ImpactedComponent| has_entry(m, g.components@[j].id@, e) && e.impact_kind == ImpactKind::Direct by {
        assert(pair_before(k, j, fi, n));
    }
    assert forall|k: int, j: int| #![trigger g.components@[j], files[k]] pair_before(k, j, fi + 1, 0) && broad_pair(g, files, k, j) implies has_key(m, g.components@[j].id@) by {
        assert(pair_before(k, j, fi, n));
    }
}

/// The components impacted by the changed files themselves: a component matched by a
/// changed file that is not a repository-wide file is impacted directly; when a
/// repository-wide file changed, every other component is impacted broadly.
pub fn root_impacts(g: &RepoInspection, files: &Vec<String>) -> (m: Vec<ImpactedComponent>)
    ensures
        roots_ok(*g, views(files@), m@, files@.len() as int, 0),
{
    let ghost fv = views(files@);
    let mut m: Vec<ImpactedComponent> = Vec::new();
    let mut fi: usize = 0;
    assert(component_keys(m@) =~= Seq::<Seq<char>>::empty());
    while fi < files.len()
        invariant
            fv == views(files@),
            fi <= files@.len(),
            roots_ok(*g, fv, m@, fi as int, 0),
        decreases files@.len() - fi,
    {
        let f = &files[fi];
        assert(fv[fi as int] == f@);
        let broad = is_broad_repo_change(g, f);
        let test_path = is_test_path(f.as_str());
        let mut cj: usize = 0;
        while cj < g.components.len()
            invariant
                fv == views(files@),
                fi < files@.len(),
                fv[fi as int] == f@,
                broad == is_broad_file(*g, f@),
                test_path == is_test_path_spec(f@),
                cj <= g.components@.len(),
                roots_ok(*g, fv, m@, fi as int, cj as int),
            decreases g.components@.len() - cj,
        {
            let c = &g.components[cj];
            let ghost m0 = m@;
            if broad {
                let cand = make_root_entry(c, ImpactKind::Broad, None, "manifest_or_build_file_changed");
                upsert_component(&mut m, cand);
                proof {
                    lemma_roots_step(*g, fv, m0, m@, cand, fi as int, cj as int);
                }
            } else if component_matches_changed_file(c, f) {
                let reason = if test_path {
                    "test_path_matched_component_scope"
                } else {
                    "path_matched_component_scope"
                };
                let cand = make_root_entry(c, ImpactKind::Direct, Some(0), reason);
                upsert_component(&mut m, cand);
                proof {
                    lemma_roots_step(*g, fv, m0, m@, cand, fi as int, cj as int);
                }
            } else {
                proof {
                    lemma_roots_step(*g, fv, m0, m@, m@[0], fi as int, cj as int);
                }
            }
            cj = cj + 1;
        }
        proof {
            lemma_roots_next_file(*g, fv, m@, fi as int);
        }
        fi = fi + 1;
    }
    m
}

} // verus!
