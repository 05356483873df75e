use vstd::prelude::*;

use super::impact_map::{component_keys, has_entry, has_key, upsert_component};
use super::impact_roots::upserted;
use super::types::{Component, ImpactKind, ImpactedComponent, RelationshipKind, RepoInspection};
use crate::order::{lemma_same_elements, sort_items, sorted, Ordered};
use crate::text::{lemma_seq_lt_total, lemma_seq_lt_transitive, seq_le, seq_lt, text_eq, text_less};
use crate::textset::{is_id_set_of, sorted_id_set, strictly_sorted, views};

verus! {

/// A dependency edge seen from the component depended upon.
pub struct DepEdge {
    pub src: String,
    pub evidence: String,
}

impl Ordered for DepEdge {
    open spec fn le(self, other: Self) -> bool {
        seq_le(self.src@, other.src@)
    }

    proof fn lemma_le_transitive(a: Self, b: Self, c: Self) {
        if seq_lt(a.src@, b.src@) && seq_lt(b.src@, c.src@) {
            lemma_seq_lt_transitive(a.src@, b.src@, c.src@);
        }
    }

    proof fn lemma_le_total(a: Self, b: Self) {
        lemma_seq_lt_total(a.src@, b.src@);
    }

    fn le_exec(&self, other: &Self) -> (r: bool) {
        text_less(self.src.as_str(), other.src.as_str()) || text_eq(
            self.src.as_str(),
            other.src.as_str(),
        )
    }
}

/// Relationship `r` of `g` says that component `src` depends on component `dst`.
pub open spec fn depends_on(g: RepoInspection, r: int) -> bool {
    0 <= r < g.relationships@.len() && g.relationships@[r].kind == RelationshipKind::DependsOn
}

/// Some component of `g` has identifier `x`.
pub open spec fn is_component_id(g: RepoInspection, x: Seq<char>) -> bool {
    exists|j: int| 0 <= j < g.components@.len() && (#[trigger] g.components@[j]).id@ == x
}

/// The distance of an entry, with a broad impact counted as zero.
pub open spec fn dist0(e: ImpactedComponent) -> int {
    match e.distance {
        Some(d) => d as int,
        None => 0,
    }
}

/// One more than `d`, saturating at `u32::MAX`.
pub open spec fn next_distance(d: int) -> int {
    if d < u32::MAX {
        d + 1
    } else {
        d
    }
}

/// An entry added by following a dependency edge backwards.
pub open spec fn transitive_entry_ok(g: RepoInspection, m: Seq<ImpactedComponent>, e: ImpactedComponent) -> bool {
    &&& e.impact_kind == ImpactKind::Transitive
    &&& e.reason@ == "reverse_dependency"@
    &&& exists|j: int, r: int|
        #![trigger g.components@[j], g.relationships@[r]]
        0 <= j < g.components@.len() && depends_on(g, r) && g.components@[j].id == e.component_id
            && e.name == g.components@[j].name && e.kind == g.components@[j].kind && e.path
            == g.components@[j].path && g.relationships@[r].src_id@ == e.component_id@
            && is_id_set_of(
            views(e.evidence_ids@),
            seq![g.components@[j].evidence_id@, g.relationships@[r].evidence_id@],
        ) && exists|p: ImpactedComponent|
            has_entry(m, g.relationships@[r].dst_id@, p) && e.distance == Some(
                next_distance(dist0(p)) as u32,
            )
}

/// Every component that depends on an impacted component is impacted.
pub open spec fn closed_under_dependents(g: RepoInspection, m: Seq<ImpactedComponent>) -> bool {
    forall|r: int|
        #![trigger g.relationships@[r]]
        depends_on(g, r) && has_key(m, g.relationships@[r].dst_id@) && is_component_id(
            g,
            g.relationships@[r].src_id@,
        ) ==> has_key(m, g.relationships@[r].src_id@)
}

/// `e` is the reverse of a dependency edge into `id`.
pub open spec fn edge_from(g: RepoInspection, id: Seq<char>, e: DepEdge) -> bool {
    exists|r: int|
        #![trigger g.relationships@[r]]
        depends_on(g, r) && g.relationships@[r].dst_id@ == id && e.src == g.relationships@[r].src_id
            && e.evidence == g.relationships@[r].evidence_id
}

/// The dependency edges whose depended-upon component is `id`, in relationship order.
fn edges_into(g: &RepoInspection, id: &String) -> (v: Vec<DepEdge>)
    ensures
        forall|r: int|
            #![trigger g.relationships@[r]]
            depends_on(*g, r) && g.relationships@[r].dst_id@ == id@ ==> v@.contains(
                DepEdge { src: g.relationships@[r].src_id, evidence: g.relationships@[r].evidence_id },
            ),
        forall|q: int| 0 <= q < v@.len() ==> edge_from(*g, id@, #[trigger] v@[q]),
{
    let mut v: Vec<DepEdge> = Vec::new();
    let mut i: usize = 0;
    while i < g.relationships.len()
        invariant
            i <= g.relationships@.len(),
            forall|r: int|
                #![trigger g.relationships@[r]]
                0 <= r < i && depends_on(*g, r) && g.relationships@[r].dst_id@ == id@ ==> v@.contains(
                    DepEdge { src: g.relationships@[r].src_id, evidence: g.relationships@[r].evidence_id },
                ),
            forall|q: int| 0 <= q < v@.len() ==> edge_from(*g, id@, #[trigger] v@[q]),
        decreases g.relationships@.len() - i,
    {
        let rel = &g.relationships[i];
        if rel.kind == RelationshipKind::DependsOn && text_eq(rel.dst_id.as_str(), id.as_str()) {
            let ghost before = v@;
            let edge = DepEdge { src: rel.src_id.clone(), evidence: rel.evidence_id.clone() };
            v.push(edge);
            proof {
                assert(v@[v@.len() - 1] == edge);
                assert forall|r: int|
                    #![trigger g.relationships@[r]]
                    0 <= r < i + 1 && depends_on(*g, r) && g.relationships@[r].dst_id@ == id@ implies v@.contains(
                        DepEdge { src: g.relationships@[r].src_id, evidence: g.relationships@[r].evidence_id },
                    ) by {
                    if r < i {
                        let q = choose|q: int| 0 <= q < before.len() && before[q] == DepEdge { src: g.relationships@[r].src_id, evidence: g.relationships@[r].evidence_id };
                        assert(v@[q] == before[q]);
                    } else {
                        assert(v@[v@.len() - 1] == DepEdge { src: g.relationships@[r].src_id, evidence: g.relationships@[r].evidence_id });
                    }
                }
                assert forall|q: int| 0 <= q < v@.len() implies edge_from(*g, id@, #[trigger] v@[q]) by {
                    if q < before.len() {
                        assert(v@[q] == before[q]);
                    } else {
                        assert(g.relationships@[i as int] == *rel);
                        assert(depends_on(*g, i as int));
                    }
                }
            }
        }
        i = i + 1;
    }
    v
}

/// The last component of `g` with identifier `id`.
fn find_component(g: &RepoInspection, id: &String) -> (r: Option<usize>)
    ensures
        r.is_none() <==> !is_component_id(*g, id@),
        r matches Some(j) ==> j < g.components@.len() && g.components@[j as int].id@ == id@,
{
    let mut found: Option<usize> = None;
    let mut j: usize = 0;
    while j < g.components.len()
        invariant
            j <= g.components@.len(),
            found.is_none() ==> forall|q: int| 0 <= q < j ==> (#[trigger] g.components@[q]).id@ != id@,
            found matches Some(x) ==> x < j && g.components@[x as int].id@ == id@,
        decreases g.components@.len() - j,
    {
        if text_eq(g.components[j].id.as_str(), id.as_str()) {
            found = Some(j);
        }
        j = j + 1;
    }
    found
}

fn contains_text_item(v: &Vec<String>, s: &String) -> (r: bool)
    ensures
        r == views(v@).contains(s@),
{
    let mut i: usize = 0;
    while i < v.len()
        invariant
            i <= v@.len(),
            forall|q: int| 0 <= q < i ==> (#[trigger] v@[q])@ != s@,
        decreases v@.len() - i,
    {
        if text_eq(v[i].as_str(), s.as_str()) {
            assert(views(v@)[i as int] == s@);
            return true;
        }
        i = i + 1;
    }
    proof {
        if views(v@).contains(s@) {
            let q = choose|q: int| 0 <= q < views(v@).len() && views(v@)[q] == s@;
            assert(v@[q]@ == s@);
        }
    }
    false
}

fn transitive_entry(c: &Component, edge: &DepEdge, distance: u32) -> (e: ImpactedComponent)
    ensures
        e.component_id == c.id,
        e.name == c.name,
        e.kind == c.kind,
        e.path == c.path,
        e.impact_kind == ImpactKind::Transitive,
        e.distance == Some(distance),
        e.reason@ == "reverse_dependency"@,
        is_id_set_of(views(e.evidence_ids@), seq![c.evidence_id@, edge.evidence@]),
{
    let mut ids: Vec<String> = Vec::new();
    ids.push(c.evidence_id.clone());
    ids.push(edge.evidence.clone());
    assert(views(ids@) =~= seq![c.evidence_id@, edge.evidence@]);
    ImpactedComponent {
        component_id: c.id.clone(),
        name: c.name.clone(),
        kind: c.kind.clone(),
        path: c.path.clone(),
        impact_kind: ImpactKind::Transitive,
        distance: Some(distance),
        reason: "reverse_dependency".to_owned(),
        evidence_ids: sorted_id_set(ids),
    }
}

proof fn lemma_keys_bound(g: RepoInspection, m: Seq<ImpactedComponent>)
    requires
        strictly_sorted(component_keys(m)),
        forall|i: int| 0 <= i < m.len() ==> is_component_id(g, (#[trigger] m[i]).component_id@),
    ensures
        m.len() <= g.components@.len(),
{
    let keys = component_keys(m);
    let ids = g.components@.map_values(|c: Component| c.id@);
    crate::textset::lemma_strictly_sorted_no_duplicates(keys);
    keys.unique_seq_to_set();
    ids.lemma_cardinality_of_set();
    assert forall|x: Seq<char>| keys.to_set().contains(x) implies ids.to_set().contains(x) by {
        let i = choose|i: int| 0 <= i < keys.len() && keys[i] == x;
        assert(is_component_id(g, m[i].component_id@));
        let j = choose|j: int| 0 <= j < g.components@.len() && (#[trigger] g.components@[j]).id@ == x;
        assert(ids[j] == x);
    }
    vstd::set_lib::lemma_len_subset(keys.to_set(), ids.to_set());
}

proof fn lemma_transitive_mono(g: RepoInspection, m: Seq<ImpactedComponent>, m2: Seq<ImpactedComponent>, e: ImpactedComponent)
    requires
        transitive_entry_ok(g, m, e),
        forall|k: Seq<char>, x: ImpactedComponent| has_entry(m, k, x) ==> has_entry(m2, k, x),
    ensures
        transitive_entry_ok(g, m2, e),
{
    let (j, r) = choose|j: int, r: int|
        #![trigger g.components@[j], g.relationships@[r]]
        0 <= j < g.components@.len() && depends_on(g, r) && g.components@[j].id == e.component_id
            && e.name == g.components@[j].name && e.kind == g.components@[j].kind && e.path
            == g.components@[j].path && g.relationships@[r].src_id@ == e.component_id@
            && is_id_set_of(
            views(e.evidence_ids@),
            seq![g.components@[j].evidence_id@, g.relationships@[r].evidence_id@],
        ) && exists|p: ImpactedComponent|
            has_entry(m, g.relationships@[r].dst_id@, p) && e.distance == Some(
                next_distance(dist0(p)) as u32,
            );
    let p = choose|p: ImpactedComponent|
            has_entry(m, g.relationships@[r].dst_id@, p) && e.distance == Some(
                next_distance(dist0(p)) as u32,
            );
    assert(has_entry(m2, g.relationships@[r].dst_id@, p));
}

/// A queued identifier has an entry at the queued distance.
pub open spec fn queued_ok(m: Seq<ImpactedComponent>, id: Seq<char>, dist: int) -> bool {
    exists|e: ImpactedComponent| #[trigger] has_entry(m, id, e) && dist == dist0(e)
}

/// The state of the walk along dependency edges.
pub open spec fn walk_ok(
    g: RepoInspection,
    m0: Seq<ImpactedComponent>,
    m: Seq<ImpactedComponent>,
    qids: Seq<String>,
    qd: Seq<u32>,
    seen: Seq<String>,
    head: int,
) -> bool {
    &&& strictly_sorted(component_keys(m))
    &&& forall|k: Seq<char>, e: ImpactedComponent| has_entry(m0, k, e) ==> has_entry(m, k, e)
    &&& forall|i: int| 0 <= i < m.len() ==> has_key(m0, (#[trigger] m[i]).component_id@) || transitive_entry_ok(g, m, m[i])
    &&& forall|i: int| 0 <= i < m.len() ==> is_component_id(g, (#[trigger] m[i]).component_id@)
    &&& qids.len() == qd.len()
    &&& qids.len() == m.len()
    &&& 0 <= head <= qids.len()
    &&& forall|i: int| 0 <= i < qids.len() ==> queued_ok(m, (#[trigger] qids[i])@, qd[i] as int)
    &&& forall|i: int| 0 <= i < m.len() ==> views(qids).contains((#[trigger] m[i]).component_id@)
    &&& forall|k: Seq<char>| has_key(m, k) ==> views(seen).contains(k)
    &&& forall|i: int| 0 <= i < seen.len() ==> has_key(m, (#[trigger] seen[i])@) || !is_component_id(g, seen[i]@)
    &&& forall|i: int, r: int|
        #![trigger qids[i], g.relationships@[r]]
        0 <= i < head && depends_on(g, r) && g.relationships@[r].dst_id@ == qids[i]@ && is_component_id(g, g.relationships@[r].src_id@) ==> has_key(m, g.relationships@[r].src_id@)
}

proof fn lemma_walk_insert(
    g: RepoInspection,
    m0: Seq<ImpactedComponent>,
    prev_m: Seq<ImpactedComponent>,
    m: Seq<ImpactedComponent>,
    cand: ImpactedComponent,
    qids: Seq<String>,
    qd: Seq<u32>,
    prev_seen: Seq<String>,
    seen: Seq<String>,
    node_head: int,
    node: String,
    d: u32,
    edge: DepEdge,
    j: int,
    t: int,
    edges: Seq<DepEdge>,
)
    requires
        qids.len() > 0,
        qd.len() == qids.len(),
        walk_ok(g, m0, prev_m, qids.drop_last(), qd.drop_last(), prev_seen, node_head),
        node_head < qids.len() - 1,
        qids[node_head] == node,
        qd[node_head] == d,
        upserted(prev_m, m, cand),
        !has_key(prev_m, cand.component_id@),
        cand.component_id == g.components@[j].id,
        cand.component_id@ == edge.src@,
        0 <= j < g.components@.len(),
        cand.name == g.components@[j].name,
        cand.kind == g.components@[j].kind,
        cand.path == g.components@[j].path,
        cand.impact_kind == ImpactKind::Transitive,
        cand.distance == Some(qd.last()),
        qd.last() as int == next_distance(d as int),
        cand.reason@ == "reverse_dependency"@,
        is_id_set_of(views(cand.evidence_ids@), seq![g.components@[j].evidence_id@, edge.evidence@]),
        qids.last() == edge.src,
        seen == prev_seen.push(edge.src),
        edge_from(g, node@, edge),
        0 <= t < edges.len(),
        edges[t] == edge,
        forall|q: int| 0 <= q < t ==> views(prev_seen).contains((#[trigger] edges[q]).src@),
    ensures
        walk_ok(g, m0, m, qids, qd, seen, node_head),
        m.len() <= g.components@.len(),
        forall|q: int| 0 <= q < t + 1 ==> views(seen).contains((#[trigger] edges[q]).src@),
{
    let k = cand.component_id@;
    let oq = qids.drop_last();
    let oqd = qd.drop_last();
    // entries of prev_m stay, cand is new
    assert forall|kk: Seq<char>, e: ImpactedComponent| has_entry(prev_m, kk, e) implies has_entry(m, kk, e) by {
        if kk == k {
            assert(has_key(prev_m, kk));
        }
    }
    assert(has_entry(m, k, cand)) by {
        assert(has_entry(m, k, cand) <==> cand == cand);
    }
    assert forall|kk: Seq<char>| has_key(m, kk) implies has_key(prev_m, kk) || kk == k by {
        let q = choose|q: int| 0 <= q < m.len() && m[q].component_id@ == kk;
        if kk != k {
            assert(has_entry(m, kk, m[q]));
            assert(has_entry(prev_m, kk, m[q]));
        }
    }
    assert forall|q: int| 0 <= q < m.len() implies (#[trigger] m[q]) == cand || has_entry(prev_m, m[q].component_id@, m[q]) by {
        assert(has_entry(m, m[q].component_id@, m[q]));
        if m[q].component_id@ != k {
            assert(has_entry(prev_m, m[q].component_id@, m[q]));
        } else {
            assert(has_entry(m, k, m[q]) <==> m[q] == cand);
        }
    }
    // the parent entry
    let (pj, r) = (j, choose|r: int|
        #![trigger g.relationships@[r]]
        depends_on(g, r) && g.relationships@[r].dst_id@ == node@ && edge.src == g.relationships@[r].src_id
            && edge.evidence == g.relationships@[r].evidence_id);
    assert(queued_ok(prev_m, oq[node_head]@, oqd[node_head] as int));
    let p = choose|p: ImpactedComponent| #[trigger] has_entry(prev_m, oq[node_head]@, p) && oqd[node_head] as int == dist0(p);
    assert(oq[node_head] == node);
    assert(has_entry(m, g.relationships@[r].dst_id@, p));
    assert(oq.len() == qids.len() - 1);
    assert(oqd.len() == qd.len() - 1);
    assert(oqd[node_head] == qd[node_head]);
    assert(transitive_entry_ok(g, m, cand)) by {
        assert(g.components@[pj].id == cand.component_id);
        assert(cand.distance == Some(next_distance(dist0(p)) as u32));
    }
    assert forall|q: int| 0 <= q < m.len() implies has_key(m0, (#[trigger] m[q]).component_id@) || transitive_entry_ok(g, m, m[q]) by {
        if m[q] != cand {
            let e = m[q];
            let w = choose|w: int| 0 <= w < prev_m.len() && prev_m[w] == e && prev_m[w].component_id@ == e.component_id@;
            assert(has_key(m0, prev_m[w].component_id@) || transitive_entry_ok(g, prev_m, prev_m[w]));
            if !has_key(m0, e.component_id@) {
                lemma_transitive_mono(g, prev_m, m, e);
            }
        }
    }
    assert forall|q: int| 0 <= q < m.len() implies is_component_id(g, (#[trigger] m[q]).component_id@) by {
        if m[q] != cand {
            let e = m[q];
            let w = choose|w: int| 0 <= w < prev_m.len() && prev_m[w] == e && prev_m[w].component_id@ == e.component_id@;
            assert(is_component_id(g, prev_m[w].component_id@));
        } else {
            assert(g.components@[j].id@ == k);
        }
    }
    assert(m.len() == prev_m.len() + 1) by {
        assert(component_keys(m).to_set() =~= component_keys(prev_m).to_set().insert(k)) by {
            assert forall|x: Seq<char>| component_keys(m).to_set().contains(x) <==> component_keys(prev_m).to_set().insert(k).contains(x) by {
                if component_keys(m).to_set().contains(x) {
                    let q = choose|q: int| 0 <= q < component_keys(m).len() && component_keys(m)[q] == x;
                    assert(has_key(m, x));
                    if x != k {
                        let w = choose|w: int| 0 <= w < prev_m.len() && prev_m[w].component_id@ == x;
                        assert(component_keys(prev_m)[w] == x);
                    }
                }
                if component_keys(prev_m).to_set().contains(x) {
                    let w = choose|w: int| 0 <= w < component_keys(prev_m).len() && component_keys(prev_m)[w] == x;
                    assert(has_entry(prev_m, x, prev_m[w]));
                    assert(has_entry(m, x, prev_m[w]));
                    let q = choose|q: int| 0 <= q < m.len() && m[q] == prev_m[w] && m[q].component_id@ == x;
                    assert(component_keys(m)[q] == x);
                }
                if x == k {
                    let q = choose|q: int| 0 <= q < m.len() && m[q] == cand && m[q].component_id@ == k;
                    assert(component_keys(m)[q] == k);
                }
            }
        }
        crate::textset::lemma_strictly_sorted_no_duplicates(component_keys(m));
        crate::textset::lemma_strictly_sorted_no_duplicates(component_keys(prev_m));
        component_keys(m).unique_seq_to_set();
        component_keys(prev_m).unique_seq_to_set();
        assert(!component_keys(prev_m).to_set().contains(k)) by {
            if component_keys(prev_m).to_set().contains(k) {
                let w = choose|w: int| 0 <= w < component_keys(prev_m).len() && component_keys(prev_m)[w] == k;
                assert(prev_m[w].component_id@ == k);
            }
        }
    }
    lemma_keys_bound(g, m);
    // queue
    assert forall|q: int| 0 <= q < qids.len() implies queued_ok(m, (#[trigger] qids[q])@, qd[q] as int) by {
        if q < oq.len() {
            assert(oq[q] == qids[q]);
            assert(oqd[q] == qd[q]);
            assert(queued_ok(prev_m, oq[q]@, oqd[q] as int));
            let e = choose|e: ImpactedComponent| #[trigger] has_entry(prev_m, oq[q]@, e) && oqd[q] as int == dist0(e);
            assert(has_entry(m, qids[q]@, e));
        } else {
            assert(has_entry(m, qids[q]@, cand));
        }
    }
    assert forall|q: int| 0 <= q < m.len() implies views(qids).contains((#[trigger] m[q]).component_id@) by {
        if m[q] == cand {
            assert(views(qids)[qids.len() - 1] == k);
        } else {
            let e = m[q];
            let w = choose|w: int| 0 <= w < prev_m.len() && prev_m[w] == e && prev_m[w].component_id@ == e.component_id@;
            assert(views(oq).contains(prev_m[w].component_id@));
            let z = choose|z: int| 0 <= z < views(oq).len() && views(oq)[z] == e.component_id@;
            assert(views(qids)[z] == e.component_id@);
        }
    }
    assert forall|kk: Seq<char>| has_key(m, kk) implies views(seen).contains(kk) by {
        if kk == k {
            assert(views(seen)[prev_seen.len() as int] == k);
        } else {
            assert(views(prev_seen).contains(kk));
            let z = choose|z: int| 0 <= z < views(prev_seen).len() && views(prev_seen)[z] == kk;
            assert(views(seen)[z] == kk);
        }
    }
    assert forall|q: int| 0 <= q < seen.len() implies has_key(m, (#[trigger] seen[q])@) || !is_component_id(g, seen[q]@) by {
        if q < prev_seen.len() {
            assert(seen[q] == prev_seen[q]);
            if has_key(prev_m, prev_seen[q]@) {
                let w = choose|w: int| 0 <= w < prev_m.len() && prev_m[w].component_id@ == prev_seen[q]@;
                assert(has_entry(m, prev_seen[q]@, prev_m[w]));
            }
        } else {
            assert(seen[q] == edge.src);
        }
    }
    assert forall|i: int, r2: int|
        #![trigger qids[i], g.relationships@[r2]]
        0 <= i < node_head && depends_on(g, r2) && g.relationships@[r2].dst_id@ == qids[i]@ && is_component_id(g, g.relationships@[r2].src_id@) implies has_key(m, g.relationships@[r2].src_id@) by {
        assert(oq[i] == qids[i]);
        assert(has_key(prev_m, g.relationships@[r2].src_id@));
        let w = choose|w: int| 0 <= w < prev_m.len() && prev_m[w].component_id@ == g.relationships@[r2].src_id@;
        assert(has_entry(m, g.relationships@[r2].src_id@, prev_m[w]));
    }
    assert forall|q: int| 0 <= q < t + 1 implies views(seen).contains((#[trigger] edges[q]).src@) by {
        if q < t {
            let z = choose|z: int| 0 <= z < views(prev_seen).len() && views(prev_seen)[z] == edges[q].src@;
            assert(views(seen)[z] == edges[q].src@);
        } else {
            assert(views(seen)[prev_seen.len() as int] == edge.src@);
        }
    }
}

proof fn lemma_bfs_insert(
    g: RepoInspection,
    m0: Seq<ImpactedComponent>,
    prev_m: Seq<ImpactedComponent>,
    m: Seq<ImpactedComponent>,
    cand: ImpactedComponent,
    prev_qids: Seq<String>,
    prev_qd: Seq<u32>,
    qids: Seq<String>,
    qd: Seq<u32>,
    prev_seen: Seq<String>,
    node_head: int,
    next: u32,
    edge: DepEdge,
    t: int,
    edges: Seq<DepEdge>,
)
    requires
        walk_ok(g, m0, prev_m, prev_qids, prev_qd, prev_seen, node_head),
        bfs_ok(g, prev_m, prev_qids, prev_qd, node_head),
        forall|a: int| 0 <= a < prev_qd.len() ==> (#[trigger] prev_qd[a]) as int <= next as int,
        forall|q: int| 0 <= q < t ==> entry_within(prev_m, (#[trigger] edges[q]).src@, next as int),
        forall|q: int| 0 <= q < t ==> views(prev_seen).contains((#[trigger] edges[q]).src@),
        !views(prev_seen).contains(edge.src@),
        upserted(prev_m, m, cand),
        !has_key(prev_m, cand.component_id@),
        is_component_id(g, cand.component_id@),
        cand.component_id@ == edge.src@,
        cand.distance == Some(next),
        qids == prev_qids.push(edge.src),
        qd == prev_qd.push(next),
        0 <= t < edges.len(),
        edges[t] == edge,
    ensures
        bfs_ok(g, m, qids, qd, node_head),
        forall|a: int| 0 <= a < qd.len() ==> (#[trigger] qd[a]) as int <= next as int,
        forall|q: int| 0 <= q < t + 1 ==> entry_within(m, (#[trigger] edges[q]).src@, next as int),
{
    let k = cand.component_id@;
    assert forall|x: Seq<char>, e: ImpactedComponent| x != k && #[trigger] has_entry(m, x, e) implies has_entry(prev_m, x, e) by {}
    assert forall|e: ImpactedComponent| #[trigger] has_entry(m, k, e) implies e == cand by {}
    assert forall|a: int, b: int| #![trigger qd[a], qd[b]] 0 <= a <= b < qd.len() implies qd[a] <= qd[b] by {
        if b < prev_qd.len() {
            assert(qd[a] == prev_qd[a] && qd[b] == prev_qd[b]);
            assert(prev_qd[a] <= prev_qd[b]);
        } else if a < prev_qd.len() {
            assert(qd[a] == prev_qd[a]);
        }
    }
    assert forall|a: int| 0 <= a < node_head implies dependents_within(g, m, (#[trigger] qids[a])@, qd[a] as int) by {
        assert(qids[a] == prev_qids[a] && qd[a] == prev_qd[a]);
        assert(dependents_within(g, prev_m, prev_qids[a]@, prev_qd[a] as int));
        assert forall|r: int|
            #![trigger g.relationships@[r]]
            depends_on(g, r) && g.relationships@[r].dst_id@ == qids[a]@ implies entry_within(m, g.relationships@[r].src_id@, next_distance(qd[a] as int)) by {
            let src = g.relationships@[r].src_id@;
            if src == k {
                assert(has_key(prev_m, src));
            } else {
                assert(entry_within(prev_m, src, next_distance(prev_qd[a] as int)));
            }
        }
    }
    assert forall|a: int| 0 <= a < qd.len() implies (#[trigger] qd[a]) as int <= next as int by {
        if a < prev_qd.len() {
            assert(qd[a] == prev_qd[a]);
        }
    }
    assert forall|q: int| 0 <= q < t + 1 implies entry_within(m, (#[trigger] edges[q]).src@, next as int) by {
        if q < t {
            assert(views(prev_seen).contains(edges[q].src@));
            assert(edges[q].src@ != k);
            assert(entry_within(prev_m, edges[q].src@, next as int));
        } else {
            assert(edges[q].src@ == k);
        }
    }
}

proof fn lemma_bfs_node_done(
    g: RepoInspection,
    m: Seq<ImpactedComponent>,
    qids: Seq<String>,
    qd: Seq<u32>,
    node_head: int,
    node: String,
    d: u32,
    next: u32,
    edges: Seq<DepEdge>,
)
    requires
        bfs_ok(g, m, qids, qd, node_head),
        0 <= node_head < qids.len(),
        qids.len() == qd.len(),
        qids[node_head] == node,
        qd[node_head] == d,
        next as int == next_distance(d as int),
        forall|a: int| 0 <= a < qd.len() ==> (#[trigger] qd[a]) as int <= next as int,
        forall|r: int|
            #![trigger g.relationships@[r]]
            depends_on(g, r) && g.relationships@[r].dst_id@ == node@ ==> edges.contains(
                DepEdge { src: g.relationships@[r].src_id, evidence: g.relationships@[r].evidence_id },
            ),
        forall|q: int| 0 <= q < edges.len() ==> entry_within(m, (#[trigger] edges[q]).src@, next as int),
    ensures
        bfs_ok(g, m, qids, qd, node_head + 1),
        node_head + 1 < qd.len() ==> forall|a: int| 0 <= a < qd.len() ==> (#[trigger] qd[a]) as int <= next_distance(qd[node_head + 1] as int),
{
    assert forall|a: int| 0 <= a < node_head + 1 implies dependents_within(g, m, (#[trigger] qids[a])@, qd[a] as int) by {
        if a == node_head {
            assert forall|r: int|
                #![trigger g.relationships@[r]]
                depends_on(g, r) && g.relationships@[r].dst_id@ == qids[a]@ implies entry_within(m, g.relationships@[r].src_id@, next_distance(qd[a] as int)) by {
                let e = DepEdge { src: g.relationships@[r].src_id, evidence: g.relationships@[r].evidence_id };
                assert(edges.contains(e));
                let q = choose|q: int| 0 <= q < edges.len() && edges[q] == e;
                assert(entry_within(m, edges[q].src@, next as int));
            }
        }
    }
    if node_head + 1 < qd.len() {
        assert(qd[node_head] <= qd[node_head + 1]);
        assert forall|a: int| 0 <= a < qd.len() implies (#[trigger] qd[a]) as int <= next_distance(qd[node_head + 1] as int) by {
            assert(qd[a] as int <= next as int);
        }
    }
}

proof fn lemma_walk_node_done(
    g: RepoInspection,
    m0: Seq<ImpactedComponent>,
    m: Seq<ImpactedComponent>,
    qids: Seq<String>,
    qd: Seq<u32>,
    seen: Seq<String>,
    node_head: int,
    node: String,
    edges: Seq<DepEdge>,
)
    requires
        walk_ok(g, m0, m, qids, qd, seen, node_head),
        0 <= node_head < qids.len(),
        qids[node_head] == node,
        forall|r: int|
            #![trigger g.relationships@[r]]
            depends_on(g, r) && g.relationships@[r].dst_id@ == node@ ==> edges.contains(
                DepEdge { src: g.relationships@[r].src_id, evidence: g.relationships@[r].evidence_id },
            ),
        forall|q: int| 0 <= q < edges.len() ==> views(seen).contains((#[trigger] edges[q]).src@),
    ensures
        walk_ok(g, m0, m, qids, qd, seen, node_head + 1),
{
    assert forall|i: int, r: int|
        #![trigger qids[i], g.relationships@[r]]
        0 <= i < node_head + 1 && depends_on(g, r) && g.relationships@[r].dst_id@ == qids[i]@ && is_component_id(g, g.relationships@[r].src_id@) implies has_key(m, g.relationships@[r].src_id@) by {
        if i == node_head {
            let e = DepEdge { src: g.relationships@[r].src_id, evidence: g.relationships@[r].evidence_id };
            assert(edges.contains(e));
            let q = choose|q: int| 0 <= q < edges.len() && edges[q] == e;
            assert(views(seen).contains(edges[q].src@));
            let z = choose|z: int| 0 <= z < views(seen).len() && views(seen)[z] == e.src@;
            assert(has_key(m, seen[z]@) || !is_component_id(g, seen[z]@));
        }
    }
}

/// No impacted component is more than one step further away than an impacted
/// component it depends on.
pub open spec fn distance_bounded(g: RepoInspection, m: Seq<ImpactedComponent>) -> bool {
    forall|r: int, p: ImpactedComponent, e: ImpactedComponent|
        #![trigger g.relationships@[r], has_entry(m, g.relationships@[r].dst_id@, p), has_entry(m, g.relationships@[r].src_id@, e)]
        depends_on(g, r) && has_entry(m, g.relationships@[r].dst_id@, p) && has_entry(m, g.relationships@[r].src_id@, e)
            ==> dist0(e) <= next_distance(dist0(p))
}

/// Every entry for `src` is at most `bound` away.
pub open spec fn entry_within(m: Seq<ImpactedComponent>, src: Seq<char>, bound: int) -> bool {
    forall|e: ImpactedComponent| #[trigger] has_entry(m, src, e) ==> dist0(e) <= bound
}

/// Every impacted component that depends on `id` is at most one step further away
/// than `d`.
pub open spec fn dependents_within(g: RepoInspection, m: Seq<ImpactedComponent>, id: Seq<char>, d: int) -> bool {
    forall|r: int|
        #![trigger g.relationships@[r]]
        depends_on(g, r) && g.relationships@[r].dst_id@ == id ==> entry_within(m, g.relationships@[r].src_id@, next_distance(d))
}

/// The queue is in order of distance, and the dependents of every node taken from it
/// are within one step of it.
pub open spec fn bfs_ok(g: RepoInspection, m: Seq<ImpactedComponent>, qids: Seq<String>, qd: Seq<u32>, head: int) -> bool {
    &&& forall|a: int, b: int| #![trigger qd[a], qd[b]] 0 <= a <= b < qd.len() ==> qd[a] <= qd[b]
    &&& forall|a: int| 0 <= a < head ==> dependents_within(g, m, (#[trigger] qids[a])@, qd[a] as int)
}

/// The entry of a key of the map carries the distance it was queued with.
proof fn lemma_queued_distance(
    g: RepoInspection,
    m0: Seq<ImpactedComponent>,
    m: Seq<ImpactedComponent>,
    qids: Seq<String>,
    qd: Seq<u32>,
    seen: Seq<String>,
    head: int,
    k: Seq<char>,
    e: ImpactedComponent,
) -> (w: int)
    requires
        walk_ok(g, m0, m, qids, qd, seen, head),
        has_entry(m, k, e),
    ensures
        0 <= w < qids.len(),
        qids[w]@ == k,
        dist0(e) == qd[w] as int,
{
    let i = choose|i: int| 0 <= i < m.len() && m[i] == e && m[i].component_id@ == k;
    assert(views(qids).contains(m[i].component_id@));
    let w = choose|w: int| 0 <= w < views(qids).len() && views(qids)[w] == k;
    assert(queued_ok(m, qids[w]@, qd[w] as int));
    let e2 = choose|e2: ImpactedComponent| #[trigger] has_entry(m, qids[w]@, e2) && qd[w] as int == dist0(e2);
    crate::repo_graph::impact_roots::lemma_key_unique(m, k, e, e2);
    w
}

/// Follows dependency edges backwards from the impacted components, breadth first:
/// every component that depends on an impacted component becomes impacted
/// transitively, one step further away than the component it was reached from.
pub fn add_reverse_dependency_impacts(g: &RepoInspection, m: &mut Vec<ImpactedComponent>)
    requires
        strictly_sorted(component_keys(old(m)@)),
        forall|i: int| 0 <= i < old(m)@.len() ==> is_component_id(*g, (#[trigger] old(m)@[i]).component_id@),
        forall|i: int| 0 <= i < old(m)@.len() ==> dist0(#[trigger] old(m)@[i]) == 0,
    ensures
        strictly_sorted(component_keys(final(m)@)),
        forall|k: Seq<char>, e: ImpactedComponent| has_entry(old(m)@, k, e) ==> has_entry(final(m)@, k, e),
        forall|i: int| 0 <= i < final(m)@.len() ==> has_key(old(m)@, (#[trigger] final(m)@[i]).component_id@) || transitive_entry_ok(*g, final(m)@, final(m)@[i]),
        forall|i: int| 0 <= i < final(m)@.len() ==> is_component_id(*g, (#[trigger] final(m)@[i]).component_id@),
        closed_under_dependents(*g, final(m)@),
        distance_bounded(*g, final(m)@),
{
    let ghost m0 = m@;
    let mut qids: Vec<String> = Vec::new();
    let mut qd: Vec<u32> = Vec::new();
    let mut seen: Vec<String> = Vec::new();
    let mut i: usize = 0;
    while i < m.len()
        invariant
            m@ == m0,
            i <= m@.len(),
            qids@.len() == i,
            qd@.len() == i,
            seen@ == qids@,
            forall|q: int| 0 <= q < i ==> (#[trigger] qids@[q]) == m@[q].component_id && qd@[q] as int == dist0(m@[q]),
            forall|q: int| 0 <= q < m@.len() ==> dist0(#[trigger] m@[q]) == 0,
        decreases m@.len() - i,
    {
        let d = match m[i].distance {
            Some(x) => x,
            None => 0,
        };
        let ghost pq = qids@;
        let ghost pd = qd@;
        qids.push(m[i].component_id.clone());
        qd.push(d);
        seen.push(m[i].component_id.clone());
        assert forall|q: int| 0 <= q < i + 1 implies (#[trigger] qids@[q]) == m@[q].component_id && qd@[q] as int == dist0(m@[q]) by {
            if q < i {
                assert(qids@[q] == pq[q]);
                assert(qd@[q] == pd[q]);
            }
        }
        i = i + 1;
    }
    proof {
        assert forall|q: int| 0 <= q < qids@.len() implies queued_ok(m@, (#[trigger] qids@[q])@, qd@[q] as int) by {
            assert(has_entry(m@, qids@[q]@, m@[q]));
        }
        assert forall|q: int| 0 <= q < m@.len() implies views(qids@).contains((#[trigger] m@[q]).component_id@) by {
            assert(views(qids@)[q] == m@[q].component_id@);
        }
        assert forall|k: Seq<char>| has_key(m@, k) implies views(seen@).contains(k) by {
            let q = choose|q: int| 0 <= q < m@.len() && m@[q].component_id@ == k;
            assert(views(seen@)[q] == k);
        }
        assert forall|q: int| 0 <= q < seen@.len() implies has_key(m@, (#[trigger] seen@[q])@) || !is_component_id(*g, seen@[q]@) by {
            assert(m@[q].component_id@ == seen@[q]@);
        }
        assert forall|q: int| 0 <= q < m@.len() implies has_key(m0, (#[trigger] m@[q]).component_id@) || transitive_entry_ok(*g, m@, m@[q]) by {
            assert(m0[q].component_id@ == m@[q].component_id@);
        }
        lemma_keys_bound(*g, m@);
        assert(qids@.len() == m@.len());
        assert(strictly_sorted(component_keys(m@)));
        assert(forall|k: Seq<char>, e: ImpactedComponent| has_entry(m0, k, e) ==> has_entry(m@, k, e));
        assert(qids@.len() == qd@.len());
        assert(walk_ok(*g, m0, m@, qids@, qd@, seen@, 0));
        assert forall|q: int| 0 <= q < qd@.len() implies qd@[q] == 0 by {
            assert(qids@[q] == m@[q].component_id);
            assert(qd@[q] as int == dist0(m@[q]));
        }
        assert(bfs_ok(*g, m@, qids@, qd@, 0));
    }
    let mut head: usize = 0;
    while head < qids.len()
        invariant
            walk_ok(*g, m0, m@, qids@, qd@, seen@, head as int),
            bfs_ok(*g, m@, qids@, qd@, head as int),
            head < qd@.len() ==> forall|a: int| 0 <= a < qd@.len() ==> (#[trigger] qd@[a]) as int <= next_distance(qd@[head as int] as int),
            m@.len() <= g.components@.len(),
        decreases g.components@.len() - head,
    {
        let node = qids[head].clone();
        let d = qd[head];
        let ghost node_head = head as int;
        head = head + 1;
        let unsorted = edges_into(g, &node);
        let edges = sort_items(unsorted);
        proof {
            lemma_same_elements(edges@, unsorted@);
            assert forall|q: int| 0 <= q < edges@.len() implies edge_from(*g, node@, #[trigger] edges@[q]) by {
                assert(edges@.contains(edges@[q]));
                assert(unsorted@.contains(edges@[q]));
                let w = choose|w: int| 0 <= w < unsorted@.len() && unsorted@[w] == edges@[q];
                assert(edge_from(*g, node@, unsorted@[w]));
            }
        }
        let next: u32 = if d < u32::MAX { d + 1 } else { d };
        let mut t: usize = 0;
        while t < edges.len()
            invariant
                walk_ok(*g, m0, m@, qids@, qd@, seen@, node_head),
                node_head + 1 == head,
                head <= qids@.len(),
                qids@[node_head] == node,
                qd@[node_head] == d,
                next as int == next_distance(d as int),
                m@.len() <= g.components@.len(),
                t <= edges@.len(),
                forall|q: int| 0 <= q < edges@.len() ==> edge_from(*g, node@, #[trigger] edges@[q]),
                forall|q: int| 0 <= q < t ==> views(seen@).contains((#[trigger] edges@[q]).src@),
                bfs_ok(*g, m@, qids@, qd@, node_head),
                forall|a: int| 0 <= a < qd@.len() ==> (#[trigger] qd@[a]) as int <= next as int,
                forall|q: int| 0 <= q < t ==> entry_within(m@, (#[trigger] edges@[q]).src@, next as int),
            decreases edges@.len() - t,
        {
            let edge = &edges[t];
            let ghost prev_m = m@;
            let ghost prev_seen = seen@;
            if contains_text_item(&seen, &edge.src) {
                proof {
                    assert forall|e: ImpactedComponent| #[trigger] has_entry(m@, edge.src@, e) implies dist0(e) <= next as int by {
                        let w = lemma_queued_distance(*g, m0, m@, qids@, qd@, seen@, node_head, edge.src@, e);
                    }
                    assert forall|q: int| 0 <= q < t + 1 implies entry_within(m@, (#[trigger] edges@[q]).src@, next as int) by {
                        if q == t {
                            assert(edges@[q] == *edge);
                        }
                    }
                }
                t = t + 1;
                continue;
            }
            seen.push(edge.src.clone());
            assert(views(seen@) =~= views(prev_seen).push(edge.src@));
            match find_component(g, &edge.src) {
                None => {
                    proof {
                        assert forall|q: int| 0 <= q < t + 1 implies entry_within(m@, (#[trigger] edges@[q]).src@, next as int) by {
                            if q == t {
                                assert forall|e: ImpactedComponent| #[trigger] has_entry(m@, edges@[q].src@, e) implies dist0(e) <= next as int by {
                                    let i = choose|i: int| 0 <= i < m@.len() && m@[i] == e && m@[i].component_id@ == edges@[q].src@;
                                    assert(is_component_id(*g, m@[i].component_id@));
                                }
                            }
                        }
                        assert forall|q: int| 0 <= q < seen@.len() implies has_key(m@, (#[trigger] seen@[q])@) || !is_component_id(*g, seen@[q]@) by {
                            if q < prev_seen.len() {
                                assert(seen@[q] == prev_seen[q]);
                            }
                        }
                        assert forall|k: Seq<char>| has_key(m@, k) implies views(seen@).contains(k) by {
                            assert(views(prev_seen).contains(k));
                            let q = choose|q: int| 0 <= q < views(prev_seen).len() && views(prev_seen)[q] == k;
                            assert(views(seen@)[q] == k);
                        }
                        assert forall|q: int| 0 <= q < t + 1 implies views(seen@).contains((#[trigger] edges@[q]).src@) by {
                            if q < t {
                                let w = choose|w: int| 0 <= w < views(prev_seen).len() && views(prev_seen)[w] == edges@[q].src@;
                                assert(views(seen@)[w] == edges@[q].src@);
                            } else {
                                assert(views(seen@)[prev_seen.len() as int] == edge.src@);
                            }
                        }
                    }
                }
                Some(j) => {
                    let cand = transitive_entry(&g.components[j], edge, next);
                    proof {
                        assert(!has_key(m@, edge.src@)) by {
                            if has_key(m@, edge.src@) {
                                assert(views(prev_seen).contains(edge.src@));
                            }
                        }
                    }
                    upsert_component(m, cand);
                    let ghost prev_qids = qids@;
                    let ghost prev_qd = qd@;
                    qids.push(edge.src.clone());
                    qd.push(next);
                    assert(qids@.drop_last() =~= prev_qids);
                    assert(qd@.drop_last() =~= prev_qd);
                    proof {
                        lemma_walk_insert(*g, m0, prev_m, m@, cand, qids@, qd@, prev_seen, seen@, node_head, node, d, *edge, j as int, t as int, edges@);
                        lemma_bfs_insert(*g, m0, prev_m, m@, cand, prev_qids, prev_qd, qids@, qd@, prev_seen, node_head, next, *edge, t as int, edges@);
                    }
                }
            }
            t = t + 1;
        }
        proof {
            lemma_walk_node_done(*g, m0, m@, qids@, qd@, seen@, node_head, node, edges@);
            lemma_bfs_node_done(*g, m@, qids@, qd@, node_head, node, d, next, edges@);
        }
    }
    proof {
        assert forall|r: int, p: ImpactedComponent, e: ImpactedComponent|
            #![trigger g.relationships@[r], has_entry(m@, g.relationships@[r].dst_id@, p), has_entry(m@, g.relationships@[r].src_id@, e)]
            depends_on(*g, r) && has_entry(m@, g.relationships@[r].dst_id@, p) && has_entry(m@, g.relationships@[r].src_id@, e)
                implies dist0(e) <= next_distance(dist0(p)) by {
            let w = lemma_queued_distance(*g, m0, m@, qids@, qd@, seen@, head as int, g.relationships@[r].dst_id@, p);
            assert(dependents_within(*g, m@, qids@[w]@, qd@[w] as int));
            assert(entry_within(m@, g.relationships@[r].src_id@, next_distance(qd@[w] as int)));
        }
        assert forall|r: int|
            #![trigger g.relationships@[r]]
            depends_on(*g, r) && has_key(m@, g.relationships@[r].dst_id@) && is_component_id(*g, g.relationships@[r].src_id@) implies has_key(m@, g.relationships@[r].src_id@) by {
            let k = g.relationships@[r].dst_id@;
            let q = choose|q: int| 0 <= q < m@.len() && m@[q].component_id@ == k;
            assert(views(qids@).contains(m@[q].component_id@));
            let w = choose|w: int| 0 <= w < views(qids@).len() && views(qids@)[w] == k;
            assert(qids@[w]@ == k);
        }
    }
}

} // verus!
