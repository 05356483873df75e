use vstd::prelude::*;

use super::types::{ImpactKind, ImpactedComponent};
use crate::text::{lemma_seq_lt_total, lemma_seq_lt_transitive, seq_lt, text_eq, text_less};
use crate::textset::strictly_sorted;

verus! {

// ---------------------------------------------------------------------------
// Impacted components kept as a list ordered by component identifier
// ---------------------------------------------------------------------------

/// The component identifiers of a list of impacted components.
pub open spec fn component_keys(m: Seq<ImpactedComponent>) -> Seq<Seq<char>> {
    m.map_values(|e: ImpactedComponent| e.component_id@)
}

/// `e` is the entry of `m` for identifier `k`.
pub open spec fn has_entry(m: Seq<ImpactedComponent>, k: Seq<char>, e: ImpactedComponent) -> bool {
    exists|i: int| 0 <= i < m.len() && m[i] == e && m[i].component_id@ == k
}

/// `m` has an entry for identifier `k`.
pub open spec fn has_key(m: Seq<ImpactedComponent>, k: Seq<char>) -> bool {
    exists|i: int| 0 <= i < m.len() && m[i].component_id@ == k
}

/// The rank of an impact kind: direct before broad before transitive before uncertain.
pub open spec fn impact_kind_rank(k: ImpactKind) -> int {
    match k {
        ImpactKind::Direct => 0,
        ImpactKind::Broad => 1,
        ImpactKind::Transitive => 2,
        ImpactKind::Uncertain => 3,
    }
}

pub open spec fn distance_key(d: Option<u32>) -> int {
    match d {
        Some(x) => x as int,
        None => u32::MAX as int,
    }
}

/// An existing entry is kept when it ranks no worse than the candidate.
pub open spec fn keeps_existing(existing: ImpactedComponent, candidate: ImpactedComponent) -> bool {
    impact_kind_rank(existing.impact_kind) < impact_kind_rank(candidate.impact_kind) || (
    impact_kind_rank(existing.impact_kind) == impact_kind_rank(candidate.impact_kind)
        && distance_key(existing.distance) <= distance_key(candidate.distance))
}

pub fn impact_kind_rank_exec(k: ImpactKind) -> (r: u8)
    ensures
        r as int == impact_kind_rank(k),
{
    match k {
        ImpactKind::Direct => 0,
        ImpactKind::Broad => 1,
        ImpactKind::Transitive => 2,
        ImpactKind::Uncertain => 3,
    }
}

fn distance_key_exec(d: Option<u32>) -> (r: u32)
    ensures
        r as int == distance_key(d),
{
    match d {
        Some(x) => x,
        None => u32::MAX,
    }
}

fn keeps_existing_exec(existing: &ImpactedComponent, candidate: &ImpactedComponent) -> (r: bool)
    ensures
        r == keeps_existing(*existing, *candidate),
{
    let a = impact_kind_rank_exec(existing.impact_kind);
    let b = impact_kind_rank_exec(candidate.impact_kind);
    a < b || (a == b && distance_key_exec(existing.distance) <= distance_key_exec(
        candidate.distance,
    ))
}

/// Inserts a candidate entry; an existing entry for the same identifier is replaced
/// only by a candidate that ranks strictly better.
pub fn upsert_component(m: &mut Vec<ImpactedComponent>, cand: ImpactedComponent)
    requires
        strictly_sorted(component_keys(old(m)@)),
    ensures
        strictly_sorted(component_keys(final(m)@)),
        forall|k: Seq<char>, e: ImpactedComponent|
            k != cand.component_id@ ==> (has_entry(final(m)@, k, e) <==> has_entry(old(m)@, k, e)),
        !has_key(old(m)@, cand.component_id@) ==> forall|e: ImpactedComponent|
            #[trigger] has_entry(final(m)@, cand.component_id@, e) <==> e == cand,
        forall|x: ImpactedComponent, e: ImpactedComponent|
            #![trigger has_entry(old(m)@, cand.component_id@, x), has_entry(final(m)@, cand.component_id@, e)]
            has_entry(old(m)@, cand.component_id@, x) ==> (has_entry(final(m)@, cand.component_id@, e) <==> e == (if keeps_existing(x, cand) {
                x
            } else {
                cand
            })),
        final(m)@.len() >= old(m)@.len(),
{
    let ghost old_m = m@;
    let ghost keys = component_keys(old_m);
    let ghost k = cand.component_id@;
    let mut p: usize = 0;
    while p < m.len() && text_less(m[p].component_id.as_str(), cand.component_id.as_str())
        invariant
            p <= m@.len(),
            m@ == old_m,
            keys == component_keys(old_m),
            k == cand.component_id@,
            strictly_sorted(keys),
            forall|j: int| 0 <= j < p ==> seq_lt(#[trigger] keys[j], k),
        decreases m@.len() - p,
    {
        assert(keys[p as int] == m@[p as int].component_id@);
        p = p + 1;
    }
    proof {
        assert forall|j: int| 0 <= j < p implies seq_lt(#[trigger] keys[j], k) by {}
        if p < old_m.len() {
            lemma_seq_lt_total(keys[p as int], k);
        }
    }
    // positions after p hold keys greater than k or equal at p
    if p < m.len() && text_eq(m[p].component_id.as_str(), cand.component_id.as_str()) {
        proof {
            assert(keys[p as int] == k);
            assert forall|j: int| 0 <= j < old_m.len() && j != p implies keys[j] != k by {
                if j < p {
                    crate::text::lemma_seq_lt_asymmetric(keys[j], k);
                } else {
                    crate::text::lemma_seq_lt_asymmetric(keys[p as int], keys[j]);
                }
            }
        }
        let keep = keeps_existing_exec(&m[p], &cand);
        if !keep {
            let ghost x = old_m[p as int];
            m.set(p, cand);
            proof {
                assert(component_keys(m@) =~= keys);
                assert(has_entry(old_m, k, x));
                assert forall|kk: Seq<char>, e: ImpactedComponent| kk != k implies (has_entry(
                    m@,
                    kk,
                    e,
                ) <==> has_entry(old_m, kk, e)) by {
                    if has_entry(m@, kk, e) {
                        let i = choose|i: int| 0 <= i < m@.len() && m@[i] == e && m@[i].component_id@ == kk;
                        assert(i != p);
                        assert(old_m[i] == e);
                    }
                    if has_entry(old_m, kk, e) {
                        let i = choose|i: int| 0 <= i < old_m.len() && old_m[i] == e && old_m[i].component_id@ == kk;
                        assert(i != p);
                        assert(m@[i] == e);
                    }
                }
                assert forall|e: ImpactedComponent| has_entry(m@, k, e) <==> e == cand by {
                    if has_entry(m@, k, e) {
                        let i = choose|i: int| 0 <= i < m@.len() && m@[i] == e && m@[i].component_id@ == k;
                        assert(component_keys(m@)[i] == m@[i].component_id@);
                        assert(i == p);
                    }
                    if e == cand {
                        assert(m@[p as int] == e);
                    }
                }
                assert forall|e: ImpactedComponent| has_entry(old_m, k, e) implies e == x by {
                    let i = choose|i: int| 0 <= i < old_m.len() && old_m[i] == e && old_m[i].component_id@ == k;
                    assert(keys[i] == old_m[i].component_id@);
                    assert(i == p);
                }
                assert(!keeps_existing(x, cand));
            }
        } else {
            proof {
                assert forall|e: ImpactedComponent| has_entry(old_m, k, e) implies e == old_m[p as int] by {
                    let i = choose|i: int| 0 <= i < old_m.len() && old_m[i] == e && old_m[i].component_id@ == k;
                    assert(keys[i] == old_m[i].component_id@);
                    assert(i == p);
                }
            }
        }
        return;
    }
    proof {
        assert forall|j: int| 0 <= j < old_m.len() implies keys[j] != k by {
            if j < p {
                crate::text::lemma_seq_lt_asymmetric(keys[j], k);
            } else {
                assert(seq_lt(k, keys[p as int]));
                if j > p {
                    lemma_seq_lt_transitive(k, keys[p as int], keys[j]);
                }
                crate::text::lemma_seq_lt_asymmetric(k, keys[j]);
            }
        }
        if has_key(old_m, k) {
            let i = choose|i: int| 0 <= i < old_m.len() && old_m[i].component_id@ == k;
            assert(keys[i] == old_m[i].component_id@);
        }
    }
    m.insert(p, cand);
    proof {
        let nk = component_keys(m@);
        assert(nk =~= keys.insert(p as int, k));
        assert forall|i: int, j: int| 0 <= i < j < nk.len() implies seq_lt(
            #[trigger] nk[i],
            #[trigger] nk[j],
        ) by {
            if j < p {
            } else if i < p && j == p {
            } else if i < p && j > p {
                assert(nk[j] == keys[j - 1]);
                assert(seq_lt(k, keys[p as int]));
                if j - 1 > p {
                    lemma_seq_lt_transitive(k, keys[p as int], keys[j - 1]);
                }
                lemma_seq_lt_transitive(nk[i], k, nk[j]);
            } else if i == p {
                assert(nk[j] == keys[j - 1]);
                assert(seq_lt(k, keys[p as int]));
                if j - 1 > p {
                    lemma_seq_lt_transitive(k, keys[p as int], keys[j - 1]);
                }
            } else {
                assert(nk[i] == keys[i - 1] && nk[j] == keys[j - 1]);
            }
        }
        assert forall|kk: Seq<char>, e: ImpactedComponent| kk != k implies (has_entry(m@, kk, e)
            <==> has_entry(old_m, kk, e)) by {
            if has_entry(m@, kk, e) {
                let i = choose|i: int| 0 <= i < m@.len() && m@[i] == e && m@[i].component_id@ == kk;
                if i < p {
                    assert(old_m[i] == e);
                } else {
                    assert(i != p);
                    assert(old_m[i - 1] == e);
                }
            }
            if has_entry(old_m, kk, e) {
                let i = choose|i: int| 0 <= i < old_m.len() && old_m[i] == e && old_m[i].component_id@ == kk;
                if i < p {
                    assert(m@[i] == e);
                } else {
                    assert(m@[i + 1] == e);
                }
            }
        }
        assert forall|e: ImpactedComponent| has_entry(m@, k, e) <==> e == cand by {
            if has_entry(m@, k, e) {
                let i = choose|i: int| 0 <= i < m@.len() && m@[i] == e && m@[i].component_id@ == k;
                if i < p {
                    assert(keys[i] == k);
                } else if i > p {
                    assert(keys[i - 1] == k);
                }
            }
            if e == cand {
                assert(m@[p as int] == e);
            }
        }
    }
}

} // verus!
