use vstd::prelude::*;

use crate::text::{lemma_seq_lt_asymmetric, lemma_seq_lt_total, lemma_seq_lt_transitive, seq_lt, text_eq, text_less};

verus! {

/// The texts of a list of strings.
pub open spec fn views(v: Seq<String>) -> Seq<Seq<char>> {
    v.map_values(|s: String| s@)
}

/// Strictly increasing in the order of `String`.
pub open spec fn strictly_sorted(s: Seq<Seq<char>>) -> bool {
    forall|i: int, j: int| 0 <= i < j < s.len() ==> seq_lt(#[trigger] s[i], #[trigger] s[j])
}

/// The texts of `v` that are not empty.
pub open spec fn nonempty_texts(v: Seq<Seq<char>>) -> Set<Seq<char>> {
    v.to_set().filter(|t: Seq<char>| t.len() > 0)
}

/// `ids` as a set with empty identifiers left out, in increasing order (what
/// collecting non-empty identifiers into a `BTreeSet` gives).
pub open spec fn is_id_set_of(r: Seq<Seq<char>>, ids: Seq<Seq<char>>) -> bool {
    strictly_sorted(r) && r.to_set() == nonempty_texts(ids)
}

pub proof fn lemma_strictly_sorted_no_duplicates(s: Seq<Seq<char>>)
    requires
        strictly_sorted(s),
    ensures
        s.no_duplicates(),
{
    assert forall|i: int, j: int| 0 <= i < s.len() && 0 <= j < s.len() && i != j implies s[i]
        != s[j] by {
        if i < j {
            lemma_seq_lt_asymmetric(s[i], s[j]);
        } else {
            lemma_seq_lt_asymmetric(s[j], s[i]);
        }
    }
}

/// A strictly increasing list is determined by the set of its texts.
pub proof fn lemma_strictly_sorted_unique(a: Seq<Seq<char>>, b: Seq<Seq<char>>)
    requires
        strictly_sorted(a),
        strictly_sorted(b),
        a.to_set() == b.to_set(),
    ensures
        a == b,
    decreases a.len(),
{
    if a.len() == 0 {
        if b.len() > 0 {
            assert(b.to_set().contains(b[0]));
        }
        assert(a =~= b);
    } else {
        if b.len() == 0 {
            assert(a.to_set().contains(a[0]));
        }
        let x = a.last();
        let y = b.last();
        assert(a.to_set().contains(x));
        assert(b.to_set().contains(y));
        if x != y {
            let i = choose|i: int| 0 <= i < b.len() && b[i] == x;
            let j = choose|j: int| 0 <= j < a.len() && a[j] == y;
            assert(i != b.len() - 1);
            assert(j != a.len() - 1);
            assert(seq_lt(b[i], b[b.len() - 1]));
            assert(seq_lt(a[j], a[a.len() - 1]));
            lemma_seq_lt_asymmetric(x, y);
        }
        lemma_strictly_sorted_no_duplicates(a);
        lemma_strictly_sorted_no_duplicates(b);
        let a1 = a.drop_last();
        let b1 = b.drop_last();
        assert(strictly_sorted(a1)) by {
            assert forall|i: int, j: int| 0 <= i < j < a1.len() implies seq_lt(#[trigger] a1[i], #[trigger] a1[j]) by {
                assert(a1[i] == a[i] && a1[j] == a[j]);
            }
        }
        assert(strictly_sorted(b1)) by {
            assert forall|i: int, j: int| 0 <= i < j < b1.len() implies seq_lt(#[trigger] b1[i], #[trigger] b1[j]) by {
                assert(b1[i] == b[i] && b1[j] == b[j]);
            }
        }
        assert(a1.to_set() =~= b1.to_set()) by {
            assert forall|t: Seq<char>| a1.to_set().contains(t) implies b1.to_set().contains(t) by {
                let i = choose|i: int| 0 <= i < a1.len() && a1[i] == t;
                assert(a[i] == t);
                assert(t != x);
                assert(b.to_set().contains(t));
                let k = choose|k: int| 0 <= k < b.len() && b[k] == t;
                assert(k != b.len() - 1);
                assert(b1[k] == t);
            }
            assert forall|t: Seq<char>| b1.to_set().contains(t) implies a1.to_set().contains(t) by {
                let i = choose|i: int| 0 <= i < b1.len() && b1[i] == t;
                assert(b[i] == t);
                assert(t != y);
                assert(a.to_set().contains(t));
                let k = choose|k: int| 0 <= k < a.len() && a[k] == t;
                assert(k != a.len() - 1);
                assert(a1[k] == t);
            }
        }
        lemma_strictly_sorted_unique(a1, b1);
        assert(a =~= a1.push(x));
        assert(b =~= b1.push(y));
    }
}

/// Inserts a text into a strictly increasing list, unless it is already there.
pub fn insert_sorted_unique(v: &mut Vec<String>, s: String)
    requires
        strictly_sorted(views(old(v)@)),
    ensures
        strictly_sorted(views(final(v)@)),
        views(final(v)@).to_set() == views(old(v)@).to_set().insert(s@),
{
    let ghost old_v = views(v@);
    let mut p: usize = 0;
    while p < v.len() && text_less(v[p].as_str(), s.as_str())
        invariant
            p <= v@.len(),
            views(v@) == old_v,
            strictly_sorted(old_v),
            forall|j: int| 0 <= j < p ==> seq_lt(#[trigger] old_v[j], s@),
        decreases v@.len() - p,
    {
        p = p + 1;
    }
    if p < v.len() && text_eq(v[p].as_str(), s.as_str()) {
        assert(old_v[p as int] == s@);
        assert(old_v.to_set().insert(s@) =~= old_v.to_set());
        return;
    }
    proof {
        if p < old_v.len() {
            lemma_seq_lt_total(old_v[p as int], s@);
        }
    }
    v.insert(p, s);
    let ghost new_v = views(v@);
    assert(new_v =~= old_v.insert(p as int, s@));
    proof {
        assert forall|i: int, j: int| 0 <= i < j < new_v.len() implies seq_lt(
            #[trigger] new_v[i],
            #[trigger] new_v[j],
        ) by {
            if j < p {
            } else if i < p && j == p {
            } else if i < p && j > p {
                assert(new_v[j] == old_v[j - 1]);
                if p < old_v.len() {
                    assert(seq_lt(s@, old_v[p as int]));
                    if j - 1 > p {
                        lemma_seq_lt_transitive(s@, old_v[p as int], old_v[j - 1]);
                    }
                }
                lemma_seq_lt_transitive(new_v[i], s@, new_v[j]);
            } else if i == p {
                assert(new_v[j] == old_v[j - 1]);
                assert(seq_lt(s@, old_v[p as int]));
                if j - 1 > p {
                    lemma_seq_lt_transitive(s@, old_v[p as int], old_v[j - 1]);
                }
            } else {
                assert(new_v[i] == old_v[i - 1] && new_v[j] == old_v[j - 1]);
            }
        }
        crate::text::lemma_push_to_set(old_v, s@);
        assert forall|t: Seq<char>| new_v.to_set().contains(t) <==> old_v.to_set().insert(
            s@,
        ).contains(t) by {
            if new_v.to_set().contains(t) {
                let k = choose|k: int| 0 <= k < new_v.len() && new_v[k] == t;
                if k < p {
                    assert(old_v[k] == t);
                } else if k > p {
                    assert(old_v[k - 1] == t);
                }
            }
            if old_v.to_set().contains(t) {
                let k = choose|k: int| 0 <= k < old_v.len() && old_v[k] == t;
                if k < p {
                    assert(new_v[k] == t);
                } else {
                    assert(new_v[k + 1] == t);
                }
            }
            if t == s@ {
                assert(new_v[p as int] == t);
            }
        }
        assert(new_v.to_set() =~= old_v.to_set().insert(s@));
    }
}

/// The non-empty identifiers of `ids`, without repetition, in increasing order.
pub fn sorted_id_set(ids: Vec<String>) -> (r: Vec<String>)
    ensures
        is_id_set_of(views(r@), views(ids@)),
{
    let mut r: Vec<String> = Vec::new();
    let mut i: usize = 0;
    let ghost all = views(ids@);
    assert(all.take(0).to_set() =~= Set::<Seq<char>>::empty());
    assert(views(r@).to_set() =~= Set::<Seq<char>>::empty());
    while i < ids.len()
        invariant
            i <= ids@.len(),
            all == views(ids@),
            strictly_sorted(views(r@)),
            views(r@).to_set() == nonempty_texts(all.take(i as int)),
        decreases ids@.len() - i,
    {
        let s = ids[i].clone();
        let empty = s.as_str().unicode_len() == 0;
        let ghost before = views(r@).to_set();
        proof {
            crate::text::lemma_push_to_set(all.take(i as int), all[i as int]);
            assert(all.take(i + 1) =~= all.take(i as int).push(all[i as int]));
        }
        if !empty {
            insert_sorted_unique(&mut r, s);
            assert(nonempty_texts(all.take(i + 1)) =~= nonempty_texts(all.take(i as int)).insert(
                all[i as int],
            ));
        } else {
            assert(nonempty_texts(all.take(i + 1)) =~= nonempty_texts(all.take(i as int)));
        }
        i = i + 1;
    }
    assert(all.take(ids@.len() as int) =~= all);
    r
}

/// The identifier set of a single identifier.
pub fn single_id_set(id: &String) -> (r: Vec<String>)
    ensures
        is_id_set_of(views(r@), seq![id@]),
        id@.len() > 0 ==> views(r@) == seq![id@],
        id@.len() == 0 ==> r@.len() == 0,
{
    let mut v: Vec<String> = Vec::new();
    v.push(id.clone());
    assert(views(v@) =~= seq![id@]);
    let r = sorted_id_set(v);
    proof {
        let s = seq![id@];
        assert(s.to_set() =~= Set::empty().insert(id@)) by {
            assert(s.to_set().contains(id@)) by {
                assert(s[0] == id@);
            }
        }
        if id@.len() > 0 {
            assert(nonempty_texts(s) =~= Set::empty().insert(id@));
            assert(views(r@).to_set().contains(id@));
            lemma_strictly_sorted_no_duplicates(views(r@));
            views(r@).unique_seq_to_set();
            assert(views(r@).to_set().len() == 1) by {
                assert(Set::<Seq<char>>::empty().insert(id@).len() == 1);
            }
            assert(views(r@).len() == 1);
            let k = choose|k: int| 0 <= k < views(r@).len() && views(r@)[k] == id@;
            assert(views(r@) =~= seq![id@]);
        } else {
            assert(nonempty_texts(s) =~= Set::empty());
            if r@.len() > 0 {
                assert(views(r@).to_set().contains(views(r@)[0]));
            }
        }
    }
    r
}

} // verus!
