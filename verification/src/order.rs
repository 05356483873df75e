use vstd::prelude::*;
use vstd::multiset::Multiset;
use crate::text::{lemma_seq_lt_total, lemma_seq_lt_transitive, seq_le, seq_lt, text_eq, text_less};

verus! {

/// A total preorder on a type, with an executable test.
pub trait Ordered: Sized {
    spec fn le(self, other: Self) -> bool;

    proof fn lemma_le_transitive(a: Self, b: Self, c: Self)
        requires
            a.le(b),
            b.le(c),
        ensures
            a.le(c),
    ;

    proof fn lemma_le_total(a: Self, b: Self)
        ensures
            a.le(b) || b.le(a),
    ;

    fn le_exec(&self, other: &Self) -> (r: bool)
        ensures
            r == self.le(*other),
    ;
}

/// An equivalence used to drop consecutive repetitions.
pub trait SameItem: Sized {
    spec fn same(self, other: Self) -> bool;

    fn same_exec(&self, other: &Self) -> (r: bool)
        ensures
            r == self.same(*other),
    ;
}

/// Every element is ordered before every later element.
pub open spec fn sorted<T: Ordered>(s: Seq<T>) -> bool {
    forall|i: int, j: int| 0 <= i < j < s.len() ==> (#[trigger] s[i]).le(#[trigger] s[j])
}

/// What `Vec::dedup_by` keeps: an element is dropped when it is the same as the
/// last element kept before it.
pub open spec fn dedup_spec<T: SameItem>(s: Seq<T>) -> Seq<T>
    decreases s.len(),
{
    if s.len() == 0 {
        s
    } else {
        let prev = dedup_spec(s.drop_last());
        if prev.len() > 0 && s.last().same(prev.last()) {
            prev
        } else {
            prev.push(s.last())
        }
    }
}

proof fn lemma_sorted_insert<T: Ordered>(r: Seq<T>, x: T, p: int)
    requires
        sorted(r),
        0 <= p <= r.len(),
        forall|j: int| 0 <= j < p ==> (#[trigger] r[j]).le(x),
        forall|j: int| p <= j < r.len() ==> x.le(#[trigger] r[j]),
    ensures
        sorted(r.insert(p, x)),
{
    let s = r.insert(p, x);
    assert forall|i: int, j: int| 0 <= i < j < s.len() implies (#[trigger] s[i]).le(
        #[trigger] s[j],
    ) by {
        if i < p && j == p {
            assert(s[i] == r[i]);
        } else if i == p {
            assert(s[j] == r[j - 1]);
        } else if i < p && j > p {
            assert(s[i] == r[i]);
            assert(s[j] == r[j - 1]);
        } else if j < p {
            assert(s[i] == r[i] && s[j] == r[j]);
        } else {
            assert(s[i] == r[i - 1] && s[j] == r[j - 1]);
        }
    }
}

/// A stable sort: the result is ordered and holds the same elements.
pub fn sort_items<T: Ordered>(v: Vec<T>) -> (r: Vec<T>)
    ensures
        sorted(r@),
        r@.to_multiset() == v@.to_multiset(),
        r@.len() == v@.len(),
{
    let mut rest = v;
    let ghost orig = rest@;
    let mut out: Vec<T> = Vec::new();
    broadcast use vstd::seq_lib::group_to_multiset_ensures;

    while rest.len() > 0
        invariant
            sorted(out@),
            out@.to_multiset().add(rest@.to_multiset()) == orig.to_multiset(),
            out@.len() + rest@.len() == orig.len(),
        decreases rest@.len(),
    {
        let ghost before_rest = rest@;
        let x = rest.remove(0);
        assert(before_rest.remove(0) =~= rest@);
        proof {
            before_rest.to_multiset_ensures();
        }
        assert(before_rest.contains(x)) by {
            assert(before_rest[0] == x);
        }
        assert(before_rest.to_multiset().count(x) > 0);
        assert(rest@.to_multiset() =~= before_rest.to_multiset().remove(x));
        let mut p = out.len();
        while p > 0 && !out[p - 1].le_exec(&x)
            invariant
                p <= out@.len(),
                sorted(out@),
                forall|j: int| p <= j < out@.len() ==> !(#[trigger] out@[j]).le(x),
            decreases p,
        {
            p = p - 1;
        }
        proof {
            assert forall|j: int| p <= j < out@.len() implies x.le(#[trigger] out@[j]) by {
                T::lemma_le_total(x, out@[j]);
            }
            assert forall|j: int| 0 <= j < p implies (#[trigger] out@[j]).le(x) by {
                if j < p - 1 {
                    T::lemma_le_transitive(out@[j], out@[p - 1], x);
                }
            }
            lemma_sorted_insert(out@, x, p as int);
        }
        let ghost before_out = out@;
        out.insert(p, x);
        proof {
            before_out.insert_ensures(p as int, x);
            assert(out@.to_multiset() =~= before_out.to_multiset().insert(x)) by {
                assert(out@.remove(p as int) =~= before_out);
                out@.to_multiset_ensures();
                assert(out@[p as int] == x);
                assert(out@.contains(x));
                assert(out@.to_multiset().count(x) > 0);
                assert(before_out.to_multiset() =~= out@.to_multiset().remove(x));
            }
            assert(out@.to_multiset().add(rest@.to_multiset()) =~= orig.to_multiset());
        }
    }
    out
}

/// `Vec::dedup_by`: drops every element that is the same as the last one kept.
pub fn dedup_items<T: SameItem>(v: Vec<T>) -> (r: Vec<T>)
    ensures
        r@ == dedup_spec(v@),
{
    let mut rest = v;
    let ghost orig = rest@;
    let mut out: Vec<T> = Vec::new();
    let mut taken: usize = 0;
    assert(orig.take(0) =~= Seq::<T>::empty());
    assert(orig.len() == rest.len());
    while rest.len() > 0
        invariant
            orig.len() <= usize::MAX,
            taken <= orig.len(),
            rest@ == orig.skip(taken as int),
            out@ == dedup_spec(orig.take(taken as int)),
        decreases rest@.len(),
    {
        let x = rest.remove(0);
        assert(x == orig[taken as int]);
        assert(orig.take(taken + 1).drop_last() =~= orig.take(taken as int));
        let keep = if out.len() > 0 {
            !x.same_exec(&out[out.len() - 1])
        } else {
            true
        };
        if keep {
            out.push(x);
        }
        assert(rest@ =~= orig.skip(taken + 1));
        taken = taken + 1;
    }
    assert(orig.take(taken as int) =~= orig);
    out
}

/// Elements kept by `dedup_spec` come from the input, in order.
pub proof fn lemma_dedup_subset<T: SameItem>(s: Seq<T>)
    ensures
        forall|i: int| 0 <= i < dedup_spec(s).len() ==> s.contains(#[trigger] dedup_spec(s)[i]),
        dedup_spec(s).len() <= s.len(),
    decreases s.len(),
{
    if s.len() > 0 {
        lemma_dedup_subset(s.drop_last());
        let prev = dedup_spec(s.drop_last());
        assert forall|i: int| 0 <= i < dedup_spec(s).len() implies s.contains(
            #[trigger] dedup_spec(s)[i],
        ) by {
            if i < prev.len() {
                assert(s.drop_last().contains(prev[i]));
                let k = choose|k: int| 0 <= k < s.drop_last().len() && s.drop_last()[k] == prev[i];
                assert(s[k] == prev[i]);
            } else {
                assert(s[s.len() - 1] == s.last());
            }
        }
    }
}

/// Every input element is kept or is the same as a kept element.
pub proof fn lemma_dedup_covers<T: SameItem>(s: Seq<T>)
    ensures
        forall|i: int|
            0 <= i < s.len() ==> dedup_spec(s).contains(#[trigger] s[i]) || exists|j: int|
                0 <= j < dedup_spec(s).len() && s[i].same(#[trigger] dedup_spec(s)[j]),
    decreases s.len(),
{
    if s.len() > 0 {
        lemma_dedup_covers(s.drop_last());
        let prev = dedup_spec(s.drop_last());
        let cur = dedup_spec(s);
        assert(prev.is_prefix_of(cur));
        assert forall|i: int| 0 <= i < s.len() implies cur.contains(#[trigger] s[i]) || exists|
            j: int,
        | 0 <= j < cur.len() && s[i].same(#[trigger] cur[j]) by {
            if i < s.len() - 1 {
                assert(s[i] == s.drop_last()[i]);
                if prev.contains(s[i]) {
                    let k = choose|k: int| 0 <= k < prev.len() && prev[k] == s[i];
                    assert(cur[k] == s[i]);
                } else {
                    let k = choose|k: int| 0 <= k < prev.len() && s[i].same(prev[k]);
                    assert(cur[k] == prev[k]);
                }
            } else {
                if prev.len() > 0 && s.last().same(prev.last()) {
                    assert(cur[prev.len() - 1] == prev.last());
                } else {
                    assert(cur[prev.len() as int] == s.last());
                }
            }
        }
    }
}

} // verus!

verus! {

/// Two sequences with the same multiset hold the same elements.
pub proof fn lemma_same_elements<T>(a: Seq<T>, b: Seq<T>)
    requires
        a.to_multiset() == b.to_multiset(),
    ensures
        forall|x: T| a.contains(x) <==> b.contains(x),
{
    a.to_multiset_ensures();
    b.to_multiset_ensures();
    assert forall|x: T| a.contains(x) <==> b.contains(x) by {
        let ca = a.to_multiset().count(x);
        let cb = b.to_multiset().count(x);
        assert(ca == cb);
        assert(a.contains(x) <==> ca > 0);
        assert(b.contains(x) <==> cb > 0);
    }
}

/// Mapping every element keeps two sequences with the same multiset alike.
pub proof fn lemma_map_multiset<A, B>(a: Seq<A>, b: Seq<A>, f: spec_fn(A) -> B)
    requires
        a.to_multiset() == b.to_multiset(),
    ensures
        a.map_values(f).to_multiset() == b.map_values(f).to_multiset(),
    decreases a.len(),
{
    broadcast use vstd::seq_lib::group_to_multiset_ensures;
    broadcast use vstd::multiset::group_multiset_axioms;

    if a.len() == 0 {
        assert(b.len() == a.to_multiset().len());
        assert(a.map_values(f) =~= Seq::<B>::empty());
        assert(b.map_values(f) =~= Seq::<B>::empty());
    } else {
        let x = a.last();
        let a2 = a.drop_last();
        assert(a =~= a2.push(x));
        assert(a.to_multiset().count(x) > 0);
        assert(b.contains(x));
        let j = choose|j: int| 0 <= j < b.len() && b[j] == x;
        let b2 = b.remove(j);
        vstd::seq_lib::to_multiset_remove(b, j);
        assert(a2.to_multiset() =~= a.to_multiset().remove(x));
        lemma_map_multiset(a2, b2, f);
        assert(a.map_values(f) =~= a2.map_values(f).push(f(x)));
        assert(b.map_values(f) =~= b2.map_values(f).insert(j, f(x)));
        vstd::seq_lib::to_multiset_insert(b2.map_values(f), j, f(x));
    }
}

/// Order by a number, then by a first text, then by a second text.
pub open spec fn key_le(r1: u32, a1: Seq<char>, b1: Seq<char>, r2: u32, a2: Seq<char>, b2: Seq<char>) -> bool {
    ||| r1 < r2
    ||| r1 == r2 && seq_lt(a1, a2)
    ||| r1 == r2 && a1 == a2 && seq_le(b1, b2)
}

pub proof fn lemma_key_le_transitive(
    r1: u32, a1: Seq<char>, b1: Seq<char>,
    r2: u32, a2: Seq<char>, b2: Seq<char>,
    r3: u32, a3: Seq<char>, b3: Seq<char>,
)
    requires
        key_le(r1, a1, b1, r2, a2, b2),
        key_le(r2, a2, b2, r3, a3, b3),
    ensures
        key_le(r1, a1, b1, r3, a3, b3),
{
    if seq_lt(a1, a2) && seq_lt(a2, a3) {
        lemma_seq_lt_transitive(a1, a2, a3);
    }
    if seq_lt(b1, b2) && seq_lt(b2, b3) {
        lemma_seq_lt_transitive(b1, b2, b3);
    }
}

pub proof fn lemma_key_le_total(r1: u32, a1: Seq<char>, b1: Seq<char>, r2: u32, a2: Seq<char>, b2: Seq<char>)
    ensures
        key_le(r1, a1, b1, r2, a2, b2) || key_le(r2, a2, b2, r1, a1, b1),
{
    lemma_seq_lt_total(a1, a2);
    lemma_seq_lt_total(b1, b2);
}

pub fn key_le_exec(r1: u32, a1: &str, b1: &str, r2: u32, a2: &str, b2: &str) -> (r: bool)
    ensures
        r == key_le(r1, a1@, b1@, r2, a2@, b2@),
{
    if r1 != r2 {
        return r1 < r2;
    }
    if text_less(a1, a2) {
        return true;
    }
    if !text_eq(a1, a2) {
        return false;
    }
    text_less(b1, b2) || text_eq(b1, b2)
}

/// Order by a number, then by three texts in turn.
pub open spec fn key4_le(
    r1: u32, a1: Seq<char>, b1: Seq<char>, c1: Seq<char>,
    r2: u32, a2: Seq<char>, b2: Seq<char>, c2: Seq<char>,
) -> bool {
    ||| r1 < r2
    ||| r1 == r2 && seq_lt(a1, a2)
    ||| r1 == r2 && a1 == a2 && seq_lt(b1, b2)
    ||| r1 == r2 && a1 == a2 && b1 == b2 && seq_le(c1, c2)
}

pub proof fn lemma_key4_le_transitive(
    r1: u32, a1: Seq<char>, b1: Seq<char>, c1: Seq<char>,
    r2: u32, a2: Seq<char>, b2: Seq<char>, c2: Seq<char>,
    r3: u32, a3: Seq<char>, b3: Seq<char>, c3: Seq<char>,
)
    requires
        key4_le(r1, a1, b1, c1, r2, a2, b2, c2),
        key4_le(r2, a2, b2, c2, r3, a3, b3, c3),
    ensures
        key4_le(r1, a1, b1, c1, r3, a3, b3, c3),
{
    if seq_lt(a1, a2) && seq_lt(a2, a3) {
        lemma_seq_lt_transitive(a1, a2, a3);
    }
    if seq_lt(b1, b2) && seq_lt(b2, b3) {
        lemma_seq_lt_transitive(b1, b2, b3);
    }
    if seq_lt(c1, c2) && seq_lt(c2, c3) {
        lemma_seq_lt_transitive(c1, c2, c3);
    }
}

pub proof fn lemma_key4_le_total(
    r1: u32, a1: Seq<char>, b1: Seq<char>, c1: Seq<char>,
    r2: u32, a2: Seq<char>, b2: Seq<char>, c2: Seq<char>,
)
    ensures
        key4_le(r1, a1, b1, c1, r2, a2, b2, c2) || key4_le(r2, a2, b2, c2, r1, a1, b1, c1),
{
    lemma_seq_lt_total(a1, a2);
    lemma_seq_lt_total(b1, b2);
    lemma_seq_lt_total(c1, c2);
}

pub fn key4_le_exec(r1: u32, a1: &str, b1: &str, c1: &str, r2: u32, a2: &str, b2: &str, c2: &str) -> (r: bool)
    ensures
        r == key4_le(r1, a1@, b1@, c1@, r2, a2@, b2@, c2@),
{
    if r1 != r2 {
        return r1 < r2;
    }
    if text_less(a1, a2) {
        return true;
    }
    if !text_eq(a1, a2) {
        return false;
    }
    if text_less(b1, b2) {
        return true;
    }
    if !text_eq(b1, b2) {
        return false;
    }
    text_less(c1, c2) || text_eq(c1, c2)
}

/// Dropping repetitions from an ordered sequence leaves it ordered.
pub proof fn lemma_dedup_sorted<T: Ordered + SameItem>(s: Seq<T>)
    requires
        sorted(s),
    ensures
        sorted(dedup_spec(s)),
    decreases s.len(),
{
    if s.len() > 0 {
        let prev = dedup_spec(s.drop_last());
        assert(sorted(s.drop_last())) by {
            assert forall|i: int, j: int| 0 <= i < j < s.drop_last().len() implies (#[trigger] s.drop_last()[i]).le(#[trigger] s.drop_last()[j]) by {
                assert(s[i] == s.drop_last()[i] && s[j] == s.drop_last()[j]);
            }
        }
        lemma_dedup_sorted(s.drop_last());
        lemma_dedup_subset(s.drop_last());
        let cur = dedup_spec(s);
        if !(prev.len() > 0 && s.last().same(prev.last())) {
            assert forall|i: int, j: int| 0 <= i < j < cur.len() implies (#[trigger] cur[i]).le(#[trigger] cur[j]) by {
                if j == cur.len() - 1 {
                    assert(cur[i] == prev[i]);
                    assert(s.drop_last().contains(prev[i]));
                    let k = choose|k: int| 0 <= k < s.drop_last().len() && s.drop_last()[k] == prev[i];
                    assert(s[k] == prev[i]);
                    assert(cur[j] == s[s.len() - 1]);
                } else {
                    assert(cur[i] == prev[i] && cur[j] == prev[j]);
                }
            }
        }
    }
}

} // verus!
