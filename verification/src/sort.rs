//! Stable presentation order for items keyed by a strict total order.

use vstd::prelude::*;
use vstd::multiset::Multiset;

verus! {

broadcast use vstd::seq_lib::group_to_multiset_ensures;

/// Items with a strict order on their keys.
pub trait Ranked: View + Sized {
    /// Whether `self` is presented before `other`.
    spec fn precedes(&self, other: &Self) -> bool;

    /// The order is irreflexive and asymmetric.
    proof fn lemma_precedes_strict(a: Self, b: Self)
        ensures
            !a.precedes(&a),
            !(a.precedes(&b) && b.precedes(&a)),
    ;

    /// The order is transitive.
    proof fn lemma_precedes_transitive(a: Self, b: Self, c: Self)
        requires
            a.precedes(&b),
            b.precedes(&c),
        ensures
            a.precedes(&c),
    ;

    /// Whether `self` is presented before `other`.
    fn ranks_before(&self, other: &Self) -> (before: bool)
        ensures
            before == self.precedes(other),
    ;
}

/// Whether `a` and `b` are ordered one way or the other (their keys differ).
pub open spec fn comparable<T: Ranked>(a: T, b: T) -> bool {
    a.precedes(&b) || b.precedes(&a)
}

/// Whether every element precedes every later one.
pub open spec fn strictly_sorted<T: Ranked>(s: Seq<T>) -> bool {
    forall|i: int, j: int| #![trigger s[i], s[j]] 0 <= i < j < s.len() ==> s[i].precedes(&s[j])
}

/// Whether every two elements at different positions are comparable.
pub open spec fn pairwise_comparable<T: Ranked>(s: Seq<T>) -> bool {
    forall|i: int, j: int|
        0 <= i < s.len() && 0 <= j < s.len() && i != j ==> comparable(#[trigger] s[i], #[trigger] s[j])
}

/// The views of a sequence's elements.
pub open spec fn views<T: View>(s: Seq<T>) -> Seq<T::V> {
    s.map_values(|x: T| x@)
}

/// Put items with pairwise distinct keys into their strict order, keeping
/// exactly the same items.
pub fn sort_ranked<T: Ranked>(items: Vec<T>) -> (sorted: Vec<T>)
    requires
        pairwise_comparable(items@),
    ensures
        strictly_sorted(sorted@),
        views(sorted@).to_multiset() == views(items@).to_multiset(),
        sorted@.len() == items@.len(),
{
    let ghost input = items@;
    let mut rest = items;
    let mut out: Vec<T> = Vec::new();
    proof {
        assert(views(out@) =~= Seq::<T::V>::empty());
        assert(views(out@).to_multiset() =~= vstd::multiset::Multiset::empty());
        assert(views(out@).to_multiset().add(views(rest@).to_multiset()) =~= views(
            input,
        ).to_multiset());
    }
    while rest.len() > 0
        invariant
            strictly_sorted(out@),
            pairwise_comparable(rest@),
            forall|a: int, b: int|
                0 <= a < out@.len() && 0 <= b < rest@.len() ==> comparable(
                    #[trigger] out@[a],
                    #[trigger] rest@[b],
                ),
            views(out@).to_multiset().add(views(rest@).to_multiset()) == views(input).to_multiset(),
            out@.len() + rest@.len() == input.len(),
        decreases rest@.len(),
    {
        let ghost before_rest = rest@;
        let ghost before_out = out@;
        let item = rest.pop().unwrap();
        proof {
            assert(rest@ =~= before_rest.drop_last());
            assert(item == before_rest.last());
            assert(before_rest =~= rest@.push(item));
            assert(views(before_rest) =~= views(rest@).push(item@));
        }
        let mut p: usize = 0;
        while p < out.len()
            invariant
                p <= out@.len(),
                out@ == before_out,
                forall|j: int| #![trigger out@[j]] 0 <= j < p ==> !item.precedes(&out@[j]),
            ensures
                p <= out@.len(),
                forall|j: int| #![trigger out@[j]] 0 <= j < p ==> !item.precedes(&out@[j]),
                p < out@.len() ==> item.precedes(&out@[p as int]),
            decreases out@.len() - p,
        {
            if item.ranks_before(&out[p]) {
                break;
            }
            p = p + 1;
        }
        proof {
            let n = before_rest.len() - 1;
            assert forall|j: int| #![trigger before_out[j]] 0 <= j < p implies before_out[j].precedes(&item) by {
                assert(comparable(before_out[j], before_rest[n]));
            }
            assert forall|j: int| #![trigger before_out[j]] p <= j < before_out.len() implies item.precedes(
                &before_out[j],
            ) by {
                if j > p {
                    T::lemma_precedes_transitive(item, before_out[p as int], before_out[j]);
                }
            }
        }
        out.insert(p, item);
        proof {
            let s = out@;
            assert(s =~= before_out.insert(p as int, item));
            assert forall|i: int, j: int| #![trigger s[i], s[j]] 0 <= i < j < s.len() implies s[i].precedes(
                &s[j],
            ) by {
                if j < p {
                    assert(s[i] == before_out[i] && s[j] == before_out[j]);
                } else if j == p {
                    assert(s[i] == before_out[i] && s[j] == item);
                } else if i < p {
                    assert(s[i] == before_out[i] && s[j] == before_out[j - 1]);
                    assert(before_out[i].precedes(&item));
                    assert(item.precedes(&before_out[j - 1]));
                    T::lemma_precedes_transitive(before_out[i], item, before_out[j - 1]);
                } else if i == p {
                    assert(s[i] == item && s[j] == before_out[j - 1]);
                } else {
                    assert(s[i] == before_out[i - 1] && s[j] == before_out[j - 1]);
                }
            }
            assert(views(s) =~= views(before_out).insert(p as int, item@));
            assert forall|a: int, b: int| 0 <= a < s.len() && 0 <= b < rest@.len() implies comparable(
                #[trigger] s[a],
                #[trigger] rest@[b],
            ) by {
                if a < p {
                    assert(s[a] == before_out[a]);
                    assert(rest@[b] == before_rest[b]);
                } else if a == p {
                    assert(rest@[b] == before_rest[b]);
                    assert(comparable(before_rest[b], before_rest[before_rest.len() - 1]));
                } else {
                    assert(s[a] == before_out[a - 1]);
                    assert(rest@[b] == before_rest[b]);
                }
            }
            assert forall|i: int, j: int|
                0 <= i < rest@.len() && 0 <= j < rest@.len() && i != j implies comparable(
                #[trigger] rest@[i],
                #[trigger] rest@[j],
            ) by {
                assert(rest@[i] == before_rest[i] && rest@[j] == before_rest[j]);
            }
            assert(views(s).to_multiset() == views(before_out).to_multiset().insert(item@));
            assert(views(before_rest).to_multiset() == views(rest@).to_multiset().insert(item@));
            assert(views(s).to_multiset().add(views(rest@).to_multiset()) =~= views(
                before_out,
            ).to_multiset().add(views(before_rest).to_multiset()));
        }
    }
    proof {
        assert(views(rest@) =~= Seq::<T::V>::empty());
        assert(views(rest@).to_multiset() =~= vstd::multiset::Multiset::empty());
        assert(views(out@).to_multiset().add(views(rest@).to_multiset()) =~= views(out@).to_multiset());
    }
    out
}

/// Whether `lt` is a strict order: irreflexive and transitive.
pub open spec fn strict_order<V>(lt: spec_fn(V, V) -> bool) -> bool {
    &&& forall|x: V| !(#[trigger] lt(x, x))
    &&& forall|x: V, y: V, z: V| #[trigger] lt(x, y) && #[trigger] lt(y, z) ==> lt(x, z)
}

/// Whether every element of `s` comes before every later one under `lt`.
pub open spec fn ordered_by<V>(s: Seq<V>, lt: spec_fn(V, V) -> bool) -> bool {
    forall|i: int, j: int| #![trigger s[i], s[j]] 0 <= i < j < s.len() ==> lt(s[i], s[j])
}

/// The arrangement of `items` in ascending order under `lt`. When the items
/// can be so arranged at all, the arrangement is the only one
/// (see [`lemma_arrangement`]).
pub open spec fn arrangement<V>(items: Multiset<V>, lt: spec_fn(V, V) -> bool) -> Seq<V> {
    choose|s: Seq<V>| ordered_by(s, lt) && s.to_multiset() == items
}

/// Two ascending arrangements of the same items are the same sequence.
pub proof fn lemma_ordered_unique<V>(a: Seq<V>, b: Seq<V>, lt: spec_fn(V, V) -> bool)
    requires
        strict_order(lt),
        ordered_by(a, lt),
        ordered_by(b, lt),
        a.to_multiset() == b.to_multiset(),
    ensures
        a == b,
    decreases a.len(),
{
    a.to_multiset_ensures();
    b.to_multiset_ensures();
    if a.len() == 0 {
        assert(b.len() == 0);
        assert(a =~= b);
    } else {
        assert(b.len() == a.len());
        let x = a[0];
        let y = b[0];
        assert(a.contains(x));
        assert(a.to_multiset().count(x) > 0);
        assert(b.contains(x));
        let k = choose|k: int| 0 <= k < b.len() && b[k] == x;
        assert(b.contains(y));
        assert(b.to_multiset().count(y) > 0);
        assert(a.contains(y));
        let m = choose|m: int| 0 <= m < a.len() && a[m] == y;
        if x != y {
            assert(k != 0 && m != 0);
            assert(lt(b[0], b[k]));
            assert(lt(a[0], a[m]));
            assert(lt(y, x) && lt(x, y));
            assert(lt(x, x));
        }
        assert(x == y);
        let ra = a.drop_first();
        let rb = b.drop_first();
        assert(a =~= seq![x] + ra);
        assert(b =~= seq![x] + rb);
        assert(a.remove(0) =~= ra);
        assert(b.remove(0) =~= rb);
        assert(ra.to_multiset() =~= a.to_multiset().remove(x));
        assert(rb.to_multiset() =~= b.to_multiset().remove(x));
        assert(ordered_by(ra, lt)) by {
            assert forall|i: int, j: int| #![trigger ra[i], ra[j]] 0 <= i < j < ra.len() implies lt(ra[i], ra[j]) by {
                assert(ra[i] == a[i + 1] && ra[j] == a[j + 1]);
            }
        }
        assert(ordered_by(rb, lt)) by {
            assert forall|i: int, j: int| #![trigger rb[i], rb[j]] 0 <= i < j < rb.len() implies lt(rb[i], rb[j]) by {
                assert(rb[i] == b[i + 1] && rb[j] == b[j + 1]);
            }
        }
        lemma_ordered_unique(ra, rb, lt);
    }
}

/// An ascending sequence is the arrangement of its own items.
pub proof fn lemma_arrangement<V>(s: Seq<V>, lt: spec_fn(V, V) -> bool)
    requires
        strict_order(lt),
        ordered_by(s, lt),
    ensures
        arrangement(s.to_multiset(), lt) == s,
{
    let chosen = arrangement(s.to_multiset(), lt);
    assert(ordered_by(s, lt) && s.to_multiset() == s.to_multiset());
    assert(ordered_by(chosen, lt) && chosen.to_multiset() == s.to_multiset());
    lemma_ordered_unique(chosen, s, lt);
}

} // verus!
