//! Generic sequence facts used by the shell models.

use vstd::prelude::*;
use vstd::multiset::Multiset;
use vstd::seq_lib::{commutative_foldl, lemma_fold_left_permutation};

verus! {

/// Index of the first element of `s` satisfying `p`, or `-1` when none does.
pub open spec fn first_index<T>(s: Seq<T>, p: spec_fn(T) -> bool) -> int
    decreases s.len(),
{
    if s.len() == 0 {
        -1
    } else {
        let earlier = first_index(s.drop_last(), p);
        if earlier >= 0 {
            earlier
        } else if p(s.last()) {
            s.len() - 1
        } else {
            -1
        }
    }
}

/// `first_index` is `-1` exactly when nothing matches, and otherwise names a
/// match with no match before it.
pub proof fn lemma_first_index<T>(s: Seq<T>, p: spec_fn(T) -> bool)
    ensures
        -1 <= first_index(s, p) < s.len(),
        first_index(s, p) == -1 <==> forall|j: int| 0 <= j < s.len() ==> !p(#[trigger] s[j]),
        first_index(s, p) >= 0 ==> p(s[first_index(s, p)]),
        forall|j: int| 0 <= j < first_index(s, p) ==> !p(#[trigger] s[j]),
    decreases s.len(),
{
    if s.len() > 0 {
        let init = s.drop_last();
        lemma_first_index(init, p);
        assert forall|j: int| 0 <= j < init.len() implies init[j] == s[j] by {}
        if first_index(init, p) == -1 && !p(s.last()) {
            assert forall|j: int| 0 <= j < s.len() implies !p(#[trigger] s[j]) by {
                if j < init.len() {
                    assert(init[j] == s[j]);
                }
            }
        }
    }
}

/// Characterize `first_index` by a scan result: `i` is the first match.
pub proof fn lemma_first_index_is<T>(s: Seq<T>, p: spec_fn(T) -> bool, i: int)
    requires
        -1 <= i < s.len(),
        i >= 0 ==> p(s[i]),
        forall|j: int| 0 <= j < s.len() && (i == -1 || j < i) ==> !p(#[trigger] s[j]),
    ensures
        first_index(s, p) == i,
{
    lemma_first_index(s, p);
    let r = first_index(s, p);
    if r >= 0 && i >= 0 {
        if r < i {
            assert(!p(s[r]));
        } else if i < r {
            assert(!p(s[i]));
        }
    } else if r >= 0 {
        assert(!p(s[r]));
    } else if i >= 0 {
        assert(!p(s[i]));
    }
}

/// Stepping a cyclic index forward or back without leaving `0..len`.
pub proof fn lemma_cycle_step(c: int, l: int)
    requires
        0 <= c < l,
    ensures
        (c + l - 1) % l == (if c == 0 { l - 1 } else { c - 1 }),
        (c + 1) % l == (if c + 1 == l { 0 } else { c + 1 }),
{
    if c == 0 {
        vstd::arithmetic::div_mod::lemma_small_mod((l - 1) as nat, l as nat);
    } else {
        vstd::arithmetic::div_mod::lemma_mod_add_multiples_vanish(c - 1, l);
        vstd::arithmetic::div_mod::lemma_small_mod((c - 1) as nat, l as nat);
    }
    if c + 1 == l {
        vstd::arithmetic::div_mod::lemma_mod_self_0(l);
    } else {
        vstd::arithmetic::div_mod::lemma_small_mod((c + 1) as nat, l as nat);
    }
}

/// Appending an element appends its image, if it has one.
pub proof fn lemma_filter_map_push<A, B>(s: Seq<A>, x: A, f: spec_fn(A) -> Option<B>)
    ensures
        s.push(x).filter_map(f) == match f(x) {
            Some(v) => s.filter_map(f).push(v),
            None => s.filter_map(f),
        },
{
    assert(s.push(x).drop_last() =~= s);
    assert(s.push(x).last() == x);
    match f(x) {
        Some(v) => {
            assert(s.filter_map(f) + seq![v] =~= s.filter_map(f).push(v));
        },
        None => {},
    }
}

/// Mapping a longer sequence maps the extra element.
pub proof fn lemma_map_push<A, B>(s: Seq<A>, x: A, g: spec_fn(A) -> B)
    ensures
        s.push(x).map_values(g) == s.map_values(g).push(g(x)),
{
    assert(s.push(x).map_values(g) =~= s.map_values(g).push(g(x)));
}

/// A longer sequence is free of repeats exactly when the shorter one is and
/// does not hold the new element.
pub proof fn lemma_no_duplicates_push<T>(q: Seq<T>, y: T)
    ensures
        q.push(y).no_duplicates() == (q.no_duplicates() && !q.contains(y)),
{
    let r = q.push(y);
    if r.no_duplicates() {
        assert forall|i: int, j: int| 0 <= i < q.len() && 0 <= j < q.len() && i != j implies q[i] != q[j] by {
            assert(r[i] == q[i] && r[j] == q[j]);
        }
        if q.contains(y) {
            let k = choose|k: int| 0 <= k < q.len() && q[k] == y;
            assert(r[k] == r[q.len() as int]);
        }
    }
    if q.no_duplicates() && !q.contains(y) {
        assert forall|i: int, j: int| 0 <= i < r.len() && 0 <= j < r.len() && i != j implies r[i] != r[j] by {
            if i < q.len() && j < q.len() {
                assert(r[i] == q[i] && r[j] == q[j]);
            } else if i < q.len() {
                assert(r[i] == q[i] && r[j] == y);
            } else {
                assert(r[j] == q[j] && r[i] == y);
            }
        }
    }
}

/// The step that adds an element's image, if any, to a multiset.
pub open spec fn gather<A, B>(f: spec_fn(A) -> Option<B>) -> spec_fn(Multiset<B>, A) -> Multiset<B> {
    |m: Multiset<B>, x: A| match f(x) {
        Some(v) => m.insert(v),
        None => m,
    }
}

/// The images of a sequence, gathered one element at a time.
proof fn lemma_filter_map_gathered<A, B>(s: Seq<A>, f: spec_fn(A) -> Option<B>)
    ensures
        s.filter_map(f).to_multiset() == s.fold_left(Multiset::<B>::empty(), gather(f)),
    decreases s.len(),
{
    broadcast use vstd::seq_lib::group_to_multiset_ensures;

    if s.len() == 0 {
        assert(s.filter_map(f) =~= Seq::<B>::empty());
        assert(s.filter_map(f).to_multiset() =~= Multiset::<B>::empty());
    } else {
        let t = s.drop_last();
        lemma_filter_map_gathered(t, f);
        assert(t.push(s.last()) =~= s);
        lemma_filter_map_push(t, s.last(), f);
    }
}

/// Two sequences holding the same elements have the same images, as many
/// times each.
pub proof fn lemma_filter_map_permutation<A, B>(a: Seq<A>, b: Seq<A>, f: spec_fn(A) -> Option<B>)
    requires
        a.to_multiset() == b.to_multiset(),
    ensures
        a.filter_map(f).to_multiset() == b.filter_map(f).to_multiset(),
{
    broadcast use vstd::multiset::group_multiset_axioms;

    assert(commutative_foldl(gather(f))) by {
        assert forall|x: A, y: A, v: Multiset<B>| #[trigger] gather(f)(gather(f)(v, x), y) == gather(f)(gather(f)(v, y), x) by {
            assert(gather(f)(gather(f)(v, x), y) =~= gather(f)(gather(f)(v, y), x));
        }
    }
    lemma_fold_left_permutation(a, b, gather(f), Multiset::<B>::empty());
    lemma_filter_map_gathered(a, f);
    lemma_filter_map_gathered(b, f);
}

/// A sequence's image under `g`, as a sequence of optional images.
proof fn lemma_map_as_filter_map<A, B>(s: Seq<A>, g: spec_fn(A) -> B)
    ensures
        s.map_values(g) == s.filter_map(|x: A| Some(g(x))),
    decreases s.len(),
{
    if s.len() > 0 {
        let t = s.drop_last();
        lemma_map_as_filter_map(t, g);
        assert(t.push(s.last()) =~= s);
        lemma_filter_map_push(t, s.last(), |x: A| Some(g(x)));
        lemma_map_push(t, s.last(), g);
    } else {
        assert(s.map_values(g) =~= s.filter_map(|x: A| Some(g(x))));
    }
}

/// Two sequences holding the same elements map to the same images, as many
/// times each.
pub proof fn lemma_map_permutation<A, B>(a: Seq<A>, b: Seq<A>, g: spec_fn(A) -> B)
    requires
        a.to_multiset() == b.to_multiset(),
    ensures
        a.map_values(g).to_multiset() == b.map_values(g).to_multiset(),
{
    lemma_map_as_filter_map(a, g);
    lemma_map_as_filter_map(b, g);
    lemma_filter_map_permutation(a, b, |x: A| Some(g(x)));
}

/// Two sequences holding the same elements hold each element alike.
pub proof fn lemma_same_elements<A>(a: Seq<A>, b: Seq<A>)
    requires
        a.to_multiset() == b.to_multiset(),
    ensures
        forall|x: A| a.contains(x) <==> b.contains(x),
{
    broadcast use vstd::seq_lib::group_to_multiset_ensures;

    a.to_multiset_ensures();
    b.to_multiset_ensures();
    assert forall|x: A| a.contains(x) <==> b.contains(x) by {
        assert(a.contains(x) <==> a.to_multiset().count(x) > 0);
        assert(b.contains(x) <==> b.to_multiset().count(x) > 0);
    }
}

/// Two sequences holding the same elements are both free of repeats or
/// neither is.
pub proof fn lemma_no_duplicates_permutation<A>(a: Seq<A>, b: Seq<A>)
    requires
        a.to_multiset() == b.to_multiset(),
    ensures
        a.no_duplicates() <==> b.no_duplicates(),
{
    if a.no_duplicates() {
        a.lemma_multiset_has_no_duplicates();
        b.lemma_multiset_has_no_duplicates_conv();
    }
    if b.no_duplicates() {
        b.lemma_multiset_has_no_duplicates();
        a.lemma_multiset_has_no_duplicates_conv();
    }
}

} // verus!
