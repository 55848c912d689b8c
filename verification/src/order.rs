//! Stable sorting of report rows by a rank of their own.

use vstd::prelude::*;

use crate::fold;

verus! {

/// A type whose values can be ranked against each other by what they stand
/// for: `le` is a total preorder, and values that rank alike need not be
/// equal.
pub trait Ranked: Sized + View {
    /// `a` may stand before `b`.
    spec fn le(a: Self::V, b: Self::V) -> bool;

    proof fn le_total(a: Self::V, b: Self::V)
        ensures
            Self::le(a, b) || Self::le(b, a),
    ;

    proof fn le_transitive(a: Self::V, b: Self::V, c: Self::V)
        requires
            Self::le(a, b),
            Self::le(b, c),
        ensures
            Self::le(a, c),
    ;

    fn not_after(&self, other: &Self) -> (r: bool)
        ensures
            r == Self::le(self@, other@),
    ;
}

/// What the elements of a sequence stand for.
pub open spec fn models<T: View>(s: Seq<T>) -> Seq<T::V> {
    Seq::new(s.len(), |i: int| s[i]@)
}

/// `s` with `x` put in behind the last element that may stand before it.
pub open spec fn insert_ranked<T: Ranked>(s: Seq<T::V>, x: T::V) -> Seq<T::V>
    decreases s.len(),
{
    if s.len() == 0 || T::le(s.last(), x) {
        s.push(x)
    } else {
        insert_ranked::<T>(s.drop_last(), x).push(s.last())
    }
}

/// The stable sort of `s`: elements that rank alike keep their order.
pub open spec fn sort_ranked<T: Ranked>(s: Seq<T::V>) -> Seq<T::V>
    decreases s.len(),
{
    if s.len() == 0 {
        s
    } else {
        insert_ranked::<T>(sort_ranked::<T>(s.drop_last()), s.last())
    }
}

/// Every element may stand before all that follow it.
pub open spec fn is_ranked<T: Ranked>(s: Seq<T::V>) -> bool {
    forall|i: int, j: int| 0 <= i < j < s.len() ==> T::le(#[trigger] s[i], #[trigger] s[j])
}

/// Two ranked sequences as one; where elements rank alike, those of `p` come
/// first.
pub open spec fn merge_ranked<T: Ranked>(p: Seq<T::V>, q: Seq<T::V>) -> Seq<T::V>
    decreases p.len() + q.len(),
{
    if q.len() == 0 {
        p
    } else if p.len() == 0 {
        q
    } else if T::le(p.last(), q.last()) {
        merge_ranked::<T>(p, q.drop_last()).push(q.last())
    } else {
        merge_ranked::<T>(p.drop_last(), q).push(p.last())
    }
}

/// The first `n` elements, or all of them when there are fewer.
pub open spec fn first_n<A>(s: Seq<A>, n: int) -> Seq<A> {
    if s.len() <= n {
        s
    } else {
        s.take(n)
    }
}

proof fn lemma_insert_len<T: Ranked>(s: Seq<T::V>, x: T::V)
    ensures
        insert_ranked::<T>(s, x).len() == s.len() + 1,
        insert_ranked::<T>(s, x).last() == x || (s.len() > 0 && insert_ranked::<T>(s, x).last()
            == s.last()),
    decreases s.len(),
{
    if s.len() > 0 && !T::le(s.last(), x) {
        lemma_insert_len::<T>(s.drop_last(), x);
    }
}

proof fn lemma_insert_into_merge<T: Ranked>(p: Seq<T::V>, q: Seq<T::V>, x: T::V)
    ensures
        insert_ranked::<T>(merge_ranked::<T>(p, q), x) == merge_ranked::<T>(p, insert_ranked::<T>(q, x)),
    decreases p.len() + q.len(),
{
    lemma_insert_len::<T>(q, x);
    if q.len() == 0 {
        let one = q.push(x);
        assert(one.drop_last() =~= q);
        if p.len() > 0 && !T::le(p.last(), x) {
            lemma_insert_into_merge::<T>(p.drop_last(), q, x);
        } else if p.len() == 0 {
            assert(p.push(x) =~= one);
        }
    } else if p.len() == 0 {
    } else if T::le(p.last(), q.last()) {
        let m = merge_ranked::<T>(p, q.drop_last());
        assert(m.push(q.last()).drop_last() =~= m);
        if T::le(q.last(), x) {
            T::le_transitive(p.last(), q.last(), x);
            assert(q.push(x).drop_last() =~= q);
        } else {
            let t = insert_ranked::<T>(q.drop_last(), x);
            assert(t.push(q.last()).drop_last() =~= t);
            lemma_insert_into_merge::<T>(p, q.drop_last(), x);
        }
    } else {
        T::le_total(p.last(), q.last());
        let m = merge_ranked::<T>(p.drop_last(), q);
        assert(m.push(p.last()).drop_last() =~= m);
        if T::le(p.last(), x) {
            T::le_transitive(q.last(), p.last(), x);
            assert(q.push(x).drop_last() =~= q);
        } else {
            lemma_insert_into_merge::<T>(p.drop_last(), q, x);
        }
    }
}

/// Sorting the halves and merging them sorts the whole.
pub proof fn sort_of_halves<T: Ranked>(a: Seq<T::V>, b: Seq<T::V>)
    ensures
        sort_ranked::<T>(a + b) == merge_ranked::<T>(sort_ranked::<T>(a), sort_ranked::<T>(b)),
    decreases b.len(),
{
    if b.len() == 0 {
        assert(a + b =~= a);
    } else {
        assert((a + b).drop_last() =~= a + b.drop_last());
        sort_of_halves::<T>(a, b.drop_last());
        lemma_insert_into_merge::<T>(sort_ranked::<T>(a), sort_ranked::<T>(b.drop_last()), b.last());
    }
}

proof fn lemma_insert_keeps<T: Ranked>(s: Seq<T::V>, x: T::V)
    ensures
        insert_ranked::<T>(s, x).to_multiset() == s.to_multiset().insert(x),
        is_ranked::<T>(s) ==> is_ranked::<T>(insert_ranked::<T>(s, x)),
    decreases s.len(),
{
    broadcast use vstd::seq_lib::group_to_multiset_ensures;

    if s.len() > 0 && !T::le(s.last(), x) {
        let init = s.drop_last();
        lemma_insert_keeps::<T>(init, x);
        lemma_insert_len::<T>(init, x);
        assert(s =~= init.push(s.last()));
        assert(insert_ranked::<T>(s, x).to_multiset() =~= s.to_multiset().insert(x));
        if is_ranked::<T>(s) {
            T::le_total(s.last(), x);
            let t = insert_ranked::<T>(init, x);
            assert(is_ranked::<T>(init));
            assert forall|i: int| 0 <= i < t.len() implies T::le(t[i], s.last()) by {
                assert(t.to_multiset().count(t[i]) > 0);
                assert(t.contains(t[i]));
                if t[i] != x {
                    assert(init.to_multiset().count(t[i]) > 0);
                    assert(init.contains(t[i]));
                    let k = choose|k: int| 0 <= k < init.len() && init[k] == t[i];
                    assert(T::le(s[k], s[s.len() - 1]));
                }
            }
        }
    } else if s.len() > 0 && is_ranked::<T>(s) {
        let t = s.push(x);
        assert forall|i: int, j: int| 0 <= i < j < t.len() implies T::le(
            #[trigger] t[i],
            #[trigger] t[j],
        ) by {
            if j == s.len() && i < s.len() - 1 {
                T::le_transitive(s[i], s.last(), x);
            }
        }
    }
}

/// Sorting neither adds nor loses an element.
pub proof fn sort_keeps_elements<T: Ranked>(s: Seq<T::V>)
    ensures
        sort_ranked::<T>(s).to_multiset() == s.to_multiset(),
        sort_ranked::<T>(s).len() == s.len(),
    decreases s.len(),
{
    broadcast use vstd::seq_lib::group_to_multiset_ensures;

    if s.len() > 0 {
        sort_keeps_elements::<T>(s.drop_last());
        lemma_insert_keeps::<T>(sort_ranked::<T>(s.drop_last()), s.last());
        lemma_insert_len::<T>(sort_ranked::<T>(s.drop_last()), s.last());
        assert(s =~= s.drop_last().push(s.last()));
    }
}

/// The sorted sequence is in order.
pub proof fn sort_orders<T: Ranked>(s: Seq<T::V>)
    ensures
        is_ranked::<T>(sort_ranked::<T>(s)),
    decreases s.len(),
{
    if s.len() > 0 {
        sort_orders::<T>(s.drop_last());
        lemma_insert_keeps::<T>(sort_ranked::<T>(s.drop_last()), s.last());
    }
}

/// Sorting leaves a sequence alone that is in order already.
pub proof fn sort_of_ranked<T: Ranked>(s: Seq<T::V>)
    requires
        is_ranked::<T>(s),
    ensures
        sort_ranked::<T>(s) == s,
    decreases s.len(),
{
    if s.len() > 0 {
        assert(is_ranked::<T>(s.drop_last()));
        sort_of_ranked::<T>(s.drop_last());
        if s.len() > 1 {
            assert(T::le(s[s.len() - 2], s[s.len() - 1]));
        }
        assert(s =~= s.drop_last().push(s.last()));
    }
}

/// What is sorted holds exactly what was given.
pub proof fn sort_same_members<T: Ranked>(s: Seq<T::V>)
    ensures
        forall|x: T::V| #[trigger] sort_ranked::<T>(s).contains(x) <==> s.contains(x),
{
    broadcast use vstd::seq_lib::group_to_multiset_ensures;

    sort_keeps_elements::<T>(s);
    assert forall|x: T::V| #[trigger] sort_ranked::<T>(s).contains(x) <==> s.contains(x) by {
        assert(sort_ranked::<T>(s).to_multiset().count(x) == s.to_multiset().count(x));
    }
}

proof fn lemma_total_of_insert<T: Ranked>(s: Seq<T::V>, x: T::V, f: spec_fn(T::V) -> nat)
    ensures
        fold::total(insert_ranked::<T>(s, x), f) == fold::total(s, f) + f(x),
    decreases s.len(),
{
    if s.len() == 0 || T::le(s.last(), x) {
        assert(s.push(x).drop_last() =~= s);
    } else {
        let t = insert_ranked::<T>(s.drop_last(), x);
        lemma_total_of_insert::<T>(s.drop_last(), x, f);
        assert(t.push(s.last()).drop_last() =~= t);
    }
}

/// Sorting changes no sum over the elements.
pub proof fn sort_keeps_total<T: Ranked>(s: Seq<T::V>, f: spec_fn(T::V) -> nat)
    ensures
        fold::total(sort_ranked::<T>(s), f) == fold::total(s, f),
    decreases s.len(),
{
    if s.len() > 0 {
        sort_keeps_total::<T>(s.drop_last(), f);
        lemma_total_of_insert::<T>(sort_ranked::<T>(s.drop_last()), s.last(), f);
    }
}

fn reverse_into<T>(mut v: Vec<T>) -> (r: Vec<T>)
    ensures
        r@ == v@.reverse(),
{
    let ghost given = v@;
    let mut out: Vec<T> = Vec::new();
    while v.len() > 0
        invariant
            v@.len() + out@.len() == given.len(),
            v@ == given.take(v@.len() as int),
            forall|i: int| 0 <= i < out@.len() ==> out@[i] == given[given.len() - 1 - i],
        decreases v@.len(),
    {
        if let Some(x) = v.pop() {
            out.push(x);
        }
    }
    proof {
        assert(out@ =~= given.reverse());
    }
    out
}

fn merge_runs<T: Ranked>(mut p: Vec<T>, mut q: Vec<T>) -> (r: Vec<T>)
    ensures
        models(r@) == merge_ranked::<T>(models(p@), models(q@)),
{
    let ghost whole = merge_ranked::<T>(models(p@), models(q@));
    let mut back: Vec<T> = Vec::new();
    proof {
        assert(whole + models(back@).reverse() =~= whole);
    }
    while p.len() > 0 && q.len() > 0
        invariant
            merge_ranked::<T>(models(p@), models(q@)) + models(back@).reverse() == whole,
        decreases p@.len() + q@.len(),
    {
        let ghost p0 = p@;
        let ghost q0 = q@;
        let ghost b0 = back@;
        let from_q = p[p.len() - 1].not_after(&q[q.len() - 1]);
        let taken = if from_q {
            q.pop()
        } else {
            p.pop()
        };
        if let Some(x) = taken {
            back.push(x);
            proof {
                if from_q {
                    assert(models(q@) =~= models(q0).drop_last());
                } else {
                    assert(models(p@) =~= models(p0).drop_last());
                }
                assert(models(back@).reverse() =~= seq![x@] + models(b0).reverse());
                assert(merge_ranked::<T>(models(p@), models(q@)) + models(back@).reverse()
                    =~= merge_ranked::<T>(models(p0), models(q0)) + models(b0).reverse());
            }
        }
    }
    let mut out = if p.len() == 0 {
        q
    } else {
        p
    };
    proof {
        assert(models(out@) == merge_ranked::<T>(models(p@), models(q@)));
    }
    let ghost front = models(out@);
    let mut tail = reverse_into(back);
    proof {
        assert(models(tail@) =~= models(back@).reverse());
    }
    let ghost end = models(tail@);
    out.append(&mut tail);
    proof {
        assert(models(out@) =~= front + end);
    }
    out
}

/// Sorts the rows stably by their rank.
pub fn sort_rows<T: Ranked>(mut v: Vec<T>) -> (r: Vec<T>)
    ensures
        models(r@) == sort_ranked::<T>(models(v@)),
        r@.len() == v@.len(),
    decreases v@.len(),
{
    proof {
        sort_keeps_elements::<T>(models(v@));
    }
    let n: usize = v.len();
    if n <= 1 {
        proof {
            sort_of_ranked::<T>(models(v@));
        }
        return v;
    }
    let ghost all = v@;
    let mid: usize = n / 2;
    let tail = v.split_off(mid);
    proof {
        assert(models(all) =~= models(v@) + models(tail@));
        sort_of_halves::<T>(models(v@), models(tail@));
    }
    let a = sort_rows(v);
    let b = sort_rows(tail);
    let r = merge_runs(a, b);
    proof {
        assert(models(r@).len() == models(all).len());
    }
    r
}

/// Keeps the first `n` rows.
pub fn keep_first<T>(mut v: Vec<T>, n: usize) -> (r: Vec<T>)
    ensures
        r@ == first_n(v@, n as int),
{
    if v.len() > n {
        v.truncate(n);
    }
    v
}

/// Cutting the rows cuts what they stand for.
pub proof fn models_of_first_n<T: View>(s: Seq<T>, n: int)
    requires
        n >= 0,
    ensures
        models(first_n(s, n)) == first_n(models(s), n),
{
    assert(models(first_n(s, n)) =~= first_n(models(s), n));
}

} // verus!
