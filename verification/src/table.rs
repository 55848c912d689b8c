//! Finite maps from texts, written out in ascending order of their keys.

use vstd::prelude::*;

use crate::fold;
use crate::text;
use crate::text::{same, text_not_after};

verus! {

/// The keys ascend strictly.
pub open spec fn ascending<V>(s: Seq<(Seq<char>, V)>) -> bool {
    forall|i: int, j: int|
        0 <= i < j < s.len() ==> text::text_le((#[trigger] s[i]).0, (#[trigger] s[j]).0) && s[i].0
            != s[j].0
}

/// The value at `k`.
pub open spec fn lookup<V>(s: Seq<(Seq<char>, V)>, k: Seq<char>) -> Option<V>
    decreases s.len(),
{
    if s.len() == 0 {
        None
    } else if s.last().0 == k {
        Some(s.last().1)
    } else {
        lookup(s.drop_last(), k)
    }
}

/// The map with the value at `k` set to `v`.
pub open spec fn put<V>(s: Seq<(Seq<char>, V)>, k: Seq<char>, v: V) -> Seq<(Seq<char>, V)>
    decreases s.len(),
{
    if s.len() == 0 {
        seq![(k, v)]
    } else if s.last().0 == k {
        s.drop_last().push((k, v))
    } else if text::text_le(s.last().0, k) {
        s.push((k, v))
    } else {
        put(s.drop_last(), k, v).push(s.last())
    }
}

/// The keys in order.
pub open spec fn keys<V>(s: Seq<(Seq<char>, V)>) -> Seq<Seq<char>> {
    Seq::new(s.len(), |i: int| s[i].0)
}

/// The values in the order of their keys.
pub open spec fn values<V>(s: Seq<(Seq<char>, V)>) -> Seq<V> {
    Seq::new(s.len(), |i: int| s[i].1)
}

/// What was put at a key is what is found there, and every other key keeps
/// what it had.
pub proof fn lookup_of_put<V>(s: Seq<(Seq<char>, V)>, k: Seq<char>, v: V, q: Seq<char>)
    requires
        ascending(s),
    ensures
        lookup(put(s, k, v), q) == (if q == k {
            Some(v)
        } else {
            lookup(s, q)
        }),
    decreases s.len(),
{
    if s.len() == 0 {
        assert(put(s, k, v).drop_last() =~= s);
    } else if s.last().0 == k {
        assert(put(s, k, v).drop_last() =~= s.drop_last());
    } else if text::text_le(s.last().0, k) {
        assert(put(s, k, v).drop_last() =~= s);
    } else {
        lookup_of_put(s.drop_last(), k, v, q);
        assert(put(s, k, v).drop_last() =~= put(s.drop_last(), k, v));
    }
}

/// What stands in a map after a change is the change or was there before.
pub proof fn lemma_put_members<V>(s: Seq<(Seq<char>, V)>, k: Seq<char>, v: V, i: int)
    requires
        0 <= i < put(s, k, v).len(),
    ensures
        put(s, k, v)[i] == (k, v) || exists|j: int| 0 <= j < s.len() && s[j] == put(s, k, v)[i],
    decreases s.len(),
{
    if s.len() > 0 {
        let p = put(s, k, v);
        if s.last().0 == k {
            if i < s.len() - 1 {
                assert(s[i] == p[i]);
            }
        } else if text::text_le(s.last().0, k) {
            if i < s.len() {
                assert(s[i] == p[i]);
            }
        } else {
            let q = put(s.drop_last(), k, v);
            if i < q.len() {
                lemma_put_members(s.drop_last(), k, v, i);
                if q[i] != (k, v) {
                    let j = choose|j: int| 0 <= j < s.drop_last().len() && s.drop_last()[j] == q[i];
                    assert(s[j] == p[i]);
                }
            } else {
                assert(s[s.len() - 1] == p[i]);
            }
        }
    }
}

/// Setting a value keeps the keys in ascending order.
pub proof fn put_ascends<V>(s: Seq<(Seq<char>, V)>, k: Seq<char>, v: V)
    requires
        ascending(s),
    ensures
        ascending(put(s, k, v)),
    decreases s.len(),
{
    let p = put(s, k, v);
    if s.len() == 0 {
    } else if s.last().0 == k {
        assert forall|i: int, j: int| 0 <= i < j < p.len() implies text::text_le(
            (#[trigger] p[i]).0,
            (#[trigger] p[j]).0,
        ) && p[i].0 != p[j].0 by {
            assert(s[i].0 == p[i].0);
            assert(s[j].0 == p[j].0);
        }
    } else if text::text_le(s.last().0, k) {
        assert forall|i: int, j: int| 0 <= i < j < p.len() implies text::text_le(
            (#[trigger] p[i]).0,
            (#[trigger] p[j]).0,
        ) && p[i].0 != p[j].0 by {
            if j < s.len() {
                assert(s[i] == p[i] && s[j] == p[j]);
            } else if i < s.len() - 1 {
                assert(text::text_le(s[i].0, s[s.len() - 1].0));
                text::text_le_transitive(s[i].0, s.last().0, k);
                if s[i].0 == k {
                    text::text_le_antisymmetric(s.last().0, k);
                }
            }
        }
    } else {
        let init = s.drop_last();
        let q = put(init, k, v);
        assert(ascending(init));
        put_ascends(init, k, v);
        text::text_le_total(k, s.last().0);
        assert forall|i: int, j: int| 0 <= i < j < p.len() implies text::text_le(
            (#[trigger] p[i]).0,
            (#[trigger] p[j]).0,
        ) && p[i].0 != p[j].0 by {
            if j < q.len() {
                assert(q[i] == p[i] && q[j] == p[j]);
            } else {
                lemma_put_members(init, k, v, i);
                assert(q[i] == p[i]);
                if q[i] != (k, v) {
                    let m = choose|m: int| 0 <= m < init.len() && init[m] == q[i];
                    assert(s[m] == q[i]);
                    assert(s[s.len() - 1] == p[j]);
                }
            }
        }
    }
}

/// Where the keys ascend, a key is found at exactly one place.
pub proof fn lemma_lookup_at<V>(s: Seq<(Seq<char>, V)>, i: int)
    requires
        ascending(s),
        0 <= i < s.len(),
    ensures
        lookup(s, s[i].0) == Some(s[i].1),
    decreases s.len(),
{
    if i < s.len() - 1 {
        assert(ascending(s.drop_last()));
        assert(s[i].0 != s[s.len() - 1].0);
        lemma_lookup_at(s.drop_last(), i);
    }
}

/// A key that is found stands somewhere.
pub proof fn lemma_lookup_some<V>(s: Seq<(Seq<char>, V)>, k: Seq<char>)
    ensures
        lookup(s, k) is Some <==> keys(s).contains(k),
    decreases s.len(),
{
    if s.len() > 0 {
        lemma_lookup_some(s.drop_last(), k);
        if s.last().0 == k {
            assert(keys(s)[s.len() - 1] == k);
        } else {
            if keys(s).contains(k) {
                let i = choose|i: int| 0 <= i < keys(s).len() && keys(s)[i] == k;
                assert(keys(s.drop_last())[i] == k);
            }
            if keys(s.drop_last()).contains(k) {
                let i = choose|i: int|
                    0 <= i < keys(s.drop_last()).len() && keys(s.drop_last())[i] == k;
                assert(keys(s)[i] == k);
            }
        }
    }
}

proof fn lemma_put_existing<V>(s: Seq<(Seq<char>, V)>, i: int, v: V)
    requires
        ascending(s),
        0 <= i < s.len(),
    ensures
        put(s, s[i].0, v) == s.update(i, (s[i].0, v)),
    decreases s.len(),
{
    let k = s[i].0;
    if i == s.len() - 1 {
        assert(put(s, k, v) =~= s.update(i, (k, v)));
    } else {
        let init = s.drop_last();
        assert(ascending(init));
        assert(text::text_le(s[i].0, s[s.len() - 1].0));
        if text::text_le(s.last().0, k) {
            text::text_le_antisymmetric(s.last().0, k);
        }
        lemma_put_existing(init, i, v);
        assert(put(s, k, v) =~= s.update(i, (k, v)));
    }
}

proof fn lemma_put_new<V>(s: Seq<(Seq<char>, V)>, k: Seq<char>, v: V, i: int)
    requires
        ascending(s),
        0 <= i <= s.len(),
        forall|j: int| 0 <= j < i ==> text::text_le((#[trigger] s[j]).0, k) && s[j].0 != k,
        forall|j: int| i <= j < s.len() ==> !text::text_le((#[trigger] s[j]).0, k),
    ensures
        put(s, k, v) == s.insert(i, (k, v)),
    decreases s.len(),
{
    if s.len() == 0 {
        assert(put(s, k, v) =~= s.insert(i, (k, v)));
    } else if i == s.len() {
        assert(text::text_le(s[s.len() - 1].0, k));
        assert(put(s, k, v) =~= s.insert(i, (k, v)));
    } else {
        let init = s.drop_last();
        assert(ascending(init));
        assert(!text::text_le(s[s.len() - 1].0, k));
        if s.last().0 == k {
            text::text_le_total(k, k);
        }
        lemma_put_new(init, k, v, i);
        assert(put(s, k, v) =~= s.insert(i, (k, v)));
    }
}

/// A finite map from texts.
#[derive(Debug)]
pub struct TextMap<T> {
    items: Vec<(String, T)>,
}

spec fn pairs<T: View>(s: Seq<(String, T)>) -> Seq<(Seq<char>, T::V)> {
    Seq::new(s.len(), |i: int| (s[i].0@, s[i].1@))
}

impl<T: View> View for TextMap<T> {
    type V = Seq<(Seq<char>, T::V)>;

    closed spec fn view(&self) -> Seq<(Seq<char>, T::V)> {
        pairs(self.items@)
    }
}

impl<T: View> TextMap<T> {
    /// The empty map.
    pub fn new() -> (r: Self)
        ensures
            r@ == Seq::<(Seq<char>, T::V)>::empty(),
    {
        let r = TextMap { items: Vec::new() };
        proof {
            assert(r@ =~= Seq::empty());
        }
        r
    }

    /// The number of keys.
    pub fn len(&self) -> (r: usize)
        ensures
            r == self@.len(),
    {
        self.items.len()
    }

    /// The key in position `i`.
    pub fn key_at(&self, i: usize) -> (r: &String)
        requires
            i < self@.len(),
        ensures
            r@ == self@[i as int].0,
    {
        &self.items[i].0
    }

    /// The value in position `i`.
    pub fn value_at(&self, i: usize) -> (r: &T)
        requires
            i < self@.len(),
        ensures
            r@ == self@[i as int].1,
    {
        &self.items[i].1
    }

    /// Where `key` stands, or where it would have to.
    fn position(&self, key: &str) -> (r: (usize, bool))
        requires
            ascending(self@),
        ensures
            r.0 <= self@.len(),
            r.1 ==> r.0 < self@.len() && self@[r.0 as int].0 == key@,
            !r.1 ==> {
                &&& forall|j: int|
                    0 <= j < r.0 ==> text::text_le((#[trigger] self@[j]).0, key@) && self@[j].0
                        != key@
                &&& forall|j: int|
                    r.0 <= j < self@.len() ==> !text::text_le((#[trigger] self@[j]).0, key@)
            },
    {
        let mut lo: usize = 0;
        let mut hi: usize = self.items.len();
        while lo < hi
            invariant
                lo <= hi <= self.items@.len(),
                ascending(self@),
                forall|j: int|
                    0 <= j < lo ==> text::text_le((#[trigger] self@[j]).0, key@) && self@[j].0
                        != key@,
                forall|j: int|
                    hi <= j < self@.len() ==> !text::text_le((#[trigger] self@[j]).0, key@),
            decreases hi - lo,
        {
            let mid: usize = lo + (hi - lo) / 2;
            let k = self.items[mid].0.as_str();
            proof {
                assert(self@[mid as int].0 == k@);
            }
            if same(k, key) {
                return (mid, true);
            }
            if text_not_after(k, key) {
                proof {
                    assert forall|j: int| 0 <= j < mid + 1 implies text::text_le(
                        (#[trigger] self@[j]).0,
                        key@,
                    ) && self@[j].0 != key@ by {
                        if j < mid {
                            assert(text::text_le(self@[j].0, self@[mid as int].0));
                            text::text_le_transitive(self@[j].0, k@, key@);
                            if self@[j].0 == key@ {
                                text::text_le_antisymmetric(k@, key@);
                            }
                        }
                    }
                }
                lo = mid + 1;
            } else {
                proof {
                    assert forall|j: int| mid <= j < self@.len() implies !text::text_le(
                        (#[trigger] self@[j]).0,
                        key@,
                    ) by {
                        if j > mid {
                            assert(text::text_le(self@[mid as int].0, self@[j].0));
                            if text::text_le(self@[j].0, key@) {
                                text::text_le_transitive(k@, self@[j].0, key@);
                            }
                        }
                    }
                }
                hi = mid;
            }
        }
        (lo, false)
    }

    /// The value at `key`.
    pub fn get(&self, key: &str) -> (r: Option<&T>)
        requires
            ascending(self@),
        ensures
            match r {
                Some(v) => lookup(self@, key@) == Some(v@),
                None => lookup(self@, key@) is None,
            },
    {
        let (i, found) = self.position(key);
        if found {
            proof {
                lemma_lookup_at(self@, i as int);
            }
            Some(&self.items[i].1)
        } else {
            proof {
                lemma_lookup_some(self@, key@);
                if keys(self@).contains(key@) {
                    let j = choose|j: int| 0 <= j < keys(self@).len() && keys(self@)[j] == key@;
                    if j >= i {
                        assert(!text::text_le(self@[j].0, key@));
                        text::text_le_total(key@, key@);
                    } else {
                        assert(self@[j].0 != key@);
                    }
                }
            }
            None
        }
    }

    /// Sets the value at `key`.
    pub fn insert(&mut self, key: String, value: T)
        requires
            ascending(old(self)@),
        ensures
            final(self)@ == put(old(self)@, key@, value@),
            ascending(final(self)@),
    {
        let ghost before = self@;
        proof {
            put_ascends(before, key@, value@);
        }
        let (i, found) = self.position(key.as_str());
        if found {
            proof {
                lemma_put_existing(before, i as int, value@);
            }
            self.items.set(i, (key, value));
            proof {
                assert(self@ =~= before.update(i as int, (key@, value@)));
            }
        } else {
            proof {
                lemma_put_new(before, key@, value@, i as int);
            }
            self.items.insert(i, (key, value));
            proof {
                assert(self@ =~= before.insert(i as int, (key@, value@)));
            }
        }
    }

    /// The position of `key`, which gets the value `fresh` if it has none yet.
    pub fn slot(&mut self, key: &str, fresh: T) -> (r: usize)
        requires
            ascending(old(self)@),
        ensures
            final(self)@ == (if lookup(old(self)@, key@) is Some {
                old(self)@
            } else {
                put(old(self)@, key@, fresh@)
            }),
            ascending(final(self)@),
            r < final(self)@.len(),
            final(self)@[r as int].0 == key@,
    {
        let ghost before = self@;
        let (i, found) = self.position(key);
        if found {
            proof {
                lemma_lookup_at(before, i as int);
            }
            i
        } else {
            proof {
                lemma_lookup_some(before, key@);
                if keys(before).contains(key@) {
                    let j = choose|j: int| 0 <= j < keys(before).len() && keys(before)[j] == key@;
                    if j >= i {
                        assert(!text::text_le(before[j].0, key@));
                        text::text_le_total(key@, key@);
                    } else {
                        assert(before[j].0 != key@);
                    }
                }
                lemma_put_new(before, key@, fresh@, i as int);
                put_ascends(before, key@, fresh@);
            }
            self.items.insert(i, (text::copy_text(key), fresh));
            proof {
                assert(self@ =~= before.insert(i as int, (key@, fresh@)));
            }
            i
        }
    }

    /// The value in position `i`, for change in place.
    pub fn value_mut(&mut self, i: usize) -> (r: &mut T)
        requires
            i < old(self)@.len(),
        ensures
            r@ == old(self)@[i as int].1,
            final(self)@ == old(self)@.update(i as int, (old(self)@[i as int].0, final(r)@)),
    {
        proof {
            assert forall|w: T| #[trigger]
                pairs(self.items@.update(i as int, (self.items@[i as int].0, w))) == self@.update(
                    i as int,
                    (self@[i as int].0, w@),
                ) by {
                assert(pairs(self.items@.update(i as int, (self.items@[i as int].0, w)))
                    =~= self@.update(i as int, (self@[i as int].0, w@)));
            }
        }
        &mut self.items[i].1
    }
}

/// Changing the value in a position is putting it at the key that stands there.
pub proof fn lemma_update_is_put<V>(s: Seq<(Seq<char>, V)>, i: int, v: V)
    requires
        ascending(s),
        0 <= i < s.len(),
    ensures
        s.update(i, (s[i].0, v)) == put(s, s[i].0, v),
        ascending(s.update(i, (s[i].0, v))),
{
    lemma_put_existing(s, i, v);
    put_ascends(s, s[i].0, v);
}

/// Putting twice at a key is putting the second value.
pub proof fn put_twice<V>(s: Seq<(Seq<char>, V)>, k: Seq<char>, v: V, w: V)
    requires
        ascending(s),
    ensures
        put(put(s, k, v), k, w) == put(s, k, w),
    decreases s.len(),
{
    let p = put(s, k, v);
    if s.len() == 0 {
        assert(p.drop_last() =~= s);
        assert(put(p, k, w) =~= put(s, k, w));
    } else if s.last().0 == k {
        assert(p.drop_last() =~= s.drop_last());
    } else if text::text_le(s.last().0, k) {
        assert(p.drop_last() =~= s);
    } else {
        put_twice(s.drop_last(), k, v, w);
        assert(p.drop_last() =~= put(s.drop_last(), k, v));
    }
}

/// What is summed over a map changes by what a key gains or loses.
pub proof fn total_of_put<V>(
    s: Seq<(Seq<char>, V)>,
    k: Seq<char>,
    v: V,
    f: spec_fn((Seq<char>, V)) -> nat,
)
    requires
        ascending(s),
    ensures
        fold::total(put(s, k, v), f) + (match lookup(s, k) {
            Some(w) => f((k, w)),
            None => 0,
        }) == fold::total(s, f) + f((k, v)),
    decreases s.len(),
{
    let p = put(s, k, v);
    if s.len() == 0 {
        assert(p.drop_last() =~= s);
    } else if s.last().0 == k {
        assert(p.drop_last() =~= s.drop_last());
    } else if text::text_le(s.last().0, k) {
        assert(p.drop_last() =~= s);
        lemma_absent_above(s, k);
    } else {
        total_of_put(s.drop_last(), k, v, f);
        assert(p.drop_last() =~= put(s.drop_last(), k, v));
    }
}

/// A key above the last one is not in the table.
pub proof fn lemma_absent_above<V>(s: Seq<(Seq<char>, V)>, k: Seq<char>)
    requires
        ascending(s),
        s.len() > 0,
        text::text_le(s.last().0, k),
        s.last().0 != k,
    ensures
        lookup(s, k) is None,
{
    lemma_lookup_some(s, k);
    if keys(s).contains(k) {
        let i = choose|i: int| 0 <= i < keys(s).len() && keys(s)[i] == k;
        assert(text::text_le(s[i].0, s[s.len() - 1].0) || i == s.len() - 1);
        text::text_le_antisymmetric(k, s.last().0);
    }
}

/// What stands at a key is part of the sum.
pub proof fn lookup_within_total<V>(
    s: Seq<(Seq<char>, V)>,
    k: Seq<char>,
    f: spec_fn((Seq<char>, V)) -> nat,
)
    ensures
        match lookup(s, k) {
            Some(w) => f((k, w)) <= fold::total(s, f),
            None => true,
        },
    decreases s.len(),
{
    if s.len() > 0 && s.last().0 != k {
        lookup_within_total(s.drop_last(), k, f);
    }
}

/// Some value has this view.
pub open spec fn is_view<T: View>(x: T::V) -> bool {
    exists|v: T| #[trigger] v@ == x
}

/// Every value of a map is the view of some value.
pub proof fn lemma_values_are_views<T: View>(m: &TextMap<T>)
    ensures
        forall|i: int| 0 <= i < m@.len() ==> is_view::<T>((#[trigger] m@[i]).1),
{
    assert forall|i: int| 0 <= i < m@.len() implies is_view::<T>((#[trigger] m@[i]).1) by {
        assert(m.items@[i].1@ == m@[i].1);
    }
}

} // verus!
