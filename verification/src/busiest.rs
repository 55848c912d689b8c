//! The rows about the places where most happened.

use vstd::prelude::*;

use crate::fold;
use crate::order;
use crate::order::Ranked;
use crate::table;
use crate::table::TextMap;
use crate::tally;
use crate::text;

verus! {

/// A row that tells how much happened at a place.
pub trait Active: Sized + View {
    spec fn place(row: Self::V) -> Seq<char>;

    spec fn amount(row: Self::V) -> nat;

    fn place_name(&self) -> (r: String)
        ensures
            r@ == Self::place(self@),
    ;

    fn amount_here(&self) -> (r: u64)
        ensures
            r as nat == Self::amount(self@),
    ;
}

pub open spec fn amounts<T: Active>() -> spec_fn(T::V) -> nat {
    |row: T::V| T::amount(row)
}

/// How much happened at each place.
pub open spec fn activity<T: Active>(s: Seq<T::V>) -> Seq<(Seq<char>, u64)>
    decreases s.len(),
{
    if s.len() == 0 {
        Seq::empty()
    } else {
        tally::credited(activity::<T>(s.drop_last()), T::place(s.last()), T::amount(s.last()))
    }
}

/// A place and how much happened there.
pub struct Place {
    pub name: String,
    pub amount: u64,
}

impl View for Place {
    type V = (Seq<char>, u64);

    open spec fn view(&self) -> (Seq<char>, u64) {
        (self.name@, self.amount)
    }
}

/// The place where more happened first.
impl Ranked for Place {
    open spec fn le(a: (Seq<char>, u64), b: (Seq<char>, u64)) -> bool {
        a.1 >= b.1
    }

    proof fn le_total(a: (Seq<char>, u64), b: (Seq<char>, u64)) {
    }

    proof fn le_transitive(a: (Seq<char>, u64), b: (Seq<char>, u64), c: (Seq<char>, u64)) {
    }

    fn not_after(&self, other: &Place) -> (r: bool) {
        self.amount >= other.amount
    }
}

/// The `n` places where most happened.
pub open spec fn leading<T: Active>(s: Seq<T::V>, n: int) -> Seq<(Seq<char>, u64)> {
    order::first_n(order::sort_ranked::<Place>(activity::<T>(s)), n)
}

/// Whether a place is on the list.
pub open spec fn is_listed(list: Seq<(Seq<char>, u64)>, name: Seq<char>) -> bool {
    exists|i: int| 0 <= i < list.len() && (#[trigger] list[i]).0 == name
}

/// The rows about the places on the list, in their order.
pub open spec fn listed<T: Active>(s: Seq<T::V>, list: Seq<(Seq<char>, u64)>) -> Seq<T::V>
    decreases s.len(),
{
    if s.len() == 0 {
        Seq::empty()
    } else if is_listed(list, T::place(s.last())) {
        listed::<T>(s.drop_last(), list).push(s.last())
    } else {
        listed::<T>(s.drop_last(), list)
    }
}

/// The rows about the `n` places where most happened, in their order.
pub open spec fn busiest<T: Active>(s: Seq<T::V>, n: int) -> Seq<T::V> {
    listed::<T>(s, leading::<T>(s, n))
}

proof fn lemma_activity<T: Active>(s: Seq<T::V>)
    requires
        fold::total(s, amounts::<T>()) <= u64::MAX,
    ensures
        table::ascending(activity::<T>(s)),
        tally::sum(activity::<T>(s)) == fold::total(s, amounts::<T>()),
        forall|i: int|
            0 <= i < s.len() ==> table::lookup(
                activity::<T>(s),
                T::place(#[trigger] s[i]),
            ) is Some,
    decreases s.len(),
{
    if s.len() > 0 {
        let init = s.drop_last();
        let k = T::place(s.last());
        lemma_activity::<T>(init);
        tally::amount_within_sum(activity::<T>(init), k);
        tally::sum_of_credited(activity::<T>(init), k, T::amount(s.last()));
        assert forall|i: int| 0 <= i < s.len() implies table::lookup(
            activity::<T>(s),
            T::place(#[trigger] s[i]),
        ) is Some by {
            table::lookup_of_put(
                activity::<T>(init),
                k,
                (tally::amount(activity::<T>(init), k) + T::amount(s.last())) as u64,
                T::place(s[i]),
            );
            if i < init.len() {
                assert(init[i] == s[i]);
            }
        }
    }
}

/// No sum over the rows grows by leaving some out.
pub proof fn listed_total<T: Active>(
    s: Seq<T::V>,
    list: Seq<(Seq<char>, u64)>,
    f: spec_fn(T::V) -> nat,
)
    ensures
        fold::total(listed::<T>(s, list), f) <= fold::total(s, f),
    decreases s.len(),
{
    if s.len() > 0 {
        let init = s.drop_last();
        listed_total::<T>(init, list, f);
        assert(listed::<T>(init, list).push(s.last()).drop_last() =~= listed::<T>(init, list));
    }
}

/// Either all rows about a place are kept or none of them.
pub proof fn places_stay_whole<T: Active>(s: Seq<T::V>, n: int, i: int)
    requires
        0 <= i < s.len(),
    ensures
        busiest::<T>(s, n).contains(s[i]) <==> is_listed(leading::<T>(s, n), T::place(s[i])),
{
    lemma_listed::<T>(s, leading::<T>(s, n), s[i]);
    assert(s.contains(s[i]));
}

proof fn lemma_listed<T: Active>(s: Seq<T::V>, list: Seq<(Seq<char>, u64)>, x: T::V)
    ensures
        listed::<T>(s, list).contains(x) <==> s.contains(x) && is_listed(list, T::place(x)),
    decreases s.len(),
{
    if s.len() > 0 {
        let init = s.drop_last();
        lemma_listed::<T>(init, list, x);
        assert(s =~= init.push(s.last()));
        vstd::seq_lib::lemma_seq_contains_after_push(init, s.last(), x);
        vstd::seq_lib::lemma_seq_contains_after_push(listed::<T>(init, list), s.last(), x);
    }
}

/// At no place whose rows were left out did more happen than at a place whose
/// rows were kept.
pub proof fn busiest_lead<T: Active>(s: Seq<T::V>, n: int, out: int, kept: int)
    requires
        fold::total(s, amounts::<T>()) <= u64::MAX,
        n >= 0,
        0 <= out < s.len(),
        0 <= kept < s.len(),
        !busiest::<T>(s, n).contains(s[out]),
        busiest::<T>(s, n).contains(s[kept]),
    ensures
        tally::amount(activity::<T>(s), T::place(s[out])) <= tally::amount(
            activity::<T>(s),
            T::place(s[kept]),
        ),
{
    let a = activity::<T>(s);
    let sorted = order::sort_ranked::<Place>(a);
    let list = leading::<T>(s, n);
    lemma_activity::<T>(s);
    places_stay_whole::<T>(s, n, out);
    places_stay_whole::<T>(s, n, kept);
    order::sort_orders::<Place>(a);
    order::sort_same_members::<Place>(a);
    let i = choose|i: int| 0 <= i < list.len() && (#[trigger] list[i]).0 == T::place(s[kept]);
    assert(sorted[i] == list[i]);
    assert(sorted.contains(sorted[i]));
    let p = choose|p: int| 0 <= p < a.len() && a[p] == sorted[i];
    table::lemma_lookup_at(a, p);
    let name = T::place(s[out]);
    table::lemma_lookup_some(a, name);
    let q = choose|q: int| 0 <= q < table::keys(a).len() && table::keys(a)[q] == name;
    table::lemma_lookup_at(a, q);
    assert(a.contains(a[q]));
    assert(sorted.contains(a[q]));
    let j = choose|j: int| 0 <= j < sorted.len() && sorted[j] == a[q];
    if j < list.len() {
        assert(list[j].0 == name);
        assert(is_listed(list, name));
    }
    assert(Place::le(sorted[i], sorted[j]));
}

fn gather<T: Active>(rows: &[T]) -> (r: TextMap<u64>)
    requires
        fold::total(order::models(rows@), amounts::<T>()) <= u64::MAX,
    ensures
        r@ == activity::<T>(order::models(rows@)),
        table::ascending(r@),
{
    let ghost all = order::models(rows@);
    let mut m: TextMap<u64> = TextMap::new();
    let n: usize = rows.len();
    let mut i: usize = 0;
    while i < n
        invariant
            n == rows@.len(),
            i <= n,
            all == order::models(rows@),
            fold::total(all, amounts::<T>()) <= u64::MAX,
            m@ == activity::<T>(all.take(i as int)),
            table::ascending(m@),
        decreases n - i,
    {
        proof {
            fold::lemma_total_step(all, amounts::<T>(), i as int);
            assert(all.take(i + 1).drop_last() =~= all.take(i as int));
            lemma_activity::<T>(all.take(i as int));
            tally::amount_within_sum(m@, T::place(all[i as int]));
        }
        let name = rows[i].place_name();
        let amount = rows[i].amount_here();
        tally::credit(&mut m, name.as_str(), amount);
        i += 1;
    }
    proof {
        assert(all.take(n as int) =~= all);
    }
    m
}

fn places_of(m: &TextMap<u64>) -> (r: Vec<Place>)
    ensures
        order::models(r@) == m@,
{
    let mut list: Vec<Place> = Vec::new();
    let n: usize = m.len();
    let mut i: usize = 0;
    while i < n
        invariant
            n == m@.len(),
            i <= n,
            list@.len() == i,
            forall|k: int| 0 <= k < i ==> (#[trigger] list@[k])@ == m@[k],
        decreases n - i,
    {
        list.push(Place { name: text::copy_text(m.key_at(i).as_str()), amount: *m.value_at(i) });
        i += 1;
    }
    proof {
        assert(order::models(list@) =~= m@);
    }
    list
}

fn names_of(list: &[Place]) -> (r: TextMap<bool>)
    ensures
        table::ascending(r@),
        forall|q: Seq<char>|
            #![trigger table::lookup(r@, q)]
            table::lookup(r@, q) is Some <==> is_listed(order::models(list@), q),
{
    let ghost all = order::models(list@);
    let mut m: TextMap<bool> = TextMap::new();
    let n: usize = list.len();
    let mut i: usize = 0;
    while i < n
        invariant
            n == list@.len(),
            i <= n,
            all == order::models(list@),
            table::ascending(m@),
            forall|q: Seq<char>|
                #![trigger table::lookup(m@, q)]
                table::lookup(m@, q) is Some <==> is_listed(all.take(i as int), q),
        decreases n - i,
    {
        let ghost before = m@;
        m.insert(text::copy_text(list[i].name.as_str()), true);
        proof {
            let now = all.take(i as int);
            let next = all.take(i + 1);
            assert forall|q: Seq<char>|
                #![trigger table::lookup(m@, q)]
                table::lookup(m@, q) is Some <==> is_listed(next, q) by {
                table::lookup_of_put(before, all[i as int].0, true, q);
                assert(table::lookup(before, q) is Some <==> is_listed(now, q));
                if is_listed(now, q) {
                    let k = choose|k: int| 0 <= k < now.len() && (#[trigger] now[k]).0 == q;
                    assert(next[k] == now[k]);
                }
                if is_listed(next, q) {
                    let k = choose|k: int| 0 <= k < next.len() && (#[trigger] next[k]).0 == q;
                    if k < i {
                        assert(now[k] == next[k]);
                    }
                }
                assert(next[i as int] == all[i as int]);
            }
        }
        i += 1;
    }
    proof {
        assert(all.take(n as int) =~= all);
    }
    m
}

/// Keeps the rows about the `n` places where most happened.
pub fn keep_busiest<T: Active>(rows: Vec<T>, n: usize) -> (r: Vec<T>)
    requires
        fold::total(order::models(rows@), amounts::<T>()) <= u64::MAX,
    ensures
        order::models(r@) == busiest::<T>(order::models(rows@), n as int),
{
    let ghost all = order::models(rows@);
    let sorted = order::sort_rows(places_of(&gather(rows.as_slice())));
    proof {
        order::models_of_first_n(sorted@, n as int);
    }
    let top = order::keep_first(sorted, n);
    let ghost list = order::models(top@);
    let names = names_of(top.as_slice());
    let mut kept: Vec<T> = Vec::new();
    proof {
        assert(list == leading::<T>(all, n as int));
        assert(all.take(0).len() == 0);
        assert(order::models(kept@) =~= Seq::empty());
    }
    for row in it: rows
        invariant
            order::models(it.seq()) == all,
            table::ascending(names@),
            forall|q: Seq<char>|
                #![trigger table::lookup(names@, q)]
                table::lookup(names@, q) is Some <==> is_listed(list, q),
            order::models(kept@) == listed::<T>(all.take(it.index() as int), list),
    {
        let ghost before = order::models(kept@);
        let ghost i = it.index() as int;
        proof {
            assert(order::models(it.seq())[i] == row@);
            assert(all.take(i + 1).drop_last() =~= all.take(i));
            assert(all.take(i + 1).last() == row@);
        }
        let name = row.place_name();
        let found = names.get(name.as_str());
        if found.is_some() {
            kept.push(row);
            proof {
                assert(order::models(kept@) =~= before.push(row@));
            }
        }
    }
    proof {
        assert(all.take(all.len() as int) =~= all);
    }
    kept
}

/// The leading places stand in descending order of what happened there.
pub proof fn leading_places_descend<T: Active>(s: Seq<T::V>, n: int, i: int, j: int)
    requires
        n >= 0,
        0 <= i < j < leading::<T>(s, n).len(),
    ensures
        leading::<T>(s, n).len() <= n,
        leading::<T>(s, n)[i].1 >= leading::<T>(s, n)[j].1,
{
    let sorted = order::sort_ranked::<Place>(activity::<T>(s));
    order::sort_orders::<Place>(activity::<T>(s));
    assert(leading::<T>(s, n)[i] == sorted[i]);
    assert(leading::<T>(s, n)[j] == sorted[j]);
    assert(Place::le(sorted[i], sorted[j]));
}

} // verus!
