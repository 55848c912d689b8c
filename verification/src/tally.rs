//! Amounts per name: who contributed how much.

use vstd::prelude::*;

use crate::double;
use crate::double::Double;
use crate::fold;
use crate::order;
use crate::order::Ranked;
use crate::table;
use crate::table::TextMap;

verus! {

/// The amount of `k`; nothing when it has none.
pub open spec fn amount(s: Seq<(Seq<char>, u64)>, k: Seq<char>) -> nat {
    match table::lookup(s, k) {
        Some(n) => n as nat,
        None => 0,
    }
}

/// The tally with `n` more for `k`.
pub open spec fn credited(s: Seq<(Seq<char>, u64)>, k: Seq<char>, n: nat) -> Seq<(Seq<char>, u64)> {
    table::put(s, k, (amount(s, k) + n) as u64)
}

pub open spec fn pair_amount() -> spec_fn((Seq<char>, u64)) -> nat {
    |p: (Seq<char>, u64)| p.1 as nat
}

/// All amounts together.
pub open spec fn sum(s: Seq<(Seq<char>, u64)>) -> nat {
    fold::total(s, pair_amount())
}

/// The position of the largest amount, the first one of those that tie.
pub open spec fn leader(s: Seq<(Seq<char>, u64)>) -> int
    decreases s.len(),
{
    if s.len() <= 1 {
        0
    } else {
        let l = leader(s.drop_last());
        if s.last().1 > s[l].1 {
            s.len() - 1
        } else {
            l
        }
    }
}

/// Crediting adds to the sum exactly what is credited.
pub proof fn sum_of_credited(s: Seq<(Seq<char>, u64)>, k: Seq<char>, n: nat)
    requires
        table::ascending(s),
        amount(s, k) + n <= u64::MAX,
    ensures
        sum(credited(s, k, n)) == sum(s) + n,
        table::ascending(credited(s, k, n)),
{
    table::total_of_put(s, k, (amount(s, k) + n) as u64, pair_amount());
    table::put_ascends(s, k, (amount(s, k) + n) as u64);
}

/// No single amount exceeds the sum.
pub proof fn amount_within_sum(s: Seq<(Seq<char>, u64)>, k: Seq<char>)
    ensures
        amount(s, k) <= sum(s),
{
    table::lookup_within_total(s, k, pair_amount());
}

/// Crediting changes the amount of the one who is credited, and no other.
pub proof fn amount_of_credited(s: Seq<(Seq<char>, u64)>, k: Seq<char>, n: nat, q: Seq<char>)
    requires
        table::ascending(s),
        amount(s, k) + n <= u64::MAX,
    ensures
        amount(credited(s, k, n), q) == amount(s, q) + if q == k {
            n
        } else {
            0
        },
{
    table::lookup_of_put(s, k, (amount(s, k) + n) as u64, q);
}

/// No amount exceeds that of the leader, and of those that tie with it the
/// leader has the first name.
pub proof fn leader_leads(s: Seq<(Seq<char>, u64)>)
    requires
        s.len() > 0,
    ensures
        0 <= leader(s) < s.len(),
        forall|i: int| 0 <= i < s.len() ==> (#[trigger] s[i]).1 <= s[leader(s)].1,
        forall|i: int| 0 <= i < leader(s) ==> (#[trigger] s[i]).1 < s[leader(s)].1,
    decreases s.len(),
{
    if s.len() > 1 {
        let init = s.drop_last();
        leader_leads(init);
        let l = leader(init);
        assert(init[l] == s[l]);
        assert forall|i: int| 0 <= i < s.len() implies (#[trigger] s[i]).1 <= s[leader(s)].1 by {
            if i < init.len() {
                assert(init[i] == s[i]);
            }
        }
        assert forall|i: int| 0 <= i < leader(s) implies (#[trigger] s[i]).1 < s[leader(s)].1 by {
            assert(init[i] == s[i]);
        }
    }
}

/// Adds `n` to the amount of `key`.
pub fn credit(m: &mut TextMap<u64>, key: &str, n: u64)
    requires
        table::ascending(old(m)@),
        amount(old(m)@, key@) + n <= u64::MAX,
    ensures
        final(m)@ == credited(old(m)@, key@, n as nat),
        table::ascending(final(m)@),
{
    let now: u64 = match m.get(key) {
        Some(v) => *v,
        None => 0,
    };
    m.insert(crate::text::copy_text(key), now + n);
}

/// All amounts together.
pub fn sum_of(m: &TextMap<u64>) -> (r: u64)
    requires
        sum(m@) <= u64::MAX,
    ensures
        r == sum(m@),
{
    let n: usize = m.len();
    let mut total: u64 = 0;
    let mut i: usize = 0;
    while i < n
        invariant
            n == m@.len(),
            i <= n,
            sum(m@) <= u64::MAX,
            total == sum(m@.take(i as int)),
        decreases n - i,
    {
        proof {
            fold::lemma_total_step(m@, pair_amount(), i as int);
        }
        total += *m.value_at(i);
        i += 1;
    }
    proof {
        assert(m@.take(n as int) =~= m@);
    }
    total
}

/// The position of the largest amount, the first one of those that tie.
pub fn leader_of(m: &TextMap<u64>) -> (r: usize)
    requires
        m@.len() > 0,
    ensures
        r == leader(m@),
        r < m@.len(),
{
    let n: usize = m.len();
    let mut best: usize = 0;
    let mut i: usize = 1;
    proof {
        assert(m@.take(1).len() == 1);
    }
    while i < n
        invariant
            n == m@.len(),
            1 <= i <= n,
            best < i,
            best == leader(m@.take(i as int)),
        decreases n - i,
    {
        proof {
            assert(m@.take(i + 1).drop_last() =~= m@.take(i as int));
        }
        if *m.value_at(i) > *m.value_at(best) {
            best = i;
        }
        i += 1;
    }
    proof {
        assert(m@.take(n as int) =~= m@);
    }
    best
}

// ---------------------------------------------------------------------------
// Bus factor
// ---------------------------------------------------------------------------

/// An amount, ranked with the largest first.
pub struct Share {
    pub amount: u64,
}

impl View for Share {
    type V = u64;

    open spec fn view(&self) -> u64 {
        self.amount
    }
}

impl Ranked for Share {
    open spec fn le(a: u64, b: u64) -> bool {
        a >= b
    }

    proof fn le_total(a: u64, b: u64) {
    }

    proof fn le_transitive(a: u64, b: u64, c: u64) {
    }

    fn not_after(&self, other: &Share) -> (r: bool) {
        self.amount >= other.amount
    }
}

pub open spec fn as_nat() -> spec_fn(u64) -> nat {
    |n: u64| n as nat
}

/// The amounts, the largest first.
pub open spec fn largest_first(s: Seq<u64>) -> Seq<u64> {
    order::sort_ranked::<Share>(s)
}

/// The least number of leading amounts, `k` or more, that make up more than
/// half of `all`; all of them where none does.
pub open spec fn heads(s: Seq<u64>, all: nat, k: int) -> int
    decreases s.len() - k,
{
    if k >= s.len() {
        s.len() as int
    } else if double::is_majority(fold::total(s.take(k + 1), as_nat()) as int, all as int) {
        k + 1
    } else {
        heads(s, all, k + 1)
    }
}

/// The bus factor: how many of the largest contributors it takes to make up
/// more than half of `all`.
pub open spec fn bus_factor(amounts: Seq<u64>, all: nat) -> int {
    if all == 0 {
        0
    } else {
        heads(largest_first(amounts), all, 0)
    }
}

/// How many of the largest contributors it takes to make up more than half of
/// `total`.
#[verifier::loop_isolation(false)]
pub fn compute_bus_factor(authors: &TextMap<u64>, total: u64) -> (r: u64)
    requires
        sum(authors@) <= u64::MAX,
    ensures
        r == bus_factor(table::values(authors@), total as nat),
{
    if total == 0 {
        return 0;
    }
    let n: usize = authors.len();
    let mut shares: Vec<Share> = Vec::new();
    let mut k: usize = 0;
    while k < n
        invariant
            k <= n,
            order::models(shares@) == table::values(authors@).take(k as int),
        decreases n - k,
    {
        let ghost before = order::models(shares@);
        shares.push(Share { amount: *authors.value_at(k) });
        proof {
            assert(order::models(shares@) =~= before.push(authors@[k as int].1));
            assert(table::values(authors@).take(k + 1) =~= before.push(authors@[k as int].1));
        }
        k += 1;
    }
    proof {
        assert(table::values(authors@).take(n as int) =~= table::values(authors@));
        lemma_values_total(authors@);
        order::sort_keeps_elements::<Share>(table::values(authors@));
        lemma_total_of_sorted(table::values(authors@));
    }
    let sorted = order::sort_rows(shares);
    let ghost s = order::models(sorted@);
    let mut acc: u64 = 0;
    let mut i: usize = 0;
    proof {
        assert(fold::total(s.take(0), as_nat()) == 0);
    }
    while i < n
        invariant
            i <= n,
            sorted@.len() == n,
            acc == fold::total(s.take(i as int), as_nat()),
            bus_factor(table::values(authors@), total as nat) == heads(s, total as nat, i as int),
        decreases n - i,
    {
        proof {
            fold::lemma_total_step(s, as_nat(), i as int);
        }
        acc += sorted[i].amount;
        if Double::majority(acc, total) {
            return (i + 1) as u64;
        }
        i += 1;
    }
    n as u64
}

proof fn lemma_values_total(s: Seq<(Seq<char>, u64)>)
    ensures
        fold::total(table::values(s), as_nat()) == sum(s),
    decreases s.len(),
{
    if s.len() > 0 {
        lemma_values_total(s.drop_last());
        assert(table::values(s).drop_last() =~= table::values(s.drop_last()));
    }
}

proof fn lemma_total_of_insert(s: Seq<u64>, x: u64)
    ensures
        fold::total(order::insert_ranked::<Share>(s, x), as_nat()) == fold::total(s, as_nat()) + x,
    decreases s.len(),
{
    let t = order::insert_ranked::<Share>(s, x);
    if s.len() == 0 || Share::le(s.last(), x) {
        assert(t.drop_last() =~= s);
    } else {
        let u = order::insert_ranked::<Share>(s.drop_last(), x);
        lemma_total_of_insert(s.drop_last(), x);
        assert(t.drop_last() =~= u);
    }
}

proof fn lemma_total_of_sorted(s: Seq<u64>)
    ensures
        fold::total(largest_first(s), as_nat()) == fold::total(s, as_nat()),
    decreases s.len(),
{
    if s.len() > 0 {
        lemma_total_of_sorted(s.drop_last());
        lemma_total_of_insert(largest_first(s.drop_last()), s.last());
    }
}

proof fn lemma_heads(s: Seq<u64>, all: nat, k: int)
    requires
        0 <= k <= s.len(),
        !double::is_majority(fold::total(s.take(k), as_nat()) as int, all as int),
    ensures
        k <= heads(s, all, k) <= s.len(),
        heads(s, all, k) > k ==> !double::is_majority(
            fold::total(s.take(heads(s, all, k) - 1), as_nat()) as int,
            all as int,
        ),
        double::is_majority(fold::total(s, as_nat()) as int, all as int) ==> double::is_majority(
            fold::total(s.take(heads(s, all, k)), as_nat()) as int,
            all as int,
        ),
    decreases s.len() - k,
{
    if k < s.len() {
        if double::is_majority(fold::total(s.take(k + 1), as_nat()) as int, all as int) {
        } else {
            lemma_heads(s, all, k + 1);
        }
    } else {
        assert(s.take(k) =~= s);
    }
}

/// The bus factor counts at most all contributors, and at least one where
/// there is anything to count. That many of the largest contributors make up
/// more than half, and one fewer do not; up to 53 binary digits, this is so of
/// the exact sums too.
pub proof fn bus_factor_is_least(s: Seq<(Seq<char>, u64)>)
    requires
        sum(s) > 0,
    ensures
        ({
            let b = bus_factor(table::values(s), sum(s));
            let d = largest_first(table::values(s));
            &&& 1 <= b <= s.len()
            &&& double::is_majority(fold::total(d.take(b), as_nat()) as int, sum(s) as int)
            &&& !double::is_majority(fold::total(d.take(b - 1), as_nat()) as int, sum(s) as int)
            &&& sum(s) < double::HIGH ==> 2 * fold::total(d.take(b), as_nat()) > sum(s)
            &&& sum(s) < double::HIGH ==> 2 * fold::total(d.take(b - 1), as_nat()) <= sum(s)
        }),
{
    let v = table::values(s);
    let d = largest_first(v);
    lemma_values_total(s);
    lemma_total_of_sorted(v);
    order::sort_keeps_elements::<Share>(v);
    assert(fold::total(d.take(0), as_nat()) == 0);
    lemma_heads(d, sum(s), 0);
    double::lemma_nearest_normal(sum(s) as int, 1);
    if heads(d, sum(s), 0) == 0 {
        assert(fold::total(d.take(0), as_nat()) == 0);
    }
    if sum(s) < double::HIGH {
        let b = bus_factor(v, sum(s));
        fold::lemma_total_monotone(d, as_nat(), b);
        fold::lemma_total_monotone(d, as_nat(), b - 1);
        double::majorities_are_more_than_half(
            fold::total(d.take(b), as_nat()) as int,
            sum(s) as int,
        );
        double::majorities_are_more_than_half(
            fold::total(d.take(b - 1), as_nat()) as int,
            sum(s) as int,
        );
    }
}

// ---------------------------------------------------------------------------
// Tallies per group
// ---------------------------------------------------------------------------

/// A tally for each group.
pub type Groups = Seq<(Seq<char>, Seq<(Seq<char>, u64)>)>;

/// The tally of group `g`; empty when it has none.
pub open spec fn group(m: Groups, g: Seq<char>) -> Seq<(Seq<char>, u64)> {
    match table::lookup(m, g) {
        Some(t) => t,
        None => Seq::empty(),
    }
}

/// The groups with `n` more for `k` in group `g`.
pub open spec fn credited_in(m: Groups, g: Seq<char>, k: Seq<char>, n: nat) -> Groups {
    table::put(m, g, credited(group(m, g), k, n))
}

pub open spec fn group_sum() -> spec_fn((Seq<char>, Seq<(Seq<char>, u64)>)) -> nat {
    |p: (Seq<char>, Seq<(Seq<char>, u64)>)| sum(p.1)
}

/// The amounts of all groups together.
pub open spec fn grand_sum(m: Groups) -> nat {
    fold::total(m, group_sum())
}

/// Groups and names stand in ascending order.
pub open spec fn in_order(m: Groups) -> bool {
    &&& table::ascending(m)
    &&& forall|i: int| 0 <= i < m.len() ==> table::ascending((#[trigger] m[i]).1)
}

proof fn lemma_group_in_order(m: Groups, g: Seq<char>)
    requires
        in_order(m),
    ensures
        table::ascending(group(m, g)),
    decreases m.len(),
{
    if m.len() > 0 {
        if m.last().0 == g {
            assert(table::ascending(m[m.len() - 1].1));
        } else {
            let init = m.drop_last();
            assert(table::ascending(init));
            assert forall|i: int| 0 <= i < init.len() implies table::ascending(
                (#[trigger] init[i]).1,
            ) by {
                assert(m[i] == init[i]);
            }
            lemma_group_in_order(init, g);
        }
    }
}

/// Crediting in a group adds to the grand sum exactly what is credited.
pub proof fn grand_sum_of_credited(m: Groups, g: Seq<char>, k: Seq<char>, n: nat)
    requires
        in_order(m),
        amount(group(m, g), k) + n <= u64::MAX,
    ensures
        grand_sum(credited_in(m, g, k, n)) == grand_sum(m) + n,
        in_order(credited_in(m, g, k, n)),
{
    let t = group(m, g);
    lemma_group_in_order(m, g);
    sum_of_credited(t, k, n);
    let u = credited(t, k, n);
    table::total_of_put(m, g, u, group_sum());
    table::put_ascends(m, g, u);
    let p = table::put(m, g, u);
    assert forall|i: int| 0 <= i < p.len() implies table::ascending((#[trigger] p[i]).1) by {
        table::lemma_put_members(m, g, u, i);
        if p[i] != (g, u) {
            let j = choose|j: int| 0 <= j < m.len() && m[j] == p[i];
            assert(table::ascending(m[j].1));
        }
    }
}

/// No single amount of any group exceeds the grand sum.
pub proof fn amount_within_grand_sum(m: Groups, g: Seq<char>, k: Seq<char>)
    ensures
        amount(group(m, g), k) <= grand_sum(m),
{
    table::lookup_within_total(m, g, group_sum());
    amount_within_sum(group(m, g), k);
}

/// Crediting in a group changes the amount of the one who is credited there,
/// and no other.
pub proof fn amount_of_credited_in(
    m: Groups,
    g: Seq<char>,
    k: Seq<char>,
    n: nat,
    h: Seq<char>,
    q: Seq<char>,
)
    requires
        in_order(m),
        amount(group(m, g), k) + n <= u64::MAX,
    ensures
        amount(group(credited_in(m, g, k, n), h), q) == amount(group(m, h), q) + if h == g && q
            == k {
            n
        } else {
            0
        },
{
    lemma_group_in_order(m, g);
    table::lookup_of_put(m, g, credited(group(m, g), k, n), h);
    amount_of_credited(group(m, g), k, n, q);
}

/// Adds `n` to the amount of `key` in group `name`.
pub fn credit_in(m: &mut TextMap<TextMap<u64>>, name: &str, key: &str, n: u64)
    requires
        in_order(old(m)@),
        amount(group(old(m)@, name@), key@) + n <= u64::MAX,
    ensures
        final(m)@ == credited_in(old(m)@, name@, key@, n as nat),
        in_order(final(m)@),
        grand_sum(final(m)@) == grand_sum(old(m)@) + n,
{
    let ghost before = m@;
    proof {
        grand_sum_of_credited(before, name@, key@, n as nat);
        lemma_group_in_order(before, name@);
    }
    let i = m.slot(name, TextMap::new());
    let ghost held = m@;
    proof {
        if table::lookup(before, name@) is None {
            table::lookup_of_put(before, name@, Seq::empty(), name@);
            table::put_twice(
                before,
                name@,
                Seq::empty(),
                credited(group(before, name@), key@, n as nat),
            );
        }
        table::lemma_lookup_at(held, i as int);
        assert(held[i as int].1 == group(before, name@));
    }
    let inner = m.value_mut(i);
    credit(inner, key, n);
    proof {
        table::lemma_update_is_put(held, i as int, credited(group(before, name@), key@, n as nat));
    }
}

/// The sum of one group is within the grand sum.
pub proof fn group_within_grand_sum(m: Groups, i: int)
    requires
        0 <= i < m.len(),
    ensures
        sum(m[i].1) <= grand_sum(m),
{
    fold::lemma_total_member(m, group_sum(), i);
}

/// The amounts stand in descending order, and they are the given ones: no other
/// contributors of the same number make up more than the first ones do.
pub proof fn the_largest_stand_first(s: Seq<u64>)
    ensures
        largest_first(s).to_multiset() == s.to_multiset(),
        largest_first(s).len() == s.len(),
        forall|i: int, j: int|
            0 <= i < j < s.len() ==> #[trigger] largest_first(s)[i] >= #[trigger] largest_first(
                s,
            )[j],
{
    order::sort_keeps_elements::<Share>(s);
    order::sort_orders::<Share>(s);
    assert forall|i: int, j: int| 0 <= i < j < s.len() implies #[trigger] largest_first(s)[i]
        >= #[trigger] largest_first(s)[j] by {
        assert(Share::le(largest_first(s)[i], largest_first(s)[j]));
    }
}

} // verus!
