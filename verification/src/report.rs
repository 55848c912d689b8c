//! From ranked rows to the entries of a report.

use vstd::prelude::*;

use crate::analysis::source_filter;
use crate::analysis::source_filter::is_source_file;
use crate::fold;
use crate::order;
use crate::order::Ranked;
use crate::types;
use crate::types::{EntryModel, MetricEntry};

verus! {

/// A row that can be shown in a report.
pub trait Row: Sized + View {
    /// What the report shows of the row.
    spec fn entry(row: Self::V) -> EntryModel;

    fn to_entry(self) -> (r: MetricEntry)
        ensures
            r@ == Self::entry(self@),
    ;
}

/// What a report shows of the rows.
pub open spec fn entries_of<T: Row>(s: Seq<T::V>) -> Seq<EntryModel> {
    Seq::new(s.len(), |i: int| T::entry(s[i]))
}

/// The rows in ranked order, at most `limit` of them.
pub open spec fn top_ranked<T: Ranked>(s: Seq<T::V>, limit: int) -> Seq<T::V> {
    order::first_n(order::sort_ranked::<T>(s), limit)
}

/// The entries of the rows, in their order.
pub fn to_entries<T: Row>(rows: Vec<T>) -> (r: Vec<MetricEntry>)
    ensures
        types::entry_models(r@) == entries_of::<T>(order::models(rows@)),
{
    let ghost given = order::models(rows@);
    let mut out: Vec<MetricEntry> = Vec::new();
    for row in it: rows
        invariant
            order::models(it.seq()) == given,
            out@.len() == it.index(),
            forall|k: int|
                0 <= k < out@.len() ==> (#[trigger] out@[k])@ == T::entry(given[k]),
    {
        proof {
            assert(order::models(it.seq())[it.index() as int] == row@);
        }
        out.push(row.to_entry());
    }
    proof {
        assert(types::entry_models(out@) =~= entries_of::<T>(given));
    }
    out
}

/// The entries of the `limit` rows that rank highest.
pub fn ranked_entries<T: Row + Ranked>(rows: Vec<T>, limit: usize) -> (r: Vec<MetricEntry>)
    ensures
        types::entry_models(r@) == entries_of::<T>(
            top_ranked::<T>(order::models(rows@), limit as int),
        ),
{
    let sorted = order::sort_rows(rows);
    proof {
        order::models_of_first_n(sorted@, limit as int);
    }
    to_entries(order::keep_first(sorted, limit))
}

/// A report never has more entries than its limit, nor than there are rows.
pub proof fn top_ranked_len<T: Ranked>(s: Seq<T::V>, limit: int)
    requires
        limit >= 0,
    ensures
        top_ranked::<T>(s, limit).len() <= limit,
        top_ranked::<T>(s, limit).len() <= s.len(),
        s.len() <= limit ==> top_ranked::<T>(s, limit).len() == s.len(),
{
    order::sort_keeps_elements::<T>(s);
}

/// The rows of a report stand in ranked order, and no row that was left out
/// ranks before one that was kept.
pub proof fn top_ranked_leads<T: Ranked>(s: Seq<T::V>, limit: int)
    requires
        limit >= 0,
    ensures
        order::is_ranked::<T>(top_ranked::<T>(s, limit)),
        forall|i: int, j: int|
            0 <= i < top_ranked::<T>(s, limit).len() <= j < s.len() ==> T::le(
                #[trigger] top_ranked::<T>(s, limit)[i],
                #[trigger] order::sort_ranked::<T>(s)[j],
            ),
{
    order::sort_orders::<T>(s);
    order::sort_keeps_elements::<T>(s);
}

/// A row that speaks of a file.
pub trait OfFile: Sized + View {
    spec fn file_of(row: Self::V) -> Seq<char>;

    fn file(&self) -> (r: &str)
        ensures
            r@ == Self::file_of(self@),
    ;
}

/// The rows that speak of source files, in their order.
pub open spec fn source_only<T: OfFile>(s: Seq<T::V>) -> Seq<T::V>
    decreases s.len(),
{
    if s.len() == 0 {
        Seq::empty()
    } else if source_filter::is_source(T::file_of(s.last())) {
        source_only::<T>(s.drop_last()).push(s.last())
    } else {
        source_only::<T>(s.drop_last())
    }
}

/// Keeps the rows that speak of source files.
pub fn keep_source<T: OfFile>(rows: Vec<T>) -> (r: Vec<T>)
    ensures
        order::models(r@) == source_only::<T>(order::models(rows@)),
{
    let ghost given = order::models(rows@);
    let mut out: Vec<T> = Vec::new();
    proof {
        assert(given.take(0).len() == 0);
        assert(order::models(out@) =~= Seq::empty());
    }
    for row in it: rows
        invariant
            order::models(it.seq()) == given,
            order::models(out@) == source_only::<T>(given.take(it.index() as int)),
    {
        let ghost before = order::models(out@);
        let ghost i = it.index() as int;
        proof {
            assert(order::models(it.seq())[i] == row@);
            assert(given.take(i + 1).drop_last() =~= given.take(i));
            assert(given.take(i + 1).last() == row@);
        }
        if is_source_file(row.file()) {
            out.push(row);
            proof {
                assert(order::models(out@) =~= before.push(row@));
            }
        }
    }
    proof {
        assert(given.take(given.len() as int) =~= given);
    }
    out
}

/// No sum over the rows grows by leaving some out.
pub proof fn source_only_total<T: OfFile>(s: Seq<T::V>, f: spec_fn(T::V) -> nat)
    ensures
        fold::total(source_only::<T>(s), f) <= fold::total(s, f),
    decreases s.len(),
{
    if s.len() > 0 {
        let init = s.drop_last();
        source_only_total::<T>(init, f);
        assert(source_only::<T>(init).push(s.last()).drop_last() =~= source_only::<T>(init));
    }
}

/// Only source files are kept, and each of them is.
pub proof fn source_only_keeps<T: OfFile>(s: Seq<T::V>)
    ensures
        forall|x: T::V| #[trigger]
            source_only::<T>(s).contains(x) <==> s.contains(x) && source_filter::is_source(
                T::file_of(x),
            ),
        source_only::<T>(s).len() <= s.len(),
    decreases s.len(),
{
    if s.len() > 0 {
        let init = s.drop_last();
        source_only_keeps::<T>(init);
        let kept = source_only::<T>(init);
        assert forall|x: T::V| #[trigger]
            source_only::<T>(s).contains(x) <==> s.contains(x) && source_filter::is_source(
                T::file_of(x),
            ) by {
            assert(s =~= init.push(s.last()));
            vstd::seq_lib::lemma_seq_contains_after_push(init, s.last(), x);
            if source_filter::is_source(T::file_of(s.last())) {
                vstd::seq_lib::lemma_seq_contains_after_push(kept, s.last(), x);
            }
            assert(kept.contains(x) <==> init.contains(x) && source_filter::is_source(
                T::file_of(x),
            ));
        }
    }
}

/// What stands in a report was given, and all of it stands there unless there
/// is more than the limit.
pub proof fn top_ranked_members<T: Ranked>(s: Seq<T::V>, limit: int)
    requires
        limit >= 0,
    ensures
        forall|i: int|
            0 <= i < top_ranked::<T>(s, limit).len() ==> s.contains(
                #[trigger] top_ranked::<T>(s, limit)[i],
            ),
        s.len() <= limit ==> forall|x: T::V| #[trigger]
            top_ranked::<T>(s, limit).contains(x) <==> s.contains(x),
{
    order::sort_same_members::<T>(s);
    order::sort_keeps_elements::<T>(s);
    let sorted = order::sort_ranked::<T>(s);
    assert forall|i: int| 0 <= i < top_ranked::<T>(s, limit).len() implies s.contains(
        #[trigger] top_ranked::<T>(s, limit)[i],
    ) by {
        assert(sorted[i] == top_ranked::<T>(s, limit)[i]);
        assert(sorted.contains(sorted[i]));
    }
    if s.len() <= limit {
        assert(top_ranked::<T>(s, limit) =~= sorted);
    }
}

/// Leaving rows out keeps the others in ranked order.
pub proof fn source_only_ranked<T: OfFile + Ranked>(s: Seq<<T as View>::V>)
    requires
        order::is_ranked::<T>(s),
    ensures
        order::is_ranked::<T>(source_only::<T>(s)),
    decreases s.len(),
{
    if s.len() > 0 {
        let front = s.drop_last();
        assert(order::is_ranked::<T>(front)) by {
            assert(forall|i: int| 0 <= i < front.len() ==> front[i] == s[i]);
        }
        source_only_ranked::<T>(front);
        source_only_keeps::<T>(front);
        let kept = source_only::<T>(front);
        assert forall|i: int, j: int| 0 <= i < j < source_only::<T>(s).len() implies T::le(
            #[trigger] source_only::<T>(s)[i],
            #[trigger] source_only::<T>(s)[j],
        ) by {
            assert(source_only::<T>(s)[i] == kept[i]);
            if j < kept.len() {
                assert(source_only::<T>(s)[j] == kept[j]);
            } else {
                assert(kept.contains(kept[i]));
                let k = choose|k: int| 0 <= k < front.len() && front[k] == kept[i];
                assert(s[k] == kept[i]);
                assert(T::le(s[k], s[s.len() - 1]));
            }
        }
    }
}

} // verus!
