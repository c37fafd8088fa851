//! Laws of the comparison, stated over `classify` and `partition`, the
//! functions that the contract of `compare` is written in.
//!
//! Each law takes the two snapshots as key sequences, which may repeat keys
//! and come in any order, exactly as `compare` receives them.

use crate::differ::{classify, lemma_classify_sets, Classification};
use crate::identity::PodKey;
use crate::snapshot::{
    absent_from, distinct, lemma_distinct, lemma_distinct_of_unique, member_of,
};
use crate::order::{law_ascending_unique, lemma_same_set, sorting_of};
use vstd::prelude::*;

verus! {

/// A filter that every element passes changes nothing.
proof fn lemma_filter_keeps_all(s: Seq<PodKey>, pred: spec_fn(PodKey) -> bool)
    requires
        forall|i: int| 0 <= i < s.len() ==> pred(#[trigger] s[i]),
    ensures
        s.filter(pred) == s,
    decreases s.len(),
{
    reveal(Seq::filter);
    if s.len() > 0 {
        lemma_filter_keeps_all(s.drop_last(), pred);
    }
}

/// A filter that no element passes leaves nothing.
proof fn lemma_filter_keeps_none(s: Seq<PodKey>, pred: spec_fn(PodKey) -> bool)
    requires
        forall|i: int| 0 <= i < s.len() ==> !pred(#[trigger] s[i]),
    ensures
        s.filter(pred) == Seq::<PodKey>::empty(),
    decreases s.len(),
{
    reveal(Seq::filter);
    if s.len() > 0 {
        lemma_filter_keeps_none(s.drop_last(), pred);
    }
}

/// Coverage: the three outputs together hold exactly the pods that either
/// snapshot names.
pub proof fn law_partition_coverage(today: Seq<PodKey>, yesterday: Seq<PodKey>)
    ensures
        classify(today, yesterday).sets().all() == today.to_set().union(yesterday.to_set()),
{
    lemma_classify_sets(today, yesterday);
}

/// Disjointness: no pod is in two of the three outputs.
pub proof fn law_disjointness(today: Seq<PodKey>, yesterday: Seq<PodKey>)
    ensures
        classify(today, yesterday).sets().new.intersect(classify(today, yesterday).sets().ongoing)
            == Set::<PodKey>::empty(),
        classify(today, yesterday).sets().ongoing.intersect(
            classify(today, yesterday).sets().resolved,
        ) == Set::<PodKey>::empty(),
        classify(today, yesterday).sets().new.intersect(classify(today, yesterday).sets().resolved)
            == Set::<PodKey>::empty(),
{
    lemma_classify_sets(today, yesterday);
}

/// Today's pods are the new and the ongoing ones; yesterday's pods are the
/// ongoing and the resolved ones.
pub proof fn law_snapshots_recovered(today: Seq<PodKey>, yesterday: Seq<PodKey>)
    ensures
        classify(today, yesterday).sets().new.union(classify(today, yesterday).sets().ongoing)
            == today.to_set(),
        classify(today, yesterday).sets().ongoing.union(classify(today, yesterday).sets().resolved)
            == yesterday.to_set(),
{
    lemma_classify_sets(today, yesterday);
}

/// Removing duplicates is idempotent and keeps the set of keys.
pub proof fn law_distinct_idempotent(s: Seq<PodKey>)
    ensures
        distinct(distinct(s)) == distinct(s),
        distinct(s).to_set() == s.to_set(),
{
    lemma_distinct(s);
    lemma_distinct_of_unique(distinct(s));
}

/// Idempotence of deduplication: comparing the snapshots gives the same
/// three lists as comparing them after their duplicates were removed.
pub proof fn law_dedup_idempotence(today: Seq<PodKey>, yesterday: Seq<PodKey>)
    ensures
        classify(distinct(today), distinct(yesterday)) == classify(today, yesterday),
{
    law_distinct_idempotent(today);
    law_distinct_idempotent(yesterday);
}

/// Symmetry: swapping the snapshots swaps new and resolved, list for list,
/// and keeps the set of ongoing pods.
pub proof fn law_symmetry(today: Seq<PodKey>, yesterday: Seq<PodKey>)
    ensures
        classify(today, yesterday).new == classify(yesterday, today).resolved,
        classify(today, yesterday).resolved == classify(yesterday, today).new,
        classify(today, yesterday).ongoing.to_set() == classify(yesterday, today).ongoing.to_set(),
{
    lemma_classify_sets(today, yesterday);
    lemma_classify_sets(yesterday, today);
    assert(today.to_set().intersect(yesterday.to_set()) =~= yesterday.to_set().intersect(
        today.to_set(),
    ));
}

/// The input order carries no meaning: snapshots that name the same pods,
/// in whatever order and however often, give the same three sets, and after
/// sorting the same three lists.
pub proof fn law_input_order_irrelevant(
    today: Seq<PodKey>,
    yesterday: Seq<PodKey>,
    today_again: Seq<PodKey>,
    yesterday_again: Seq<PodKey>,
    sorted: Classification,
    sorted_again: Classification,
)
    requires
        today.to_set() == today_again.to_set(),
        yesterday.to_set() == yesterday_again.to_set(),
        sorting_of(classify(today, yesterday).new, sorted.new),
        sorting_of(classify(today, yesterday).ongoing, sorted.ongoing),
        sorting_of(classify(today, yesterday).resolved, sorted.resolved),
        sorting_of(classify(today_again, yesterday_again).new, sorted_again.new),
        sorting_of(classify(today_again, yesterday_again).ongoing, sorted_again.ongoing),
        sorting_of(classify(today_again, yesterday_again).resolved, sorted_again.resolved),
    ensures
        classify(today, yesterday).sets() == classify(today_again, yesterday_again).sets(),
        sorted == sorted_again,
{
    let first = classify(today, yesterday);
    let second = classify(today_again, yesterday_again);
    lemma_classify_sets(today, yesterday);
    lemma_classify_sets(today_again, yesterday_again);
    lemma_same_set(first.new, second.new);
    lemma_same_set(first.ongoing, second.ongoing);
    lemma_same_set(first.resolved, second.resolved);
    law_ascending_unique(sorted.new, sorted_again.new);
    law_ascending_unique(sorted.ongoing, sorted_again.ongoing);
    law_ascending_unique(sorted.resolved, sorted_again.resolved);
}

/// Two empty snapshots give three empty lists.
pub proof fn law_both_empty()
    ensures
        classify(Seq::empty(), Seq::empty()).new == Seq::<PodKey>::empty(),
        classify(Seq::empty(), Seq::empty()).ongoing == Seq::<PodKey>::empty(),
        classify(Seq::empty(), Seq::empty()).resolved == Seq::<PodKey>::empty(),
{
    law_empty_yesterday(Seq::empty());
}

/// Against an empty yesterday every pod of today is new: the new list is
/// today without its duplicates, and nothing is ongoing or resolved.
pub proof fn law_empty_yesterday(today: Seq<PodKey>)
    ensures
        classify(today, Seq::empty()).new == distinct(today),
        classify(today, Seq::empty()).ongoing == Seq::<PodKey>::empty(),
        classify(today, Seq::empty()).resolved == Seq::<PodKey>::empty(),
{
    let none = Seq::<PodKey>::empty();
    lemma_filter_keeps_all(distinct(today), absent_from(none.to_set()));
    lemma_filter_keeps_none(distinct(today), member_of(none.to_set()));
    lemma_filter_keeps_none(distinct(none), absent_from(today.to_set()));
}

/// Against an empty today every pod of yesterday is resolved.
pub proof fn law_empty_today(yesterday: Seq<PodKey>)
    ensures
        classify(Seq::empty(), yesterday).new == Seq::<PodKey>::empty(),
        classify(Seq::empty(), yesterday).ongoing == Seq::<PodKey>::empty(),
        classify(Seq::empty(), yesterday).resolved == distinct(yesterday),
{
    law_empty_yesterday(yesterday);
    law_symmetry(Seq::empty(), yesterday);
    let none = Seq::<PodKey>::empty();
    lemma_filter_keeps_none(distinct(none), member_of(yesterday.to_set()));
}

/// A snapshot compared with itself: every pod is ongoing, the ongoing list
/// is the snapshot without its duplicates, and nothing is new or resolved.
pub proof fn law_identical_snapshots(snapshot: Seq<PodKey>)
    ensures
        classify(snapshot, snapshot).new == Seq::<PodKey>::empty(),
        classify(snapshot, snapshot).resolved == Seq::<PodKey>::empty(),
        classify(snapshot, snapshot).ongoing == distinct(snapshot),
{
    lemma_distinct(snapshot);
    let unique = distinct(snapshot);
    assert forall|i: int| 0 <= i < unique.len() implies snapshot.to_set().contains(
        #[trigger] unique[i],
    ) by {
        assert(unique.to_set().contains(unique[i]));
    }
    lemma_filter_keeps_all(unique, member_of(snapshot.to_set()));
    lemma_filter_keeps_none(unique, absent_from(snapshot.to_set()));
}

} // verus!
