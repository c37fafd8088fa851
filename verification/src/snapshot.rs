//! Snapshots: finite sequences of pod identities, read as sets.
//!
//! A snapshot may list a pod more than once and in any order. Its meaning is
//! the set of keys that occur in it. The operations here are the set algebra
//! that a comparison is made of, carried out on vectors: each result lists
//! every key once, in the order in which the keys first occur in the input.

use crate::identity::{PodIdentity, PodKey};
use vstd::prelude::*;
use vstd::seq_lib::lemma_seq_contains_after_push;

verus! {

/// The keys of a snapshot, in input order, duplicates included.
pub open spec fn keys(s: Seq<PodIdentity>) -> Seq<PodKey> {
    s.map_values(|p: PodIdentity| p@)
}

/// The set of pods that a snapshot names.
pub open spec fn key_set(s: Seq<PodIdentity>) -> Set<PodKey> {
    keys(s).to_set()
}

/// The keys of `s` without repetition: each key once, at the place of its
/// first occurrence.
pub open spec fn distinct(s: Seq<PodKey>) -> Seq<PodKey> {
    s.remove_duplicates(Seq::empty())
}

/// The predicate "is named in `others`".
pub open spec fn member_of(others: Set<PodKey>) -> spec_fn(PodKey) -> bool {
    |k: PodKey| others.contains(k)
}

/// The predicate "is not named in `others`".
pub open spec fn absent_from(others: Set<PodKey>) -> spec_fn(PodKey) -> bool {
    |k: PodKey| !others.contains(k)
}

/// Removing duplicates with an accumulator that has none yields a sequence
/// that has none.
pub proof fn lemma_remove_duplicates_unique(s: Seq<PodKey>, seen: Seq<PodKey>)
    requires
        seen.no_duplicates(),
    ensures
        s.remove_duplicates(seen).no_duplicates(),
    decreases s.len(),
{
    if s.len() > 0 {
        if seen.contains(s[0]) {
            lemma_remove_duplicates_unique(s.skip(1), seen);
        } else {
            let grown = seen + seq![s[0]];
            assert(grown.no_duplicates());
            lemma_remove_duplicates_unique(s.skip(1), grown);
        }
    }
}

/// `distinct` keeps the set of keys and lists no key twice.
pub proof fn lemma_distinct(s: Seq<PodKey>)
    ensures
        distinct(s).no_duplicates(),
        distinct(s).to_set() == s.to_set(),
        distinct(s).len() <= s.len(),
{
    let none = Seq::<PodKey>::empty();
    lemma_remove_duplicates_unique(s, none);
    s.lemma_remove_duplicates_properties(none);
    assert(s + none =~= s);
    assert(distinct(s).to_set() =~= s.to_set());
}

/// Over a sequence without repetition, the keys from `i` on are all new to
/// the keys before `i`, so removing duplicates appends them unchanged.
proof fn lemma_remove_duplicates_prefix(s: Seq<PodKey>, i: int)
    requires
        s.no_duplicates(),
        0 <= i <= s.len(),
    ensures
        s.skip(i).remove_duplicates(s.take(i)) == s,
    decreases s.len() - i,
{
    if i < s.len() {
        assert(!s.take(i).contains(s[i]));
        assert(s.skip(i).skip(1) =~= s.skip(i + 1));
        assert(s.take(i) + seq![s[i]] =~= s.take(i + 1));
        lemma_remove_duplicates_prefix(s, i + 1);
    }
}

/// A sequence that lists no key twice is its own `distinct`.
pub proof fn lemma_distinct_of_unique(s: Seq<PodKey>)
    requires
        s.no_duplicates(),
    ensures
        distinct(s) == s,
{
    lemma_remove_duplicates_prefix(s, 0);
    assert(s.take(0) =~= Seq::<PodKey>::empty());
    assert(s.skip(0) =~= s);
}

/// Filtering a sequence filters its set and keeps it free of repetition.
pub proof fn lemma_filter_keys(s: Seq<PodKey>, pred: spec_fn(PodKey) -> bool)
    ensures
        s.filter(pred).to_set() == s.to_set().filter(pred),
        s.no_duplicates() ==> s.filter(pred).no_duplicates(),
    decreases s.len(),
{
    broadcast use lemma_seq_contains_after_push;

    reveal(Seq::filter);
    if s.len() > 0 {
        let front = s.drop_last();
        let last = s.last();
        let kept = front.filter(pred);
        lemma_filter_keys(front, pred);
        assert(s =~= front.push(last));
        assert forall|k: PodKey| kept.contains(k) <==> (front.contains(k) && pred(k)) by {
            assert(kept.to_set().contains(k) <==> front.to_set().filter(pred).contains(k));
        }
        assert(s.filter(pred).to_set() =~= s.to_set().filter(pred));
        if s.no_duplicates() && pred(last) {
            assert(!front.contains(last));
            assert(kept.push(last).no_duplicates());
        }
    }
}

/// Whether `id` is among the pods that `snapshot` names.
pub fn contains(snapshot: &Vec<PodIdentity>, id: &PodIdentity) -> (found: bool)
    ensures
        found == key_set(snapshot@).contains(id@),
{
    let mut i: usize = 0;
    while i < snapshot.len()
        invariant
            i <= snapshot.len(),
            forall|j: int| 0 <= j < i ==> keys(snapshot@)[j] != id@,
        decreases snapshot.len() - i,
    {
        if snapshot[i] == *id {
            assert(keys(snapshot@)[i as int] == id@);
            return true;
        }
        i += 1;
    }
    false
}

/// The snapshot with every repetition removed: each pod once, in the order
/// of first occurrence.
pub fn dedup(snapshot: &Vec<PodIdentity>) -> (unique: Vec<PodIdentity>)
    ensures
        keys(unique@) == distinct(keys(snapshot@)),
        keys(unique@).no_duplicates(),
        key_set(unique@) == key_set(snapshot@),
{
    let ghost all = keys(snapshot@);
    let mut unique: Vec<PodIdentity> = Vec::new();
    let mut i: usize = 0;
    assert(all.skip(0) =~= all);
    while i < snapshot.len()
        invariant
            i <= snapshot.len(),
            all == keys(snapshot@),
            distinct(all) == all.skip(i as int).remove_duplicates(keys(unique@)),
        decreases snapshot.len() - i,
    {
        let ghost seen = keys(unique@);
        assert(all.skip(i as int).skip(1) =~= all.skip(i + 1));
        if !contains(&unique, &snapshot[i]) {
            unique.push(snapshot[i].clone());
            assert(keys(unique@) =~= seen + seq![all[i as int]]);
        }
        i += 1;
    }
    proof {
        lemma_distinct(all);
    }
    unique
}

/// The entries of `from`, in their order, chosen by whether `others` names
/// them: those that it names when `named` is true, those that it does not
/// name otherwise.
fn select(from: &Vec<PodIdentity>, others: &Vec<PodIdentity>, named: bool) -> (chosen: Vec<
    PodIdentity,
>)
    ensures
        keys(chosen@) == keys(from@).filter(
            if named {
                member_of(key_set(others@))
            } else {
                absent_from(key_set(others@))
            },
        ),
{
    let ghost all = keys(from@);
    let ghost pred = if named {
        member_of(key_set(others@))
    } else {
        absent_from(key_set(others@))
    };
    let mut chosen: Vec<PodIdentity> = Vec::new();
    let mut i: usize = 0;
    assert(keys(chosen@) =~= all.take(0).filter(pred)) by {
        reveal(Seq::filter);
    }
    while i < from.len()
        invariant
            i <= from.len(),
            all == keys(from@),
            pred == if named {
                member_of(key_set(others@))
            } else {
                absent_from(key_set(others@))
            },
            keys(chosen@) == all.take(i as int).filter(pred),
        decreases from.len() - i,
    {
        proof {
            assert(all.take(i + 1) =~= all.take(i as int).push(all[i as int]));
            all.take(i as int).lemma_filter_push(all[i as int], pred);
        }
        if contains(others, &from[i]) == named {
            chosen.push(from[i].clone());
        }
        i += 1;
    }
    assert(all.take(from.len() as int) =~= all);
    chosen
}

/// The entries of `from` that `others` does not name, in the order of `from`.
pub fn difference(from: &Vec<PodIdentity>, others: &Vec<PodIdentity>) -> (kept: Vec<PodIdentity>)
    ensures
        keys(kept@) == keys(from@).filter(absent_from(key_set(others@))),
        key_set(kept@) == key_set(from@).difference(key_set(others@)),
        keys(from@).no_duplicates() ==> keys(kept@).no_duplicates(),
{
    let kept = select(from, others, false);
    proof {
        lemma_filter_keys(keys(from@), absent_from(key_set(others@)));
    }
    kept
}

/// The entries of `from` that `others` names too, in the order of `from`.
pub fn intersection(from: &Vec<PodIdentity>, others: &Vec<PodIdentity>) -> (kept: Vec<PodIdentity>)
    ensures
        keys(kept@) == keys(from@).filter(member_of(key_set(others@))),
        key_set(kept@) == key_set(from@).intersect(key_set(others@)),
        keys(from@).no_duplicates() ==> keys(kept@).no_duplicates(),
{
    let kept = select(from, others, true);
    proof {
        lemma_filter_keys(keys(from@), member_of(key_set(others@)));
    }
    kept
}

} // verus!
