//! The snapshot differ: classifies the pods of two snapshots as new, ongoing
//! or resolved.

use crate::identity::{PodIdentity, PodKey};
use crate::snapshot::{
    absent_from, dedup, difference, distinct, intersection, key_set, keys, lemma_distinct,
    lemma_filter_keys, member_of,
};
use vstd::prelude::*;

verus! {

/// Three sets of pods: the meaning of a comparison, order and repetition
/// set aside.
pub struct Partition {
    pub new: Set<PodKey>,
    pub ongoing: Set<PodKey>,
    pub resolved: Set<PodKey>,
}

impl Partition {
    /// No pod is in two of the three sets.
    pub open spec fn pairwise_disjoint(self) -> bool {
        &&& self.new.disjoint(self.ongoing)
        &&& self.ongoing.disjoint(self.resolved)
        &&& self.new.disjoint(self.resolved)
    }

    /// Every pod that is in one of the three sets.
    pub open spec fn all(self) -> Set<PodKey> {
        self.new.union(self.ongoing).union(self.resolved)
    }
}

/// The comparison of two sets of pods: new is today without yesterday,
/// ongoing is what both hold, resolved is yesterday without today.
pub open spec fn partition(today: Set<PodKey>, yesterday: Set<PodKey>) -> Partition {
    Partition {
        new: today.difference(yesterday),
        ongoing: today.intersect(yesterday),
        resolved: yesterday.difference(today),
    }
}

/// Three lists of keys: what a comparison returns, key by key.
pub struct Classification {
    pub new: Seq<PodKey>,
    pub ongoing: Seq<PodKey>,
    pub resolved: Seq<PodKey>,
}

impl Classification {
    /// The three lists as sets.
    pub open spec fn sets(self) -> Partition {
        Partition {
            new: self.new.to_set(),
            ongoing: self.ongoing.to_set(),
            resolved: self.resolved.to_set(),
        }
    }

    /// No list names a pod twice, and no pod is in two lists.
    pub open spec fn well_formed(self) -> bool {
        &&& self.new.no_duplicates()
        &&& self.ongoing.no_duplicates()
        &&& self.resolved.no_duplicates()
        &&& self.sets().pairwise_disjoint()
    }
}

/// The comparison of two snapshots given as key sequences, which may repeat
/// keys. New and ongoing pods are listed in the order of their first
/// occurrence in `today`, resolved pods in the order of their first
/// occurrence in `yesterday`.
pub open spec fn classify(today: Seq<PodKey>, yesterday: Seq<PodKey>) -> Classification {
    Classification {
        new: distinct(today).filter(absent_from(yesterday.to_set())),
        ongoing: distinct(today).filter(member_of(yesterday.to_set())),
        resolved: distinct(yesterday).filter(absent_from(today.to_set())),
    }
}

/// `classify` computes the set partition of the two snapshots' sets, and
/// its lists are well formed.
pub proof fn lemma_classify_sets(today: Seq<PodKey>, yesterday: Seq<PodKey>)
    ensures
        classify(today, yesterday).sets() == partition(today.to_set(), yesterday.to_set()),
        classify(today, yesterday).well_formed(),
{
    let t = today.to_set();
    let y = yesterday.to_set();
    let c = classify(today, yesterday);
    lemma_distinct(today);
    lemma_distinct(yesterday);
    lemma_filter_keys(distinct(today), absent_from(y));
    lemma_filter_keys(distinct(today), member_of(y));
    lemma_filter_keys(distinct(yesterday), absent_from(t));
    assert(c.new.to_set() =~= t.difference(y));
    assert(c.ongoing.to_set() =~= t.intersect(y));
    assert(c.resolved.to_set() =~= y.difference(t));
}

/// The outcome of comparing today's snapshot with yesterday's.
#[derive(Debug, Clone, PartialEq, Eq)]
pub struct ComparisonResult {
    /// Pods that today's snapshot names and yesterday's does not.
    pub new: Vec<PodIdentity>,
    /// Pods that both snapshots name.
    pub ongoing: Vec<PodIdentity>,
    /// Pods that yesterday's snapshot names and today's does not.
    pub resolved: Vec<PodIdentity>,
}

impl View for ComparisonResult {
    type V = Classification;

    open spec fn view(&self) -> Classification {
        Classification {
            new: keys(self.new@),
            ongoing: keys(self.ongoing@),
            resolved: keys(self.resolved@),
        }
    }
}

/// Compares today's snapshot with yesterday's.
///
/// Each snapshot is read as a set: repeated entries count once and the input
/// order carries no meaning. The result holds every pod of either snapshot
/// in exactly one of its three lists. The call has no effect beyond its
/// result and cannot fail.
pub fn compare(today: Vec<PodIdentity>, yesterday: Vec<PodIdentity>) -> (result: ComparisonResult)
    ensures
        result@ == classify(keys(today@), keys(yesterday@)),
        result@.sets() == partition(key_set(today@), key_set(yesterday@)),
        result@.well_formed(),
{
    let today_unique = dedup(&today);
    let yesterday_unique = dedup(&yesterday);
    let new = difference(&today_unique, &yesterday_unique);
    let ongoing = intersection(&today_unique, &yesterday_unique);
    let resolved = difference(&yesterday_unique, &today_unique);
    proof {
        lemma_classify_sets(keys(today@), keys(yesterday@));
    }
    ComparisonResult { new, ongoing, resolved }
}

} // verus!
