//! The order of pod identities for presentation.
//!
//! A comparison lists its pods in the order in which the snapshots name
//! them. A caller that wants an order that does not depend on the input sorts
//! the lists afterwards, by cluster, then namespace, then pod name, each
//! compared lexicographically. Sorting is a step of its own and changes which
//! pods a list holds in no way.

use crate::differ::ComparisonResult;
use crate::identity::{PodIdentity, PodKey};
use crate::snapshot::keys;
use vstd::multiset::Multiset;
use vstd::prelude::*;
use vstd::relations::{sorted_by, total_ordering};
use vstd::seq_lib::{
    lemma_sorted_unique, to_multiset_build, to_multiset_contains, to_multiset_insert,
    to_multiset_len,
};
use vstd::std_specs::iter::IteratorSpec;

verus! {

/// How one value stands to another in a total order.
#[derive(Clone, Copy, Debug, PartialEq, Eq, Structural)]
pub enum Rank {
    Before,
    Same,
    After,
}

/// The code point of a character.
pub open spec fn code_point(c: char) -> int {
    c as int
}

/// A code point is what the character gives as a 32-bit number.
pub proof fn lemma_code_point(c: char)
    ensures
        code_point(c) == c as u32,
{
}

/// Lexicographic comparison of two texts, character by character, each
/// character taken by its code point. A proper prefix comes before the
/// longer text.
pub open spec fn text_rank(a: Seq<char>, b: Seq<char>) -> Rank
    decreases a.len(),
{
    if a.len() == 0 {
        if b.len() == 0 {
            Rank::Same
        } else {
            Rank::Before
        }
    } else if b.len() == 0 {
        Rank::After
    } else if a[0] == b[0] {
        text_rank(a.skip(1), b.skip(1))
    } else if code_point(a[0]) < code_point(b[0]) {
        Rank::Before
    } else {
        Rank::After
    }
}

/// Compares two strings lexicographically by code point.
pub fn rank_text(a: &str, b: &str) -> (r: Rank)
    ensures
        r == text_rank(a@, b@),
{
    let mut left = a.chars();
    let mut right = b.chars();
    loop
        invariant
            left.decrease() is Some,
            text_rank(a@, b@) == text_rank(left.remaining(), right.remaining()),
        decreases left.decrease()->0,
    {
        match left.next() {
            None => {
                return match right.next() {
                    None => Rank::Same,
                    Some(_) => Rank::Before,
                };
            },
            Some(c) => {
                match right.next() {
                    None => {
                        return Rank::After;
                    },
                    Some(d) => {
                        proof {
                            lemma_code_point(c);
                            lemma_code_point(d);
                        }
                        if c != d {
                            return if (c as u32) < (d as u32) {
                                Rank::Before
                            } else {
                                Rank::After
                            };
                        }
                    },
                }
            },
        }
    }
}

impl Rank {
    /// The rank seen from the other side.
    pub open spec fn flip(self) -> Rank {
        match self {
            Rank::Before => Rank::After,
            Rank::Same => Rank::Same,
            Rank::After => Rank::Before,
        }
    }

    /// The rank of a pair whose first components have rank `self` and whose
    /// second components have rank `next`.
    pub open spec fn then_by(self, next: Rank) -> Rank {
        match self {
            Rank::Same => next,
            _ => self,
        }
    }
}

/// Comparison of two keys: by cluster, then by namespace, then by pod name.
pub open spec fn key_rank(a: PodKey, b: PodKey) -> Rank {
    text_rank(a.cluster, b.cluster).then_by(
        text_rank(a.namespace, b.namespace).then_by(text_rank(a.pod, b.pod)),
    )
}

/// The keys are in ascending order.
pub open spec fn ascending(s: Seq<PodKey>) -> bool {
    forall|i: int, j: int| 0 <= i < j < s.len() ==> key_rank(s[i], s[j]) != Rank::After
}

/// Two texts have the same rank exactly when they are equal, and swapping
/// them flips the rank.
pub proof fn lemma_text_rank(a: Seq<char>, b: Seq<char>)
    ensures
        text_rank(a, b) == Rank::Same <==> a == b,
        text_rank(b, a) == text_rank(a, b).flip(),
    decreases a.len(),
{
    if a.len() == 0 || b.len() == 0 {
        assert(a.len() == 0 && b.len() == 0 ==> a =~= b);
    } else {
        lemma_text_rank(a.skip(1), b.skip(1));
        if a[0] == b[0] {
            if a.skip(1) == b.skip(1) {
                assert(a =~= seq![a[0]] + a.skip(1));
                assert(b =~= seq![b[0]] + b.skip(1));
            }
        }
    }
}

/// The lexicographic order of texts is transitive.
pub proof fn lemma_text_rank_transitive(a: Seq<char>, b: Seq<char>, c: Seq<char>)
    requires
        text_rank(a, b) == Rank::Before,
        text_rank(b, c) == Rank::Before,
    ensures
        text_rank(a, c) == Rank::Before,
    decreases a.len(),
{
    if a.len() > 0 && a[0] == b[0] && b[0] == c[0] {
        lemma_text_rank_transitive(a.skip(1), b.skip(1), c.skip(1));
    }
}

/// Two keys have the same rank exactly when they are equal, and swapping
/// them flips the rank.
pub proof fn lemma_key_rank(a: PodKey, b: PodKey)
    ensures
        key_rank(a, b) == Rank::Same <==> a == b,
        key_rank(b, a) == key_rank(a, b).flip(),
{
    lemma_text_rank(a.cluster, b.cluster);
    lemma_text_rank(a.namespace, b.namespace);
    lemma_text_rank(a.pod, b.pod);
}

/// The order of keys is transitive.
pub proof fn lemma_key_rank_transitive(a: PodKey, b: PodKey, c: PodKey)
    requires
        key_rank(a, b) != Rank::After,
        key_rank(b, c) != Rank::After,
    ensures
        key_rank(a, c) != Rank::After,
{
    lemma_key_rank(a, b);
    lemma_key_rank(b, c);
    if a != b && b != c {
        lemma_text_rank(a.cluster, b.cluster);
        lemma_text_rank(b.cluster, c.cluster);
        lemma_text_rank(a.namespace, b.namespace);
        lemma_text_rank(b.namespace, c.namespace);
        if a.cluster != b.cluster && b.cluster != c.cluster {
            lemma_text_rank_transitive(a.cluster, b.cluster, c.cluster);
        } else if a.cluster == b.cluster && b.cluster == c.cluster {
            if a.namespace != b.namespace && b.namespace != c.namespace {
                lemma_text_rank_transitive(a.namespace, b.namespace, c.namespace);
            } else if a.namespace == b.namespace && b.namespace == c.namespace {
                lemma_text_rank_transitive(a.pod, b.pod, c.pod);
            }
        }
    }
}

/// `sorted` is `list` put in ascending order: it is ascending and holds the
/// keys of `list`, each as often as `list` does.
pub open spec fn sorting_of(list: Seq<PodKey>, sorted: Seq<PodKey>) -> bool {
    ascending(sorted) && sorted.to_multiset() == list.to_multiset()
}

/// An ascending list is determined by the keys it holds: two ascending
/// lists with the same keys, each as often, are the same list. So a list
/// has one sorting only.
pub proof fn law_ascending_unique(s: Seq<PodKey>, t: Seq<PodKey>)
    requires
        ascending(s),
        ascending(t),
        s.to_multiset() == t.to_multiset(),
    ensures
        s == t,
{
    assert forall|x: PodKey, y: PodKey| key_rank(x, y) != Rank::After && key_rank(y, x)
        != Rank::After implies x == y by {
        lemma_key_rank(x, y);
    }
    let leq = |x: PodKey, y: PodKey| key_rank(x, y) != Rank::After;
    assert forall|x: PodKey| #[trigger] leq(x, x) by {
        lemma_key_rank(x, x);
    }
    assert forall|x: PodKey, y: PodKey| !#[trigger] leq(x, y) implies #[trigger] leq(y, x) by {
        lemma_key_rank(x, y);
    }
    assert forall|x: PodKey, y: PodKey, z: PodKey| #[trigger]
        leq(x, y) && #[trigger] leq(y, z) implies leq(x, z) by {
        lemma_key_rank_transitive(x, y, z);
    }
    lemma_sorted_unique(s, t, leq);
}

/// Two lists without repetition that name the same set of pods hold the
/// same keys, each once.
pub proof fn lemma_same_set(s: Seq<PodKey>, t: Seq<PodKey>)
    requires
        s.no_duplicates(),
        t.no_duplicates(),
        s.to_set() == t.to_set(),
    ensures
        s.to_multiset() == t.to_multiset(),
{
    s.lemma_multiset_has_no_duplicates();
    t.lemma_multiset_has_no_duplicates();
    assert forall|k: PodKey| s.to_multiset().count(k) == t.to_multiset().count(k) by {
        to_multiset_contains(s, k);
        to_multiset_contains(t, k);
        assert(s.contains(k) == s.to_set().contains(k));
        assert(t.contains(k) == t.to_set().contains(k));
    }
    assert(s.to_multiset() =~= t.to_multiset());
}

/// Two lists that hold the same keys, each as often, name the same set of
/// pods, and either both or neither of them repeats a key.
pub proof fn lemma_same_keys(s: Seq<PodKey>, t: Seq<PodKey>)
    requires
        s.to_multiset() == t.to_multiset(),
    ensures
        s.to_set() == t.to_set(),
        s.len() == t.len(),
        s.no_duplicates() == t.no_duplicates(),
{
    to_multiset_len(s);
    to_multiset_len(t);
    assert forall|k: PodKey| s.contains(k) == t.contains(k) by {
        to_multiset_contains(s, k);
        to_multiset_contains(t, k);
    }
    if s.no_duplicates() {
        s.lemma_multiset_has_no_duplicates();
        t.lemma_multiset_has_no_duplicates_conv();
    }
    if t.no_duplicates() {
        t.lemma_multiset_has_no_duplicates();
        s.lemma_multiset_has_no_duplicates_conv();
    }
}

/// Compares two identities: by cluster, then namespace, then pod name.
pub fn rank_identities(a: &PodIdentity, b: &PodIdentity) -> (r: Rank)
    ensures
        r == key_rank(a@, b@),
{
    match rank_text(a.cluster(), b.cluster()) {
        Rank::Same => match rank_text(a.namespace(), b.namespace()) {
            Rank::Same => rank_text(a.pod(), b.pod()),
            r => r,
        },
        r => r,
    }
}

/// Puts `id` into an ascending list at its place.
fn insert_ascending(list: &mut Vec<PodIdentity>, id: PodIdentity)
    requires
        ascending(keys(old(list)@)),
    ensures
        ascending(keys(final(list)@)),
        keys(final(list)@).to_multiset() == keys(old(list)@).to_multiset().insert(id@),
{
    let ghost before = keys(list@);
    let mut at: usize = 0;
    while at < list.len() && !matches!(rank_identities(&list[at], &id), Rank::After)
        invariant
            at <= list.len(),
            before == keys(list@),
            forall|j: int| 0 <= j < at ==> key_rank(before[j], id@) != Rank::After,
        decreases list.len() - at,
    {
        at += 1;
    }
    list.insert(at, id);
    proof {
        let after = keys(list@);
        assert(after =~= before.insert(at as int, id@));
        to_multiset_insert(before, at as int, id@);
        assert forall|i: int, j: int| 0 <= i < j < after.len() implies key_rank(after[i], after[j])
            != Rank::After by {
            if i == at {
                lemma_key_rank(before[at as int], id@);
                if j - 1 > at {
                    lemma_key_rank_transitive(id@, before[at as int], before[j - 1]);
                }
            }
        }
    }
}

/// The identities of `list` in ascending order: by cluster, then namespace,
/// then pod name. The result holds the same identities as `list`, each as
/// often as `list` does.
pub fn sort_identities(list: Vec<PodIdentity>) -> (sorted: Vec<PodIdentity>)
    ensures
        sorting_of(keys(list@), keys(sorted@)),
{
    let ghost all = keys(list@).to_multiset();
    let mut rest = list;
    let mut sorted: Vec<PodIdentity> = Vec::new();
    assert(keys(sorted@).to_multiset() =~= Multiset::<PodKey>::empty()) by {
        to_multiset_len(keys(sorted@));
    }
    while rest.len() > 0
        invariant
            ascending(keys(sorted@)),
            keys(sorted@).to_multiset().add(keys(rest@).to_multiset()) == all,
        decreases rest.len(),
    {
        let ghost rest_before = keys(rest@);
        let ghost sorted_before = keys(sorted@);
        let id = rest.pop().unwrap();
        proof {
            assert(rest_before =~= keys(rest@).push(id@));
            to_multiset_build(keys(rest@), id@);
        }
        insert_ascending(&mut sorted, id);
        assert(keys(sorted@).to_multiset().add(keys(rest@).to_multiset()) =~= sorted_before.to_multiset().add(
            rest_before.to_multiset(),
        ));
    }
    proof {
        to_multiset_len(keys(rest@));
        assert(keys(rest@).to_multiset() =~= Multiset::<PodKey>::empty());
        assert(keys(sorted@).to_multiset() =~= all);
    }
    sorted
}

impl ComparisonResult {
    /// The same comparison with each of its three lists in ascending
    /// order.
    pub fn sorted(self) -> (r: ComparisonResult)
        ensures
            sorting_of(self@.new, r@.new),
            sorting_of(self@.ongoing, r@.ongoing),
            sorting_of(self@.resolved, r@.resolved),
            r@.sets() == self@.sets(),
            r@.well_formed() == self@.well_formed(),
    {
        let r = ComparisonResult {
            new: sort_identities(self.new),
            ongoing: sort_identities(self.ongoing),
            resolved: sort_identities(self.resolved),
        };
        proof {
            lemma_same_keys(r@.new, self@.new);
            lemma_same_keys(r@.ongoing, self@.ongoing);
            lemma_same_keys(r@.resolved, self@.resolved);
        }
        r
    }
}

} // verus!
