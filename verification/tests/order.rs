use k8s_pod_monitor::differ::{compare, ComparisonResult};
use k8s_pod_monitor::identity::PodIdentity;
use k8s_pod_monitor::order::{rank_identities, rank_text, sort_identities, Rank};

fn id(cluster: &str, namespace: &str, pod: &str) -> PodIdentity {
    PodIdentity::new(cluster.to_string(), namespace.to_string(), pod.to_string()).unwrap()
}

fn expected_rank(o: std::cmp::Ordering) -> Rank {
    match o {
        std::cmp::Ordering::Less => Rank::Before,
        std::cmp::Ordering::Equal => Rank::Same,
        std::cmp::Ordering::Greater => Rank::After,
    }
}

#[test]
fn rank_text_is_lexicographic() {
    assert_eq!(rank_text("", ""), Rank::Same);
    assert_eq!(rank_text("", "a"), Rank::Before);
    assert_eq!(rank_text("a", ""), Rank::After);
    assert_eq!(rank_text("abc", "abc"), Rank::Same);
    assert_eq!(rank_text("abc", "abd"), Rank::Before);
    assert_eq!(rank_text("abd", "abc"), Rank::After);
    assert_eq!(rank_text("ab", "abc"), Rank::Before);
    assert_eq!(rank_text("abc", "ab"), Rank::After);
    assert_eq!(rank_text("b", "abc"), Rank::After);
    assert_eq!(rank_text("Z", "a"), Rank::Before);
    assert_eq!(rank_text("pod-10", "pod-2"), Rank::Before);
}

#[test]
fn rank_text_agrees_with_the_standard_string_order() {
    let samples = [
        "", "a", "A", "ab", "abc", "b", "pod-1", "pod-10", "pod-2", "é", "e", "z", "日本", "日",
        "\u{10000}", "\u{ffff}", "~", "nvidia.com/mig-1g.5gb",
    ];
    for a in samples {
        for b in samples {
            assert_eq!(rank_text(a, b), expected_rank(a.cmp(b)), "{:?} against {:?}", a, b);
        }
    }
}

#[test]
fn rank_identities_goes_by_cluster_then_namespace_then_pod() {
    assert_eq!(rank_identities(&id("a", "z", "z"), &id("b", "a", "a")), Rank::Before);
    assert_eq!(rank_identities(&id("b", "a", "a"), &id("a", "z", "z")), Rank::After);
    assert_eq!(rank_identities(&id("a", "a", "z"), &id("a", "b", "a")), Rank::Before);
    assert_eq!(rank_identities(&id("a", "b", "a"), &id("a", "a", "z")), Rank::After);
    assert_eq!(rank_identities(&id("a", "a", "a"), &id("a", "a", "b")), Rank::Before);
    assert_eq!(rank_identities(&id("a", "a", "b"), &id("a", "a", "a")), Rank::After);
    assert_eq!(rank_identities(&id("a", "a", "a"), &id("a", "a", "a")), Rank::Same);
    assert_eq!(rank_identities(&id("ab", "c", "d"), &id("a", "bc", "d")), Rank::After);
}

#[test]
fn sort_identities_orders_and_keeps_every_entry() {
    let list = vec![
        id("c2", "ns1", "a"),
        id("c1", "ns2", "a"),
        id("c1", "ns1", "b"),
        id("c1", "ns1", "a"),
        id("c1", "ns2", "a"),
        id("c1", "ns1", "ab"),
    ];
    assert_eq!(
        sort_identities(list),
        vec![
            id("c1", "ns1", "a"),
            id("c1", "ns1", "ab"),
            id("c1", "ns1", "b"),
            id("c1", "ns2", "a"),
            id("c1", "ns2", "a"),
            id("c2", "ns1", "a"),
        ]
    );
    assert_eq!(sort_identities(Vec::new()), Vec::<PodIdentity>::new());
}

#[test]
fn sort_identities_does_not_depend_on_input_order() {
    let forward = vec![id("c", "n", "1"), id("c", "n", "2"), id("c", "n", "3"), id("b", "n", "9")];
    let mut backward = forward.clone();
    backward.reverse();
    assert_eq!(sort_identities(forward), sort_identities(backward));
}

#[test]
fn sorted_comparison_is_the_same_for_swapped_ongoing() {
    let today = vec![id("c", "n", "d"), id("c", "n", "b"), id("c", "n", "a")];
    let yesterday = vec![id("c", "n", "a"), id("c", "n", "x"), id("c", "n", "b"), id("c", "n", "d")];
    let forward = compare(today.clone(), yesterday.clone()).sorted();
    let backward = compare(yesterday, today).sorted();
    assert_eq!(forward.ongoing, backward.ongoing);
    assert_eq!(
        forward,
        ComparisonResult {
            new: Vec::new(),
            ongoing: vec![id("c", "n", "a"), id("c", "n", "b"), id("c", "n", "d")],
            resolved: vec![id("c", "n", "x")],
        }
    );
}

#[test]
fn sorted_comparison_does_not_depend_on_input_order() {
    let today = vec![id("c", "n", "d"), id("c", "n", "b"), id("c", "n", "q"), id("c", "n", "a")];
    let yesterday = vec![id("c", "n", "a"), id("c", "n", "x"), id("c", "n", "b"), id("c", "n", "w")];
    let shuffled_today =
        vec![id("c", "n", "a"), id("c", "n", "q"), id("c", "n", "d"), id("c", "n", "b"), id("c", "n", "q")];
    let shuffled_yesterday =
        vec![id("c", "n", "w"), id("c", "n", "b"), id("c", "n", "x"), id("c", "n", "a"), id("c", "n", "b")];
    let first = compare(today, yesterday).sorted();
    let second = compare(shuffled_today, shuffled_yesterday).sorted();
    assert_eq!(first, second);
    assert_eq!(first.new, vec![id("c", "n", "d"), id("c", "n", "q")]);
    assert_eq!(first.ongoing, vec![id("c", "n", "a"), id("c", "n", "b")]);
    assert_eq!(first.resolved, vec![id("c", "n", "w"), id("c", "n", "x")]);
}
