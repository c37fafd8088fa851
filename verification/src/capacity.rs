//! Per-node capacity report.
//!
//! A node reports two resource lists, what it has (capacity) and what it can
//! hand out (allocatable). The report picks from them the CPU, the memory
//! and the accelerator count, and one line for every accelerator partition
//! that the capacity list names. A resource that a list does not name is
//! reported with a fixed default instead of failing.

use crate::order::{lemma_text_rank, rank_text, Rank};
use vstd::prelude::*;
use vstd::std_specs::iter::IteratorSpec;
use vstd::string::StringExecFns;

verus! {

/// One entry of a resource list: the resource's name and its quantity, both
/// as the node gives them.
#[derive(Debug, Clone, PartialEq, Eq)]
pub struct Resource {
    pub name: String,
    pub quantity: String,
}

/// The value of a resource entry: name and quantity.
pub type Entry = (Seq<char>, Seq<char>);

impl View for Resource {
    type V = Entry;

    open spec fn view(&self) -> Entry {
        (self.name@, self.quantity@)
    }
}

/// The values of a resource list, in the order of the list.
pub open spec fn entries(list: Seq<Resource>) -> Seq<Entry> {
    list.map_values(|r: Resource| r@)
}

/// The name of the CPU resource.
pub open spec fn cpu_name() -> Seq<char> {
    "cpu"@
}

/// The name of the memory resource.
pub open spec fn memory_name() -> Seq<char> {
    "memory"@
}

/// The name of the accelerator resource.
pub open spec fn gpu_name() -> Seq<char> {
    "nvidia.com/gpu"@
}

/// What the name of every accelerator-partition resource starts with.
pub open spec fn partition_prefix() -> Seq<char> {
    "nvidia.com/mig"@
}

/// What is reported for a CPU or memory quantity that is not listed.
pub open spec fn unknown_amount() -> Seq<char> {
    "-"@
}

/// What is reported for an accelerator count that is not listed.
pub open spec fn zero_amount() -> Seq<char> {
    "0"@
}

/// The quantity that a list gives for a resource: that of the first entry
/// with this name, or `None` where the list does not name the resource.
pub open spec fn quantity_of(list: Seq<Entry>, name: Seq<char>) -> Option<Seq<char>>
    decreases list.len(),
{
    if list.len() == 0 {
        None
    } else if list[0].0 == name {
        Some(list[0].1)
    } else {
        quantity_of(list.skip(1), name)
    }
}

/// A list gives for a name the quantity of its first entry with that name,
/// and gives nothing exactly when no entry has the name.
pub proof fn law_quantity_of_first_entry(list: Seq<Entry>, name: Seq<char>)
    ensures
        match quantity_of(list, name) {
            Some(q) => exists|i: int|
                0 <= i < list.len() && #[trigger] list[i] == (name, q) && forall|j: int|
                    0 <= j < i ==> (#[trigger] list[j]).0 != name,
            None => forall|i: int| 0 <= i < list.len() ==> (#[trigger] list[i]).0 != name,
        },
    decreases list.len(),
{
    if list.len() > 0 && list[0].0 != name {
        let rest = list.skip(1);
        law_quantity_of_first_entry(rest, name);
        match quantity_of(rest, name) {
            Some(q) => {
                let i = choose|i: int|
                    0 <= i < rest.len() && #[trigger] rest[i] == (name, q) && forall|j: int|
                        0 <= j < i ==> (#[trigger] rest[j]).0 != name;
                assert forall|j: int| 0 <= j < i + 1 implies (#[trigger] list[j]).0 != name by {
                    if j > 0 {
                        assert(list[j] == rest[j - 1]);
                    }
                }
            },
            None => {
                assert forall|i: int| 0 <= i < list.len() implies (#[trigger] list[i]).0
                    != name by {
                    if i > 0 {
                        assert(list[i] == rest[i - 1]);
                    }
                }
            },
        }
    }
}

/// The quantity that a list gives for a resource, or `default` where the
/// list does not name it.
pub open spec fn amount_or(list: Seq<Entry>, name: Seq<char>, default: Seq<char>) -> Seq<char> {
    match quantity_of(list, name) {
        Some(q) => q,
        None => default,
    }
}

/// The predicate "names an accelerator partition".
pub open spec fn names_partition() -> spec_fn(Entry) -> bool {
    |e: Entry| partition_prefix().is_prefix_of(e.0)
}

/// Capacity and allocatable quantity of one resource.
#[derive(Debug, Clone, PartialEq, Eq)]
pub struct Amounts {
    pub capacity: String,
    pub allocatable: String,
}

impl View for Amounts {
    type V = (Seq<char>, Seq<char>);

    open spec fn view(&self) -> (Seq<char>, Seq<char>) {
        (self.capacity@, self.allocatable@)
    }
}

/// The amounts reported for a resource.
pub open spec fn amounts_of(
    capacity: Seq<Entry>,
    allocatable: Seq<Entry>,
    name: Seq<char>,
    default: Seq<char>,
) -> (Seq<char>, Seq<char>) {
    (amount_or(capacity, name, default), amount_or(allocatable, name, default))
}

/// One accelerator partition of a node: its resource name, its capacity and
/// its allocatable count.
#[derive(Debug, Clone, PartialEq, Eq)]
pub struct PartitionLine {
    pub name: String,
    pub capacity: String,
    pub allocatable: String,
}

/// The value of a partition line: name, capacity, allocatable.
pub type Line = (Seq<char>, Seq<char>, Seq<char>);

impl View for PartitionLine {
    type V = Line;

    open spec fn view(&self) -> Line {
        (self.name@, self.capacity@, self.allocatable@)
    }
}

/// The values of a list of partition lines.
pub open spec fn lines(list: Seq<PartitionLine>) -> Seq<Line> {
    list.map_values(|l: PartitionLine| l@)
}

/// The partition line for one capacity entry.
pub open spec fn line_for(allocatable: Seq<Entry>) -> spec_fn(Entry) -> Line {
    |e: Entry| (e.0, e.1, amount_or(allocatable, e.0, zero_amount()))
}

/// The partition lines of a node: one for each capacity entry whose name
/// starts with the partition prefix, in the order of the capacity list, each
/// with the allocatable count of the same name, or zero.
pub open spec fn partition_lines(capacity: Seq<Entry>, allocatable: Seq<Entry>) -> Seq<Line> {
    capacity.filter(names_partition()).map_values(line_for(allocatable))
}

/// The capacity report of one node.
#[derive(Debug, Clone, PartialEq, Eq)]
pub struct NodeCapacity {
    pub node: String,
    pub cpu: Amounts,
    pub memory: Amounts,
    pub gpu: Amounts,
    pub partitions: Vec<PartitionLine>,
}

/// The value of a node's capacity report.
pub struct NodeCapacityView {
    pub node: Seq<char>,
    pub cpu: (Seq<char>, Seq<char>),
    pub memory: (Seq<char>, Seq<char>),
    pub gpu: (Seq<char>, Seq<char>),
    pub partitions: Seq<Line>,
}

impl View for NodeCapacity {
    type V = NodeCapacityView;

    open spec fn view(&self) -> NodeCapacityView {
        NodeCapacityView {
            node: self.node@,
            cpu: self.cpu@,
            memory: self.memory@,
            gpu: self.gpu@,
            partitions: lines(self.partitions@),
        }
    }
}

/// The report that a node's two resource lists give. CPU and memory default
/// to the unknown amount, the accelerator count to zero.
pub open spec fn report_of(node: Seq<char>, capacity: Seq<Entry>, allocatable: Seq<Entry>)
    -> NodeCapacityView {
    NodeCapacityView {
        node,
        cpu: amounts_of(capacity, allocatable, cpu_name(), unknown_amount()),
        memory: amounts_of(capacity, allocatable, memory_name(), unknown_amount()),
        gpu: amounts_of(capacity, allocatable, gpu_name(), zero_amount()),
        partitions: partition_lines(capacity, allocatable),
    }
}

/// Whether `text` starts with `prefix`.
pub fn has_prefix(text: &str, prefix: &str) -> (r: bool)
    ensures
        r == prefix@.is_prefix_of(text@),
{
    let mut wanted = prefix.chars();
    let mut given = text.chars();
    let ghost mut seen: Seq<char> = Seq::empty();
    loop
        invariant
            wanted.decrease() is Some,
            prefix@ == seen + wanted.remaining(),
            text@ == seen + given.remaining(),
        decreases wanted.decrease()->0,
    {
        match wanted.next() {
            None => {
                return true;
            },
            Some(c) => {
                match given.next() {
                    None => {
                        return false;
                    },
                    Some(d) => {
                        if c != d {
                            proof {
                                if prefix@.len() <= text@.len() {
                                    let head = text@.subrange(0, prefix@.len() as int);
                                    assert(head[seen.len() as int] == d);
                                }
                            }
                            return false;
                        }
                        proof {
                            seen = seen.push(c);
                        }
                    },
                }
            },
        }
    }
}

/// The quantity that `list` gives for the resource `name`.
pub fn find_quantity<'a>(list: &'a Vec<Resource>, name: &str) -> (r: Option<&'a str>)
    ensures
        match r {
            Some(q) => quantity_of(entries(list@), name@) == Some(q@),
            None => quantity_of(entries(list@), name@) is None,
        },
{
    let ghost all = entries(list@);
    let mut i: usize = 0;
    assert(all.skip(0) =~= all);
    while i < list.len()
        invariant
            i <= list.len(),
            all == entries(list@),
            quantity_of(all, name@) == quantity_of(all.skip(i as int), name@),
        decreases list.len() - i,
    {
        proof {
            lemma_text_rank(list@[i as int].name@, name@);
            assert(all.skip(i as int).skip(1) =~= all.skip(i + 1));
        }
        if matches!(rank_text(list[i].name.as_str(), name), Rank::Same) {
            return Some(list[i].quantity.as_str());
        }
        i += 1;
    }
    None
}

/// The quantity that `list` gives for the resource `name`, or `default`
/// where the list does not name it.
pub fn quantity_or(list: &Vec<Resource>, name: &str, default: &str) -> (r: String)
    ensures
        r@ == amount_or(entries(list@), name@, default@),
{
    match find_quantity(list, name) {
        Some(q) => q.to_owned(),
        None => default.to_owned(),
    }
}

/// The amounts of one resource in both lists.
fn amounts(capacity: &Vec<Resource>, allocatable: &Vec<Resource>, name: &str, default: &str) -> (r:
    Amounts)
    ensures
        r@ == amounts_of(entries(capacity@), entries(allocatable@), name@, default@),
{
    Amounts {
        capacity: quantity_or(capacity, name, default),
        allocatable: quantity_or(allocatable, name, default),
    }
}

/// The partition lines of a node, from its two resource lists.
pub fn partitions(capacity: &Vec<Resource>, allocatable: &Vec<Resource>) -> (r: Vec<PartitionLine>)
    ensures
        lines(r@) == partition_lines(entries(capacity@), entries(allocatable@)),
{
    let ghost caps = entries(capacity@);
    let ghost allocs = entries(allocatable@);
    let mut out: Vec<PartitionLine> = Vec::new();
    let mut i: usize = 0;
    proof {
        reveal(Seq::filter);
    }
    while i < capacity.len()
        invariant
            i <= capacity.len(),
            caps == entries(capacity@),
            allocs == entries(allocatable@),
            lines(out@) == partition_lines(caps.take(i as int), allocs),
        decreases capacity.len() - i,
    {
        let ghost kept = caps.take(i as int).filter(names_partition());
        proof {
            assert(caps.take(i + 1) =~= caps.take(i as int).push(caps[i as int]));
            caps.take(i as int).lemma_filter_push(caps[i as int], names_partition());
        }
        let entry = &capacity[i];
        if has_prefix(entry.name.as_str(), "nvidia.com/mig") {
            out.push(
                PartitionLine {
                    name: entry.name.clone(),
                    capacity: entry.quantity.clone(),
                    allocatable: quantity_or(allocatable, entry.name.as_str(), "0"),
                },
            );
            proof {
                let line = line_for(allocs)(caps[i as int]);
                assert(kept.push(caps[i as int]).map_values(line_for(allocs)) =~= kept.map_values(
                    line_for(allocs),
                ).push(line));
            }
        }
        i += 1;
    }
    assert(caps.take(capacity.len() as int) =~= caps);
    out
}

/// The capacity report of the node `node` with the given resource lists.
pub fn node_capacity(node: String, capacity: &Vec<Resource>, allocatable: &Vec<Resource>) -> (r:
    NodeCapacity)
    ensures
        r@ == report_of(node@, entries(capacity@), entries(allocatable@)),
{
    NodeCapacity {
        node,
        cpu: amounts(capacity, allocatable, "cpu", "-"),
        memory: amounts(capacity, allocatable, "memory", "-"),
        gpu: amounts(capacity, allocatable, "nvidia.com/gpu", "0"),
        partitions: partitions(capacity, allocatable),
    }
}

/// The texts of a list of strings.
pub open spec fn texts(list: Seq<String>) -> Seq<Seq<char>> {
    list.map_values(|s: String| s@)
}

/// The four lines that report one resource: its title, its capacity, its
/// allocatable quantity and an empty line.
pub open spec fn section_text(title: Seq<char>, amounts: (Seq<char>, Seq<char>)) -> Seq<Seq<char>> {
    seq![title, "  Capacity:    "@ + amounts.0, "  Allocatable: "@ + amounts.1, ""@]
}

/// The line that reports one accelerator partition.
pub open spec fn partition_text() -> spec_fn(Line) -> Seq<char> {
    |l: Line| "  "@ + l.0 + " -> Capacity: "@ + l.1 + ", Allocatable: "@ + l.2
}

/// The lines before the partition lines of a report.
pub open spec fn report_head(r: NodeCapacityView) -> Seq<Seq<char>> {
    seq!["🖥️ Node: "@ + r.node, "-----------------------------------"@] + section_text(
        "📦 CPU:"@,
        r.cpu,
    ) + section_text("💾 Memory:"@, r.memory) + section_text("🎮 GPU:"@, r.gpu)
        + seq!["🔹 MIG GPU Instances:"@]
}

/// The lines after the partition lines of a report.
pub open spec fn report_foot() -> Seq<Seq<char>> {
    seq![""@, "==============================="@, ""@]
}

/// The printed form of a report, line by line: the node, then CPU, memory
/// and accelerator, then one line for each partition, then a separator.
pub open spec fn report_text(r: NodeCapacityView) -> Seq<Seq<char>> {
    report_head(r) + r.partitions.map_values(partition_text()) + report_foot()
}

/// Appends the four lines of one resource to `out`.
fn push_section(out: &mut Vec<String>, title: &str, amounts: &Amounts)
    ensures
        texts(final(out)@) == texts(old(out)@) + section_text(title@, amounts@),
{
    let mut capacity = "  Capacity:    ".to_owned();
    capacity.append(amounts.capacity.as_str());
    let mut allocatable = "  Allocatable: ".to_owned();
    allocatable.append(amounts.allocatable.as_str());
    out.push(title.to_owned());
    out.push(capacity);
    out.push(allocatable);
    out.push("".to_owned());
}

/// The printed form of a report, line by line.
pub fn report_lines(report: &NodeCapacity) -> (r: Vec<String>)
    ensures
        texts(r@) == report_text(report@),
{
    let mut out: Vec<String> = Vec::new();
    let mut first = "🖥️ Node: ".to_owned();
    first.append(report.node.as_str());
    out.push(first);
    out.push("-----------------------------------".to_owned());
    push_section(&mut out, "📦 CPU:", &report.cpu);
    push_section(&mut out, "💾 Memory:", &report.memory);
    push_section(&mut out, "🎮 GPU:", &report.gpu);
    let ghost sections = texts(out@);
    out.push("🔹 MIG GPU Instances:".to_owned());
    let ghost head = report_head(report@);
    let ghost all = lines(report.partitions@);
    assert(texts(out@) =~= sections + seq!["🔹 MIG GPU Instances:"@]);
    let mut i: usize = 0;
    while i < report.partitions.len()
        invariant
            i <= report.partitions.len(),
            all == lines(report.partitions@),
            texts(out@) == head + all.take(i as int).map_values(partition_text()),
        decreases report.partitions.len() - i,
    {
        let ghost before = texts(out@);
        let part = &report.partitions[i];
        let mut text = "  ".to_owned();
        text.append(part.name.as_str());
        text.append(" -> Capacity: ");
        text.append(part.capacity.as_str());
        text.append(", Allocatable: ");
        text.append(part.allocatable.as_str());
        out.push(text);
        proof {
            let line = partition_text()(all[i as int]);
            assert(texts(out@) =~= before.push(line));
            assert(all.take(i + 1).map_values(partition_text()) =~= all.take(i as int).map_values(
                partition_text(),
            ).push(line));
        }
        i += 1;
    }
    let ghost body = texts(out@);
    out.push("".to_owned());
    out.push("===============================".to_owned());
    out.push("".to_owned());
    assert(texts(out@) =~= body + report_foot());
    out
}

} // verus!
