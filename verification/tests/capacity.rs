use k8s_pod_monitor::capacity::{
    find_quantity, has_prefix, node_capacity, partitions, quantity_or, report_lines, Amounts,
    NodeCapacity, PartitionLine, Resource,
};

fn res(name: &str, quantity: &str) -> Resource {
    Resource { name: name.to_string(), quantity: quantity.to_string() }
}

fn amounts(capacity: &str, allocatable: &str) -> Amounts {
    Amounts { capacity: capacity.to_string(), allocatable: allocatable.to_string() }
}

fn line(name: &str, capacity: &str, allocatable: &str) -> PartitionLine {
    PartitionLine {
        name: name.to_string(),
        capacity: capacity.to_string(),
        allocatable: allocatable.to_string(),
    }
}

#[test]
fn has_prefix_matches_the_start_only() {
    assert!(has_prefix("nvidia.com/mig-1g.5gb", "nvidia.com/mig"));
    assert!(has_prefix("nvidia.com/mig", "nvidia.com/mig"));
    assert!(!has_prefix("nvidia.com/mi", "nvidia.com/mig"));
    assert!(!has_prefix("nvidia.com/gpu", "nvidia.com/mig"));
    assert!(!has_prefix("x-nvidia.com/mig-1g", "nvidia.com/mig"));
    assert!(!has_prefix("", "nvidia.com/mig"));
    assert!(has_prefix("anything", ""));
    assert!(has_prefix("", ""));
    assert!(!has_prefix("Nvidia.com/mig-1g", "nvidia.com/mig"));
}

#[test]
fn find_quantity_takes_the_first_entry_of_that_name() {
    let list = vec![res("cpu", "8"), res("memory", "32Gi"), res("cpu", "9")];
    assert_eq!(find_quantity(&list, "cpu"), Some("8"));
    assert_eq!(find_quantity(&list, "memory"), Some("32Gi"));
    assert_eq!(find_quantity(&list, "pods"), None);
    assert_eq!(find_quantity(&list, "cp"), None);
    assert_eq!(find_quantity(&list, "cpus"), None);
    assert_eq!(find_quantity(&Vec::new(), "cpu"), None);
}

#[test]
fn quantity_or_falls_back_to_the_default() {
    let list = vec![res("cpu", "8")];
    assert_eq!(quantity_or(&list, "cpu", "-"), "8");
    assert_eq!(quantity_or(&list, "memory", "-"), "-");
    assert_eq!(quantity_or(&list, "nvidia.com/gpu", "0"), "0");
}

#[test]
fn partitions_follow_the_capacity_list() {
    let capacity = vec![
        res("cpu", "64"),
        res("nvidia.com/gpu", "4"),
        res("nvidia.com/mig-1g.5gb", "7"),
        res("nvidia.com/mig-2g.10gb", "3"),
        res("pods", "110"),
    ];
    let allocatable = vec![res("nvidia.com/mig-2g.10gb", "2"), res("cpu", "63")];
    assert_eq!(
        partitions(&capacity, &allocatable),
        vec![line("nvidia.com/mig-1g.5gb", "7", "0"), line("nvidia.com/mig-2g.10gb", "3", "2")]
    );
    assert_eq!(partitions(&allocatable, &capacity), vec![line("nvidia.com/mig-2g.10gb", "2", "3")]);
    assert_eq!(partitions(&Vec::new(), &allocatable), Vec::new());
}

#[test]
fn node_capacity_reports_listed_resources() {
    let capacity = vec![
        res("cpu", "64"),
        res("memory", "256Gi"),
        res("nvidia.com/gpu", "4"),
        res("nvidia.com/mig-1g.5gb", "7"),
    ];
    let allocatable = vec![
        res("cpu", "63500m"),
        res("memory", "250Gi"),
        res("nvidia.com/gpu", "3"),
        res("nvidia.com/mig-1g.5gb", "6"),
    ];
    assert_eq!(
        node_capacity("node-1".to_string(), &capacity, &allocatable),
        NodeCapacity {
            node: "node-1".to_string(),
            cpu: amounts("64", "63500m"),
            memory: amounts("256Gi", "250Gi"),
            gpu: amounts("4", "3"),
            partitions: vec![line("nvidia.com/mig-1g.5gb", "7", "6")],
        }
    );
}

#[test]
fn node_capacity_reports_defaults_for_missing_resources() {
    assert_eq!(
        node_capacity("bare".to_string(), &Vec::new(), &Vec::new()),
        NodeCapacity {
            node: "bare".to_string(),
            cpu: amounts("-", "-"),
            memory: amounts("-", "-"),
            gpu: amounts("0", "0"),
            partitions: Vec::new(),
        }
    );
    let capacity = vec![res("cpu", "2")];
    let allocatable = vec![res("memory", "1Gi")];
    let r = node_capacity("half".to_string(), &capacity, &allocatable);
    assert_eq!(r.cpu, amounts("2", "-"));
    assert_eq!(r.memory, amounts("-", "1Gi"));
    assert_eq!(r.gpu, amounts("0", "0"));
}

#[test]
fn report_lines_print_a_full_node() {
    let capacity = vec![
        res("cpu", "64"),
        res("memory", "256Gi"),
        res("nvidia.com/gpu", "4"),
        res("nvidia.com/mig-1g.5gb", "7"),
        res("nvidia.com/mig-2g.10gb", "3"),
    ];
    let allocatable = vec![
        res("cpu", "63500m"),
        res("memory", "250Gi"),
        res("nvidia.com/mig-1g.5gb", "6"),
    ];
    let report = node_capacity("node-1".to_string(), &capacity, &allocatable);
    assert_eq!(
        report_lines(&report),
        vec![
            "🖥️ Node: node-1",
            "-----------------------------------",
            "📦 CPU:",
            "  Capacity:    64",
            "  Allocatable: 63500m",
            "",
            "💾 Memory:",
            "  Capacity:    256Gi",
            "  Allocatable: 250Gi",
            "",
            "🎮 GPU:",
            "  Capacity:    4",
            "  Allocatable: 0",
            "",
            "🔹 MIG GPU Instances:",
            "  nvidia.com/mig-1g.5gb -> Capacity: 7, Allocatable: 6",
            "  nvidia.com/mig-2g.10gb -> Capacity: 3, Allocatable: 0",
            "",
            "===============================",
            "",
        ]
    );
}

#[test]
fn report_lines_print_a_bare_node() {
    let report = node_capacity("bare".to_string(), &Vec::new(), &Vec::new());
    assert_eq!(
        report_lines(&report),
        vec![
            "🖥️ Node: bare",
            "-----------------------------------",
            "📦 CPU:",
            "  Capacity:    -",
            "  Allocatable: -",
            "",
            "💾 Memory:",
            "  Capacity:    -",
            "  Allocatable: -",
            "",
            "🎮 GPU:",
            "  Capacity:    0",
            "  Allocatable: 0",
            "",
            "🔹 MIG GPU Instances:",
            "",
            "===============================",
            "",
        ]
    );
}
