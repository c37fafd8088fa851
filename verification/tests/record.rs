use k8s_pod_monitor::differ::ComparisonResult;
use k8s_pod_monitor::identity::{Field, PodIdentity};
use k8s_pod_monitor::record::{
    analyze_pod_changes, validate_record, validate_snapshot, decimal_string, Fault, FormatError, Input,
    RawRecord, RecordError,
};

fn raw(cluster: Option<&str>, namespace: Option<&str>, pod: Option<&str>) -> RawRecord {
    RawRecord {
        cluster: cluster.map(|s| s.to_string()),
        namespace: namespace.map(|s| s.to_string()),
        pod: pod.map(|s| s.to_string()),
    }
}

fn full(name: &str) -> RawRecord {
    raw(Some("c1"), Some("ns1"), Some(name))
}

fn ident(name: &str) -> PodIdentity {
    PodIdentity::new("c1".to_string(), "ns1".to_string(), name.to_string()).unwrap()
}

#[test]
fn sound_record_gives_its_identity() {
    assert_eq!(validate_record(&full("podA")), Ok(ident("podA")));
}

#[test]
fn missing_fields_are_reported_in_order() {
    let missing = |field| Err(RecordError { field, fault: Fault::Missing });
    assert_eq!(validate_record(&raw(None, Some("ns"), Some("p"))), missing(Field::Cluster));
    assert_eq!(validate_record(&raw(Some("c"), None, Some("p"))), missing(Field::Namespace));
    assert_eq!(validate_record(&raw(Some("c"), Some("ns"), None)), missing(Field::Pod));
    assert_eq!(validate_record(&raw(None, None, None)), missing(Field::Cluster));
    assert_eq!(validate_record(&raw(Some("c"), None, None)), missing(Field::Namespace));
}

#[test]
fn empty_fields_are_reported_in_order() {
    let empty = |field| Err(RecordError { field, fault: Fault::Empty });
    assert_eq!(validate_record(&raw(Some(""), Some("ns"), Some("p"))), empty(Field::Cluster));
    assert_eq!(validate_record(&raw(Some("c"), Some(""), Some("p"))), empty(Field::Namespace));
    assert_eq!(validate_record(&raw(Some("c"), Some("ns"), Some(""))), empty(Field::Pod));
    assert_eq!(validate_record(&raw(Some(""), Some(""), Some(""))), empty(Field::Cluster));
}

#[test]
fn a_missing_field_is_reported_before_an_empty_one() {
    assert_eq!(
        validate_record(&raw(Some(""), Some("ns"), None)),
        Err(RecordError { field: Field::Pod, fault: Fault::Missing })
    );
}

#[test]
fn sound_snapshot_gives_identities_in_input_order() {
    let records = vec![full("b"), full("a"), full("b")];
    assert_eq!(validate_snapshot(&records), Ok(vec![ident("b"), ident("a"), ident("b")]));
    assert_eq!(validate_snapshot(&Vec::new()), Ok(Vec::new()));
}

#[test]
fn snapshot_reports_its_first_malformed_record() {
    let records = vec![
        full("a"),
        raw(Some("c1"), Some(""), Some("b")),
        raw(None, Some("ns1"), Some("c")),
    ];
    assert_eq!(
        validate_snapshot(&records),
        Err((1, RecordError { field: Field::Namespace, fault: Fault::Empty }))
    );
}

#[test]
fn analyze_duplicate_today_scenario() {
    let today = vec![full("podA"), full("podB"), full("podB")];
    let yesterday = vec![full("podB"), full("podC")];
    assert_eq!(
        analyze_pod_changes(&today, &yesterday),
        Ok(ComparisonResult {
            new: vec![ident("podA")],
            ongoing: vec![ident("podB")],
            resolved: vec![ident("podC")],
        })
    );
}

#[test]
fn analyze_record_without_pod_is_a_format_error() {
    let today = vec![full("podA"), raw(Some("c1"), Some("ns1"), None)];
    let yesterday = vec![full("podA")];
    assert_eq!(
        analyze_pod_changes(&today, &yesterday),
        Err(FormatError {
            input: Input::Today,
            index: 1,
            field: Field::Pod,
            fault: Fault::Missing,
        })
    );
    let e = analyze_pod_changes(&today, &yesterday).unwrap_err();
    assert_eq!(e.field.name(), "pod");
}

#[test]
fn analyze_reports_a_fault_in_yesterday() {
    let today = vec![full("podA")];
    let yesterday = vec![full("podA"), full("podB"), raw(Some("c1"), None, Some("x"))];
    assert_eq!(
        analyze_pod_changes(&today, &yesterday),
        Err(FormatError {
            input: Input::Yesterday,
            index: 2,
            field: Field::Namespace,
            fault: Fault::Missing,
        })
    );
}

#[test]
fn analyze_reports_today_before_yesterday() {
    let today = vec![full("podA"), full("podB"), raw(Some("c1"), Some("ns1"), Some(""))];
    let yesterday = vec![raw(None, None, None)];
    assert_eq!(
        analyze_pod_changes(&today, &yesterday),
        Err(FormatError {
            input: Input::Today,
            index: 2,
            field: Field::Pod,
            fault: Fault::Empty,
        })
    );
}

#[test]
fn analyze_of_two_empty_snapshots_is_empty() {
    assert_eq!(
        analyze_pod_changes(&Vec::new(), &Vec::new()),
        Ok(ComparisonResult { new: Vec::new(), ongoing: Vec::new(), resolved: Vec::new() })
    );
}

#[test]
fn decimal_string_writes_numerals() {
    assert_eq!(decimal_string(0), "0");
    assert_eq!(decimal_string(7), "7");
    assert_eq!(decimal_string(9), "9");
    assert_eq!(decimal_string(10), "10");
    assert_eq!(decimal_string(101), "101");
    assert_eq!(decimal_string(1234567890), "1234567890");
    assert_eq!(decimal_string(usize::MAX), usize::MAX.to_string());
}

#[test]
fn message_names_snapshot_record_and_field() {
    let e = FormatError { input: Input::Today, index: 1, field: Field::Pod, fault: Fault::Missing };
    assert_eq!(e.message(), "today[1]: missing field `pod`");
    let e = FormatError {
        input: Input::Yesterday,
        index: 120,
        field: Field::Namespace,
        fault: Fault::Empty,
    };
    assert_eq!(e.message(), "yesterday[120]: empty field `namespace`");
    let e = FormatError { input: Input::Today, index: 0, field: Field::Cluster, fault: Fault::Empty };
    assert_eq!(e.message(), "today[0]: empty field `cluster`");
}

#[test]
fn fault_and_input_names() {
    assert_eq!(Fault::Missing.name(), "missing");
    assert_eq!(Fault::Empty.name(), "empty");
    assert_eq!(Input::Today.name(), "today");
    assert_eq!(Input::Yesterday.name(), "yesterday");
}
