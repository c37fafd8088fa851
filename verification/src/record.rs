//! Decoded records and their validation.
//!
//! A record arrives with each of its three fields either present or absent.
//! It becomes a pod identity only if all three are present and non-empty.
//! A snapshot with a malformed record is rejected as a whole: the error names
//! the first such record and what is wrong with it, and nothing is compared.

use crate::differ::{classify, compare, ComparisonResult};
use crate::identity::{first_empty, Field, PodIdentity, PodKey};
use crate::snapshot::keys;
use vstd::prelude::*;
use vstd::string::StringExecFns;

verus! {

/// A record as decoded, before any check: a field that the input did not
/// hold is `None`.
#[derive(Debug, Clone, PartialEq, Eq)]
pub struct RawRecord {
    pub cluster: Option<String>,
    pub namespace: Option<String>,
    pub pod: Option<String>,
}

/// The mathematical value of a raw record.
pub struct RawKey {
    pub cluster: Option<Seq<char>>,
    pub namespace: Option<Seq<char>>,
    pub pod: Option<Seq<char>>,
}

/// The value of an optional string.
pub open spec fn text_of(field: Option<String>) -> Option<Seq<char>> {
    match field {
        Some(s) => Some(s@),
        None => None,
    }
}

impl View for RawRecord {
    type V = RawKey;

    open spec fn view(&self) -> RawKey {
        RawKey {
            cluster: text_of(self.cluster),
            namespace: text_of(self.namespace),
            pod: text_of(self.pod),
        }
    }
}

/// The values of a sequence of raw records, in input order.
pub open spec fn raw_keys(records: Seq<RawRecord>) -> Seq<RawKey> {
    records.map_values(|r: RawRecord| r@)
}

/// What can be wrong with a field of a record.
#[derive(Clone, Copy, Debug, PartialEq, Eq, Structural)]
pub enum Fault {
    /// The record does not hold the field.
    Missing,
    /// The record holds the field with an empty value.
    Empty,
}

/// What is wrong with a record: the field at fault and how.
#[derive(Clone, Copy, Debug, PartialEq, Eq, Structural)]
pub struct RecordError {
    pub field: Field,
    pub fault: Fault,
}

/// Which of the two snapshots of a comparison.
#[derive(Clone, Copy, Debug, PartialEq, Eq, Structural)]
pub enum Input {
    Today,
    Yesterday,
}

/// A data-format error: the snapshot, the position of the record in it, the
/// field at fault and how it is at fault.
#[derive(Clone, Copy, Debug, PartialEq, Eq, Structural)]
pub struct FormatError {
    pub input: Input,
    pub index: usize,
    pub field: Field,
    pub fault: Fault,
}

impl Fault {
    /// The word for the fault in a message.
    pub open spec fn spec_name(self) -> Seq<char> {
        match self {
            Fault::Missing => "missing"@,
            Fault::Empty => "empty"@,
        }
    }

    /// The word for the fault in a message.
    pub fn name(self) -> (r: &'static str)
        ensures
            r@ == self.spec_name(),
    {
        match self {
            Fault::Missing => "missing",
            Fault::Empty => "empty",
        }
    }
}

impl Input {
    /// The word for the snapshot in a message.
    pub open spec fn spec_name(self) -> Seq<char> {
        match self {
            Input::Today => "today"@,
            Input::Yesterday => "yesterday"@,
        }
    }

    /// The word for the snapshot in a message.
    pub fn name(self) -> (r: &'static str)
        ensures
            r@ == self.spec_name(),
    {
        match self {
            Input::Today => "today",
            Input::Yesterday => "yesterday",
        }
    }
}

/// The text of a decimal digit.
pub open spec fn digit_text(d: nat) -> Seq<char>
    recommends
        d < 10,
{
    if d == 0 {
        "0"@
    } else if d == 1 {
        "1"@
    } else if d == 2 {
        "2"@
    } else if d == 3 {
        "3"@
    } else if d == 4 {
        "4"@
    } else if d == 5 {
        "5"@
    } else if d == 6 {
        "6"@
    } else if d == 7 {
        "7"@
    } else if d == 8 {
        "8"@
    } else {
        "9"@
    }
}

/// The decimal numeral of a number, without leading zeros.
pub open spec fn decimal(n: nat) -> Seq<char>
    decreases n,
{
    if n < 10 {
        digit_text(n)
    } else {
        decimal(n / 10) + digit_text(n % 10)
    }
}

fn digit(d: usize) -> (r: &'static str)
    requires
        d < 10,
    ensures
        r@ == digit_text(d as nat),
{
    if d == 0 {
        "0"
    } else if d == 1 {
        "1"
    } else if d == 2 {
        "2"
    } else if d == 3 {
        "3"
    } else if d == 4 {
        "4"
    } else if d == 5 {
        "5"
    } else if d == 6 {
        "6"
    } else if d == 7 {
        "7"
    } else if d == 8 {
        "8"
    } else {
        "9"
    }
}

/// The decimal numeral of `n`.
pub fn decimal_string(n: usize) -> (r: String)
    ensures
        r@ == decimal(n as nat),
    decreases n,
{
    if n < 10 {
        digit(n).to_owned()
    } else {
        let mut text = decimal_string(n / 10);
        text.append(digit(n % 10));
        text
    }
}

impl FormatError {
    /// The message of the error: the snapshot and the position of the
    /// record in it, then the fault and the name of the field, as in
    /// ``today[3]: missing field `pod` ``.
    pub open spec fn spec_message(self) -> Seq<char> {
        self.input.spec_name() + "["@ + decimal(self.index as nat) + "]: "@
            + self.fault.spec_name() + " field `"@ + self.field.spec_name() + "`"@
    }

    /// The message of the error.
    pub fn message(&self) -> (r: String)
        ensures
            r@ == self.spec_message(),
    {
        let mut text = self.input.name().to_owned();
        text.append("[");
        text.append(decimal_string(self.index).as_str());
        text.append("]: ");
        text.append(self.fault.name());
        text.append(" field `");
        text.append(self.field.name());
        text.append("`");
        text
    }
}

impl RawKey {
    /// What is wrong with the record, if anything. A missing field is
    /// reported before an empty one; among missing fields, and among empty
    /// ones, the order is cluster, namespace, pod.
    pub open spec fn fault(self) -> Option<RecordError> {
        if self.cluster is None {
            Some(RecordError { field: Field::Cluster, fault: Fault::Missing })
        } else if self.namespace is None {
            Some(RecordError { field: Field::Namespace, fault: Fault::Missing })
        } else if self.pod is None {
            Some(RecordError { field: Field::Pod, fault: Fault::Missing })
        } else {
            match first_empty(self.cluster->0, self.namespace->0, self.pod->0) {
                Some(field) => Some(RecordError { field, fault: Fault::Empty }),
                None => None,
            }
        }
    }

    /// The key that a sound record stands for.
    pub open spec fn key(self) -> PodKey
        recommends
            self.fault() is None,
    {
        PodKey { cluster: self.cluster->0, namespace: self.namespace->0, pod: self.pod->0 }
    }
}

/// Every record of the sequence is sound.
pub open spec fn all_sound(records: Seq<RawKey>) -> bool {
    forall|i: int| 0 <= i < records.len() ==> (#[trigger] records[i]).fault() is None
}

/// The record at `index` has the fault `error`, and every record before it
/// is sound.
pub open spec fn first_fault_at(records: Seq<RawKey>, index: int, error: RecordError) -> bool {
    &&& 0 <= index < records.len()
    &&& records[index].fault() == Some(error)
    &&& all_sound(records.take(index))
}

/// The keys that a sequence of sound records stands for, in input order.
pub open spec fn sound_keys(records: Seq<RawKey>) -> Seq<PodKey> {
    records.map_values(|r: RawKey| r.key())
}

/// Validates one record. A sound record gives its identity; any other
/// gives its fault.
pub fn validate_record(record: &RawRecord) -> (r: Result<PodIdentity, RecordError>)
    ensures
        match r {
            Ok(id) => record@.fault() is None && id@ == record@.key(),
            Err(e) => record@.fault() == Some(e),
        },
{
    let cluster = match &record.cluster {
        Some(s) => s.clone(),
        None => {
            return Err(RecordError { field: Field::Cluster, fault: Fault::Missing });
        },
    };
    let namespace = match &record.namespace {
        Some(s) => s.clone(),
        None => {
            return Err(RecordError { field: Field::Namespace, fault: Fault::Missing });
        },
    };
    let pod = match &record.pod {
        Some(s) => s.clone(),
        None => {
            return Err(RecordError { field: Field::Pod, fault: Fault::Missing });
        },
    };
    match PodIdentity::new(cluster, namespace, pod) {
        Ok(id) => Ok(id),
        Err(field) => Err(RecordError { field, fault: Fault::Empty }),
    }
}

/// Validates a snapshot record by record. If all are sound, gives their
/// identities in input order; otherwise gives the position and the fault of
/// the first record that is not, and no identity at all.
pub fn validate_snapshot(records: &Vec<RawRecord>) -> (r: Result<Vec<PodIdentity>, (usize, RecordError)>)
    ensures
        match r {
            Ok(ids) => all_sound(raw_keys(records@)) && keys(ids@) == sound_keys(
                raw_keys(records@),
            ),
            Err((index, e)) => first_fault_at(raw_keys(records@), index as int, e),
        },
{
    let ghost raws = raw_keys(records@);
    let mut ids: Vec<PodIdentity> = Vec::new();
    let mut i: usize = 0;
    while i < records.len()
        invariant
            i <= records.len(),
            raws == raw_keys(records@),
            all_sound(raws.take(i as int)),
            keys(ids@) == sound_keys(raws.take(i as int)),
        decreases records.len() - i,
    {
        match validate_record(&records[i]) {
            Ok(id) => {
                ids.push(id);
            },
            Err(e) => {
                return Err((i, e));
            },
        }
        proof {
            assert(sound_keys(raws.take(i + 1)) =~= sound_keys(raws.take(i as int)).push(
                raws[i as int].key(),
            ));
        }
        i += 1;
    }
    assert(raws.take(records.len() as int) =~= raws);
    Ok(ids)
}

/// The outcome that `analyze_pod_changes` owes for two decoded snapshots:
/// the classification of their keys if every record is sound, else the first
/// fault, looked for in today's snapshot before yesterday's.
pub open spec fn analysis_matches(
    today: Seq<RawKey>,
    yesterday: Seq<RawKey>,
    r: Result<ComparisonResult, FormatError>,
) -> bool {
    match r {
        Ok(result) => {
            &&& all_sound(today)
            &&& all_sound(yesterday)
            &&& result@ == classify(sound_keys(today), sound_keys(yesterday))
        },
        Err(e) => {
            let fault = RecordError { field: e.field, fault: e.fault };
            match e.input {
                Input::Today => first_fault_at(today, e.index as int, fault),
                Input::Yesterday => all_sound(today) && first_fault_at(
                    yesterday,
                    e.index as int,
                    fault,
                ),
            }
        },
    }
}

/// Compares two decoded snapshots.
///
/// Both snapshots are validated first, today's before yesterday's. If a record
/// is malformed the call fails with a format error that names the snapshot,
/// the record and the field, and no part of a comparison is returned.
/// Otherwise the result is that of `compare` on the records' identities.
pub fn analyze_pod_changes(today: &Vec<RawRecord>, yesterday: &Vec<RawRecord>) -> (r: Result<
    ComparisonResult,
    FormatError,
>)
    ensures
        analysis_matches(raw_keys(today@), raw_keys(yesterday@), r),
        r is Ok ==> r->Ok_0@.well_formed(),
{
    let today_ids = match validate_snapshot(today) {
        Ok(ids) => ids,
        Err((index, e)) => {
            return Err(FormatError { input: Input::Today, index, field: e.field, fault: e.fault });
        },
    };
    let yesterday_ids = match validate_snapshot(yesterday) {
        Ok(ids) => ids,
        Err((index, e)) => {
            return Err(
                FormatError { input: Input::Yesterday, index, field: e.field, fault: e.fault },
            );
        },
    };
    Ok(compare(today_ids, yesterday_ids))
}

} // verus!
