//! Assembling one timestamped snapshot from per-interface read outcomes.
//!
//! The builder never fails: a failed read is absorbed into a zero-valued
//! sentinel sample, so every configured interface appears in every snapshot,
//! in configured order.

use vstd::prelude::*;
use crate::CounterSample;
use crate::reader::CounterError;

verus! {

/// One interface paired with its sample for one cycle.
#[derive(Clone, PartialEq, Eq, Debug)]
pub struct InterfaceRecord {
    pub interface: String,
    pub sample: CounterSample,
}

/// One complete, timestamped, per-interface traffic reading.  Immutable once
/// built; record order follows the configured interface order.
#[derive(Clone, PartialEq, Eq, Debug)]
pub struct Snapshot {
    pub timestamp: u64,
    pub records: Vec<InterfaceRecord>,
}

/// The content of a record: interface name, packets, bytes.
pub open spec fn record_model(r: InterfaceRecord) -> (Seq<char>, u64, u64) {
    (r.interface@, r.sample.packets, r.sample.bytes)
}

/// The content of a snapshot's records, timestamp aside.
pub open spec fn records_model(s: Snapshot) -> Seq<(Seq<char>, u64, u64)> {
    s.records@.map_values(|r: InterfaceRecord| record_model(r))
}

/// The sample a read outcome contributes: its value on success, the zero
/// sentinel on failure.
pub open spec fn read_sample(r: Result<CounterSample, CounterError>) -> CounterSample {
    match r {
        Ok(s) => s,
        Err(_) => CounterSample { packets: 0, bytes: 0 },
    }
}

/// The record content a builder produces from interfaces and read outcomes:
/// one record per interface, in order, failures absorbed as zero samples.
pub open spec fn built_records(
    ifaces: Seq<Seq<char>>,
    reads: Seq<Result<CounterSample, CounterError>>,
) -> Seq<(Seq<char>, u64, u64)> {
    Seq::new(
        ifaces.len(),
        |i: int| (ifaces[i], read_sample(reads[i]).packets, read_sample(reads[i]).bytes),
    )
}

/// Build the snapshot for one cycle from the shared timestamp and the read
/// outcome of each configured interface.  Never fails; failed reads become
/// zero samples so one bad counter cannot suppress the others' data.
pub fn build_snapshot(
    timestamp: u64,
    interfaces: &Vec<String>,
    reads: &Vec<Result<CounterSample, CounterError>>,
) -> (s: Snapshot)
    requires
        interfaces@.len() == reads@.len(),
    ensures
        s.timestamp == timestamp,
        s.records@.len() == interfaces@.len(),
        records_model(s) == built_records(
            crate::parse::views_of(interfaces@),
            reads@,
        ),
{
    let mut records: Vec<InterfaceRecord> = Vec::new();
    let mut i: usize = 0;
    while i < interfaces.len()
        invariant
            i <= interfaces@.len(),
            interfaces@.len() == reads@.len(),
            records@.len() == i,
            forall|j: int| 0 <= j < i ==> #[trigger] record_model(records@[j]) == built_records(
                crate::parse::views_of(interfaces@),
                reads@,
            )[j],
        decreases interfaces@.len() - i,
    {
        let sample = match &reads[i] {
            Ok(s) => *s,
            Err(_) => CounterSample::zero(),
        };
        records.push(InterfaceRecord { interface: interfaces[i].clone(), sample });
        i += 1;
    }
    let s = Snapshot { timestamp, records };
    proof {
        assert(records_model(s) =~= built_records(crate::parse::views_of(interfaces@), reads@));
    }
    s
}

/// Law: a built snapshot has exactly one record per configured interface, in
/// configured order, however many of the underlying reads failed.
pub proof fn lemma_snapshot_covers_interfaces(
    ifaces: Seq<Seq<char>>,
    reads: Seq<Result<CounterSample, CounterError>>,
)
    requires
        ifaces.len() == reads.len(),
    ensures
        built_records(ifaces, reads).len() == ifaces.len(),
        forall|i: int| 0 <= i < ifaces.len() ==> #[trigger] built_records(ifaces, reads)[i].0
            == ifaces[i],
{
}

/// Law: building twice from the same interfaces and the same read outcomes
/// yields snapshots that differ at most in their timestamp.
pub proof fn lemma_build_idempotent(
    s1: Snapshot,
    s2: Snapshot,
    ifaces: Seq<Seq<char>>,
    reads: Seq<Result<CounterSample, CounterError>>,
)
    requires
        records_model(s1) == built_records(ifaces, reads),
        records_model(s2) == built_records(ifaces, reads),
    ensures
        records_model(s1) == records_model(s2),
{
}

} // verus!
