use trafficmon::publish::serialize_snapshot;
use trafficmon::reader::{read_outcome, CounterError};
use trafficmon::snapshot::{build_snapshot, InterfaceRecord};
use trafficmon::CounterSample;

fn strings(v: &[&str]) -> Vec<String> {
    v.iter().map(|s| s.to_string()).collect()
}

#[test]
fn zero_is_the_sentinel_sample() {
    assert_eq!(CounterSample::zero(), CounterSample { packets: 0, bytes: 0 });
}

#[test]
fn builder_covers_all_interfaces_in_order() {
    let interfaces = strings(&["a", "b", "c"]);
    let reads = vec![
        Ok(CounterSample { packets: 1, bytes: 2 }),
        Err(CounterError::CommandError("down".to_string())),
        Ok(CounterSample { packets: 3, bytes: 4 }),
    ];
    let snap = build_snapshot(7, &interfaces, &reads);
    assert_eq!(snap.timestamp, 7);
    assert_eq!(snap.records.len(), 3);
    assert_eq!(snap.records[0].interface, "a".to_string());
    assert_eq!(snap.records[1].interface, "b".to_string());
    assert_eq!(snap.records[2].interface, "c".to_string());
    assert_eq!(snap.records[1].sample, CounterSample { packets: 0, bytes: 0 });
    assert_eq!(snap.records[2].sample, CounterSample { packets: 3, bytes: 4 });
}

#[test]
fn builder_all_reads_failed_still_full() {
    let interfaces = strings(&["x", "y"]);
    let reads: Vec<Result<CounterSample, CounterError>> = vec![
        Err(CounterError::ExecutionError("no such command".to_string())),
        Err(CounterError::CommandError("denied".to_string())),
    ];
    let snap = build_snapshot(0, &interfaces, &reads);
    assert_eq!(snap.records.len(), 2);
    for r in &snap.records {
        assert_eq!(r.sample, CounterSample { packets: 0, bytes: 0 });
    }
}

#[test]
fn builder_empty_interface_set() {
    let interfaces: Vec<String> = vec![];
    let reads: Vec<Result<CounterSample, CounterError>> = vec![];
    let snap = build_snapshot(9, &interfaces, &reads);
    assert_eq!(snap.records.len(), 0);
    assert_eq!(serialize_snapshot(&snap), "{\"timestamp\":9,\"data\":[]}");
}

#[test]
fn builder_idempotent_up_to_timestamp() {
    let interfaces = strings(&["eth0", "eth1"]);
    let reads = vec![
        Ok(CounterSample { packets: 10, bytes: 20 }),
        Ok(CounterSample { packets: 30, bytes: 40 }),
    ];
    let first = build_snapshot(100, &interfaces, &reads);
    let second = build_snapshot(101, &interfaces, &reads);
    assert_eq!(first.records, second.records);
    assert_ne!(first.timestamp, second.timestamp);
}

#[test]
fn scenario_one_good_one_failed_interface() {
    let interfaces = strings(&["eth1", "pppoe-wan"]);
    let reads = vec![
        read_outcome(true, "counter packets 120 bytes 45000", ""),
        read_outcome(false, "", "query failed"),
    ];
    let snap = build_snapshot(1700000000, &interfaces, &reads);
    let json = serialize_snapshot(&snap);
    assert_eq!(
        json,
        "{\"timestamp\":1700000000,\"data\":[\
         {\"iface\":\"eth1\",\"packets\":120,\"bytes\":45000},\
         {\"iface\":\"pppoe-wan\",\"packets\":0,\"bytes\":0}]}"
    );
}

#[test]
fn serialized_snapshot_reparses_with_identical_content() {
    let interfaces = strings(&["eth1", "pppoe-wan"]);
    let reads = vec![
        Ok(CounterSample { packets: 120, bytes: 45000 }),
        Ok(CounterSample { packets: 7, bytes: 8 }),
    ];
    let snap = build_snapshot(55, &interfaces, &reads);
    let json = serialize_snapshot(&snap);
    let doc: serde_json::Value = serde_json::from_str(&json).expect("output must be valid JSON");
    assert_eq!(doc["timestamp"].as_u64(), Some(55));
    let data = doc["data"].as_array().expect("data must be an array");
    assert_eq!(data.len(), 2);
    assert_eq!(data[0]["iface"].as_str(), Some("eth1"));
    assert_eq!(data[0]["packets"].as_u64(), Some(120));
    assert_eq!(data[0]["bytes"].as_u64(), Some(45000));
    assert_eq!(data[1]["iface"].as_str(), Some("pppoe-wan"));
    assert_eq!(data[1]["packets"].as_u64(), Some(7));
    assert_eq!(data[1]["bytes"].as_u64(), Some(8));
}

#[test]
fn serializer_escapes_interface_names() {
    let record = InterfaceRecord {
        interface: "odd\"name\\with\ncontrols".to_string(),
        sample: CounterSample { packets: 1, bytes: 2 },
    };
    let snap = trafficmon::snapshot::Snapshot { timestamp: 3, records: vec![record] };
    let json = serialize_snapshot(&snap);
    let doc: serde_json::Value = serde_json::from_str(&json).expect("output must be valid JSON");
    assert_eq!(
        doc["data"][0]["iface"].as_str(),
        Some("odd\"name\\with\ncontrols")
    );
}

#[test]
fn serializer_renders_extreme_values() {
    let interfaces = strings(&["big"]);
    let reads = vec![Ok(CounterSample { packets: u64::MAX, bytes: 0 })];
    let snap = build_snapshot(u64::MAX, &interfaces, &reads);
    let json = serialize_snapshot(&snap);
    assert_eq!(
        json,
        "{\"timestamp\":18446744073709551615,\"data\":[\
         {\"iface\":\"big\",\"packets\":18446744073709551615,\"bytes\":0}]}"
    );
}
