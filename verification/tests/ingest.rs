use eve_ingest::decode::DecodeError;
use eve_ingest::record::{EveRecord, JsonField};
use eve_ingest::writer::{BatchWriter, Processed};

const TS: &str = "2024-01-02T03:04:05.123456+0000";
const TS_MICROS: i64 = 1_704_164_645_123_456;

fn sfield(k: &str, v: &str) -> JsonField {
    JsonField {
        key: k.to_string(),
        text: format!("\"{}\"", v),
        str_val: Some(v.to_string()),
        int_val: None,
    }
}

fn ifield(k: &str, v: i64) -> JsonField {
    JsonField { key: k.to_string(), text: v.to_string(), str_val: None, int_val: Some(v) }
}

fn ofield(k: &str, text: &str) -> JsonField {
    JsonField { key: k.to_string(), text: text.to_string(), str_val: None, int_val: None }
}

fn flow_record(id: i64) -> EveRecord {
    EveRecord {
        fields: vec![
            sfield("event_type", "flow"),
            sfield("timestamp", TS),
            ifield("flow_id", id),
            sfield("src_ip", "10.0.0.1"),
            ifield("src_port", 1234),
            sfield("dest_ip", "10.0.0.2"),
            ifield("dest_port", 80),
            sfield("proto", "TCP"),
        ],
    }
}

fn alert_record(id: i64) -> EveRecord {
    EveRecord {
        fields: vec![
            sfield("event_type", "alert"),
            sfield("timestamp", TS),
            ifield("flow_id", id),
            ofield("alert", "{\"signature\":\"test\"}"),
        ],
    }
}

fn process(w: &mut BatchWriter, r: EveRecord) -> Result<Processed, DecodeError> {
    w.process_one(&Some(r))
}

fn inserted_rows(p: &Processed) -> usize {
    match p {
        Processed::Skipped => 0,
        Processed::Inserted(_, n) => *n,
    }
}

#[test]
fn flow_insert_idempotent() {
    let mut w = BatchWriter::new();
    let first = process(&mut w, flow_record(7)).unwrap();
    assert_eq!(inserted_rows(&first), 1);
    let second = process(&mut w, flow_record(7)).unwrap();
    assert_eq!(inserted_rows(&second), 0);
    assert_eq!(w.store.flows.len(), 1);
    assert_eq!(w.count, 2);
    assert_eq!(w.count_inserted, 1);
}

#[test]
fn skip_without_event_type() {
    let mut w = BatchWriter::new();
    let r = EveRecord { fields: vec![sfield("timestamp", TS), ifield("flow_id", 1)] };
    let p = w.process_one(&Some(r)).unwrap();
    assert!(matches!(p, Processed::Skipped));
    assert_eq!(w.count, 1);
    assert_eq!(w.count_inserted, 0);
}

#[test]
fn skip_unparsable_record() {
    let mut w = BatchWriter::new();
    let p = w.process_one(&None).unwrap();
    assert!(matches!(p, Processed::Skipped));
    assert_eq!(w.count, 1);
    assert_eq!(w.count_inserted, 0);
}

#[test]
fn skip_without_flow_id() {
    let mut w = BatchWriter::new();
    let r = EveRecord { fields: vec![sfield("event_type", "alert"), sfield("timestamp", TS)] };
    let p = w.process_one(&Some(r)).unwrap();
    assert!(matches!(p, Processed::Skipped));
    assert_eq!(w.count, 1);
    assert_eq!(w.count_inserted, 0);
}

#[test]
fn correlation_from_companion_record() {
    let mut w = BatchWriter::new();
    let mut companion = alert_record(42);
    companion.fields.push(sfield("pcap_filename", "a.pcap"));
    process(&mut w, companion).unwrap();
    process(&mut w, flow_record(42)).unwrap();
    assert_eq!(w.store.flows[0].pcap_filename, Some("a.pcap".to_string()));
}

#[test]
fn correlation_own_filename() {
    let mut w = BatchWriter::new();
    let mut flow = flow_record(42);
    flow.fields.push(sfield("pcap_filename", "b.pcap"));
    process(&mut w, flow).unwrap();
    assert_eq!(w.store.flows[0].pcap_filename, Some("b.pcap".to_string()));
}

#[test]
fn correlation_empty_default() {
    let mut w = BatchWriter::new();
    process(&mut w, flow_record(42)).unwrap();
    assert_eq!(w.store.flows[0].pcap_filename, Some(String::new()));
}

#[test]
fn correlation_overwrites_earlier_entry() {
    let mut w = BatchWriter::new();
    let mut first = alert_record(42);
    first.fields.push(sfield("pcap_filename", "old.pcap"));
    process(&mut w, first).unwrap();
    let mut second = alert_record(42);
    second.fields.push(sfield("pcap_filename", "new.pcap"));
    process(&mut w, second).unwrap();
    process(&mut w, flow_record(42)).unwrap();
    assert_eq!(w.store.flows[0].pcap_filename, Some("new.pcap".to_string()));
}

#[test]
fn flow_fields_stored() {
    let mut w = BatchWriter::new();
    let mut flow = flow_record(9);
    flow.fields.push(sfield("app_proto", "http"));
    flow.fields.push(ofield("metadata", "{\"flowbits\":[\"x\"]}"));
    flow.fields.push(ofield("flow", "{\"pkts_toserver\":3}"));
    process(&mut w, flow).unwrap();
    let row = &w.store.flows[0];
    assert_eq!(row.id, 9);
    assert_eq!(row.src_ip, "10.0.0.1");
    assert_eq!(row.src_port, Some(1234));
    assert_eq!(row.dest_ip, "10.0.0.2");
    assert_eq!(row.dest_port, Some(80));
    assert_eq!(row.proto, "TCP");
    assert_eq!(row.app_proto, Some("http".to_string()));
    assert_eq!(row.metadata, Some("{\"flowbits\":[\"x\"]}".to_string()));
    assert_eq!(row.extra_data, Some("{\"pkts_toserver\":3}".to_string()));
}

#[test]
fn fallback_classification() {
    let mut w = BatchWriter::new();
    let r = EveRecord {
        fields: vec![
            sfield("event_type", "dns"),
            sfield("timestamp", TS),
            ifield("flow_id", 5),
            ofield("dns", "{\"rrname\":\"example.net\"}"),
        ],
    };
    process(&mut w, r).unwrap();
    assert_eq!(w.store.app_events.len(), 1);
    let row = &w.store.app_events[0];
    assert_eq!(row.app_proto, "dns");
    assert_eq!(row.flow_id, 5);
    assert_eq!(row.timestamp, TS_MICROS);
    assert_eq!(row.extra_data, Some("{\"rrname\":\"example.net\"}".to_string()));
    assert_eq!(w.store.flows.len(), 0);
    assert_eq!(w.store.alerts.len(), 0);
    assert_eq!(w.store.anomalies.len(), 0);
    assert_eq!(w.store.fileinfos.len(), 0);
}

#[test]
fn alert_anomaly_fileinfo_rows() {
    let mut w = BatchWriter::new();
    process(&mut w, alert_record(1)).unwrap();
    let r = EveRecord {
        fields: vec![
            sfield("event_type", "anomaly"),
            sfield("timestamp", TS),
            ifield("flow_id", 2),
            ofield("anomaly", "{\"type\":\"decode\"}"),
        ],
    };
    process(&mut w, r).unwrap();
    let r = EveRecord {
        fields: vec![
            sfield("event_type", "fileinfo"),
            sfield("timestamp", TS),
            ifield("flow_id", 3),
            ofield("fileinfo", "{\"filename\":\"x.bin\"}"),
        ],
    };
    process(&mut w, r).unwrap();
    assert_eq!(w.store.alerts.len(), 1);
    assert_eq!(w.store.alerts[0].flow_id, 1);
    assert_eq!(w.store.alerts[0].extra_data, Some("{\"signature\":\"test\"}".to_string()));
    assert_eq!(w.store.anomalies.len(), 1);
    assert_eq!(w.store.anomalies[0].flow_id, 2);
    assert_eq!(w.store.fileinfos.len(), 1);
    assert_eq!(w.store.fileinfos[0].flow_id, 3);
    assert_eq!(w.count_inserted, 3);
}

#[test]
fn batch_accounting() {
    let mut w = BatchWriter::new();
    let batch = vec![
        Some(flow_record(1)),
        Some(alert_record(2)),
        Some(EveRecord {
            fields: vec![
                sfield("event_type", "dns"),
                sfield("timestamp", TS),
                ifield("flow_id", 3),
                ofield("dns", "{}"),
            ],
        }),
    ];
    assert!(w.process_batch(&batch).is_ok());
    assert_eq!(w.count, 3);
    assert_eq!(w.count_inserted, 3);
}

#[test]
fn fatal_aborts_batch() {
    let mut w = BatchWriter::new();
    let mut bad = alert_record(2);
    bad.fields[1] = sfield("timestamp", "yesterday at noon");
    let batch = vec![Some(alert_record(1)), Some(bad), Some(alert_record(3))];
    let err = w.process_batch(&batch).unwrap_err();
    assert_eq!(err, DecodeError::TimestampUnparsable);
    assert_eq!(w.count, 2);
    assert_eq!(w.store.alerts.len(), 1);
    assert_eq!(w.store.alerts[0].flow_id, 1);
    assert_eq!(w.count_inserted, 1);
    assert_eq!(w.store.flows.len(), 0);
    assert_eq!(w.store.anomalies.len(), 0);
    assert_eq!(w.store.fileinfos.len(), 0);
    assert_eq!(w.store.app_events.len(), 0);
}

#[test]
fn batch_rows_in_arrival_order() {
    let mut w = BatchWriter::new();
    let batch = vec![Some(alert_record(1)), Some(alert_record(2)), Some(alert_record(3))];
    assert!(w.process_batch(&batch).is_ok());
    assert_eq!(w.store.alerts.len(), 3);
    assert_eq!(w.store.alerts[0].flow_id, 1);
    assert_eq!(w.store.alerts[1].flow_id, 2);
    assert_eq!(w.store.alerts[2].flow_id, 3);
}

#[test]
fn timestamp_decoded_value() {
    let mut w = BatchWriter::new();
    process(&mut w, alert_record(1)).unwrap();
    assert_eq!(w.store.alerts[0].timestamp, TS_MICROS);
}

#[test]
fn timestamp_honours_utc_offset() {
    let mut w = BatchWriter::new();
    let r = EveRecord {
        fields: vec![
            sfield("event_type", "alert"),
            sfield("timestamp", "2024-01-02T03:04:05.123456+0100"),
            ifield("flow_id", 1),
        ],
    };
    process(&mut w, r).unwrap();
    assert_eq!(w.store.alerts[0].timestamp, TS_MICROS - 3_600_000_000i64);
}

#[test]
fn error_event_type_not_text() {
    let mut w = BatchWriter::new();
    let r = EveRecord { fields: vec![ifield("event_type", 3)] };
    assert_eq!(w.process_one(&Some(r)).unwrap_err(), DecodeError::EventTypeNotText);
}

#[test]
fn error_timestamp_missing() {
    let mut w = BatchWriter::new();
    let r = EveRecord { fields: vec![sfield("event_type", "alert"), ifield("flow_id", 1)] };
    assert_eq!(w.process_one(&Some(r)).unwrap_err(), DecodeError::TimestampMissing);
}

#[test]
fn error_timestamp_not_text() {
    let mut w = BatchWriter::new();
    let r = EveRecord {
        fields: vec![sfield("event_type", "alert"), ifield("timestamp", 17), ifield("flow_id", 1)],
    };
    assert_eq!(w.process_one(&Some(r)).unwrap_err(), DecodeError::TimestampNotText);
}

#[test]
fn error_timestamp_unparsable() {
    let mut w = BatchWriter::new();
    let r = EveRecord {
        fields: vec![
            sfield("event_type", "alert"),
            sfield("timestamp", "2024-13-40T99:99:99"),
            ifield("flow_id", 1),
        ],
    };
    assert_eq!(w.process_one(&Some(r)).unwrap_err(), DecodeError::TimestampUnparsable);
}

#[test]
fn error_flow_id_not_int() {
    let mut w = BatchWriter::new();
    let r = EveRecord {
        fields: vec![
            sfield("event_type", "alert"),
            sfield("timestamp", TS),
            sfield("flow_id", "forty-two"),
        ],
    };
    assert_eq!(w.process_one(&Some(r)).unwrap_err(), DecodeError::FlowIdNotInt);
}

fn flow_without(key: &str) -> EveRecord {
    let mut r = flow_record(1);
    r.fields.retain(|f| f.key != key);
    r
}

#[test]
fn error_src_ip_missing() {
    let mut w = BatchWriter::new();
    assert_eq!(w.process_one(&Some(flow_without("src_ip"))).unwrap_err(), DecodeError::SrcIpMissing);
}

#[test]
fn error_dest_ip_missing() {
    let mut w = BatchWriter::new();
    assert_eq!(
        w.process_one(&Some(flow_without("dest_ip"))).unwrap_err(),
        DecodeError::DestIpMissing
    );
}

#[test]
fn error_proto_missing() {
    let mut w = BatchWriter::new();
    assert_eq!(w.process_one(&Some(flow_without("proto"))).unwrap_err(), DecodeError::ProtoMissing);
}

#[test]
fn error_src_port_bad() {
    let mut w = BatchWriter::new();
    let mut r = flow_without("src_port");
    r.fields.push(ifield("src_port", 3_000_000_000));
    assert_eq!(w.process_one(&Some(r)).unwrap_err(), DecodeError::SrcPortBad);
}

#[test]
fn error_dest_port_bad() {
    let mut w = BatchWriter::new();
    let mut r = flow_without("dest_port");
    r.fields.push(sfield("dest_port", "eighty"));
    assert_eq!(w.process_one(&Some(r)).unwrap_err(), DecodeError::DestPortBad);
}

#[test]
fn ports_are_optional() {
    let mut w = BatchWriter::new();
    let r = flow_without("src_port");
    let r2 = {
        let mut r2 = r;
        r2.fields.retain(|f| f.key != "dest_port");
        r2
    };
    process(&mut w, r2).unwrap();
    assert_eq!(w.store.flows[0].src_port, None);
    assert_eq!(w.store.flows[0].dest_port, None);
}

#[test]
fn duplicate_keys_first_wins() {
    let mut w = BatchWriter::new();
    let mut r = alert_record(10);
    r.fields.push(ifield("flow_id", 11));
    process(&mut w, r).unwrap();
    assert_eq!(w.store.alerts[0].flow_id, 10);
}
