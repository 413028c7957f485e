//! The record classifier and decoder: one parsed record in, one typed
//! insert payload (or a benign skip, or a fatal decode error) out, with
//! the flow/filename correlation side effect on the way.
//!
//! A record without an `event_type` or a `flow_id` attribute is skipped;
//! a malformed timestamp or a missing required attribute of a recognized
//! type is fatal. The asymmetry is deliberate and preserved here.
use crate::correlate::FilenameCache;
use crate::models::{NewAlert, NewAnomaly, NewAppEvent, NewEvent, NewFileinfo, NewFlow};
use crate::record::{int_field, lookup_field, str_field, text_field, EveRecord, JsonField};
use crate::timefmt::eve_timestamp_of;
use crate::timefmt::parse_eve_timestamp;
use vstd::prelude::*;

verus! {

/// A fatal per-record condition: the record is of a recognized shape but
/// cannot be decoded. Missing `event_type` or `flow_id` is not here: that
/// is a benign skip, not an error.
#[derive(Clone, Copy, Debug, PartialEq, Eq, Structural)]
pub enum DecodeError {
    /// `event_type` is present but its value is not text.
    EventTypeNotText,
    /// A recognized event carries no `timestamp` attribute.
    TimestampMissing,
    /// The `timestamp` attribute's value is not text.
    TimestampNotText,
    /// The `timestamp` text does not match the fixed EVE format.
    TimestampUnparsable,
    /// `flow_id` is present but its value is not a 64-bit integer.
    FlowIdNotInt,
    /// A flow record carries no textual `src_ip`.
    SrcIpMissing,
    /// A flow record's `src_port` is not an integer in 32-bit range.
    SrcPortBad,
    /// A flow record carries no textual `dest_ip`.
    DestIpMissing,
    /// A flow record's `dest_port` is not an integer in 32-bit range.
    DestPortBad,
    /// A flow record carries no textual `proto`.
    ProtoMissing,
}

/// What the decoder hands the writer: nothing, or one payload.
pub enum DecodeOutcome {
    /// Benign skip: the record is counted as processed, nothing is stored.
    Skip,
    /// One typed insert payload.
    Insert(NewEvent),
}

/// The `event_type` string of a record, when it has a textual one.
pub open spec fn event_type_of(r: Seq<JsonField>) -> Option<Seq<char>> {
    str_field(r, "event_type"@)
}

/// The flow identifier of a record; meaningful only when `flow_id` is
/// present with an integer value.
pub open spec fn flow_id_of(r: Seq<JsonField>) -> i64 {
    int_field(r, "flow_id"@)->Some_0
}

/// The decoded timestamp of a record; meaningful only when the record is
/// not fatal and carries a well-formed timestamp.
pub open spec fn timestamp_of(r: Seq<JsonField>) -> i64 {
    eve_timestamp_of(str_field(r, "timestamp"@)->Some_0)->Some_0
}

/// Whether a 64-bit integer fits a 32-bit port column.
pub open spec fn fits_port(v: i64) -> bool {
    -2147483648 <= v <= 2147483647
}

/// Whether an optional port attribute is fatal: present, but not an
/// integer in 32-bit range.
pub open spec fn port_bad(r: Seq<JsonField>, key: Seq<char>) -> bool {
    lookup_field(r, key) is Some && match int_field(r, key) {
        Some(v) => !fits_port(v),
        None => true,
    }
}

/// The fatal condition of a record, if it has one, checked in the order
/// the decoder reads the attributes.
pub open spec fn decode_fatal(r: Seq<JsonField>) -> Option<DecodeError> {
    if lookup_field(r, "event_type"@) is None {
        None
    } else if str_field(r, "event_type"@) is None {
        Some(DecodeError::EventTypeNotText)
    } else if lookup_field(r, "timestamp"@) is None {
        Some(DecodeError::TimestampMissing)
    } else if str_field(r, "timestamp"@) is None {
        Some(DecodeError::TimestampNotText)
    } else if eve_timestamp_of(str_field(r, "timestamp"@)->Some_0) is None {
        Some(DecodeError::TimestampUnparsable)
    } else if lookup_field(r, "flow_id"@) is None {
        None
    } else if int_field(r, "flow_id"@) is None {
        Some(DecodeError::FlowIdNotInt)
    } else if event_type_of(r)->Some_0 == "flow"@ {
        if str_field(r, "src_ip"@) is None {
            Some(DecodeError::SrcIpMissing)
        } else if port_bad(r, "src_port"@) {
            Some(DecodeError::SrcPortBad)
        } else if str_field(r, "dest_ip"@) is None {
            Some(DecodeError::DestIpMissing)
        } else if port_bad(r, "dest_port"@) {
            Some(DecodeError::DestPortBad)
        } else if str_field(r, "proto"@) is None {
            Some(DecodeError::ProtoMissing)
        } else {
            None
        }
    } else {
        None
    }
}

/// Whether the decoder skips the record: it is not fatal, and lacks
/// `event_type` or `flow_id`.
pub open spec fn decode_skips(r: Seq<JsonField>) -> bool {
    decode_fatal(r) is None && (lookup_field(r, "event_type"@) is None || lookup_field(
        r,
        "flow_id"@,
    ) is None)
}

/// Whether the record updates the correlation cache: a non-flow record
/// that decodes past its `flow_id` and carries a textual `pcap_filename`.
pub open spec fn correlates(r: Seq<JsonField>) -> bool {
    &&& decode_fatal(r) is None
    &&& !decode_skips(r)
    &&& event_type_of(r)->Some_0 != "flow"@
    &&& str_field(r, "pcap_filename"@) is Some
}

/// The cache after the decoder saw record `r` with cache `c`.
pub open spec fn cache_after(r: Seq<JsonField>, c: Map<int, Seq<char>>) -> Map<int, Seq<char>> {
    if correlates(r) {
        c.insert(flow_id_of(r) as int, str_field(r, "pcap_filename"@)->Some_0)
    } else {
        c
    }
}

/// The filename stored on a flow record, by precedence: the cache entry
/// for its flow identifier first, then the record's own textual
/// `pcap_filename`, then the empty string.
pub open spec fn resolved_filename(r: Seq<JsonField>, c: Map<int, Seq<char>>) -> Seq<char> {
    if c.contains_key(flow_id_of(r) as int) {
        c[flow_id_of(r) as int]
    } else if str_field(r, "pcap_filename"@) is Some {
        str_field(r, "pcap_filename"@)->Some_0
    } else {
        Seq::empty()
    }
}

/// A filename observed on a companion record takes precedence: once a
/// correlating record for a flow identifier was seen, a later flow
/// record with the same identifier stores that record's filename,
/// whatever the flow record itself carries.
pub proof fn lemma_correlation_precedence(
    r1: Seq<JsonField>,
    r2: Seq<JsonField>,
    c: Map<int, Seq<char>>,
)
    requires
        correlates(r1),
        flow_id_of(r2) == flow_id_of(r1),
    ensures
        resolved_filename(r2, cache_after(r1, c)) == str_field(r1, "pcap_filename"@)->Some_0,
{
}

/// Without a cache entry for its identifier, a flow record falls back to
/// its own textual `pcap_filename`, and to the empty string when it has
/// none.
pub proof fn lemma_filename_fallback(r: Seq<JsonField>, c: Map<int, Seq<char>>)
    requires
        !c.contains_key(flow_id_of(r) as int),
    ensures
        str_field(r, "pcap_filename"@) is Some ==> resolved_filename(r, c) == str_field(
            r,
            "pcap_filename"@,
        )->Some_0,
        str_field(r, "pcap_filename"@) is None ==> resolved_filename(r, c) =~= Seq::<char>::empty(),
{
}

/// Whether an optional stored text equals an optional attribute value.
pub open spec fn opt_text_matches(o: Option<String>, t: Option<Seq<char>>) -> bool {
    match (o, t) {
        (Some(s), Some(v)) => s@ == v,
        (None, None) => true,
        _ => false,
    }
}

/// Whether a stored optional port equals the record's port attribute.
pub open spec fn port_matches(p: Option<i32>, r: Seq<JsonField>, key: Seq<char>) -> bool {
    match lookup_field(r, key) {
        Some(_) => p matches Some(v) && int_field(r, key) == Some(v as i64),
        None => p is None,
    }
}

/// Whether a flow row is the one the decoder owes record `r` under
/// cache `c`.
pub open spec fn flow_matches(nf: NewFlow, r: Seq<JsonField>, c: Map<int, Seq<char>>) -> bool {
    &&& nf.id == flow_id_of(r)
    &&& Some(nf.src_ip@) == str_field(r, "src_ip"@)
    &&& port_matches(nf.src_port, r, "src_port"@)
    &&& Some(nf.dest_ip@) == str_field(r, "dest_ip"@)
    &&& port_matches(nf.dest_port, r, "dest_port"@)
    &&& nf.pcap_filename matches Some(p) && p@ == resolved_filename(r, c)
    &&& Some(nf.proto@) == str_field(r, "proto"@)
    &&& opt_text_matches(nf.app_proto, str_field(r, "app_proto"@))
    &&& opt_text_matches(nf.metadata, text_field(r, "metadata"@))
    &&& opt_text_matches(nf.extra_data, text_field(r, "flow"@))
}

/// Whether a generic event row (alert, anomaly, fileinfo) carries the
/// identity, the timestamp, and the verbatim payload under `key`.
pub open spec fn generic_matches(
    flow_id: i64,
    timestamp: i64,
    extra_data: Option<String>,
    r: Seq<JsonField>,
    key: Seq<char>,
) -> bool {
    &&& flow_id == flow_id_of(r)
    &&& timestamp == timestamp_of(r)
    &&& opt_text_matches(extra_data, text_field(r, key))
}

/// Whether a payload is the one the decoder owes record `r` under
/// cache `c`: the variant follows the record's `event_type`.
pub open spec fn event_matches(ev: NewEvent, r: Seq<JsonField>, c: Map<int, Seq<char>>) -> bool {
    let et = event_type_of(r)->Some_0;
    match ev {
        NewEvent::Flow(nf) => et == "flow"@ && flow_matches(nf, r, c),
        NewEvent::Alert(a) => et == "alert"@ && generic_matches(
            a.flow_id,
            a.timestamp,
            a.extra_data,
            r,
            "alert"@,
        ),
        NewEvent::Anomaly(a) => et == "anomaly"@ && generic_matches(
            a.flow_id,
            a.timestamp,
            a.extra_data,
            r,
            "anomaly"@,
        ),
        NewEvent::Fileinfo(f) => et == "fileinfo"@ && generic_matches(
            f.flow_id,
            f.timestamp,
            f.extra_data,
            r,
            "fileinfo"@,
        ),
        NewEvent::AppEvent(a) => {
            &&& et != "flow"@
            &&& et != "alert"@
            &&& et != "anomaly"@
            &&& et != "fileinfo"@
            &&& a.app_proto@ == et
            &&& generic_matches(a.flow_id, a.timestamp, a.extra_data, r, et)
        },
    }
}

/// Classify and decode one record, updating the correlation cache as a
/// side effect. Skips are not errors; errors are fatal for the record
/// and name the first attribute that failed.
pub fn decode_event(rec: &EveRecord, cache: &mut FilenameCache) -> (r: Result<
    DecodeOutcome,
    DecodeError,
>)
    requires
        old(cache).wf(),
    ensures
        final(cache).wf(),
        final(cache)@ == cache_after(rec@, old(cache)@),
        r is Err <==> decode_fatal(rec@) is Some,
        r matches Err(e) ==> decode_fatal(rec@) == Some(e),
        r == Ok::<DecodeOutcome, DecodeError>(DecodeOutcome::Skip) <==> decode_skips(rec@),
        r matches Ok(DecodeOutcome::Insert(ev)) ==> event_matches(ev, rec@, old(cache)@),
{
    let et: String = match rec.get("event_type") {
        Some(f) => match &f.str_val {
            Some(s) => s.clone(),
            None => {
                return Err(DecodeError::EventTypeNotText);
            },
        },
        None => {
            return Ok(DecodeOutcome::Skip);
        },
    };
    let ts: String = match rec.get("timestamp") {
        Some(f) => match &f.str_val {
            Some(s) => s.clone(),
            None => {
                return Err(DecodeError::TimestampNotText);
            },
        },
        None => {
            return Err(DecodeError::TimestampMissing);
        },
    };
    let timestamp: i64 = match parse_eve_timestamp(ts.as_str()) {
        Some(t) => t,
        None => {
            return Err(DecodeError::TimestampUnparsable);
        },
    };
    let flow_id: i64 = match rec.get("flow_id") {
        Some(f) => match f.int_val {
            Some(v) => v,
            None => {
                return Err(DecodeError::FlowIdNotInt);
            },
        },
        None => {
            return Ok(DecodeOutcome::Skip);
        },
    };
    let is_flow: bool = et == "flow".to_owned();
    if !is_flow {
        if let Some(f) = rec.get("pcap_filename") {
            if let Some(name) = &f.str_val {
                cache.set(flow_id, name.clone());
            }
        }
    }
    if is_flow {
        let src_ip: String = match rec.get("src_ip") {
            Some(f) => match &f.str_val {
                Some(s) => s.clone(),
                None => {
                    return Err(DecodeError::SrcIpMissing);
                },
            },
            None => {
                return Err(DecodeError::SrcIpMissing);
            },
        };
        let src_port: Option<i32> = match rec.get("src_port") {
            Some(f) => match f.int_val {
                Some(v) => {
                    if -2147483648i64 <= v && v <= 2147483647i64 {
                        Some(v as i32)
                    } else {
                        return Err(DecodeError::SrcPortBad);
                    }
                },
                None => {
                    return Err(DecodeError::SrcPortBad);
                },
            },
            None => None,
        };
        let dest_ip: String = match rec.get("dest_ip") {
            Some(f) => match &f.str_val {
                Some(s) => s.clone(),
                None => {
                    return Err(DecodeError::DestIpMissing);
                },
            },
            None => {
                return Err(DecodeError::DestIpMissing);
            },
        };
        let dest_port: Option<i32> = match rec.get("dest_port") {
            Some(f) => match f.int_val {
                Some(v) => {
                    if -2147483648i64 <= v && v <= 2147483647i64 {
                        Some(v as i32)
                    } else {
                        return Err(DecodeError::DestPortBad);
                    }
                },
                None => {
                    return Err(DecodeError::DestPortBad);
                },
            },
            None => None,
        };
        let pcap_filename: String = match cache.get(flow_id) {
            Some(s) => s.clone(),
            None => match rec.get("pcap_filename") {
                Some(f) => match &f.str_val {
                    Some(s) => s.clone(),
                    None => String::new(),
                },
                None => String::new(),
            },
        };
        let proto: String = match rec.get("proto") {
            Some(f) => match &f.str_val {
                Some(s) => s.clone(),
                None => {
                    return Err(DecodeError::ProtoMissing);
                },
            },
            None => {
                return Err(DecodeError::ProtoMissing);
            },
        };
        let app_proto: Option<String> = match rec.get("app_proto") {
            Some(f) => match &f.str_val {
                Some(s) => Some(s.clone()),
                None => None,
            },
            None => None,
        };
        let metadata: Option<String> = match rec.get("metadata") {
            Some(f) => Some(f.text.clone()),
            None => None,
        };
        let extra_data: Option<String> = match rec.get("flow") {
            Some(f) => Some(f.text.clone()),
            None => None,
        };
        return Ok(DecodeOutcome::Insert(NewEvent::Flow(NewFlow {
            id: flow_id,
            src_ip,
            src_port,
            dest_ip,
            dest_port,
            pcap_filename: Some(pcap_filename),
            proto,
            app_proto,
            metadata,
            extra_data,
        })));
    }
    let extra_data: Option<String> = match rec.get(et.as_str()) {
        Some(f) => Some(f.text.clone()),
        None => None,
    };
    if et == "alert".to_owned() {
        return Ok(DecodeOutcome::Insert(NewEvent::Alert(NewAlert { flow_id, timestamp, extra_data })));
    }
    if et == "anomaly".to_owned() {
        return Ok(DecodeOutcome::Insert(NewEvent::Anomaly(NewAnomaly { flow_id, timestamp, extra_data })));
    }
    if et == "fileinfo".to_owned() {
        return Ok(DecodeOutcome::Insert(NewEvent::Fileinfo(NewFileinfo { flow_id, timestamp, extra_data })));
    }
    Ok(DecodeOutcome::Insert(NewEvent::AppEvent(NewAppEvent {
        flow_id,
        timestamp,
        app_proto: et,
        extra_data,
    })))
}

} // verus!
