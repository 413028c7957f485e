//! The five insert payload shapes the writer produces, one per target
//! collection. Opaque structured payloads are carried as verbatim JSON
//! text: the writer never interprets them.
use vstd::prelude::*;

verus! {

/// A row for the flow collection, keyed by the externally supplied
/// 64-bit flow identifier.
#[derive(Debug)]
pub struct NewFlow {
    pub id: i64,
    pub src_ip: String,
    pub src_port: Option<i32>,
    pub dest_ip: String,
    pub dest_port: Option<i32>,
    pub pcap_filename: Option<String>,
    pub proto: String,
    pub app_proto: Option<String>,
    pub metadata: Option<String>,
    pub extra_data: Option<String>,
}

/// A row for the alert collection.
#[derive(Debug)]
pub struct NewAlert {
    pub flow_id: i64,
    pub timestamp: i64,
    pub extra_data: Option<String>,
}

/// A row for the anomaly collection.
#[derive(Debug)]
pub struct NewAnomaly {
    pub flow_id: i64,
    pub timestamp: i64,
    pub extra_data: Option<String>,
}

/// A row for the fileinfo collection.
#[derive(Debug)]
pub struct NewFileinfo {
    pub flow_id: i64,
    pub timestamp: i64,
    pub extra_data: Option<String>,
}

/// A row for the application-event collection: the generic fallback for
/// records whose type has no collection of its own.
#[derive(Debug)]
pub struct NewAppEvent {
    pub flow_id: i64,
    pub timestamp: i64,
    pub app_proto: String,
    pub extra_data: Option<String>,
}

/// One decoded insert payload, tagged with its target collection.
#[derive(Debug)]
pub enum NewEvent {
    Flow(NewFlow),
    Alert(NewAlert),
    Anomaly(NewAnomaly),
    Fileinfo(NewFileinfo),
    AppEvent(NewAppEvent),
}

fn dup_opt_string(s: &Option<String>) -> (r: Option<String>)
    ensures
        r == *s,
{
    match s {
        Some(x) => Some(x.clone()),
        None => None,
    }
}

impl NewFlow {
    /// An equal copy of this row.
    pub fn dup(&self) -> (r: NewFlow)
        ensures
            r == *self,
    {
        NewFlow {
            id: self.id,
            src_ip: self.src_ip.clone(),
            src_port: self.src_port,
            dest_ip: self.dest_ip.clone(),
            dest_port: self.dest_port,
            pcap_filename: dup_opt_string(&self.pcap_filename),
            proto: self.proto.clone(),
            app_proto: dup_opt_string(&self.app_proto),
            metadata: dup_opt_string(&self.metadata),
            extra_data: dup_opt_string(&self.extra_data),
        }
    }
}

impl NewAlert {
    /// An equal copy of this row.
    pub fn dup(&self) -> (r: NewAlert)
        ensures
            r == *self,
    {
        NewAlert {
            flow_id: self.flow_id,
            timestamp: self.timestamp,
            extra_data: dup_opt_string(&self.extra_data),
        }
    }
}

impl NewAnomaly {
    /// An equal copy of this row.
    pub fn dup(&self) -> (r: NewAnomaly)
        ensures
            r == *self,
    {
        NewAnomaly {
            flow_id: self.flow_id,
            timestamp: self.timestamp,
            extra_data: dup_opt_string(&self.extra_data),
        }
    }
}

impl NewFileinfo {
    /// An equal copy of this row.
    pub fn dup(&self) -> (r: NewFileinfo)
        ensures
            r == *self,
    {
        NewFileinfo {
            flow_id: self.flow_id,
            timestamp: self.timestamp,
            extra_data: dup_opt_string(&self.extra_data),
        }
    }
}

impl NewAppEvent {
    /// An equal copy of this row.
    pub fn dup(&self) -> (r: NewAppEvent)
        ensures
            r == *self,
    {
        NewAppEvent {
            flow_id: self.flow_id,
            timestamp: self.timestamp,
            app_proto: self.app_proto.clone(),
            extra_data: dup_opt_string(&self.extra_data),
        }
    }
}

impl NewEvent {
    /// An equal copy of this payload.
    pub fn dup(&self) -> (r: NewEvent)
        ensures
            r == *self,
    {
        match self {
            NewEvent::Flow(f) => NewEvent::Flow(f.dup()),
            NewEvent::Alert(a) => NewEvent::Alert(a.dup()),
            NewEvent::Anomaly(a) => NewEvent::Anomaly(a.dup()),
            NewEvent::Fileinfo(f) => NewEvent::Fileinfo(f.dup()),
            NewEvent::AppEvent(a) => NewEvent::AppEvent(a.dup()),
        }
    }
}

} // verus!
