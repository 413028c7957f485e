//! An in-memory model of the relational store: five collections, one per
//! payload shape, with insert-if-absent semantics on the flow
//! collection's natural key. The other collections are keyed by a
//! store-assigned sequence, so every insert there is new.
use crate::models::{NewAlert, NewAnomaly, NewAppEvent, NewEvent, NewFileinfo, NewFlow};
use vstd::prelude::*;

verus! {

/// The five target collections.
pub struct Store {
    pub flows: Vec<NewFlow>,
    pub alerts: Vec<NewAlert>,
    pub anomalies: Vec<NewAnomaly>,
    pub fileinfos: Vec<NewFileinfo>,
    pub app_events: Vec<NewAppEvent>,
}

/// The abstract contents of a flow row: each stored text by its
/// characters.
pub struct FlowRowView {
    pub id: i64,
    pub src_ip: Seq<char>,
    pub src_port: Option<i32>,
    pub dest_ip: Seq<char>,
    pub dest_port: Option<i32>,
    pub pcap_filename: Option<Seq<char>>,
    pub proto: Seq<char>,
    pub app_proto: Option<Seq<char>>,
    pub metadata: Option<Seq<char>>,
    pub extra_data: Option<Seq<char>>,
}

/// The abstract contents of an alert, anomaly or fileinfo row.
pub struct EventRowView {
    pub flow_id: i64,
    pub timestamp: i64,
    pub extra_data: Option<Seq<char>>,
}

/// The abstract contents of an application-event row.
pub struct AppEventRowView {
    pub flow_id: i64,
    pub timestamp: i64,
    pub app_proto: Seq<char>,
    pub extra_data: Option<Seq<char>>,
}

/// The abstract contents of the whole store, collection by collection,
/// rows in insertion order.
pub struct StoreView {
    pub flows: Seq<FlowRowView>,
    pub alerts: Seq<EventRowView>,
    pub anomalies: Seq<EventRowView>,
    pub fileinfos: Seq<EventRowView>,
    pub app_events: Seq<AppEventRowView>,
}

/// The characters of an optional stored text.
pub open spec fn opt_chars(o: Option<String>) -> Option<Seq<char>> {
    match o {
        Some(s) => Some(s@),
        None => None,
    }
}

pub open spec fn flow_row_view(f: NewFlow) -> FlowRowView {
    FlowRowView {
        id: f.id,
        src_ip: f.src_ip@,
        src_port: f.src_port,
        dest_ip: f.dest_ip@,
        dest_port: f.dest_port,
        pcap_filename: opt_chars(f.pcap_filename),
        proto: f.proto@,
        app_proto: opt_chars(f.app_proto),
        metadata: opt_chars(f.metadata),
        extra_data: opt_chars(f.extra_data),
    }
}

pub open spec fn alert_row_view(a: NewAlert) -> EventRowView {
    EventRowView { flow_id: a.flow_id, timestamp: a.timestamp, extra_data: opt_chars(a.extra_data) }
}

pub open spec fn anomaly_row_view(a: NewAnomaly) -> EventRowView {
    EventRowView { flow_id: a.flow_id, timestamp: a.timestamp, extra_data: opt_chars(a.extra_data) }
}

pub open spec fn fileinfo_row_view(f: NewFileinfo) -> EventRowView {
    EventRowView { flow_id: f.flow_id, timestamp: f.timestamp, extra_data: opt_chars(f.extra_data) }
}

pub open spec fn app_event_row_view(a: NewAppEvent) -> AppEventRowView {
    AppEventRowView {
        flow_id: a.flow_id,
        timestamp: a.timestamp,
        app_proto: a.app_proto@,
        extra_data: opt_chars(a.extra_data),
    }
}

impl View for Store {
    type V = StoreView;

    open spec fn view(&self) -> StoreView {
        StoreView {
            flows: self.flows@.map_values(|f: NewFlow| flow_row_view(f)),
            alerts: self.alerts@.map_values(|a: NewAlert| alert_row_view(a)),
            anomalies: self.anomalies@.map_values(|a: NewAnomaly| anomaly_row_view(a)),
            fileinfos: self.fileinfos@.map_values(|f: NewFileinfo| fileinfo_row_view(f)),
            app_events: self.app_events@.map_values(|a: NewAppEvent| app_event_row_view(a)),
        }
    }
}

/// Whether some row of a flow collection's contents carries
/// identifier `id`.
pub open spec fn view_has_flow_id(flows: Seq<FlowRowView>, id: i64) -> bool {
    exists|i: int| 0 <= i < flows.len() && flows[i].id == id
}

/// How many stored flow rows carry identifier `id`.
pub open spec fn count_flow_id(flows: Seq<NewFlow>, id: i64) -> int
    decreases flows.len(),
{
    if flows.len() == 0 {
        0
    } else {
        count_flow_id(flows.drop_last(), id) + if flows.last().id == id {
            1int
        } else {
            0int
        }
    }
}

/// Whether some stored flow row carries identifier `id`.
pub open spec fn has_flow_id(flows: Seq<NewFlow>, id: i64) -> bool {
    exists|i: int| 0 <= i < flows.len() && flows[i].id == id
}

/// The flow collection after an insert-if-absent of `f`.
pub open spec fn spec_insert_flow(flows: Seq<NewFlow>, f: NewFlow) -> Seq<NewFlow> {
    if has_flow_id(flows, f.id) {
        flows
    } else {
        flows.push(f)
    }
}

/// How many rows an insert-if-absent of `f` newly stores: none for a
/// duplicate identity, one otherwise.
pub open spec fn spec_flow_inserted(flows: Seq<NewFlow>, f: NewFlow) -> int {
    if has_flow_id(flows, f.id) {
        0
    } else {
        1
    }
}

proof fn lemma_count_flow_id_nonneg(flows: Seq<NewFlow>, id: i64)
    ensures
        count_flow_id(flows, id) >= 0,
    decreases flows.len(),
{
    if flows.len() > 0 {
        lemma_count_flow_id_nonneg(flows.drop_last(), id);
    }
}

proof fn lemma_count_flow_id_push(flows: Seq<NewFlow>, f: NewFlow, id: i64)
    ensures
        count_flow_id(flows.push(f), id) == count_flow_id(flows, id) + if f.id == id {
            1int
        } else {
            0int
        },
{
    assert(flows.push(f).drop_last() == flows);
    assert(flows.push(f).last() == f);
}

/// A stored identifier is exactly one counted at least once.
proof fn lemma_has_flow_id_iff_count_pos(flows: Seq<NewFlow>, id: i64)
    ensures
        has_flow_id(flows, id) <==> count_flow_id(flows, id) > 0,
    decreases flows.len(),
{
    lemma_count_flow_id_nonneg(flows, id);
    if flows.len() > 0 {
        let prefix = flows.drop_last();
        lemma_has_flow_id_iff_count_pos(prefix, id);
        lemma_count_flow_id_nonneg(prefix, id);
        if has_flow_id(flows, id) {
            let i = choose|i: int| 0 <= i < flows.len() && flows[i].id == id;
            if i < flows.len() - 1 {
                assert(prefix[i] == flows[i]);
                assert(has_flow_id(prefix, id));
            }
        }
        if count_flow_id(flows, id) > 0 {
            if flows.last().id == id {
                assert(flows[flows.len() - 1].id == id);
            } else {
                let i = choose|i: int| 0 <= i < prefix.len() && prefix[i].id == id;
                assert(flows[i].id == id);
            }
        }
        if has_flow_id(prefix, id) {
            let i = choose|i: int| 0 <= i < prefix.len() && prefix[i].id == id;
            assert(flows[i].id == id);
        }
    }
}

/// Inserting one flow identity twice leaves exactly one stored row with
/// it, and the second insert newly stores nothing: replays and duplicate
/// deliveries are no-ops.
pub proof fn lemma_flow_insert_idempotent(flows: Seq<NewFlow>, f1: NewFlow, f2: NewFlow)
    requires
        forall|id: i64| count_flow_id(flows, id) <= 1,
        f1.id == f2.id,
    ensures
        spec_insert_flow(spec_insert_flow(flows, f1), f2) == spec_insert_flow(flows, f1),
        spec_flow_inserted(spec_insert_flow(flows, f1), f2) == 0,
        count_flow_id(spec_insert_flow(spec_insert_flow(flows, f1), f2), f1.id) == 1,
{
    let s1 = spec_insert_flow(flows, f1);
    lemma_has_flow_id_iff_count_pos(flows, f1.id);
    if has_flow_id(flows, f1.id) {
        assert(count_flow_id(flows, f1.id) == 1);
    } else {
        lemma_count_flow_id_nonneg(flows, f1.id);
        lemma_count_flow_id_push(flows, f1, f1.id);
        assert(s1[s1.len() - 1].id == f2.id);
        assert(has_flow_id(s1, f2.id));
        assert(count_flow_id(s1, f1.id) == 1);
    }
}

impl Store {
    /// At most one stored flow row per flow identifier.
    pub open spec fn wf(&self) -> bool {
        forall|id: i64| count_flow_id(self.flows@, id) <= 1
    }

    /// An empty store.
    pub fn new() -> (r: Store)
        ensures
            r.wf(),
            r.flows@ =~= Seq::<NewFlow>::empty(),
            r.alerts@ =~= Seq::<NewAlert>::empty(),
            r.anomalies@ =~= Seq::<NewAnomaly>::empty(),
            r.fileinfos@ =~= Seq::<NewFileinfo>::empty(),
            r.app_events@ =~= Seq::<NewAppEvent>::empty(),
    {
        let s = Store {
            flows: Vec::new(),
            alerts: Vec::new(),
            anomalies: Vec::new(),
            fileinfos: Vec::new(),
            app_events: Vec::new(),
        };
        proof {
            assert forall|id: i64| count_flow_id(s.flows@, id) <= 1 by {
                lemma_count_flow_id_nonneg(s.flows@, id);
            }
        }
        s
    }

    /// Whether a flow row with identifier `id` is already stored.
    pub fn contains_flow(&self, id: i64) -> (r: bool)
        ensures
            r == has_flow_id(self.flows@, id),
    {
        let mut i: usize = 0;
        while i < self.flows.len()
            invariant
                i <= self.flows.len(),
                forall|j: int| 0 <= j < i ==> self.flows@[j].id != id,
            decreases self.flows.len() - i,
        {
            if self.flows[i].id == id {
                assert(has_flow_id(self.flows@, id));
                return true;
            }
            i += 1;
        }
        false
    }

    /// Insert a flow row if its identifier is absent; a duplicate is a
    /// silent no-op. Returns how many rows were newly stored (0 or 1).
    pub fn insert_flow(&mut self, f: NewFlow) -> (n: usize)
        requires
            old(self).wf(),
        ensures
            final(self).wf(),
            final(self).flows@ == spec_insert_flow(old(self).flows@, f),
            n as int == spec_flow_inserted(old(self).flows@, f),
            final(self).alerts == old(self).alerts,
            final(self).anomalies == old(self).anomalies,
            final(self).fileinfos == old(self).fileinfos,
            final(self).app_events == old(self).app_events,
    {
        let ghost flows0 = old(self).flows@;
        if self.contains_flow(f.id) {
            0
        } else {
            let ghost fid = f.id;
            self.flows.push(f);
            proof {
                lemma_has_flow_id_iff_count_pos(flows0, fid);
                assert forall|id: i64| count_flow_id(self.flows@, id) <= 1 by {
                    lemma_count_flow_id_push(flows0, self.flows@.last(), id);
                }
            }
            1
        }
    }

    /// Append an alert row; its key is store-assigned, so the row is
    /// always newly stored. Returns 1.
    pub fn insert_alert(&mut self, a: NewAlert) -> (n: usize)
        requires
            old(self).wf(),
        ensures
            final(self).wf(),
            final(self).alerts@ == old(self).alerts@.push(a),
            n == 1,
            final(self).flows == old(self).flows,
            final(self).anomalies == old(self).anomalies,
            final(self).fileinfos == old(self).fileinfos,
            final(self).app_events == old(self).app_events,
    {
        self.alerts.push(a);
        1
    }

    /// Append an anomaly row; always newly stored. Returns 1.
    pub fn insert_anomaly(&mut self, a: NewAnomaly) -> (n: usize)
        requires
            old(self).wf(),
        ensures
            final(self).wf(),
            final(self).anomalies@ == old(self).anomalies@.push(a),
            n == 1,
            final(self).flows == old(self).flows,
            final(self).alerts == old(self).alerts,
            final(self).fileinfos == old(self).fileinfos,
            final(self).app_events == old(self).app_events,
    {
        self.anomalies.push(a);
        1
    }

    /// Append a fileinfo row; always newly stored. Returns 1.
    pub fn insert_fileinfo(&mut self, f: NewFileinfo) -> (n: usize)
        requires
            old(self).wf(),
        ensures
            final(self).wf(),
            final(self).fileinfos@ == old(self).fileinfos@.push(f),
            n == 1,
            final(self).flows == old(self).flows,
            final(self).alerts == old(self).alerts,
            final(self).anomalies == old(self).anomalies,
            final(self).app_events == old(self).app_events,
    {
        self.fileinfos.push(f);
        1
    }

    /// Append an application-event row; always newly stored. Returns 1.
    pub fn insert_app_event(&mut self, a: NewAppEvent) -> (n: usize)
        requires
            old(self).wf(),
        ensures
            final(self).wf(),
            final(self).app_events@ == old(self).app_events@.push(a),
            n == 1,
            final(self).flows == old(self).flows,
            final(self).alerts == old(self).alerts,
            final(self).anomalies == old(self).anomalies,
            final(self).fileinfos == old(self).fileinfos,
    {
        self.app_events.push(a);
        1
    }

    /// Insert one payload into its target collection with
    /// insert-if-absent semantics on the natural key.
    pub fn insert_event(&mut self, ev: NewEvent) -> (n: usize)
        requires
            old(self).wf(),
        ensures
            final(self).wf(),
            n <= 1,
            ev matches NewEvent::Flow(f) ==> {
                &&& final(self).flows@ == spec_insert_flow(old(self).flows@, f)
                &&& n as int == spec_flow_inserted(old(self).flows@, f)
                &&& final(self).alerts == old(self).alerts
                &&& final(self).anomalies == old(self).anomalies
                &&& final(self).fileinfos == old(self).fileinfos
                &&& final(self).app_events == old(self).app_events
            },
            ev matches NewEvent::Alert(a) ==> {
                &&& final(self).alerts@ == old(self).alerts@.push(a)
                &&& n == 1
                &&& final(self).flows == old(self).flows
                &&& final(self).anomalies == old(self).anomalies
                &&& final(self).fileinfos == old(self).fileinfos
                &&& final(self).app_events == old(self).app_events
            },
            ev matches NewEvent::Anomaly(a) ==> {
                &&& final(self).anomalies@ == old(self).anomalies@.push(a)
                &&& n == 1
                &&& final(self).flows == old(self).flows
                &&& final(self).alerts == old(self).alerts
                &&& final(self).fileinfos == old(self).fileinfos
                &&& final(self).app_events == old(self).app_events
            },
            ev matches NewEvent::Fileinfo(f) ==> {
                &&& final(self).fileinfos@ == old(self).fileinfos@.push(f)
                &&& n == 1
                &&& final(self).flows == old(self).flows
                &&& final(self).alerts == old(self).alerts
                &&& final(self).anomalies == old(self).anomalies
                &&& final(self).app_events == old(self).app_events
            },
            ev matches NewEvent::AppEvent(a) ==> {
                &&& final(self).app_events@ == old(self).app_events@.push(a)
                &&& n == 1
                &&& final(self).flows == old(self).flows
                &&& final(self).alerts == old(self).alerts
                &&& final(self).anomalies == old(self).anomalies
                &&& final(self).fileinfos == old(self).fileinfos
            },
    {
        match ev {
            NewEvent::Flow(f) => self.insert_flow(f),
            NewEvent::Alert(a) => self.insert_alert(a),
            NewEvent::Anomaly(a) => self.insert_anomaly(a),
            NewEvent::Fileinfo(f) => self.insert_fileinfo(f),
            NewEvent::AppEvent(a) => self.insert_app_event(a),
        }
    }
}

} // verus!
