//! The batch writer: it owns the store model, the correlation cache and
//! the two running counters, processes records one at a time, and
//! processes a drained batch in order until the batch is done or a record
//! is fatal. A fatal record aborts the batch; the records after it are
//! not processed.
use crate::correlate::FilenameCache;
use crate::decode::{
    cache_after, decode_event, decode_fatal, decode_skips, event_matches, event_type_of,
    flow_id_of, resolved_filename, timestamp_of, DecodeError, DecodeOutcome,
};
use crate::models::NewEvent;
use crate::record::{int_field, lookup_field, str_field, text_field, EveRecord, JsonField};
use crate::store::{
    alert_row_view, anomaly_row_view, app_event_row_view, fileinfo_row_view, flow_row_view,
    has_flow_id, spec_flow_inserted, spec_insert_flow, view_has_flow_id, AppEventRowView,
    EventRowView, FlowRowView, Store, StoreView,
};
use vstd::prelude::*;

verus! {

/// What became of one record.
#[derive(Debug)]
pub enum Processed {
    /// Counted as processed; nothing was stored.
    Skipped,
    /// The payload handed to the store, and how many rows it newly
    /// stored (0 for a duplicate flow identity, 1 otherwise).
    Inserted(NewEvent, usize),
}

/// The fatal condition of one raw record, if any: a record that did not
/// parse has none (it is a benign skip).
pub open spec fn raw_fatal(o: Option<EveRecord>) -> Option<DecodeError> {
    match o {
        Some(r) => decode_fatal(r@),
        None => None,
    }
}

/// Whether one raw record is skipped: it did not parse, or the decoder
/// skips it.
pub open spec fn raw_skips(o: Option<EveRecord>) -> bool {
    match o {
        Some(r) => decode_skips(r@),
        None => true,
    }
}

/// Whether one raw record decodes to an insert payload.
pub open spec fn raw_inserts(o: Option<EveRecord>) -> bool {
    match o {
        Some(r) => decode_fatal(r@) is None && !decode_skips(r@),
        None => false,
    }
}

/// Whether one raw record decodes to a flow payload.
pub open spec fn raw_is_flow(o: Option<EveRecord>) -> bool {
    raw_inserts(o) && event_type_of(o->Some_0@) == Some("flow"@)
}

/// The flow identifier of one raw record; meaningful only when the
/// record decodes to an insert payload.
pub open spec fn raw_flow_id(o: Option<EveRecord>) -> i64 {
    flow_id_of(o->Some_0@)
}

/// The position of the first fatal record of a batch, if any.
pub open spec fn first_fatal(rs: Seq<Option<EveRecord>>) -> Option<int>
    decreases rs.len(),
{
    if rs.len() == 0 {
        None
    } else if raw_fatal(rs[0]) is Some {
        Some(0)
    } else {
        match first_fatal(rs.drop_first()) {
            Some(k) => Some(k + 1),
            None => None,
        }
    }
}

proof fn lemma_first_fatal_at(rs: Seq<Option<EveRecord>>, i: int)
    requires
        0 <= i < rs.len(),
        raw_fatal(rs[i]) is Some,
        forall|j: int| 0 <= j < i ==> raw_fatal(rs[j]) is None,
    ensures
        first_fatal(rs) == Some(i),
    decreases rs.len(),
{
    if i > 0 {
        assert(raw_fatal(rs[0]) is None);
        assert forall|j: int| 0 <= j < i - 1 implies raw_fatal(rs.drop_first()[j]) is None by {
            assert(rs.drop_first()[j] == rs[j + 1]);
        }
        assert(rs.drop_first()[i - 1] == rs[i]);
        lemma_first_fatal_at(rs.drop_first(), i - 1);
    }
}

proof fn lemma_first_fatal_none(rs: Seq<Option<EveRecord>>)
    requires
        forall|j: int| 0 <= j < rs.len() ==> raw_fatal(rs[j]) is None,
    ensures
        first_fatal(rs) is None,
    decreases rs.len(),
{
    if rs.len() > 0 {
        assert forall|j: int| 0 <= j < rs.len() - 1 implies raw_fatal(
            rs.drop_first()[j],
        ) is None by {
            assert(rs.drop_first()[j] == rs[j + 1]);
        }
        lemma_first_fatal_none(rs.drop_first());
    }
}

/// Every record of the batch decodes to an insert payload, every flow
/// payload's identity is absent from `flows0`, and no two flow payloads
/// share an identity: the batch stores one new row per record.
pub open spec fn batch_all_new(rs: Seq<Option<EveRecord>>, flows0: Seq<crate::models::NewFlow>) -> bool {
    &&& forall|i: int| 0 <= i < rs.len() ==> raw_inserts(#[trigger] rs[i])
    &&& forall|i: int|
        0 <= i < rs.len() && raw_is_flow(#[trigger] rs[i]) ==> !has_flow_id(
            flows0,
            raw_flow_id(rs[i]),
        )
    &&& forall|i: int, j: int|
        0 <= i < j < rs.len() && raw_is_flow(rs[i]) && raw_is_flow(rs[j]) ==> raw_flow_id(rs[i])
            != raw_flow_id(rs[j])
}

/// The optional port attribute of a record; meaningful only when the
/// record is not fatal.
pub open spec fn spec_port_of(r: Seq<JsonField>, key: Seq<char>) -> Option<i32> {
    match lookup_field(r, key) {
        Some(_) => Some(int_field(r, key)->Some_0 as i32),
        None => None,
    }
}

/// The flow row a flow record yields under cache contents `c`.
pub open spec fn spec_flow_row(r: Seq<JsonField>, c: Map<int, Seq<char>>) -> FlowRowView {
    FlowRowView {
        id: flow_id_of(r),
        src_ip: str_field(r, "src_ip"@)->Some_0,
        src_port: spec_port_of(r, "src_port"@),
        dest_ip: str_field(r, "dest_ip"@)->Some_0,
        dest_port: spec_port_of(r, "dest_port"@),
        pcap_filename: Some(resolved_filename(r, c)),
        proto: str_field(r, "proto"@)->Some_0,
        app_proto: str_field(r, "app_proto"@),
        metadata: text_field(r, "metadata"@),
        extra_data: text_field(r, "flow"@),
    }
}

/// The row an alert, anomaly or fileinfo record yields: its payload sits
/// under the record's own type key.
pub open spec fn spec_event_row(r: Seq<JsonField>) -> EventRowView {
    EventRowView {
        flow_id: flow_id_of(r),
        timestamp: timestamp_of(r),
        extra_data: text_field(r, event_type_of(r)->Some_0),
    }
}

/// The row a generic application event yields.
pub open spec fn spec_app_event_row(r: Seq<JsonField>) -> AppEventRowView {
    AppEventRowView {
        flow_id: flow_id_of(r),
        timestamp: timestamp_of(r),
        app_proto: event_type_of(r)->Some_0,
        extra_data: text_field(r, event_type_of(r)->Some_0),
    }
}

/// One record's effect on the store contents, under cache contents `c`:
/// a fatal or skipped record stores nothing; otherwise exactly the
/// collection the record's type selects grows by one row, except that a
/// flow row with a stored identifier is dropped.
pub open spec fn step_store(sv: StoreView, c: Map<int, Seq<char>>, r: Seq<JsonField>) -> StoreView {
    if decode_fatal(r) is Some || decode_skips(r) {
        sv
    } else {
        let et = event_type_of(r)->Some_0;
        if et == "flow"@ {
            if view_has_flow_id(sv.flows, flow_id_of(r)) {
                sv
            } else {
                StoreView { flows: sv.flows.push(spec_flow_row(r, c)), ..sv }
            }
        } else if et == "alert"@ {
            StoreView { alerts: sv.alerts.push(spec_event_row(r)), ..sv }
        } else if et == "anomaly"@ {
            StoreView { anomalies: sv.anomalies.push(spec_event_row(r)), ..sv }
        } else if et == "fileinfo"@ {
            StoreView { fileinfos: sv.fileinfos.push(spec_event_row(r)), ..sv }
        } else {
            StoreView { app_events: sv.app_events.push(spec_app_event_row(r)), ..sv }
        }
    }
}

/// The store contents and cache contents the worker carries between
/// records.
pub struct IngestState {
    pub store: StoreView,
    pub cache: Map<int, Seq<char>>,
}

/// One record's effect on store and cache together: an unparsed record
/// changes nothing.
pub open spec fn step_state(st: IngestState, o: Option<EveRecord>) -> IngestState {
    match o {
        None => st,
        Some(rec) => IngestState {
            store: step_store(st.store, st.cache, rec@),
            cache: cache_after(rec@, st.cache),
        },
    }
}

/// A batch's effect, record by record, in order.
pub open spec fn fold_state(rs: Seq<Option<EveRecord>>, st: IngestState) -> IngestState
    decreases rs.len(),
{
    if rs.len() == 0 {
        st
    } else {
        fold_state(rs.drop_first(), step_state(st, rs[0]))
    }
}

proof fn lemma_fold_state_push(rs: Seq<Option<EveRecord>>, o: Option<EveRecord>, st: IngestState)
    ensures
        fold_state(rs.push(o), st) == step_state(fold_state(rs, st), o),
    decreases rs.len(),
{
    if rs.len() == 0 {
        assert(rs.push(o).drop_first() =~= Seq::<Option<EveRecord>>::empty());
        assert(rs.push(o)[0] == o);
        assert(fold_state(rs.push(o), st) == fold_state(
            rs.push(o).drop_first(),
            step_state(st, o),
        ));
        assert(fold_state(rs.push(o).drop_first(), step_state(st, o)) == step_state(st, o));
        assert(fold_state(rs, st) == st);
    } else {
        assert(rs.push(o)[0] == rs[0]);
        assert(rs.push(o).drop_first() =~= rs.drop_first().push(o));
        lemma_fold_state_push(rs.drop_first(), o, step_state(st, rs[0]));
        assert(fold_state(rs.push(o), st) == fold_state(
            rs.drop_first().push(o),
            step_state(st, rs[0]),
        ));
        assert(fold_state(rs, st) == fold_state(rs.drop_first(), step_state(st, rs[0])));
    }
}

/// The ingestion worker's writing half: the store model, the correlation
/// cache, and the two running counters.
pub struct BatchWriter {
    pub store: Store,
    pub cache: FilenameCache,
    /// Records processed, skips and fatal records included.
    pub count: usize,
    /// Rows newly stored.
    pub count_inserted: usize,
}

impl BatchWriter {
    pub open spec fn wf(&self) -> bool {
        &&& self.store.wf()
        &&& self.cache.wf()
    }

    /// A fresh worker: empty store, empty cache, zero counters.
    pub fn new() -> (r: BatchWriter)
        ensures
            r.wf(),
            r.count == 0,
            r.count_inserted == 0,
            r.store.flows@ =~= Seq::<crate::models::NewFlow>::empty(),
            r.cache@ =~= Map::<int, Seq<char>>::empty(),
    {
        BatchWriter { store: Store::new(), cache: FilenameCache::new(), count: 0, count_inserted: 0 }
    }

    /// Process one raw record: count it, decode it, store its payload.
    /// A record that did not parse (`None`) or that the decoder skips is
    /// counted but stores nothing; a fatal record is counted and
    /// reported, and stores nothing.
    pub fn process_one(&mut self, input: &Option<EveRecord>) -> (r: Result<Processed, DecodeError>)
        requires
            old(self).wf(),
            old(self).count < usize::MAX,
            old(self).count_inserted < usize::MAX,
        ensures
            final(self).wf(),
            final(self).count == old(self).count + 1,
            r is Err <==> raw_fatal(*input) is Some,
            r matches Err(e) ==> raw_fatal(*input) == Some(e),
            r matches Err(e) ==> final(self).store == old(self).store && final(self).cache@
                == old(self).cache@ && final(self).count_inserted == old(self).count_inserted,
            r == Ok::<Processed, DecodeError>(Processed::Skipped) <==> raw_skips(*input) && raw_fatal(
                *input,
            ) is None,
            r == Ok::<Processed, DecodeError>(Processed::Skipped) ==> final(self).store == old(
                self,
            ).store && final(self).cache@ == old(self).cache@ && final(self).count_inserted == old(
                self,
            ).count_inserted,
            raw_inserts(*input) ==> r matches Ok(Processed::Inserted(_, _)),
            r matches Ok(Processed::Inserted(ev, n)) ==> {
                &&& input matches Some(rec) && event_matches(ev, rec@, old(self).cache@)
                &&& final(self).cache@ == cache_after(input->Some_0@, old(self).cache@)
                &&& n <= 1
                &&& final(self).count_inserted == old(self).count_inserted + n
                &&& (ev matches NewEvent::Flow(f) ==> final(self).store.flows@ == spec_insert_flow(
                    old(self).store.flows@,
                    f,
                ) && n as int == spec_flow_inserted(old(self).store.flows@, f))
                &&& (!(ev matches NewEvent::Flow(_)) ==> final(self).store.flows == old(
                    self,
                ).store.flows && n == 1)
                &&& (ev matches NewEvent::Alert(a) ==> final(self).store.alerts@ == old(
                    self,
                ).store.alerts@.push(a))
                &&& (!(ev matches NewEvent::Alert(_)) ==> final(self).store.alerts == old(
                    self,
                ).store.alerts)
                &&& (ev matches NewEvent::Anomaly(a) ==> final(self).store.anomalies@ == old(
                    self,
                ).store.anomalies@.push(a))
                &&& (!(ev matches NewEvent::Anomaly(_)) ==> final(self).store.anomalies == old(
                    self,
                ).store.anomalies)
                &&& (ev matches NewEvent::Fileinfo(f) ==> final(self).store.fileinfos@ == old(
                    self,
                ).store.fileinfos@.push(f))
                &&& (!(ev matches NewEvent::Fileinfo(_)) ==> final(self).store.fileinfos == old(
                    self,
                ).store.fileinfos)
                &&& (ev matches NewEvent::AppEvent(a) ==> final(self).store.app_events@ == old(
                    self,
                ).store.app_events@.push(a))
                &&& (!(ev matches NewEvent::AppEvent(_)) ==> final(self).store.app_events == old(
                    self,
                ).store.app_events)
            },
    {
        self.count = self.count + 1;
        let rec = match input {
            Some(r) => r,
            None => {
                return Ok(Processed::Skipped);
            },
        };
        let outcome = match decode_event(rec, &mut self.cache) {
            Ok(o) => o,
            Err(e) => {
                return Err(e);
            },
        };
        match outcome {
            DecodeOutcome::Skip => Ok(Processed::Skipped),
            DecodeOutcome::Insert(ev) => {
                let copy = ev.dup();
                let n = self.store.insert_event(copy);
                self.count_inserted = self.count_inserted + n;
                Ok(Processed::Inserted(ev, n))
            },
        }
    }

    /// Process one drained batch in order. Processing stops at the first
    /// fatal record: that record is counted, its error is returned, and
    /// the records after it are not processed. A batch whose records all
    /// decode to payloads with fresh, pairwise distinct identities
    /// raises both counters by the batch length.
    #[verifier::loop_isolation(false)]
    #[verifier::rlimit(100)]
    pub fn process_batch(&mut self, records: &Vec<Option<EveRecord>>) -> (r: Result<
        (),
        DecodeError,
    >)
        requires
            old(self).wf(),
            old(self).count + records@.len() <= usize::MAX,
            old(self).count_inserted + records@.len() <= usize::MAX,
        ensures
            final(self).wf(),
            r is Err <==> first_fatal(records@) is Some,
            first_fatal(records@) matches Some(k) ==> r == Err::<(), DecodeError>(
                raw_fatal(records@[k])->Some_0,
            ) && final(self).count == old(self).count + k + 1,
            first_fatal(records@) is None ==> final(self).count == old(self).count
                + records@.len(),
            final(self).count_inserted - old(self).count_inserted
                <= final(self).count - old(self).count,
            batch_all_new(records@, old(self).store.flows@) ==> r is Ok
                && final(self).count_inserted == old(self).count_inserted + records@.len(),
            r is Ok ==> ({
                let fin = fold_state(
                    records@,
                    (IngestState { store: old(self).store@, cache: old(self).cache@ }),
                );
                final(self).store@ == fin.store && final(self).cache@ == fin.cache
            }),
            first_fatal(records@) matches Some(k) ==> ({
                let fin = fold_state(
                    records@.take(k + 1),
                    (IngestState { store: old(self).store@, cache: old(self).cache@ }),
                );
                final(self).store@ == fin.store && final(self).cache@ == fin.cache
            }),
    {
        let ghost flows0 = old(self).store.flows@;
        let ghost c0 = old(self).count;
        let ghost ci0 = old(self).count_inserted;
        let ghost rs = records@;
        let ghost st0 = IngestState { store: old(self).store@, cache: old(self).cache@ };
        proof {
            assert(rs.take(0) =~= Seq::<Option<EveRecord>>::empty());
            assert(fold_state(rs.take(0), st0) == st0);
        }
        let mut i: usize = 0;
        while i < records.len()
            invariant
                self.wf(),
                i <= rs.len(),
                self.count == c0 + i,
                self.count_inserted <= ci0 + i,
                forall|j: int| 0 <= j < i ==> raw_fatal(#[trigger] rs[j]) is None,
                batch_all_new(rs, flows0) ==> self.count_inserted == ci0 + i,
                batch_all_new(rs, flows0) ==> forall|id: i64|
                    has_flow_id(self.store.flows@, id) ==> has_flow_id(flows0, id) || exists|j: int|
                        0 <= j < i && raw_is_flow(#[trigger] rs[j]) && raw_flow_id(rs[j]) == id,
                self.store@ == fold_state(rs.take(i as int), st0).store,
                self.cache@ == fold_state(rs.take(i as int), st0).cache,
            decreases rs.len() - i,
        {
            let ghost flows_cur = self.store.flows@;
            let ghost alerts_cur = self.store.alerts@;
            let ghost anomalies_cur = self.store.anomalies@;
            let ghost fileinfos_cur = self.store.fileinfos@;
            let ghost app_events_cur = self.store.app_events@;
            let ghost cur = fold_state(rs.take(i as int), st0);
            match self.process_one(&records[i]) {
                Err(e) => {
                    proof {
                        let ii = i as int;
                        lemma_first_fatal_at(rs, ii);
                        assert(rs.take(ii + 1) =~= rs.take(ii).push(rs[ii]));
                        lemma_fold_state_push(rs.take(ii), rs[ii], st0);
                        let recv = rs[ii]->Some_0@;
                        assert(decode_fatal(recv) is Some);
                        assert(step_store(cur.store, cur.cache, recv) == cur.store);
                        assert(cache_after(recv, cur.cache) == cur.cache);
                        assert(fold_state(rs.take(ii + 1), st0).store == cur.store);
                        assert(fold_state(rs.take(ii + 1), st0).cache == cur.cache);
                    }
                    return Err(e);
                },
                Ok(Processed::Skipped) => {
                    proof {
                        let ii = i as int;
                        if batch_all_new(rs, flows0) {
                            assert(raw_inserts(rs[ii]));
                            assert(false);
                        }
                        assert(rs.take(ii + 1) =~= rs.take(ii).push(rs[ii]));
                        lemma_fold_state_push(rs.take(ii), rs[ii], st0);
                        if rs[ii] is Some {
                            let recv = rs[ii]->Some_0@;
                            assert(decode_skips(recv));
                            assert(step_store(cur.store, cur.cache, recv) == cur.store);
                            assert(cache_after(recv, cur.cache) == cur.cache);
                        }
                        assert(fold_state(rs.take(ii + 1), st0).store == cur.store);
                        assert(fold_state(rs.take(ii + 1), st0).cache == cur.cache);
                    }
                },
                Ok(Processed::Inserted(ev, n)) => {
                    proof {
                        let ii = i as int;
                        if batch_all_new(rs, flows0) {
                            assert(raw_inserts(rs[ii]));
                            match &ev {
                                NewEvent::Flow(f) => {
                                    assert(raw_is_flow(rs[ii]));
                                    assert(f.id == raw_flow_id(rs[ii]));
                                    if has_flow_id(flows_cur, f.id) {
                                        if !has_flow_id(flows0, f.id) {
                                            let j = choose|j: int|
                                                0 <= j < ii && raw_is_flow(#[trigger] rs[j])
                                                    && raw_flow_id(rs[j]) == f.id;
                                            assert(raw_flow_id(rs[j]) != raw_flow_id(rs[ii]));
                                        }
                                        assert(false);
                                    }
                                    assert(n == 1);
                                    assert(self.store.flows@ == flows_cur.push(*f));
                                    assert forall|id: i64|
                                        has_flow_id(self.store.flows@, id) implies has_flow_id(
                                        flows0,
                                        id,
                                    ) || exists|j: int|
                                        0 <= j < ii + 1 && raw_is_flow(#[trigger] rs[j])
                                            && raw_flow_id(rs[j]) == id by {
                                        let k = choose|k: int|
                                            0 <= k < self.store.flows@.len()
                                                && self.store.flows@[k].id == id;
                                        if k < flows_cur.len() {
                                            assert(flows_cur[k].id == id);
                                            assert(has_flow_id(flows_cur, id));
                                            if !has_flow_id(flows0, id) {
                                                let j = choose|j: int|
                                                    0 <= j < ii && raw_is_flow(#[trigger] rs[j])
                                                        && raw_flow_id(rs[j]) == id;
                                                assert(0 <= j < ii + 1 && raw_is_flow(rs[j])
                                                    && raw_flow_id(rs[j]) == id);
                                            }
                                        } else {
                                            assert(id == f.id);
                                            assert(0 <= ii < ii + 1 && raw_is_flow(rs[ii])
                                                && raw_flow_id(rs[ii]) == id);
                                        }
                                    }
                                },
                                _ => {
                                    assert(n == 1);
                                    assert(self.store.flows@ == flows_cur);
                                    assert forall|id: i64|
                                        has_flow_id(self.store.flows@, id) implies has_flow_id(
                                        flows0,
                                        id,
                                    ) || exists|j: int|
                                        0 <= j < ii + 1 && raw_is_flow(#[trigger] rs[j])
                                            && raw_flow_id(rs[j]) == id by {
                                        if !has_flow_id(flows0, id) {
                                            let j = choose|j: int|
                                                0 <= j < ii && raw_is_flow(#[trigger] rs[j])
                                                    && raw_flow_id(rs[j]) == id;
                                            assert(0 <= j < ii + 1 && raw_is_flow(rs[j])
                                                && raw_flow_id(rs[j]) == id);
                                        }
                                    }
                                },
                            }
                        }
                        assert(rs.take(ii + 1) =~= rs.take(ii).push(rs[ii]));
                        lemma_fold_state_push(rs.take(ii), rs[ii], st0);
                        let recv = rs[ii]->Some_0@;
                        assert(decode_fatal(recv) is None);
                        assert(!decode_skips(recv));
                        let et = event_type_of(recv)->Some_0;
                        let stepped = step_store(cur.store, cur.cache, recv);
                        reveal_strlit("flow");
                        reveal_strlit("alert");
                        reveal_strlit("anomaly");
                        reveal_strlit("fileinfo");
                        assert("flow"@.len() == 4);
                        assert("alert"@.len() == 5);
                        assert("anomaly"@.len() == 7);
                        assert("fileinfo"@.len() == 8);
                        match &ev {
                            NewEvent::Flow(f) => {
                                assert(et == "flow"@);
                                assert(f.id == flow_id_of(recv));
                                assert(view_has_flow_id(cur.store.flows, f.id) <==> has_flow_id(
                                    flows_cur,
                                    f.id,
                                )) by {
                                    if has_flow_id(flows_cur, f.id) {
                                        let q = choose|q: int|
                                            0 <= q < flows_cur.len() && flows_cur[q].id == f.id;
                                        assert(cur.store.flows[q].id == f.id);
                                    }
                                    if view_has_flow_id(cur.store.flows, f.id) {
                                        let q = choose|q: int|
                                            0 <= q < cur.store.flows.len() && cur.store.flows[q].id
                                                == f.id;
                                        assert(flows_cur[q].id == f.id);
                                    }
                                }
                                if has_flow_id(flows_cur, f.id) {
                                    assert(self.store.flows@ == flows_cur);
                                    assert(self.store@.flows == stepped.flows);
                                } else {
                                    assert(self.store.flows@ == flows_cur.push(*f));
                                    assert(flow_row_view(*f) == spec_flow_row(recv, cur.cache)) by {
                                        if lookup_field(recv, "src_port"@) is Some {
                                            assert(f.src_port->Some_0 as i64 == int_field(
                                                recv,
                                                "src_port"@,
                                            )->Some_0);
                                        }
                                        if lookup_field(recv, "dest_port"@) is Some {
                                            assert(f.dest_port->Some_0 as i64 == int_field(
                                                recv,
                                                "dest_port"@,
                                            )->Some_0);
                                        }
                                    }
                                    assert(self.store@.flows =~= stepped.flows) by {
                                        assert forall|q: int|
                                            0 <= q < flows_cur.len() + 1 implies self.store@.flows[q]
                                            == stepped.flows[q] by {
                                            if q < flows_cur.len() {
                                                assert(self.store.flows@[q] == flows_cur[q]);
                                            } else {
                                                assert(self.store.flows@[q] == *f);
                                            }
                                        }
                                    }
                                }
                                assert(self.store@ == stepped);
                            },
                            NewEvent::Alert(a) => {
                                assert(et == "alert"@);
                                assert(et != "flow"@);
                                assert(alert_row_view(*a) == spec_event_row(recv));
                                assert(self.store.alerts@ == alerts_cur.push(*a));
                                assert(self.store@.alerts =~= stepped.alerts) by {
                                    assert forall|q: int|
                                        0 <= q < alerts_cur.len() + 1 implies self.store@.alerts[q]
                                        == stepped.alerts[q] by {
                                        if q < alerts_cur.len() {
                                            assert(self.store.alerts@[q] == alerts_cur[q]);
                                        } else {
                                            assert(self.store.alerts@[q] == *a);
                                        }
                                    }
                                }
                                assert(self.store@ == stepped);
                            },
                            NewEvent::Anomaly(a) => {
                                assert(et == "anomaly"@);
                                assert(et != "flow"@ && et != "alert"@);
                                assert(anomaly_row_view(*a) == spec_event_row(recv));
                                assert(self.store.anomalies@ == anomalies_cur.push(*a));
                                assert(self.store@.anomalies =~= stepped.anomalies) by {
                                    assert forall|q: int|
                                        0 <= q < anomalies_cur.len() + 1 implies self.store@.anomalies[q]
                                        == stepped.anomalies[q] by {
                                        if q < anomalies_cur.len() {
                                            assert(self.store.anomalies@[q] == anomalies_cur[q]);
                                        } else {
                                            assert(self.store.anomalies@[q] == *a);
                                        }
                                    }
                                }
                                assert(self.store@ == stepped);
                            },
                            NewEvent::Fileinfo(fi) => {
                                assert(et == "fileinfo"@);
                                assert(et != "flow"@ && et != "alert"@ && et != "anomaly"@);
                                assert(fileinfo_row_view(*fi) == spec_event_row(recv));
                                assert(self.store.fileinfos@ == fileinfos_cur.push(*fi));
                                assert(self.store@.fileinfos =~= stepped.fileinfos) by {
                                    assert forall|q: int|
                                        0 <= q < fileinfos_cur.len() + 1 implies self.store@.fileinfos[q]
                                        == stepped.fileinfos[q] by {
                                        if q < fileinfos_cur.len() {
                                            assert(self.store.fileinfos@[q] == fileinfos_cur[q]);
                                        } else {
                                            assert(self.store.fileinfos@[q] == *fi);
                                        }
                                    }
                                }
                                assert(self.store@ == stepped);
                            },
                            NewEvent::AppEvent(a) => {
                                assert(et != "flow"@ && et != "alert"@ && et != "anomaly"@ && et
                                    != "fileinfo"@);
                                assert(app_event_row_view(*a) == spec_app_event_row(recv));
                                assert(self.store.app_events@ == app_events_cur.push(*a));
                                assert(self.store@.app_events =~= stepped.app_events) by {
                                    assert forall|q: int|
                                        0 <= q < app_events_cur.len() + 1 implies self.store@.app_events[q]
                                        == stepped.app_events[q] by {
                                        if q < app_events_cur.len() {
                                            assert(self.store.app_events@[q] == app_events_cur[q]);
                                        } else {
                                            assert(self.store.app_events@[q] == *a);
                                        }
                                    }
                                }
                                assert(self.store@ == stepped);
                            },
                        }
                        assert(fold_state(rs.take(ii + 1), st0).store == self.store@);
                        assert(fold_state(rs.take(ii + 1), st0).cache == self.cache@);
                    }
                },
            }
            i += 1;
        }
        proof {
            lemma_first_fatal_none(rs);
            assert(rs.take(rs.len() as int) =~= rs);
        }
        Ok(())
    }
}

} // verus!
