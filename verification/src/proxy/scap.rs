//! Capture of per-flow traffic.
//!
//! Workers send [`common::ScapEvent`]s; a single consumer folds them into
//! per-flow buffers and, when a flow closes, turns its buffers into the
//! artifacts to write.

use crate::proxy::scap::common::{
    flow_hash, ScapAddresses, ScapEntry, ScapEntryView, ScapEvent, ScapEventView, ScapProtocol,
    ScapSender,
};
use crate::proxy::scap::file::FlowArtifacts;
use crate::proxy::scap::http::{
    http_request_head, http_response_head, spec_http_or_error, MAX_HEADERS,
};
use crate::proxy::scap::tcp::spec_tcp_artifacts;
use std::collections::BTreeMap;
use std::time::Duration;
use vstd::prelude::*;
use vstd::std_specs::btree::group_btree_axioms;

pub mod chunked;
pub mod common;
pub mod file;
pub mod http;
pub mod tcp;

verus! {

broadcast use group_btree_axioms;

/// The flows in flight, as the capture consumer holds them.
pub struct ScapFlows {
    pub store: BTreeMap<u64, ScapEntry>,
    /// Buffers of closed flows, kept for the flows to come.
    pub pool: Vec<ScapEntry>,
}

impl View for ScapFlows {
    type V = Map<u64, ScapEntryView>;

    /// The buffers of each flow in flight, by flow id.
    open spec fn view(&self) -> Map<u64, ScapEntryView> {
        self.store@.map_values(|e: ScapEntry| e@)
    }
}

/// Whether the flows of a protocol are written out when they close.
pub open spec fn is_written(protocol: ScapProtocol) -> bool {
    protocol is Http || protocol is Tcp || protocol is Tls
}

/// The flows in flight after an event.
pub open spec fn flows_after(flows: Map<u64, ScapEntryView>, event: ScapEventView) -> Map<
    u64,
    ScapEntryView,
> {
    match event {
        ScapEventView::Connect { address, protocol } => flows.insert(
            flow_hash(address),
            ScapEntryView { address, protocol, received: Seq::empty(), send: Seq::empty() },
        ),
        ScapEventView::Receive { id, data, .. } => if flows.contains_key(id) {
            flows.insert(id, ScapEntryView { received: flows[id].received + data, ..flows[id] })
        } else {
            flows
        },
        ScapEventView::Send { id, data, .. } => if flows.contains_key(id) {
            flows.insert(id, ScapEntryView { send: flows[id].send + data, ..flows[id] })
        } else {
            flows
        },
        ScapEventView::Close { address } => flows.remove(flow_hash(address)),
    }
}

/// The flow that an event completes: the buffers of a flow in flight that
/// closes, if flows of its protocol are written out.
pub open spec fn flow_completed(flows: Map<u64, ScapEntryView>, event: ScapEventView) -> Option<
    ScapEntryView,
> {
    match event {
        ScapEventView::Close { address } => if flows.contains_key(flow_hash(address)) && is_written(
            flows[flow_hash(address)].protocol,
        ) {
            Some(flows[flow_hash(address)])
        } else {
            None
        },
        _ => None,
    }
}

impl ScapFlows {
    /// No flow in flight.
    pub fn new() -> (f: ScapFlows)
        ensures
            f@ == Map::<u64, ScapEntryView>::empty(),
    {
        let f = ScapFlows { store: BTreeMap::new(), pool: Vec::new() };
        assert(f@ =~= Map::<u64, ScapEntryView>::empty());
        f
    }

    /// Takes back the buffers of a flow that was written out, for the
    /// flows to come. The flows in flight are not touched.
    pub fn recycle(&mut self, entry: ScapEntry)
        ensures
            final(self)@ == old(self)@,
            final(self).store == old(self).store,
            final(self).pool@ == old(self).pool@.push(entry),
    {
        self.pool.push(entry);
    }

    /// Takes the next event from the workers.
    ///
    /// `Connect` opens a flow with empty buffers, in place of any flow in
    /// flight with the same id. `Send` and `Receive` append to the buffers
    /// of their flow and are dropped if the flow is not in flight. `Close`
    /// takes the flow out; only then, and only for a flow tagged `Http`,
    /// `Tcp` or `Tls`, the buffers are handed back to be written out.
    pub fn apply(&mut self, event: ScapEvent) -> (done: Option<ScapEntry>)
        ensures
            final(self)@ == flows_after(old(self)@, event@),
            match done {
                Some(e) => Some(e@) == flow_completed(old(self)@, event@),
                None => flow_completed(old(self)@, event@) is None,
            },
    {
        let ghost before = self@;
        match event {
            ScapEvent::Connect(connect) => {
                let hash = connect.address.get_hash();
                let entry = match self.pool.pop() {
                    Some(v) => {
                        let mut v = v;
                        v.address = connect.address;
                        v.protocol = connect.protocol;
                        v.received.clear();
                        v.send.clear();
                        v
                    },
                    None => ScapEntry::new(connect.address, connect.protocol),
                };
                self.store.insert(hash, entry);
                assert(self@ =~= flows_after(before, event@));
                None
            },
            ScapEvent::Receive(scap_data) => {
                let mut scap_data = scap_data;
                match self.store.remove(&scap_data.id) {
                    Some(entry) => {
                        let mut entry = entry;
                        entry.from_server(&mut scap_data.data);
                        self.store.insert(scap_data.id, entry);
                        assert(self@ =~= flows_after(before, event@));
                    },
                    None => {
                        assert(self@ =~= flows_after(before, event@));
                    },
                }
                None
            },
            ScapEvent::Send(scap_data) => {
                let mut scap_data = scap_data;
                match self.store.remove(&scap_data.id) {
                    Some(entry) => {
                        let mut entry = entry;
                        entry.from_client(&mut scap_data.data);
                        self.store.insert(scap_data.id, entry);
                        assert(self@ =~= flows_after(before, event@));
                    },
                    None => {
                        assert(self@ =~= flows_after(before, event@));
                    },
                }
                None
            },
            ScapEvent::Close(scap_addresses) => {
                let hash = scap_addresses.get_hash();
                let removed = self.store.remove(&hash);
                assert(self@ =~= flows_after(before, event@));
                match removed {
                    Some(scap) => match scap.protocol {
                        ScapProtocol::Http | ScapProtocol::Tcp | ScapProtocol::Tls => Some(scap),
                        _ => None,
                    },
                    None => None,
                }
            },
        }
    }
}

/// The flows in flight after a run of events, starting from `flows`.
pub open spec fn flows_after_all(flows: Map<u64, ScapEntryView>, events: Seq<ScapEventView>) -> Map<
    u64,
    ScapEntryView,
>
    decreases events.len(),
{
    if events.len() == 0 {
        flows
    } else {
        flows_after(flows_after_all(flows, events.drop_last()), events.last())
    }
}

/// The bytes that the `Send` events of a run carry, in order.
pub open spec fn bytes_sent(events: Seq<ScapEventView>) -> Seq<u8>
    decreases events.len(),
{
    if events.len() == 0 {
        Seq::empty()
    } else {
        match events.last() {
            ScapEventView::Send { data, .. } => bytes_sent(events.drop_last()) + data,
            _ => bytes_sent(events.drop_last()),
        }
    }
}

/// The bytes that the `Receive` events of a run carry, in order.
pub open spec fn bytes_received(events: Seq<ScapEventView>) -> Seq<u8>
    decreases events.len(),
{
    if events.len() == 0 {
        Seq::empty()
    } else {
        match events.last() {
            ScapEventView::Receive { data, .. } => bytes_received(events.drop_last()) + data,
            _ => bytes_received(events.drop_last()),
        }
    }
}

/// Whether every event of a run is a `Send` or a `Receive` of flow `id`.
pub open spec fn only_data_of(events: Seq<ScapEventView>, id: u64) -> bool {
    forall|i: int|
        0 <= i < events.len() ==> ((#[trigger] events[i]) is Send || events[i] is Receive)
            && events[i].flow() == id
}

/// Whether a run of events is the start of the life of one flow: a
/// `Connect`, then `Send`s and `Receive`s, then one `Close`, all of the
/// same flow.
pub open spec fn flow_ordered(events: Seq<ScapEventView>) -> bool {
    events.len() > 0 ==> {
        &&& events[0] is Connect
        &&& forall|i: int|
            0 < i < events.len() ==> (#[trigger] events[i]).flow() == events[0].flow() && (events[i]
                is Send || events[i] is Receive || (events[i] is Close && i == events.len() - 1))
    }
}

/// The events of the writes `writes` through the producer `sender`: for
/// each write its direction (`true` for the client's bytes), its time and
/// its bytes.
pub open spec fn events_of_writes(sender: ScapSender, writes: Seq<(bool, Duration, Seq<u8>)>) -> Seq<
    ScapEventView,
>
    decreases writes.len(),
{
    if writes.len() == 0 {
        Seq::empty()
    } else {
        let w = writes.last();
        let head = events_of_writes(sender, writes.drop_last());
        match sender.write_event(w.0, w.1, w.2) {
            Some(e) => head.push(e),
            None => head,
        }
    }
}

/// Everything that a producer emits in its life: the `Connect` of its
/// creation, the events of its writes and, if it was closed, the event of
/// its close.
pub open spec fn events_of_flow(
    sender: ScapSender,
    protocol: ScapProtocol,
    writes: Seq<(bool, Duration, Seq<u8>)>,
    closed: bool,
) -> Seq<ScapEventView> {
    let opened = seq![ScapEventView::Connect { address: sender.address, protocol }]
        + events_of_writes(sender, writes);
    match sender.close_event() {
        Some(e) => if closed {
            opened.push(e)
        } else {
            opened
        },
        None => opened,
    }
}

/// The events of writes are `Send`s and `Receive`s of the producer's flow.
pub proof fn lemma_writes_are_data(sender: ScapSender, writes: Seq<(bool, Duration, Seq<u8>)>)
    ensures
        only_data_of(events_of_writes(sender, writes), sender.hash),
    decreases writes.len(),
{
    if writes.len() > 0 {
        lemma_writes_are_data(sender, writes.drop_last());
    }
}

/// Capture events are ordered. The events that the producer of a flow
/// emits, at whatever point of its life, are a `Connect`, then `Send`s and
/// `Receive`s, then at most one `Close`, which is the last.
pub proof fn lemma_capture_event_ordering(
    sender: ScapSender,
    protocol: ScapProtocol,
    writes: Seq<(bool, Duration, Seq<u8>)>,
    closed: bool,
)
    requires
        sender.hash == flow_hash(sender.address),
    ensures
        flow_ordered(events_of_flow(sender, protocol, writes, closed)),
{
    lemma_writes_are_data(sender, writes);
    let data = events_of_writes(sender, writes);
    let opened = seq![ScapEventView::Connect { address: sender.address, protocol }] + data;
    let all = events_of_flow(sender, protocol, writes, closed);
    assert forall|i: int| 0 < i < all.len() implies (#[trigger] all[i]).flow() == all[0].flow() && (
    all[i] is Send || all[i] is Receive || (all[i] is Close && i == all.len() - 1)) by {
        if i < opened.len() {
            assert(all[i] == data[i - 1]);
        }
    }
}

/// The consumer rebuilds what the workers saw. After the `Connect` of a
/// flow and any run of `Send`s and `Receive`s of that flow, the buffers of
/// the flow hold the bytes of the `Send`s and those of the `Receive`s, each
/// in the order of the events.
pub proof fn lemma_flow_buffers(
    flows: Map<u64, ScapEntryView>,
    address: ScapAddresses,
    protocol: ScapProtocol,
    data: Seq<ScapEventView>,
)
    requires
        only_data_of(data, flow_hash(address)),
    ensures
        ({
            let after = flows_after_all(
                flows_after(flows, ScapEventView::Connect { address, protocol }),
                data,
            );
            &&& after.contains_key(flow_hash(address))
            &&& after[flow_hash(address)] == ScapEntryView {
                address,
                protocol,
                received: bytes_received(data),
                send: bytes_sent(data),
            }
        }),
    decreases data.len(),
{
    if data.len() > 0 {
        lemma_flow_buffers(flows, address, protocol, data.drop_last());
        assert(only_data_of(data.drop_last(), flow_hash(address)));
        assert(data.last() == data[data.len() - 1]);
    }
}

/// What is written out for a flow that closed: by its protocol tag, the
/// artifacts of an HTTP flow or those of an opaque flow. Nothing is written
/// for a flow tagged `Udp` or `Dns`.
pub fn process_scap_entry(scap: ScapEntry) -> (a: Option<FlowArtifacts>)
    ensures
        match a {
            Some(v) => is_written(scap.protocol) && v@ == (if scap.protocol is Http {
                spec_http_or_error(
                    scap@,
                    http_request_head(scap.send@, MAX_HEADERS),
                    http_response_head(scap.received@, MAX_HEADERS),
                )
            } else {
                spec_tcp_artifacts(scap@)
            }),
            None => !is_written(scap.protocol),
        },
{
    match scap.protocol {
        ScapProtocol::Http => Some(crate::proxy::scap::http::process_scap_entry(scap)),
        ScapProtocol::Tcp => Some(crate::proxy::scap::tcp::process_scap_entry(scap)),
        ScapProtocol::Tls => Some(crate::proxy::scap::tcp::process_scap_entry(scap)),
        _ => None,
    }
}

} // verus!
