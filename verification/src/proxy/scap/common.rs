//! Capture events, their producers and the capture filter.

use crate::bytes::{append_be, be_bytes};
use crate::net::IpAddr;
use std::time::Duration;
use vstd::prelude::*;
use vstd::slice::slice_to_vec;

verus! {

/// `Duration::clone` of std: a `Duration` is `Copy`, so the clone is the
/// value itself.
pub assume_specification[ <Duration as Clone>::clone ](d: &Duration) -> (res: Duration)
    ensures
        res == *d,
;

/// Protocol tag of a captured flow.
#[derive(Debug, Clone, Copy, PartialEq, Eq, Structural)]
pub enum ScapProtocol {
    Http,
    Tcp,
    Tls,
    Udp,
    Dns,
}

/// The 4-tuple that identifies a flow.
#[derive(Debug, Clone, Copy, PartialEq, Eq, Structural, Hash)]
pub struct ScapAddresses {
    pub remote: IpAddr,
    pub rport: u16,
    pub source: IpAddr,
    pub sport: u16,
}

/// Bytes seen on a flow in one direction.
#[derive(Debug, Clone)]
pub struct ScapData {
    pub id: u64,
    pub timestamp: Duration,
    pub data: Vec<u8>,
}

/// Announces a new flow.
#[derive(Debug, Clone, Copy)]
pub struct ScapConnect {
    pub address: ScapAddresses,
    pub protocol: ScapProtocol,
}

/// What a worker tells the capture consumer.
#[derive(Debug, Clone)]
pub enum ScapEvent {
    Connect(ScapConnect),
    /// Bytes that the server sent.
    Receive(ScapData),
    /// Bytes that the client sent.
    Send(ScapData),
    Close(ScapAddresses),
}

/// Mathematical content of a [`ScapEvent`].
pub enum ScapEventView {
    Connect { address: ScapAddresses, protocol: ScapProtocol },
    Receive { id: u64, timestamp: Duration, data: Seq<u8> },
    Send { id: u64, timestamp: Duration, data: Seq<u8> },
    Close { address: ScapAddresses },
}

impl View for ScapEvent {
    type V = ScapEventView;

    open spec fn view(&self) -> ScapEventView {
        match *self {
            ScapEvent::Connect(c) => ScapEventView::Connect {
                address: c.address,
                protocol: c.protocol,
            },
            ScapEvent::Receive(d) => ScapEventView::Receive {
                id: d.id,
                timestamp: d.timestamp,
                data: d.data@,
            },
            ScapEvent::Send(d) => ScapEventView::Send {
                id: d.id,
                timestamp: d.timestamp,
                data: d.data@,
            },
            ScapEvent::Close(a) => ScapEventView::Close { address: a },
        }
    }
}

impl ScapEventView {
    /// The flow that the event belongs to.
    pub open spec fn flow(self) -> u64 {
        match self {
            ScapEventView::Connect { address, .. } => flow_hash(address),
            ScapEventView::Receive { id, .. } => id,
            ScapEventView::Send { id, .. } => id,
            ScapEventView::Close { address } => flow_hash(address),
        }
    }
}

/// The buffers of one flow, as the capture consumer holds them.
#[derive(Debug, Clone)]
pub struct ScapEntry {
    pub address: ScapAddresses,
    pub protocol: ScapProtocol,
    /// Bytes observed from the server.
    pub received: Vec<u8>,
    /// Bytes observed from the client.
    pub send: Vec<u8>,
}

/// Mathematical content of a [`ScapEntry`].
pub struct ScapEntryView {
    pub address: ScapAddresses,
    pub protocol: ScapProtocol,
    pub received: Seq<u8>,
    pub send: Seq<u8>,
}

impl View for ScapEntry {
    type V = ScapEntryView;

    open spec fn view(&self) -> ScapEntryView {
        ScapEntryView {
            address: self.address,
            protocol: self.protocol,
            received: self.received@,
            send: self.send@,
        }
    }
}

/// A flow's addresses with both byte streams, without a protocol tag.
#[derive(Debug, Clone)]
pub struct ScapRaw {
    pub address: ScapAddresses,
    pub received: Vec<u8>,
    pub send: Vec<u8>,
}

/// The addresses of a flow with the link-layer addresses of its ends.
#[derive(Debug, Clone, Copy)]
pub struct ScapLayerFileHelper<'a> {
    pub address: &'a ScapAddresses,
    pub eth_address: (u64, u64),
}

/// Which flows are captured. A port of 0 in a list stands for every port.
#[derive(Debug)]
pub struct ScapFilter {
    pub src_in: Vec<(IpAddr, u16)>,
    pub src_ex: Vec<(IpAddr, u16)>,
    pub dst_in: Vec<(IpAddr, u16)>,
    pub dst_ex: Vec<(IpAddr, u16)>,
    pub protocols: Vec<ScapProtocol>,
}

/// Owner of the capture filter; hands out references for the workers.
pub struct ScapStore {
    pub filter: ScapFilter,
}

/// A worker's handle on the capture filter.
pub struct ScapStoreRef {
    pub filter: ScapFilter,
}

/// Producer of the capture events of one flow.
#[derive(Debug)]
pub struct ScapSender {
    pub address: ScapAddresses,
    pub hash: u64,
    pub capture: bool,
}

/// Writer for one direction of a flow.
#[derive(Debug)]
pub struct ScapSenderWrt<'a> {
    pub sender: &'a ScapSender,
    pub from_client: bool,
    pub capture: bool,
}

/// Offset basis of the 64-bit FNV-1a hash.
pub const FNV_OFFSET: u64 = 0xcbf2_9ce4_8422_2325;

/// Prime of the 64-bit FNV-1a hash.
pub const FNV_PRIME: u64 = 0x0000_0100_0000_01b3;

/// The 64-bit FNV-1a hash of `bytes`.
pub open spec fn fnv1a(bytes: Seq<u8>) -> u64
    decreases bytes.len(),
{
    if bytes.len() == 0 {
        FNV_OFFSET
    } else {
        (fnv1a(bytes.drop_last()) ^ (bytes.last() as u64)).wrapping_mul(FNV_PRIME)
    }
}

/// The octets of an address behind a tag for its family.
pub open spec fn ip_key(ip: IpAddr) -> Seq<u8> {
    match ip {
        IpAddr::V4(bits) => seq![4u8] + be_bytes(bits as nat, 4),
        IpAddr::V6(bits) => seq![6u8] + be_bytes(bits as nat, 16),
    }
}

/// The octets that a flow is hashed by: remote address and port, then
/// source address and port.
pub open spec fn flow_key(a: ScapAddresses) -> Seq<u8> {
    ip_key(a.remote) + be_bytes(a.rport as nat, 2) + ip_key(a.source) + be_bytes(a.sport as nat, 2)
}

/// The flow id of a 4-tuple.
pub open spec fn flow_hash(a: ScapAddresses) -> u64 {
    fnv1a(flow_key(a))
}

/// Whether `list` names the endpoint `ip`:`port`.
pub open spec fn lists_endpoint(list: Seq<(IpAddr, u16)>, ip: IpAddr, port: u16) -> bool {
    exists|i: int|
        0 <= i < list.len() && (#[trigger] list[i]).0 == ip && (list[i].1 == 0 || list[i].1 == port)
}

fn append_ip_key(out: &mut Vec<u8>, ip: IpAddr)
    ensures
        final(out)@ == old(out)@ + ip_key(ip),
{
    match ip {
        IpAddr::V4(bits) => {
            out.push(4u8);
            append_be(out, bits as u128, 4);
            assert(out@ =~= old(out)@ + ip_key(ip));
        },
        IpAddr::V6(bits) => {
            out.push(6u8);
            append_be(out, bits, 16);
            assert(out@ =~= old(out)@ + ip_key(ip));
        },
    }
}

fn hash_bytes(bytes: &Vec<u8>) -> (h: u64)
    ensures
        h == fnv1a(bytes@),
{
    let mut h: u64 = FNV_OFFSET;
    let mut i: usize = 0;
    while i < bytes.len()
        invariant
            i <= bytes@.len(),
            h == fnv1a(bytes@.subrange(0, i as int)),
        decreases bytes@.len() - i,
    {
        proof {
            let next = bytes@.subrange(0, i as int + 1);
            assert(next.drop_last() =~= bytes@.subrange(0, i as int));
            assert(next.last() == bytes@[i as int]);
        }
        h = (h ^ (bytes[i] as u64)).wrapping_mul(FNV_PRIME);
        i += 1;
    }
    assert(bytes@.subrange(0, i as int) =~= bytes@);
    h
}

fn list_has(list: &Vec<(IpAddr, u16)>, ip: IpAddr, port: u16) -> (found: bool)
    ensures
        found == lists_endpoint(list@, ip, port),
{
    let mut i: usize = 0;
    while i < list.len()
        invariant
            i <= list@.len(),
            !lists_endpoint(list@.subrange(0, i as int), ip, port),
        decreases list@.len() - i,
    {
        let (a, p) = list[i];
        if a == ip && (p == 0 || p == port) {
            return true;
        }
        proof {
            let cur = list@.subrange(0, i as int);
            let next = list@.subrange(0, i as int + 1);
            assert forall|j: int| 0 <= j < next.len() implies !((#[trigger] next[j]).0 == ip && (
            next[j].1 == 0 || next[j].1 == port)) by {
                if j < i {
                    assert(cur[j] == next[j]);
                }
            }
        }
        i += 1;
    }
    assert(list@.subrange(0, i as int) =~= list@);
    false
}

fn copy_endpoints(list: &Vec<(IpAddr, u16)>) -> (out: Vec<(IpAddr, u16)>)
    ensures
        out@ == list@,
{
    let mut out: Vec<(IpAddr, u16)> = Vec::new();
    let mut i: usize = 0;
    while i < list.len()
        invariant
            i <= list@.len(),
            out@ == list@.subrange(0, i as int),
        decreases list@.len() - i,
    {
        out.push(list[i]);
        assert(list@.subrange(0, i as int + 1) =~= list@.subrange(0, i as int).push(list@[i as int]));
        i += 1;
    }
    assert(list@.subrange(0, i as int) =~= list@);
    out
}

impl ScapAddresses {
    pub open spec fn spec_new(remote: (IpAddr, u16), source: (IpAddr, u16)) -> ScapAddresses {
        ScapAddresses { remote: remote.0, rport: remote.1, source: source.0, sport: source.1 }
    }

    /// The 4-tuple of the remote and the source endpoint.
    #[verifier::when_used_as_spec(spec_new)]
    pub fn new(remote: (IpAddr, u16), source: (IpAddr, u16)) -> (a: ScapAddresses)
        ensures
            a == Self::spec_new(remote, source),
    {
        ScapAddresses { remote: remote.0, rport: remote.1, source: source.0, sport: source.1 }
    }

    /// The flow id: the FNV-1a hash of the 4-tuple, the same in every process.
    pub fn get_hash(&self) -> (h: u64)
        ensures
            h == flow_hash(*self),
    {
        let mut key: Vec<u8> = Vec::new();
        append_ip_key(&mut key, self.remote);
        append_be(&mut key, self.rport as u128, 2);
        append_ip_key(&mut key, self.source);
        append_be(&mut key, self.sport as u128, 2);
        assert(key@ =~= flow_key(*self));
        hash_bytes(&key)
    }
}

impl ScapFilter {
    /// Whether a flow between these endpoints is captured: an endpoint on an
    /// inclusion list captures it, else one on an exclusion list drops it,
    /// else it is captured.
    pub open spec fn spec_matches(&self, addr: ScapAddresses) -> bool {
        if lists_endpoint(self.src_in@, addr.source, addr.sport) {
            true
        } else if lists_endpoint(self.dst_in@, addr.remote, addr.rport) {
            true
        } else if lists_endpoint(self.src_ex@, addr.source, addr.sport) {
            false
        } else if lists_endpoint(self.dst_ex@, addr.remote, addr.rport) {
            false
        } else {
            true
        }
    }

    /// Whether flows of `protocol` are captured: every protocol if the
    /// filter lists none, else the listed ones.
    pub open spec fn spec_allows(&self, protocol: ScapProtocol) -> bool {
        self.protocols@.len() == 0 || self.protocols@.contains(protocol)
    }

    /// Whether a flow of `protocol` between these endpoints is captured:
    /// its endpoints match and its protocol is allowed.
    pub open spec fn spec_captures(&self, addr: ScapAddresses, protocol: ScapProtocol) -> bool {
        self.spec_matches(addr) && self.spec_allows(protocol)
    }

    /// Whether flows of `protocol` are captured.
    pub fn allows(&self, protocol: ScapProtocol) -> (allowed: bool)
        ensures
            allowed == self.spec_allows(protocol),
    {
        if self.protocols.len() == 0 {
            return true;
        }
        let mut i: usize = 0;
        while i < self.protocols.len()
            invariant
                i <= self.protocols@.len(),
                forall|k: int| 0 <= k < i ==> self.protocols@[k] != protocol,
            decreases self.protocols@.len() - i,
        {
            if self.protocols[i] == protocol {
                return true;
            }
            i += 1;
        }
        false
    }

    /// Whether a flow between these endpoints is captured.
    pub fn matches(&self, addr: &ScapAddresses) -> (captured: bool)
        ensures
            captured == self.spec_matches(*addr),
    {
        if list_has(&self.src_in, addr.source, addr.sport) {
            return true;
        }
        if list_has(&self.dst_in, addr.remote, addr.rport) {
            return true;
        }
        if list_has(&self.src_ex, addr.source, addr.sport) {
            return false;
        }
        if list_has(&self.dst_ex, addr.remote, addr.rport) {
            return false;
        }
        true
    }

    /// A filter with the same lists.
    pub fn duplicate(&self) -> (copy: ScapFilter)
        ensures
            copy.src_in@ == self.src_in@,
            copy.src_ex@ == self.src_ex@,
            copy.dst_in@ == self.dst_in@,
            copy.dst_ex@ == self.dst_ex@,
            copy.protocols@ == self.protocols@,
            forall|a: ScapAddresses, p: ScapProtocol|
                copy.spec_captures(a, p) == self.spec_captures(a, p),
    {
        let mut protocols: Vec<ScapProtocol> = Vec::new();
        let mut i: usize = 0;
        while i < self.protocols.len()
            invariant
                i <= self.protocols@.len(),
                protocols@ == self.protocols@.subrange(0, i as int),
            decreases self.protocols@.len() - i,
        {
            protocols.push(self.protocols[i]);
            assert(self.protocols@.subrange(0, i as int + 1) =~= self.protocols@.subrange(
                0,
                i as int,
            ).push(self.protocols@[i as int]));
            i += 1;
        }
        assert(self.protocols@.subrange(0, i as int) =~= self.protocols@);
        ScapFilter {
            src_in: copy_endpoints(&self.src_in),
            src_ex: copy_endpoints(&self.src_ex),
            dst_in: copy_endpoints(&self.dst_in),
            dst_ex: copy_endpoints(&self.dst_ex),
            protocols,
        }
    }
}

impl Default for ScapFilter {
    /// The filter that captures every flow.
    fn default() -> (f: ScapFilter)
        ensures
            f.src_in@.len() == 0,
            f.src_ex@.len() == 0,
            f.dst_in@.len() == 0,
            f.dst_ex@.len() == 0,
            f.protocols@.len() == 0,
            forall|a: ScapAddresses, p: ScapProtocol| f.spec_captures(a, p),
    {
        ScapFilter {
            src_in: Vec::new(),
            src_ex: Vec::new(),
            dst_in: Vec::new(),
            dst_ex: Vec::new(),
            protocols: Vec::new(),
        }
    }
}

impl ScapStore {
    /// A store that captures every flow.
    pub fn new() -> (s: ScapStore)
        ensures
            forall|a: ScapAddresses, p: ScapProtocol| s.filter.spec_captures(a, p),
    {
        ScapStore { filter: ScapFilter::default() }
    }

    /// A store that captures the flows that `filter` matches.
    pub fn with_filter(filter: ScapFilter) -> (s: ScapStore)
        ensures
            s.filter == filter,
    {
        ScapStore { filter }
    }

    /// A handle for one worker, with the same filter.
    pub fn reference(&self) -> (r: ScapStoreRef)
        ensures
            forall|a: ScapAddresses, p: ScapProtocol|
                r.filter.spec_captures(a, p) == self.filter.spec_captures(a, p),
    {
        ScapStoreRef { filter: self.filter.duplicate() }
    }
}

impl ScapStoreRef {
    /// Another handle with the same filter.
    pub fn duplicate(&self) -> (r: ScapStoreRef)
        ensures
            forall|a: ScapAddresses, p: ScapProtocol|
                r.filter.spec_captures(a, p) == self.filter.spec_captures(a, p),
    {
        ScapStoreRef { filter: self.filter.duplicate() }
    }

    /// Opens the capture of a flow: the producer for the flow and the
    /// `Connect` event that announces it, which is owed to the consumer
    /// whether or not the filter captures the flow. The flow is captured
    /// if the filter matches its endpoints and allows its protocol.
    pub fn sender(&self, protocol: ScapProtocol, remote: (IpAddr, u16), source: (IpAddr, u16)) -> (r:
        (ScapSender, ScapEvent))
        ensures
            r.0.address == ScapAddresses::spec_new(remote, source),
            r.0.hash == flow_hash(r.0.address),
            r.0.capture == self.filter.spec_captures(r.0.address, protocol),
            r.1@ == (ScapEventView::Connect { address: r.0.address, protocol }),
    {
        let address = ScapAddresses::new(remote, source);
        let hash = address.get_hash();
        let event = ScapEvent::Connect(ScapConnect { address, protocol });
        let capture = self.filter.matches(&address) && self.filter.allows(protocol);
        (ScapSender { address, hash, capture }, event)
    }
}

impl ScapEntry {
    /// The empty buffers of a flow that has just connected.
    pub fn new(address: ScapAddresses, protocol: ScapProtocol) -> (e: ScapEntry)
        ensures
            e@ == (ScapEntryView { address, protocol, received: Seq::empty(), send: Seq::empty() }),
    {
        ScapEntry {
            address,
            protocol,
            received: Vec::with_capacity(32_000),
            send: Vec::with_capacity(32_000),
        }
    }

    /// Appends bytes that the server sent; `data` is left empty.
    pub fn from_server(&mut self, data: &mut Vec<u8>)
        ensures
            final(self)@ == (ScapEntryView {
                received: old(self)@.received + old(data)@,
                ..old(self)@
            }),
            final(data)@.len() == 0,
    {
        self.received.append(data);
    }

    /// Appends bytes that the client sent; `data` is left empty.
    pub fn from_client(&mut self, data: &mut Vec<u8>)
        ensures
            final(self)@ == (ScapEntryView { send: old(self)@.send + old(data)@, ..old(self)@ }),
            final(data)@.len() == 0,
    {
        self.send.append(data);
    }
}

impl ScapSender {
    /// The event that a write of `data` on this flow produces, if any.
    pub open spec fn write_event(
        &self,
        from_client: bool,
        timestamp: Duration,
        data: Seq<u8>,
    ) -> Option<ScapEventView> {
        if !self.capture {
            None
        } else if from_client {
            Some(ScapEventView::Send { id: self.hash, timestamp, data })
        } else {
            Some(ScapEventView::Receive { id: self.hash, timestamp, data })
        }
    }

    /// The event that closing this flow produces, if any.
    pub open spec fn close_event(&self) -> Option<ScapEventView> {
        if self.capture {
            Some(ScapEventView::Close { address: self.address })
        } else {
            None
        }
    }

    /// The writer for bytes that the server sent.
    pub fn from_server(&self) -> (w: ScapSenderWrt<'_>)
        ensures
            w.sender == self,
            !w.from_client,
            w.capture == self.capture,
    {
        ScapSenderWrt { from_client: false, sender: self, capture: self.capture }
    }

    /// The writer for bytes that the client sent.
    pub fn from_client(&self) -> (w: ScapSenderWrt<'_>)
        ensures
            w.sender == self,
            w.from_client,
            w.capture == self.capture,
    {
        ScapSenderWrt { from_client: true, sender: self, capture: self.capture }
    }

    /// Ends the capture of the flow: the `Close` event of a captured flow,
    /// nothing for a flow that the filter dropped.
    pub fn close(self) -> (event: Option<ScapEvent>)
        ensures
            match event {
                Some(e) => Some(e@) == self.close_event(),
                None => self.close_event() is None,
            },
    {
        if !self.capture {
            return None;
        }
        Some(ScapEvent::Close(self.address))
    }
}

impl<'a> ScapSenderWrt<'a> {
    /// The event that a write of `data` through this writer produces, if
    /// any.
    pub open spec fn spec_event(&self, timestamp: Duration, data: Seq<u8>) -> Option<
        ScapEventView,
    > {
        if !self.capture {
            None
        } else if self.from_client {
            Some(ScapEventView::Send { id: self.sender.hash, timestamp, data })
        } else {
            Some(ScapEventView::Receive { id: self.sender.hash, timestamp, data })
        }
    }

    /// Takes `buf` as seen at `timestamp`. Every byte counts as written; a
    /// captured flow yields the event that carries the bytes, `Send` for
    /// the client's and `Receive` for the server's.
    pub fn write(&self, buf: &[u8], timestamp: Duration) -> (r: (usize, Option<ScapEvent>))
        ensures
            r.0 == buf@.len(),
            match r.1 {
                Some(e) => Some(e@) == self.spec_event(timestamp, buf@),
                None => self.spec_event(timestamp, buf@) is None,
            },
    {
        if !self.capture {
            return (buf.len(), None);
        }
        let data = ScapData { id: self.sender.hash, timestamp, data: slice_to_vec(buf) };
        let entry = if self.from_client {
            ScapEvent::Send(data)
        } else {
            ScapEvent::Receive(data)
        };
        (buf.len(), Some(entry))
    }
}

} // verus!
