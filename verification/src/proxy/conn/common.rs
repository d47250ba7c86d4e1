//! The per-worker connection state and the connection state machine.

use crate::error::{Error, ErrorKind, ErrorView};
use crate::net::SocketAddr;
use crate::proxy::scap::common::{
    flow_hash, ScapAddresses, ScapEvent, ScapEventView, ScapFilter, ScapProtocol, ScapSender,
    ScapStoreRef,
};
use crate::proxy::scap::flow_ordered;
use crate::proxy::socks5::client::Socks5Client;
use crate::proxy::tls::store::TlsCertStore;
use crate::text::{ascii_lower, contains_bytes, has_subseq, push_str, to_ascii_lowercase};
use rustls_pki_types::DnsName;
use vstd::prelude::*;
use vstd::utf8::encode_utf8;

verus! {

/// Size of each relay buffer: 32 KiB.
pub const RELAY_BUFFER_SIZE: usize = 32768;

/// Size of the scratch buffer of a worker.
pub const SCRATCH_BUFFER_SIZE: usize = 4096;

/// The relay buffers of a worker, reused from one connection to the next.
pub struct ConnectionBuffers {
    /// Bytes on their way to the client.
    pub client_buffer: Vec<u8>,
    /// Bytes on their way to the server.
    pub server_buffer: Vec<u8>,
    pub client_readed: usize,
    pub client_pos: usize,
    pub server_readed: usize,
    pub server_pos: usize,
    pub times_zero: usize,
}

/// A vector of `n` zero bytes.
pub fn zeroed(n: usize) -> (v: Vec<u8>)
    ensures
        v@.len() == n,
        forall|i: int| 0 <= i < n ==> v@[i] == 0u8,
{
    let mut v: Vec<u8> = Vec::with_capacity(n);
    let mut i: usize = 0;
    while i < n
        invariant
            i <= n,
            v@.len() == i,
            forall|j: int| 0 <= j < i ==> v@[j] == 0u8,
        decreases n - i,
    {
        v.push(0u8);
        i += 1;
    }
    v
}

impl ConnectionBuffers {
    /// Two zeroed buffers of [`RELAY_BUFFER_SIZE`] bytes, all cursors at 0.
    pub fn new() -> (b: ConnectionBuffers)
        ensures
            b.client_buffer@.len() == RELAY_BUFFER_SIZE,
            b.server_buffer@.len() == RELAY_BUFFER_SIZE,
            forall|i: int| 0 <= i < RELAY_BUFFER_SIZE ==> b.client_buffer@[i] == 0u8,
            forall|i: int| 0 <= i < RELAY_BUFFER_SIZE ==> b.server_buffer@[i] == 0u8,
            b.client_pos == 0,
            b.client_readed == 0,
            b.server_pos == 0,
            b.server_readed == 0,
            b.times_zero == 0,
    {
        ConnectionBuffers {
            client_buffer: zeroed(RELAY_BUFFER_SIZE),
            server_buffer: zeroed(RELAY_BUFFER_SIZE),
            client_pos: 0,
            client_readed: 0,
            server_pos: 0,
            server_readed: 0,
            times_zero: 0,
        }
    }

    /// Puts the four cursors back to 0; buffers and idle count stay.
    pub fn clear(&mut self)
        ensures
            final(self).client_pos == 0,
            final(self).server_pos == 0,
            final(self).client_readed == 0,
            final(self).server_readed == 0,
            final(self).client_buffer == old(self).client_buffer,
            final(self).server_buffer == old(self).server_buffer,
            final(self).times_zero == old(self).times_zero,
    {
        self.client_pos = 0;
        self.server_pos = 0;
        self.client_readed = 0;
        self.server_readed = 0;
    }
}

/// Where the handling of a connection stands.
#[derive(Clone, Copy, Debug, PartialEq, Eq, Structural)]
pub enum ConnPhase {
    /// The destination before the redirect is being recovered and the upstream dialled.
    Dialing,
    /// Bytes are relayed as they are.
    OpaqueRelay,
    /// The server-role TLS handshake with the client is under way.
    MitmServerHandshake,
    /// The client-role TLS handshake with the origin is under way.
    MitmClientHandshake,
    /// Decrypted bytes are relayed between the two TLS sessions.
    InterceptedRelay,
    /// The connection is finished.
    Closed,
}

/// What the embedding program reports of a connection.
pub enum ConnEvent {
    /// The destination `dst` before the redirect was recovered and the tunnel
    /// to it stands. `dst_ip` is the text form of the destination's IP
    /// address, `peer` the client.
    Dialed { dst: SocketAddr, dst_ip: String, peer: SocketAddr },
    /// Recovering the destination or dialling the upstream failed.
    DialFailed { error: Error },
    /// No server-role TLS session could be created.
    ServerSessionRefused,
    /// The handshake with the client failed. `server_name` is the name that
    /// the client announced, empty if the handshake failed before.
    ServerHandshakeFailed { server_name: String, error: Error },
    /// The handshake with the client is complete; the client announced
    /// `server_name`.
    ServerHandshakeDone { server_name: String },
    /// No client-role TLS session could be created, for `reason`.
    ClientSessionRefused { reason: String },
    /// The handshake with the origin failed.
    ClientHandshakeFailed { error: Error },
    /// The handshake with the origin is complete.
    ClientHandshakeDone,
    /// The relay ended.
    RelayEnded { result: Result<(), Error> },
}

/// What the embedding program does next.
pub enum ConnAction {
    /// Relay between the client socket and the upstream tunnel.
    OpaqueRelay,
    /// Create a server-role TLS session and drive its handshake over the
    /// client socket.
    ServerHandshake,
    /// Create a client-role TLS session for `server_name` and drive its
    /// handshake over the upstream tunnel.
    ClientHandshake { server_name: String },
    /// Relay between the two TLS sessions.
    InterceptedRelay,
    /// Close the connection and hand `result` to the worker; `logged` is an
    /// error to put in the log.
    Close { result: Result<(), Error>, logged: Option<Error> },
}

/// An action with the capture event that is due with it.
pub struct ConnStep {
    pub action: ConnAction,
    pub capture: Option<ScapEvent>,
}

/// Mathematical content of a [`ConnAction`].
pub enum ConnActionView {
    OpaqueRelay,
    ServerHandshake,
    ClientHandshake { server_name: Seq<char> },
    InterceptedRelay,
    Close { result: Result<(), ErrorView>, logged: Option<ErrorView> },
}

impl View for ConnAction {
    type V = ConnActionView;

    open spec fn view(&self) -> ConnActionView {
        match *self {
            ConnAction::OpaqueRelay => ConnActionView::OpaqueRelay,
            ConnAction::ServerHandshake => ConnActionView::ServerHandshake,
            ConnAction::ClientHandshake { server_name } => ConnActionView::ClientHandshake {
                server_name: server_name@,
            },
            ConnAction::InterceptedRelay => ConnActionView::InterceptedRelay,
            ConnAction::Close { result, logged } => ConnActionView::Close {
                result: match result {
                    Ok(_) => Ok(()),
                    Err(e) => Err(e@),
                },
                logged: match logged {
                    Some(e) => Some(e@),
                    None => None,
                },
            },
        }
    }
}

/// What a worker keeps from one connection to the next.
pub struct ConnectionState {
    pub buffer: Vec<u8>,
    pub scap: ScapStoreRef,
    pub conn_buffers: ConnectionBuffers,
}

/// The state machine that a worker runs on each accepted connection.
pub struct ProxyConnectionManager {
    pub state: ConnectionState,
    /// Address of the SOCKS5 upstream.
    pub socks5: String,
    pub phase: ConnPhase,
    /// Text form of the destination's IP address.
    pub dst_ip: String,
    /// The name that the client announced, in lower case.
    pub sni: String,
    /// Producer of the capture events of the connection.
    pub sender: Option<ScapSender>,
}

/// Mathematical content of a [`ProxyConnectionManager`]: what its
/// decisions depend on.
pub struct ConnModel {
    pub phase: ConnPhase,
    pub dst_ip: Seq<char>,
    pub sni: Seq<char>,
    pub sender: Option<ScapSender>,
}

/// A decision: the state after it, the pinned hosts after it, the action
/// and the capture event.
pub struct ConnOutcome {
    pub model: ConnModel,
    pub pinned: Set<Seq<char>>,
    pub action: ConnActionView,
    pub capture: Option<ScapEventView>,
}

/// Whether `name` is a syntactically valid DNS name, as
/// `rustls_pki_types::DnsName::try_from_str` judges it.
pub uninterp spec fn dns_name_valid(name: Seq<char>) -> bool;

/// `rustls_pki_types::DnsName::try_from_str`: whether `name` is accepted as
/// a DNS name. The answer depends on the characters of `name` alone.
#[verifier::external_body]
pub(crate) fn is_dns_name(name: &str) -> (valid: bool)
    ensures
        valid == dns_name_valid(name@),
{
    DnsName::try_from_str(name).is_ok()
}

/// The bytes of `UnknownCA`, by which the text of a handshake error tells
/// that the peer does not trust the issuer of the certificate it was shown.
pub open spec fn unknown_ca_marker() -> Seq<u8> {
    seq![0x55u8, 0x6eu8, 0x6bu8, 0x6eu8, 0x6fu8, 0x77u8, 0x6eu8, 0x43u8, 0x41u8]
}

/// Whether the text `msg` holds `UnknownCA`.
pub open spec fn names_unknown_ca(msg: Seq<char>) -> bool {
    has_subseq(encode_utf8(msg), unknown_ca_marker())
}

/// Whether the text of a handshake error holds `UnknownCA`.
pub fn mentions_unknown_ca(text: &str) -> (b: bool)
    ensures
        b == names_unknown_ca(text@),
{
    let marker: Vec<u8> = vec![0x55u8, 0x6eu8, 0x6bu8, 0x6eu8, 0x6fu8, 0x77u8, 0x6eu8, 0x43u8, 0x41u8];
    assert(marker@ =~= unknown_ca_marker());
    contains_bytes(text.as_bytes(), marker.as_slice())
}

/// The error to log when a connection ends with `error`: the orderly end
/// of a connection is not logged.
pub open spec fn logged_error(error: ErrorView) -> Option<ErrorView> {
    if error.kind == ErrorKind::WriteZero {
        None
    } else {
        Some(error)
    }
}

/// The protocol tag under which a connection to port `port` is captured;
/// `pinned` says whether the destination is pinned.
pub open spec fn spec_protocol_for(port: u16, pinned: bool) -> ScapProtocol {
    if port == 443 {
        if pinned {
            ScapProtocol::Tls
        } else {
            ScapProtocol::Http
        }
    } else if port == 80 {
        ScapProtocol::Http
    } else {
        ScapProtocol::Tcp
    }
}

/// Whether a connection to port `port` is intercepted.
pub open spec fn spec_intercepts(port: u16, pinned: bool) -> bool {
    port == 443 && !pinned
}

/// The 4-tuple of a connection from `peer` to `dst`.
pub open spec fn flow_of(dst: SocketAddr, peer: SocketAddr) -> ScapAddresses {
    ScapAddresses { remote: dst.ip, rport: dst.port, source: peer.ip, sport: peer.port }
}

/// The end of a connection: the phase is `Closed`, the capture is closed,
/// and the close action carries `result` and `logged`.
pub open spec fn closing(
    m: ConnModel,
    pinned: Set<Seq<char>>,
    result: Result<(), ErrorView>,
    logged: Option<ErrorView>,
) -> ConnOutcome {
    ConnOutcome {
        model: ConnModel { phase: ConnPhase::Closed, sender: None, ..m },
        pinned,
        action: ConnActionView::Close { result, logged },
        capture: match m.sender {
            Some(s) => s.close_event(),
            None => None,
        },
    }
}

/// The decision that the state machine takes on `event`.
pub open spec fn spec_step(
    m: ConnModel,
    filter: &ScapFilter,
    pinned: Set<Seq<char>>,
    event: ConnEvent,
) -> ConnOutcome {
    match (m.phase, event) {
        (ConnPhase::Dialing, ConnEvent::Dialed { dst, dst_ip, peer }) => {
            let is_pinned = pinned.contains(dst_ip@);
            let protocol = spec_protocol_for(dst.port, is_pinned);
            let address = flow_of(dst, peer);
            let sender = ScapSender {
                address,
                hash: flow_hash(address),
                capture: filter.spec_captures(address, protocol),
            };
            let intercept = spec_intercepts(dst.port, is_pinned);
            ConnOutcome {
                model: ConnModel {
                    phase: if intercept {
                        ConnPhase::MitmServerHandshake
                    } else {
                        ConnPhase::OpaqueRelay
                    },
                    dst_ip: dst_ip@,
                    sni: m.sni,
                    sender: Some(sender),
                },
                pinned,
                action: if intercept {
                    ConnActionView::ServerHandshake
                } else {
                    ConnActionView::OpaqueRelay
                },
                capture: Some(ScapEventView::Connect { address, protocol }),
            }
        },
        (ConnPhase::Dialing, ConnEvent::DialFailed { error }) => closing(
            m,
            pinned,
            Err(error@),
            None,
        ),
        (ConnPhase::MitmServerHandshake, ConnEvent::ServerSessionRefused) => ConnOutcome {
            model: ConnModel { phase: ConnPhase::OpaqueRelay, ..m },
            pinned,
            action: ConnActionView::OpaqueRelay,
            capture: None,
        },
        (ConnPhase::MitmServerHandshake, ConnEvent::ServerHandshakeFailed { server_name, error }) => {
            let seen = server_name@.len() > 0;
            let first = if seen && pinned.contains(server_name@) {
                pinned.insert(m.dst_ip)
            } else {
                pinned
            };
            let second = if seen && names_unknown_ca(error.message@) {
                first.insert(server_name@).insert(m.dst_ip)
            } else {
                first
            };
            closing(m, second, Ok(()), logged_error(error@))
        },
        (ConnPhase::MitmServerHandshake, ConnEvent::ServerHandshakeDone { server_name }) => {
            if dns_name_valid(server_name@) {
                ConnOutcome {
                    model: ConnModel {
                        phase: ConnPhase::MitmClientHandshake,
                        sni: ascii_lower(server_name@),
                        ..m
                    },
                    pinned,
                    action: ConnActionView::ClientHandshake {
                        server_name: ascii_lower(server_name@),
                    },
                    capture: None,
                }
            } else {
                closing(
                    m,
                    pinned,
                    Ok(()),
                    Some(ErrorView { kind: ErrorKind::InvalidData, message: "Invalid DNS Name"@ }),
                )
            }
        },
        (ConnPhase::MitmClientHandshake, ConnEvent::ClientSessionRefused { reason }) => closing(
            m,
            pinned,
            Ok(()),
            Some(
                ErrorView { kind: ErrorKind::NotConnected, message: "Connecting to: "@ + reason@ },
            ),
        ),
        (ConnPhase::MitmClientHandshake, ConnEvent::ClientHandshakeFailed { error }) => {
            let after = if names_unknown_ca(error.message@) {
                pinned.insert(m.dst_ip).insert(m.sni)
            } else {
                pinned
            };
            closing(m, after, Ok(()), logged_error(error@))
        },
        (ConnPhase::MitmClientHandshake, ConnEvent::ClientHandshakeDone) => ConnOutcome {
            model: ConnModel { phase: ConnPhase::InterceptedRelay, ..m },
            pinned,
            action: ConnActionView::InterceptedRelay,
            capture: None,
        },
        (ConnPhase::OpaqueRelay, ConnEvent::RelayEnded { result }) => closing(
            m,
            pinned,
            Ok(()),
            match result {
                Ok(_) => None,
                Err(e) => logged_error(e@),
            },
        ),
        (ConnPhase::InterceptedRelay, ConnEvent::RelayEnded { result }) => closing(
            m,
            pinned,
            Ok(()),
            match result {
                Ok(_) => None,
                Err(e) => logged_error(e@),
            },
        ),
        _ => closing(m, pinned, Ok(()), None),
    }
}

impl ConnectionState {
    /// Fresh buffers around a handle on the capture filter.
    pub fn new(scap: ScapStoreRef) -> (s: ConnectionState)
        ensures
            s.scap == scap,
            s.buffer@.len() == SCRATCH_BUFFER_SIZE,
            s.conn_buffers.client_buffer@.len() == RELAY_BUFFER_SIZE,
            s.conn_buffers.server_buffer@.len() == RELAY_BUFFER_SIZE,
            s.conn_buffers.client_pos == 0 && s.conn_buffers.client_readed == 0,
            s.conn_buffers.server_pos == 0 && s.conn_buffers.server_readed == 0,
    {
        ConnectionState {
            buffer: zeroed(SCRATCH_BUFFER_SIZE),
            conn_buffers: ConnectionBuffers::new(),
            scap,
        }
    }

    /// Puts the cursors of the relay buffers back to 0.
    pub fn clear(&mut self)
        ensures
            final(self).conn_buffers.client_pos == 0,
            final(self).conn_buffers.server_pos == 0,
            final(self).conn_buffers.client_readed == 0,
            final(self).conn_buffers.server_readed == 0,
            final(self).conn_buffers.client_buffer == old(self).conn_buffers.client_buffer,
            final(self).conn_buffers.server_buffer == old(self).conn_buffers.server_buffer,
            final(self).buffer == old(self).buffer,
            final(self).scap == old(self).scap,
    {
        self.conn_buffers.clear();
    }
}

impl View for ProxyConnectionManager {
    type V = ConnModel;

    open spec fn view(&self) -> ConnModel {
        ConnModel {
            phase: self.phase,
            dst_ip: self.dst_ip@,
            sni: self.sni@,
            sender: self.sender,
        }
    }
}

/// The model of a manager that waits for its next connection.
pub open spec fn idle_model() -> ConnModel {
    ConnModel {
        phase: ConnPhase::Dialing,
        dst_ip: Seq::empty(),
        sni: Seq::empty(),
        sender: None,
    }
}

impl ProxyConnectionManager {
    /// A manager that waits for its first connection.
    pub fn new(pcap_store: ScapStoreRef, socks5: String) -> (m: ProxyConnectionManager)
        ensures
            m@ == idle_model(),
            m.socks5 == socks5,
            m.state.scap == pcap_store,
    {
        Self::from_state(ConnectionState::new(pcap_store), socks5)
    }

    /// A manager over the state that an earlier one left, with its cursors
    /// put back to 0.
    pub fn from_state(state: ConnectionState, socks5: String) -> (m: ProxyConnectionManager)
        ensures
            m@ == idle_model(),
            m.socks5 == socks5,
            m.state.scap == state.scap,
            m.state.buffer == state.buffer,
            m.state.conn_buffers.client_buffer == state.conn_buffers.client_buffer,
            m.state.conn_buffers.server_buffer == state.conn_buffers.server_buffer,
            m.state.conn_buffers.client_pos == 0 && m.state.conn_buffers.client_readed == 0,
            m.state.conn_buffers.server_pos == 0 && m.state.conn_buffers.server_readed == 0,
    {
        let mut state = state;
        state.clear();
        let m = ProxyConnectionManager {
            state,
            socks5,
            phase: ConnPhase::Dialing,
            dst_ip: String::new(),
            sni: String::new(),
            sender: None,
        };
        assert(m@.dst_ip =~= Seq::<char>::empty());
        assert(m@.sni =~= Seq::<char>::empty());
        m
    }

    /// Makes the manager ready for its next connection: it waits to be
    /// dialled again, and the cursors of its buffers are back at 0.
    pub fn reset(&mut self)
        ensures
            final(self)@ == idle_model(),
            final(self).socks5 == old(self).socks5,
            final(self).state.scap == old(self).state.scap,
            final(self).state.buffer == old(self).state.buffer,
            final(self).state.conn_buffers.client_buffer == old(self).state.conn_buffers.client_buffer,
            final(self).state.conn_buffers.server_buffer == old(self).state.conn_buffers.server_buffer,
            final(self).state.conn_buffers.client_pos == 0 && final(self).state.conn_buffers.client_readed == 0,
            final(self).state.conn_buffers.server_pos == 0 && final(self).state.conn_buffers.server_readed == 0,
    {
        self.state.clear();
        self.phase = ConnPhase::Dialing;
        self.dst_ip = String::new();
        self.sni = String::new();
        self.sender = None;
        assert(self@.dst_ip =~= Seq::<char>::empty());
        assert(self@.sni =~= Seq::<char>::empty());
    }

    /// Gives up the manager for the state that it holds.
    pub fn keep_state(self) -> (s: ConnectionState)
        ensures
            s == self.state,
    {
        self.state
    }

    /// The upstream that the connection to `dst` is dialled through: the
    /// SOCKS5 client that will ask for `dst`.
    pub fn init_proxy(&self, dst: &SocketAddr) -> (c: Socks5Client)
        ensures
            c.dst == *dst,
    {
        Socks5Client::connect(*dst)
    }

    fn finish(
        &mut self,
        result: Result<(), Error>,
        logged: Option<Error>,
    ) -> (step: ConnStep)
        ensures
            final(self).state == old(self).state,
            final(self).socks5 == old(self).socks5,
            final(self)@ == (ConnModel { phase: ConnPhase::Closed, sender: None, ..old(self)@ }),
            step.action@ == (ConnActionView::Close {
                result: match result {
                    Ok(_) => Ok(()),
                    Err(e) => Err(e@),
                },
                logged: match logged {
                    Some(e) => Some(e@),
                    None => None,
                },
            }),
            match step.capture {
                Some(e) => old(self).sender is Some && Some(e@) == old(self).sender->0.close_event(),
                None => old(self).sender is Some ==> old(self).sender->0.close_event() is None,
            },
    {
        self.phase = ConnPhase::Closed;
        let capture = match self.sender.take() {
            Some(s) => s.close(),
            None => None,
        };
        ConnStep { action: ConnAction::Close { result, logged }, capture }
    }

    fn finish_with(&mut self, error: Error) -> (step: ConnStep)
        ensures
            final(self).state == old(self).state,
            final(self).socks5 == old(self).socks5,
            final(self)@ == (ConnModel { phase: ConnPhase::Closed, sender: None, ..old(self)@ }),
            step.action@ == (ConnActionView::Close { result: Ok(()), logged: logged_error(error@) }),
            match step.capture {
                Some(e) => old(self).sender is Some && Some(e@) == old(self).sender->0.close_event(),
                None => old(self).sender is Some ==> old(self).sender->0.close_event() is None,
            },
    {
        if error.is_normal_close() {
            self.finish(Ok(()), None)
        } else {
            self.finish(Ok(()), Some(error))
        }
    }

    /// Takes the next event of the connection and decides what follows.
    ///
    /// A connection starts in [`ConnPhase::Dialing`]. Once it is dialled it
    /// is dispatched by the destination port: to port 443 it is intercepted
    /// unless the destination's IP address is pinned, in which case it is
    /// relayed as it is under the tag `Tls`; to port 80 it is relayed under
    /// the tag `Http`, to any other port under the tag `Tcp`. A handshake
    /// that fails may pin the hosts involved in `tls`. An event that the
    /// phase does not expect ends the connection.
    pub fn handle_client(&mut self, tls: &mut TlsCertStore, event: ConnEvent) -> (step: ConnStep)
        ensures
            final(self).state == old(self).state,
            final(self).socks5 == old(self).socks5,
            final(self)@ == spec_step(old(self)@, &old(self).state.scap.filter, old(tls)@, event).model,
            final(tls)@ == spec_step(old(self)@, &old(self).state.scap.filter, old(tls)@, event).pinned,
            step.action@ == spec_step(
                old(self)@,
                &old(self).state.scap.filter,
                old(tls)@,
                event,
            ).action,
            match step.capture {
                Some(e) => Some(e@) == spec_step(
                    old(self)@,
                    &old(self).state.scap.filter,
                    old(tls)@,
                    event,
                ).capture,
                None => spec_step(old(self)@, &old(self).state.scap.filter, old(tls)@, event).capture
                    is None,
            },
    {
        match self.phase {
            ConnPhase::Dialing => match event {
                ConnEvent::Dialed { dst, dst_ip, peer } => {
                    let pinned = tls.is_disabled(dst_ip.as_str());
                    let protocol = Self::protocol_for(dst.port, pinned);
                    let (sender, connect) = self.state.scap.sender(
                        protocol,
                        (dst.ip, dst.port),
                        (peer.ip, peer.port),
                    );
                    self.sender = Some(sender);
                    self.dst_ip = dst_ip;
                    if Self::intercepts(dst.port, pinned) {
                        self.phase = ConnPhase::MitmServerHandshake;
                        ConnStep { action: ConnAction::ServerHandshake, capture: Some(connect) }
                    } else {
                        self.phase = ConnPhase::OpaqueRelay;
                        ConnStep { action: ConnAction::OpaqueRelay, capture: Some(connect) }
                    }
                },
                ConnEvent::DialFailed { error } => self.finish(Err(error), None),
                _ => self.finish(Ok(()), None),
            },
            ConnPhase::MitmServerHandshake => match event {
                ConnEvent::ServerSessionRefused => {
                    self.phase = ConnPhase::OpaqueRelay;
                    ConnStep { action: ConnAction::OpaqueRelay, capture: None }
                },
                ConnEvent::ServerHandshakeFailed { server_name, error } => {
                    let seen = !server_name.as_str().is_empty();
                    if seen && tls.is_disabled(server_name.as_str()) {
                        tls.disable_addr(self.dst_ip.clone());
                    }
                    if seen && mentions_unknown_ca(error.message.as_str()) {
                        tls.disable_addr(server_name);
                        tls.disable_addr(self.dst_ip.clone());
                    }
                    self.finish_with(error)
                },
                ConnEvent::ServerHandshakeDone { server_name } => {
                    match Self::get_sn_of_server(server_name.as_str()) {
                        Ok(name) => {
                            self.sni = name.clone();
                            self.phase = ConnPhase::MitmClientHandshake;
                            ConnStep {
                                action: ConnAction::ClientHandshake { server_name: name },
                                capture: None,
                            }
                        },
                        Err(e) => self.finish(Ok(()), Some(e)),
                    }
                },
                _ => self.finish(Ok(()), None),
            },
            ConnPhase::MitmClientHandshake => match event {
                ConnEvent::ClientSessionRefused { reason } => {
                    let mut e = Error::new(ErrorKind::NotConnected, "Connecting to: ");
                    push_str(&mut e.message, reason.as_str());
                    self.finish(Ok(()), Some(e))
                },
                ConnEvent::ClientHandshakeFailed { error } => {
                    if mentions_unknown_ca(error.message.as_str()) {
                        tls.disable_addr(self.dst_ip.clone());
                        tls.disable_addr(self.sni.clone());
                    }
                    self.finish_with(error)
                },
                ConnEvent::ClientHandshakeDone => {
                    self.phase = ConnPhase::InterceptedRelay;
                    ConnStep { action: ConnAction::InterceptedRelay, capture: None }
                },
                _ => self.finish(Ok(()), None),
            },
            ConnPhase::OpaqueRelay | ConnPhase::InterceptedRelay => match event {
                ConnEvent::RelayEnded { result } => match result {
                    Ok(_) => self.finish(Ok(()), None),
                    Err(e) => self.finish_with(e),
                },
                _ => self.finish(Ok(()), None),
            },
            ConnPhase::Closed => self.finish(Ok(()), None),
        }
    }

    /// The protocol tag under which a connection to port `port` is
    /// captured: what is intercepted is captured in the clear, as `Http`.
    pub fn protocol_for(port: u16, pinned: bool) -> (p: ScapProtocol)
        ensures
            p == spec_protocol_for(port, pinned),
    {
        if port == 443 {
            if pinned {
                ScapProtocol::Tls
            } else {
                ScapProtocol::Http
            }
        } else if port == 80 {
            ScapProtocol::Http
        } else {
            ScapProtocol::Tcp
        }
    }

    /// Whether a connection to port `port` is intercepted: only to port 443
    /// and only if the destination is not pinned.
    pub fn intercepts(port: u16, pinned: bool) -> (b: bool)
        ensures
            b == spec_intercepts(port, pinned),
    {
        port == 443 && !pinned
    }

    /// The name that the client announced, as a lower-case DNS name; the
    /// error `InvalidData` if it is not a valid DNS name.
    pub fn get_sn_of_server(server_name: &str) -> (r: Result<String, Error>)
        ensures
            match r {
                Ok(name) => dns_name_valid(server_name@) && name@ == ascii_lower(server_name@),
                Err(e) => !dns_name_valid(server_name@) && e@ == (ErrorView {
                    kind: ErrorKind::InvalidData,
                    message: "Invalid DNS Name"@,
                }),
            },
    {
        if !is_dns_name(server_name) {
            return Err(Error::new(ErrorKind::InvalidData, "Invalid DNS Name"));
        }
        Ok(to_ascii_lowercase(server_name))
    }
}

/// The actions that the state machine takes over a run of events, one per
/// event.
pub open spec fn run_actions(
    m: ConnModel,
    filter: &ScapFilter,
    pinned: Set<Seq<char>>,
    events: Seq<ConnEvent>,
) -> Seq<ConnActionView>
    decreases events.len(),
{
    if events.len() == 0 {
        Seq::empty()
    } else {
        let o = spec_step(m, filter, pinned, events[0]);
        seq![o.action] + run_actions(o.model, filter, o.pinned, events.drop_first())
    }
}

/// Whether an action takes part in an interception.
pub open spec fn is_interception(a: ConnActionView) -> bool {
    a is ServerHandshake || a is ClientHandshake || a is InterceptedRelay
}

/// A connection that is relayed as it is, or closed, is never intercepted
/// afterwards: whatever is reported of it, it is closed.
pub proof fn lemma_opaque_stays_opaque(
    m: ConnModel,
    filter: &ScapFilter,
    pinned: Set<Seq<char>>,
    events: Seq<ConnEvent>,
)
    requires
        m.phase is OpaqueRelay || m.phase is Closed,
    ensures
        run_actions(m, filter, pinned, events).len() == events.len(),
        forall|i: int|
            0 <= i < events.len() ==> (#[trigger] run_actions(m, filter, pinned, events)[i]) is Close,
    decreases events.len(),
{
    if events.len() > 0 {
        let o = spec_step(m, filter, pinned, events[0]);
        assert(o.model.phase is Closed);
        assert(o.action is Close);
        lemma_opaque_stays_opaque(o.model, filter, o.pinned, events.drop_first());
    }
}

/// Pinned hosts are never intercepted. Of a connection whose destination
/// IP address is pinned when it is dispatched, no event brings about a TLS
/// handshake or an intercepted relay: the connection is relayed as it is,
/// and to port 443 it is captured under the tag `Tls`.
pub proof fn lemma_pinned_never_intercepted(
    m: ConnModel,
    filter: &ScapFilter,
    pinned: Set<Seq<char>>,
    dst: SocketAddr,
    dst_ip: String,
    peer: SocketAddr,
    rest: Seq<ConnEvent>,
)
    requires
        m.phase is Dialing,
        pinned.contains(dst_ip@),
    ensures
        ({
            let dialed = ConnEvent::Dialed { dst, dst_ip, peer };
            let actions = run_actions(m, filter, pinned, seq![dialed] + rest);
            &&& actions.len() == rest.len() + 1
            &&& actions[0] is OpaqueRelay
            &&& forall|i: int| 0 <= i < actions.len() ==> !is_interception(#[trigger] actions[i])
            &&& dst.port == 443 ==> spec_step(m, filter, pinned, dialed).capture == Some(
                ScapEventView::Connect { address: flow_of(dst, peer), protocol: ScapProtocol::Tls },
            )
        }),
{
    let dialed = ConnEvent::Dialed { dst, dst_ip, peer };
    let events = seq![dialed] + rest;
    let o = spec_step(m, filter, pinned, dialed);
    assert(events[0] == dialed);
    assert(events.drop_first() =~= rest);
    assert(o.model.phase is OpaqueRelay);
    lemma_opaque_stays_opaque(o.model, filter, o.pinned, rest);
    let actions = run_actions(m, filter, pinned, events);
    let tail = run_actions(o.model, filter, o.pinned, rest);
    assert(actions == seq![o.action] + tail);
    assert forall|i: int| 0 <= i < actions.len() implies !is_interception(#[trigger] actions[i]) by {
        if i > 0 {
            assert(actions[i] == tail[i - 1]);
        }
    }
}

/// The capture events that are due over a run of events, in order.
pub open spec fn run_captures(
    m: ConnModel,
    filter: &ScapFilter,
    pinned: Set<Seq<char>>,
    events: Seq<ConnEvent>,
) -> Seq<ScapEventView>
    decreases events.len(),
{
    if events.len() == 0 {
        Seq::empty()
    } else {
        let o = spec_step(m, filter, pinned, events[0]);
        let rest = run_captures(o.model, filter, o.pinned, events.drop_first());
        match o.capture {
            Some(e) => seq![e] + rest,
            None => rest,
        }
    }
}

/// A connection that is closed captures nothing more.
pub proof fn lemma_closed_captures_nothing(
    m: ConnModel,
    filter: &ScapFilter,
    pinned: Set<Seq<char>>,
    events: Seq<ConnEvent>,
)
    requires
        m.phase is Closed,
        m.sender is None,
    ensures
        run_captures(m, filter, pinned, events).len() == 0,
    decreases events.len(),
{
    if events.len() > 0 {
        let o = spec_step(m, filter, pinned, events[0]);
        lemma_closed_captures_nothing(o.model, filter, o.pinned, events.drop_first());
    }
}

/// A connection that was dispatched captures at most one more event: the
/// close of its flow.
pub proof fn lemma_dispatched_captures_close(
    m: ConnModel,
    filter: &ScapFilter,
    pinned: Set<Seq<char>>,
    events: Seq<ConnEvent>,
)
    requires
        m.sender is Some,
        !(m.phase is Dialing),
        !(m.phase is Closed),
    ensures
        run_captures(m, filter, pinned, events).len() <= 1,
        run_captures(m, filter, pinned, events).len() == 1 ==> Some(
            run_captures(m, filter, pinned, events)[0],
        ) == m.sender->0.close_event(),
    decreases events.len(),
{
    if events.len() > 0 {
        let o = spec_step(m, filter, pinned, events[0]);
        if o.model.phase is Closed {
            lemma_closed_captures_nothing(o.model, filter, o.pinned, events.drop_first());
        } else {
            assert(o.model.sender == m.sender);
            assert(o.capture is None);
            lemma_dispatched_captures_close(o.model, filter, o.pinned, events.drop_first());
        }
    }
}

/// The capture events of a connection are ordered. Whatever is reported
/// of a connection that starts out waiting to be dialled, it captures
/// nothing, or the `Connect` of its flow, or that `Connect` and then the
/// `Close` of the same flow. The `Send`s and `Receive`s of the relay fall
/// between the two, since the relay runs while the connection is neither
/// waiting nor closed.
pub proof fn lemma_connection_capture_ordering(
    m: ConnModel,
    filter: &ScapFilter,
    pinned: Set<Seq<char>>,
    events: Seq<ConnEvent>,
)
    requires
        m.phase is Dialing,
        m.sender is None,
    ensures
        run_captures(m, filter, pinned, events).len() <= 2,
        flow_ordered(run_captures(m, filter, pinned, events)),
{
    if events.len() > 0 {
        let o = spec_step(m, filter, pinned, events[0]);
        let rest = run_captures(o.model, filter, o.pinned, events.drop_first());
        if o.model.phase is Closed {
            lemma_closed_captures_nothing(o.model, filter, o.pinned, events.drop_first());
        } else {
            lemma_dispatched_captures_close(o.model, filter, o.pinned, events.drop_first());
            let all = run_captures(m, filter, pinned, events);
            assert(all == seq![o.capture->0] + rest);
            if rest.len() == 1 {
                assert(all[1] == rest[0]);
            }
        }
    }
}

/// Pinning feeds back into the dispatch. Where the handshake with the
/// origin fails because the origin's side names an unknown CA, the
/// destination's IP address and the announced name are pinned, and the next
/// connection to that IP address is relayed as it is.
pub proof fn lemma_origin_unknown_ca_pins(
    m: ConnModel,
    filter: &ScapFilter,
    pinned: Set<Seq<char>>,
    error: Error,
    next: ConnModel,
    dst: SocketAddr,
    dst_ip: String,
    peer: SocketAddr,
)
    requires
        m.phase is MitmClientHandshake,
        names_unknown_ca(error.message@),
        next.phase is Dialing,
        dst_ip@ == m.dst_ip,
    ensures
        ({
            let failed = spec_step(m, filter, pinned, ConnEvent::ClientHandshakeFailed { error });
            &&& failed.pinned == pinned.insert(m.dst_ip).insert(m.sni)
            &&& failed.pinned.contains(m.dst_ip)
            &&& failed.pinned.contains(m.sni)
            &&& spec_step(
                next,
                filter,
                failed.pinned,
                ConnEvent::Dialed { dst, dst_ip, peer },
            ).action is OpaqueRelay
        }),
{
}

/// Where the handshake with a client that announced a name fails because
/// the client names an unknown CA, or after the name was pinned, the
/// destination's IP address is pinned, and the next connection to that IP
/// address is relayed as it is.
pub proof fn lemma_client_unknown_ca_pins(
    m: ConnModel,
    filter: &ScapFilter,
    pinned: Set<Seq<char>>,
    server_name: String,
    error: Error,
    next: ConnModel,
    dst: SocketAddr,
    dst_ip: String,
    peer: SocketAddr,
)
    requires
        m.phase is MitmServerHandshake,
        server_name@.len() > 0,
        names_unknown_ca(error.message@) || pinned.contains(server_name@),
        next.phase is Dialing,
        dst_ip@ == m.dst_ip,
    ensures
        ({
            let failed = spec_step(
                m,
                filter,
                pinned,
                ConnEvent::ServerHandshakeFailed { server_name, error },
            );
            &&& failed.pinned.contains(m.dst_ip)
            &&& names_unknown_ca(error.message@) ==> failed.pinned.contains(server_name@)
            &&& spec_step(
                next,
                filter,
                failed.pinned,
                ConnEvent::Dialed { dst, dst_ip, peer },
            ).action is OpaqueRelay
        }),
{
}

} // verus!
