use scap_proxy::error::{Error, ErrorKind};
use scap_proxy::net::{IpAddr, SocketAddr};
use scap_proxy::proxy::conn::common::{
    mentions_unknown_ca, ConnAction, ConnEvent, ConnPhase, ConnectionState,
    ProxyConnectionManager, SCRATCH_BUFFER_SIZE,
};
use scap_proxy::proxy::scap::common::{ScapEvent, ScapFilter, ScapProtocol, ScapStore};
use scap_proxy::proxy::tls::store::TlsCertStore;
use scap_proxy::proxy::{pinned_domains, ProxyWorkerSpawner};

fn manager() -> ProxyConnectionManager {
    ProxyConnectionManager::new(ScapStore::new().reference(), "127.0.0.1:9050".to_string())
}

fn dialed(ip: u32, port: u16, text: &str) -> ConnEvent {
    ConnEvent::Dialed {
        dst: SocketAddr::new(IpAddr::V4(ip), port),
        dst_ip: text.to_string(),
        peer: SocketAddr::new(IpAddr::V4(3232235781), 40000),
    }
}

fn connect_protocol(ev: &Option<ScapEvent>) -> ScapProtocol {
    match ev {
        Some(ScapEvent::Connect(c)) => c.protocol,
        _ => panic!("expected a Connect event"),
    }
}

#[test]
fn port_80_is_relayed_as_http() {
    let mut m = manager();
    let mut tls = TlsCertStore::new(vec![]);
    let step = m.handle_client(&mut tls, dialed(167772161, 80, "10.0.0.1"));
    assert!(matches!(step.action, ConnAction::OpaqueRelay));
    assert_eq!(connect_protocol(&step.capture), ScapProtocol::Http);
    assert_eq!(m.phase, ConnPhase::OpaqueRelay);
    match step.capture {
        Some(ScapEvent::Connect(c)) => {
            assert_eq!(c.address.remote, IpAddr::V4(167772161));
            assert_eq!(c.address.rport, 80);
            assert_eq!(c.address.source, IpAddr::V4(3232235781));
            assert_eq!(c.address.sport, 40000);
        }
        _ => panic!("expected a Connect event"),
    }
}

#[test]
fn other_ports_are_relayed_as_tcp() {
    let mut m = manager();
    let mut tls = TlsCertStore::new(vec![]);
    let step = m.handle_client(&mut tls, dialed(167772161, 8080, "10.0.0.1"));
    assert!(matches!(step.action, ConnAction::OpaqueRelay));
    assert_eq!(connect_protocol(&step.capture), ScapProtocol::Tcp);
}

#[test]
fn port_443_is_intercepted_unless_pinned() {
    let mut m = manager();
    let mut tls = TlsCertStore::new(vec![]);
    let step = m.handle_client(&mut tls, dialed(167772161, 443, "10.0.0.1"));
    assert!(matches!(step.action, ConnAction::ServerHandshake));
    assert_eq!(connect_protocol(&step.capture), ScapProtocol::Http);
    assert_eq!(m.phase, ConnPhase::MitmServerHandshake);
}

#[test]
fn pinned_destination_is_never_intercepted() {
    let mut m = manager();
    let mut tls = TlsCertStore::new(vec!["10.0.0.1".to_string()]);
    let step = m.handle_client(&mut tls, dialed(167772161, 443, "10.0.0.1"));
    assert!(matches!(step.action, ConnAction::OpaqueRelay));
    assert_eq!(connect_protocol(&step.capture), ScapProtocol::Tls);
    assert_eq!(m.phase, ConnPhase::OpaqueRelay);
    // Whatever is reported next, the connection is only ever closed.
    let step = m.handle_client(
        &mut tls,
        ConnEvent::ServerHandshakeDone { server_name: "example.com".to_string() },
    );
    assert!(matches!(step.action, ConnAction::Close { .. }));
    assert!(matches!(step.capture, Some(ScapEvent::Close(_))));
    let step = m.handle_client(&mut tls, ConnEvent::ClientHandshakeDone);
    assert!(matches!(step.action, ConnAction::Close { .. }));
    assert!(step.capture.is_none());
    assert_eq!(m.phase, ConnPhase::Closed);
}

#[test]
fn dial_failure_surfaces_the_error() {
    let mut m = manager();
    let mut tls = TlsCertStore::new(vec![]);
    let step = m.handle_client(
        &mut tls,
        ConnEvent::DialFailed { error: Error::new(ErrorKind::ConnectionRefused, "Connection refused") },
    );
    match step.action {
        ConnAction::Close { result: Err(e), logged: None } => {
            assert_eq!(e.kind, ErrorKind::ConnectionRefused)
        }
        _ => panic!("expected the dial error"),
    }
    assert!(step.capture.is_none());
    assert_eq!(m.phase, ConnPhase::Closed);
}

#[test]
fn full_interception_walks_through_both_handshakes() {
    let mut m = manager();
    let mut tls = TlsCertStore::new(vec![]);
    m.handle_client(&mut tls, dialed(167772161, 443, "10.0.0.1"));
    let step = m.handle_client(
        &mut tls,
        ConnEvent::ServerHandshakeDone { server_name: "WWW.Example.COM".to_string() },
    );
    match step.action {
        ConnAction::ClientHandshake { server_name } => assert_eq!(server_name, "www.example.com"),
        _ => panic!("expected the client handshake"),
    }
    assert_eq!(m.sni, "www.example.com");
    assert_eq!(m.phase, ConnPhase::MitmClientHandshake);
    let step = m.handle_client(&mut tls, ConnEvent::ClientHandshakeDone);
    assert!(matches!(step.action, ConnAction::InterceptedRelay));
    assert_eq!(m.phase, ConnPhase::InterceptedRelay);
    let step = m.handle_client(
        &mut tls,
        ConnEvent::RelayEnded { result: Err(Error::new(ErrorKind::WriteZero, "Connection Closed")) },
    );
    match step.action {
        ConnAction::Close { result: Ok(()), logged: None } => {}
        _ => panic!("the orderly end of a connection is neither an error nor logged"),
    }
    assert!(matches!(step.capture, Some(ScapEvent::Close(_))));
    assert!(tls.pinned.is_empty());
}

#[test]
fn relay_errors_are_logged_not_surfaced() {
    let mut m = manager();
    let mut tls = TlsCertStore::new(vec![]);
    m.handle_client(&mut tls, dialed(167772161, 80, "10.0.0.1"));
    let step = m.handle_client(
        &mut tls,
        ConnEvent::RelayEnded { result: Err(Error::new(ErrorKind::BrokenPipe, "broken")) },
    );
    match step.action {
        ConnAction::Close { result: Ok(()), logged: Some(e) } => {
            assert_eq!(e.kind, ErrorKind::BrokenPipe);
            assert_eq!(e.message, "broken");
        }
        _ => panic!("expected a logged error"),
    }
}

#[test]
fn invalid_server_name_ends_the_connection() {
    let mut m = manager();
    let mut tls = TlsCertStore::new(vec![]);
    m.handle_client(&mut tls, dialed(167772161, 443, "10.0.0.1"));
    let step = m.handle_client(
        &mut tls,
        ConnEvent::ServerHandshakeDone { server_name: "not a name".to_string() },
    );
    match step.action {
        ConnAction::Close { result: Ok(()), logged: Some(e) } => {
            assert_eq!(e.kind, ErrorKind::InvalidData);
            assert_eq!(e.message, "Invalid DNS Name");
        }
        _ => panic!("expected InvalidData"),
    }
}

#[test]
fn get_sn_of_server_normalizes_to_lower_case() {
    assert_eq!(ProxyConnectionManager::get_sn_of_server("Example.ORG").unwrap(), "example.org");
    assert_eq!(ProxyConnectionManager::get_sn_of_server("a_b.example").unwrap(), "a_b.example");
    for bad in ["", "exa mple.com", "-x.com", "a..b", "münchen.de"] {
        let e = ProxyConnectionManager::get_sn_of_server(bad).unwrap_err();
        assert_eq!(e.kind, ErrorKind::InvalidData);
    }
}

#[test]
fn unknown_ca_from_client_pins_name_and_ip() {
    let mut m = manager();
    let mut tls = TlsCertStore::new(vec![]);
    m.handle_client(&mut tls, dialed(167772161, 443, "10.0.0.1"));
    let step = m.handle_client(
        &mut tls,
        ConnEvent::ServerHandshakeFailed {
            server_name: "example.com".to_string(),
            error: Error::new(ErrorKind::InvalidData, "received fatal alert: UnknownCA"),
        },
    );
    assert!(matches!(step.action, ConnAction::Close { result: Ok(()), logged: Some(_) }));
    assert!(tls.is_disabled("example.com"));
    assert!(tls.is_disabled("10.0.0.1"));
    // The next connection to the same destination is relayed as it is.
    let mut next = manager();
    let step = next.handle_client(&mut tls, dialed(167772161, 443, "10.0.0.1"));
    assert!(matches!(step.action, ConnAction::OpaqueRelay));
    assert_eq!(connect_protocol(&step.capture), ScapProtocol::Tls);
}

#[test]
fn handshake_failure_without_name_pins_nothing() {
    let mut m = manager();
    let mut tls = TlsCertStore::new(vec![]);
    m.handle_client(&mut tls, dialed(167772161, 443, "10.0.0.1"));
    m.handle_client(
        &mut tls,
        ConnEvent::ServerHandshakeFailed {
            server_name: String::new(),
            error: Error::new(ErrorKind::InvalidData, "UnknownCA"),
        },
    );
    assert!(tls.pinned.is_empty());
    assert_eq!(m.phase, ConnPhase::Closed);
}

#[test]
fn other_handshake_failures_pin_nothing() {
    let mut m = manager();
    let mut tls = TlsCertStore::new(vec![]);
    m.handle_client(&mut tls, dialed(167772161, 443, "10.0.0.1"));
    m.handle_client(
        &mut tls,
        ConnEvent::ServerHandshakeFailed {
            server_name: "example.com".to_string(),
            error: Error::new(ErrorKind::InvalidData, "peer is incompatible"),
        },
    );
    assert!(tls.pinned.is_empty());
}

#[test]
fn failed_forging_falls_back_to_opaque_relay() {
    // The resolver pinned the name; the handshake then fails for want of a certificate.
    let mut m = manager();
    let mut tls = TlsCertStore::new(vec![]);
    m.handle_client(&mut tls, dialed(167772161, 443, "10.0.0.1"));
    tls.disable_addr("unknown-root.example".to_string());
    m.handle_client(
        &mut tls,
        ConnEvent::ServerHandshakeFailed {
            server_name: "unknown-root.example".to_string(),
            error: Error::new(ErrorKind::InvalidData, "no server certificate chain resolved"),
        },
    );
    assert!(tls.is_disabled("10.0.0.1"));
    let mut next = manager();
    let step = next.handle_client(&mut tls, dialed(167772161, 443, "10.0.0.1"));
    assert!(matches!(step.action, ConnAction::OpaqueRelay));
    assert_eq!(connect_protocol(&step.capture), ScapProtocol::Tls);
}

#[test]
fn unknown_ca_from_origin_pins_ip_and_name() {
    let mut m = manager();
    let mut tls = TlsCertStore::new(vec![]);
    m.handle_client(&mut tls, dialed(167772161, 443, "10.0.0.1"));
    m.handle_client(&mut tls, ConnEvent::ServerHandshakeDone { server_name: "Origin.test".to_string() });
    let step = m.handle_client(
        &mut tls,
        ConnEvent::ClientHandshakeFailed {
            error: Error::new(ErrorKind::InvalidData, "AlertReceived(UnknownCA)"),
        },
    );
    assert!(matches!(step.action, ConnAction::Close { .. }));
    assert!(tls.is_disabled("10.0.0.1"));
    assert!(tls.is_disabled("origin.test"));
    assert!(!tls.is_disabled("10.0.0.1:443"));
    // The next connection to the same destination is relayed as it is.
    let mut next = manager();
    let step = next.handle_client(&mut tls, dialed(167772161, 443, "10.0.0.1"));
    assert!(matches!(step.action, ConnAction::OpaqueRelay));
    assert_eq!(connect_protocol(&step.capture), ScapProtocol::Tls);
}

#[test]
fn other_origin_failures_pin_nothing() {
    let mut m = manager();
    let mut tls = TlsCertStore::new(vec![]);
    m.handle_client(&mut tls, dialed(167772161, 443, "10.0.0.1"));
    m.handle_client(&mut tls, ConnEvent::ServerHandshakeDone { server_name: "origin.test".to_string() });
    m.handle_client(
        &mut tls,
        ConnEvent::ClientHandshakeFailed { error: Error::new(ErrorKind::InvalidData, "bad record") },
    );
    assert!(tls.pinned.is_empty());
}

#[test]
fn refused_sessions() {
    let mut m = manager();
    let mut tls = TlsCertStore::new(vec![]);
    m.handle_client(&mut tls, dialed(167772161, 443, "10.0.0.1"));
    let step = m.handle_client(&mut tls, ConnEvent::ServerSessionRefused);
    assert!(matches!(step.action, ConnAction::OpaqueRelay));
    assert!(step.capture.is_none());
    assert_eq!(m.phase, ConnPhase::OpaqueRelay);

    let mut m = manager();
    m.handle_client(&mut tls, dialed(167772161, 443, "10.0.0.1"));
    m.handle_client(&mut tls, ConnEvent::ServerHandshakeDone { server_name: "a.test".to_string() });
    let step = m.handle_client(
        &mut tls,
        ConnEvent::ClientSessionRefused { reason: "bad config".to_string() },
    );
    match step.action {
        ConnAction::Close { result: Ok(()), logged: Some(e) } => {
            assert_eq!(e.kind, ErrorKind::NotConnected);
            assert_eq!(e.message, "Connecting to: bad config");
        }
        _ => panic!("expected NotConnected"),
    }
}

#[test]
fn filtered_flow_announces_but_never_closes() {
    let filter = ScapFilter {
        src_in: vec![],
        src_ex: vec![(IpAddr::V4(3232235781), 0)],
        dst_in: vec![],
        dst_ex: vec![],
        protocols: vec![],
    };
    let mut m = ProxyConnectionManager::new(
        ScapStore::with_filter(filter).reference(),
        "127.0.0.1:9050".to_string(),
    );
    let mut tls = TlsCertStore::new(vec![]);
    let step = m.handle_client(&mut tls, dialed(167772161, 80, "10.0.0.1"));
    assert!(matches!(step.capture, Some(ScapEvent::Connect(_))));
    assert!(!m.sender.as_ref().unwrap().capture);
    let step = m.handle_client(&mut tls, ConnEvent::RelayEnded { result: Ok(()) });
    assert!(step.capture.is_none());
}

#[test]
fn mentions_unknown_ca_is_a_substring_test() {
    assert!(mentions_unknown_ca("UnknownCA"));
    assert!(mentions_unknown_ca("received fatal alert: UnknownCA!"));
    assert!(!mentions_unknown_ca("unknownca"));
    assert!(!mentions_unknown_ca("UnknownC"));
    assert!(!mentions_unknown_ca(""));
    assert!(!mentions_unknown_ca("Unknown CA"));
}

#[test]
fn dispatch_rules() {
    assert_eq!(ProxyConnectionManager::protocol_for(443, true), ScapProtocol::Tls);
    assert_eq!(ProxyConnectionManager::protocol_for(443, false), ScapProtocol::Http);
    assert_eq!(ProxyConnectionManager::protocol_for(80, true), ScapProtocol::Http);
    assert_eq!(ProxyConnectionManager::protocol_for(22, false), ScapProtocol::Tcp);
    assert!(ProxyConnectionManager::intercepts(443, false));
    assert!(!ProxyConnectionManager::intercepts(443, true));
    assert!(!ProxyConnectionManager::intercepts(80, false));
}

#[test]
fn manager_state_is_reused() {
    let mut m = manager();
    assert_eq!(m.state.buffer.len(), SCRATCH_BUFFER_SIZE);
    m.state.conn_buffers.client_pos = 5;
    m.state.conn_buffers.server_readed = 6;
    m.state.conn_buffers.client_buffer[0] = 1;
    let state: ConnectionState = m.keep_state();
    let m = ProxyConnectionManager::from_state(state, "upstream:1080".to_string());
    assert_eq!(m.state.conn_buffers.client_pos, 0);
    assert_eq!(m.state.conn_buffers.server_readed, 0);
    assert_eq!(m.state.conn_buffers.client_buffer[0], 1);
    assert_eq!(m.phase, ConnPhase::Dialing);
    assert_eq!(m.socks5, "upstream:1080");
    let c = m.init_proxy(&SocketAddr::new(IpAddr::V4(16909060), 443));
    assert_eq!(c.dst, SocketAddr::new(IpAddr::V4(16909060), 443));
}

#[test]
fn manager_is_reset_between_connections() {
    let mut m = manager();
    let mut tls = TlsCertStore::new(vec![]);
    m.handle_client(&mut tls, dialed(167772161, 443, "10.0.0.1"));
    m.handle_client(&mut tls, ConnEvent::ServerHandshakeDone { server_name: "a.test".to_string() });
    m.state.conn_buffers.client_buffer[3] = 8;
    m.state.conn_buffers.server_pos = 4;
    m.reset();
    assert_eq!(m.phase, ConnPhase::Dialing);
    assert!(m.sender.is_none());
    assert!(m.sni.is_empty() && m.dst_ip.is_empty());
    assert_eq!(m.state.conn_buffers.server_pos, 0);
    assert_eq!(m.state.conn_buffers.client_buffer[3], 8);
    assert_eq!(m.socks5, "127.0.0.1:9050");
    let step = m.handle_client(&mut tls, dialed(167772161, 80, "10.0.0.1"));
    assert!(matches!(step.action, ConnAction::OpaqueRelay));
}

#[test]
fn pinned_set_operations() {
    let mut tls = TlsCertStore::new(vec!["a.example".to_string()]);
    assert!(tls.is_disabled("a.example"));
    assert!(!tls.is_disabled("A.example"));
    tls.disable_addr("10.1.1.1".to_string());
    tls.disable_addr("10.1.1.1".to_string());
    assert!(tls.is_disabled("10.1.1.1"));
    assert_eq!(tls.pinned.len(), 2);
    tls.reset();
    assert!(!tls.is_disabled("a.example"));
    assert!(tls.pinned.is_empty());
}

#[test]
fn pinned_domains_are_lower_cased() {
    let tls = pinned_domains(&vec!["Example.COM".to_string(), "ÄB.de".to_string()]);
    assert!(tls.is_disabled("example.com"));
    assert!(tls.is_disabled("äb.de"));
    assert!(!tls.is_disabled("Example.COM"));
}

#[test]
fn spawner_makes_idle_workers() {
    let s = ProxyWorkerSpawner::neew(ScapStore::new().reference(), "u:1".to_string());
    let w = s.gen();
    assert_eq!(w.proxy.phase, ConnPhase::Dialing);
    assert_eq!(w.proxy.socks5, "u:1");
    assert!(w.proxy.sender.is_none());
}
