use scap_proxy::net::IpAddr;
use scap_proxy::proxy::scap::chunked::{find_chunk_size, parse_chunk_size, parse_chunked_body_raw};
use scap_proxy::proxy::scap::common::{
    ScapAddresses, ScapConnect, ScapData, ScapEntry, ScapEvent, ScapFilter, ScapProtocol,
    ScapStore,
};
use scap_proxy::proxy::scap::file::{
    FileMetadata, Header, HttpHeaders, ScapHttpMeta, ScapHttpReqMeta, ScapHttpResMeta,
    ScapProtocolMeta,
};
use scap_proxy::proxy::scap::http::{
    body_is_chunked, http_artifacts, process_scap_entry_wrapper, ParsedRequest, ParsedResponse,
};
use scap_proxy::proxy::scap::{process_scap_entry, ScapFlows};
use std::time::Duration;

fn addresses() -> ScapAddresses {
    ScapAddresses::new((IpAddr::V4(167772161), 80), (IpAddr::V4(3232235781), 40000))
}

fn entry(protocol: ScapProtocol, send: &[u8], received: &[u8]) -> ScapEntry {
    let mut e = ScapEntry::new(addresses(), protocol);
    e.send = send.to_vec();
    e.received = received.to_vec();
    e
}

fn data(id: u64, bytes: &[u8]) -> ScapData {
    ScapData { id, timestamp: Duration::from_secs(1), data: bytes.to_vec() }
}

#[test]
fn flow_id_is_the_fnv1a_hash_of_the_tuple() {
    assert_eq!(addresses().get_hash(), 10464608732143183588);
    let v6 = ScapAddresses::new((IpAddr::V6(1), 443), (IpAddr::V6(2), 1));
    assert_eq!(v6.get_hash(), 13049749088109221021);
    // Remote and source are not interchangeable.
    let swapped = ScapAddresses::new((IpAddr::V4(3232235781), 40000), (IpAddr::V4(167772161), 80));
    assert_ne!(swapped.get_hash(), addresses().get_hash());
}

#[test]
fn addresses_are_built_from_remote_and_source() {
    let a = addresses();
    assert_eq!(a.remote, IpAddr::V4(167772161));
    assert_eq!(a.rport, 80);
    assert_eq!(a.source, IpAddr::V4(3232235781));
    assert_eq!(a.sport, 40000);
}

#[test]
fn default_filter_captures_everything() {
    assert!(ScapFilter::default().matches(&addresses()));
    assert!(ScapStore::new().filter.matches(&addresses()));
}

#[test]
fn filter_lists_are_consulted_in_order() {
    let src = (IpAddr::V4(3232235781), 40000u16);
    let dst = (IpAddr::V4(167772161), 80u16);
    let f = |src_in: Vec<(IpAddr, u16)>, src_ex: Vec<(IpAddr, u16)>, dst_in: Vec<(IpAddr, u16)>, dst_ex: Vec<(IpAddr, u16)>| {
        ScapFilter { src_in, src_ex, dst_in, dst_ex, protocols: vec![] }.matches(&addresses())
    };
    assert!(!f(vec![], vec![src], vec![], vec![]));
    assert!(!f(vec![], vec![(src.0, 0)], vec![], vec![]));
    assert!(f(vec![], vec![(src.0, 1)], vec![], vec![]));
    assert!(!f(vec![], vec![], vec![], vec![dst]));
    assert!(!f(vec![], vec![], vec![], vec![(dst.0, 0)]));
    assert!(f(vec![], vec![], vec![], vec![(dst.0, 81)]));
    // Inclusion wins over exclusion.
    assert!(f(vec![src], vec![src], vec![], vec![dst]));
    assert!(f(vec![], vec![src], vec![dst], vec![]));
    assert!(f(vec![(IpAddr::V4(1), 0)], vec![], vec![], vec![]));
}

#[test]
fn filter_allows_listed_protocols_only() {
    let all = ScapFilter::default();
    assert!(all.allows(ScapProtocol::Tls) && all.allows(ScapProtocol::Dns));
    let some = ScapFilter { protocols: vec![ScapProtocol::Http, ScapProtocol::Tcp], ..ScapFilter::default() };
    assert!(some.allows(ScapProtocol::Http) && some.allows(ScapProtocol::Tcp));
    assert!(!some.allows(ScapProtocol::Tls));
    let store = ScapStore::with_filter(some);
    let (tls, connect) = store.reference().sender(ScapProtocol::Tls, (IpAddr::V4(1), 443), (IpAddr::V4(2), 9));
    assert!(matches!(connect, ScapEvent::Connect(_)));
    assert!(!tls.capture);
    let (http, _) = store.reference().sender(ScapProtocol::Http, (IpAddr::V4(1), 80), (IpAddr::V4(2), 9));
    assert!(http.capture);
}

#[test]
fn filter_duplicate_keeps_the_lists() {
    let f = ScapFilter {
        src_in: vec![(IpAddr::V4(1), 2)],
        src_ex: vec![(IpAddr::V6(3), 4)],
        dst_in: vec![],
        dst_ex: vec![(IpAddr::V4(5), 0)],
        protocols: vec![ScapProtocol::Tls],
    };
    let g = f.duplicate();
    assert_eq!(g.src_in, f.src_in);
    assert_eq!(g.src_ex, f.src_ex);
    assert_eq!(g.dst_in, f.dst_in);
    assert_eq!(g.dst_ex, f.dst_ex);
    assert_eq!(g.protocols, f.protocols);
}

#[test]
fn sender_emits_connect_data_close_in_order() {
    let store = ScapStore::new();
    let (sender, connect) = store.reference().sender(
        ScapProtocol::Http,
        (IpAddr::V4(167772161), 80),
        (IpAddr::V4(3232235781), 40000),
    );
    assert!(matches!(connect, ScapEvent::Connect(ScapConnect { protocol: ScapProtocol::Http, .. })));
    assert!(sender.capture);
    assert_eq!(sender.hash, sender.address.get_hash());
    let (n, ev) = sender.from_client().write(b"ping", Duration::from_millis(5));
    assert_eq!(n, 4);
    assert!(matches!(ev, Some(ScapEvent::Send(ref d)) if d.data == b"ping" && d.id == sender.hash));
    let (n, ev) = sender.from_server().write(b"pong!", Duration::from_millis(6));
    assert_eq!(n, 5);
    assert!(matches!(ev, Some(ScapEvent::Receive(ref d)) if d.data == b"pong!"));
    let address = sender.address;
    match sender.close() {
        Some(ScapEvent::Close(a)) => assert_eq!(a, address),
        _ => panic!("expected a Close event"),
    }
}

#[test]
fn filtered_sender_drops_writes_silently() {
    let filter = ScapFilter {
        src_in: vec![],
        src_ex: vec![],
        dst_in: vec![],
        dst_ex: vec![(IpAddr::V4(167772161), 0)],
        protocols: vec![],
    };
    let (sender, connect) = ScapStore::with_filter(filter).reference().sender(
        ScapProtocol::Tcp,
        (IpAddr::V4(167772161), 80),
        (IpAddr::V4(3232235781), 40000),
    );
    assert!(matches!(connect, ScapEvent::Connect(_)));
    assert!(!sender.capture);
    let (n, ev) = sender.from_client().write(b"secret", Duration::ZERO);
    assert_eq!(n, 6);
    assert!(ev.is_none());
    assert!(sender.close().is_none());
}

#[test]
fn consumer_folds_events_into_flows() {
    let a = addresses();
    let id = a.get_hash();
    let mut flows = ScapFlows::new();
    assert!(flows.apply(ScapEvent::Send(data(id, b"early"))).is_none());
    assert!(flows.store.is_empty());
    assert!(flows.apply(ScapEvent::Connect(ScapConnect { address: a, protocol: ScapProtocol::Tcp })).is_none());
    assert!(flows.apply(ScapEvent::Send(data(id, b"GET "))).is_none());
    assert!(flows.apply(ScapEvent::Receive(data(id, b"200"))).is_none());
    assert!(flows.apply(ScapEvent::Send(data(id, b"/"))).is_none());
    assert!(flows.apply(ScapEvent::Receive(data(id + 1, b"other flow"))).is_none());
    let done = flows.apply(ScapEvent::Close(a)).expect("the closed flow");
    assert_eq!(done.send, b"GET /");
    assert_eq!(done.received, b"200");
    assert_eq!(done.protocol, ScapProtocol::Tcp);
    assert_eq!(done.address, a);
    assert!(flows.store.is_empty());
    assert!(flows.apply(ScapEvent::Close(a)).is_none());
}

#[test]
fn consumer_drops_udp_and_dns_flows() {
    for p in [ScapProtocol::Udp, ScapProtocol::Dns] {
        let mut flows = ScapFlows::new();
        flows.apply(ScapEvent::Connect(ScapConnect { address: addresses(), protocol: p }));
        assert!(flows.apply(ScapEvent::Close(addresses())).is_none());
        assert!(flows.store.is_empty());
        assert!(process_scap_entry(entry(p, b"a", b"b")).is_none());
    }
}

#[test]
fn connect_replaces_a_flow_in_flight() {
    let a = addresses();
    let mut flows = ScapFlows::new();
    flows.apply(ScapEvent::Connect(ScapConnect { address: a, protocol: ScapProtocol::Tcp }));
    flows.apply(ScapEvent::Send(data(a.get_hash(), b"old")));
    flows.apply(ScapEvent::Connect(ScapConnect { address: a, protocol: ScapProtocol::Tls }));
    let done = flows.apply(ScapEvent::Close(a)).unwrap();
    assert!(done.send.is_empty());
    assert_eq!(done.protocol, ScapProtocol::Tls);
}

#[test]
fn recycled_buffers_start_empty() {
    let a = addresses();
    let mut flows = ScapFlows::new();
    flows.recycle(entry(ScapProtocol::Tls, b"old request", b"old response"));
    assert_eq!(flows.pool.len(), 1);
    assert!(flows.store.is_empty());
    flows.apply(ScapEvent::Connect(ScapConnect { address: a, protocol: ScapProtocol::Tcp }));
    assert!(flows.pool.is_empty());
    flows.apply(ScapEvent::Send(data(a.get_hash(), b"new")));
    let done = flows.apply(ScapEvent::Close(a)).unwrap();
    assert_eq!(done.send, b"new");
    assert!(done.received.is_empty());
    assert_eq!(done.protocol, ScapProtocol::Tcp);
    assert_eq!(done.address, a);
}

#[test]
fn cloned_data_keeps_its_timestamp() {
    let d = ScapData { id: 1, timestamp: Duration::new(12, 34), data: vec![1, 2] };
    let c = d.clone();
    assert_eq!(c.timestamp, Duration::new(12, 34));
    assert_eq!((c.id, c.data), (1, vec![1, 2]));
}

#[test]
fn entry_appends_and_drains() {
    let mut e = ScapEntry::new(addresses(), ScapProtocol::Http);
    let mut d = b"abc".to_vec();
    e.from_client(&mut d);
    assert!(d.is_empty());
    let mut d = b"de".to_vec();
    e.from_client(&mut d);
    let mut d = b"xyz".to_vec();
    e.from_server(&mut d);
    assert_eq!(e.send, b"abcde");
    assert_eq!(e.received, b"xyz");
}

#[test]
fn opaque_relay_on_port_80_is_captured_as_http() {
    let e = entry(ScapProtocol::Http, b"GET / HTTP/1.0\r\n\r\n", b"HTTP/1.0 200 OK\r\n\r\nhi");
    let a = process_scap_entry(e).expect("http flows are written");
    assert_eq!(a.meta.protocol, ScapProtocol::Http);
    assert!(a.meta.error.is_none());
    assert!(a.request.is_none());
    assert_eq!(a.response.as_deref(), Some(&b"hi"[..]));
    match a.meta.meta {
        ScapProtocolMeta::Http(h) => {
            assert_eq!(h.request.method, "GET");
            assert_eq!(h.request.path, "/");
            assert_eq!(h.request.version, 0);
            assert_eq!(h.request.body_size, 0);
            assert_eq!(h.request.raw_size, 18);
            assert!(h.request.headers.0.is_empty());
            assert_eq!(h.response.code, 200);
            assert_eq!(h.response.reason, "OK");
            assert_eq!(h.response.version, 0);
            assert_eq!(h.response.body_size, 2);
            assert_eq!(h.response.raw_size, 21);
        }
        _ => panic!("expected http metadata"),
    }
}

#[test]
fn http_heads_and_bodies_are_split() {
    let req = b"POST /submit HTTP/1.1\r\nHost: example.com\r\nContent-Length: 4\r\n\r\nbody";
    let res = b"HTTP/1.1 404 Not Found\r\nX-A: 1\r\n\r\n";
    let a = process_scap_entry_wrapper(entry(ScapProtocol::Http, req, res)).unwrap();
    assert_eq!(a.request.as_deref(), Some(&b"body"[..]));
    assert!(a.response.is_none());
    match a.meta.meta {
        ScapProtocolMeta::Http(h) => {
            assert_eq!(h.request.method, "POST");
            assert_eq!(h.request.path, "/submit");
            assert_eq!(h.request.version, 1);
            assert_eq!(h.request.body_size, 4);
            assert_eq!(h.request.raw_size, req.len() as u64);
            let names: Vec<&str> = h.request.headers.0.iter().map(|x| x.name.as_str()).collect();
            assert_eq!(names, ["Host", "Content-Length"]);
            assert_eq!(h.request.headers.0[0].value, b"example.com");
            assert_eq!(h.response.code, 404);
            assert_eq!(h.response.reason, "Not Found");
            assert_eq!(h.response.body_size, 0);
            assert_eq!(h.response.headers.0.len(), 1);
        }
        _ => panic!("expected http metadata"),
    }
}

#[test]
fn chunked_response_is_decoded() {
    let req = b"GET / HTTP/1.1\r\n\r\n";
    let res = b"HTTP/1.1 200 OK\r\nTransfer-Encoding: chunked\r\n\r\n4\r\nWiki\r\n5\r\npedia\r\n0\r\n\r\n";
    let a = process_scap_entry_wrapper(entry(ScapProtocol::Http, req, res)).unwrap();
    assert_eq!(a.response.as_deref(), Some(&b"Wikipedia"[..]));
    match a.meta.meta {
        ScapProtocolMeta::Http(h) => assert_eq!(h.response.body_size, 24),
        _ => panic!("expected http metadata"),
    }
}

#[test]
fn unreadable_http_keeps_the_flow_with_the_reason() {
    let a = process_scap_entry(entry(ScapProtocol::Http, b"\x16\x03\x01", b"HTTP/1.0 200 OK\r\n\r\n")).unwrap();
    assert_eq!(a.meta.error.as_deref(), Some("Cannot process HTTP request: not completed"));
    assert!(matches!(a.meta.meta, ScapProtocolMeta::Tcp(_)));
    assert!(a.request.is_none() && a.response.is_none());
    let a = process_scap_entry(entry(ScapProtocol::Http, b"GET / HTTP/1.0\r\n\r\n", b"HTTP/1.0 200")).unwrap();
    assert_eq!(a.meta.error.as_deref(), Some("Cannot process HTTP response: not completed"));
    let e = process_scap_entry_wrapper(entry(ScapProtocol::Http, b"", b"")).unwrap_err();
    assert_eq!(e.kind, scap_proxy::error::ErrorKind::BrokenPipe);
}

#[test]
fn http_artifacts_from_given_heads() {
    let req = ParsedRequest::new(None, None, None, vec![], 2);
    let res = ParsedResponse::new(
        Some(1),
        None,
        None,
        vec![Header::new("transfer-ENCODING", b"chunked")],
        1,
    );
    let a = http_artifacts(entry(ScapProtocol::Http, b"xxab", b"y2\r\n\xff\x00\r\n0\r\n\r\n"), Some(req), Some(res)).unwrap();
    assert_eq!(a.request.as_deref(), Some(&b"ab"[..]));
    assert_eq!(a.response.as_deref(), Some(&[0xffu8, 0x00][..]));
    match a.meta.meta {
        ScapProtocolMeta::Http(h) => {
            assert_eq!(h.request.method, "?");
            assert_eq!(h.request.path, "?");
            assert_eq!(h.request.version, 0);
            assert_eq!(h.response.reason, "?");
            assert_eq!(h.response.code, 0);
            assert_eq!(h.response.version, 1);
        }
        _ => panic!("expected http metadata"),
    }
}

#[test]
fn tcp_and_tls_flows_are_dumped_as_they_are() {
    for p in [ScapProtocol::Tcp, ScapProtocol::Tls] {
        let a = process_scap_entry(entry(p, b"\x16\x03\x01 client", b"")).unwrap();
        assert_eq!(a.meta.protocol, p);
        assert_eq!(a.meta.address, addresses());
        assert!(matches!(a.meta.meta, ScapProtocolMeta::Tcp(_)));
        assert!(a.meta.error.is_none());
        assert_eq!(a.request.as_deref(), Some(&b"\x16\x03\x01 client"[..]));
        assert!(a.response.is_none());
    }
    let a = scap_proxy::proxy::scap::tcp::process_scap_entry(entry(ScapProtocol::Tcp, b"", b" "));
    assert!(a.request.is_none());
    assert_eq!(a.response.as_deref(), Some(&b" "[..]));
}

#[test]
fn chunk_sizes_are_hexadecimal() {
    assert_eq!(parse_chunk_size(b"0"), Some(0));
    assert_eq!(parse_chunk_size(b"1a"), Some(26));
    assert_eq!(parse_chunk_size(b"FF"), Some(255));
    assert_eq!(parse_chunk_size(b"+10"), Some(16));
    assert_eq!(parse_chunk_size(b"0010"), Some(16));
    assert_eq!(parse_chunk_size(b""), None);
    assert_eq!(parse_chunk_size(b"+"), None);
    assert_eq!(parse_chunk_size(b"-1"), None);
    assert_eq!(parse_chunk_size(b"1g"), None);
    assert_eq!(parse_chunk_size(b" 1"), None);
    assert_eq!(parse_chunk_size(b"4;ext"), None);
    assert_eq!(parse_chunk_size(b"ffffffffffffffff"), Some(u64::MAX as usize));
    assert_eq!(parse_chunk_size(b"10000000000000000"), None);
}

#[test]
fn size_line_ends_at_the_first_crlf() {
    assert_eq!(find_chunk_size(b"4\r\nWiki\r\n"), Some((4, 3)));
    assert_eq!(find_chunk_size(b"1f\r\n"), Some((31, 4)));
    assert_eq!(find_chunk_size(b"\r\n"), None);
    assert_eq!(find_chunk_size(b"4\rWiki"), None);
    assert_eq!(find_chunk_size(b"4\n"), None);
    assert_eq!(find_chunk_size(b""), None);
    assert_eq!(find_chunk_size(b"zz\r\n"), None);
    assert_eq!(find_chunk_size(b"4\r"), None);
}

#[test]
fn dechunking_concatenates_the_payloads_unchanged() {
    assert_eq!(parse_chunked_body_raw(b"4\r\nWiki\r\n5\r\npedia\r\n0\r\n\r\n"), b"Wikipedia");
    let raw = [b'3', b'\r', b'\n', 0x00, 0xff, 0x80, b'\r', b'\n', b'1', b'\r', b'\n', 0xc3, b'\r', b'\n', b'0', b'\r', b'\n', b'\r', b'\n'];
    assert_eq!(parse_chunked_body_raw(&raw), [0x00, 0xff, 0x80, 0xc3]);
    // A payload may hold CR LF itself.
    assert_eq!(parse_chunked_body_raw(b"6\r\na\r\nb\r\n\r\n0\r\n\r\n"), b"a\r\nb\r\n");
}

#[test]
fn dechunking_stops_at_what_it_cannot_read() {
    assert_eq!(parse_chunked_body_raw(b""), b"");
    assert_eq!(parse_chunked_body_raw(b"0\r\n\r\n"), b"");
    assert_eq!(parse_chunked_body_raw(b"no chunks here"), b"");
    assert_eq!(parse_chunked_body_raw(b"3\r\nabc\r\nzz\r\nabc\r\n"), b"abc");
    // The last chunk is cut short: it is left out.
    assert_eq!(parse_chunked_body_raw(b"3\r\nabc\r\n5\r\nab"), b"abc");
    // The chunk is whole but nothing follows it.
    assert_eq!(parse_chunked_body_raw(b"3\r\nabc"), b"abc");
    assert_eq!(parse_chunked_body_raw(b"3\r\nabc\r"), b"abc");
    // Bytes behind the terminating chunk are ignored.
    assert_eq!(parse_chunked_body_raw(b"1\r\nx\r\n0\r\n\r\n1\r\ny\r\n"), b"x");
}

#[test]
fn transfer_encoding_is_found_in_any_case() {
    let h = |name: &str, value: &[u8]| Header::new(name, value);
    assert!(body_is_chunked(&vec![h("Host", b"a"), h("Transfer-Encoding", b"chunked")]));
    assert!(body_is_chunked(&vec![h("TRANSFER-encoding", b"chunked")]));
    assert!(!body_is_chunked(&vec![h("Transfer-Encoding", b"Chunked")]));
    assert!(!body_is_chunked(&vec![h("Transfer-Encoding", b"gzip, chunked")]));
    // Only the first such header counts.
    assert!(!body_is_chunked(&vec![h("Transfer-Encoding", b"gzip"), h("Transfer-Encoding", b"chunked")]));
    // The search ends at a header without a name.
    assert!(!body_is_chunked(&vec![h("", b""), h("Transfer-Encoding", b"chunked")]));
    assert!(!body_is_chunked(&vec![]));
    assert!(!body_is_chunked(&vec![h("Transfer-Encodin", b"chunked")]));
}

#[test]
fn header_entries_stop_at_the_first_empty_header() {
    let headers = HttpHeaders(vec![
        Header::new("A", b"1"),
        Header::new("B", &[b'x', 0xff]),
        Header::new("C", b""),
        Header::new("D", b"4"),
    ]);
    let entries = headers.entries();
    assert_eq!(entries.len(), 2);
    assert_eq!(entries[0], ("A".to_string(), "1".to_string()));
    assert_eq!(entries[1], ("B".to_string(), "x\u{fffd}".to_string()));
    assert!(HttpHeaders(vec![Header::new("", b"v")]).entries().is_empty());
}

#[test]
fn should_deserialize() {
    let headers = vec![Header::new("header1", b"header value")];
    let res_headers = vec![Header::new("header1", b"header value")];
    let req = ScapHttpReqMeta {
        headers: HttpHeaders(headers),
        method: "GET".to_string(),
        version: 1,
        path: "/ROOT".to_string(),
        body_size: 0,
        raw_size: 0,
    };
    let res = ScapHttpResMeta {
        headers: HttpHeaders(res_headers),
        reason: "OK".to_string(),
        version: 1,
        code: 200,
        body_size: 0,
        raw_size: 0,
    };
    let meta = ScapHttpMeta { request: req, response: res };
    let request = FileMetadata {
        address: ScapAddresses { remote: IpAddr::V4(2130706432), rport: 80, source: IpAddr::V4(2130706432), sport: 12345 },
        meta: ScapProtocolMeta::Http(meta),
        protocol: ScapProtocol::Http,
        error: None,
    };
    match &request.meta {
        ScapProtocolMeta::Http(h) => {
            assert_eq!(h.request.headers.entries(), vec![("header1".to_string(), "header value".to_string())]);
            assert_eq!(h.response.headers.entries(), vec![("header1".to_string(), "header value".to_string())]);
        }
        _ => panic!("expected http metadata"),
    }
    println!("{:?}", request);
}
