//! Artifacts of an HTTP flow.

use crate::error::{Error, ErrorKind, ErrorView};
use crate::proxy::scap::chunked::{dechunk, parse_chunked_body_raw};
use crate::proxy::scap::common::{ScapEntry, ScapEntryView};
use crate::proxy::scap::file::{
    headers_view, FileMetadata, FileMetadataView, FlowArtifacts, FlowArtifactsView, Header,
    HeadersView, HttpHeaders, ScapHttpMeta, ScapHttpReqMeta, ScapHttpReqMetaView, ScapHttpResMeta,
    ScapHttpResMetaView, ScapProtocolMeta, ScapProtocolMetaView, ScapTcpMeta,
};
use crate::proxy::scap::tcp::{dump, dump_of};
use crate::text::{eq_bytes, eq_ignore_ascii_case, lower_bytes};
use vstd::prelude::*;
use vstd::slice::{slice_subrange, slice_to_vec};
use vstd::utf8::encode_utf8;

verus! {

/// Bound on the count of headers that are read of an HTTP message.
pub const MAX_HEADERS: usize = 64;

/// The head of an HTTP request.
#[derive(Debug, Clone)]
pub struct ParsedRequest {
    pub method: Option<String>,
    pub path: Option<String>,
    pub version: Option<u8>,
    pub headers: Vec<Header>,
    /// Offset of the body in the bytes of the request.
    pub body_start: usize,
}

/// The head of an HTTP response.
#[derive(Debug, Clone)]
pub struct ParsedResponse {
    pub version: Option<u8>,
    pub code: Option<u16>,
    pub reason: Option<String>,
    pub headers: Vec<Header>,
    /// Offset of the body in the bytes of the response.
    pub body_start: usize,
}

/// Mathematical content of a [`ParsedRequest`].
pub struct ParsedRequestView {
    pub method: Option<Seq<char>>,
    pub path: Option<Seq<char>>,
    pub version: Option<u8>,
    pub headers: HeadersView,
    pub body_start: usize,
}

/// Mathematical content of a [`ParsedResponse`].
pub struct ParsedResponseView {
    pub version: Option<u8>,
    pub code: Option<u16>,
    pub reason: Option<Seq<char>>,
    pub headers: HeadersView,
    pub body_start: usize,
}

/// The text of an optional string.
pub open spec fn text_of(s: Option<String>) -> Option<Seq<char>> {
    match s {
        Some(t) => Some(t@),
        None => None,
    }
}

impl View for ParsedRequest {
    type V = ParsedRequestView;

    open spec fn view(&self) -> ParsedRequestView {
        ParsedRequestView {
            method: text_of(self.method),
            path: text_of(self.path),
            version: self.version,
            headers: headers_view(self.headers@),
            body_start: self.body_start,
        }
    }
}

impl View for ParsedResponse {
    type V = ParsedResponseView;

    open spec fn view(&self) -> ParsedResponseView {
        ParsedResponseView {
            version: self.version,
            code: self.code,
            reason: text_of(self.reason),
            headers: headers_view(self.headers@),
            body_start: self.body_start,
        }
    }
}

/// The text of an optional string slice.
pub open spec fn str_of(s: Option<&str>) -> Option<Seq<char>> {
    match s {
        Some(t) => Some(t@),
        None => None,
    }
}

fn owned(s: Option<&str>) -> (r: Option<String>)
    ensures
        text_of(r) == str_of(s),
{
    match s {
        Some(t) => Some(t.to_owned()),
        None => None,
    }
}

impl ParsedRequest {
    /// The head of a request from its parts.
    pub fn new(
        method: Option<&str>,
        path: Option<&str>,
        version: Option<u8>,
        headers: Vec<Header>,
        body_start: usize,
    ) -> (r: ParsedRequest)
        ensures
            r@ == (ParsedRequestView {
                method: str_of(method),
                path: str_of(path),
                version,
                headers: headers_view(headers@),
                body_start,
            }),
    {
        ParsedRequest { method: owned(method), path: owned(path), version, headers, body_start }
    }
}

impl ParsedResponse {
    /// The head of a response from its parts.
    pub fn new(
        version: Option<u8>,
        code: Option<u16>,
        reason: Option<&str>,
        headers: Vec<Header>,
        body_start: usize,
    ) -> (r: ParsedResponse)
        ensures
            r@ == (ParsedResponseView {
                version,
                code,
                reason: str_of(reason),
                headers: headers_view(headers@),
                body_start,
            }),
    {
        ParsedResponse { version, code, reason: owned(reason), headers, body_start }
    }
}

/// The head of the HTTP request that `buf` starts with, read with room for
/// `max_headers` headers, as `httparse::Request::parse` reads it; `None`
/// where the head is not complete or not well formed.
pub uninterp spec fn http_request_head(buf: Seq<u8>, max_headers: usize) -> Option<
    ParsedRequestView,
>;

/// The head of the HTTP response that `buf` starts with, read with room
/// for `max_headers` headers, as `httparse::Response::parse` reads it;
/// `None` where the head is not complete or not well formed.
pub uninterp spec fn http_response_head(buf: Seq<u8>, max_headers: usize) -> Option<
    ParsedResponseView,
>;

/// `httparse::Request::parse` on a fresh array of `max_headers` headers:
/// the head of the request if the parser reports it complete. The head
/// depends on the bytes and the count of headers alone, and the offset of
/// the body lies within the bytes.
#[verifier::external_body]
pub(crate) fn parse_request(buf: &[u8], max_headers: usize) -> (r: Option<ParsedRequest>)
    ensures
        match r {
            Some(p) => Some(p@) == http_request_head(buf@, max_headers) && p.body_start
                <= buf@.len(),
            None => http_request_head(buf@, max_headers) is None,
        },
{
    let mut headers = vec![httparse::EMPTY_HEADER; max_headers];
    let mut req = httparse::Request::new(&mut headers);
    match req.parse(buf) {
        Ok(httparse::Status::Complete(body_start)) => {
            let list = req.headers.iter().map(|h| Header::new(h.name, h.value)).collect();
            Some(ParsedRequest::new(req.method, req.path, req.version, list, body_start))
        },
        _ => None,
    }
}

/// `httparse::Response::parse` on a fresh array of `max_headers` headers:
/// the head of the response if the parser reports it complete. The head
/// depends on the bytes and the count of headers alone, and the offset of
/// the body lies within the bytes.
#[verifier::external_body]
pub(crate) fn parse_response(buf: &[u8], max_headers: usize) -> (r: Option<ParsedResponse>)
    ensures
        match r {
            Some(p) => Some(p@) == http_response_head(buf@, max_headers) && p.body_start
                <= buf@.len(),
            None => http_response_head(buf@, max_headers) is None,
        },
{
    let mut headers = vec![httparse::EMPTY_HEADER; max_headers];
    let mut res = httparse::Response::new(&mut headers);
    match res.parse(buf) {
        Ok(httparse::Status::Complete(body_start)) => {
            let list = res.headers.iter().map(|h| Header::new(h.name, h.value)).collect();
            Some(ParsedResponse::new(res.version, res.code, res.reason, list, body_start))
        },
        _ => None,
    }
}

/// The bytes of `transfer-encoding`.
pub open spec fn transfer_encoding_name() -> Seq<u8> {
    seq![
        0x74u8, 0x72u8, 0x61u8, 0x6eu8, 0x73u8, 0x66u8, 0x65u8, 0x72u8, 0x2du8, 0x65u8, 0x6eu8,
        0x63u8, 0x6fu8, 0x64u8, 0x69u8, 0x6eu8, 0x67u8,
    ]
}

/// The bytes of `chunked`.
pub open spec fn chunked_token() -> Seq<u8> {
    seq![0x63u8, 0x68u8, 0x75u8, 0x6eu8, 0x6bu8, 0x65u8, 0x64u8]
}

/// Whether `name` is `Transfer-Encoding`, in any case of its letters.
pub open spec fn is_transfer_encoding(name: Seq<char>) -> bool {
    lower_bytes(encode_utf8(name)) == transfer_encoding_name()
}

/// Whether the headers declare a chunked body: the first
/// `Transfer-Encoding` header, looked for up to the first header without a
/// name, has the value `chunked`.
pub open spec fn spec_body_is_chunked(headers: HeadersView) -> bool
    decreases headers.len(),
{
    if headers.len() == 0 || headers[0].0.len() == 0 {
        false
    } else if is_transfer_encoding(headers[0].0) {
        headers[0].1 == chunked_token()
    } else {
        spec_body_is_chunked(headers.drop_first())
    }
}

/// Whether the headers declare a chunked body.
pub fn body_is_chunked(headers: &Vec<Header>) -> (chunked: bool)
    ensures
        chunked == spec_body_is_chunked(headers_view(headers@)),
{
    let name: Vec<u8> = vec![
        0x74u8, 0x72u8, 0x61u8, 0x6eu8, 0x73u8, 0x66u8, 0x65u8, 0x72u8, 0x2du8, 0x65u8, 0x6eu8,
        0x63u8, 0x6fu8, 0x64u8, 0x69u8, 0x6eu8, 0x67u8,
    ];
    let token: Vec<u8> = vec![0x63u8, 0x68u8, 0x75u8, 0x6eu8, 0x6bu8, 0x65u8, 0x64u8];
    assert(name@ =~= transfer_encoding_name());
    assert(token@ =~= chunked_token());
    assert(lower_bytes(name@) =~= name@);
    let ghost all = headers_view(headers@);
    assert(all.subrange(0, all.len() as int) =~= all);
    let mut i: usize = 0;
    while i < headers.len()
        invariant
            i <= headers@.len(),
            all == headers_view(headers@),
            name@ == transfer_encoding_name(),
            lower_bytes(name@) == name@,
            token@ == chunked_token(),
            spec_body_is_chunked(all) == spec_body_is_chunked(
                all.subrange(i as int, all.len() as int),
            ),
        decreases headers@.len() - i,
    {
        let header = &headers[i];
        let ghost rest = all.subrange(i as int, all.len() as int);
        assert(rest[0] == header@);
        if header.name.as_str().is_empty() {
            return false;
        }
        if eq_ignore_ascii_case(header.name.as_str().as_bytes(), name.as_slice()) {
            return eq_bytes(header.value.as_slice(), token.as_slice());
        }
        assert(rest.drop_first() =~= all.subrange(i + 1, all.len() as int));
        i += 1;
    }
    false
}

/// The error of a flow whose request or response cannot be read.
pub open spec fn incomplete(what: Seq<char>) -> ErrorView {
    ErrorView { kind: ErrorKind::BrokenPipe, message: what }
}

/// The bytes behind the head of a message.
pub open spec fn body_of(bytes: Seq<u8>, body_start: usize) -> Seq<u8> {
    bytes.subrange(body_start as int, bytes.len() as int)
}

/// The text of an optional string, `?` where there is none.
pub open spec fn text_or_unknown(s: Option<Seq<char>>) -> Seq<char> {
    match s {
        Some(t) => t,
        None => "?"@,
    }
}

/// The number of an optional number, 0 where there is none.
pub open spec fn number_or_zero<T: Integer>(n: Option<T>, zero: T) -> T {
    match n {
        Some(v) => v,
        None => zero,
    }
}

/// What is written out for an HTTP flow whose request head is `request`
/// and whose response head is `response`.
pub open spec fn spec_http_artifacts(
    scap: ScapEntryView,
    request: Option<ParsedRequestView>,
    response: Option<ParsedResponseView>,
) -> Result<FlowArtifactsView, ErrorView> {
    match (request, response) {
        (None, _) => Err(incomplete("Cannot process HTTP request: not completed"@)),
        (Some(_), None) => Err(incomplete("Cannot process HTTP response: not completed"@)),
        (Some(req), Some(res)) => {
            let request_body = body_of(scap.send, req.body_start);
            let response_body = body_of(scap.received, res.body_start);
            Ok(
                FlowArtifactsView {
                    meta: FileMetadataView {
                        address: scap.address,
                        protocol: scap.protocol,
                        meta: ScapProtocolMetaView::Http {
                            request: ScapHttpReqMetaView {
                                method: text_or_unknown(req.method),
                                version: number_or_zero(req.version, 0u8),
                                path: text_or_unknown(req.path),
                                headers: req.headers,
                                body_size: request_body.len() as u64,
                                raw_size: scap.send.len() as u64,
                            },
                            response: ScapHttpResMetaView {
                                reason: text_or_unknown(res.reason),
                                code: number_or_zero(res.code, 0u16),
                                version: number_or_zero(res.version, 0u8),
                                headers: res.headers,
                                body_size: response_body.len() as u64,
                                raw_size: scap.received.len() as u64,
                            },
                        },
                        error: None,
                    },
                    request: dump_of(request_body),
                    response: if response_body.len() == 0 {
                        None
                    } else if spec_body_is_chunked(res.headers) {
                        Some(dechunk(response_body))
                    } else {
                        Some(response_body)
                    },
                },
            )
        },
    }
}

/// What is written out for an HTTP flow: the artifacts of the flow read as
/// HTTP or, where it cannot be read so, the metadata record with the
/// reason and no dump.
pub open spec fn spec_http_or_error(
    scap: ScapEntryView,
    request: Option<ParsedRequestView>,
    response: Option<ParsedResponseView>,
) -> FlowArtifactsView {
    match spec_http_artifacts(scap, request, response) {
        Ok(a) => a,
        Err(e) => FlowArtifactsView {
            meta: FileMetadataView {
                address: scap.address,
                protocol: scap.protocol,
                meta: ScapProtocolMetaView::Tcp,
                error: Some(e.message),
            },
            request: None,
            response: None,
        },
    }
}

fn or_unknown(s: Option<String>) -> (t: String)
    ensures
        t@ == text_or_unknown(text_of(s)),
{
    match s {
        Some(t) => t,
        None => "?".to_owned(),
    }
}

/// Turns the buffers of an HTTP flow and the heads of its request and its
/// response into what is written out for it.
///
/// Without a complete request head, or else without a complete response
/// head, the result is the error `BrokenPipe`. Else the metadata record
/// holds both heads, with `?` for a text and 0 for a number that the head
/// lacks, and the sizes of each message and of its body. The body of the
/// request is dumped as it is, the body of the response decoded if the
/// response declares it chunked and as it is otherwise; an empty body is
/// not dumped.
pub fn http_artifacts(
    scap: ScapEntry,
    request: Option<ParsedRequest>,
    response: Option<ParsedResponse>,
) -> (r: Result<FlowArtifacts, Error>)
    requires
        request matches Some(q) ==> q.body_start <= scap.send@.len(),
        response matches Some(s) ==> s.body_start <= scap.received@.len(),
    ensures
        match r {
            Ok(a) => Ok::<FlowArtifactsView, ErrorView>(a@) == spec_http_artifacts(
                scap@,
                view_of_request(request),
                view_of_response(response),
            ),
            Err(e) => Err::<FlowArtifactsView, ErrorView>(e@) == spec_http_artifacts(
                scap@,
                view_of_request(request),
                view_of_response(response),
            ),
        },
{
    let req = match request {
        Some(v) => v,
        None => {
            return Err(
                Error::new(ErrorKind::BrokenPipe, "Cannot process HTTP request: not completed"),
            );
        },
    };
    let res = match response {
        Some(v) => v,
        None => {
            return Err(
                Error::new(ErrorKind::BrokenPipe, "Cannot process HTTP response: not completed"),
            );
        },
    };
    let send_len: usize = scap.send.len();
    let received_len: usize = scap.received.len();
    let request_body = slice_subrange(scap.send.as_slice(), req.body_start, send_len);
    let response_body = slice_subrange(scap.received.as_slice(), res.body_start, received_len);
    let chunked = body_is_chunked(&res.headers);
    let request_dump = dump(slice_to_vec(request_body));
    let response_dump = if response_body.len() == 0 {
        None
    } else if chunked {
        Some(parse_chunked_body_raw(response_body))
    } else {
        Some(slice_to_vec(response_body))
    };
    let meta = FileMetadata {
        address: scap.address,
        meta: ScapProtocolMeta::Http(
            ScapHttpMeta {
                request: ScapHttpReqMeta {
                    headers: HttpHeaders(req.headers),
                    method: or_unknown(req.method),
                    path: or_unknown(req.path),
                    version: match req.version {
                        Some(v) => v,
                        None => 0,
                    },
                    body_size: (send_len - req.body_start) as u64,
                    raw_size: send_len as u64,
                },
                response: ScapHttpResMeta {
                    code: match res.code {
                        Some(v) => v,
                        None => 0,
                    },
                    headers: HttpHeaders(res.headers),
                    reason: or_unknown(res.reason),
                    version: match res.version {
                        Some(v) => v,
                        None => 0,
                    },
                    body_size: (received_len - res.body_start) as u64,
                    raw_size: received_len as u64,
                },
            },
        ),
        protocol: scap.protocol,
        error: None,
    };
    Ok(FlowArtifacts { meta, request: request_dump, response: response_dump })
}

/// The content of an optional request head.
pub open spec fn view_of_request(r: Option<ParsedRequest>) -> Option<ParsedRequestView> {
    match r {
        Some(p) => Some(p@),
        None => None,
    }
}

/// The content of an optional response head.
pub open spec fn view_of_response(r: Option<ParsedResponse>) -> Option<ParsedResponseView> {
    match r {
        Some(p) => Some(p@),
        None => None,
    }
}

/// Reads the buffers of an HTTP flow as HTTP: the head of the request is
/// read from the client's bytes and the head of the response from the
/// server's, each with room for [`MAX_HEADERS`] headers, and the artifacts
/// are those of [`http_artifacts`].
pub fn process_scap_entry_wrapper(scap: ScapEntry) -> (r: Result<FlowArtifacts, Error>)
    ensures
        match r {
            Ok(a) => Ok::<FlowArtifactsView, ErrorView>(a@) == spec_http_artifacts(
                scap@,
                http_request_head(scap.send@, MAX_HEADERS),
                http_response_head(scap.received@, MAX_HEADERS),
            ),
            Err(e) => Err::<FlowArtifactsView, ErrorView>(e@) == spec_http_artifacts(
                scap@,
                http_request_head(scap.send@, MAX_HEADERS),
                http_response_head(scap.received@, MAX_HEADERS),
            ),
        },
{
    let request = parse_request(scap.send.as_slice(), MAX_HEADERS);
    let response = parse_response(scap.received.as_slice(), MAX_HEADERS);
    http_artifacts(scap, request, response)
}

/// Turns the buffers of an HTTP flow into what is written out for it. A
/// flow that cannot be read as HTTP is not lost: its metadata record is
/// written with the reason, and without a dump.
pub fn process_scap_entry(scap: ScapEntry) -> (a: FlowArtifacts)
    ensures
        a@ == spec_http_or_error(
            scap@,
            http_request_head(scap.send@, MAX_HEADERS),
            http_response_head(scap.received@, MAX_HEADERS),
        ),
{
    let address = scap.address;
    let protocol = scap.protocol;
    match process_scap_entry_wrapper(scap) {
        Ok(v) => v,
        Err(e) => FlowArtifacts {
            meta: FileMetadata {
                address,
                meta: ScapProtocolMeta::Tcp(ScapTcpMeta {  }),
                protocol,
                error: Some(e.message),
            },
            request: None,
            response: None,
        },
    }
}

} // verus!
