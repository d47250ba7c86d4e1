//! What is written out for a flow: its metadata and its byte dumps.

use crate::proxy::scap::common::{ScapAddresses, ScapProtocol};
use crate::text::{from_utf8_lossy, utf8_lossy};
use vstd::prelude::*;

verus! {

/// A header of an HTTP message.
#[derive(Debug, Clone)]
pub struct Header {
    pub name: String,
    pub value: Vec<u8>,
}

/// The headers of an HTTP message, in the order of the message.
#[derive(Debug, Clone)]
pub struct HttpHeaders(pub Vec<Header>);

/// Metadata of the request half of an HTTP flow.
#[derive(Debug, Clone)]
pub struct ScapHttpReqMeta {
    pub method: String,
    pub version: u8,
    pub path: String,
    pub headers: HttpHeaders,
    /// Count of bytes behind the head of the request.
    pub body_size: u64,
    /// Count of bytes of the request.
    pub raw_size: u64,
}

/// Metadata of the response half of an HTTP flow.
#[derive(Debug, Clone)]
pub struct ScapHttpResMeta {
    pub reason: String,
    pub code: u16,
    pub version: u8,
    pub headers: HttpHeaders,
    /// Count of bytes behind the head of the response.
    pub body_size: u64,
    /// Count of bytes of the response.
    pub raw_size: u64,
}

/// Metadata of an HTTP flow.
#[derive(Debug, Clone)]
pub struct ScapHttpMeta {
    pub request: ScapHttpReqMeta,
    pub response: ScapHttpResMeta,
}

/// Metadata of a flow that is dumped as it is.
#[derive(Debug, Clone)]
pub struct ScapTcpMeta {}

/// Metadata by kind of flow.
#[derive(Debug, Clone)]
pub enum ScapProtocolMeta {
    Http(ScapHttpMeta),
    Tcp(ScapTcpMeta),
}

/// The metadata record of a flow.
#[derive(Debug, Clone)]
pub struct FileMetadata {
    pub address: ScapAddresses,
    pub protocol: ScapProtocol,
    pub meta: ScapProtocolMeta,
    /// Why the flow could not be read as its protocol, if it could not.
    pub error: Option<String>,
}

/// Everything that is written out for a flow.
#[derive(Debug, Clone)]
pub struct FlowArtifacts {
    /// The metadata record.
    pub meta: FileMetadata,
    /// The dump of the client's bytes, if one is written.
    pub request: Option<Vec<u8>>,
    /// The dump of the server's bytes, if one is written.
    pub response: Option<Vec<u8>>,
}

/// Mathematical content of [`HttpHeaders`]: name and value of each header.
pub type HeadersView = Seq<(Seq<char>, Seq<u8>)>;

impl View for Header {
    type V = (Seq<char>, Seq<u8>);

    open spec fn view(&self) -> (Seq<char>, Seq<u8>) {
        (self.name@, self.value@)
    }
}

/// The content of each header of a list.
pub open spec fn headers_view(headers: Seq<Header>) -> HeadersView {
    Seq::new(headers.len(), |i: int| headers[i]@)
}

impl View for HttpHeaders {
    type V = HeadersView;

    open spec fn view(&self) -> HeadersView {
        headers_view(self.0@)
    }
}

/// Mathematical content of a [`ScapHttpReqMeta`].
pub struct ScapHttpReqMetaView {
    pub method: Seq<char>,
    pub version: u8,
    pub path: Seq<char>,
    pub headers: HeadersView,
    pub body_size: u64,
    pub raw_size: u64,
}

/// Mathematical content of a [`ScapHttpResMeta`].
pub struct ScapHttpResMetaView {
    pub reason: Seq<char>,
    pub code: u16,
    pub version: u8,
    pub headers: HeadersView,
    pub body_size: u64,
    pub raw_size: u64,
}

/// Mathematical content of a [`ScapProtocolMeta`].
pub enum ScapProtocolMetaView {
    Http { request: ScapHttpReqMetaView, response: ScapHttpResMetaView },
    Tcp,
}

/// Mathematical content of a [`FileMetadata`].
pub struct FileMetadataView {
    pub address: ScapAddresses,
    pub protocol: ScapProtocol,
    pub meta: ScapProtocolMetaView,
    pub error: Option<Seq<char>>,
}

/// Mathematical content of [`FlowArtifacts`].
pub struct FlowArtifactsView {
    pub meta: FileMetadataView,
    pub request: Option<Seq<u8>>,
    pub response: Option<Seq<u8>>,
}

impl View for ScapHttpReqMeta {
    type V = ScapHttpReqMetaView;

    open spec fn view(&self) -> ScapHttpReqMetaView {
        ScapHttpReqMetaView {
            method: self.method@,
            version: self.version,
            path: self.path@,
            headers: self.headers@,
            body_size: self.body_size,
            raw_size: self.raw_size,
        }
    }
}

impl View for ScapHttpResMeta {
    type V = ScapHttpResMetaView;

    open spec fn view(&self) -> ScapHttpResMetaView {
        ScapHttpResMetaView {
            reason: self.reason@,
            code: self.code,
            version: self.version,
            headers: self.headers@,
            body_size: self.body_size,
            raw_size: self.raw_size,
        }
    }
}

impl View for ScapProtocolMeta {
    type V = ScapProtocolMetaView;

    open spec fn view(&self) -> ScapProtocolMetaView {
        match *self {
            ScapProtocolMeta::Http(h) => ScapProtocolMetaView::Http {
                request: h.request@,
                response: h.response@,
            },
            ScapProtocolMeta::Tcp(_) => ScapProtocolMetaView::Tcp,
        }
    }
}

impl View for FileMetadata {
    type V = FileMetadataView;

    open spec fn view(&self) -> FileMetadataView {
        FileMetadataView {
            address: self.address,
            protocol: self.protocol,
            meta: self.meta@,
            error: match self.error {
                Some(e) => Some(e@),
                None => None,
            },
        }
    }
}

impl View for FlowArtifacts {
    type V = FlowArtifactsView;

    open spec fn view(&self) -> FlowArtifactsView {
        FlowArtifactsView {
            meta: self.meta@,
            request: match self.request {
                Some(b) => Some(b@),
                None => None,
            },
            response: match self.response {
                Some(b) => Some(b@),
                None => None,
            },
        }
    }
}

impl Header {
    /// The header with this name and value.
    pub fn new(name: &str, value: &[u8]) -> (h: Header)
        ensures
            h@ == (name@, value@),
    {
        Header { name: name.to_owned(), value: vstd::slice::slice_to_vec(value) }
    }
}

impl HttpHeaders {
    /// Count of headers that are listed in the metadata: those before the
    /// first header whose name or value is empty.
    pub open spec fn listed(&self) -> nat
        decreases self.0@.len(),
    {
        Self::listed_of(self.0@)
    }

    /// Count of headers of `headers` before the first whose name or value
    /// is empty.
    pub open spec fn listed_of(headers: Seq<Header>) -> nat
        decreases headers.len(),
    {
        if headers.len() == 0 || headers[0].name@.len() == 0 || headers[0].value@.len() == 0 {
            0
        } else {
            1 + Self::listed_of(headers.drop_first())
        }
    }

    /// The headers as the metadata lists them: name and value of each
    /// header, the value as text, up to the first header whose name or
    /// value is empty.
    pub fn entries(&self) -> (list: Vec<(String, String)>)
        ensures
            list@.len() == self.listed(),
            list@.len() <= self.0@.len(),
            forall|i: int|
                0 <= i < list@.len() ==> (#[trigger] list@[i]).0@ == self.0@[i].name@ && list@[i].1@
                    == utf8_lossy(self.0@[i].value@),
    {
        let mut list: Vec<(String, String)> = Vec::new();
        let mut i: usize = 0;
        assert(self.0@.subrange(0, self.0@.len() as int) =~= self.0@);
        while i < self.0.len()
            invariant
                i <= self.0@.len(),
                list@.len() == i,
                Self::listed_of(self.0@) == i + Self::listed_of(
                    self.0@.subrange(i as int, self.0@.len() as int),
                ),
                forall|k: int|
                    0 <= k < i ==> (#[trigger] list@[k]).0@ == self.0@[k].name@ && list@[k].1@
                        == utf8_lossy(self.0@[k].value@),
            decreases self.0@.len() - i,
        {
            let header = &self.0[i];
            let ghost rest = self.0@.subrange(i as int, self.0@.len() as int);
            assert(rest[0] == self.0@[i as int]);
            if header.name.as_str().is_empty() || header.value.len() == 0 {
                return list;
            }
            proof {
                assert(rest.drop_first() =~= self.0@.subrange(i + 1, self.0@.len() as int));
            }
            list.push((header.name.clone(), from_utf8_lossy(header.value.as_slice())));
            i += 1;
        }
        list
    }
}

} // verus!
