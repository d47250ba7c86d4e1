//! Artifacts of a flow that is dumped as it is.

use crate::proxy::scap::common::{ScapEntry, ScapEntryView};
use crate::proxy::scap::file::{
    FileMetadata, FileMetadataView, FlowArtifacts, FlowArtifactsView, ScapProtocolMeta,
    ScapProtocolMetaView, ScapTcpMeta,
};
use vstd::prelude::*;

verus! {

/// The bytes of one half of a flow as they are dumped: none for a half
/// that saw no byte.
pub open spec fn dump_of(half: Seq<u8>) -> Option<Seq<u8>> {
    if half.len() > 0 {
        Some(half)
    } else {
        None
    }
}

/// What is written out for an opaque flow.
pub open spec fn spec_tcp_artifacts(scap: ScapEntryView) -> FlowArtifactsView {
    FlowArtifactsView {
        meta: FileMetadataView {
            address: scap.address,
            protocol: scap.protocol,
            meta: ScapProtocolMetaView::Tcp,
            error: None,
        },
        request: dump_of(scap.send),
        response: dump_of(scap.received),
    }
}

/// The dump of one half of a flow.
pub fn dump(half: Vec<u8>) -> (d: Option<Vec<u8>>)
    ensures
        match d {
            Some(b) => Some(b@) == dump_of(half@),
            None => dump_of(half@) is None,
        },
{
    if half.len() > 0 {
        Some(half)
    } else {
        None
    }
}

/// Turns the buffers of an opaque flow into what is written out for it:
/// the metadata record, the client's bytes as the request dump and the
/// server's bytes as the response dump, each dump only if its half of the
/// flow is not empty.
pub fn process_scap_entry(scap: ScapEntry) -> (a: FlowArtifacts)
    ensures
        a@ == spec_tcp_artifacts(scap@),
{
    let meta = FileMetadata {
        address: scap.address,
        meta: ScapProtocolMeta::Tcp(ScapTcpMeta {  }),
        protocol: scap.protocol,
        error: None,
    };
    FlowArtifacts { meta, request: dump(scap.send), response: dump(scap.received) }
}

} // verus!
