//! Cloning of root CA certificates: each certificate is signed anew with a
//! freshly generated key, so that the clone can stand in for the root.

use crate::proxy::tls::db::{certificate_from_pem, pem_certificate, CaFile};
use crate::proxy::tls::{
    certificate_issuer, certificate_view, issuer_of, parsed_params, public_key_of,
};
use crate::proxy::tls::resolv::clone_ca_cert;
use crate::text::push_str;
use rcgen::{Certificate, KeyPair};
use std::sync::Arc;
use vstd::prelude::*;
use vstd::slice::slice_subrange;

verus! {

/// What became of a certificate file.
pub enum CloneOutcome {
    /// The file looks like PEM but holds no certificate: it is passed over.
    Skipped,
    /// The certificate could not be cloned.
    Failed,
    /// The clone: the certificate, to be written under the name
    /// `cert_file`, and its key pair, to be written under the name
    /// `key_file`.
    Cloned { cert_file: String, cert: Arc<Certificate>, key_file: String, key: KeyPair },
}

/// Whether a byte is ASCII white space: space, tab, line feed, form feed
/// or carriage return.
pub open spec fn is_ascii_space(b: u8) -> bool {
    b == 0x20 || b == 0x09 || b == 0x0a || b == 0x0c || b == 0x0d
}

/// Count of bytes of ASCII white space at the start of `buf`.
pub open spec fn leading_space(buf: Seq<u8>) -> nat
    decreases buf.len(),
{
    if buf.len() == 0 || !is_ascii_space(buf[0]) {
        0
    } else {
        1 + leading_space(buf.subrange(1, buf.len() as int))
    }
}

/// `buf` without the ASCII white space at its start.
pub open spec fn spec_trim_ascii_start(buf: Seq<u8>) -> Seq<u8> {
    buf.subrange(leading_space(buf) as int, buf.len() as int)
}

/// `buf` without the ASCII white space at its start.
pub fn trim_ascii_start(buf: &[u8]) -> (r: &[u8])
    ensures
        r@ == spec_trim_ascii_start(buf@),
{
    let len: usize = buf.len();
    let mut i: usize = 0;
    assert(buf@.subrange(0, len as int) =~= buf@);
    while i < len && (buf[i] == 0x20 || buf[i] == 0x09 || buf[i] == 0x0a || buf[i] == 0x0c
        || buf[i] == 0x0d)
        invariant
            i <= len,
            len == buf@.len(),
            leading_space(buf@) == i + leading_space(buf@.subrange(i as int, len as int)),
        decreases len - i,
    {
        proof {
            let rest = buf@.subrange(i as int, len as int);
            assert(rest[0] == buf@[i as int]);
            assert(rest.subrange(1, rest.len() as int) =~= buf@.subrange(i + 1, len as int));
        }
        i += 1;
    }
    proof {
        let rest = buf@.subrange(i as int, len as int);
        if i < len {
            assert(rest[0] == buf@[i as int]);
        }
    }
    slice_subrange(buf, i, len)
}

/// Whether text looks like PEM: behind the white space at its start it
/// holds at least five bytes, of which the first five are dashes.
pub open spec fn spec_looks_like_pem(buf: Seq<u8>) -> bool {
    let text = spec_trim_ascii_start(buf);
    text.len() >= 5 && forall|i: int| 0 <= i < 5 ==> text[i] == 0x2d
}

/// Whether the contents of a file look like PEM rather than DER.
pub fn looks_like_pem(buf: &[u8]) -> (pem: bool)
    ensures
        pem == spec_looks_like_pem(buf@),
{
    let text = trim_ascii_start(buf);
    if text.len() < 5 {
        return false;
    }
    text[0] == 0x2d && text[1] == 0x2d && text[2] == 0x2d && text[3] == 0x2d && text[4] == 0x2d
}

/// The certificate, in DER, that the contents of a file hold: for
/// contents that look like PEM the first certificate of the PEM text, if
/// there is one; else the contents themselves. The white space at the
/// start of the contents does not count.
pub open spec fn source_certificate(contents: Seq<u8>) -> Option<Seq<u8>> {
    if spec_looks_like_pem(contents) {
        pem_certificate(spec_trim_ascii_start(contents))
    } else {
        Some(spec_trim_ascii_start(contents))
    }
}

/// Whether `outcome` is what cloning the certificate of `file` may come
/// to. The file is passed over if and only if it holds no certificate. A
/// certificate that cannot be read is not cloned. A clone holds what the
/// certificate of the file holds and is signed with its own key pair; it
/// goes out under the stem of the file and `.pem`, its key pair under the
/// stem and `.key`.
pub open spec fn clone_of(file: &CaFile, outcome: CloneOutcome) -> bool {
    &&& outcome is Skipped <==> source_certificate(file.contents@) is None
    &&& (source_certificate(file.contents@) is Some && parsed_params(
        source_certificate(file.contents@)->0,
    ) is None) ==> outcome is Failed
    &&& match outcome {
        CloneOutcome::Cloned { cert_file, cert, key_file, key } => {
            &&& cert_file@ == file.stem@ + ".pem"@
            &&& key_file@ == file.stem@ + ".key"@
            &&& source_certificate(file.contents@) is Some
            &&& Some(certificate_view(*cert)) == parsed_params(source_certificate(file.contents@)->0)
            &&& certificate_issuer(*cert) == issuer_of(certificate_view(*cert), public_key_of(key))
        },
        _ => true,
    }
}

/// Clones the CA certificate of a file. Contents that look like PEM are
/// decoded, and passed over if they hold no certificate; any other
/// contents are taken as DER, behind the white space at their start. The
/// clone holds what the certificate of the file holds and is named by the
/// stem of the file and `.pem`, its key by the stem and `.key`. A
/// certificate that cannot be read is not cloned.
pub fn clone_ca_file(file: &CaFile) -> (r: CloneOutcome)
    ensures
        clone_of(file, r),
{
    let buf_slice = trim_ascii_start(file.contents.as_slice());
    let cloned = if looks_like_pem(file.contents.as_slice()) {
        match certificate_from_pem(buf_slice) {
            Some(der) => clone_ca_cert(der.as_slice()),
            None => return CloneOutcome::Skipped,
        }
    } else {
        clone_ca_cert(buf_slice)
    };
    match cloned {
        Some((new_cert, key)) => {
            let mut cert_file = file.stem.clone();
            push_str(&mut cert_file, ".pem");
            let mut key_file = file.stem.clone();
            push_str(&mut key_file, ".key");
            CloneOutcome::Cloned { cert_file, cert: new_cert, key_file, key }
        },
        None => CloneOutcome::Failed,
    }
}

/// Clones the CA certificates of the files of a directory: one outcome for
/// each file, in the order of the files, each as [`clone_ca_file`] gives
/// it.
pub fn clone_ca_certs(files: &Vec<CaFile>) -> (out: Vec<CloneOutcome>)
    ensures
        out@.len() == files@.len(),
        forall|i: int| 0 <= i < out@.len() ==> clone_of(&files@[i], #[trigger] out@[i]),
{
    let mut out: Vec<CloneOutcome> = Vec::new();
    let mut i: usize = 0;
    while i < files.len()
        invariant
            i <= files@.len(),
            out@.len() == i,
            forall|k: int| 0 <= k < i ==> clone_of(&files@[k], #[trigger] out@[k]),
        decreases files@.len() - i,
    {
        out.push(clone_ca_file(&files[i]));
        i += 1;
    }
    out
}

} // verus!
