//! The stores of root CAs, intermediates and forged leaf certificates.

use crate::bytemap::ByteMap;
use crate::error::{Error, ErrorKind};
use crate::proxy::tls::resolv::params_self_signed;
use crate::proxy::tls::{
    cert_params, certificate_issuer, certificate_key_id, certificate_view, chars_of,
    certificate_der, common_name_of_params, issuer_of, params_common_name, params_from_der,
    parsed_params, public_key_of, IssuerView, ParamsView,
};
use crate::text::{bytes_end_with, ends_with, eq_bytes, push_str, string_from_utf8};
use rcgen::{Certificate, KeyPair};
use rustls_pki_types::pem::PemObject;
use rustls_pki_types::CertificateDer;
use std::sync::Arc;
use vstd::prelude::*;
use vstd::slice::slice_to_vec;
use vstd::utf8::{decode_utf8, encode_utf8, encode_utf8_decode_utf8, valid_utf8};

verus! {

/// A CA certificate with the key pair that signs for it.
pub struct CaEntry {
    pub cert: Arc<Certificate>,
    pub key: Arc<KeyPair>,
}

/// A forged leaf certificate with its key pair and the chain that is
/// presented for it.
pub struct CertifiedKey {
    /// The certificates in DER, leaf first, then the intermediates up to
    /// but not including the root.
    pub chain: Vec<Vec<u8>>,
    pub cert: Arc<Certificate>,
    pub key: Arc<KeyPair>,
}

/// `Arc::clone` of std for a certificate: another handle on the same
/// certificate.
#[verifier::external_body]
pub(crate) fn share_cert(cert: &Arc<Certificate>) -> (r: Arc<Certificate>)
    ensures
        r == *cert,
{
    cert.clone()
}

/// `Arc::clone` of std for a key pair: another handle on the same key
/// pair.
#[verifier::external_body]
pub(crate) fn share_key(key: &Arc<KeyPair>) -> (r: Arc<KeyPair>)
    ensures
        r == *key,
{
    key.clone()
}

/// The DER of the first certificate in the PEM text `pem`, as
/// `rustls_pki_types::CertificateDer::from_pem_slice` decodes it. None for
/// text that holds no certificate.
pub uninterp spec fn pem_certificate(pem: Seq<u8>) -> Option<Seq<u8>>;

/// `rustls_pki_types::CertificateDer::from_pem_slice`: the DER of the
/// first certificate in the PEM text `pem`, if it holds one. What is
/// decoded depends on the text alone.
#[verifier::external_body]
pub(crate) fn certificate_from_pem(pem: &[u8]) -> (der: Option<Vec<u8>>)
    ensures
        match der {
            Some(d) => Some(d@) == pem_certificate(pem@),
            None => pem_certificate(pem@) is None,
        },
{
    CertificateDer::from_pem_slice(pem).ok().map(|c| c.to_vec())
}

/// Whether the PEM text `pem` holds a key pair that
/// `rcgen::KeyPair::from_pem` can read.
pub uninterp spec fn pem_holds_key(pem: Seq<char>) -> bool;

/// `rcgen::KeyPair::from_pem`: the key pair in the PEM text `pem`, if it
/// holds one. Whether it does depends on the text alone.
#[verifier::external_body]
pub(crate) fn key_from_pem(pem: &str) -> (key: Option<KeyPair>)
    ensures
        key is Some <==> pem_holds_key(pem@),
{
    KeyPair::from_pem(pem).ok()
}

/// `rcgen::Certificate::key_identifier`: the subject key identifier of
/// `cert`.
#[verifier::external_body]
pub(crate) fn cert_key_identifier(cert: &Certificate) -> (id: Vec<u8>)
    ensures
        id@ == certificate_key_id(*cert),
{
    cert.key_identifier()
}

impl CaEntry {
    /// Another handle on the same certificate and key pair.
    pub fn duplicate(&self) -> (e: CaEntry)
        ensures
            e == *self,
    {
        CaEntry { cert: share_cert(&self.cert), key: share_key(&self.key) }
    }
}

impl CertifiedKey {
    /// The chain as a sequence of certificates.
    pub open spec fn chain_view(&self) -> Seq<Seq<u8>> {
        Seq::new(self.chain@.len(), |i: int| self.chain@[i]@)
    }

    /// Another handle on the same certificate and key pair, with a copy of
    /// the chain.
    pub fn duplicate(&self) -> (e: CertifiedKey)
        ensures
            e.cert == self.cert,
            e.key == self.key,
            e.chain_view() == self.chain_view(),
    {
        let mut chain: Vec<Vec<u8>> = Vec::new();
        let mut i: usize = 0;
        while i < self.chain.len()
            invariant
                i <= self.chain@.len(),
                chain@.len() == i,
                forall|k: int| 0 <= k < i ==> chain@[k]@ == self.chain@[k]@,
            decreases self.chain@.len() - i,
        {
            chain.push(slice_to_vec(self.chain[i].as_slice()));
            i += 1;
        }
        let e = CertifiedKey { chain, cert: share_cert(&self.cert), key: share_key(&self.key) };
        assert(e.chain_view() =~= self.chain_view());
        e
    }

    /// The leaf certificate in DER, if the chain is not empty.
    pub fn end_entity_cert(&self) -> (leaf: Option<&Vec<u8>>)
        ensures
            match leaf {
                Some(l) => self.chain@.len() > 0 && *l == self.chain@[0],
                None => self.chain@.len() == 0,
            },
    {
        if self.chain.len() > 0 {
            Some(&self.chain[0])
        } else {
            None
        }
    }
}

/// Stores end certificates: by the name that they were forged for and by
/// the DER of their leaf.
pub struct CertDb {
    /// By the UTF-8 bytes of the name.
    pub idx_name: ByteMap<CertifiedKey>,
    /// By the DER of the leaf.
    pub idx_hash: ByteMap<CertifiedKey>,
}

impl CertDb {
    pub open spec fn wf(&self) -> bool {
        self.idx_name.wf() && self.idx_hash.wf()
    }

    /// The certificates by name.
    pub open spec fn by_name(&self) -> Map<Seq<u8>, CertifiedKey> {
        self.idx_name.map()
    }

    /// The certificates by the DER of their leaf.
    pub open spec fn by_hash(&self) -> Map<Seq<u8>, CertifiedKey> {
        self.idx_hash.map()
    }

    /// The empty store.
    pub fn new() -> (db: CertDb)
        ensures
            db.wf(),
            db.by_name() == Map::<Seq<u8>, CertifiedKey>::empty(),
            db.by_hash() == Map::<Seq<u8>, CertifiedKey>::empty(),
    {
        CertDb { idx_hash: ByteMap::new(), idx_name: ByteMap::new() }
    }

    /// Whether a certificate was forged for `name`.
    pub fn contains_name(&self, name: &str) -> (b: bool)
        requires
            self.wf(),
        ensures
            b == self.by_name().contains_key(encode_utf8(name@)),
    {
        self.idx_name.contains_key(name.as_bytes())
    }

    /// Whether a certificate with the leaf `cert`, in DER, is stored.
    pub fn contains_cert(&self, cert: &[u8]) -> (b: bool)
        requires
            self.wf(),
        ensures
            b == self.by_hash().contains_key(cert@),
    {
        self.idx_hash.contains_key(cert)
    }

    /// The certificate that was forged for `name`.
    pub fn get_by_name(&self, name: &str) -> (r: Option<CertifiedKey>)
        requires
            self.wf(),
        ensures
            match r {
                Some(c) => self.by_name().contains_key(encode_utf8(name@)) && same_certified_key(
                    c,
                    self.by_name()[encode_utf8(name@)],
                ),
                None => !self.by_name().contains_key(encode_utf8(name@)),
            },
    {
        match self.idx_name.get(name.as_bytes()) {
            Some(v) => Some(v.duplicate()),
            None => None,
        }
    }

    /// The certificate with the leaf `data`, in DER.
    pub fn get_by_hash(&self, data: &[u8]) -> (r: Option<CertifiedKey>)
        requires
            self.wf(),
        ensures
            match r {
                Some(c) => self.by_hash().contains_key(data@) && same_certified_key(
                    c,
                    self.by_hash()[data@],
                ),
                None => !self.by_hash().contains_key(data@),
            },
    {
        match self.idx_hash.get(data) {
            Some(v) => Some(v.duplicate()),
            None => None,
        }
    }

    /// Stores `cert` as the certificate for `name`, in place of any that
    /// was stored for it, and under the DER of its leaf if it has one.
    pub fn insert(&mut self, name: String, cert: CertifiedKey)
        requires
            old(self).wf(),
        ensures
            final(self).wf(),
            final(self).by_name().dom() == old(self).by_name().dom().insert(encode_utf8(name@)),
            same_certified_key(final(self).by_name()[encode_utf8(name@)], cert),
            forall|k: Seq<u8>|
                k != encode_utf8(name@) && old(self).by_name().contains_key(k) ==> final(self).by_name()[k] == old(self).by_name()[k],
            cert.chain@.len() == 0 ==> final(self).by_hash() == old(self).by_hash(),
            cert.chain@.len() > 0 ==> final(self).by_hash() == old(self).by_hash().insert(
                cert.chain@[0]@,
                cert,
            ),
    {
        let key = slice_to_vec(name.as_str().as_bytes());
        let copy = cert.duplicate();
        let ghost target = self.by_name().insert(key@, copy);
        self.idx_name.insert(key, copy);
        assert(self.by_name() == target);
        assert(self.by_name().dom() =~= old(self).by_name().dom().insert(encode_utf8(name@)));
        let leaf = match cert.end_entity_cert() {
            Some(v) => Some(slice_to_vec(v.as_slice())),
            None => None,
        };
        match leaf {
            Some(der) => {
                self.idx_hash.insert(der, cert);
            },
            None => {},
        }
    }
}

/// Whether two stored certificates are the same: the same certificate and
/// key pair, presented with the same chain.
pub open spec fn same_certified_key(a: CertifiedKey, b: CertifiedKey) -> bool {
    a.cert == b.cert && a.key == b.key && a.chain_view() == b.chain_view()
}

/// What the certificate of the CA `e` holds.
pub open spec fn entry_params(e: CaEntry) -> ParamsView {
    certificate_view(*e.cert)
}

/// The key identifier of the CA `e`.
pub open spec fn entry_key_id(e: CaEntry) -> Seq<u8> {
    certificate_key_id(*e.cert)
}

/// The certificate of the CA `e` in DER.
pub open spec fn entry_der(e: CaEntry) -> Seq<u8> {
    certificate_der(*e.cert)
}

/// The issuer that the certificate of the CA `e` names.
pub open spec fn entry_issuer(e: CaEntry) -> IssuerView {
    certificate_issuer(*e.cert)
}

/// The issuer that the CA `e` is when it signs.
pub open spec fn issuing(e: CaEntry) -> IssuerView {
    issuer_of(certificate_view(*e.cert), public_key_of(*e.key))
}

/// Whether the subject of the CA `e` is named by the text whose UTF-8
/// bytes are `k`.
pub open spec fn named_as(e: CaEntry, k: Seq<u8>) -> bool {
    params_common_name(certificate_view(*e.cert)) matches Some(cn) && encode_utf8(cn) == k
}

/// The index by name after the CA `e`, whose certificate holds `p`, is
/// stored: `e` stands under the name of its subject, if that has one.
pub open spec fn named_insert(names: Map<Seq<u8>, CaEntry>, p: ParamsView, e: CaEntry) -> Map<
    Seq<u8>,
    CaEntry,
> {
    match params_common_name(p) {
        Some(cn) => names.insert(encode_utf8(cn), e),
        None => names,
    }
}

/// Stores CA certificates: by the name of their subject and by their key
/// identifier.
pub struct CaDb {
    /// By the UTF-8 bytes of the subject's name.
    pub idx_name: ByteMap<CaEntry>,
    /// By the key identifier.
    pub idx_hash: ByteMap<CaEntry>,
    /// What the store is called in the log.
    pub name: String,
}

impl CaDb {
    /// The store is consistent: each CA stands under the name of its own
    /// subject and under its own key identifier.
    pub open spec fn wf(&self) -> bool {
        &&& self.idx_name.wf()
        &&& self.idx_hash.wf()
        &&& forall|k: Seq<u8>| #[trigger]
            self.by_name().contains_key(k) ==> named_as(self.by_name()[k], k)
        &&& forall|k: Seq<u8>| #[trigger]
            self.by_hash().contains_key(k) ==> certificate_key_id(*self.by_hash()[k].cert) == k
    }

    /// The CAs by name.
    pub open spec fn by_name(&self) -> Map<Seq<u8>, CaEntry> {
        self.idx_name.map()
    }

    /// The CAs by key identifier.
    pub open spec fn by_hash(&self) -> Map<Seq<u8>, CaEntry> {
        self.idx_hash.map()
    }

    /// Whether `entry` is one of the stored CAs.
    pub open spec fn holds(&self, entry: CaEntry) -> bool {
        self.by_name().values().contains(entry) || self.by_hash().values().contains(entry)
    }

    /// Whether the store is `before` with the CA `e` stored in it: under
    /// its key identifier and, if its subject has a name, under that name,
    /// in place of what stood under either.
    pub open spec fn stored_in(&self, before: &CaDb, e: CaEntry) -> bool {
        &&& self.name == before.name
        &&& self.by_hash() == before.by_hash().insert(certificate_key_id(*e.cert), e)
        &&& self.by_name() == named_insert(before.by_name(), certificate_view(*e.cert), e)
    }

    /// The empty store called `name`.
    pub fn new(name: String) -> (db: CaDb)
        ensures
            db.wf(),
            db.name == name,
            db.by_name() == Map::<Seq<u8>, CaEntry>::empty(),
            db.by_hash() == Map::<Seq<u8>, CaEntry>::empty(),
    {
        CaDb { name, idx_hash: ByteMap::new(), idx_name: ByteMap::new() }
    }

    /// Whether a CA named `name` is stored.
    pub fn contains_name(&self, name: &str) -> (b: bool)
        requires
            self.wf(),
        ensures
            b == self.by_name().contains_key(encode_utf8(name@)),
    {
        self.idx_name.contains_key(name.as_bytes())
    }

    /// Whether a CA with the key identifier `cert` is stored.
    pub fn contains_cert(&self, cert: &[u8]) -> (b: bool)
        requires
            self.wf(),
        ensures
            b == self.by_hash().contains_key(cert@),
    {
        self.idx_hash.contains_key(cert)
    }

    /// The CA named `name`: the CA that was last stored with a subject of
    /// that name.
    pub fn get_by_name(&self, name: &str) -> (r: Option<CaEntry>)
        requires
            self.wf(),
        ensures
            match r {
                Some(c) => self.by_name().contains_key(encode_utf8(name@)) && c
                    == self.by_name()[encode_utf8(name@)] && self.holds(c) && params_common_name(
                    certificate_view(*c.cert),
                ) == Some(name@),
                None => !self.by_name().contains_key(encode_utf8(name@)),
            },
    {
        match self.idx_name.get(name.as_bytes()) {
            Some(v) => {
                proof {
                    let k = encode_utf8(name@);
                    assert(self.by_name().contains_key(k));
                    let cn = params_common_name(entry_params(self.by_name()[k]))->0;
                    encode_utf8_decode_utf8(cn);
                    encode_utf8_decode_utf8(name@);
                }
                Some(v.duplicate())
            },
            None => None,
        }
    }

    /// The CA with the key identifier `data`: the CA that was last stored
    /// with that key identifier.
    pub fn get_by_hash(&self, data: &[u8]) -> (r: Option<CaEntry>)
        requires
            self.wf(),
        ensures
            match r {
                Some(c) => self.by_hash().contains_key(data@) && c == self.by_hash()[data@]
                    && self.holds(c) && certificate_key_id(*c.cert) == data@,
                None => !self.by_hash().contains_key(data@),
            },
    {
        match self.idx_hash.get(data) {
            Some(v) => Some(v.duplicate()),
            None => None,
        }
    }

    /// Stores a CA under the name `name` of its subject, if it has one, and
    /// under its key identifier `key_id`, in place of what was stored under
    /// either.
    fn insert_as(&mut self, name: Option<String>, key_id: Vec<u8>, entry: CaEntry) -> (replaced:
        bool)
        requires
            old(self).wf(),
            key_id@ == certificate_key_id(*entry.cert),
            chars_of(name) == params_common_name(certificate_view(*entry.cert)),
        ensures
            final(self).wf(),
            final(self).stored_in(old(self), entry),
            replaced == (name is Some && old(self).by_name().contains_key(encode_utf8(name->0@))),
    {
        let ghost named = if name is Some {
            encode_utf8(name->0@)
        } else {
            Seq::empty()
        };
        let ghost id = key_id@;
        let replaced = match name {
            Some(n) => {
                let key = slice_to_vec(n.as_str().as_bytes());
                self.idx_name.insert(key, entry.duplicate()).is_some()
            },
            None => false,
        };
        self.idx_hash.insert(key_id, entry);
        proof {
            assert forall|k: Seq<u8>| #[trigger] self.by_name().contains_key(k) implies named_as(
                self.by_name()[k],
                k,
            ) by {
                if name is None || k != named {
                    assert(old(self).by_name().contains_key(k));
                }
            }
            assert forall|k: Seq<u8>| #[trigger]
                self.by_hash().contains_key(k) implies entry_key_id(self.by_hash()[k]) == k by {
                if k != id {
                    assert(old(self).by_hash().contains_key(k));
                }
            }
        }
        replaced
    }

    /// Stores the CA `cert` with its key pair `key`: under the name of its
    /// subject, if that has one, and under its key identifier. What was
    /// stored under either is replaced; the result says whether a CA of
    /// the same name was.
    pub fn insert(&mut self, cert: Arc<Certificate>, key: Arc<KeyPair>) -> (replaced: bool)
        requires
            old(self).wf(),
        ensures
            final(self).wf(),
            final(self).stored_in(old(self), CaEntry { cert, key }),
            final(self).holds(CaEntry { cert, key }),
            replaced == (params_common_name(certificate_view(*cert)) matches Some(cn) && old(self).by_name().contains_key(encode_utf8(cn))),
    {
        let name = common_name_of_params(cert_params(&cert));
        let key_id = cert_key_identifier(&cert);
        let entry = CaEntry { cert, key };
        let ghost id = key_id@;
        let replaced = self.insert_as(name, key_id, entry);
        assert(self.by_hash().contains_key(id));
        assert(self.by_hash()[id] == entry);
        assert(self.by_hash().values().contains(entry));
        replaced
    }
}

/// A file of the directory of root CAs.
pub struct CaFile {
    /// The name of the file.
    pub name: String,
    /// The name of the file without its extension.
    pub stem: String,
    pub contents: Vec<u8>,
}

/// One of the two files of a CA.
#[derive(Clone, Copy, Debug, PartialEq, Eq, Structural)]
pub enum PairPart {
    /// The file of the certificate.
    Certificate,
    /// The file of the key.
    Key,
}

/// The bytes of `.pem`.
pub open spec fn pem_extension() -> Seq<u8> {
    seq![0x2eu8, 0x70u8, 0x65u8, 0x6du8]
}

/// The bytes of `.key`.
pub open spec fn key_extension() -> Seq<u8> {
    seq![0x2eu8, 0x6bu8, 0x65u8, 0x79u8]
}

/// Whether a file is named as a certificate: its name ends in `.pem`.
pub open spec fn is_cert_file(f: &CaFile) -> bool {
    ends_with(encode_utf8(f.name@), pem_extension())
}

/// Whether `k` is the key file of the certificate file `f`: it is named
/// by the stem of `f` and `.key`.
pub open spec fn is_key_of(k: &CaFile, f: &CaFile) -> bool {
    encode_utf8(k.name@) == encode_utf8(f.stem@) + key_extension()
}

/// Whether the certificate file at `i` has a key file among `files`.
pub open spec fn has_key_file(files: Seq<CaFile>, i: int) -> bool {
    exists|j: int| 0 <= j < files.len() && is_key_of(&#[trigger] files[j], &files[i])
}

/// Whether the file at `j` is the key file that is read for the
/// certificate file at `i`: the first of `files` that is named as its key
/// file.
pub open spec fn is_first_key_of(files: Seq<CaFile>, j: int, i: int) -> bool {
    &&& 0 <= j < files.len()
    &&& 0 <= i < files.len()
    &&& is_key_of(&files[j], &files[i])
    &&& forall|k: int| 0 <= k < j ==> !is_key_of(&#[trigger] files[k], &files[i])
}

/// Whether the file at `i` is the certificate of a pair: it is named as a
/// certificate and has a key file.
pub open spec fn is_pair(files: Seq<CaFile>, i: int) -> bool {
    0 <= i < files.len() && is_cert_file(&files[i]) && has_key_file(files, i)
}

/// What the certificate in the PEM text `cert_pem` holds; none if the text
/// holds no certificate or one that cannot be read.
pub open spec fn pem_params(cert_pem: Seq<u8>) -> Option<ParamsView> {
    match pem_certificate(cert_pem) {
        Some(der) => parsed_params(der),
        None => None,
    }
}

/// The part of a pair that bars it from being taken in, whatever else
/// happens: the certificate, if its text holds no certificate or one that
/// cannot be read; else the key, if its text is not UTF-8 or holds no key
/// pair.
pub open spec fn unreadable_part(cert_pem: Seq<u8>, key_pem: Seq<u8>) -> Option<PairPart> {
    if pem_params(cert_pem) is None {
        Some(PairPart::Certificate)
    } else if !valid_utf8(key_pem) || !pem_holds_key(decode_utf8(key_pem)) {
        Some(PairPart::Key)
    } else {
        None
    }
}

/// Whether the pair of the certificate file at `i` cannot be taken in.
pub open spec fn unreadable_pair(files: Seq<CaFile>, i: int) -> bool {
    is_pair(files, i) && exists|j: int| #[trigger]
        is_first_key_of(files, j, i) && unreadable_part(files[i].contents@, files[j].contents@)
            is Some
}

/// Whether the CA `e` comes from a pair of `files`: its certificate holds
/// what the certificate of the pair holds.
pub open spec fn from_pair(files: Seq<CaFile>, e: CaEntry) -> bool {
    exists|i: int| #[trigger]
        is_pair(files, i) && pem_params(files[i].contents@) == Some(certificate_view(*e.cert))
}

/// The error of a file that holds no usable certificate or key.
pub fn invalid_certificate(path: &str) -> (e: Error)
    ensures
        e.kind == ErrorKind::InvalidData,
        e.message@ == "Invalid certificate "@ + path@,
{
    let mut e = Error::new(ErrorKind::InvalidData, "Invalid certificate ");
    push_str(&mut e.message, path);
    e
}

/// The key file of the certificate file at `i`: the first of `files` that
/// is named by the stem of that file and `.key`.
pub fn find_key_file(files: &Vec<CaFile>, i: usize) -> (r: Option<usize>)
    requires
        i < files@.len(),
    ensures
        match r {
            Some(j) => is_first_key_of(files@, j as int, i as int),
            None => !has_key_file(files@, i as int),
        },
{
    let cert = &files[i];
    let mut wanted = slice_to_vec(cert.stem.as_str().as_bytes());
    wanted.push(0x2eu8);
    wanted.push(0x6bu8);
    wanted.push(0x65u8);
    wanted.push(0x79u8);
    assert(wanted@ =~= encode_utf8(cert.stem@) + key_extension());
    let mut j: usize = 0;
    while j < files.len()
        invariant
            j <= files@.len(),
            i < files@.len(),
            wanted@ == encode_utf8(files@[i as int].stem@) + key_extension(),
            forall|k: int| 0 <= k < j ==> !is_key_of(&#[trigger] files@[k], &files@[i as int]),
        decreases files@.len() - j,
    {
        if eq_bytes(files[j].name.as_str().as_bytes(), wanted.as_slice()) {
            return Some(j);
        }
        j += 1;
    }
    None
}

/// Only one file is the first key file of a certificate file.
pub proof fn lemma_first_key_unique(files: Seq<CaFile>, a: int, b: int, i: int)
    requires
        is_first_key_of(files, a, i),
        is_first_key_of(files, b, i),
    ensures
        a == b,
{
    if a < b {
        assert(!is_key_of(&files[a], &files[i]));
    }
    if b < a {
        assert(!is_key_of(&files[b], &files[i]));
    }
}

impl CaDb {
    /// Whether the store is `before` with the CA `e` taken in from a
    /// certificate that holds `p`: the certificate of `e` holds `p` and is
    /// signed with the key pair of `e`, and `e` is stored.
    pub open spec fn took_in(&self, before: &CaDb, p: ParamsView, e: CaEntry) -> bool {
        &&& certificate_view(*e.cert) == p
        &&& certificate_issuer(*e.cert) == issuer_of(p, public_key_of(*e.key))
        &&& self.stored_in(before, e)
    }

    /// Whether the store holds a CA for a certificate that holds `p`: the
    /// key identifier of such a CA is a key of the store, and so is the
    /// name of its subject, if it has one.
    pub open spec fn holds_params(&self, p: ParamsView) -> bool {
        &&& exists|e: CaEntry| #[trigger] self.keyed_by(e, p)
        &&& params_common_name(p) matches Some(cn) ==> self.by_name().contains_key(encode_utf8(cn))
    }

    /// Whether the certificate of `e` holds `p` and the key identifier of
    /// `e` is a key of the store.
    pub open spec fn keyed_by(&self, e: CaEntry, p: ParamsView) -> bool {
        certificate_view(*e.cert) == p && self.by_hash().contains_key(certificate_key_id(*e.cert))
    }

    /// Whether every CA of the store comes from a pair of `files`.
    pub open spec fn only_from(&self, files: Seq<CaFile>) -> bool {
        &&& forall|k: Seq<u8>| #[trigger]
            self.by_hash().contains_key(k) ==> from_pair(files, self.by_hash()[k])
        &&& forall|k: Seq<u8>| #[trigger]
            self.by_name().contains_key(k) ==> from_pair(files, self.by_name()[k])
    }

    /// Takes a CA into the store from the PEM text of its certificate and
    /// the PEM text of its key: the certificate is signed anew with the
    /// key, which gives a CA that holds what the certificate holds and can
    /// sign.
    ///
    /// A text that holds no certificate, and a certificate that cannot be
    /// read, are the error `InvalidData` that names `cert_path`; a key text
    /// that is not UTF-8 or holds no key, and a certificate that cannot be
    /// signed, are the error `InvalidData` that names `key_path`. On an
    /// error the store is left as it was.
    pub fn load(&mut self, cert_pem: &[u8], key_pem: &[u8], cert_path: &str, key_path: &str) -> (r:
        Result<(), Error>)
        requires
            old(self).wf(),
        ensures
            final(self).wf(),
            final(self).name == old(self).name,
            match r {
                Ok(_) => unreadable_part(cert_pem@, key_pem@) is None && exists|e: CaEntry| #[trigger]
                    final(self).took_in(old(self), pem_params(cert_pem@)->0, e),
                Err(e) => *final(self) == *old(self) && e.kind == ErrorKind::InvalidData && (
                e.message@ == "Invalid certificate "@ + cert_path@ || e.message@
                    == "Invalid certificate "@ + key_path@),
            },
            unreadable_part(cert_pem@, key_pem@) == Some(PairPart::Certificate) ==> r is Err
                && r->Err_0.message@ == "Invalid certificate "@ + cert_path@,
            unreadable_part(cert_pem@, key_pem@) == Some(PairPart::Key) ==> r is Err
                && r->Err_0.message@ == "Invalid certificate "@ + key_path@,
    {
        let cd = match certificate_from_pem(cert_pem) {
            Some(v) => v,
            None => return Err(invalid_certificate(cert_path)),
        };
        let cp = match params_from_der(cd.as_slice()) {
            Some(v) => v,
            None => return Err(invalid_certificate(cert_path)),
        };
        let key_text = match string_from_utf8(key_pem) {
            Some(v) => v,
            None => return Err(invalid_certificate(key_path)),
        };
        let key = match key_from_pem(key_text.as_str()) {
            Some(v) => v,
            None => return Err(invalid_certificate(key_path)),
        };
        let cert = match params_self_signed(cp, &key) {
            Some(v) => v,
            None => return Err(invalid_certificate(key_path)),
        };
        let cert = Arc::new(cert);
        let key = Arc::new(key);
        let ghost entry = CaEntry { cert, key };
        self.insert(cert, key);
        assert(self.took_in(old(self), pem_params(cert_pem@)->0, entry));
        Ok(())
    }

    /// Builds the store called `name` from the files of a directory. Each
    /// file whose name ends in `.pem` and which has a key file, named by
    /// its stem and `.key`, is taken in as by [`Self::load`]; every other
    /// file is skipped. The first pair that cannot be taken in fails the
    /// whole with its error.
    ///
    /// The store that results holds a CA for the certificate of every pair
    /// and no other CA.
    pub fn from_dir(name: String, files: &Vec<CaFile>) -> (r: Result<CaDb, Error>)
        ensures
            (exists|i: int| #[trigger] unreadable_pair(files@, i)) ==> r is Err,
            match r {
                Ok(db) => {
                    &&& db.wf()
                    &&& db.name == name
                    &&& forall|i: int| #[trigger]
                        is_pair(files@, i) ==> pem_params(files@[i].contents@) is Some
                            && db.holds_params(pem_params(files@[i].contents@)->0)
                    &&& db.only_from(files@)
                },
                Err(e) => e.kind == ErrorKind::InvalidData && exists|i: int, j: int|
                    is_pair(files@, i) && #[trigger] is_first_key_of(files@, j, i) && (e.message@
                        == "Invalid certificate "@ + files@[i].name@ || e.message@
                        == "Invalid certificate "@ + files@[j].name@),
            },
    {
        let mut db = CaDb::new(name);
        let suffix: Vec<u8> = vec![0x2eu8, 0x70u8, 0x65u8, 0x6du8];
        assert(suffix@ =~= pem_extension());
        let mut i: usize = 0;
        while i < files.len()
            invariant
                i <= files@.len(),
                db.wf(),
                db.name == name,
                suffix@ == pem_extension(),
                forall|k: int| 0 <= k < i ==> !unreadable_pair(files@, k),
                forall|k: int|
                    0 <= k < i && #[trigger] is_pair(files@, k) ==> pem_params(files@[k].contents@)
                        is Some && db.holds_params(pem_params(files@[k].contents@)->0),
                db.only_from(files@),
            decreases files@.len() - i,
        {
            let file = &files[i];
            let ghost before = db;
            if bytes_end_with(file.name.as_str().as_bytes(), suffix.as_slice()) {
                match Self::key_of_pair(files, i) {
                    Some(j) => {
                        let key_file = &files[j];
                        match db.load(
                            file.contents.as_slice(),
                            key_file.contents.as_slice(),
                            file.name.as_str(),
                            key_file.name.as_str(),
                        ) {
                            Ok(_) => {},
                            Err(e) => {
                                assert(is_pair(files@, i as int) && is_first_key_of(
                                    files@,
                                    j as int,
                                    i as int,
                                ));
                                return Err(e);
                            },
                        }
                        proof {
                            lemma_pair_taken_in(&before, &db, files@, i as int, j as int);
                        }
                    },
                    None => {},
                }
            }
            i += 1;
        }
        proof {
            assert forall|k: int| !(#[trigger] unreadable_pair(files@, k)) by {
                if unreadable_pair(files@, k) {
                    assert(0 <= k < files@.len());
                }
            }
        }
        Ok(db)
    }

    /// The key file of the certificate file at `i`.
    fn key_of_pair(files: &Vec<CaFile>, i: usize) -> (r: Option<usize>)
        requires
            i < files@.len(),
        ensures
            match r {
                Some(j) => is_first_key_of(files@, j as int, i as int) && has_key_file(
                    files@,
                    i as int,
                ),
                None => !has_key_file(files@, i as int),
            },
    {
        find_key_file(files, i)
    }
}

/// Taking in the pair at `i` keeps what the store held of the pairs before
/// it and adds the CA of this pair.
pub proof fn lemma_pair_taken_in(before: &CaDb, after: &CaDb, files: Seq<CaFile>, i: int, j: int)
    requires
        before.wf(),
        after.wf(),
        is_pair(files, i),
        is_first_key_of(files, j, i),
        before.only_from(files),
        unreadable_part(files[i].contents@, files[j].contents@) is None,
        exists|e: CaEntry| #[trigger]
            after.took_in(before, pem_params(files[i].contents@)->0, e),
        forall|k: int| 0 <= k < i ==> !unreadable_pair(files, k),
        forall|k: int|
            0 <= k < i && #[trigger] is_pair(files, k) ==> pem_params(files[k].contents@) is Some
                && before.holds_params(pem_params(files[k].contents@)->0),
    ensures
        after.only_from(files),
        forall|k: int| 0 <= k < i + 1 ==> !unreadable_pair(files, k),
        forall|k: int|
            0 <= k < i + 1 && #[trigger] is_pair(files, k) ==> pem_params(files[k].contents@)
                is Some && after.holds_params(pem_params(files[k].contents@)->0),
{
    let p = pem_params(files[i].contents@)->0;
    let e = choose|e: CaEntry| #[trigger] after.took_in(before, p, e);
    let id = entry_key_id(e);
    assert(after.by_hash() == before.by_hash().insert(id, e));
    assert(from_pair(files, e)) by {
        assert(is_pair(files, i) && pem_params(files[i].contents@) == Some(entry_params(e)));
    }
    assert forall|k: Seq<u8>| #[trigger] after.by_hash().contains_key(k) implies from_pair(
        files,
        after.by_hash()[k],
    ) by {
        if k != id {
            assert(before.by_hash().contains_key(k));
        }
    }
    assert forall|k: Seq<u8>| #[trigger] after.by_name().contains_key(k) implies from_pair(
        files,
        after.by_name()[k],
    ) by {
        match params_common_name(p) {
            Some(cn) => {
                if k != encode_utf8(cn) {
                    assert(before.by_name().contains_key(k));
                }
            },
            None => {
                assert(before.by_name().contains_key(k));
            },
        }
    }
    assert(after.holds_params(p)) by {
        assert(after.keyed_by(e, p));
    }
    assert forall|k: int| 0 <= k < i + 1 && #[trigger] is_pair(files, k) implies pem_params(
        files[k].contents@,
    ) is Some && after.holds_params(pem_params(files[k].contents@)->0) by {
        if k < i {
            let q = pem_params(files[k].contents@)->0;
            assert(before.holds_params(q));
            let w = choose|w: CaEntry| #[trigger] before.keyed_by(w, q);
            assert(after.keyed_by(w, q));
            match params_common_name(q) {
                Some(cn) => {
                    assert(before.by_name().contains_key(encode_utf8(cn)));
                    assert(after.by_name().contains_key(encode_utf8(cn)));
                },
                None => {},
            }
        }
    }
    assert forall|k: int| 0 <= k < i + 1 implies !unreadable_pair(files, k) by {
        if k == i && unreadable_pair(files, k) {
            let j2 = choose|j2: int| #[trigger]
                is_first_key_of(files, j2, i) && unreadable_part(
                    files[i].contents@,
                    files[j2].contents@,
                ) is Some;
            lemma_first_key_unique(files, j, j2, i);
        }
    }
}

} // verus!
