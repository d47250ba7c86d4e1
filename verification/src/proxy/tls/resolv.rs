//! Forging of certificate chains.
//!
//! When a client announces a name for which no certificate is stored, the
//! origin is probed for its chain, and a parallel chain is forged: it is
//! anchored at the local CA that matches a certificate of the probed chain,
//! mirrors the intermediates below it and ends in a leaf for the name.

use crate::proxy::tls::{
    cert_facts, certificate_der, certificate_issuer, certificate_key_id, certificate_view,
    chars_of, common_name_of, issuer_of, params_common_name, params_from_der, params_serial,
    params_view, parsed_params, public_key_of, read_cert_facts, spec_common_name, CaKind,
    CertFactsView, ParamsView,
};
use crate::proxy::tls::db::{
    entry_der, entry_issuer, entry_key_id, entry_params, issuing, same_certified_key, CaDb, CaEntry,
    CertDb, CertifiedKey,
};
use crate::proxy::tls::store::TlsCertStore;
use crate::text::strip_prefix;
use rcgen::{Certificate, CertificateParams, Ia5String, IsCa, KeyPair, SanType};
use std::sync::Arc;
use vstd::prelude::*;
use vstd::utf8::{encode_utf8, encode_utf8_decode_utf8, is_ascii_chars};

verus! {

/// Sets the field `use_authority_key_identifier_extension` of
/// `rcgen::CertificateParams`.
#[verifier::external_body]
pub(crate) fn params_set_authority_key_identifier(params: &mut CertificateParams, enabled: bool)
    ensures
        params_view(*final(params)) == (ParamsView {
            authority_key_identifier: enabled,
            ..params_view(*old(params))
        }),
{
    params.use_authority_key_identifier_extension = enabled;
}

/// Sets the field `is_ca` of `rcgen::CertificateParams` to `IsCa::NoCa`.
#[verifier::external_body]
pub(crate) fn params_clear_ca(params: &mut CertificateParams)
    ensures
        params_view(*final(params)) == (ParamsView { kind: CaKind::NoCa, ..params_view(*old(params)) }),
{
    params.is_ca = IsCa::NoCa;
}

/// `rcgen::Ia5String::try_from` and a push to the field
/// `subject_alt_names` of `rcgen::CertificateParams`: adds `name` as the
/// last of the DNS names. Says whether `name` was added: it is if and only
/// if it is an IA5 string, which is a string of ASCII characters; else
/// nothing changes.
#[verifier::external_body]
pub(crate) fn params_add_dns_name(params: &mut CertificateParams, name: &str) -> (added: bool)
    ensures
        added == is_ascii_chars(name@),
        params_view(*final(params)) == (if added {
            ParamsView {
                dns_names: params_view(*old(params)).dns_names.push(name@),
                ..params_view(*old(params))
            }
        } else {
            params_view(*old(params))
        }),
{
    match Ia5String::try_from(name) {
        Ok(n) => {
            params.subject_alt_names.push(SanType::DnsName(n));
            true
        },
        Err(_) => false,
    }
}

/// `rcgen::KeyPair::generate`: a fresh random key pair, if one could be
/// generated.
#[verifier::external_body]
pub(crate) fn generate_key() -> (key: Option<KeyPair>) {
    KeyPair::generate().ok()
}

/// `rcgen::CertificateParams::signed_by`: the certificate for `params` and
/// the public key of `key`, issued by `issuer` and signed with
/// `issuer_key`, if it could be signed. The certificate keeps the
/// parameters that it was generated from, names the subject of `issuer`
/// as its issuer and is signed with `issuer_key`.
#[verifier::external_body]
pub(crate) fn params_signed_by(
    params: CertificateParams,
    key: &KeyPair,
    issuer: &Certificate,
    issuer_key: &KeyPair,
) -> (cert: Option<Certificate>)
    ensures
        cert matches Some(c) ==> certificate_view(c) == params_view(params) && certificate_issuer(
            c,
        ) == issuer_of(certificate_view(*issuer), public_key_of(*issuer_key)),
{
    params.signed_by(key, issuer, issuer_key).ok()
}

/// `rcgen::CertificateParams::self_signed`: the certificate for `params`
/// signed with its own key `key`, if it could be signed. The certificate
/// keeps the parameters that it was generated from, names its own subject
/// as its issuer and is signed with `key`.
#[verifier::external_body]
pub(crate) fn params_self_signed(params: CertificateParams, key: &KeyPair) -> (cert: Option<
    Certificate,
>)
    ensures
        cert matches Some(c) ==> certificate_view(c) == params_view(params) && certificate_issuer(
            c,
        ) == issuer_of(params_view(params), public_key_of(*key)),
{
    params.self_signed(key).ok()
}

/// `rcgen::Certificate::der`: the certificate in DER.
#[verifier::external_body]
pub(crate) fn cert_der(cert: &Certificate) -> (der: Vec<u8>)
    ensures
        der@ == certificate_der(*cert),
{
    cert.der().to_vec()
}

/// The local CA that matches a certificate which may sign (`kind`), has
/// the serial number `serial` and whose subject is named `name`: the CA
/// whose key identifier is the serial number, else the CA of that name.
/// None for a certificate that may not sign.
pub open spec fn spec_select_ca(
    db: &CaDb,
    kind: CaKind,
    serial: Option<Seq<u8>>,
    name: Option<Seq<char>>,
) -> Option<CaEntry> {
    if !(kind is Ca) {
        None
    } else if serial is Some && db.by_hash().contains_key(serial->0) {
        Some(db.by_hash()[serial->0])
    } else if name is Some && db.by_name().contains_key(encode_utf8(name->0)) {
        Some(db.by_name()[encode_utf8(name->0)])
    } else {
        None
    }
}

/// The view of an optional byte string.
pub open spec fn bytes_of(b: Option<Vec<u8>>) -> Option<Seq<u8>> {
    match b {
        Some(v) => Some(v@),
        None => None,
    }
}

/// The local root CA that matches the certificate with the facts `facts`:
/// see [`spec_select_ca`]. A certificate that cannot be read matches none.
pub open spec fn spec_ca_match(db: &CaDb, facts: Option<CertFactsView>) -> Option<CaEntry> {
    match facts {
        None => None,
        Some(f) => spec_select_ca(
            db,
            f.kind,
            f.serial,
            spec_common_name(f.common_name, f.organizational_unit, f.organization),
        ),
    }
}

/// The stored intermediate that matches the certificate with the facts
/// `facts`: the one whose key identifier is the serial number of the
/// certificate, else the one of the name of its subject. A certificate
/// that cannot be read or has no serial number matches none.
pub open spec fn spec_intermediate_match(db: &CaDb, facts: Option<CertFactsView>) -> Option<
    CaEntry,
> {
    match facts {
        None => None,
        Some(f) => if f.serial is None {
            None
        } else {
            spec_select_ca(
                db,
                CaKind::Ca,
                f.serial,
                spec_common_name(f.common_name, f.organizational_unit, f.organization),
            )
        },
    }
}

/// Whether the certificate at `k` anchors the chain `certs`: it is not the
/// leaf, a local root CA matches it, and none matches a certificate nearer
/// to the root end.
pub open spec fn is_anchor(ca: &CaDb, certs: Seq<Vec<u8>>, k: int) -> bool {
    &&& 1 <= k < certs.len()
    &&& spec_ca_match(ca, cert_facts(certs[k]@)) is Some
    &&& forall|j: int| k < j < certs.len() ==> spec_ca_match(ca, cert_facts(#[trigger] certs[j]@)) is None
}

/// Whether the chain `certs` has no anchor: no local root CA matches any
/// of its certificates but the leaf.
pub open spec fn no_anchor(ca: &CaDb, certs: Seq<Vec<u8>>) -> bool {
    forall|j: int| 1 <= j < certs.len() ==> spec_ca_match(ca, cert_facts(#[trigger] certs[j]@)) is None
}

/// Looks up in `db` the CA that matches a certificate by its serial
/// number, which stands for its key identifier, and else by the name of its
/// subject.
pub fn lookup_ca(db: &CaDb, serial: &Option<Vec<u8>>, name: &Option<String>) -> (r: Option<
    CaEntry,
>)
    requires
        db.wf(),
    ensures
        r == spec_select_ca(db, CaKind::Ca, bytes_of(*serial), chars_of(*name)),
        r matches Some(e) ==> db.holds(e),
{
    if let Some(sn) = serial {
        if let Some(v) = db.get_by_hash(sn.as_slice()) {
            return Some(v);
        }
    }
    match name {
        Some(n) => db.get_by_name(n.as_str()),
        None => None,
    }
}

/// What the resolver does for a name that a client announced.
pub enum Resolution {
    /// The client announced no name: there is no certificate.
    NoName,
    /// The certificate that is stored for the name.
    Cached(CertifiedKey),
    /// No certificate is stored for the name: probe the origin for its
    /// chain and hand it to [`CertResolver::resolve_probed`].
    Probe,
}

/// Resolves the names that clients announce to forged certificates.
pub struct CertResolver {
    /// The forged leaf certificates.
    pub store: CertDb,
    /// The local root CAs.
    pub ca: CaDb,
    /// The intermediates that were forged or reused so far.
    pub inter: CaDb,
}

impl CertResolver {
    pub open spec fn wf(&self) -> bool {
        self.store.wf() && self.ca.wf() && self.inter.wf()
    }

    /// Whether the resolver holds every stored leaf of `before` unchanged.
    pub open spec fn keeps_leaves_of(&self, before: &CertResolver) -> bool {
        forall|n: Seq<u8>| #[trigger]
            before.store.by_name().contains_key(n) ==> self.store.by_name().contains_key(n)
                && same_certified_key(self.store.by_name()[n], before.store.by_name()[n])
    }

    /// A resolver over the root CAs `ca`, with no leaf and no intermediate
    /// yet.
    pub fn new(ca: CaDb) -> (r: CertResolver)
        requires
            ca.wf(),
        ensures
            r.wf(),
            r.ca == ca,
            r.store.by_name() == Map::<Seq<u8>, CertifiedKey>::empty(),
            r.inter.by_name() == Map::<Seq<u8>, CaEntry>::empty(),
            r.inter.by_hash() == Map::<Seq<u8>, CaEntry>::empty(),
    {
        CertResolver { store: CertDb::new(), ca, inter: CaDb::new("Interm".to_owned()) }
    }

    /// Looks for the certificate of the name that a client announced. A
    /// name with a stored certificate is answered from the store; only a
    /// name without one is probed.
    pub fn resolve(&self, server_name: Option<&str>) -> (r: Resolution)
        requires
            self.wf(),
        ensures
            match server_name {
                None => r is NoName,
                Some(name) => if self.store.by_name().contains_key(encode_utf8(name@)) {
                    r matches Resolution::Cached(c) && same_certified_key(
                        c,
                        self.store.by_name()[encode_utf8(name@)],
                    )
                } else {
                    r is Probe
                },
            },
    {
        let name = match server_name {
            Some(n) => n,
            None => return Resolution::NoName,
        };
        match self.store.get_by_name(name) {
            Some(c) => Resolution::Cached(c),
            None => Resolution::Probe,
        }
    }

    /// Takes the chain `probe` that the origin of `name` presented, leaf
    /// first, or `None` if the probe failed.
    ///
    /// A leaf that is stored for `name` by now is handed out as it is, and
    /// nothing is forged. Else a chain is forged and its leaf stored and
    /// handed out. Where that fails, for want of a probed chain of at least
    /// two certificates or of a matching local CA, or because a
    /// certificate could not be read or signed, `name` is pinned and there
    /// is no certificate. No stored leaf is ever replaced.
    pub fn resolve_probed(
        &mut self,
        pinned: &mut TlsCertStore,
        name: &str,
        probe: Option<&Vec<Vec<u8>>>,
    ) -> (r: Option<CertifiedKey>)
        requires
            old(self).wf(),
        ensures
            final(self).wf(),
            final(self).ca == old(self).ca,
            final(self).keeps_leaves_of(old(self)),
            old(self).store.by_name().contains_key(encode_utf8(name@)) ==> r is Some && *final(self)
                == *old(self) && final(pinned)@ == old(pinned)@,
            match r {
                Some(c) => final(self).store.by_name().contains_key(encode_utf8(name@))
                    && same_certified_key(c, final(self).store.by_name()[encode_utf8(name@)])
                    && final(pinned)@ == old(pinned)@,
                None => final(self).store == old(self).store && final(self).inter == old(self).inter && final(pinned)@ == old(pinned)@.insert(name@),
            },
            (probe is None || probe->0@.len() < 2) && !old(self).store.by_name().contains_key(
                encode_utf8(name@),
            ) ==> r is None,
    {
        if let Some(c) = self.store.get_by_name(name) {
            return Some(c);
        }
        let forged = match probe {
            Some(certs) => self.process_conn_certs(certs, name),
            None => None,
        };
        match forged {
            Some(_) => self.store.get_by_name(name),
            None => {
                Self::set_server_as_pinned(pinned, name);
                None
            },
        }
    }

    /// Pins `name`.
    pub fn set_server_as_pinned(pinned: &mut TlsCertStore, name: &str)
        ensures
            final(pinned)@ == old(pinned)@.insert(name@),
    {
        pinned.disable_addr(name.to_owned());
    }

    /// Finds the anchor of the forged chain: walking the probed chain from
    /// its root end towards the leaf, the first certificate that a local
    /// root CA matches, with that CA. The leaf itself anchors nothing.
    pub fn find_anchor(&self, certs: &Vec<Vec<u8>>) -> (r: Option<(usize, CaEntry)>)
        requires
            self.wf(),
        ensures
            match r {
                Some(found) => is_anchor(&self.ca, certs@, found.0 as int) && Some(found.1)
                    == spec_ca_match(&self.ca, cert_facts(certs@[found.0 as int]@))
                    && self.ca.holds(found.1),
                None => no_anchor(&self.ca, certs@),
            },
    {
        let mut k: usize = certs.len();
        while k > 1
            invariant
                self.wf(),
                k <= certs@.len(),
                forall|j: int|
                    k <= j < certs@.len() ==> spec_ca_match(
                        &self.ca,
                        cert_facts(#[trigger] certs@[j]@),
                    ) is None,
            decreases k,
        {
            k -= 1;
            if let Some(entry) = self.get_ca_cert(certs[k].as_slice()) {
                return Some((k, entry));
            }
        }
        None
    }

    /// Forges a chain for `name` from the chain `certs` that its origin
    /// presented, leaf first.
    ///
    /// The forged chain is anchored at the local root CA that matches the
    /// certificate nearest to the root end of `certs`. Each certificate
    /// between the anchor and the leaf is mirrored by the stored
    /// intermediate that matches it or else by a fresh intermediate, which
    /// holds what the certificate holds and is issued by what mirrors the
    /// certificate above it. The leaf is issued by what mirrors the
    /// certificate above the leaf and stored for `name`, with the chain of
    /// the leaf and the mirrors; the mirrors are remembered as
    /// intermediates.
    ///
    /// Nothing is forged from fewer than two certificates or without an
    /// anchor, and nothing is stored unless the whole chain was forged.
    pub fn process_conn_certs(&mut self, certs: &Vec<Vec<u8>>, name: &str) -> (r: Option<()>)
        requires
            old(self).wf(),
        ensures
            final(self).wf(),
            final(self).ca == old(self).ca,
            certs@.len() < 2 || no_anchor(&old(self).ca, certs@) ==> r is None,
            certs@.len() > 0 && cert_facts(certs@[0]@) is None ==> r is None,
            unforgeable_name(name@) ==> r is None,
            r is None ==> final(self).store == old(self).store && final(self).inter == old(self).inter,
            forall|k: Seq<u8>| #[trigger]
                old(self).inter.by_hash().contains_key(k) ==> final(self).inter.by_hash().contains_key(
                    k,
                ),
            forall|k: Seq<u8>| #[trigger]
                old(self).inter.by_name().contains_key(k) ==> final(self).inter.by_name().contains_key(
                    k,
                ),
            r is Some ==> {
                let key = encode_utf8(name@);
                &&& final(self).store.by_name().dom() == old(self).store.by_name().dom().insert(
                    key,
                )
                &&& forall|k: Seq<u8>|
                    k != key && old(self).store.by_name().contains_key(k) ==> final(self).store.by_name()[k] == old(self).store.by_name()[k]
                &&& exists|k: int, mirrors: Seq<CaEntry>| #[trigger]
                    forged_chain(old(self), final(self), certs@, name@, k, mirrors)
            },
    {
        if certs.len() < 2 {
            return None;
        }
        let (anchor_at, anchor) = self.find_anchor(certs)?;
        // The mirrors, from the one below the anchor to the one above the leaf.
        let mut mirrors: Vec<CaEntry> = Vec::new();
        let mut j: usize = anchor_at;
        while j > 1
            invariant
                self.wf(),
                *self == *old(self),
                1 <= j <= anchor_at < certs@.len(),
                is_anchor(&old(self).ca, certs@, anchor_at as int),
                Some(anchor) == spec_ca_match(&old(self).ca, cert_facts(certs@[anchor_at as int]@)),
                mirrors@.len() == anchor_at - j,
                forall|t: int|
                    0 <= t < mirrors@.len() ==> #[trigger] is_mirror(
                        &old(self).inter,
                        certs@,
                        anchor_at as int,
                        anchor,
                        mirrors@,
                        t,
                    ),
                forall|i: int| j <= i < anchor_at ==> cert_facts(#[trigger] certs@[i]@) is Some,
            decreases j,
        {
            j -= 1;
            let ghost before = mirrors@;
            let entry = match self.get_intermediate_cert(certs[j].as_slice()) {
                Some(v) => v,
                None => {
                    let signer: &CaEntry = if mirrors.len() > 0 {
                        &mirrors[mirrors.len() - 1]
                    } else {
                        &anchor
                    };
                    let (cert, key) = clone_real_cert(certs[j].as_slice(), &signer.cert, &signer.key)?;
                    CaEntry { cert, key: Arc::new(key) }
                },
            };
            mirrors.push(entry);
            proof {
                let k = anchor_at as int;
                assert forall|t: int| 0 <= t < mirrors@.len() implies #[trigger] is_mirror(
                    &old(self).inter,
                    certs@,
                    k,
                    anchor,
                    mirrors@,
                    t,
                ) by {
                    if t < before.len() {
                        assert(is_mirror(&old(self).inter, certs@, k, anchor, before, t));
                        assert(mirrors@[t] == before[t]);
                        if t > 0 {
                            assert(mirrors@[t - 1] == before[t - 1]);
                        }
                    } else {
                        if t > 0 {
                            assert(mirrors@[t - 1] == before[t - 1]);
                        }
                    }
                }
            }
        }
        let (server_cert, server_key) = {
            let signer: &CaEntry = if mirrors.len() > 0 {
                &mirrors[mirrors.len() - 1]
            } else {
                &anchor
            };
            clone_end_cert(certs[0].as_slice(), name, &signer.cert, &signer.key)?
        };
        let presented = Self::presented_order(&mirrors);
        let server_certkey = Self::to_certkey(server_cert, Arc::new(server_key), &presented);
        let ghost chain = server_certkey.chain_view();
        self.store.insert(name.to_owned(), server_certkey);
        let ghost stored = self.store;
        assert(stored.by_name()[encode_utf8(name@)].chain_view() == chain);
        assert(stored.by_name()[encode_utf8(name@)].cert == server_cert);
        let mut i: usize = 0;
        while i < presented.len()
            invariant
                self.wf(),
                self.ca == old(self).ca,
                self.store == stored,
                i <= presented@.len(),
                forall|k: Seq<u8>| #[trigger]
                    old(self).inter.by_hash().contains_key(k) ==> self.inter.by_hash().contains_key(k),
                forall|k: Seq<u8>| #[trigger]
                    old(self).inter.by_name().contains_key(k) ==> self.inter.by_name().contains_key(k),
                forall|t: int|
                    0 <= t < i ==> #[trigger] remembered(&self.inter, presented@, i as int, t),
            decreases presented@.len() - i,
        {
            let entry = presented[i].duplicate();
            let ghost before = self.inter;
            self.inter.insert(entry.cert, entry.key);
            proof {
                let e = presented@[i as int];
                assert(self.inter.stored_in(&before, e));
                assert forall|t: int| 0 <= t < i + 1 implies #[trigger] remembered(
                    &self.inter,
                    presented@,
                    i + 1,
                    t,
                ) by {
                    lemma_remembered_step(&before, &self.inter, presented@, i as int, t);
                }
            }
            i += 1;
        }
        proof {
            let k = anchor_at as int;
            let leaf = self.store.by_name()[encode_utf8(name@)];
            let order = Seq::new(mirrors@.len(), |i: int| mirrors@[mirrors@.len() - 1 - i]);
            assert(presented@ =~= order);
            assert(leaf_holds(leaf, leaf_params(parsed_params(certs@[0]@)->0, name@)));
            assert(leaf_issued_by(leaf, issuer_at(anchor, mirrors@, mirrors@.len() as int)));
            assert(leaf.chain_view() == presented_chain(leaf_der(leaf), order));
            assert forall|t: int| 0 <= t < mirrors@.len() implies #[trigger] remembered(
                &self.inter,
                order,
                order.len() as int,
                mirrors@.len() - 1 - t,
            ) by {
                assert(remembered(
                    &self.inter,
                    presented@,
                    presented@.len() as int,
                    mirrors@.len() - 1 - t,
                ));
            }
            assert(forged_chain(old(self), self, certs@, name@, k, mirrors@));
        }
        Some(())
    }

    /// The mirrors in the order in which they are presented: the one that
    /// issued the leaf first.
    pub fn presented_order(mirrors: &Vec<CaEntry>) -> (r: Vec<CaEntry>)
        ensures
            r@.len() == mirrors@.len(),
            forall|i: int| 0 <= i < r@.len() ==> #[trigger] r@[i] == mirrors@[mirrors@.len() - 1 - i],
    {
        let mut r: Vec<CaEntry> = Vec::new();
        let mut i: usize = mirrors.len();
        while i > 0
            invariant
                i <= mirrors@.len(),
                r@.len() == mirrors@.len() - i,
                forall|t: int|
                    0 <= t < r@.len() ==> #[trigger] r@[t] == mirrors@[mirrors@.len() - 1 - t],
            decreases i,
        {
            i -= 1;
            r.push(mirrors[i].duplicate());
        }
        r
    }

    /// The local root CA that matches the certificate `cert`, in DER. A
    /// certificate that cannot be read or that may not sign matches none.
    /// Else the CA is looked up by the certificate's serial number, which
    /// stands for the key identifier, and else by the name of its subject.
    pub fn get_ca_cert(&self, cert: &[u8]) -> (r: Option<CaEntry>)
        requires
            self.wf(),
        ensures
            r == spec_ca_match(&self.ca, cert_facts(cert@)),
            r matches Some(e) ==> self.ca.holds(e),
    {
        let facts = read_cert_facts(cert)?;
        match facts.kind {
            CaKind::ExplicitNoCa | CaKind::NoCa => return None,
            CaKind::Ca => {},
        }
        let name = common_name_of(facts.common_name, facts.organizational_unit, facts.organization);
        lookup_ca(&self.ca, &facts.serial, &name)
    }

    /// The stored intermediate that matches the certificate `cert`, in DER:
    /// looked up by the certificate's serial number and else by the name of
    /// its subject. A certificate that cannot be read or has no serial
    /// number matches none.
    pub fn get_intermediate_cert(&self, cert: &[u8]) -> (r: Option<CaEntry>)
        requires
            self.wf(),
        ensures
            r == spec_intermediate_match(&self.inter, cert_facts(cert@)),
            r matches Some(e) ==> self.inter.holds(e),
    {
        let facts = read_cert_facts(cert)?;
        if facts.serial.is_none() {
            return None;
        }
        let name = common_name_of(facts.common_name, facts.organizational_unit, facts.organization);
        lookup_ca(&self.inter, &facts.serial, &name)
    }

    /// Puts a forged leaf together with what is presented for it: the chain
    /// of the leaf `cert` and then the intermediates `int_certs`, the one
    /// that issued the leaf first, each in DER.
    pub fn to_certkey(cert: Arc<Certificate>, key_pair: Arc<KeyPair>, int_certs: &Vec<CaEntry>) -> (r:
        CertifiedKey)
        ensures
            r.cert == cert,
            r.key == key_pair,
            r.chain_view() == presented_chain(certificate_der(*cert), int_certs@),
    {
        let mut chain: Vec<Vec<u8>> = Vec::with_capacity(3);
        chain.push(cert_der(&cert));
        let mut i: usize = 0;
        while i < int_certs.len()
            invariant
                i <= int_certs@.len(),
                chain@.len() == i + 1,
                chain@[0]@ == certificate_der(*cert),
                forall|t: int| 1 <= t <= i ==> (#[trigger] chain@[t])@ == entry_der(int_certs@[t - 1]),
            decreases int_certs@.len() - i,
        {
            chain.push(cert_der(&int_certs[i].cert));
            i += 1;
        }
        let r = CertifiedKey { chain, cert, key: key_pair };
        assert(r.chain_view() =~= presented_chain(certificate_der(*cert), int_certs@));
        r
    }
}

/// The chain that is presented for a leaf: the leaf and then the
/// intermediates, each in DER.
pub open spec fn presented_chain(leaf: Seq<u8>, intermediates: Seq<CaEntry>) -> Seq<Seq<u8>> {
    Seq::new(
        intermediates.len() + 1,
        |i: int|
            if i == 0 {
                leaf
            } else {
                entry_der(intermediates[i - 1])
            },
    )
}

/// The CA that issues the mirror at `t`, where the mirrors run from the
/// one below the anchor down: the anchor for the first mirror, else the
/// mirror before. For `t` behind the last mirror it is the CA that issues
/// the leaf.
pub open spec fn issuer_at(anchor: CaEntry, mirrors: Seq<CaEntry>, t: int) -> CaEntry {
    if t <= 0 {
        anchor
    } else {
        mirrors[t - 1]
    }
}

/// Whether the mirror at `t` mirrors its certificate of the chain `certs`
/// that is anchored at `k`: the certificate at `k - 1 - t`. It is the
/// intermediate of `inter` that matches the certificate, if there is one;
/// else it holds what the certificate holds and is issued by the CA above
/// it.
pub open spec fn is_mirror(
    inter: &CaDb,
    certs: Seq<Vec<u8>>,
    k: int,
    anchor: CaEntry,
    mirrors: Seq<CaEntry>,
    t: int,
) -> bool {
    let probed = certs[k - 1 - t]@;
    let stored = spec_intermediate_match(inter, cert_facts(probed));
    if stored is Some {
        Some(mirrors[t]) == stored
    } else {
        &&& Some(entry_params(mirrors[t])) == parsed_params(probed)
        &&& entry_issuer(mirrors[t]) == issuing(issuer_at(anchor, mirrors, t))
    }
}

/// Whether, of the first `n` of `entries`, the one at `t` is remembered in
/// `inter`: a CA with its key identifier stands under that key identifier,
/// and a CA of its name under that name, each one of the `n`.
pub open spec fn remembered(inter: &CaDb, entries: Seq<CaEntry>, n: int, t: int) -> bool {
    let e = entries[t];
    &&& inter.by_hash().contains_key(entry_key_id(e))
    &&& exists|u: int| 0 <= u < n && #[trigger] entries[u] == inter.by_hash()[entry_key_id(e)]
    &&& params_common_name(entry_params(e)) matches Some(cn) ==> {
        &&& inter.by_name().contains_key(encode_utf8(cn))
        &&& exists|u: int| 0 <= u < n && #[trigger] entries[u] == inter.by_name()[encode_utf8(cn)]
    }
}

/// Storing the entry at `n` keeps the first `n` entries remembered and
/// makes the entry at `n` remembered.
pub proof fn lemma_remembered_step(
    before: &CaDb,
    after: &CaDb,
    entries: Seq<CaEntry>,
    n: int,
    t: int,
)
    requires
        0 <= t <= n < entries.len(),
        after.stored_in(before, entries[n]),
        t < n ==> remembered(before, entries, n, t),
    ensures
        remembered(after, entries, n + 1, t),
{
    let e = entries[t];
    let new = entries[n];
    let id = entry_key_id(e);
    if id == entry_key_id(new) {
        assert(entries[n] == after.by_hash()[id]);
    } else {
        let u = choose|u: int| 0 <= u < n && #[trigger] entries[u] == before.by_hash()[id];
        assert(entries[u] == after.by_hash()[id]);
    }
    match params_common_name(entry_params(e)) {
        Some(cn) => {
            let key = encode_utf8(cn);
            if params_common_name(entry_params(new)) == Some(cn) {
                assert(entries[n] == after.by_name()[key]);
            } else {
                match params_common_name(entry_params(new)) {
                    Some(other) => {
                        encode_utf8_decode_utf8(cn);
                        encode_utf8_decode_utf8(other);
                        assert(encode_utf8(other) != key);
                    },
                    None => {},
                }
                let u = choose|u: int| 0 <= u < n && #[trigger] entries[u] == before.by_name()[key];
                assert(entries[u] == after.by_name()[key]);
            }
        },
        None => {},
    }
}

/// Whether `after` is `before` with a chain forged for `name` from the
/// chain `certs`, anchored at `k`, with the mirrors `mirrors`, which run
/// from the one below the anchor to the one above the leaf.
///
/// There is a mirror for each certificate between the anchor and the leaf.
/// The leaf that is stored for `name` holds what the probed leaf holds, as
/// a leaf for `name` does, and is issued by the last mirror, or by the
/// anchor if there is no mirror. The chain that is presented for it is the
/// leaf and then the mirrors, the last first. Each mirror is remembered.
pub open spec fn forged_chain(
    before: &CertResolver,
    after: &CertResolver,
    certs: Seq<Vec<u8>>,
    name: Seq<char>,
    k: int,
    mirrors: Seq<CaEntry>,
) -> bool {
    let leaf = after.store.by_name()[encode_utf8(name)];
    let anchor = spec_ca_match(&before.ca, cert_facts(certs[k]@))->0;
    let presented = Seq::new(mirrors.len(), |i: int| mirrors[mirrors.len() - 1 - i]);
    &&& is_anchor(&before.ca, certs, k)
    &&& mirrors.len() == k - 1
    &&& forall|t: int|
        0 <= t < mirrors.len() ==> #[trigger] is_mirror(&before.inter, certs, k, anchor, mirrors, t)
    &&& parsed_params(certs[0]@) is Some
    &&& leaf_holds(leaf, leaf_params(parsed_params(certs[0]@)->0, name))
    &&& leaf_issued_by(leaf, issuer_at(anchor, mirrors, mirrors.len() as int))
    &&& leaf.chain_view() == presented_chain(leaf_der(leaf), presented)
    &&& forall|t: int|
        0 <= t < mirrors.len() ==> #[trigger] remembered(
            &after.inter,
            presented,
            presented.len() as int,
            mirrors.len() - 1 - t,
        )
}

/// Whether the certificate of the stored leaf `leaf` holds `p`.
pub open spec fn leaf_holds(leaf: CertifiedKey, p: ParamsView) -> bool {
    certificate_view(*leaf.cert) == p
}

/// Whether the certificate of the stored leaf `leaf` is issued by the CA
/// `e`.
pub open spec fn leaf_issued_by(leaf: CertifiedKey, e: CaEntry) -> bool {
    certificate_issuer(*leaf.cert) == issuing(e)
}

/// The certificate of the stored leaf `leaf` in DER.
pub open spec fn leaf_der(leaf: CertifiedKey) -> Seq<u8> {
    certificate_der(*leaf.cert)
}

/// The name to add to a leaf for `name`: for a wildcard name, which begins
/// with `*.`, the name without the wildcard.
pub fn unwildcarded(name: &str) -> (plain: Option<&str>)
    ensures
        match plain {
            Some(p) => name@ == "*."@ + p@,
            None => !"*."@.is_prefix_of(name@),
        },
{
    strip_prefix(name, "*.")
}

/// The length of the wildcard prefix `*.`.
pub open spec fn wildcard_len() -> int {
    "*."@.len() as int
}

/// Whether `name` is a wildcard name: it begins with `*.`.
pub open spec fn is_wildcard(name: Seq<char>) -> bool {
    "*."@.is_prefix_of(name)
}

/// What the parameters of a forged leaf for `name` hold, given what those
/// of the certificate that it mirrors hold: the same, but that the leaf
/// names the key of its issuer, may not sign and, for a wildcard name,
/// carries the name without the wildcard as the last of its DNS names.
pub open spec fn leaf_params(p: ParamsView, name: Seq<char>) -> ParamsView {
    ParamsView {
        kind: CaKind::NoCa,
        authority_key_identifier: true,
        dns_names: if is_wildcard(name) {
            p.dns_names.push(name.skip(wildcard_len()))
        } else {
            p.dns_names
        },
        ..p
    }
}

/// Whether no leaf can be forged for `name`: it is a wildcard name whose
/// rest is no string of ASCII characters, which no DNS name can hold.
pub open spec fn unforgeable_name(name: Seq<char>) -> bool {
    is_wildcard(name) && !is_ascii_chars(name.skip(wildcard_len()))
}

/// Clones a CA certificate: a new key pair, and the certificate `cert`, in
/// DER, signed anew with it. The clone holds what `cert` holds: the same
/// subject, serial number and right to sign. None if the certificate cannot
/// be read, has no serial number, or if no key could be generated or the
/// certificate not signed.
pub fn clone_ca_cert(cert: &[u8]) -> (r: Option<(Arc<Certificate>, KeyPair)>)
    ensures
        cert_facts(cert@) is None ==> r is None,
        cert_facts(cert@) matches Some(f) && f.serial is None ==> r is None,
        r matches Some(pair) ==> Some(certificate_view(*pair.0)) == parsed_params(cert@)
            && certificate_issuer(*pair.0) == issuer_of(
            certificate_view(*pair.0),
            public_key_of(pair.1),
        ),
{
    let params = params_from_der(cert)?;
    let _ = params_serial(&params)?;
    let keypair = generate_key()?;
    let cert = params_self_signed(params, &keypair)?;
    Some((Arc::new(cert), keypair))
}

/// Mirrors an intermediate: a new key pair, and the certificate `cert`, in
/// DER, issued anew for it by `prev_cert` and signed with `prev_key`. The
/// mirror holds what `cert` holds: the same subject, serial number and
/// right to sign. None if the certificate cannot be read, or if no key
/// could be generated or the certificate not signed.
pub fn clone_real_cert(cert: &[u8], prev_cert: &Certificate, prev_key: &KeyPair) -> (r: Option<
    (Arc<Certificate>, KeyPair),
>)
    ensures
        cert_facts(cert@) is None ==> r is None,
        r matches Some(pair) ==> Some(certificate_view(*pair.0)) == parsed_params(cert@)
            && certificate_issuer(*pair.0) == issuer_of(
            certificate_view(*prev_cert),
            public_key_of(*prev_key),
        ),
{
    let params = params_from_der(cert)?;
    let keypair = generate_key()?;
    let cert = params_signed_by(params, &keypair, prev_cert, prev_key)?;
    Some((Arc::new(cert), keypair))
}

/// Forges a leaf for `name`: a new key pair, and the certificate `cert`, in
/// DER, issued anew for it by `prev_cert` and signed with `prev_key`. The
/// leaf holds what `cert` holds, but that it names its issuer's key, may
/// not sign and, for a wildcard name, also carries the name without the
/// wildcard. None if the certificate cannot be read, if the name without
/// the wildcard is no string of ASCII characters, or if no key could be
/// generated or the certificate not signed.
pub fn clone_end_cert(cert: &[u8], name: &str, prev_cert: &Certificate, prev_key: &KeyPair) -> (r:
    Option<(Arc<Certificate>, KeyPair)>)
    ensures
        cert_facts(cert@) is None ==> r is None,
        unforgeable_name(name@) ==> r is None,
        r matches Some(pair) ==> parsed_params(cert@) is Some && certificate_view(*pair.0)
            == leaf_params(parsed_params(cert@)->0, name@) && certificate_issuer(*pair.0)
            == issuer_of(certificate_view(*prev_cert), public_key_of(*prev_key)),
{
    let mut params = params_from_der(cert)?;
    params_set_authority_key_identifier(&mut params, true);
    if let Some(plain) = unwildcarded(name) {
        assert(plain@ =~= name@.skip(wildcard_len()));
        if !params_add_dns_name(&mut params, plain) {
            return None;
        }
    }
    params_clear_ca(&mut params);
    let keypair = generate_key()?;
    let cert = params_signed_by(params, &keypair, prev_cert, prev_key)?;
    Some((Arc::new(cert), keypair))
}

/// Forged leaves are generated once. A resolver that keeps the leaves of
/// an earlier state, which kept those of a still earlier one, keeps the
/// leaves of that one too: since [`CertResolver::resolve`] changes nothing
/// and [`CertResolver::resolve_probed`] keeps every stored leaf, a leaf
/// that is stored for a name is handed out for it with the same
/// certificate and the same key pair by every later lookup.
pub proof fn lemma_forged_leaf_kept(a: &CertResolver, b: &CertResolver, c: &CertResolver)
    requires
        b.keeps_leaves_of(a),
        c.keeps_leaves_of(b),
    ensures
        c.keeps_leaves_of(a),
{
    assert forall|n: Seq<u8>| #[trigger]
        a.store.by_name().contains_key(n) implies c.store.by_name().contains_key(n)
        && same_certified_key(c.store.by_name()[n], a.store.by_name()[n]) by {
        assert(b.store.by_name().contains_key(n));
    }
}

} // verus!
