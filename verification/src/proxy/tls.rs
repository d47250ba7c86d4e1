//! TLS interception: the pinned-host set, the certificate stores and the
//! forging of certificate chains.

use crate::text::{char_from_u32, from_utf8_lossy, push_char, utf8_lossy};
use rcgen::{Certificate, CertificateParams, DnType, DnValue, IsCa, KeyPair};
use rustls_pki_types::CertificateDer;
use vstd::prelude::*;
use vstd::utf8::is_scalar;

pub mod db;
pub mod resolv;
pub mod store;

verus! {

/// `rcgen::Certificate`: an issued certificate with the parameters that it
/// was generated from. Opaque here.
#[verifier::external_type_specification]
#[verifier::external_body]
pub struct ExCertificate(Certificate);

/// `rcgen::CertificateParams`: the parameters of a certificate. Opaque
/// here.
#[verifier::external_type_specification]
#[verifier::external_body]
pub struct ExCertificateParams(CertificateParams);

/// `rcgen::KeyPair`: a key pair that signs certificates. Opaque here.
#[verifier::external_type_specification]
#[verifier::external_body]
pub struct ExKeyPair(KeyPair);

/// An attribute of a distinguished name that may serve as the name of a
/// certificate.
#[derive(Clone, Copy, Debug, PartialEq, Eq, Structural)]
pub enum NameKind {
    CommonName,
    OrganizationalUnitName,
    OrganizationName,
}

/// Whether a certificate may sign other certificates.
#[derive(Clone, Copy, Debug, PartialEq, Eq, Structural)]
pub enum CaKind {
    /// It may not.
    NoCa,
    /// It may not, and says so.
    ExplicitNoCa,
    /// It may.
    Ca,
}

/// The value of an attribute of a distinguished name, by its string type.
#[derive(Clone, Debug)]
pub enum NameValue {
    /// The bytes of a BMP string.
    Bmp(Vec<u8>),
    Ia5(String),
    Printable(String),
    Teletex(String),
    /// The bytes of a universal string, four for each character.
    Universal(Vec<u8>),
    Utf8(String),
    /// A value of a string type that is not known here.
    Other,
}

/// Mathematical content of a [`NameValue`].
pub enum NameValueView {
    Bmp(Seq<u8>),
    Ia5(Seq<char>),
    Printable(Seq<char>),
    Teletex(Seq<char>),
    Universal(Seq<u8>),
    Utf8(Seq<char>),
    Other,
}

/// What the library reads and sets of the parameters of a certificate.
pub struct ParamsView {
    /// Whether the certificate may sign.
    pub kind: CaKind,
    pub serial: Option<Seq<u8>>,
    /// The common name of the subject.
    pub common_name: Option<NameValueView>,
    /// The organizational unit of the subject.
    pub organizational_unit: Option<NameValueView>,
    /// The organization of the subject.
    pub organization: Option<NameValueView>,
    /// Whether the certificate names the key of its issuer.
    pub authority_key_identifier: bool,
    /// The DNS names among the alternative names of the subject, in order.
    pub dns_names: Seq<Seq<char>>,
}

/// What the parameters `params` hold, as the fields of
/// `rcgen::CertificateParams` and `rcgen::DistinguishedName::get` give it.
pub uninterp spec fn params_view(params: CertificateParams) -> ParamsView;

/// What the parameters hold that `cert` was generated from, as
/// `rcgen::Certificate::params` gives them.
pub uninterp spec fn certificate_view(cert: Certificate) -> ParamsView;

/// What the parameters hold that
/// `rcgen::CertificateParams::from_ca_cert_der` reads from the certificate
/// `der`. None for bytes that it cannot read as a certificate.
pub uninterp spec fn parsed_params(der: Seq<u8>) -> Option<ParamsView>;

/// What the value `value` of an attribute holds, by its string type, as the
/// accessors of the string types of `rcgen` give it.
pub uninterp spec fn dn_value(value: DnValue) -> NameValueView;

/// What a certificate says of its issuer.
pub struct IssuerView {
    /// The common name of the issuer.
    pub common_name: Option<NameValueView>,
    /// The organizational unit of the issuer.
    pub organizational_unit: Option<NameValueView>,
    /// The organization of the issuer.
    pub organization: Option<NameValueView>,
    /// The public key, in DER, of the key pair that signed the certificate.
    pub key: Seq<u8>,
}

/// The issuer of `cert`, as `rcgen::CertificateParams::signed_by` and
/// `self_signed` set it: the naming attributes of the subject that the
/// certificate names as its issuer, and the public key of the key pair
/// that it was signed with.
pub uninterp spec fn certificate_issuer(cert: Certificate) -> IssuerView;

/// The public key of `key`, in DER, as `rcgen::KeyPair::public_key_der`
/// gives it.
pub uninterp spec fn public_key_of(key: KeyPair) -> Seq<u8>;

/// The certificate `cert` in DER, as `rcgen::Certificate::der` gives it.
pub uninterp spec fn certificate_der(cert: Certificate) -> Seq<u8>;

/// The subject key identifier of `cert`, as
/// `rcgen::Certificate::key_identifier` gives it.
pub uninterp spec fn certificate_key_id(cert: Certificate) -> Seq<u8>;

/// The issuer that a subject with the parameters `p` is when it signs with
/// the key pair whose public key is `key`.
pub open spec fn issuer_of(p: ParamsView, key: Seq<u8>) -> IssuerView {
    IssuerView {
        common_name: p.common_name,
        organizational_unit: p.organizational_unit,
        organization: p.organization,
        key,
    }
}

/// The value of the attribute `kind` among what parameters hold.
pub open spec fn attribute_of(p: ParamsView, kind: NameKind) -> Option<NameValueView> {
    match kind {
        NameKind::CommonName => p.common_name,
        NameKind::OrganizationalUnitName => p.organizational_unit,
        NameKind::OrganizationName => p.organization,
    }
}

/// `rcgen::Certificate::params`: the parameters that `cert` was generated
/// from.
#[verifier::external_body]
pub(crate) fn cert_params(cert: &Certificate) -> (p: &CertificateParams)
    ensures
        params_view(*p) == certificate_view(*cert),
{
    cert.params()
}

/// `rcgen::CertificateParams::from_ca_cert_der`: the parameters of the
/// certificate `der`, if it can be read. What is read depends on the bytes
/// of the certificate alone.
#[verifier::external_body]
pub(crate) fn params_from_der(der: &[u8]) -> (p: Option<CertificateParams>)
    ensures
        match p {
            Some(x) => Some(params_view(x)) == parsed_params(der@),
            None => parsed_params(der@) is None,
        },
{
    CertificateParams::from_ca_cert_der(&CertificateDer::from_slice(der)).ok()
}

/// The field `is_ca` of `rcgen::CertificateParams`.
#[verifier::external_body]
pub(crate) fn params_ca_kind(params: &CertificateParams) -> (kind: CaKind)
    ensures
        kind == params_view(*params).kind,
{
    match params.is_ca {
        IsCa::NoCa => CaKind::NoCa,
        IsCa::ExplicitNoCa => CaKind::ExplicitNoCa,
        IsCa::Ca(_) => CaKind::Ca,
    }
}

/// The field `serial_number` of `rcgen::CertificateParams`, as bytes.
#[verifier::external_body]
pub(crate) fn params_serial(params: &CertificateParams) -> (serial: Option<Vec<u8>>)
    ensures
        match serial {
            Some(s) => Some(s@) == params_view(*params).serial,
            None => params_view(*params).serial is None,
        },
{
    params.serial_number.as_ref().map(|s| s.to_bytes())
}

/// `rcgen::DnValue`: the value of an attribute of a distinguished name.
/// Opaque here.
#[verifier::external_type_specification]
#[verifier::external_body]
pub struct ExDnValue(DnValue);

/// Tells the string types of `rcgen::DnValue` apart: the bytes of a BMP or
/// universal string, the text of any other known string.
#[verifier::external_body]
pub(crate) fn name_value(value: &DnValue) -> (v: NameValue)
    ensures
        v@ == dn_value(*value),
{
    match value {
        DnValue::BmpString(s) => NameValue::Bmp(s.as_bytes().to_vec()),
        DnValue::Ia5String(s) => NameValue::Ia5(s.as_str().to_owned()),
        DnValue::PrintableString(s) => NameValue::Printable(s.as_str().to_owned()),
        DnValue::TeletexString(s) => NameValue::Teletex(s.as_str().to_owned()),
        DnValue::UniversalString(s) => NameValue::Universal(s.as_bytes().to_vec()),
        DnValue::Utf8String(s) => NameValue::Utf8(s.clone()),
        _ => NameValue::Other,
    }
}

/// `rcgen::DistinguishedName::get` on the subject of `params`: the value of
/// the attribute `kind`, if the subject has one.
#[verifier::external_body]
pub(crate) fn subject_attribute(params: &CertificateParams, kind: NameKind) -> (v: Option<&DnValue>)
    ensures
        match v {
            Some(x) => Some(dn_value(*x)) == attribute_of(params_view(*params), kind),
            None => attribute_of(params_view(*params), kind) is None,
        },
{
    let ty = match kind {
        NameKind::CommonName => DnType::CommonName,
        NameKind::OrganizationalUnitName => DnType::OrganizationalUnitName,
        NameKind::OrganizationName => DnType::OrganizationName,
    };
    params.distinguished_name.get(&ty)
}

/// The value of the attribute `kind` of the subject of `params`, by its
/// string type; none if the subject has no such attribute.
pub fn subject_name_value(params: &CertificateParams, kind: NameKind) -> (v: Option<NameValue>)
    ensures
        value_of(v) == attribute_of(params_view(*params), kind),
{
    match subject_attribute(params, kind) {
        Some(value) => Some(name_value(value)),
        None => None,
    }
}

impl View for NameValue {
    type V = NameValueView;

    open spec fn view(&self) -> NameValueView {
        match *self {
            NameValue::Bmp(b) => NameValueView::Bmp(b@),
            NameValue::Ia5(s) => NameValueView::Ia5(s@),
            NameValue::Printable(s) => NameValueView::Printable(s@),
            NameValue::Teletex(s) => NameValueView::Teletex(s@),
            NameValue::Universal(b) => NameValueView::Universal(b@),
            NameValue::Utf8(s) => NameValueView::Utf8(s@),
            NameValue::Other => NameValueView::Other,
        }
    }
}

/// What the decisions of the resolver read of a certificate.
#[derive(Clone, Debug)]
pub struct CertFacts {
    pub kind: CaKind,
    pub serial: Option<Vec<u8>>,
    /// The common name of the subject.
    pub common_name: Option<NameValue>,
    /// The organizational unit of the subject.
    pub organizational_unit: Option<NameValue>,
    /// The organization of the subject.
    pub organization: Option<NameValue>,
}

/// Mathematical content of [`CertFacts`].
pub struct CertFactsView {
    pub kind: CaKind,
    pub serial: Option<Seq<u8>>,
    pub common_name: Option<NameValueView>,
    pub organizational_unit: Option<NameValueView>,
    pub organization: Option<NameValueView>,
}

/// The content of an optional value of an attribute.
pub open spec fn value_of(v: Option<NameValue>) -> Option<NameValueView> {
    match v {
        Some(x) => Some(x@),
        None => None,
    }
}

impl View for CertFacts {
    type V = CertFactsView;

    open spec fn view(&self) -> CertFactsView {
        CertFactsView {
            kind: self.kind,
            serial: match self.serial {
                Some(s) => Some(s@),
                None => None,
            },
            common_name: value_of(self.common_name),
            organizational_unit: value_of(self.organizational_unit),
            organization: value_of(self.organization),
        }
    }
}

/// The facts among what parameters hold: whether the certificate may
/// sign, its serial number and the naming attributes of its subject.
pub open spec fn facts_of(p: ParamsView) -> CertFactsView {
    CertFactsView {
        kind: p.kind,
        serial: p.serial,
        common_name: p.common_name,
        organizational_unit: p.organizational_unit,
        organization: p.organization,
    }
}

/// What the certificate `der` says of itself: whether it may sign, its
/// serial number and the naming attributes of its subject. None for bytes
/// that cannot be read as a certificate.
pub open spec fn cert_facts(der: Seq<u8>) -> Option<CertFactsView> {
    match parsed_params(der) {
        Some(p) => Some(facts_of(p)),
        None => None,
    }
}

/// Reads the certificate `der` and hands out what the resolver needs of
/// it.
pub fn read_cert_facts(der: &[u8]) -> (r: Option<CertFacts>)
    ensures
        match r {
            Some(f) => Some(f@) == cert_facts(der@),
            None => cert_facts(der@) is None,
        },
{
    let p = params_from_der(der)?;
    Some(
        CertFacts {
            kind: params_ca_kind(&p),
            serial: params_serial(&p),
            common_name: subject_name_value(&p, NameKind::CommonName),
            organizational_unit: subject_name_value(&p, NameKind::OrganizationalUnitName),
            organization: subject_name_value(&p, NameKind::OrganizationName),
        },
    )
}

/// The number that four bytes spell, least significant first.
pub open spec fn le_u32(b0: u8, b1: u8, b2: u8, b3: u8) -> u32 {
    (b0 as u32 + b1 as u32 * 0x100 + b2 as u32 * 0x1_0000 + b3 as u32 * 0x100_0000) as u32
}

/// The code points that `bytes` spell in UTF-32, little-endian: one for
/// each group of four bytes, up to the first group that is cut short or
/// that spells no Unicode scalar value.
pub open spec fn utf32_scalars(bytes: Seq<u8>) -> Seq<u32>
    decreases bytes.len(),
{
    if bytes.len() < 4 {
        Seq::empty()
    } else {
        let v = le_u32(bytes[0], bytes[1], bytes[2], bytes[3]);
        if is_scalar(v) {
            seq![v] + utf32_scalars(bytes.subrange(4, bytes.len() as int))
        } else {
            Seq::empty()
        }
    }
}

/// The character with the code point `v`.
pub open spec fn scalar_char(v: u32) -> char {
    v as char
}

/// The text that `bytes` spell in UTF-32, little-endian, up to the first
/// group of four bytes that is cut short or that spells no character.
pub open spec fn utf32_text(bytes: Seq<u8>) -> Seq<char> {
    let scalars = utf32_scalars(bytes);
    Seq::new(scalars.len(), |i: int| scalar_char(scalars[i]))
}

/// Decodes little-endian UTF-32: the text of the code points that `bytes`
/// spell, up to the first group of four bytes that is cut short or that
/// spells no character.
pub fn from_utf32(bytes: &[u8]) -> (ret: String)
    ensures
        ret@ == utf32_text(bytes@),
{
    let len: usize = bytes.len();
    let mut ret = String::new();
    let mut i: usize = 0;
    let ghost mut done: Seq<u32> = Seq::empty();
    assert(bytes@.subrange(0, len as int) =~= bytes@);
    assert(ret@ =~= Seq::new(done.len(), |k: int| scalar_char(done[k])));
    while len - i >= 4
        invariant
            i <= len,
            len == bytes@.len(),
            ret@ == Seq::new(done.len(), |k: int| scalar_char(done[k])),
            utf32_scalars(bytes@) == done + utf32_scalars(bytes@.subrange(i as int, len as int)),
        decreases len - i,
    {
        let ghost rest = bytes@.subrange(i as int, len as int);
        let v: u32 = bytes[i] as u32 + bytes[i + 1] as u32 * 0x100 + bytes[i + 2] as u32
            * 0x1_0000 + bytes[i + 3] as u32 * 0x100_0000;
        assert(v == le_u32(rest[0], rest[1], rest[2], rest[3]));
        let chr = match char_from_u32(v) {
            Some(c) => c,
            None => {
                assert(done + Seq::<u32>::empty() =~= done);
                return ret;
            },
        };
        push_char(&mut ret, chr);
        proof {
            vstd::utf8::char_u32_cast(chr, v);
            assert(scalar_char(v) == chr);
            assert(rest.subrange(4, rest.len() as int) =~= bytes@.subrange(i + 4, len as int));
            assert(done + (seq![v] + utf32_scalars(bytes@.subrange(i + 4, len as int)))
                =~= done.push(v) + utf32_scalars(bytes@.subrange(i + 4, len as int)));
            let grown = done.push(v);
            assert(ret@ =~= Seq::new(grown.len(), |k: int| scalar_char(grown[k])));
            done = grown;
        }
        i += 4;
    }
    assert(done + Seq::<u32>::empty() =~= done);
    ret
}

/// The text of the value of an attribute; none for a value of an unknown
/// string type. The bytes of a BMP string are read as UTF-8 with U+FFFD in
/// place of what is ill formed, those of a universal string as UTF-32.
pub open spec fn value_text(value: NameValueView) -> Option<Seq<char>> {
    match value {
        NameValueView::Bmp(b) => Some(utf8_lossy(b)),
        NameValueView::Ia5(s) => Some(s),
        NameValueView::Printable(s) => Some(s),
        NameValueView::Teletex(s) => Some(s),
        NameValueView::Universal(b) => Some(utf32_text(b)),
        NameValueView::Utf8(s) => Some(s),
        NameValueView::Other => None,
    }
}

/// The view of an optional text.
pub open spec fn chars_of(s: Option<String>) -> Option<Seq<char>> {
    match s {
        Some(v) => Some(v@),
        None => None,
    }
}

/// The text of the value of an attribute.
pub fn name_text(value: NameValue) -> (text: Option<String>)
    ensures
        chars_of(text) == value_text(value@),
{
    match value {
        NameValue::Bmp(bytes) => Some(from_utf8_lossy(bytes.as_slice())),
        NameValue::Ia5(s) => Some(s),
        NameValue::Printable(s) => Some(s),
        NameValue::Teletex(s) => Some(s),
        NameValue::Universal(bytes) => Some(from_utf32(bytes.as_slice())),
        NameValue::Utf8(s) => Some(s),
        NameValue::Other => None,
    }
}

/// The attribute that names a subject: its common name, else its
/// organizational unit, else its organization.
pub open spec fn naming_attribute(
    common_name: Option<NameValueView>,
    organizational_unit: Option<NameValueView>,
    organization: Option<NameValueView>,
) -> Option<NameValueView> {
    match common_name {
        Some(v) => Some(v),
        None => match organizational_unit {
            Some(v) => Some(v),
            None => organization,
        },
    }
}

/// The name of a subject with these attributes: the text of its common
/// name, else of its organizational unit, else of its organization; none if
/// it has none of the three or if the one that names it is of an unknown
/// string type.
pub open spec fn spec_common_name(
    common_name: Option<NameValueView>,
    organizational_unit: Option<NameValueView>,
    organization: Option<NameValueView>,
) -> Option<Seq<char>> {
    match naming_attribute(common_name, organizational_unit, organization) {
        Some(v) => value_text(v),
        None => None,
    }
}

/// The name of a subject with these attributes.
pub fn common_name_of(
    common_name: Option<NameValue>,
    organizational_unit: Option<NameValue>,
    organization: Option<NameValue>,
) -> (name: Option<String>)
    ensures
        chars_of(name) == spec_common_name(
            value_of(common_name),
            value_of(organizational_unit),
            value_of(organization),
        ),
{
    let cn = match common_name {
        Some(v) => v,
        None => match organizational_unit {
            Some(v) => v,
            None => match organization {
                Some(v) => v,
                None => return None,
            },
        },
    };
    name_text(cn)
}

/// The name of a subject, given what the parameters of its certificate
/// hold: see [`spec_common_name`].
pub open spec fn params_common_name(p: ParamsView) -> Option<Seq<char>> {
    spec_common_name(p.common_name, p.organizational_unit, p.organization)
}

/// The name of the subject of a certificate with the parameters `cert`:
/// the text of its common name, else of its organizational unit, else of
/// its organization; none if it has none of the three or if the one that
/// names it is of an unknown string type.
pub fn common_name_of_params(cert: &CertificateParams) -> (name: Option<String>)
    ensures
        chars_of(name) == params_common_name(params_view(*cert)),
{
    let common_name = subject_name_value(cert, NameKind::CommonName);
    let organizational_unit = if common_name.is_none() {
        subject_name_value(cert, NameKind::OrganizationalUnitName)
    } else {
        None
    };
    let organization = if common_name.is_none() && organizational_unit.is_none() {
        subject_name_value(cert, NameKind::OrganizationName)
    } else {
        None
    };
    common_name_of(common_name, organizational_unit, organization)
}

/// The name of the subject of `cert`, read from the parameters that the
/// certificate was generated from: the text of its common name, else of
/// its organizational unit, else of its organization.
pub fn common_name_of_cert(cert: &Certificate) -> (name: Option<String>)
    ensures
        chars_of(name) == params_common_name(certificate_view(*cert)),
{
    common_name_of_params(cert_params(cert))
}

} // verus!
