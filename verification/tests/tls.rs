use rcgen::{BasicConstraints, CertificateParams, DistinguishedName, DnType, IsCa, KeyPair};
use scap_proxy::cclone::{clone_ca_certs, clone_ca_file, looks_like_pem, trim_ascii_start, CloneOutcome};
use scap_proxy::error::ErrorKind;
use scap_proxy::proxy::tls::db::{find_key_file, CaDb, CaFile, CertDb, CertifiedKey};
use scap_proxy::proxy::tls::resolv::{
    clone_ca_cert, clone_end_cert, clone_real_cert, unwildcarded, CertResolver, Resolution,
};
use scap_proxy::proxy::tls::store::TlsCertStore;
use scap_proxy::proxy::tls::{
    common_name_of, common_name_of_cert, common_name_of_params, from_utf32, name_text,
    read_cert_facts, subject_name_value, CaKind, NameKind, NameValue,
};
use std::sync::Arc;

fn named(kind: DnType, name: &str) -> DistinguishedName {
    let mut dn = DistinguishedName::new();
    dn.push(kind, name);
    dn
}

fn ca(name: &str) -> (rcgen::Certificate, KeyPair) {
    let mut params = CertificateParams::new(Vec::<String>::new()).unwrap();
    params.is_ca = IsCa::Ca(BasicConstraints::Unconstrained);
    params.distinguished_name = named(DnType::CommonName, name);
    let key = KeyPair::generate().unwrap();
    (params.self_signed(&key).unwrap(), key)
}

fn issued(name: &str, is_ca: bool, issuer: &rcgen::Certificate, issuer_key: &KeyPair) -> (rcgen::Certificate, KeyPair) {
    let mut params = CertificateParams::new(vec![name.to_string()]).unwrap();
    params.distinguished_name = named(DnType::CommonName, name);
    if is_ca {
        params.is_ca = IsCa::Ca(BasicConstraints::Unconstrained);
    }
    let key = KeyPair::generate().unwrap();
    (params.signed_by(&key, issuer, issuer_key).unwrap(), key)
}

/// A resolver whose only root CA is a clone of `root`.
fn resolver_trusting(root: &rcgen::Certificate) -> CertResolver {
    let (local, local_key) = clone_ca_cert(root.der()).unwrap();
    let mut db = CaDb::new("CA".to_string());
    db.insert(local, Arc::new(local_key));
    CertResolver::new(db)
}

#[test]
fn utf32_is_decoded_until_it_breaks() {
    assert_eq!(from_utf32(&[]), "");
    assert_eq!(from_utf32(&[0x41, 0, 0, 0, 0xe9, 0, 0, 0, 0x00, 0xf6, 0x01, 0]), "A\u{e9}\u{1f600}");
    // A group that is cut short ends the text.
    assert_eq!(from_utf32(&[0x41, 0, 0, 0, 0x42, 0, 0]), "A");
    assert_eq!(from_utf32(&[0x41, 0, 0]), "");
    // So does a surrogate or a number beyond the last code point.
    assert_eq!(from_utf32(&[0x41, 0, 0, 0, 0x00, 0xd8, 0, 0, 0x42, 0, 0, 0]), "A");
    assert_eq!(from_utf32(&[0x00, 0x00, 0x11, 0x00, 0x42, 0, 0, 0]), "");
    assert_eq!(from_utf32(&[0xff, 0xff, 0x10, 0x00]), "\u{10ffff}");
}

#[test]
fn name_values_as_text() {
    assert_eq!(name_text(NameValue::Utf8("Ünï".to_string())).as_deref(), Some("Ünï"));
    assert_eq!(name_text(NameValue::Ia5("ia5".to_string())).as_deref(), Some("ia5"));
    assert_eq!(name_text(NameValue::Printable("Print".to_string())).as_deref(), Some("Print"));
    assert_eq!(name_text(NameValue::Teletex("t61".to_string())).as_deref(), Some("t61"));
    assert_eq!(name_text(NameValue::Bmp(vec![b'o', b'k', 0xff])).as_deref(), Some("ok\u{fffd}"));
    assert_eq!(name_text(NameValue::Universal(vec![0x55, 0, 0, 0, 0x43, 0, 0, 0])).as_deref(), Some("UC"));
    assert_eq!(name_text(NameValue::Other), None);
}

#[test]
fn common_name_falls_back_to_unit_then_organization() {
    let v = |s: &str| Some(NameValue::Utf8(s.to_string()));
    assert_eq!(common_name_of(v("cn"), v("ou"), v("o")).as_deref(), Some("cn"));
    assert_eq!(common_name_of(None, v("ou"), v("o")).as_deref(), Some("ou"));
    assert_eq!(common_name_of(None, None, v("o")).as_deref(), Some("o"));
    assert_eq!(common_name_of(None, None, None), None);
    assert_eq!(common_name_of(Some(NameValue::Other), v("ou"), v("o")), None);
}

#[test]
fn common_name_of_real_certificates() {
    let (cert, _) = ca("Test Root R");
    assert_eq!(common_name_of_cert(&cert).as_deref(), Some("Test Root R"));
    let mut params = CertificateParams::new(Vec::<String>::new()).unwrap();
    params.distinguished_name = named(DnType::OrganizationalUnitName, "Unit 7");
    assert_eq!(common_name_of_params(&params).as_deref(), Some("Unit 7"));
    params.distinguished_name = named(DnType::OrganizationName, "Org");
    assert_eq!(common_name_of_params(&params).as_deref(), Some("Org"));
    params.distinguished_name = named(DnType::CountryName, "ES");
    assert_eq!(common_name_of_params(&params), None);
    let mut dn = DistinguishedName::new();
    dn.push(DnType::OrganizationName, "Org");
    dn.push(DnType::CommonName, rcgen::DnValue::PrintableString("Printable CN".try_into().unwrap()));
    params.distinguished_name = dn;
    assert_eq!(common_name_of_params(&params).as_deref(), Some("Printable CN"));
}

#[test]
fn ca_store_is_indexed_by_name_and_key_identifier() {
    let (cert, key) = ca("Local CA");
    let id = cert.key_identifier();
    let der = cert.der().to_vec();
    let mut db = CaDb::new("CA".to_string());
    assert!(!db.contains_name("Local CA"));
    assert!(db.get_by_name("Local CA").is_none());
    assert!(db.get_by_hash(&id).is_none());
    db.insert(Arc::new(cert), Arc::new(key));
    assert_eq!(db.name, "CA");
    assert!(db.contains_name("Local CA"));
    assert!(!db.contains_name("local ca"));
    assert!(db.contains_cert(&id));
    assert!(!db.contains_cert(&id[1..]));
    assert_eq!(db.get_by_name("Local CA").unwrap().cert.der().to_vec(), der);
    assert_eq!(db.get_by_hash(&id).unwrap().cert.der().to_vec(), der);
}

#[test]
fn ca_with_the_same_name_replaces_the_earlier_one() {
    let (first, first_key) = ca("Twin");
    let (second, second_key) = ca("Twin");
    let second_der = second.der().to_vec();
    let first_id = first.key_identifier();
    let mut db = CaDb::new("CA".to_string());
    db.insert(Arc::new(first), Arc::new(first_key));
    db.insert(Arc::new(second), Arc::new(second_key));
    assert_eq!(db.get_by_name("Twin").unwrap().cert.der().to_vec(), second_der);
    assert!(db.contains_cert(&first_id));
    assert_eq!(db.idx_name.entries.len(), 1);
    assert_eq!(db.idx_hash.entries.len(), 2);
}

#[test]
fn end_cert_store_is_indexed_by_name_and_leaf() {
    let (root, root_key) = ca("R");
    let (leaf, leaf_key) = issued("leaf.example", false, &root, &root_key);
    let leaf_der = leaf.der().to_vec();
    let entry = CertifiedKey { chain: vec![leaf_der.clone()], cert: Arc::new(leaf), key: Arc::new(leaf_key) };
    let mut db = CertDb::new();
    assert!(!db.contains_name("leaf.example"));
    db.insert("leaf.example".to_string(), entry);
    assert!(db.contains_name("leaf.example"));
    assert!(db.contains_cert(&leaf_der));
    assert!(!db.contains_cert(b"other"));
    let by_name = db.get_by_name("leaf.example").unwrap();
    let by_hash = db.get_by_hash(&leaf_der).unwrap();
    assert_eq!(by_name.chain, vec![leaf_der.clone()]);
    assert_eq!(by_name.key.serialize_pem(), by_hash.key.serialize_pem());
    assert_eq!(by_name.end_entity_cert(), Some(&leaf_der));
    assert!(db.get_by_name("other.example").is_none());
}

#[test]
fn mitm_with_chain_of_depth_2() {
    let (root, root_key) = ca("Test Root R");
    let (leaf, _) = issued("leaf.example", false, &root, &root_key);
    let probed = vec![leaf.der().to_vec(), root.der().to_vec()];
    let mut resolver = resolver_trusting(&root);
    let mut pinned = TlsCertStore::new(vec![]);
    assert!(matches!(resolver.resolve(None), Resolution::NoName));
    assert!(matches!(resolver.resolve(Some("leaf.example")), Resolution::Probe));
    let forged = resolver.resolve_probed(&mut pinned, "leaf.example", Some(&probed)).expect("a forged leaf");
    assert_eq!(common_name_of_cert(&forged.cert).as_deref(), Some("leaf.example"));
    assert_eq!(forged.chain.len(), 1);
    assert_eq!(forged.chain[0], forged.cert.der().to_vec());
    assert_ne!(forged.chain[0], probed[0]);
    assert!(pinned.pinned.is_empty());
    assert!(resolver.store.contains_name("leaf.example"));
    assert!(resolver.inter.idx_hash.entries.is_empty());
    // The anchor is the local CA, not the origin's root.
    assert!(resolver.get_ca_cert(&probed[1]).is_some());
    assert!(resolver.get_ca_cert(&probed[0]).is_none());
}

#[test]
fn forged_leaf_is_generated_once() {
    let (root, root_key) = ca("Test Root R");
    let (leaf, _) = issued("leaf.example", false, &root, &root_key);
    let probed = vec![leaf.der().to_vec(), root.der().to_vec()];
    let mut resolver = resolver_trusting(&root);
    let mut pinned = TlsCertStore::new(vec![]);
    let first = resolver.resolve_probed(&mut pinned, "leaf.example", Some(&probed)).unwrap();
    let cached = match resolver.resolve(Some("leaf.example")) {
        Resolution::Cached(c) => c,
        _ => panic!("expected the stored leaf"),
    };
    // A second worker that probed at the same time is answered from the store.
    let second = resolver.resolve_probed(&mut pinned, "leaf.example", Some(&probed)).unwrap();
    let third = resolver.resolve_probed(&mut pinned, "leaf.example", None).unwrap();
    for other in [&cached, &second, &third] {
        assert_eq!(other.key.serialize_pem(), first.key.serialize_pem());
        assert_eq!(other.chain, first.chain);
    }
    // Forging for another name leaves the first leaf alone.
    let (leaf2, _) = issued("two.example", false, &root, &root_key);
    let other = resolver.resolve_probed(&mut pinned, "two.example", Some(&vec![leaf2.der().to_vec(), root.der().to_vec()])).unwrap();
    assert_ne!(other.key.serialize_pem(), first.key.serialize_pem());
    let again = resolver.store.get_by_name("leaf.example").unwrap();
    assert_eq!(again.key.serialize_pem(), first.key.serialize_pem());
    assert!(pinned.pinned.is_empty());
}

#[test]
fn intermediates_are_mirrored_and_remembered() {
    let (root, root_key) = ca("Deep Root");
    let (inter, inter_key) = issued("Deep Intermediate", true, &root, &root_key);
    let (leaf, _) = issued("deep.example", false, &inter, &inter_key);
    let probed = vec![leaf.der().to_vec(), inter.der().to_vec(), root.der().to_vec()];
    let mut resolver = resolver_trusting(&root);
    assert!(resolver.get_intermediate_cert(&probed[1]).is_none());
    assert_eq!(resolver.process_conn_certs(&probed, "deep.example"), Some(()));
    let forged = resolver.store.get_by_name("deep.example").unwrap();
    assert_eq!(forged.chain.len(), 2);
    assert_eq!(resolver.inter.idx_hash.entries.len(), 1);
    assert!(resolver.inter.contains_name("Deep Intermediate"));
    let mirrored = resolver.inter.get_by_name("Deep Intermediate").unwrap();
    assert_eq!(forged.chain[1], mirrored.cert.der().to_vec());
    assert_ne!(forged.chain[1], probed[1]);
    // The next leaf below the same intermediate reuses the mirror.
    let (leaf2, _) = issued("deeper.example", false, &inter, &inter_key);
    let probed2 = vec![leaf2.der().to_vec(), inter.der().to_vec(), root.der().to_vec()];
    assert_eq!(resolver.process_conn_certs(&probed2, "deeper.example"), Some(()));
    assert_eq!(resolver.store.get_by_name("deeper.example").unwrap().chain[1], forged.chain[1]);
    assert_eq!(resolver.find_anchor(&probed).map(|f| f.0), Some(2));
}

#[test]
fn unknown_root_falls_back() {
    let (root, root_key) = ca("Origin Root");
    let (leaf, _) = issued("leaf.example", false, &root, &root_key);
    let probed = vec![leaf.der().to_vec(), root.der().to_vec()];
    let (other, _) = ca("Some Other CA");
    let mut resolver = resolver_trusting(&other);
    let mut pinned = TlsCertStore::new(vec![]);
    assert!(resolver.find_anchor(&probed).is_none());
    assert!(resolver.resolve_probed(&mut pinned, "leaf.example", Some(&probed)).is_none());
    assert!(pinned.is_disabled("leaf.example"));
    assert!(!resolver.store.contains_name("leaf.example"));
    assert!(resolver.inter.idx_hash.entries.is_empty());
}

#[test]
fn failed_probe_and_short_chain_pin_the_name() {
    let (root, _) = ca("Test Root R");
    let mut resolver = resolver_trusting(&root);
    let mut pinned = TlsCertStore::new(vec![]);
    assert!(resolver.resolve_probed(&mut pinned, "down.example", None).is_none());
    assert!(pinned.is_disabled("down.example"));
    assert!(resolver.resolve_probed(&mut pinned, "short.example", Some(&vec![root.der().to_vec()])).is_none());
    assert!(pinned.is_disabled("short.example"));
    assert!(resolver.resolve_probed(&mut pinned, "empty.example", Some(&vec![])).is_none());
    assert_eq!(resolver.process_conn_certs(&vec![b"junk".to_vec(), b"more junk".to_vec()], "junk.example"), None);
    CertResolver::set_server_as_pinned(&mut pinned, "manual.example");
    assert!(pinned.is_disabled("manual.example"));
}

#[test]
fn wildcard_names_get_the_plain_name_too() {
    assert_eq!(unwildcarded("*.example.com"), Some("example.com"));
    assert_eq!(unwildcarded("example.com"), None);
    assert_eq!(unwildcarded("a.*.example.com"), None);
    assert_eq!(unwildcarded("*."), Some(""));
    let (root, root_key) = ca("Test Root R");
    let (leaf, _) = issued("*.example.com", false, &root, &root_key);
    let (cert, _) = clone_end_cert(leaf.der(), "*.example.com", &root, &root_key).unwrap();
    let sans: Vec<String> = cert.params().subject_alt_names.iter().map(|s| format!("{:?}", s)).collect();
    assert!(sans.iter().any(|s| s.contains("\"example.com\"")), "{:?}", sans);
    assert_eq!(cert.params().is_ca, IsCa::NoCa);
    assert!(cert.params().use_authority_key_identifier_extension);
}

#[test]
fn forged_leaf_may_not_sign_and_names_its_issuer() {
    let (root, root_key) = ca("Test Root R");
    let (leaf, _) = issued("plain.example", false, &root, &root_key);
    let (cert, _) = clone_end_cert(leaf.der(), "plain.example", &root, &root_key).unwrap();
    assert_eq!(cert.params().is_ca, IsCa::NoCa);
    assert!(cert.params().use_authority_key_identifier_extension);
    assert_eq!(common_name_of_cert(&cert).as_deref(), Some("plain.example"));
    // No name is added for a name without a wildcard.
    assert_eq!(cert.params().subject_alt_names.len(), 1);
    // A CA certificate is mirrored as a leaf all the same: the leaf may not sign.
    let (cert, _) = clone_end_cert(root.der(), "plain.example", &root, &root_key).unwrap();
    assert_eq!(cert.params().is_ca, IsCa::NoCa);
    assert!(clone_end_cert(b"junk", "plain.example", &root, &root_key).is_none());
}

#[test]
fn wildcard_whose_rest_is_not_ascii_cannot_be_forged() {
    let (root, root_key) = ca("Test Root R");
    let (leaf, _) = issued("leaf.example", false, &root, &root_key);
    assert!(clone_end_cert(leaf.der(), "*.m\u{fc}nchen.de", &root, &root_key).is_none());
    assert!(clone_end_cert(leaf.der(), "m\u{fc}nchen.de", &root, &root_key).is_some());
    let probed = vec![leaf.der().to_vec(), root.der().to_vec()];
    let mut resolver = resolver_trusting(&root);
    assert_eq!(resolver.process_conn_certs(&probed, "*.m\u{fc}nchen.de"), None);
    assert!(!resolver.store.contains_name("*.m\u{fc}nchen.de"));
}

#[test]
fn stored_leaf_mirrors_the_probed_leaf() {
    let (root, root_key) = ca("Deep Root");
    let (inter, inter_key) = issued("Deep Intermediate", true, &root, &root_key);
    let (leaf, _) = issued("*.deep.example", false, &inter, &inter_key);
    let probed = vec![leaf.der().to_vec(), inter.der().to_vec(), root.der().to_vec()];
    let mut resolver = resolver_trusting(&root);
    assert_eq!(resolver.process_conn_certs(&probed, "*.deep.example"), Some(()));
    let stored = resolver.store.get_by_name("*.deep.example").unwrap();
    assert_eq!(common_name_of_cert(&stored.cert).as_deref(), Some("*.deep.example"));
    assert_eq!(stored.cert.params().is_ca, IsCa::NoCa);
    assert!(stored.cert.params().use_authority_key_identifier_extension);
    let sans: Vec<String> =
        stored.cert.params().subject_alt_names.iter().map(|s| format!("{:?}", s)).collect();
    assert!(sans.last().unwrap().contains("\"deep.example\""), "{:?}", sans);
    // Intermediates once remembered stay remembered.
    let (leaf2, _) = issued("other.example", false, &root, &root_key);
    let probed2 = vec![leaf2.der().to_vec(), root.der().to_vec()];
    assert_eq!(resolver.process_conn_certs(&probed2, "other.example"), Some(()));
    assert!(resolver.inter.contains_name("Deep Intermediate"));
}

#[test]
fn unreadable_intermediate_fails_the_forging() {
    let (root, root_key) = ca("Deep Root");
    let (leaf, _) = issued("deep.example", false, &root, &root_key);
    let probed = vec![leaf.der().to_vec(), b"not a certificate".to_vec(), root.der().to_vec()];
    let mut resolver = resolver_trusting(&root);
    assert_eq!(resolver.process_conn_certs(&probed, "deep.example"), None);
    assert!(!resolver.store.contains_name("deep.example"));
    assert!(resolver.inter.idx_hash.entries.is_empty());
    let unreadable_leaf = vec![b"junk".to_vec(), root.der().to_vec()];
    assert_eq!(resolver.process_conn_certs(&unreadable_leaf, "deep.example"), None);
}

#[test]
fn only_certificates_that_may_sign_match_a_local_ca() {
    let (root, root_key) = ca("Shared Name");
    let resolver = resolver_trusting(&root);
    assert!(resolver.get_ca_cert(root.der()).is_some());
    // The same subject on a certificate that may not sign matches nothing.
    let (leaf, _) = issued("Shared Name", false, &root, &root_key);
    assert!(resolver.get_ca_cert(leaf.der()).is_none());
    assert!(resolver.get_ca_cert(b"junk").is_none());
}

#[test]
fn facts_of_a_certificate_are_read_from_its_der() {
    let (root, _) = ca("Facts Root");
    let facts = read_cert_facts(root.der()).unwrap();
    assert_eq!(facts.kind, CaKind::Ca);
    assert!(facts.serial.is_some());
    assert!(matches!(facts.common_name, Some(NameValue::Utf8(ref n)) if n == "Facts Root"));
    assert!(facts.organizational_unit.is_none() && facts.organization.is_none());
    assert!(read_cert_facts(b"junk").is_none());
    let mut params = CertificateParams::new(Vec::<String>::new()).unwrap();
    params.distinguished_name = named(DnType::OrganizationName, "Org");
    assert!(matches!(
        subject_name_value(&params, NameKind::OrganizationName),
        Some(NameValue::Utf8(ref n)) if n == "Org"
    ));
    assert!(subject_name_value(&params, NameKind::CommonName).is_none());
}

#[test]
fn clones_keep_the_subject_and_change_the_key() {
    let (root, root_key) = ca("First Root");
    let (clone, clone_key) = clone_ca_cert(root.der()).unwrap();
    assert_eq!(common_name_of_cert(&clone).as_deref(), Some("First Root"));
    assert_ne!(clone_key.serialize_pem(), root_key.serialize_pem());
    assert!(clone_ca_cert(b"not a certificate").is_none());
    let (inter, _) = issued("Inter", true, &root, &root_key);
    let (mirror, mirror_key) = clone_real_cert(inter.der(), &clone, &clone_key).unwrap();
    assert_eq!(common_name_of_cert(&mirror).as_deref(), Some("Inter"));
    assert_ne!(mirror.der().to_vec(), inter.der().to_vec());
    assert!(!mirror_key.serialize_pem().is_empty());
    assert!(clone_real_cert(b"junk", &clone, &clone_key).is_none());
}

#[test]
fn cloned_pair_loads_with_the_common_name_of_its_source() {
    let (root, _) = ca("Round Trip Root");
    let file = CaFile { name: "root.pem".to_string(), stem: "root".to_string(), contents: root.pem().into_bytes() };
    let (cert_pem, key_pem) = match clone_ca_file(&file) {
        CloneOutcome::Cloned { cert_file, cert, key_file, key } => {
            assert_eq!(cert_file, "root.pem");
            assert_eq!(key_file, "root.key");
            (cert.pem(), key.serialize_pem())
        }
        _ => panic!("expected a clone"),
    };
    assert_ne!(cert_pem, root.pem());
    let mut db = CaDb::new("CA".to_string());
    db.load(cert_pem.as_bytes(), key_pem.as_bytes(), "root.pem", "root.key").unwrap();
    assert!(db.contains_name("Round Trip Root"));
    assert_eq!(common_name_of_cert(&db.get_by_name("Round Trip Root").unwrap().cert).as_deref(), Some("Round Trip Root"));
}

#[test]
fn clone_tool_handles_der_pem_and_junk() {
    let (root, _) = ca("Der Root");
    let mut spaced = b" \n\t".to_vec();
    spaced.extend_from_slice(root.der());
    let files = vec![
        CaFile { name: "a.der".to_string(), stem: "a".to_string(), contents: spaced },
        CaFile { name: "b.pem".to_string(), stem: "b".to_string(), contents: b"-----BEGIN NOTHING".to_vec() },
        CaFile { name: "c.bin".to_string(), stem: "c".to_string(), contents: b"junk".to_vec() },
    ];
    match clone_ca_file(&files[0]) {
        CloneOutcome::Cloned { cert, .. } => {
            assert_eq!(common_name_of_cert(&cert).as_deref(), Some("Der Root"));
            assert!(matches!(cert.params().is_ca, IsCa::Ca(_)));
        }
        _ => panic!("expected a clone"),
    }
    let out = clone_ca_certs(&files);
    assert_eq!(out.len(), 3);
    assert!(matches!(&out[0], CloneOutcome::Cloned { cert_file, key_file, .. } if cert_file == "a.pem" && key_file == "a.key"));
    assert!(matches!(out[1], CloneOutcome::Skipped));
    assert!(matches!(out[2], CloneOutcome::Failed));
}

#[test]
fn pem_is_told_by_five_dashes() {
    assert!(looks_like_pem(b"-----BEGIN CERTIFICATE-----"));
    assert!(looks_like_pem(b"\r\n \t\x0c-----"));
    assert!(!looks_like_pem(b"----"));
    assert!(!looks_like_pem(b"---- -"));
    assert!(!looks_like_pem(b""));
    assert!(!looks_like_pem(b"0\x82-----"));
    assert_eq!(trim_ascii_start(b" \t\r\n\x0cx y "), b"x y ");
    assert_eq!(trim_ascii_start(b"\x0bx"), b"\x0bx");
    assert_eq!(trim_ascii_start(b"   "), b"");
}

#[test]
fn ca_directory_takes_pairs_and_skips_the_rest() {
    let (root, root_key) = ca("Dir Root");
    let file = |name: &str, stem: &str, contents: &[u8]| CaFile { name: name.to_string(), stem: stem.to_string(), contents: contents.to_vec() };
    let files = vec![
        file("readme.txt", "readme", b"hello"),
        file("root.pem", "root", root.pem().as_bytes()),
        file("lonely.pem", "lonely", b"no key beside me"),
        file("root.key", "root", root_key.serialize_pem().as_bytes()),
    ];
    let db = CaDb::from_dir("CA".to_string(), &files).unwrap();
    assert_eq!(db.name, "CA");
    assert!(db.contains_name("Dir Root"));
    assert!(db.contains_cert(&root.key_identifier()));
    assert_eq!(db.idx_hash.entries.len(), 1);
    let empty = CaDb::from_dir("CA".to_string(), &vec![file("a.txt", "a", b""), file("b.pem", "b", b"")]).unwrap();
    assert!(empty.idx_name.entries.is_empty() && empty.idx_hash.entries.is_empty());
}

#[test]
fn cloned_pair_is_found_again_in_the_directory() {
    let (root, _) = ca("Cloned Dir Root");
    let source = CaFile { name: "ca.crt".to_string(), stem: "ca".to_string(), contents: root.der().to_vec() };
    let (cert_file, cert, key_file, key) = match clone_ca_file(&source) {
        CloneOutcome::Cloned { cert_file, cert, key_file, key } => (cert_file, cert, key_file, key),
        _ => panic!("expected a clone"),
    };
    assert_eq!((cert_file.as_str(), key_file.as_str()), ("ca.pem", "ca.key"));
    let files = vec![
        CaFile { name: key_file, stem: "ca".to_string(), contents: key.serialize_pem().into_bytes() },
        CaFile { name: cert_file, stem: "ca".to_string(), contents: cert.pem().into_bytes() },
    ];
    let db = CaDb::from_dir("CA".to_string(), &files).unwrap();
    let found = db.get_by_name("Cloned Dir Root").expect("the clone under its common name");
    assert_eq!(common_name_of_cert(&found.cert).as_deref(), Some("Cloned Dir Root"));
    let by_id = db.get_by_hash(&found.cert.key_identifier()).expect("the clone under its key identifier");
    assert_eq!(by_id.cert.der().to_vec(), found.cert.der().to_vec());
    assert_eq!(by_id.key.serialize_pem(), key.serialize_pem());
    assert_eq!(db.idx_name.entries.len(), 1);
    assert_eq!(db.idx_hash.entries.len(), 1);
}

#[test]
fn only_pairs_are_taken_in() {
    let (a, a_key) = ca("Pair A");
    let (b, _) = ca("Lonely B");
    let file = |name: &str, stem: &str, contents: &[u8]| CaFile { name: name.to_string(), stem: stem.to_string(), contents: contents.to_vec() };
    let files = vec![
        file("a.pem", "a", a.pem().as_bytes()),
        file("a.key", "a", a_key.serialize_pem().as_bytes()),
        file("b.pem", "b", b.pem().as_bytes()),
        file("c.txt", "c", b"notes"),
    ];
    let db = CaDb::from_dir("CA".to_string(), &files).unwrap();
    assert!(db.contains_name("Pair A"));
    assert!(!db.contains_name("Lonely B"));
    assert_eq!(db.idx_name.entries.len(), 1);
    assert_eq!(db.idx_hash.entries.len(), 1);
    assert_eq!(find_key_file(&files, 0), Some(1));
    assert_eq!(find_key_file(&files, 2), None);
}

#[test]
fn loading_names_the_file_that_is_at_fault() {
    let (root, root_key) = ca("Load Root");
    let mut db = CaDb::new("CA".to_string());
    let e = db.load(b"no pem", root_key.serialize_pem().as_bytes(), "c.pem", "c.key").unwrap_err();
    assert_eq!(e.message, "Invalid certificate c.pem");
    let mut not_a_cert = b"-----BEGIN CERTIFICATE-----\n".to_vec();
    not_a_cert.extend_from_slice(b"AAAA\n-----END CERTIFICATE-----\n");
    let e = db.load(&not_a_cert, root_key.serialize_pem().as_bytes(), "c.pem", "c.key").unwrap_err();
    assert_eq!(e.message, "Invalid certificate c.pem");
    let e = db.load(root.pem().as_bytes(), &[0xff], "c.pem", "c.key").unwrap_err();
    assert_eq!(e.message, "Invalid certificate c.key");
    let e = db.load(root.pem().as_bytes(), b"no key", "c.pem", "c.key").unwrap_err();
    assert_eq!(e.message, "Invalid certificate c.key");
    assert!(db.idx_hash.entries.is_empty() && db.idx_name.entries.is_empty());
    db.load(root.pem().as_bytes(), root_key.serialize_pem().as_bytes(), "c.pem", "c.key").unwrap();
    let found = db.get_by_name("Load Root").unwrap();
    assert_eq!(found.key.serialize_pem(), root_key.serialize_pem());
    assert!(matches!(found.cert.params().is_ca, IsCa::Ca(_)));
    assert!(db.contains_cert(&found.cert.key_identifier()));
}

#[test]
fn forged_chain_presents_leaf_and_mirrors() {
    let (root, root_key) = ca("Deep Root");
    let (inter, inter_key) = issued("Deep Intermediate", true, &root, &root_key);
    let (leaf, _) = issued("deep.example", false, &inter, &inter_key);
    let probed = vec![leaf.der().to_vec(), inter.der().to_vec(), root.der().to_vec()];
    let mut resolver = resolver_trusting(&root);
    assert_eq!(resolver.process_conn_certs(&probed, "deep.example"), Some(()));
    let stored = resolver.store.get_by_name("deep.example").unwrap();
    let mirror = resolver.inter.get_by_name("Deep Intermediate").unwrap();
    assert_eq!(stored.chain, vec![stored.cert.der().to_vec(), mirror.cert.der().to_vec()]);
    assert!(matches!(mirror.cert.params().is_ca, IsCa::Ca(_)));
    assert!(resolver.inter.contains_cert(&mirror.cert.key_identifier()));
    // Without intermediates the chain is the leaf alone.
    let (leaf2, _) = issued("flat.example", false, &root, &root_key);
    let probed2 = vec![leaf2.der().to_vec(), root.der().to_vec()];
    assert_eq!(resolver.process_conn_certs(&probed2, "flat.example"), Some(()));
    let flat = resolver.store.get_by_name("flat.example").unwrap();
    assert_eq!(flat.chain, vec![flat.cert.der().to_vec()]);
}

#[test]
fn presented_order_is_the_reverse_of_the_mirrors() {
    let (a, a_key) = ca("A");
    let (b, b_key) = ca("B");
    let a_der = a.der().to_vec();
    let b_der = b.der().to_vec();
    let mirrors = vec![
        scap_proxy::proxy::tls::db::CaEntry { cert: Arc::new(a), key: Arc::new(a_key) },
        scap_proxy::proxy::tls::db::CaEntry { cert: Arc::new(b), key: Arc::new(b_key) },
    ];
    let order = CertResolver::presented_order(&mirrors);
    assert_eq!(order.len(), 2);
    assert_eq!(order[0].cert.der().to_vec(), b_der);
    assert_eq!(order[1].cert.der().to_vec(), a_der);
    let (leaf, leaf_key) = ca("Leaf");
    let leaf_der = leaf.der().to_vec();
    let key = CertResolver::to_certkey(Arc::new(leaf), Arc::new(leaf_key), &order);
    assert_eq!(key.chain, vec![leaf_der, b_der, a_der]);
}

#[test]
fn ca_directory_fails_on_a_bad_pair() {
    let (root, root_key) = ca("Dir Root");
    let file = |name: &str, stem: &str, contents: &[u8]| CaFile { name: name.to_string(), stem: stem.to_string(), contents: contents.to_vec() };
    let bad_cert = vec![file("x.pem", "x", b"garbage"), file("x.key", "x", root_key.serialize_pem().as_bytes())];
    let e = CaDb::from_dir("CA".to_string(), &bad_cert).err().unwrap();
    assert_eq!(e.kind, ErrorKind::InvalidData);
    assert_eq!(e.message, "Invalid certificate x.pem");
    let bad_key = vec![file("x.pem", "x", root.pem().as_bytes()), file("x.key", "x", b"garbage")];
    let e = CaDb::from_dir("CA".to_string(), &bad_key).err().unwrap();
    assert_eq!(e.kind, ErrorKind::InvalidData);
    assert_eq!(e.message, "Invalid certificate x.key");
    let mut db = CaDb::new("CA".to_string());
    assert!(db.load(root.pem().as_bytes(), &[0xff, 0xfe], "c", "k").is_err());
    assert!(db.idx_hash.entries.is_empty());
}
