use certkit::crypto::{MessageDigest, PKey};
use certkit::extension::{Extension, ExtensionType, ext_type_eq, KeyUsageOption};
use certkit::generator::X509Generator;
use certkit::nid::Nid;
use certkit::san::GeneralName;

fn key() -> PKey {
    PKey::from_bytes(vec![11, 22, 33])
}

#[test]
fn test_signed_certificate_fields() {
    let cert = X509Generator::new()
        .add_name("CN".to_string(), "example.com".to_string())
        .set_valid_period(730)
        .add_extension(Extension::KeyUsage(vec![KeyUsageOption::DigitalSignature]))
        .sign(&key())
        .unwrap();

    let r = cert.get_ref();
    assert_eq!(r.subject_name().text_by_nid(Nid::CommonName).unwrap(), "example.com");
    assert_eq!(
        r.not_after().seconds() - r.not_before().seconds(),
        730 * 86400
    );
    let mut key_usage_count = 0;
    for (t, _) in r.extensions().iter() {
        if ext_type_eq(&t, &ExtensionType::KeyUsage) {
            key_usage_count += 1;
        }
    }
    assert_eq!(key_usage_count, 1);
    assert_eq!(r.version(), 2);
    assert!(r.serial() >= 0);
}

#[test]
fn test_default_subject_when_no_names() {
    let cert = X509Generator::new().sign(&key()).unwrap();
    let cn = cert.get_ref().subject_name().text_by_nid(Nid::CommonName).unwrap();
    assert_eq!(cn, "certkit");
}

#[test]
fn test_subject_alt_names() {
    let cert = X509Generator::new()
        .add_name("CN".to_string(), "example.com".to_string())
        .add_extension(Extension::SubjectAltName(vec![GeneralName::Dns(
            "example.com".to_string(),
        )]))
        .sign(&key())
        .unwrap();

    let names = cert.get_ref().subject_alt_names().unwrap();
    assert_eq!(names.len(), 1);
    assert_eq!(names.get(0).dnsname(), Some("example.com"));
    assert_eq!(names.get(0).ipaddress(), None);
}

#[test]
fn test_subject_alt_names_absent() {
    let cert = X509Generator::new().sign(&key()).unwrap();
    assert!(cert.get_ref().subject_alt_names().is_none());
}

#[test]
fn test_subject_alt_names_ip_entry() {
    let cert = X509Generator::new()
        .add_extension(Extension::SubjectAltName(vec![
            GeneralName::Ip(vec![127, 0, 0, 1]),
            GeneralName::Dns("localhost".to_string()),
        ]))
        .sign(&key())
        .unwrap();

    let names = cert.get_ref().subject_alt_names().unwrap();
    assert_eq!(names.len(), 2);
    assert_eq!(names.get(0).ipaddress(), Some(&[127u8, 0, 0, 1][..]));
    assert_eq!(names.get(0).dnsname(), None);
    assert_eq!(names.get(1).dnsname(), Some("localhost"));
}

#[test]
fn test_request_carries_key_usage() {
    let req = X509Generator::new()
        .add_name("CN".to_string(), "example.com".to_string())
        .add_extension(Extension::KeyUsage(vec![KeyUsageOption::DigitalSignature]))
        .set_sign_hash(MessageDigest::sha256())
        .request(&key())
        .unwrap();

    let mut found = false;
    for (t, e) in req.extensions().iter() {
        if ext_type_eq(&t, &ExtensionType::KeyUsage) {
            found = true;
            match e {
                Extension::KeyUsage(os) => {
                    assert!(matches!(os[0], KeyUsageOption::DigitalSignature))
                }
                _ => panic!("key-usage key on another extension kind"),
            }
        }
    }
    assert!(found, "requested extensions should include KeyUsage");
}

#[test]
fn test_builder_defaults() {
    // the defaults are exercised through signing: 365 days, SHA-1
    let cert = X509Generator::new().sign(&key()).unwrap();
    let r = cert.get_ref();
    assert_eq!(
        r.not_after().seconds() - r.not_before().seconds(),
        365 * 86400
    );
    assert_eq!(r.fingerprint(MessageDigest::sha1()).unwrap().len(), 20);
    assert_eq!(r.extensions().len(), 0);
}

#[test]
fn test_add_names_batch() {
    let cert = X509Generator::new()
        .add_names(vec![
            ("CN".to_string(), "example.com".to_string()),
            ("L".to_string(), "Springfield".to_string()),
        ])
        .sign(&key())
        .unwrap();
    let name = cert.get_ref().subject_name();
    assert_eq!(name.text_by_nid(Nid::CommonName).unwrap(), "example.com");
    assert_eq!(name.text_by_nid(Nid::LocalityName).unwrap(), "Springfield");
    assert_eq!(name.text_by_nid(Nid::CountryName), None);
    assert_eq!(name.len(), 2);
}

#[test]
fn test_add_extensions_batch_replaces() {
    let cert = X509Generator::new()
        .add_extensions(vec![
            Extension::KeyUsage(vec![KeyUsageOption::DigitalSignature]),
            Extension::KeyUsage(vec![KeyUsageOption::KeyCertSign, KeyUsageOption::CRLSign]),
        ])
        .sign(&key())
        .unwrap();
    let items = cert.get_ref().extensions().iter();
    assert_eq!(items.len(), 1);
    match &items[0].1 {
        Extension::KeyUsage(os) => assert_eq!(os.len(), 2),
        _ => panic!("expected a key-usage extension"),
    }
}
