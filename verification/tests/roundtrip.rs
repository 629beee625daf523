use certkit::cert::X509;
use certkit::crypto::{MessageDigest, PKey};
use certkit::extension::{Extension, KeyUsageOption};
use certkit::generator::X509Generator;
use certkit::nid::Nid;
use certkit::req::X509Req;

fn sample_generator() -> X509Generator {
    X509Generator::new()
        .set_valid_period(730)
        .add_name("CN".to_string(), "example.com".to_string())
        .add_name("O".to_string(), "Example Org".to_string())
        .set_sign_hash(MessageDigest::sha256())
        .add_extension(Extension::KeyUsage(vec![
            KeyUsageOption::DigitalSignature,
            KeyUsageOption::KeyEncipherment,
        ]))
}

fn sample_key() -> PKey {
    PKey::from_bytes(vec![7, 1, 9, 0, 255, 42])
}

#[test]
fn test_cert_der_roundtrip() {
    let cert = sample_generator().sign(&sample_key()).unwrap();
    let der = cert.get_ref().to_der().unwrap();
    let back = X509::from_der(&der).unwrap();

    assert_eq!(
        back.get_ref().subject_name().text_by_nid(Nid::CommonName).unwrap(),
        "example.com"
    );
    assert_eq!(
        back.get_ref().subject_name().text_by_nid(Nid::OrganizationName).unwrap(),
        "Example Org"
    );
    assert_eq!(back.get_ref().serial(), cert.get_ref().serial());
    assert_eq!(
        back.get_ref().not_before().seconds(),
        cert.get_ref().not_before().seconds()
    );
    assert_eq!(
        back.get_ref().not_after().seconds(),
        cert.get_ref().not_after().seconds()
    );
    assert_eq!(back.get_ref().extensions().len(), 1);
    assert_eq!(back.get_ref().to_der().unwrap(), der);
}

#[test]
fn test_cert_pem_roundtrip() {
    let cert = sample_generator().sign(&sample_key()).unwrap();
    let pem = cert.get_ref().to_pem().unwrap();
    let back = X509::from_pem(&pem).unwrap();

    assert_eq!(
        back.get_ref().subject_name().text_by_nid(Nid::CommonName).unwrap(),
        "example.com"
    );
    assert_eq!(back.get_ref().serial(), cert.get_ref().serial());
    assert_eq!(back.get_ref().to_der().unwrap(), cert.get_ref().to_der().unwrap());
    assert_eq!(back.get_ref().to_pem().unwrap(), pem);
}

#[test]
fn test_cert_pem_looks_armored() {
    let cert = sample_generator().sign(&sample_key()).unwrap();
    let pem = cert.get_ref().to_pem().unwrap();
    let text = String::from_utf8(pem).unwrap();
    assert!(text.starts_with("-----BEGIN CERTIFICATE-----\n"));
    assert!(text.ends_with("\n-----END CERTIFICATE-----\n"));
}

#[test]
fn test_req_der_roundtrip() {
    let req = sample_generator().request(&sample_key()).unwrap();
    let der = req.to_der().unwrap();
    let back = X509Req::from_der(&der).unwrap();

    assert_eq!(
        back.subject_name().text_by_nid(Nid::CommonName).unwrap(),
        "example.com"
    );
    assert_eq!(back.extensions().len(), 1);
    assert_eq!(back.to_der().unwrap(), der);
}

#[test]
fn test_req_pem_roundtrip() {
    let req = sample_generator().request(&sample_key()).unwrap();
    let pem = req.to_pem().unwrap();
    let back = X509Req::from_pem(&pem).unwrap();

    assert_eq!(
        back.subject_name().text_by_nid(Nid::CommonName).unwrap(),
        "example.com"
    );
    assert_eq!(back.to_der().unwrap(), req.to_der().unwrap());
}

#[test]
fn test_unicode_name_roundtrip() {
    let cert = X509Generator::new()
        .add_name("CN".to_string(), "bj\u{00f6}rn.example".to_string())
        .sign(&sample_key())
        .unwrap();
    let der = cert.get_ref().to_der().unwrap();
    let back = X509::from_der(&der).unwrap();
    assert_eq!(
        back.get_ref().subject_name().text_by_nid(Nid::CommonName).unwrap(),
        "bj\u{00f6}rn.example"
    );
}

#[test]
fn test_from_der_rejects_garbage() {
    assert!(X509::from_der(&[1, 2, 3]).is_err());
    assert!(X509::from_der(&[]).is_err());
}

#[test]
fn test_from_der_rejects_trailing_bytes() {
    let cert = sample_generator().sign(&sample_key()).unwrap();
    let mut der = cert.get_ref().to_der().unwrap();
    der.push(0);
    assert!(X509::from_der(&der).is_err());
}

#[test]
fn test_from_pem_rejects_bad_armor() {
    assert!(X509::from_pem(b"garbage").is_err());
    let cert = sample_generator().sign(&sample_key()).unwrap();
    let mut pem = cert.get_ref().to_pem().unwrap();
    // corrupt one hex digit into a non-digit
    let mid = pem.len() / 2;
    pem[mid] = b'!';
    assert!(X509::from_pem(&pem).is_err());
}

#[test]
fn test_clone_shares_certificate() {
    let cert = sample_generator().sign(&sample_key()).unwrap();
    let copy = cert.clone();
    assert_eq!(
        copy.get_ref().to_der().unwrap(),
        cert.get_ref().to_der().unwrap()
    );
    assert_eq!(copy.get_ref().serial(), cert.get_ref().serial());
}

#[test]
fn test_fingerprint_widths() {
    let cert = sample_generator().sign(&sample_key()).unwrap();
    let sha1 = cert.get_ref().fingerprint(MessageDigest::sha1()).unwrap();
    let sha256 = cert.get_ref().fingerprint(MessageDigest::sha256()).unwrap();
    assert_eq!(sha1.len(), 20);
    assert_eq!(sha256.len(), 32);
    // the digest is a function of the certificate bytes alone
    assert_eq!(
        cert.get_ref().fingerprint(MessageDigest::sha256()).unwrap(),
        sha256
    );
    assert_ne!(sha256[..20].to_vec(), sha1);
}

#[test]
fn test_public_key_carried() {
    let key = sample_key();
    let cert = sample_generator().sign(&key).unwrap();
    let carried = cert.get_ref().public_key().unwrap();
    assert_eq!(carried.bytes(), key.bytes());
}
