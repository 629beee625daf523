use certkit::crypto::PKey;
use certkit::generator::X509Generator;
use certkit::verify::{X509StoreContext, X509VerifyError, OK_CODE};

#[test]
fn test_from_raw_ok_sentinel() {
    assert!(X509VerifyError::from_raw(OK_CODE).is_none());
}

#[test]
fn test_from_raw_known_codes() {
    for code in [2i64, 9, 10, 18, 20, 21, 23, 24, 26, 27] {
        let e = X509VerifyError::from_raw(code).unwrap();
        assert_eq!(e.as_raw(), code);
        assert!(!e.error_string().is_empty());
    }
}

#[test]
fn test_from_raw_unknown_code() {
    let e = X509VerifyError::from_raw(424242).unwrap();
    assert_eq!(e.as_raw(), 424242);
    assert!(!e.error_string().is_empty());
}

#[test]
fn test_error_string_texts() {
    assert_eq!(
        X509VerifyError::from_raw(10).unwrap().error_string(),
        "certificate has expired"
    );
    assert_eq!(
        X509VerifyError::from_raw(18).unwrap().error_string(),
        "self signed certificate"
    );
}

#[test]
fn test_store_context() {
    let ctx = X509StoreContext::new(20, 1, None);
    assert_eq!(ctx.error_depth(), 1);
    let e = ctx.error().unwrap();
    assert_eq!(e.as_raw(), 20);
    assert!(ctx.current_cert().is_none());

    let ok = X509StoreContext::new(OK_CODE, 0, None);
    assert!(ok.error().is_none());
}

#[test]
fn test_store_context_with_cert() {
    let cert = X509Generator::new()
        .sign(&PKey::from_bytes(vec![1]))
        .unwrap();
    let serial = cert.get_ref().serial();
    let ctx = X509StoreContext::new(OK_CODE, 0, Some(cert));
    let seen = ctx.current_cert().unwrap();
    assert_eq!(seen.serial(), serial);
}
