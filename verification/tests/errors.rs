use certkit::cert::X509;
use certkit::err::{ErrorStack, ERR_ARMOR, ERR_DECODE};
use certkit::req::X509Req;

fn expect_err<T>(r: Result<T, ErrorStack>) -> ErrorStack {
    match r {
        Err(e) => e,
        Ok(_) => panic!("expected an error"),
    }
}

#[test]
fn test_decode_error_code() {
    let e = expect_err(X509::from_der(&[0xde, 0xad]));
    assert_eq!(e.codes().as_slice(), &[ERR_DECODE]);
    let e = expect_err(X509Req::from_der(&[]));
    assert_eq!(e.codes().as_slice(), &[ERR_DECODE]);
}

#[test]
fn test_armor_error_code() {
    let e = expect_err(X509::from_pem(b"not armored at all"));
    assert_eq!(e.codes().as_slice(), &[ERR_ARMOR]);
    let e = expect_err(X509Req::from_pem(
        b"-----BEGIN NOTHING-----\n\n-----END NOTHING-----\n",
    ));
    assert_eq!(e.codes().as_slice(), &[ERR_ARMOR]);
}
