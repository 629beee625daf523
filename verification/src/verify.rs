//! Verification outcomes: a raw status code wrapped with a stable,
//! human-readable description, and the context a chain verification step
//! reports through.

use vstd::prelude::*;
use crate::cert::{X509, X509Ref, CertView};

verus! {

/// The reserved status denoting a successful verification.
pub const OK_CODE: i64 = 0;

/// A non-OK certificate verification status.
pub struct X509VerifyError {
    code: i64,
}

impl View for X509VerifyError {
    type V = i64;

    closed spec fn view(&self) -> i64 {
        self.code
    }
}

impl X509VerifyError {
    /// Wraps a raw status code; `None` exactly when the code is the
    /// reserved OK value.
    pub fn from_raw(err: i64) -> (r: Option<X509VerifyError>)
        ensures
            err == OK_CODE <==> r is None,
            r matches Some(e) ==> e@ == err,
    {
        if err == OK_CODE {
            None
        } else {
            Some(X509VerifyError { code: err })
        }
    }

    /// The raw status code.
    pub fn as_raw(&self) -> (r: i64)
        ensures
            r == self@,
    {
        self.code
    }

    /// The description each status code carries.
    pub open spec fn spec_error_text(code: i64) -> Seq<char> {
        if code == 2 {
            "unable to get issuer certificate"@
        } else if code == 9 {
            "certificate is not yet valid"@
        } else if code == 10 {
            "certificate has expired"@
        } else if code == 18 {
            "self signed certificate"@
        } else if code == 20 {
            "unable to get local issuer certificate"@
        } else if code == 21 {
            "unable to verify the first certificate"@
        } else if code == 23 {
            "certificate revoked"@
        } else if code == 24 {
            "invalid CA certificate"@
        } else if code == 26 {
            "unsupported certificate purpose"@
        } else if code == 27 {
            "certificate not trusted"@
        } else {
            "unknown certificate verification error"@
        }
    }

    /// A stable human-readable description of the status; never empty.
    pub fn error_string(&self) -> (r: &'static str)
        ensures
            r@ == X509VerifyError::spec_error_text(self@),
            r@.len() > 0,
    {
        if self.code == 2 {
            proof {
                reveal_strlit("unable to get issuer certificate");
            }
            "unable to get issuer certificate"
        } else if self.code == 9 {
            proof {
                reveal_strlit("certificate is not yet valid");
            }
            "certificate is not yet valid"
        } else if self.code == 10 {
            proof {
                reveal_strlit("certificate has expired");
            }
            "certificate has expired"
        } else if self.code == 18 {
            proof {
                reveal_strlit("self signed certificate");
            }
            "self signed certificate"
        } else if self.code == 20 {
            proof {
                reveal_strlit("unable to get local issuer certificate");
            }
            "unable to get local issuer certificate"
        } else if self.code == 21 {
            proof {
                reveal_strlit("unable to verify the first certificate");
            }
            "unable to verify the first certificate"
        } else if self.code == 23 {
            proof {
                reveal_strlit("certificate revoked");
            }
            "certificate revoked"
        } else if self.code == 24 {
            proof {
                reveal_strlit("invalid CA certificate");
            }
            "invalid CA certificate"
        } else if self.code == 26 {
            proof {
                reveal_strlit("unsupported certificate purpose");
            }
            "unsupported certificate purpose"
        } else if self.code == 27 {
            proof {
                reveal_strlit("certificate not trusted");
            }
            "certificate not trusted"
        } else {
            proof {
                reveal_strlit("unknown certificate verification error");
            }
            "unknown certificate verification error"
        }
    }
}

/// What one step of a chain verification reports: the status code, the
/// depth at which it arose, and the certificate under consideration, if
/// one is at hand.
pub struct X509StoreContext {
    error_code: i64,
    depth: u32,
    cert: Option<X509>,
}

impl X509StoreContext {
    pub closed spec fn spec_error_code(&self) -> i64 {
        self.error_code
    }

    pub closed spec fn spec_depth(&self) -> u32 {
        self.depth
    }

    pub closed spec fn spec_cert(&self) -> Option<CertView> {
        match self.cert {
            Some(x) => Some(x@),
            None => None,
        }
    }

    pub fn new(error_code: i64, depth: u32, cert: Option<X509>) -> (r: X509StoreContext)
        ensures
            r.spec_error_code() == error_code,
            r.spec_depth() == depth,
            match cert {
                Some(c) => r.spec_cert() matches Some(v) && v == c@,
                None => r.spec_cert() is None,
            },
    {
        X509StoreContext { error_code, depth, cert }
    }

    /// The verification error this context reports, or `None` on success.
    pub fn error(&self) -> (r: Option<X509VerifyError>)
        ensures
            self.spec_error_code() == OK_CODE <==> r is None,
            r matches Some(e) ==> e@ == self.spec_error_code(),
    {
        X509VerifyError::from_raw(self.error_code)
    }

    /// The certificate under consideration, if one is at hand.
    pub fn current_cert(&self) -> (r: Option<&X509Ref>)
        ensures
            match self.spec_cert() {
                Some(v) => r matches Some(c) && c@ == v,
                None => r is None,
            },
    {
        match &self.cert {
            Some(x) => Some(x.get_ref()),
            None => None,
        }
    }

    /// The depth in the chain at which the status arose.
    pub fn error_depth(&self) -> (r: u32)
        ensures
            r == self.spec_depth(),
    {
        self.depth
    }
}

} // verus!
