//! A certificate-authority toolkit: builds, self-signs, serializes and parses
//! X.509 certificates and certificate signing requests, manages their
//! extension sets, and reports verification outcomes.
//!
//! The hash and random-byte primitives are outside collaborators, reached
//! through small trusted wrappers; everything else — the ordered-unique
//! extension collection, serial generation, the self-signing workflow, the
//! certificate object model and its binary and armored textual encodings —
//! is verified.

pub mod cert;
pub mod codec;
pub mod crypto;
pub mod err;
pub mod extension;
pub mod generator;
pub mod name;
pub mod nid;
pub mod pem;
pub mod req;
pub mod san;
pub mod verify;
pub mod wire;

use vstd::prelude::*;

verus! {

/// Format selector for certificate files: armored text or binary.
#[derive(Copy, Clone, Debug)]
pub enum X509FileType {
    PEM,
    ASN1,
    Default,
}

} // verus!
