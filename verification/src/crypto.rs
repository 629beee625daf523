//! The outside cryptographic collaborators: the digest provider, the
//! random-byte provider, and the key material they act on.
//!
//! The digest and random primitives themselves are not verified; they are
//! reached through small trusted wrappers whose contracts state only what
//! their providers document. Everything computed from their results is
//! verified.

use vstd::prelude::*;
use crate::err::{ErrorStack, ERR_RANDOM};

verus! {

/// Selects the digest algorithm used for signing and fingerprinting.
#[derive(Copy, Clone, PartialEq, Eq, Structural, Debug)]
pub enum MessageDigest {
    Sha1,
    Sha256,
}

impl MessageDigest {
    pub fn sha1() -> (r: MessageDigest)
        ensures
            r == MessageDigest::Sha1,
    {
        MessageDigest::Sha1
    }

    pub fn sha256() -> (r: MessageDigest)
        ensures
            r == MessageDigest::Sha256,
    {
        MessageDigest::Sha256
    }
}

/// Key material, held as plain bytes. The mathematics of the key is the
/// signing provider's business; this model only carries it.
pub struct PKey {
    bytes: Vec<u8>,
}

impl View for PKey {
    type V = Seq<u8>;

    closed spec fn view(&self) -> Seq<u8> {
        self.bytes@
    }
}

impl PKey {
    pub fn from_bytes(bytes: Vec<u8>) -> (r: PKey)
        ensures
            r@ == bytes@,
    {
        PKey { bytes }
    }

    pub fn bytes(&self) -> (r: &Vec<u8>)
        ensures
            r@ == self@,
    {
        &self.bytes
    }
}

/// What the SHA-1 provider returns on the given bytes.
pub uninterp spec fn sha1_of(data: Seq<u8>) -> Seq<u8>;

/// What the SHA-256 provider returns on the given bytes.
pub uninterp spec fn sha256_of(data: Seq<u8>) -> Seq<u8>;

/// Relies on the `sha1` crate's `Sha1`: a 20-byte digest determined by the
/// input bytes alone.
#[verifier::external_body]
fn sha1_digest(data: &[u8]) -> (r: Vec<u8>)
    ensures
        r@ == sha1_of(data@),
        r@.len() == 20,
{
    <sha1::Sha1 as sha1::Digest>::digest(data).as_slice().to_vec()
}

/// Relies on the `sha2` crate's `Sha256`: a 32-byte digest determined by the
/// input bytes alone.
#[verifier::external_body]
fn sha256_digest(data: &[u8]) -> (r: Vec<u8>)
    ensures
        r@ == sha256_of(data@),
        r@.len() == 32,
{
    <sha2::Sha256 as sha2::Digest>::digest(data).as_slice().to_vec()
}

/// What the configured digest provider returns on the given bytes.
pub open spec fn digest_of(kind: MessageDigest, data: Seq<u8>) -> Seq<u8> {
    match kind {
        MessageDigest::Sha1 => sha1_of(data),
        MessageDigest::Sha256 => sha256_of(data),
    }
}

/// The documented output width of each digest algorithm.
pub open spec fn digest_width(kind: MessageDigest) -> nat {
    match kind {
        MessageDigest::Sha1 => 20,
        MessageDigest::Sha256 => 32,
    }
}

/// Computes the configured digest of the given bytes.
pub fn digest(kind: MessageDigest, data: &[u8]) -> (r: Vec<u8>)
    ensures
        r@ == digest_of(kind, data@),
        r@.len() == digest_width(kind),
{
    match kind {
        MessageDigest::Sha1 => sha1_digest(data),
        MessageDigest::Sha256 => sha256_digest(data),
    }
}

/// The random-byte provider's error. Opaque here; it only signals failure.
#[verifier::external_type_specification]
#[verifier::external_body]
pub struct ExRandomError(getrandom::Error);

/// Relies on `getrandom::fill`: fills the buffer with bytes from the
/// system's random source, or fails. The buffer keeps its length either way;
/// nothing is promised of the bytes themselves.
#[verifier::external_body]
fn fill_from_system(buf: &mut Vec<u8>) -> (r: Result<(), getrandom::Error>)
    ensures
        final(buf)@.len() == old(buf)@.len(),
{
    getrandom::fill(buf.as_mut_slice())
}

/// Fills the buffer with cryptographically strong random bytes; a provider
/// failure aborts with `ERR_RANDOM`.
pub fn rand_bytes(buf: &mut Vec<u8>) -> (r: Result<(), ErrorStack>)
    ensures
        final(buf)@.len() == old(buf)@.len(),
        r matches Err(e) ==> e@ == seq![ERR_RANDOM],
{
    match fill_from_system(buf) {
        Ok(()) => Ok(()),
        Err(_) => Err(ErrorStack::from_code(ERR_RANDOM)),
    }
}

/// Relies on std's `SystemTime::now` and `duration_since`: reads the wall
/// clock as whole seconds since the Unix epoch. Nothing is promised of the
/// reading.
#[verifier::external_body]
pub fn now_seconds() -> u64 {
    match std::time::SystemTime::now().duration_since(std::time::UNIX_EPOCH) {
        Ok(d) => d.as_secs(),
        Err(_) => 0,
    }
}

} // verus!
