//! The certificate object model: a borrowed view type carrying the parsed
//! fields, an owned handle with reference-counted sharing, the binary and
//! armored codecs, and the read accessors.

use vstd::prelude::*;
use vstd::slice::slice_to_vec;
use vstd::string::StringSliceAdditionalSpecFns;
use std::rc::Rc;
use crate::codec::{enc_u8, enc_u64, enc_bytes, p_u8, p_u64, p_bytes, lemma_p_u8, lemma_p_u64, lemma_p_bytes, lemma_seq_assoc, write_u8, write_u64, write_bytes, read_u8, read_u64, read_bytes};
use crate::crypto::{MessageDigest, PKey, digest, digest_of, digest_width};
use crate::err::{ErrorStack, ERR_DECODE, ERR_ARMOR};
use crate::extension::{Extension, ExtensionView, ExtensionType, ExtensionTypeView, Extensions, unique_types, has_type, index_of_type, check_unique_types};
use crate::name::X509NameRef;
use crate::pem::{enc_armor, p_armor, lemma_armor_roundtrip, wrap_armor, unwrap_armor};
use crate::san::GeneralNames;
use crate::wire::{enc_name, p_name, enc_exts, p_exts, name_ok, exts_ok, spec_md_tag, spec_md_from_tag, md_tag, md_from_tag, write_name, write_exts, read_name, read_exts, lemma_p_name, lemma_p_exts};

verus! {

/// A timestamp in whole seconds since the Unix epoch.
#[derive(Copy, Clone, Debug)]
pub struct Asn1Time {
    secs: u64,
}

impl View for Asn1Time {
    type V = u64;

    closed spec fn view(&self) -> u64 {
        self.secs
    }
}

impl Asn1Time {
    pub fn from_unix(secs: u64) -> (r: Asn1Time)
        ensures
            r@ == secs,
    {
        Asn1Time { secs }
    }

    /// Whole seconds since the Unix epoch.
    pub fn seconds(&self) -> (r: u64)
        ensures
            r == self@,
    {
        self.secs
    }
}

/// The mathematical value of a certificate.
pub struct CertView {
    pub version: u64,
    pub serial: i64,
    pub not_before: u64,
    pub not_after: u64,
    pub subject: Seq<(Seq<char>, Seq<char>)>,
    pub issuer: Seq<(Seq<char>, Seq<char>)>,
    pub extensions: Seq<ExtensionView>,
    pub public_key: Seq<u8>,
    pub hash_kind: MessageDigest,
    pub signature: Seq<u8>,
}

/// The certificate invariants: a strictly non-negative serial, an ordered
/// validity window, and no two extensions of the same kind.
pub open spec fn cert_wf(c: CertView) -> bool {
    &&& c.serial >= 0
    &&& c.not_before <= c.not_after
    &&& unique_types(c.extensions)
}

/// Machine limits: every variable-length field fits its length prefix.
pub open spec fn cert_ok(c: CertView) -> bool {
    &&& name_ok(c.subject)
    &&& name_ok(c.issuer)
    &&& exts_ok(c.extensions)
    &&& c.public_key.len() <= u64::MAX
    &&& c.signature.len() <= u64::MAX
}

/// The binary form of a certificate.
pub open spec fn enc_cert(c: CertView) -> Seq<u8> {
    enc_u64(c.version) + (enc_u64(c.serial as u64) + (enc_u64(c.not_before) + (enc_u64(
        c.not_after,
    ) + (enc_name(c.subject) + (enc_name(c.issuer) + (enc_exts(c.extensions) + (enc_bytes(
        c.public_key,
    ) + (enc_u8(spec_md_tag(c.hash_kind)) + enc_bytes(c.signature)))))))))
}

/// Parses one certificate, yielding it and the unread rest, or nothing if
/// the bytes are malformed or break the certificate invariants.
pub open spec fn p_cert(s: Seq<u8>) -> Option<(CertView, Seq<u8>)> {
    match p_u64(s) {
        Some((version, r1)) => match p_u64(r1) {
            Some((su, r2)) => {
                if su >= 0x8000000000000000 {
                    None
                } else {
                    match p_u64(r2) {
                        Some((nb, r3)) => match p_u64(r3) {
                            Some((na, r4)) => {
                                if nb > na {
                                    None
                                } else {
                                    match p_name(r4) {
                                        Some((subj, r5)) => match p_name(r5) {
                                            Some((iss, r6)) => match p_exts(r6) {
                                                Some((exts, r7)) => {
                                                    if !unique_types(exts) {
                                                        None
                                                    } else {
                                                        match p_bytes(r7) {
                                                            Some((pk, r8)) => match p_u8(r8) {
                                                                Some((mt, r9)) => match
                                                                    spec_md_from_tag(mt) {
                                                                    Some(hk) => match p_bytes(r9) {
                                                                        Some((sig, r10)) => Some(
                                                                            (
                                                                                CertView {
                                                                                    version,
                                                                                    serial: su as i64,
                                                                                    not_before: nb,
                                                                                    not_after: na,
                                                                                    subject: subj,
                                                                                    issuer: iss,
                                                                                    extensions: exts,
                                                                                    public_key: pk,
                                                                                    hash_kind: hk,
                                                                                    signature: sig,
                                                                                },
                                                                                r10,
                                                                            ),
                                                                        ),
                                                                        None => None,
                                                                    },
                                                                    None => None,
                                                                },
                                                                None => None,
                                                            },
                                                            None => None,
                                                        }
                                                    }
                                                },
                                                None => None,
                                            },
                                            None => None,
                                        },
                                        None => None,
                                    }
                                }
                            },
                            None => None,
                        },
                        None => None,
                    }
                }
            },
            None => None,
        },
        None => None,
    }
}

/// Parsing an encoding yields the certificate and the rest of the buffer.
pub proof fn lemma_p_cert(c: CertView, rest: Seq<u8>)
    requires
        cert_wf(c),
        cert_ok(c),
    ensures
        p_cert(enc_cert(c) + rest) == Some((c, rest)),
{
    let e1 = enc_u64(c.version);
    let e2 = enc_u64(c.serial as u64);
    let e3 = enc_u64(c.not_before);
    let e4 = enc_u64(c.not_after);
    let e5 = enc_name(c.subject);
    let e6 = enc_name(c.issuer);
    let e7 = enc_exts(c.extensions);
    let e8 = enc_bytes(c.public_key);
    let e9 = enc_u8(spec_md_tag(c.hash_kind));
    let e10 = enc_bytes(c.signature);
    let t10 = e10 + rest;
    let t9 = e9 + t10;
    let t8 = e8 + t9;
    let t7 = e7 + t8;
    let t6 = e6 + t7;
    let t5 = e5 + t6;
    let t4 = e4 + t5;
    let t3 = e3 + t4;
    let t2 = e2 + t3;
    let u10 = e10;
    let u9 = e9 + u10;
    let u8 = e8 + u9;
    let u7 = e7 + u8;
    let u6 = e6 + u7;
    let u5 = e5 + u6;
    let u4 = e4 + u5;
    let u3 = e3 + u4;
    let u2 = e2 + u3;
    assert(enc_cert(c) == e1 + u2);
    lemma_seq_assoc(e9, u10, rest);
    assert(u9 + rest == t9);
    lemma_seq_assoc(e8, u9, rest);
    assert(u8 + rest == t8);
    lemma_seq_assoc(e7, u8, rest);
    assert(u7 + rest == t7);
    lemma_seq_assoc(e6, u7, rest);
    assert(u6 + rest == t6);
    lemma_seq_assoc(e5, u6, rest);
    assert(u5 + rest == t5);
    lemma_seq_assoc(e4, u5, rest);
    assert(u4 + rest == t4);
    lemma_seq_assoc(e3, u4, rest);
    assert(u3 + rest == t3);
    lemma_seq_assoc(e2, u3, rest);
    assert(u2 + rest == t2);
    lemma_seq_assoc(e1, u2, rest);
    assert(enc_cert(c) + rest == e1 + t2);
    lemma_p_u64(c.version, t2);
    assert(p_u64(e1 + t2) == Some((c.version, t2)));
    lemma_p_u64(c.serial as u64, t3);
    assert(p_u64(t2) == Some((c.serial as u64, t3)));
    assert((c.serial as u64) < 0x8000000000000000);
    lemma_p_u64(c.not_before, t4);
    assert(p_u64(t3) == Some((c.not_before, t4)));
    lemma_p_u64(c.not_after, t5);
    assert(p_u64(t4) == Some((c.not_after, t5)));
    lemma_p_name(c.subject, t6);
    assert(p_name(t5) == Some((c.subject, t6)));
    lemma_p_name(c.issuer, t7);
    assert(p_name(t6) == Some((c.issuer, t7)));
    lemma_p_exts(c.extensions, t8);
    assert(p_exts(t7) == Some((c.extensions, t8)));
    lemma_p_bytes(c.public_key, t9);
    assert(p_bytes(t8) == Some((c.public_key, t9)));
    lemma_p_u8(spec_md_tag(c.hash_kind), t10);
    assert(p_u8(t9) == Some((spec_md_tag(c.hash_kind), t10)));
    assert(spec_md_from_tag(spec_md_tag(c.hash_kind)) == Some(c.hash_kind));
    lemma_p_bytes(c.signature, rest);
    assert(p_bytes(t10) == Some((c.signature, rest)));
    assert((c.serial as u64) as i64 == c.serial);
    let parsed = p_cert(enc_cert(c) + rest);
    assert(parsed == Some((c, rest)));
}

/// The certificate a complete binary buffer denotes, if any.
pub open spec fn spec_from_der(b: Seq<u8>) -> Option<CertView> {
    match p_cert(b) {
        Some((c, rest)) => if rest.len() == 0 {
            Some(c)
        } else {
            None
        },
        None => None,
    }
}

/// A complete encoding parses back to the certificate it came from.
pub proof fn lemma_cert_der_roundtrip(c: CertView)
    requires
        cert_wf(c),
        cert_ok(c),
    ensures
        spec_from_der(enc_cert(c)) == Some(c),
{
    lemma_p_cert(c, Seq::<u8>::empty());
    assert(enc_cert(c) + Seq::<u8>::empty() =~= enc_cert(c));
}

/// The armor lines of the certificate's textual form.
pub open spec fn cert_pem_header() -> Seq<u8> {
    ("-----BEGIN CERTIFICATE-----\n").spec_bytes()
}

pub open spec fn cert_pem_footer() -> Seq<u8> {
    ("\n-----END CERTIFICATE-----\n").spec_bytes()
}

/// The armored textual form of a certificate.
pub open spec fn enc_cert_pem(c: CertView) -> Seq<u8> {
    enc_armor(cert_pem_header(), cert_pem_footer(), enc_cert(c))
}

/// The certificate an armored text denotes, if any.
pub open spec fn spec_from_pem(b: Seq<u8>) -> Option<CertView> {
    match p_armor(cert_pem_header(), cert_pem_footer(), b) {
        Some(payload) => spec_from_der(payload),
        None => None,
    }
}

/// An armored form parses back to the certificate it came from.
pub proof fn lemma_cert_pem_roundtrip(c: CertView)
    requires
        cert_wf(c),
        cert_ok(c),
    ensures
        spec_from_pem(enc_cert_pem(c)) == Some(c),
{
    lemma_armor_roundtrip(cert_pem_header(), cert_pem_footer(), enc_cert(c));
    lemma_cert_der_roundtrip(c);
}

/// A borrowed view of a certificate: all read accessors live here. A view
/// never releases the underlying object; the owning handle does, exactly
/// once.
pub struct X509Ref {
    version: u64,
    serial: i64,
    not_before: u64,
    not_after: u64,
    subject: X509NameRef,
    issuer: X509NameRef,
    extensions: Extensions,
    public_key: Vec<u8>,
    hash_kind: MessageDigest,
    signature: Vec<u8>,
}

impl View for X509Ref {
    type V = CertView;

    closed spec fn view(&self) -> CertView {
        CertView {
            version: self.version,
            serial: self.serial,
            not_before: self.not_before,
            not_after: self.not_after,
            subject: self.subject@,
            issuer: self.issuer@,
            extensions: self.extensions@,
            public_key: self.public_key@,
            hash_kind: self.hash_kind,
            signature: self.signature@,
        }
    }
}

impl X509Ref {
    /// Assembles a certificate from its parts.
    pub(crate) fn assemble(
        version: u64,
        serial: i64,
        not_before: u64,
        not_after: u64,
        subject: Vec<(String, String)>,
        issuer: Vec<(String, String)>,
        extensions: Extensions,
        public_key: Vec<u8>,
        hash_kind: MessageDigest,
        signature: Vec<u8>,
    ) -> (r: X509Ref)
        ensures
            r@ == (CertView {
                version,
                serial,
                not_before,
                not_after,
                subject: subject.deep_view(),
                issuer: issuer.deep_view(),
                extensions: extensions@,
                public_key: public_key@,
                hash_kind,
                signature: signature@,
            }),
    {
        X509Ref {
            version,
            serial,
            not_before,
            not_after,
            subject: X509NameRef::from_entries(subject),
            issuer: X509NameRef::from_entries(issuer),
            extensions,
            public_key,
            hash_kind,
            signature,
        }
    }

    /// Whether the certificate's invariants hold.
    pub open spec fn wf(&self) -> bool {
        cert_wf(self@)
    }

    pub fn version(&self) -> (r: u64)
        ensures
            r == self@.version,
    {
        self.version
    }

    /// The serial number; strictly non-negative by construction.
    pub fn serial(&self) -> (r: i64)
        ensures
            r == self@.serial,
    {
        self.serial
    }

    /// The start of the validity window.
    pub fn not_before(&self) -> (r: Asn1Time)
        ensures
            r@ == self@.not_before,
    {
        Asn1Time::from_unix(self.not_before)
    }

    /// The end of the validity window.
    pub fn not_after(&self) -> (r: Asn1Time)
        ensures
            r@ == self@.not_after,
    {
        Asn1Time::from_unix(self.not_after)
    }

    /// The subject name.
    pub fn subject_name(&self) -> (r: &X509NameRef)
        ensures
            r@ == self@.subject,
    {
        &self.subject
    }

    /// The extensions, in the order they were attached.
    pub fn extensions(&self) -> (r: &Extensions)
        ensures
            r@ == self@.extensions,
    {
        &self.extensions
    }

    /// This certificate's SAN entries, if a SAN extension is present.
    pub fn subject_alt_names(&self) -> (r: Option<GeneralNames>)
        requires
            self.wf(),
        ensures
            match r {
                Some(gns) => has_type(self@.extensions, ExtensionTypeView::SubjectAltName)
                    && self@.extensions[index_of_type(
                    self@.extensions,
                    ExtensionTypeView::SubjectAltName,
                )] == ExtensionView::SubjectAltName(gns@),
                None => !has_type(self@.extensions, ExtensionTypeView::SubjectAltName),
            },
    {
        match self.extensions.get(&ExtensionType::SubjectAltName) {
            None => None,
            Some(e) => match e {
                Extension::SubjectAltName(gs) => {
                    let mut copy: Vec<crate::san::GeneralName> = Vec::new();
                    let mut i: usize = 0;
                    while i < gs.len()
                        invariant
                            i <= gs.len(),
                            copy@.len() == i,
                            forall|j: int| 0 <= j < i ==> #[trigger] copy@[j]@ == gs@[j]@,
                        decreases gs.len() - i,
                    {
                        copy.push(gs[i].clone());
                        i = i + 1;
                    }
                    proof {
                        assert(copy.deep_view() =~= gs.deep_view());
                    }
                    Some(GeneralNames::from_entries(copy))
                },
                _ => {
                    proof {
                        assert(false);
                    }
                    None
                },
            },
        }
    }

    /// The public key assigned to the certificate.
    pub fn public_key(&self) -> (r: Result<PKey, ErrorStack>)
        ensures
            r matches Ok(k) && k@ == self@.public_key,
    {
        Ok(PKey::from_bytes(slice_to_vec(self.public_key.as_slice())))
    }

    /// The binary form of the certificate.
    pub fn to_der(&self) -> (r: Result<Vec<u8>, ErrorStack>)
        ensures
            r matches Ok(v) && v@ == enc_cert(self@),
    {
        let mut out: Vec<u8> = Vec::new();
        write_u64(&mut out, self.version);
        write_u64(&mut out, self.serial as u64);
        write_u64(&mut out, self.not_before);
        write_u64(&mut out, self.not_after);
        write_name(&mut out, self.subject.entries());
        write_name(&mut out, self.issuer.entries());
        write_exts(&mut out, self.extensions.items());
        write_bytes(&mut out, self.public_key.as_slice());
        write_u8(&mut out, md_tag(self.hash_kind));
        write_bytes(&mut out, self.signature.as_slice());
        proof {
            let v = self@;
            let e1 = enc_u64(v.version);
            let e2 = enc_u64(v.serial as u64);
            let e3 = enc_u64(v.not_before);
            let e4 = enc_u64(v.not_after);
            let e5 = enc_name(v.subject);
            let e6 = enc_name(v.issuer);
            let e7 = enc_exts(v.extensions);
            let e8 = enc_bytes(v.public_key);
            let e9 = enc_u8(spec_md_tag(v.hash_kind));
            let e10 = enc_bytes(v.signature);
            assert(Seq::<u8>::empty() + e1 =~= e1);
            assert(out@ == ((((((((e1 + e2) + e3) + e4) + e5) + e6) + e7) + e8) + e9) + e10);
            lemma_seq_assoc(((((((e1 + e2) + e3) + e4) + e5) + e6) + e7) + e8, e9, e10);
            lemma_seq_assoc((((((e1 + e2) + e3) + e4) + e5) + e6) + e7, e8, e9 + e10);
            lemma_seq_assoc(((((e1 + e2) + e3) + e4) + e5) + e6, e7, e8 + (e9 + e10));
            lemma_seq_assoc((((e1 + e2) + e3) + e4) + e5, e6, e7 + (e8 + (e9 + e10)));
            lemma_seq_assoc(((e1 + e2) + e3) + e4, e5, e6 + (e7 + (e8 + (e9 + e10))));
            lemma_seq_assoc((e1 + e2) + e3, e4, e5 + (e6 + (e7 + (e8 + (e9 + e10)))));
            lemma_seq_assoc(e1 + e2, e3, e4 + (e5 + (e6 + (e7 + (e8 + (e9 + e10))))));
            lemma_seq_assoc(e1, e2, e3 + (e4 + (e5 + (e6 + (e7 + (e8 + (e9 + e10)))))));
            assert(out@ == enc_cert(v));
        }
        Ok(out)
    }

    /// The armored textual form of the certificate.
    pub fn to_pem(&self) -> (r: Result<Vec<u8>, ErrorStack>)
        ensures
            r matches Ok(v) && v@ == enc_cert_pem(self@),
    {
        let der = match self.to_der() {
            Ok(d) => d,
            Err(e) => {
                return Err(e);
            },
        };
        Ok(
            wrap_armor(
                "-----BEGIN CERTIFICATE-----\n",
                "\n-----END CERTIFICATE-----\n",
                der.as_slice(),
            ),
        )
    }

    /// The certificate's fingerprint: the digest of its binary form under
    /// the given algorithm.
    pub fn fingerprint(&self, hash_type: MessageDigest) -> (r: Result<Vec<u8>, ErrorStack>)
        ensures
            r matches Ok(v) && v@ == digest_of(hash_type, enc_cert(self@)) && v@.len()
                == digest_width(hash_type),
    {
        let der = match self.to_der() {
            Ok(d) => d,
            Err(e) => {
                return Err(e);
            },
        };
        Ok(digest(hash_type, der.as_slice()))
    }
}

/// Reads one certificate starting at the given position.
fn read_cert(buf: &[u8], pos: usize) -> (r: Option<(X509Ref, usize)>)
    requires
        pos <= buf@.len(),
    ensures
        match r {
            Some((c, j)) => pos <= j <= buf@.len() && p_cert(buf@.skip(pos as int)) == Some(
                (c@, buf@.skip(j as int)),
            ) && c.wf(),
            None => p_cert(buf@.skip(pos as int)) is None,
        },
{
    let (version, j1) = match read_u64(buf, pos) {
        Some(x) => x,
        None => {
            return None;
        },
    };
    let (su, j2) = match read_u64(buf, j1) {
        Some(x) => x,
        None => {
            return None;
        },
    };
    if su >= 0x8000000000000000 {
        return None;
    }
    let (nb, j3) = match read_u64(buf, j2) {
        Some(x) => x,
        None => {
            return None;
        },
    };
    let (na, j4) = match read_u64(buf, j3) {
        Some(x) => x,
        None => {
            return None;
        },
    };
    if nb > na {
        return None;
    }
    let (subj, j5) = match read_name(buf, j4) {
        Some(x) => x,
        None => {
            return None;
        },
    };
    let (iss, j6) = match read_name(buf, j5) {
        Some(x) => x,
        None => {
            return None;
        },
    };
    let (exts, j7) = match read_exts(buf, j6) {
        Some(x) => x,
        None => {
            return None;
        },
    };
    if !check_unique_types(&exts) {
        return None;
    }
    let (pk, j8) = match read_bytes(buf, j7) {
        Some(x) => x,
        None => {
            return None;
        },
    };
    let (mt, j9) = match read_u8(buf, j8) {
        Some(x) => x,
        None => {
            return None;
        },
    };
    let hk = match md_from_tag(mt) {
        Some(h) => h,
        None => {
            return None;
        },
    };
    let (sig, j10) = match read_bytes(buf, j9) {
        Some(x) => x,
        None => {
            return None;
        },
    };
    let cert = X509Ref {
        version,
        serial: su as i64,
        not_before: nb,
        not_after: na,
        subject: X509NameRef::from_entries(subj),
        issuer: X509NameRef::from_entries(iss),
        extensions: Extensions::from_items(exts),
        public_key: pk,
        hash_kind: hk,
        signature: sig,
    };
    Some((cert, j10))
}

/// An owned certificate handle. Exactly one underlying object exists per
/// group of owners; `clone` shares it by raising a reference count, and the
/// last owner dropped releases it, exactly once.
pub struct X509 {
    handle: Rc<X509Ref>,
}

impl View for X509 {
    type V = CertView;

    closed spec fn view(&self) -> CertView {
        self.handle@
    }
}

/// Relies on std's `Rc::clone`: returns a second handle to the same
/// allocation, raising its reference count instead of copying the object.
#[verifier::external_body]
fn share_handle(h: &Rc<X509Ref>) -> (r: Rc<X509Ref>)
    ensures
        r == *h,
{
    Rc::clone(h)
}

impl Clone for X509 {
    /// Shares the one underlying certificate object; no deep copy is made.
    fn clone(&self) -> (r: Self)
        ensures
            r@ == self@,
    {
        X509 { handle: share_handle(&self.handle) }
    }
}

impl X509 {
    /// Takes ownership of a certificate object.
    pub(crate) fn from_parts(cert: X509Ref) -> (r: X509)
        ensures
            r@ == cert@,
    {
        X509 { handle: Rc::new(cert) }
    }

    /// Borrows the certificate for reading.
    pub fn get_ref(&self) -> (r: &X509Ref)
        ensures
            r@ == self@,
    {
        &self.handle
    }

    /// Reads a certificate from its complete binary form.
    pub fn from_der(buf: &[u8]) -> (r: Result<X509, ErrorStack>)
        ensures
            match r {
                Ok(x) => spec_from_der(buf@) == Some(x@) && cert_wf(x@),
                Err(e) => spec_from_der(buf@) is None && e@ == seq![ERR_DECODE],
            },
    {
        proof {
            assert(buf@.skip(0) =~= buf@);
        }
        match read_cert(buf, 0) {
            Some((cert, j)) => {
                if j == buf.len() {
                    proof {
                        assert(buf@.skip(j as int).len() == 0);
                    }
                    Ok(X509::from_parts(cert))
                } else {
                    proof {
                        assert(buf@.skip(j as int).len() != 0);
                    }
                    Err(ErrorStack::from_code(ERR_DECODE))
                }
            },
            None => Err(ErrorStack::from_code(ERR_DECODE)),
        }
    }

    /// Reads a certificate from its armored textual form.
    pub fn from_pem(buf: &[u8]) -> (r: Result<X509, ErrorStack>)
        ensures
            match r {
                Ok(x) => spec_from_pem(buf@) == Some(x@) && cert_wf(x@),
                Err(e) => spec_from_pem(buf@) is None && e.wf(),
            },
    {
        let payload = match unwrap_armor(
            "-----BEGIN CERTIFICATE-----\n",
            "\n-----END CERTIFICATE-----\n",
            buf,
        ) {
            Some(p) => p,
            None => {
                return Err(ErrorStack::from_code(ERR_ARMOR));
            },
        };
        match X509::from_der(payload.as_slice()) {
            Ok(x) => Ok(x),
            Err(e) => Err(e),
        }
    }
}

} // verus!
