//! Certificate signing requests: an owned handle over the request's parsed
//! fields, with the same binary and armored codecs as certificates.

use vstd::prelude::*;
use vstd::string::StringSliceAdditionalSpecFns;
use crate::codec::{enc_u8, enc_bytes, p_u8, p_bytes, lemma_p_u8, lemma_p_bytes, lemma_seq_assoc, write_u8, write_bytes, read_u8, read_bytes};
use crate::crypto::MessageDigest;
use crate::err::{ErrorStack, ERR_DECODE, ERR_ARMOR};
use crate::extension::{ExtensionView, Extensions, unique_types, check_unique_types};
use crate::name::X509NameRef;
use crate::pem::{enc_armor, p_armor, lemma_armor_roundtrip, wrap_armor, unwrap_armor};
use crate::wire::{enc_name, p_name, enc_exts, p_exts, name_ok, exts_ok, spec_md_tag, spec_md_from_tag, md_tag, md_from_tag, write_name, write_exts, read_name, read_exts, lemma_p_name, lemma_p_exts};

verus! {

/// The mathematical value of a signing request.
pub struct ReqView {
    pub subject: Seq<(Seq<char>, Seq<char>)>,
    pub extensions: Seq<ExtensionView>,
    pub public_key: Seq<u8>,
    pub hash_kind: MessageDigest,
    pub signature: Seq<u8>,
}

/// The request invariant: no two extensions of the same kind.
pub open spec fn req_wf(q: ReqView) -> bool {
    unique_types(q.extensions)
}

/// Machine limits: every variable-length field fits its length prefix.
pub open spec fn req_ok(q: ReqView) -> bool {
    &&& name_ok(q.subject)
    &&& exts_ok(q.extensions)
    &&& q.public_key.len() <= u64::MAX
    &&& q.signature.len() <= u64::MAX
}

/// The binary form of a request.
pub open spec fn enc_req(q: ReqView) -> Seq<u8> {
    enc_name(q.subject) + (enc_exts(q.extensions) + (enc_bytes(q.public_key) + (enc_u8(
        spec_md_tag(q.hash_kind),
    ) + enc_bytes(q.signature))))
}

/// Parses one request, yielding it and the unread rest.
pub open spec fn p_req(s: Seq<u8>) -> Option<(ReqView, Seq<u8>)> {
    match p_name(s) {
        Some((subj, r1)) => match p_exts(r1) {
            Some((exts, r2)) => {
                if !unique_types(exts) {
                    None
                } else {
                    match p_bytes(r2) {
                        Some((pk, r3)) => match p_u8(r3) {
                            Some((mt, r4)) => match spec_md_from_tag(mt) {
                                Some(hk) => match p_bytes(r4) {
                                    Some((sig, r5)) => Some(
                                        (
                                            ReqView {
                                                subject: subj,
                                                extensions: exts,
                                                public_key: pk,
                                                hash_kind: hk,
                                                signature: sig,
                                            },
                                            r5,
                                        ),
                                    ),
                                    None => None,
                                },
                                None => None,
                            },
                            None => None,
                        },
                        None => None,
                    }
                }
            },
            None => None,
        },
        None => None,
    }
}

/// Parsing an encoding yields the request and the rest of the buffer.
pub proof fn lemma_p_req(q: ReqView, rest: Seq<u8>)
    requires
        req_wf(q),
        req_ok(q),
    ensures
        p_req(enc_req(q) + rest) == Some((q, rest)),
{
    let e1 = enc_name(q.subject);
    let e2 = enc_exts(q.extensions);
    let e3 = enc_bytes(q.public_key);
    let e4 = enc_u8(spec_md_tag(q.hash_kind));
    let e5 = enc_bytes(q.signature);
    let t5 = e5 + rest;
    let t4 = e4 + t5;
    let t3 = e3 + t4;
    let t2 = e2 + t3;
    let u5 = e5;
    let u4 = e4 + u5;
    let u3 = e3 + u4;
    let u2 = e2 + u3;
    assert(enc_req(q) == e1 + u2);
    lemma_seq_assoc(e4, u5, rest);
    assert(u4 + rest == t4);
    lemma_seq_assoc(e3, u4, rest);
    assert(u3 + rest == t3);
    lemma_seq_assoc(e2, u3, rest);
    assert(u2 + rest == t2);
    lemma_seq_assoc(e1, u2, rest);
    assert(enc_req(q) + rest == e1 + t2);
    lemma_p_name(q.subject, t2);
    assert(p_name(e1 + t2) == Some((q.subject, t2)));
    lemma_p_exts(q.extensions, t3);
    assert(p_exts(t2) == Some((q.extensions, t3)));
    lemma_p_bytes(q.public_key, t4);
    assert(p_bytes(t3) == Some((q.public_key, t4)));
    lemma_p_u8(spec_md_tag(q.hash_kind), t5);
    assert(p_u8(t4) == Some((spec_md_tag(q.hash_kind), t5)));
    assert(spec_md_from_tag(spec_md_tag(q.hash_kind)) == Some(q.hash_kind));
    lemma_p_bytes(q.signature, rest);
    assert(p_bytes(t5) == Some((q.signature, rest)));
    assert(p_req(enc_req(q) + rest) == Some((q, rest)));
}

/// The request a complete binary buffer denotes, if any.
pub open spec fn spec_req_from_der(b: Seq<u8>) -> Option<ReqView> {
    match p_req(b) {
        Some((q, rest)) => if rest.len() == 0 {
            Some(q)
        } else {
            None
        },
        None => None,
    }
}

/// A complete encoding parses back to the request it came from.
pub proof fn lemma_req_der_roundtrip(q: ReqView)
    requires
        req_wf(q),
        req_ok(q),
    ensures
        spec_req_from_der(enc_req(q)) == Some(q),
{
    lemma_p_req(q, Seq::<u8>::empty());
    assert(enc_req(q) + Seq::<u8>::empty() =~= enc_req(q));
}

/// The armor lines of the request's textual form.
pub open spec fn req_pem_header() -> Seq<u8> {
    ("-----BEGIN CERTIFICATE REQUEST-----\n").spec_bytes()
}

pub open spec fn req_pem_footer() -> Seq<u8> {
    ("\n-----END CERTIFICATE REQUEST-----\n").spec_bytes()
}

/// The armored textual form of a request.
pub open spec fn enc_req_pem(q: ReqView) -> Seq<u8> {
    enc_armor(req_pem_header(), req_pem_footer(), enc_req(q))
}

/// The request an armored text denotes, if any.
pub open spec fn spec_req_from_pem(b: Seq<u8>) -> Option<ReqView> {
    match p_armor(req_pem_header(), req_pem_footer(), b) {
        Some(payload) => spec_req_from_der(payload),
        None => None,
    }
}

/// An armored form parses back to the request it came from.
pub proof fn lemma_req_pem_roundtrip(q: ReqView)
    requires
        req_wf(q),
        req_ok(q),
    ensures
        spec_req_from_pem(enc_req_pem(q)) == Some(q),
{
    lemma_armor_roundtrip(req_pem_header(), req_pem_footer(), enc_req(q));
    lemma_req_der_roundtrip(q);
}

/// An owned certificate signing request.
pub struct X509Req {
    subject: X509NameRef,
    extensions: Extensions,
    public_key: Vec<u8>,
    hash_kind: MessageDigest,
    signature: Vec<u8>,
}

impl View for X509Req {
    type V = ReqView;

    closed spec fn view(&self) -> ReqView {
        ReqView {
            subject: self.subject@,
            extensions: self.extensions@,
            public_key: self.public_key@,
            hash_kind: self.hash_kind,
            signature: self.signature@,
        }
    }
}

impl X509Req {
    /// Assembles a request from its parts.
    pub(crate) fn assemble(
        subject: Vec<(String, String)>,
        extensions: Extensions,
        public_key: Vec<u8>,
        hash_kind: MessageDigest,
        signature: Vec<u8>,
    ) -> (r: X509Req)
        ensures
            r@ == (ReqView {
                subject: subject.deep_view(),
                extensions: extensions@,
                public_key: public_key@,
                hash_kind,
                signature: signature@,
            }),
    {
        X509Req {
            subject: X509NameRef::from_entries(subject),
            extensions,
            public_key,
            hash_kind,
            signature,
        }
    }

    /// Whether the request's invariants hold.
    pub open spec fn wf(&self) -> bool {
        req_wf(self@)
    }

    /// The subject name carried by the request.
    pub fn subject_name(&self) -> (r: &X509NameRef)
        ensures
            r@ == self@.subject,
    {
        &self.subject
    }

    /// The requested extensions, in order.
    pub fn extensions(&self) -> (r: &Extensions)
        ensures
            r@ == self@.extensions,
    {
        &self.extensions
    }

    /// The binary form of the request.
    pub fn to_der(&self) -> (r: Result<Vec<u8>, ErrorStack>)
        ensures
            r matches Ok(v) && v@ == enc_req(self@),
    {
        let mut out: Vec<u8> = Vec::new();
        write_name(&mut out, self.subject.entries());
        write_exts(&mut out, self.extensions.items());
        write_bytes(&mut out, self.public_key.as_slice());
        write_u8(&mut out, md_tag(self.hash_kind));
        write_bytes(&mut out, self.signature.as_slice());
        proof {
            let v = self@;
            let e1 = enc_name(v.subject);
            let e2 = enc_exts(v.extensions);
            let e3 = enc_bytes(v.public_key);
            let e4 = enc_u8(spec_md_tag(v.hash_kind));
            let e5 = enc_bytes(v.signature);
            assert(Seq::<u8>::empty() + e1 =~= e1);
            assert(out@ == (((e1 + e2) + e3) + e4) + e5);
            lemma_seq_assoc((e1 + e2) + e3, e4, e5);
            lemma_seq_assoc(e1 + e2, e3, e4 + e5);
            lemma_seq_assoc(e1, e2, e3 + (e4 + e5));
            assert(out@ == enc_req(v));
        }
        Ok(out)
    }

    /// The armored textual form of the request.
    pub fn to_pem(&self) -> (r: Result<Vec<u8>, ErrorStack>)
        ensures
            r matches Ok(v) && v@ == enc_req_pem(self@),
    {
        let der = match self.to_der() {
            Ok(d) => d,
            Err(e) => {
                return Err(e);
            },
        };
        Ok(
            wrap_armor(
                "-----BEGIN CERTIFICATE REQUEST-----\n",
                "\n-----END CERTIFICATE REQUEST-----\n",
                der.as_slice(),
            ),
        )
    }

    /// Reads a request from its complete binary form.
    pub fn from_der(buf: &[u8]) -> (r: Result<X509Req, ErrorStack>)
        ensures
            match r {
                Ok(q) => spec_req_from_der(buf@) == Some(q@) && req_wf(q@),
                Err(e) => spec_req_from_der(buf@) is None && e@ == seq![ERR_DECODE],
            },
    {
        proof {
            assert(buf@.skip(0) =~= buf@);
        }
        match read_req(buf, 0) {
            Some((q, j)) => {
                if j == buf.len() {
                    proof {
                        assert(buf@.skip(j as int).len() == 0);
                    }
                    Ok(q)
                } else {
                    proof {
                        assert(buf@.skip(j as int).len() != 0);
                    }
                    Err(ErrorStack::from_code(ERR_DECODE))
                }
            },
            None => Err(ErrorStack::from_code(ERR_DECODE)),
        }
    }

    /// Reads a request from its armored textual form.
    pub fn from_pem(buf: &[u8]) -> (r: Result<X509Req, ErrorStack>)
        ensures
            match r {
                Ok(q) => spec_req_from_pem(buf@) == Some(q@) && req_wf(q@),
                Err(e) => spec_req_from_pem(buf@) is None && e.wf(),
            },
    {
        let payload = match unwrap_armor(
            "-----BEGIN CERTIFICATE REQUEST-----\n",
            "\n-----END CERTIFICATE REQUEST-----\n",
            buf,
        ) {
            Some(p) => p,
            None => {
                return Err(ErrorStack::from_code(ERR_ARMOR));
            },
        };
        match X509Req::from_der(payload.as_slice()) {
            Ok(q) => Ok(q),
            Err(e) => Err(e),
        }
    }
}

/// Reads one request starting at the given position.
fn read_req(buf: &[u8], pos: usize) -> (r: Option<(X509Req, usize)>)
    requires
        pos <= buf@.len(),
    ensures
        match r {
            Some((q, j)) => pos <= j <= buf@.len() && p_req(buf@.skip(pos as int)) == Some(
                (q@, buf@.skip(j as int)),
            ) && q.wf(),
            None => p_req(buf@.skip(pos as int)) is None,
        },
{
    let (subj, j1) = match read_name(buf, pos) {
        Some(x) => x,
        None => {
            return None;
        },
    };
    let (exts, j2) = match read_exts(buf, j1) {
        Some(x) => x,
        None => {
            return None;
        },
    };
    if !check_unique_types(&exts) {
        return None;
    }
    let (pk, j3) = match read_bytes(buf, j2) {
        Some(x) => x,
        None => {
            return None;
        },
    };
    let (mt, j4) = match read_u8(buf, j3) {
        Some(x) => x,
        None => {
            return None;
        },
    };
    let hk = match md_from_tag(mt) {
        Some(h) => h,
        None => {
            return None;
        },
    };
    let (sig, j5) = match read_bytes(buf, j4) {
        Some(x) => x,
        None => {
            return None;
        },
    };
    let req = X509Req {
        subject: X509NameRef::from_entries(subj),
        extensions: Extensions::from_items(exts),
        public_key: pk,
        hash_kind: hk,
        signature: sig,
    };
    Some((req, j5))
}

} // verus!
