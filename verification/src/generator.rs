//! The generator of self-signed certificates and signing requests: builder
//! state for the validity period, subject name, extension set and signing
//! hash, the random serial, and the signing workflow itself.

use vstd::prelude::*;
use vstd::slice::slice_to_vec;
use crate::cert::{X509, X509Ref, CertView, cert_wf, enc_cert};
use crate::crypto::{MessageDigest, PKey, digest, digest_of, now_seconds, rand_bytes};
use crate::err::{ErrorStack, ERR_RANDOM, ERR_TIME_RANGE};
use crate::extension::{Extension, ExtensionView, Extensions, spec_add, unique_types, lemma_add_keeps_types_unique};
use crate::req::{X509Req, ReqView, req_wf, enc_req};

verus! {

/// The big-endian value of a byte string.
pub open spec fn be_value(s: Seq<u8>) -> int
    decreases s.len(),
{
    if s.len() == 0 {
        0
    } else {
        be_value(s.drop_last()) * 256 + s.last()
    }
}

/// Powers of 256.
pub open spec fn pow256(n: nat) -> int
    decreases n,
{
    if n == 0 {
        1
    } else {
        256 * pow256((n - 1) as nat)
    }
}

proof fn lemma_be_value_bound(s: Seq<u8>)
    ensures
        0 <= be_value(s) < pow256(s.len()),
    decreases s.len(),
{
    if s.len() == 0 {
    } else {
        lemma_be_value_bound(s.drop_last());
    }
}

/// The mathematical value of the builder state.
pub struct GeneratorView {
    pub days: u32,
    pub names: Seq<(Seq<char>, Seq<char>)>,
    pub extensions: Seq<ExtensionView>,
    pub hash_type: MessageDigest,
}

/// The subject used when no name entries were supplied.
pub open spec fn default_name() -> Seq<(Seq<char>, Seq<char>)> {
    seq![("CN"@, "certkit"@)]
}

/// The subject a generator signs with: its own entries, or the default
/// entry if none were supplied.
pub open spec fn effective_name(g: GeneratorView) -> Seq<(Seq<char>, Seq<char>)> {
    if g.names.len() == 0 {
        default_name()
    } else {
        g.names
    }
}

/// A certificate with its signature field cleared: what the signature is
/// computed over.
pub open spec fn unsigned_cert(c: CertView) -> CertView {
    CertView { signature: Seq::empty(), ..c }
}

/// A request with its signature field cleared.
pub open spec fn unsigned_req(q: ReqView) -> ReqView {
    ReqView { signature: Seq::empty(), ..q }
}

/// Adding several extensions in order.
pub open spec fn spec_add_seq(s: Seq<ExtensionView>, items: Seq<ExtensionView>) -> Seq<
    ExtensionView,
>
    decreases items.len(),
{
    if items.len() == 0 {
        s
    } else {
        spec_add_seq(spec_add(s, items[0]), items.drop_first())
    }
}

/// However many extensions are added, in whatever order, the resulting
/// collection never holds two extensions of the same kind.
pub proof fn lemma_add_seq_keeps_types_unique(s: Seq<ExtensionView>, items: Seq<ExtensionView>)
    requires
        unique_types(s),
    ensures
        unique_types(spec_add_seq(s, items)),
    decreases items.len(),
{
    if items.len() > 0 {
        lemma_add_keeps_types_unique(s, items[0]);
        lemma_add_seq_keeps_types_unique(spec_add(s, items[0]), items.drop_first());
    }
}

proof fn lemma_spec_add_seq_snoc(s: Seq<ExtensionView>, items: Seq<ExtensionView>, x: ExtensionView)
    ensures
        spec_add_seq(s, items.push(x)) == spec_add(spec_add_seq(s, items), x),
    decreases items.len(),
{
    if items.len() == 0 {
        assert(items.push(x)[0] == x);
        assert(items.push(x).drop_first() =~= Seq::<ExtensionView>::empty());
        assert(spec_add_seq(spec_add(s, x), Seq::<ExtensionView>::empty()) == spec_add(s, x));
        assert(spec_add_seq(s, items.push(x)) == spec_add(s, x));
    } else {
        assert(items.push(x)[0] == items[0]);
        assert(items.push(x).drop_first() =~= items.drop_first().push(x));
        lemma_spec_add_seq_snoc(spec_add(s, items[0]), items.drop_first(), x);
    }
}

/// Generator of self-signed certificates and signing requests.
///
/// Defaults: a validity period of 365 days, no name entries (a single
/// default CN entry is used at signing time), no extensions, and SHA-1 as
/// the signing hash.
pub struct X509Generator {
    days: u32,
    names: Vec<(String, String)>,
    extensions: Extensions,
    hash_type: MessageDigest,
}

impl View for X509Generator {
    type V = GeneratorView;

    closed spec fn view(&self) -> GeneratorView {
        GeneratorView {
            days: self.days,
            names: self.names.deep_view(),
            extensions: self.extensions@,
            hash_type: self.hash_type,
        }
    }
}

fn clone_entries(v: &Vec<(String, String)>) -> (r: Vec<(String, String)>)
    ensures
        r.deep_view() == v.deep_view(),
{
    let mut out: Vec<(String, String)> = Vec::new();
    let mut i: usize = 0;
    while i < v.len()
        invariant
            i <= v@.len(),
            out@.len() == i,
            forall|j: int|
                0 <= j < i ==> #[trigger] out@[j].0@ == v@[j].0@ && out@[j].1@ == v@[j].1@,
        decreases v@.len() - i,
    {
        let e = &v[i];
        out.push((e.0.clone(), e.1.clone()));
        i = i + 1;
    }
    proof {
        assert(out.deep_view() =~= v.deep_view());
    }
    out
}

impl X509Generator {
    /// The builder invariant: the extension set holds no duplicate kinds.
    pub open spec fn wf(&self) -> bool {
        unique_types(self@.extensions)
    }

    /// Creates a generator with the default validity period, name,
    /// extension set and signing hash.
    pub fn new() -> (r: X509Generator)
        ensures
            r@.days == 365,
            r@.names == Seq::<(Seq<char>, Seq<char>)>::empty(),
            r@.extensions == Seq::<ExtensionView>::empty(),
            r@.hash_type == MessageDigest::Sha1,
            r.wf(),
    {
        let r = X509Generator {
            days: 365,
            names: Vec::new(),
            extensions: Extensions::new(),
            hash_type: MessageDigest::sha1(),
        };
        proof {
            assert(r@.names =~= Seq::<(Seq<char>, Seq<char>)>::empty());
        }
        r
    }

    /// Sets the certificate validity period in days since now.
    pub fn set_valid_period(self, days: u32) -> (r: X509Generator)
        ensures
            r@ == (GeneratorView { days, ..self@ }),
            r.wf() == self.wf(),
    {
        X509Generator { days, ..self }
    }

    /// Appends one attribute to the name of the certificate.
    pub fn add_name(self, attr_type: String, attr_value: String) -> (r: X509Generator)
        ensures
            r@ == (GeneratorView { names: self@.names.push((attr_type@, attr_value@)), ..self@ }),
            r.wf() == self.wf(),
    {
        let mut names = self.names;
        let ghost pre = names.deep_view();
        names.push((attr_type, attr_value));
        proof {
            assert(names.deep_view() =~= pre.push((attr_type@, attr_value@)));
        }
        X509Generator { names, ..self }
    }

    /// Appends several attributes to the name of the certificate, in order.
    pub fn add_names(self, attrs: Vec<(String, String)>) -> (r: X509Generator)
        ensures
            r@ == (GeneratorView { names: self@.names + attrs.deep_view(), ..self@ }),
            r.wf() == self.wf(),
    {
        let ghost orig = self.names.deep_view();
        let ghost av = attrs.deep_view();
        let mut names = self.names;
        let n = attrs.len();
        let mut i: usize = 0;
        proof {
            assert(names.deep_view() =~= orig + av.take(0));
        }
        while i < n
            invariant
                n == attrs@.len(),
                av == attrs.deep_view(),
                i <= n,
                names.deep_view() == orig + av.take(i as int),
            decreases n - i,
        {
            let e = &attrs[i];
            let ghost pre = names.deep_view();
            names.push((e.0.clone(), e.1.clone()));
            proof {
                assert(names.deep_view() =~= pre.push(av[i as int]));
                assert(pre.push(av[i as int]) =~= orig + av.take(i as int + 1));
            }
            i = i + 1;
        }
        proof {
            assert(av.take(n as int) =~= av);
        }
        X509Generator { names, ..self }
    }

    /// Adds an extension, replacing any existing one of the same kind.
    pub fn add_extension(self, ext: Extension) -> (r: X509Generator)
        requires
            self.wf(),
        ensures
            r@ == (GeneratorView { extensions: spec_add(self@.extensions, ext@), ..self@ }),
            r.wf(),
    {
        let mut extensions = self.extensions;
        extensions.add(ext);
        X509Generator { extensions, ..self }
    }

    /// Adds several extensions in order, each replacing any existing one of
    /// its kind.
    pub fn add_extensions(self, exts: Vec<Extension>) -> (r: X509Generator)
        requires
            self.wf(),
        ensures
            r@ == (GeneratorView {
                extensions: spec_add_seq(self@.extensions, exts.deep_view()),
                ..self@
            }),
            r.wf(),
    {
        let ghost ev = exts.deep_view();
        let ghost orig = self.extensions@;
        let mut extensions = self.extensions;
        let n = exts.len();
        let mut i: usize = 0;
        proof {
            assert(ev.take(0) =~= Seq::<ExtensionView>::empty());
        }
        while i < n
            invariant
                n == exts@.len(),
                ev == exts.deep_view(),
                i <= n,
                extensions@ == spec_add_seq(orig, ev.take(i as int)),
                extensions.wf(),
            decreases n - i,
        {
            let e = exts[i].clone();
            proof {
                assert(e@ == ev[i as int]);
                assert(ev.take(i as int).push(ev[i as int]) =~= ev.take(i as int + 1));
                lemma_spec_add_seq_snoc(orig, ev.take(i as int), ev[i as int]);
            }
            extensions.add(e);
            i = i + 1;
        }
        proof {
            assert(ev.take(n as int) =~= ev);
        }
        X509Generator { extensions, ..self }
    }

    /// Selects the digest algorithm used for signing.
    pub fn set_sign_hash(self, hash_type: MessageDigest) -> (r: X509Generator)
        ensures
            r@ == (GeneratorView { hash_type, ..self@ }),
            r.wf() == self.wf(),
    {
        X509Generator { hash_type, ..self }
    }

    /// Assembles a serial number from eight random bytes, big endian, and
    /// clears the top bit by an unsigned shift, so that the serial is never
    /// negative. One bit of randomness is deliberately given up: some
    /// verifiers reject certificates with negative serials.
    pub fn serial_from_bytes(bytes: &[u8]) -> (r: i64)
        requires
            bytes@.len() == 8,
        ensures
            r == be_value(bytes@) / 2,
            0 <= r < 0x8000000000000000,
            (r > 0 <==> be_value(bytes@) >= 2),
    {
        let mut res: u64 = 0;
        let mut i: usize = 0;
        proof {
            assert(bytes@.take(0) =~= Seq::<u8>::empty());
            assert(pow256(0) == 1);
            assert(pow256(1) == 256);
            assert(pow256(2) == 0x10000);
            assert(pow256(3) == 0x1000000);
            assert(pow256(4) == 0x100000000);
            assert(pow256(5) == 0x10000000000);
            assert(pow256(6) == 0x1000000000000);
            assert(pow256(7) == 0x100000000000000);
            assert(pow256(8) == 0x10000000000000000);
        }
        while i < 8
            invariant
                i <= 8,
                bytes@.len() == 8,
                res == be_value(bytes@.take(i as int)),
                res < pow256(i as nat),
                pow256(8) == 0x10000000000000000,
                forall|k: nat| k < 8 ==> #[trigger] pow256(k) < 0x10000000000000000,
            decreases 8 - i,
        {
            proof {
                lemma_be_value_bound(bytes@.take(i as int));
                assert(pow256((i + 1) as nat) == 256 * pow256(i as nat));
                assert(bytes@.take(i as int + 1).drop_last() =~= bytes@.take(i as int));
                assert(bytes@.take(i as int + 1).last() == bytes@[i as int]);
            }
            res = res * 256 + (bytes[i] as u64);
            i = i + 1;
        }
        proof {
            assert(bytes@.take(8) =~= bytes@);
        }
        let shifted = res >> 1u64;
        proof {
            assert(shifted == res / 2) by (bit_vector)
                requires
                    shifted == res >> 1u64,
            ;
        }
        shifted as i64
    }

    /// Draws a fresh serial number from the random-byte provider. The
    /// result is never negative; it is zero only in the vanishingly rare
    /// case that the provider returns all-zero entropy.
    pub fn random_serial() -> (r: Result<i64, ErrorStack>)
        ensures
            match r {
                Ok(s) => 0 <= s < 0x8000000000000000,
                Err(e) => e@ == seq![ERR_RANDOM],
            },
    {
        let mut bytes: Vec<u8> = Vec::new();
        let mut i: usize = 0;
        while i < 8
            invariant
                bytes@.len() == i,
                i <= 8,
            decreases 8 - i,
        {
            bytes.push(0);
            i = i + 1;
        }
        match rand_bytes(&mut bytes) {
            Ok(()) => Ok(X509Generator::serial_from_bytes(bytes.as_slice())),
            Err(e) => Err(e),
        }
    }

    /// Builds and self-signs a certificate: a fresh serial, a validity
    /// window starting now, the configured subject used as issuer too, the
    /// extensions attached in insertion order, and a signature over the
    /// assembled body and the key.
    pub fn sign(&self, p_key: &PKey) -> (r: Result<X509, ErrorStack>)
        requires
            self.wf(),
        ensures
            match r {
                Ok(x) => {
                    &&& x@.version == 2
                    &&& 0 <= x@.serial
                    &&& x@.not_after == x@.not_before + self@.days * 86400
                    &&& x@.subject == effective_name(self@)
                    &&& x@.issuer == x@.subject
                    &&& x@.extensions == self@.extensions
                    &&& x@.public_key == p_key@
                    &&& x@.hash_kind == self@.hash_type
                    &&& x@.signature == digest_of(
                        self@.hash_type,
                        enc_cert(unsigned_cert(x@)) + p_key@,
                    )
                    &&& cert_wf(x@)
                },
                Err(e) => e@ == seq![ERR_RANDOM] || e@ == seq![ERR_TIME_RANGE],
            },
    {
        let serial = match X509Generator::random_serial() {
            Ok(s) => s,
            Err(e) => {
                return Err(e);
            },
        };
        let not_before = now_seconds();
        let window = (self.days as u64) * 86400;
        let not_after = match not_before.checked_add(window) {
            Some(t) => t,
            None => {
                return Err(ErrorStack::from_code(ERR_TIME_RANGE));
            },
        };
        let subject = self.effective_entries();
        let issuer = self.effective_entries();
        let extensions = self.extensions.duplicate();
        let public_key = slice_to_vec(p_key.bytes().as_slice());
        let body = X509Ref::assemble(
            2,
            serial,
            not_before,
            not_after,
            subject,
            issuer,
            extensions,
            public_key,
            self.hash_type,
            Vec::new(),
        );
        let tbs = match body.to_der() {
            Ok(d) => d,
            Err(e) => {
                return Err(e);
            },
        };
        let mut signed_input = tbs;
        let mut key_bytes = slice_to_vec(p_key.bytes().as_slice());
        signed_input.append(&mut key_bytes);
        let signature = digest(self.hash_type, signed_input.as_slice());
        let subject2 = self.effective_entries();
        let issuer2 = self.effective_entries();
        let extensions2 = self.extensions.duplicate();
        let public_key2 = slice_to_vec(p_key.bytes().as_slice());
        let cert = X509Ref::assemble(
            2,
            serial,
            not_before,
            not_after,
            subject2,
            issuer2,
            extensions2,
            public_key2,
            self.hash_type,
            signature,
        );
        proof {
            assert(unsigned_cert(cert@) =~= body@);
            assert(cert@.signature == digest_of(
                self@.hash_type,
                enc_cert(unsigned_cert(cert@)) + p_key@,
            ));
        }
        Ok(X509::from_parts(cert))
    }

    /// Derives a certificate signing request: runs the full signing
    /// workflow, carries the certificate's subject, key and extensions over
    /// into the request, and signs the request itself with the same key and
    /// hash.
    pub fn request(&self, p_key: &PKey) -> (r: Result<X509Req, ErrorStack>)
        requires
            self.wf(),
        ensures
            match r {
                Ok(q) => {
                    &&& q@.subject == effective_name(self@)
                    &&& q@.extensions == self@.extensions
                    &&& q@.public_key == p_key@
                    &&& q@.hash_kind == self@.hash_type
                    &&& q@.signature == digest_of(
                        self@.hash_type,
                        enc_req(unsigned_req(q@)) + p_key@,
                    )
                    &&& req_wf(q@)
                },
                Err(e) => e@ == seq![ERR_RANDOM] || e@ == seq![ERR_TIME_RANGE],
            },
    {
        let cert = match self.sign(p_key) {
            Ok(c) => c,
            Err(e) => {
                return Err(e);
            },
        };
        let subject = self.effective_entries();
        let extensions = self.extensions.duplicate();
        let public_key = slice_to_vec(p_key.bytes().as_slice());
        let body = X509Req::assemble(
            subject,
            extensions,
            public_key,
            self.hash_type,
            Vec::new(),
        );
        let tbs = match body.to_der() {
            Ok(d) => d,
            Err(e) => {
                return Err(e);
            },
        };
        let mut signed_input = tbs;
        let mut key_bytes = slice_to_vec(p_key.bytes().as_slice());
        signed_input.append(&mut key_bytes);
        let signature = digest(self.hash_type, signed_input.as_slice());
        let subject2 = self.effective_entries();
        let extensions2 = self.extensions.duplicate();
        let public_key2 = slice_to_vec(p_key.bytes().as_slice());
        let req = X509Req::assemble(
            subject2,
            extensions2,
            public_key2,
            self.hash_type,
            signature,
        );
        proof {
            assert(unsigned_req(req@) =~= body@);
        }
        Ok(req)
    }

    /// The name entries signing will use: the configured ones, or the
    /// default entry if none were supplied.
    fn effective_entries(&self) -> (r: Vec<(String, String)>)
        ensures
            r.deep_view() == effective_name(self@),
    {
        if self.names.len() == 0 {
            let mut out: Vec<(String, String)> = Vec::new();
            out.push((String::from_str("CN"), String::from_str("certkit")));
            proof {
                assert(out.deep_view() =~= default_name());
            }
            out
        } else {
            clone_entries(&self.names)
        }
    }
}

} // verus!
