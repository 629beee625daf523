//! Binary encoding primitives shared by the certificate and request codecs.
//!
//! Every field of the certificate object model is written as either a
//! little-endian fixed-width integer, a length-prefixed byte string, a
//! length-prefixed UTF-8 text, or a counted list of such items. Each
//! primitive comes with a parsing specification and a proof that parsing
//! recovers exactly what was encoded, with the rest of the buffer untouched.

use vstd::prelude::*;
use vstd::bytes::{spec_u64_to_le_bytes, spec_u64_from_le_bytes, lemma_auto_spec_u64_to_from_le_bytes, u64_to_le_bytes, u64_from_le_bytes};
use vstd::utf8::{valid_utf8, decode_utf8, encode_utf8, encode_utf8_valid_utf8, encode_utf8_decode_utf8};
use vstd::slice::{slice_subrange, slice_to_vec};

verus! {

// ---------------------------------------------------------------------------
// Encoding specifications
// ---------------------------------------------------------------------------

/// A single byte.
pub open spec fn enc_u8(v: u8) -> Seq<u8> {
    seq![v]
}

/// A 64-bit integer, little endian, always 8 bytes.
pub open spec fn enc_u64(v: u64) -> Seq<u8> {
    spec_u64_to_le_bytes(v)
}

/// A byte string, prefixed by its length.
pub open spec fn enc_bytes(b: Seq<u8>) -> Seq<u8>
    recommends
        b.len() <= u64::MAX,
{
    enc_u64(b.len() as u64) + b
}

/// A text, stored as its length-prefixed UTF-8 encoding.
pub open spec fn enc_str(s: Seq<char>) -> Seq<u8> {
    enc_bytes(encode_utf8(s))
}

/// The items of a list, one encoding after the other.
pub open spec fn enc_seq<X>(items: Seq<X>, f: spec_fn(X) -> Seq<u8>) -> Seq<u8>
    decreases items.len(),
{
    if items.len() == 0 {
        Seq::empty()
    } else {
        f(items[0]) + enc_seq(items.drop_first(), f)
    }
}

/// A list: the item count, then the items.
pub open spec fn enc_list<X>(items: Seq<X>, f: spec_fn(X) -> Seq<u8>) -> Seq<u8>
    recommends
        items.len() <= u64::MAX,
{
    enc_u64(items.len() as u64) + enc_seq(items, f)
}

// ---------------------------------------------------------------------------
// Parsing specifications: each takes the unread rest of the buffer and
// returns the parsed value together with what remains after it.
// ---------------------------------------------------------------------------

pub open spec fn p_u8(s: Seq<u8>) -> Option<(u8, Seq<u8>)> {
    if s.len() >= 1 {
        Some((s[0], s.skip(1)))
    } else {
        None
    }
}

pub open spec fn p_u64(s: Seq<u8>) -> Option<(u64, Seq<u8>)> {
    if s.len() >= 8 {
        Some((spec_u64_from_le_bytes(s.take(8)), s.skip(8)))
    } else {
        None
    }
}

pub open spec fn p_bytes(s: Seq<u8>) -> Option<(Seq<u8>, Seq<u8>)> {
    match p_u64(s) {
        Some((n, r)) => {
            if n <= r.len() {
                Some((r.take(n as int), r.skip(n as int)))
            } else {
                None
            }
        },
        None => None,
    }
}

pub open spec fn p_str(s: Seq<u8>) -> Option<(Seq<char>, Seq<u8>)> {
    match p_bytes(s) {
        Some((b, r)) => {
            if valid_utf8(b) {
                Some((decode_utf8(b), r))
            } else {
                None
            }
        },
        None => None,
    }
}

/// Exactly `k` items, one after the other.
pub open spec fn p_elems<X>(
    s: Seq<u8>,
    k: nat,
    p: spec_fn(Seq<u8>) -> Option<(X, Seq<u8>)>,
) -> Option<(Seq<X>, Seq<u8>)>
    decreases k,
{
    if k == 0 {
        Some((Seq::empty(), s))
    } else {
        match p(s) {
            Some((x, r)) => match p_elems(r, (k - 1) as nat, p) {
                Some((xs, r2)) => Some((seq![x] + xs, r2)),
                None => None,
            },
            None => None,
        }
    }
}

/// A counted list.
pub open spec fn p_list<X>(
    s: Seq<u8>,
    p: spec_fn(Seq<u8>) -> Option<(X, Seq<u8>)>,
) -> Option<(Seq<X>, Seq<u8>)> {
    match p_u64(s) {
        Some((n, r)) => p_elems(r, n as nat, p),
        None => None,
    }
}

// ---------------------------------------------------------------------------
// Round-trip lemmas: parsing an encoding yields the value and the rest.
// ---------------------------------------------------------------------------

pub proof fn lemma_p_u8(v: u8, rest: Seq<u8>)
    ensures
        p_u8(enc_u8(v) + rest) == Some((v, rest)),
{
    let s = enc_u8(v) + rest;
    assert(s.skip(1) =~= rest);
}

pub proof fn lemma_p_u64(v: u64, rest: Seq<u8>)
    ensures
        p_u64(enc_u64(v) + rest) == Some((v, rest)),
{
    lemma_auto_spec_u64_to_from_le_bytes();
    let s = enc_u64(v) + rest;
    assert(s.take(8) =~= enc_u64(v));
    assert(s.skip(8) =~= rest);
}

pub proof fn lemma_p_bytes(b: Seq<u8>, rest: Seq<u8>)
    requires
        b.len() <= u64::MAX,
    ensures
        p_bytes(enc_bytes(b) + rest) == Some((b, rest)),
{
    let s = enc_bytes(b) + rest;
    assert(s =~= enc_u64(b.len() as u64) + (b + rest));
    lemma_p_u64(b.len() as u64, b + rest);
    assert((b + rest).take(b.len() as int) =~= b);
    assert((b + rest).skip(b.len() as int) =~= rest);
}

pub proof fn lemma_p_str(cs: Seq<char>, rest: Seq<u8>)
    requires
        encode_utf8(cs).len() <= u64::MAX,
    ensures
        p_str(enc_str(cs) + rest) == Some((cs, rest)),
{
    lemma_p_bytes(encode_utf8(cs), rest);
    encode_utf8_valid_utf8(cs);
    encode_utf8_decode_utf8(cs);
}

pub proof fn lemma_p_elems<X>(
    items: Seq<X>,
    rest: Seq<u8>,
    f: spec_fn(X) -> Seq<u8>,
    p: spec_fn(Seq<u8>) -> Option<(X, Seq<u8>)>,
)
    requires
        forall|i: int, r2: Seq<u8>|
            0 <= i < items.len() ==> #[trigger] p(f(items[i]) + r2) == Some((items[i], r2)),
    ensures
        p_elems(enc_seq(items, f) + rest, items.len(), p) == Some((items, rest)),
    decreases items.len(),
{
    if items.len() == 0 {
        assert(enc_seq(items, f) + rest =~= rest);
        assert(p_elems(rest, 0, p) == Some((Seq::<X>::empty(), rest)));
        assert(items =~= Seq::<X>::empty());
    } else {
        let tail = items.drop_first();
        let s = enc_seq(items, f) + rest;
        assert(s =~= f(items[0]) + (enc_seq(tail, f) + rest));
        assert(p(f(items[0]) + (enc_seq(tail, f) + rest)) == Some((
            items[0],
            enc_seq(tail, f) + rest,
        )));
        assert forall|i: int, r2: Seq<u8>| 0 <= i < tail.len() implies #[trigger] p(
            f(tail[i]) + r2,
        ) == Some((tail[i], r2)) by {
            assert(tail[i] == items[i + 1]);
        }
        lemma_p_elems(tail, rest, f, p);
        assert(seq![items[0]] + tail =~= items);
    }
}

pub proof fn lemma_p_list<X>(
    items: Seq<X>,
    rest: Seq<u8>,
    f: spec_fn(X) -> Seq<u8>,
    p: spec_fn(Seq<u8>) -> Option<(X, Seq<u8>)>,
)
    requires
        items.len() <= u64::MAX,
        forall|i: int, r2: Seq<u8>|
            0 <= i < items.len() ==> #[trigger] p(f(items[i]) + r2) == Some((items[i], r2)),
    ensures
        p_list(enc_list(items, f) + rest, p) == Some((items, rest)),
{
    let s = enc_list(items, f) + rest;
    assert(s =~= enc_u64(items.len() as u64) + (enc_seq(items, f) + rest));
    lemma_p_u64(items.len() as u64, enc_seq(items, f) + rest);
    lemma_p_elems(items, rest, f, p);
}

/// Concatenation of byte strings is associative.
pub proof fn lemma_seq_assoc(a: Seq<u8>, b: Seq<u8>, c: Seq<u8>)
    ensures
        (a + b) + c == a + (b + c),
{
    assert((a + b) + c =~= a + (b + c));
}

/// Appending one item to a list extends its item encoding at the end.
pub proof fn lemma_enc_seq_snoc<X>(items: Seq<X>, x: X, f: spec_fn(X) -> Seq<u8>)
    ensures
        enc_seq(items.push(x), f) == enc_seq(items, f) + f(x),
    decreases items.len(),
{
    if items.len() == 0 {
        let s2 = items.push(x);
        assert(s2[0] == x);
        assert(s2.drop_first() =~= Seq::<X>::empty());
        assert(enc_seq(s2.drop_first(), f) =~= Seq::<u8>::empty());
        assert(enc_seq(s2, f) =~= f(x) + Seq::<u8>::empty());
        assert(f(x) + Seq::<u8>::empty() =~= f(x));
        assert(enc_seq(items, f) + f(x) =~= f(x));
    } else {
        assert(items.push(x).drop_first() =~= items.drop_first().push(x));
        lemma_enc_seq_snoc(items.drop_first(), x, f);
        assert(enc_seq(items.push(x), f) =~= enc_seq(items, f) + f(x));
    }
}

// ---------------------------------------------------------------------------
// Executable writers
// ---------------------------------------------------------------------------

pub fn write_u8(out: &mut Vec<u8>, v: u8)
    ensures
        final(out)@ == old(out)@ + enc_u8(v),
{
    out.push(v);
    assert(final(out)@ =~= old(out)@ + enc_u8(v));
}

pub fn write_u64(out: &mut Vec<u8>, v: u64)
    ensures
        final(out)@ == old(out)@ + enc_u64(v),
{
    let mut bytes = u64_to_le_bytes(v);
    out.append(&mut bytes);
}

pub fn write_bytes(out: &mut Vec<u8>, b: &[u8])
    ensures
        final(out)@ == old(out)@ + enc_bytes(b@),
{
    write_u64(out, b.len() as u64);
    let mut tail = slice_to_vec(b);
    out.append(&mut tail);
    assert(final(out)@ =~= old(out)@ + enc_bytes(b@));
}

pub fn write_str(out: &mut Vec<u8>, s: &str)
    ensures
        final(out)@ == old(out)@ + enc_str(s@),
{
    write_bytes(out, s.as_bytes());
}

// ---------------------------------------------------------------------------
// Executable readers. Each takes the buffer and the number of bytes already
// consumed, and relates its result to the parsing specification on the
// unread rest.
// ---------------------------------------------------------------------------

pub fn read_u8(buf: &[u8], pos: usize) -> (r: Option<(u8, usize)>)
    requires
        pos <= buf@.len(),
    ensures
        match r {
            Some((v, j)) => pos <= j <= buf@.len() && p_u8(buf@.skip(pos as int)) == Some(
                (v, buf@.skip(j as int)),
            ),
            None => p_u8(buf@.skip(pos as int)) is None,
        },
{
    if buf.len() - pos >= 1 {
        let v = buf[pos];
        proof {
            assert(buf@.skip(pos as int)[0] == buf@[pos as int]);
            assert(buf@.skip(pos as int).skip(1) =~= buf@.skip(pos as int + 1));
        }
        Some((v, pos + 1))
    } else {
        None
    }
}

pub fn read_u64(buf: &[u8], pos: usize) -> (r: Option<(u64, usize)>)
    requires
        pos <= buf@.len(),
    ensures
        match r {
            Some((v, j)) => pos <= j <= buf@.len() && p_u64(buf@.skip(pos as int)) == Some(
                (v, buf@.skip(j as int)),
            ),
            None => p_u64(buf@.skip(pos as int)) is None,
        },
{
    if buf.len() - pos >= 8 {
        let sub = slice_subrange(buf, pos, pos + 8);
        let v = u64_from_le_bytes(sub);
        proof {
            assert(buf@.skip(pos as int).take(8) =~= sub@);
            assert(buf@.skip(pos as int).skip(8) =~= buf@.skip(pos as int + 8));
        }
        Some((v, pos + 8))
    } else {
        None
    }
}

pub fn read_bytes(buf: &[u8], pos: usize) -> (r: Option<(Vec<u8>, usize)>)
    requires
        pos <= buf@.len(),
    ensures
        match r {
            Some((v, j)) => pos <= j <= buf@.len() && p_bytes(buf@.skip(pos as int)) == Some(
                (v@, buf@.skip(j as int)),
            ),
            None => p_bytes(buf@.skip(pos as int)) is None,
        },
{
    match read_u64(buf, pos) {
        Some((n, j)) => {
            if n <= (buf.len() - j) as u64 {
                let end = j + (n as usize);
                let v = slice_to_vec(slice_subrange(buf, j, end));
                proof {
                    let rest = buf@.skip(j as int);
                    assert(rest.len() == buf@.len() - j);
                    assert(rest.take(n as int) =~= buf@.subrange(j as int, end as int));
                    assert(rest.skip(n as int) =~= buf@.skip(end as int));
                }
                Some((v, end))
            } else {
                None
            }
        },
        None => None,
    }
}

/// Relies on std's `str::from_utf8`: succeeds with the decoded text exactly
/// when the bytes are valid UTF-8.
#[verifier::external_body]
fn bytes_to_string(b: &[u8]) -> (r: Option<String>)
    ensures
        match r {
            Some(s) => valid_utf8(b@) && s@ == decode_utf8(b@),
            None => !valid_utf8(b@),
        },
{
    match std::str::from_utf8(b) {
        Ok(s) => Some(s.to_owned()),
        Err(_) => None,
    }
}

pub fn read_str(buf: &[u8], pos: usize) -> (r: Option<(String, usize)>)
    requires
        pos <= buf@.len(),
    ensures
        match r {
            Some((v, j)) => pos <= j <= buf@.len() && p_str(buf@.skip(pos as int)) == Some(
                (v@, buf@.skip(j as int)),
            ),
            None => p_str(buf@.skip(pos as int)) is None,
        },
{
    match read_bytes(buf, pos) {
        Some((b, j)) => {
            match bytes_to_string(b.as_slice()) {
                Some(s) => Some((s, j)),
                None => None,
            }
        },
        None => None,
    }
}

} // verus!
