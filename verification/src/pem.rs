//! Armored textual form: a header line, the hex digits of the binary body,
//! and a footer line. The armor is a faithful lossless round trip of the
//! binary form.

use vstd::prelude::*;
use vstd::slice::slice_to_vec;
use vstd::string::StringSliceAdditionalSpecFns;

verus! {

// ---------------------------------------------------------------------------
// Hex digits
// ---------------------------------------------------------------------------

/// The lower-case hex digit for a value below sixteen.
pub open spec fn hex_digit(n: u8) -> u8
    recommends
        n < 16,
{
    if n < 10 {
        (0x30 + n) as u8
    } else {
        (0x57 + n) as u8
    }
}

/// The value of a lower-case hex digit, if the byte is one.
pub open spec fn hex_val(c: u8) -> Option<u8> {
    if 0x30 <= c && c <= 0x39 {
        Some((c - 0x30) as u8)
    } else if 0x61 <= c && c <= 0x66 {
        Some((c - 0x57) as u8)
    } else {
        None
    }
}

/// Two lower-case hex digits per byte, high nibble first.
pub open spec fn hex_enc(b: Seq<u8>) -> Seq<u8>
    decreases b.len(),
{
    if b.len() == 0 {
        Seq::empty()
    } else {
        seq![hex_digit(b[0] / 16), hex_digit(b[0] % 16)] + hex_enc(b.drop_first())
    }
}

/// The bytes a run of hex digits denotes, if it is a well-formed even-length
/// run of lower-case digits.
pub open spec fn hex_dec(s: Seq<u8>) -> Option<Seq<u8>>
    decreases s.len(),
{
    if s.len() == 0 {
        Some(Seq::empty())
    } else if s.len() == 1 {
        None
    } else {
        match (hex_val(s[0]), hex_val(s[1])) {
            (Some(h), Some(l)) => match hex_dec(s.skip(2)) {
                Some(t) => Some(seq![(16 * h + l) as u8] + t),
                None => None,
            },
            _ => None,
        }
    }
}

pub proof fn lemma_hex_enc_len(b: Seq<u8>)
    ensures
        hex_enc(b).len() == 2 * b.len(),
    decreases b.len(),
{
    if b.len() > 0 {
        lemma_hex_enc_len(b.drop_first());
    }
}

/// Decoding an encoding yields the original bytes.
pub proof fn lemma_hex_roundtrip(b: Seq<u8>)
    ensures
        hex_dec(hex_enc(b)) == Some(b),
    decreases b.len(),
{
    if b.len() == 0 {
    } else {
        let s = hex_enc(b);
        lemma_hex_enc_len(b.drop_first());
        assert(s.len() >= 2);
        assert(s[0] == hex_digit(b[0] / 16));
        assert(s[1] == hex_digit(b[0] % 16));
        assert(hex_val(hex_digit(b[0] / 16)) == Some((b[0] / 16) as u8));
        assert(hex_val(hex_digit(b[0] % 16)) == Some((b[0] % 16) as u8));
        assert(s.skip(2) =~= hex_enc(b.drop_first()));
        lemma_hex_roundtrip(b.drop_first());
        assert(16 * (b[0] / 16) + (b[0] % 16) == b[0]);
        assert(seq![b[0]] + b.drop_first() =~= b);
    }
}

pub proof fn lemma_hex_enc_snoc(b: Seq<u8>, x: u8)
    ensures
        hex_enc(b.push(x)) == hex_enc(b) + seq![hex_digit(x / 16), hex_digit(x % 16)],
    decreases b.len(),
{
    if b.len() == 0 {
        let s2 = b.push(x);
        assert(s2[0] == x);
        assert(s2.drop_first() =~= Seq::<u8>::empty());
        assert(hex_enc(s2.drop_first()) =~= Seq::<u8>::empty());
        assert(hex_enc(s2) =~= seq![hex_digit(x / 16), hex_digit(x % 16)] + Seq::<u8>::empty());
        assert(hex_enc(b) =~= Seq::<u8>::empty());
        assert(hex_enc(s2) =~= hex_enc(b) + seq![hex_digit(x / 16), hex_digit(x % 16)]);
    } else {
        assert(b.push(x)[0] == b[0]);
        assert(b.push(x).drop_first() =~= b.drop_first().push(x));
        lemma_hex_enc_snoc(b.drop_first(), x);
        assert(hex_enc(b.push(x)) =~= hex_enc(b) + seq![hex_digit(x / 16), hex_digit(x % 16)]);
    }
}

fn hex_digit_exec(n: u8) -> (r: u8)
    requires
        n < 16,
    ensures
        r == hex_digit(n),
{
    if n < 10 {
        0x30 + n
    } else {
        0x57 + n
    }
}

fn hex_val_exec(c: u8) -> (r: Option<u8>)
    ensures
        r == hex_val(c),
{
    if 0x30 <= c && c <= 0x39 {
        Some(c - 0x30)
    } else if 0x61 <= c && c <= 0x66 {
        Some(c - 0x57)
    } else {
        None
    }
}

pub fn hex_encode(data: &[u8]) -> (r: Vec<u8>)
    ensures
        r@ == hex_enc(data@),
{
    let mut out: Vec<u8> = Vec::new();
    let n = data.len();
    let mut i: usize = 0;
    proof {
        assert(data@.take(0) =~= Seq::<u8>::empty());
        assert(out@ =~= hex_enc(data@.take(0)));
    }
    while i < n
        invariant
            n == data@.len(),
            i <= n,
            out@ == hex_enc(data@.take(i as int)),
        decreases n - i,
    {
        let b = data[i];
        out.push(hex_digit_exec(b / 16));
        out.push(hex_digit_exec(b % 16));
        proof {
            assert(data@.take(i as int).push(data@[i as int]) =~= data@.take(i as int + 1));
            lemma_hex_enc_snoc(data@.take(i as int), data@[i as int]);
            assert(out@ =~= hex_enc(data@.take(i as int + 1)));
        }
        i = i + 1;
    }
    proof {
        assert(data@.take(n as int) =~= data@);
    }
    out
}

/// Decodes the hex digits between the two positions.
pub fn hex_decode(data: &[u8], start: usize, end: usize) -> (r: Option<Vec<u8>>)
    requires
        start <= end <= data@.len(),
    ensures
        match r {
            Some(v) => hex_dec(data@.subrange(start as int, end as int)) == Some(v@),
            None => hex_dec(data@.subrange(start as int, end as int)) is None,
        },
{
    let mut out: Vec<u8> = Vec::new();
    let mut cur: usize = start;
    while cur < end
        invariant
            start <= cur <= end <= data@.len(),
            match hex_dec(data@.subrange(cur as int, end as int)) {
                Some(t) => hex_dec(data@.subrange(start as int, end as int)) == Some(out@ + t),
                None => hex_dec(data@.subrange(start as int, end as int)) is None,
            },
        decreases end - cur,
    {
        let ghost sc = data@.subrange(cur as int, end as int);
        if end - cur == 1 {
            proof {
                assert(sc.len() == 1);
                assert(hex_dec(sc) is None);
            }
            return None;
        }
        let h = hex_val_exec(data[cur]);
        let l = hex_val_exec(data[cur + 1]);
        proof {
            assert(sc[0] == data@[cur as int]);
            assert(sc[1] == data@[cur as int + 1]);
            assert(sc.skip(2) =~= data@.subrange(cur as int + 2, end as int));
        }
        match (h, l) {
            (Some(hv), Some(lv)) => {
                let ghost pre = out@;
                out.push(16 * hv + lv);
                proof {
                    assert(out@ =~= pre.push((16 * hv + lv) as u8));
                    match hex_dec(data@.subrange(cur as int + 2, end as int)) {
                        Some(t) => {
                            assert(hex_dec(sc) == Some(seq![(16 * hv + lv) as u8] + t));
                            assert(pre + (seq![(16 * hv + lv) as u8] + t) =~= out@ + t);
                        },
                        None => {
                            assert(hex_dec(sc) is None);
                        },
                    }
                }
                cur = cur + 2;
            },
            _ => {
                proof {
                    assert(hex_dec(sc) is None);
                }
                return None;
            },
        }
    }
    proof {
        assert(data@.subrange(cur as int, end as int).len() == 0);
        assert(hex_dec(data@.subrange(cur as int, end as int)) == Some(Seq::<u8>::empty()));
        assert(out@ + Seq::<u8>::empty() =~= out@);
    }
    Some(out)
}

// ---------------------------------------------------------------------------
// The armor itself
// ---------------------------------------------------------------------------

/// Header, hex digits of the payload, footer.
pub open spec fn enc_armor(h: Seq<u8>, f: Seq<u8>, payload: Seq<u8>) -> Seq<u8> {
    h + hex_enc(payload) + f
}

/// The payload of an armored text: present exactly when the text starts
/// with the header, ends with the footer, and holds well-formed hex digits
/// in between.
pub open spec fn p_armor(h: Seq<u8>, f: Seq<u8>, s: Seq<u8>) -> Option<Seq<u8>> {
    if s.len() >= h.len() + f.len() && s.take(h.len() as int) == h && s.skip(
        s.len() - f.len(),
    ) == f {
        hex_dec(s.subrange(h.len() as int, s.len() - f.len()))
    } else {
        None
    }
}

/// Unwrapping a wrapped payload yields the payload.
pub proof fn lemma_armor_roundtrip(h: Seq<u8>, f: Seq<u8>, payload: Seq<u8>)
    ensures
        p_armor(h, f, enc_armor(h, f, payload)) == Some(payload),
{
    let s = enc_armor(h, f, payload);
    lemma_hex_enc_len(payload);
    assert(s.take(h.len() as int) =~= h);
    assert(s.skip(s.len() - f.len()) =~= f);
    assert(s.subrange(h.len() as int, s.len() - f.len()) =~= hex_enc(payload));
    lemma_hex_roundtrip(payload);
}

/// Wraps a binary payload in the given armor.
pub fn wrap_armor(header: &str, footer: &str, payload: &[u8]) -> (r: Vec<u8>)
    ensures
        r@ == enc_armor(header.spec_bytes(), footer.spec_bytes(), payload@),
{
    let mut out = slice_to_vec(header.as_bytes());
    let mut mid = hex_encode(payload);
    let mut tail = slice_to_vec(footer.as_bytes());
    out.append(&mut mid);
    out.append(&mut tail);
    proof {
        assert(out@ =~= enc_armor(header.spec_bytes(), footer.spec_bytes(), payload@));
    }
    out
}

/// Strips the armor and decodes the payload, or reports that the text does
/// not carry it.
pub fn unwrap_armor(header: &str, footer: &str, data: &[u8]) -> (r: Option<Vec<u8>>)
    ensures
        match r {
            Some(v) => p_armor(header.spec_bytes(), footer.spec_bytes(), data@) == Some(v@),
            None => p_armor(header.spec_bytes(), footer.spec_bytes(), data@) is None,
        },
{
    let hb = header.as_bytes();
    let fb = footer.as_bytes();
    let ghost h = header.spec_bytes();
    let ghost f = footer.spec_bytes();
    let dn = data.len();
    if dn < hb.len() || dn - hb.len() < fb.len() {
        return None;
    }
    let mut i: usize = 0;
    while i < hb.len()
        invariant
            hb@ == h,
            fb@ == f,
            h == header.spec_bytes(),
            f == footer.spec_bytes(),
            dn == data@.len(),
            h.len() + f.len() <= data@.len(),
            i <= hb@.len(),
            forall|j: int| 0 <= j < i ==> data@[j] == h[j],
        decreases hb@.len() - i,
    {
        if data[i] != hb[i] {
            proof {
                let t = data@.take(h.len() as int);
                assert(t[i as int] == data@[i as int]);
                assert(t[i as int] != h[i as int]);
                assert(t != h);
            }
            return None;
        }
        i = i + 1;
    }
    proof {
        assert(data@.take(h.len() as int) =~= h);
    }
    let foot_start = dn - fb.len();
    let mut k: usize = 0;
    while k < fb.len()
        invariant
            fb@ == f,
            hb@ == h,
            h == header.spec_bytes(),
            f == footer.spec_bytes(),
            dn == data@.len(),
            h.len() + f.len() <= data@.len(),
            foot_start == data@.len() - f.len(),
            k <= fb@.len(),
            data@.take(h.len() as int) == h,
            forall|j: int| 0 <= j < k ==> data@[foot_start + j] == f[j],
        decreases fb@.len() - k,
    {
        if data[foot_start + k] != fb[k] {
            proof {
                let t = data@.skip(data@.len() - f.len());
                assert(t[k as int] == data@[foot_start + k]);
                assert(t[k as int] != f[k as int]);
                assert(t != f);
            }
            return None;
        }
        k = k + 1;
    }
    proof {
        assert(data@.skip(data@.len() - f.len()) =~= f);
    }
    hex_decode(data, hb.len(), foot_start)
}

} // verus!
