//! The wire format of names, SAN entries and extensions: encoding and
//! parsing specifications, their round-trip proofs, and the executable
//! writers and readers the certificate and request codecs are built from.

use vstd::prelude::*;
use vstd::utf8::encode_utf8;
use crate::codec::{enc_u8, enc_u64, enc_str, enc_bytes, enc_list, enc_seq, p_u8, p_u64, p_str, p_bytes, p_list, p_elems, lemma_p_u8, lemma_p_str, lemma_p_bytes, lemma_p_list, lemma_enc_seq_snoc, write_u8, write_u64, write_str, write_bytes, read_u8, read_u64, read_str, read_bytes};
use crate::extension::{Extension, ExtensionView, KeyUsageOption};
use crate::nid::{Nid, lemma_nid_tag_roundtrip};
use crate::extension::lemma_ku_tag_roundtrip;
use crate::san::{GeneralName, GeneralNameView};
use crate::crypto::MessageDigest;

verus! {

// ---------------------------------------------------------------------------
// Size side conditions: an encoding only round-trips when every length fits
// its length prefix.
// ---------------------------------------------------------------------------

pub open spec fn str_ok(s: Seq<char>) -> bool {
    encode_utf8(s).len() <= u64::MAX
}

pub open spec fn pair_ok(p: (Seq<char>, Seq<char>)) -> bool {
    str_ok(p.0) && str_ok(p.1)
}

pub open spec fn name_ok(n: Seq<(Seq<char>, Seq<char>)>) -> bool {
    n.len() <= u64::MAX && forall|i: int| 0 <= i < n.len() ==> pair_ok(#[trigger] n[i])
}

pub open spec fn gname_ok(g: GeneralNameView) -> bool {
    match g {
        GeneralNameView::Dns(s) => str_ok(s),
        GeneralNameView::Ip(b) => b.len() <= u64::MAX,
        GeneralNameView::Other => true,
    }
}

pub open spec fn ext_ok(e: ExtensionView) -> bool {
    match e {
        ExtensionView::KeyUsage(os) => os.len() <= u64::MAX,
        ExtensionView::SubjectAltName(gs) => gs.len() <= u64::MAX && forall|i: int|
            0 <= i < gs.len() ==> gname_ok(#[trigger] gs[i]),
        ExtensionView::OtherNid(_, v) => str_ok(v),
        ExtensionView::OtherStr(k, v) => str_ok(k) && str_ok(v),
    }
}

pub open spec fn exts_ok(es: Seq<ExtensionView>) -> bool {
    es.len() <= u64::MAX && forall|i: int| 0 <= i < es.len() ==> ext_ok(#[trigger] es[i])
}

// ---------------------------------------------------------------------------
// Encoding and parsing specifications
// ---------------------------------------------------------------------------

pub open spec fn enc_pair(p: (Seq<char>, Seq<char>)) -> Seq<u8> {
    enc_str(p.0) + enc_str(p.1)
}

pub open spec fn enc_pair_fn() -> spec_fn((Seq<char>, Seq<char>)) -> Seq<u8> {
    |p: (Seq<char>, Seq<char>)| enc_pair(p)
}

pub open spec fn p_pair(s: Seq<u8>) -> Option<((Seq<char>, Seq<char>), Seq<u8>)> {
    match p_str(s) {
        Some((k, r)) => match p_str(r) {
            Some((v, r2)) => Some(((k, v), r2)),
            None => None,
        },
        None => None,
    }
}

pub open spec fn p_pair_fn() -> spec_fn(Seq<u8>) -> Option<((Seq<char>, Seq<char>), Seq<u8>)> {
    |s: Seq<u8>| p_pair(s)
}

pub open spec fn enc_name(n: Seq<(Seq<char>, Seq<char>)>) -> Seq<u8> {
    enc_list(n, enc_pair_fn())
}

pub open spec fn p_name(s: Seq<u8>) -> Option<(Seq<(Seq<char>, Seq<char>)>, Seq<u8>)> {
    p_list(s, p_pair_fn())
}

pub open spec fn enc_gname(g: GeneralNameView) -> Seq<u8> {
    match g {
        GeneralNameView::Dns(s) => enc_u8(1) + enc_str(s),
        GeneralNameView::Ip(b) => enc_u8(2) + enc_bytes(b),
        GeneralNameView::Other => enc_u8(3),
    }
}

pub open spec fn enc_gname_fn() -> spec_fn(GeneralNameView) -> Seq<u8> {
    |g: GeneralNameView| enc_gname(g)
}

pub open spec fn p_gname(s: Seq<u8>) -> Option<(GeneralNameView, Seq<u8>)> {
    match p_u8(s) {
        Some((t, r)) => {
            if t == 1 {
                match p_str(r) {
                    Some((d, r2)) => Some((GeneralNameView::Dns(d), r2)),
                    None => None,
                }
            } else if t == 2 {
                match p_bytes(r) {
                    Some((b, r2)) => Some((GeneralNameView::Ip(b), r2)),
                    None => None,
                }
            } else if t == 3 {
                Some((GeneralNameView::Other, r))
            } else {
                None
            }
        },
        None => None,
    }
}

pub open spec fn p_gname_fn() -> spec_fn(Seq<u8>) -> Option<(GeneralNameView, Seq<u8>)> {
    |s: Seq<u8>| p_gname(s)
}

pub open spec fn enc_ku(o: KeyUsageOption) -> Seq<u8> {
    enc_u8(o.spec_tag())
}

pub open spec fn enc_ku_fn() -> spec_fn(KeyUsageOption) -> Seq<u8> {
    |o: KeyUsageOption| enc_ku(o)
}

pub open spec fn p_ku(s: Seq<u8>) -> Option<(KeyUsageOption, Seq<u8>)> {
    match p_u8(s) {
        Some((t, r)) => match KeyUsageOption::spec_from_tag(t) {
            Some(o) => Some((o, r)),
            None => None,
        },
        None => None,
    }
}

pub open spec fn p_ku_fn() -> spec_fn(Seq<u8>) -> Option<(KeyUsageOption, Seq<u8>)> {
    |s: Seq<u8>| p_ku(s)
}

pub open spec fn enc_ext(e: ExtensionView) -> Seq<u8> {
    match e {
        ExtensionView::KeyUsage(os) => enc_u8(1) + enc_list(os, enc_ku_fn()),
        ExtensionView::SubjectAltName(gs) => enc_u8(2) + enc_list(gs, enc_gname_fn()),
        ExtensionView::OtherNid(n, v) => enc_u8(3) + (enc_u8(n.spec_tag()) + enc_str(v)),
        ExtensionView::OtherStr(k, v) => enc_u8(4) + (enc_str(k) + enc_str(v)),
    }
}

pub open spec fn enc_ext_fn() -> spec_fn(ExtensionView) -> Seq<u8> {
    |e: ExtensionView| enc_ext(e)
}

pub open spec fn p_ext(s: Seq<u8>) -> Option<(ExtensionView, Seq<u8>)> {
    match p_u8(s) {
        Some((t, r)) => {
            if t == 1 {
                match p_list(r, p_ku_fn()) {
                    Some((os, r2)) => Some((ExtensionView::KeyUsage(os), r2)),
                    None => None,
                }
            } else if t == 2 {
                match p_list(r, p_gname_fn()) {
                    Some((gs, r2)) => Some((ExtensionView::SubjectAltName(gs), r2)),
                    None => None,
                }
            } else if t == 3 {
                match p_u8(r) {
                    Some((nt, r2)) => match Nid::spec_from_tag(nt) {
                        Some(n) => match p_str(r2) {
                            Some((v, r3)) => Some((ExtensionView::OtherNid(n, v), r3)),
                            None => None,
                        },
                        None => None,
                    },
                    None => None,
                }
            } else if t == 4 {
                match p_str(r) {
                    Some((k, r2)) => match p_str(r2) {
                        Some((v, r3)) => Some((ExtensionView::OtherStr(k, v), r3)),
                        None => None,
                    },
                    None => None,
                }
            } else {
                None
            }
        },
        None => None,
    }
}

pub open spec fn p_ext_fn() -> spec_fn(Seq<u8>) -> Option<(ExtensionView, Seq<u8>)> {
    |s: Seq<u8>| p_ext(s)
}

pub open spec fn enc_exts(es: Seq<ExtensionView>) -> Seq<u8> {
    enc_list(es, enc_ext_fn())
}

pub open spec fn p_exts(s: Seq<u8>) -> Option<(Seq<ExtensionView>, Seq<u8>)> {
    p_list(s, p_ext_fn())
}

/// The digest selector's tag on the wire.
pub open spec fn spec_md_tag(k: MessageDigest) -> u8 {
    match k {
        MessageDigest::Sha1 => 1,
        MessageDigest::Sha256 => 2,
    }
}

pub open spec fn spec_md_from_tag(t: u8) -> Option<MessageDigest> {
    if t == 1 {
        Some(MessageDigest::Sha1)
    } else if t == 2 {
        Some(MessageDigest::Sha256)
    } else {
        None
    }
}

pub fn md_tag(k: MessageDigest) -> (r: u8)
    ensures
        r == spec_md_tag(k),
{
    match k {
        MessageDigest::Sha1 => 1,
        MessageDigest::Sha256 => 2,
    }
}

pub fn md_from_tag(t: u8) -> (r: Option<MessageDigest>)
    ensures
        r == spec_md_from_tag(t),
{
    if t == 1 {
        Some(MessageDigest::Sha1)
    } else if t == 2 {
        Some(MessageDigest::Sha256)
    } else {
        None
    }
}

// ---------------------------------------------------------------------------
// Round-trip proofs
// ---------------------------------------------------------------------------

pub proof fn lemma_p_pair(p: (Seq<char>, Seq<char>), rest: Seq<u8>)
    requires
        pair_ok(p),
    ensures
        p_pair(enc_pair(p) + rest) == Some((p, rest)),
{
    assert(enc_pair(p) + rest =~= enc_str(p.0) + (enc_str(p.1) + rest));
    lemma_p_str(p.0, enc_str(p.1) + rest);
    lemma_p_str(p.1, rest);
}

pub proof fn lemma_p_name(n: Seq<(Seq<char>, Seq<char>)>, rest: Seq<u8>)
    requires
        name_ok(n),
    ensures
        p_name(enc_name(n) + rest) == Some((n, rest)),
{
    assert forall|i: int, r2: Seq<u8>| 0 <= i < n.len() implies #[trigger] p_pair_fn()(
        enc_pair_fn()(n[i]) + r2,
    ) == Some((n[i], r2)) by {
        lemma_p_pair(n[i], r2);
    }
    lemma_p_list(n, rest, enc_pair_fn(), p_pair_fn());
}

pub proof fn lemma_p_gname(g: GeneralNameView, rest: Seq<u8>)
    requires
        gname_ok(g),
    ensures
        p_gname(enc_gname(g) + rest) == Some((g, rest)),
{
    match g {
        GeneralNameView::Dns(s) => {
            assert(enc_gname(g) + rest =~= enc_u8(1) + (enc_str(s) + rest));
            lemma_p_u8(1, enc_str(s) + rest);
            lemma_p_str(s, rest);
        },
        GeneralNameView::Ip(b) => {
            assert(enc_gname(g) + rest =~= enc_u8(2) + (enc_bytes(b) + rest));
            lemma_p_u8(2, enc_bytes(b) + rest);
            lemma_p_bytes(b, rest);
        },
        GeneralNameView::Other => {
            lemma_p_u8(3, rest);
        },
    }
}

pub proof fn lemma_p_ku(o: KeyUsageOption, rest: Seq<u8>)
    ensures
        p_ku(enc_ku(o) + rest) == Some((o, rest)),
{
    lemma_p_u8(o.spec_tag(), rest);
    lemma_ku_tag_roundtrip(o);
}

pub proof fn lemma_p_ext(e: ExtensionView, rest: Seq<u8>)
    requires
        ext_ok(e),
    ensures
        p_ext(enc_ext(e) + rest) == Some((e, rest)),
{
    match e {
        ExtensionView::KeyUsage(os) => {
            assert(enc_ext(e) + rest =~= enc_u8(1) + (enc_list(os, enc_ku_fn()) + rest));
            lemma_p_u8(1, enc_list(os, enc_ku_fn()) + rest);
            assert forall|i: int, r2: Seq<u8>| 0 <= i < os.len() implies #[trigger] p_ku_fn()(
                enc_ku_fn()(os[i]) + r2,
            ) == Some((os[i], r2)) by {
                lemma_p_ku(os[i], r2);
            }
            lemma_p_list(os, rest, enc_ku_fn(), p_ku_fn());
        },
        ExtensionView::SubjectAltName(gs) => {
            assert(enc_ext(e) + rest =~= enc_u8(2) + (enc_list(gs, enc_gname_fn()) + rest));
            lemma_p_u8(2, enc_list(gs, enc_gname_fn()) + rest);
            assert forall|i: int, r2: Seq<u8>| 0 <= i < gs.len() implies #[trigger] p_gname_fn()(
                enc_gname_fn()(gs[i]) + r2,
            ) == Some((gs[i], r2)) by {
                lemma_p_gname(gs[i], r2);
            }
            lemma_p_list(gs, rest, enc_gname_fn(), p_gname_fn());
        },
        ExtensionView::OtherNid(n, v) => {
            assert(enc_ext(e) + rest =~= enc_u8(3) + (enc_u8(n.spec_tag()) + (enc_str(v)
                + rest)));
            lemma_p_u8(3, enc_u8(n.spec_tag()) + (enc_str(v) + rest));
            lemma_p_u8(n.spec_tag(), enc_str(v) + rest);
            lemma_nid_tag_roundtrip(n);
            lemma_p_str(v, rest);
        },
        ExtensionView::OtherStr(k, v) => {
            assert(enc_ext(e) + rest =~= enc_u8(4) + (enc_str(k) + (enc_str(v) + rest)));
            lemma_p_u8(4, enc_str(k) + (enc_str(v) + rest));
            lemma_p_str(k, enc_str(v) + rest);
            lemma_p_str(v, rest);
        },
    }
}

pub proof fn lemma_p_exts(es: Seq<ExtensionView>, rest: Seq<u8>)
    requires
        exts_ok(es),
    ensures
        p_exts(enc_exts(es) + rest) == Some((es, rest)),
{
    assert forall|i: int, r2: Seq<u8>| 0 <= i < es.len() implies #[trigger] p_ext_fn()(
        enc_ext_fn()(es[i]) + r2,
    ) == Some((es[i], r2)) by {
        lemma_p_ext(es[i], r2);
    }
    lemma_p_list(es, rest, enc_ext_fn(), p_ext_fn());
}

// ---------------------------------------------------------------------------
// Executable writers
// ---------------------------------------------------------------------------

pub fn write_pair(out: &mut Vec<u8>, p: &(String, String))
    ensures
        final(out)@ == old(out)@ + enc_pair(p.deep_view()),
{
    write_str(out, p.0.as_str());
    write_str(out, p.1.as_str());
    assert(final(out)@ =~= old(out)@ + enc_pair(p.deep_view()));
}

pub fn write_name(out: &mut Vec<u8>, entries: &Vec<(String, String)>)
    ensures
        final(out)@ == old(out)@ + enc_name(entries.deep_view()),
{
    write_u64(out, entries.len() as u64);
    let n = entries.len();
    let mut i: usize = 0;
    while i < n
        invariant
            n == entries@.len(),
            i <= n,
            out@ == old(out)@ + enc_u64(n as u64) + enc_seq(
                entries.deep_view().take(i as int),
                enc_pair_fn(),
            ),
        decreases n - i,
    {
        write_pair(out, &entries[i]);
        proof {
            let dv = entries.deep_view();
            assert(dv.take(i as int).push(dv[i as int]) =~= dv.take(i as int + 1));
            lemma_enc_seq_snoc(dv.take(i as int), dv[i as int], enc_pair_fn());
            assert(out@ =~= old(out)@ + enc_u64(n as u64) + enc_seq(
                dv.take(i as int + 1),
                enc_pair_fn(),
            ));
        }
        i = i + 1;
    }
    proof {
        assert(entries.deep_view().take(n as int) =~= entries.deep_view());
        assert(out@ =~= old(out)@ + enc_name(entries.deep_view()));
    }
}

pub fn write_gname(out: &mut Vec<u8>, g: &GeneralName)
    ensures
        final(out)@ == old(out)@ + enc_gname(g@),
{
    match g {
        GeneralName::Dns(s) => {
            write_u8(out, 1);
            write_str(out, s.as_str());
        },
        GeneralName::Ip(b) => {
            write_u8(out, 2);
            write_bytes(out, b.as_slice());
        },
        GeneralName::Other => {
            write_u8(out, 3);
        },
    }
    assert(final(out)@ =~= old(out)@ + enc_gname(g@));
}

pub fn write_gnames(out: &mut Vec<u8>, gs: &Vec<GeneralName>)
    ensures
        final(out)@ == old(out)@ + enc_list(gs.deep_view(), enc_gname_fn()),
{
    write_u64(out, gs.len() as u64);
    let n = gs.len();
    let mut i: usize = 0;
    while i < n
        invariant
            n == gs@.len(),
            i <= n,
            out@ == old(out)@ + enc_u64(n as u64) + enc_seq(
                gs.deep_view().take(i as int),
                enc_gname_fn(),
            ),
        decreases n - i,
    {
        write_gname(out, &gs[i]);
        proof {
            let dv = gs.deep_view();
            assert(dv.take(i as int).push(dv[i as int]) =~= dv.take(i as int + 1));
            lemma_enc_seq_snoc(dv.take(i as int), dv[i as int], enc_gname_fn());
            assert(out@ =~= old(out)@ + enc_u64(n as u64) + enc_seq(
                dv.take(i as int + 1),
                enc_gname_fn(),
            ));
        }
        i = i + 1;
    }
    proof {
        assert(gs.deep_view().take(n as int) =~= gs.deep_view());
        assert(out@ =~= old(out)@ + enc_list(gs.deep_view(), enc_gname_fn()));
    }
}

pub fn write_kus(out: &mut Vec<u8>, os: &Vec<KeyUsageOption>)
    ensures
        final(out)@ == old(out)@ + enc_list(os@, enc_ku_fn()),
{
    write_u64(out, os.len() as u64);
    let n = os.len();
    let mut i: usize = 0;
    while i < n
        invariant
            n == os@.len(),
            i <= n,
            out@ == old(out)@ + enc_u64(n as u64) + enc_seq(os@.take(i as int), enc_ku_fn()),
        decreases n - i,
    {
        write_u8(out, os[i].tag());
        proof {
            assert(os@.take(i as int).push(os@[i as int]) =~= os@.take(i as int + 1));
            lemma_enc_seq_snoc(os@.take(i as int), os@[i as int], enc_ku_fn());
            assert(out@ =~= old(out)@ + enc_u64(n as u64) + enc_seq(
                os@.take(i as int + 1),
                enc_ku_fn(),
            ));
        }
        i = i + 1;
    }
    proof {
        assert(os@.take(n as int) =~= os@);
        assert(out@ =~= old(out)@ + enc_list(os@, enc_ku_fn()));
    }
}

pub fn write_ext(out: &mut Vec<u8>, e: &Extension)
    ensures
        final(out)@ == old(out)@ + enc_ext(e@),
{
    match e {
        Extension::KeyUsage(os) => {
            write_u8(out, 1);
            write_kus(out, os);
        },
        Extension::SubjectAltName(gs) => {
            write_u8(out, 2);
            write_gnames(out, gs);
        },
        Extension::OtherNid(n, v) => {
            write_u8(out, 3);
            write_u8(out, n.tag());
            write_str(out, v.as_str());
        },
        Extension::OtherStr(k, v) => {
            write_u8(out, 4);
            write_str(out, k.as_str());
            write_str(out, v.as_str());
        },
    }
    assert(final(out)@ =~= old(out)@ + enc_ext(e@));
}

pub fn write_exts(out: &mut Vec<u8>, items: &Vec<Extension>)
    ensures
        final(out)@ == old(out)@ + enc_exts(items.deep_view()),
{
    write_u64(out, items.len() as u64);
    let n = items.len();
    let mut i: usize = 0;
    while i < n
        invariant
            n == items@.len(),
            i <= n,
            out@ == old(out)@ + enc_u64(n as u64) + enc_seq(
                items.deep_view().take(i as int),
                enc_ext_fn(),
            ),
        decreases n - i,
    {
        write_ext(out, &items[i]);
        proof {
            let dv = items.deep_view();
            assert(dv.take(i as int).push(dv[i as int]) =~= dv.take(i as int + 1));
            lemma_enc_seq_snoc(dv.take(i as int), dv[i as int], enc_ext_fn());
            assert(out@ =~= old(out)@ + enc_u64(n as u64) + enc_seq(
                dv.take(i as int + 1),
                enc_ext_fn(),
            ));
        }
        i = i + 1;
    }
    proof {
        assert(items.deep_view().take(n as int) =~= items.deep_view());
        assert(out@ =~= old(out)@ + enc_exts(items.deep_view()));
    }
}

// ---------------------------------------------------------------------------
// Executable readers
// ---------------------------------------------------------------------------

pub fn read_pair(buf: &[u8], pos: usize) -> (r: Option<((String, String), usize)>)
    requires
        pos <= buf@.len(),
    ensures
        match r {
            Some((v, j)) => pos <= j <= buf@.len() && p_pair(buf@.skip(pos as int)) == Some(
                (v.deep_view(), buf@.skip(j as int)),
            ),
            None => p_pair(buf@.skip(pos as int)) is None,
        },
{
    match read_str(buf, pos) {
        Some((k, j)) => match read_str(buf, j) {
            Some((v, j2)) => Some(((k, v), j2)),
            None => None,
        },
        None => None,
    }
}

pub fn read_name(buf: &[u8], pos: usize) -> (r: Option<(Vec<(String, String)>, usize)>)
    requires
        pos <= buf@.len(),
    ensures
        match r {
            Some((v, j)) => pos <= j <= buf@.len() && p_name(buf@.skip(pos as int)) == Some(
                (v.deep_view(), buf@.skip(j as int)),
            ),
            None => p_name(buf@.skip(pos as int)) is None,
        },
{
    match read_u64(buf, pos) {
        None => None,
        Some((n, start)) => {
            let mut acc: Vec<(String, String)> = Vec::new();
            let mut cur: usize = start;
            let mut done: u64 = 0;
            proof {
                assert(acc.deep_view() =~= Seq::<(Seq<char>, Seq<char>)>::empty());
            }
            while done < n
                invariant
                    done <= n,
                    pos <= buf@.len(),
                    pos <= cur <= buf@.len(),
                    acc.deep_view().len() == done,
                    p_u64(buf@.skip(pos as int)) == Some((n, buf@.skip(start as int))),
                    start <= buf@.len(),
                    match p_elems(buf@.skip(cur as int), (n - done) as nat, p_pair_fn()) {
                        Some((xs, rr)) => p_elems(buf@.skip(start as int), n as nat, p_pair_fn())
                            == Some((acc.deep_view() + xs, rr)),
                        None => p_elems(buf@.skip(start as int), n as nat, p_pair_fn()) is None,
                    },
                decreases n - done,
            {
                let ghost k = (n - done) as nat;
                match read_pair(buf, cur) {
                    None => {
                        proof {
                            assert(p_elems(buf@.skip(cur as int), k, p_pair_fn()) is None);
                        }
                        return None;
                    },
                    Some((p, j)) => {
                        proof {
                            let pre = acc.deep_view();
                            let sc = buf@.skip(cur as int);
                            assert(p_pair_fn()(sc) == Some((p.deep_view(), buf@.skip(j as int))));
                            match p_elems(buf@.skip(j as int), (k - 1) as nat, p_pair_fn()) {
                                Some((xs2, rr)) => {
                                    assert(p_elems(sc, k, p_pair_fn()) == Some(
                                        (seq![p.deep_view()] + xs2, rr),
                                    ));
                                    assert(pre + (seq![p.deep_view()] + xs2) =~= pre.push(
                                        p.deep_view(),
                                    ) + xs2);
                                },
                                None => {
                                    assert(p_elems(sc, k, p_pair_fn()) is None);
                                },
                            }
                        }
                        let ghost pre_acc = acc.deep_view();
                        acc.push(p);
                        proof {
                            assert(acc.deep_view() =~= pre_acc.push(p.deep_view()));
                        }
                        cur = j;
                        done = done + 1;
                    },
                }
            }
            proof {
                assert(p_elems(buf@.skip(cur as int), 0, p_pair_fn()) == Some(
                    (Seq::<(Seq<char>, Seq<char>)>::empty(), buf@.skip(cur as int)),
                ));
                assert(acc.deep_view() + Seq::<(Seq<char>, Seq<char>)>::empty()
                    =~= acc.deep_view());
            }
            Some((acc, cur))
        },
    }
}

pub fn read_gname(buf: &[u8], pos: usize) -> (r: Option<(GeneralName, usize)>)
    requires
        pos <= buf@.len(),
    ensures
        match r {
            Some((v, j)) => pos <= j <= buf@.len() && p_gname(buf@.skip(pos as int)) == Some(
                (v@, buf@.skip(j as int)),
            ),
            None => p_gname(buf@.skip(pos as int)) is None,
        },
{
    match read_u8(buf, pos) {
        None => None,
        Some((t, j)) => {
            if t == 1 {
                match read_str(buf, j) {
                    Some((d, j2)) => Some((GeneralName::Dns(d), j2)),
                    None => None,
                }
            } else if t == 2 {
                match read_bytes(buf, j) {
                    Some((b, j2)) => Some((GeneralName::Ip(b), j2)),
                    None => None,
                }
            } else if t == 3 {
                Some((GeneralName::Other, j))
            } else {
                None
            }
        },
    }
}

pub fn read_gnames(buf: &[u8], pos: usize) -> (r: Option<(Vec<GeneralName>, usize)>)
    requires
        pos <= buf@.len(),
    ensures
        match r {
            Some((v, j)) => pos <= j <= buf@.len() && p_list(buf@.skip(pos as int), p_gname_fn())
                == Some((v.deep_view(), buf@.skip(j as int))),
            None => p_list(buf@.skip(pos as int), p_gname_fn()) is None,
        },
{
    match read_u64(buf, pos) {
        None => None,
        Some((n, start)) => {
            let mut acc: Vec<GeneralName> = Vec::new();
            let mut cur: usize = start;
            let mut done: u64 = 0;
            proof {
                assert(acc.deep_view() =~= Seq::<GeneralNameView>::empty());
            }
            while done < n
                invariant
                    done <= n,
                    pos <= buf@.len(),
                    pos <= cur <= buf@.len(),
                    acc.deep_view().len() == done,
                    p_u64(buf@.skip(pos as int)) == Some((n, buf@.skip(start as int))),
                    start <= buf@.len(),
                    match p_elems(buf@.skip(cur as int), (n - done) as nat, p_gname_fn()) {
                        Some((xs, rr)) => p_elems(buf@.skip(start as int), n as nat, p_gname_fn())
                            == Some((acc.deep_view() + xs, rr)),
                        None => p_elems(buf@.skip(start as int), n as nat, p_gname_fn()) is None,
                    },
                decreases n - done,
            {
                let ghost k = (n - done) as nat;
                match read_gname(buf, cur) {
                    None => {
                        proof {
                            assert(p_elems(buf@.skip(cur as int), k, p_gname_fn()) is None);
                        }
                        return None;
                    },
                    Some((g, j)) => {
                        proof {
                            let pre = acc.deep_view();
                            let sc = buf@.skip(cur as int);
                            assert(p_gname_fn()(sc) == Some((g@, buf@.skip(j as int))));
                            match p_elems(buf@.skip(j as int), (k - 1) as nat, p_gname_fn()) {
                                Some((xs2, rr)) => {
                                    assert(p_elems(sc, k, p_gname_fn()) == Some(
                                        (seq![g@] + xs2, rr),
                                    ));
                                    assert(pre + (seq![g@] + xs2) =~= pre.push(g@) + xs2);
                                },
                                None => {
                                    assert(p_elems(sc, k, p_gname_fn()) is None);
                                },
                            }
                        }
                        let ghost pre_acc = acc.deep_view();
                        acc.push(g);
                        proof {
                            assert(acc.deep_view() =~= pre_acc.push(g@));
                        }
                        cur = j;
                        done = done + 1;
                    },
                }
            }
            proof {
                assert(p_elems(buf@.skip(cur as int), 0, p_gname_fn()) == Some(
                    (Seq::<GeneralNameView>::empty(), buf@.skip(cur as int)),
                ));
                assert(acc.deep_view() + Seq::<GeneralNameView>::empty() =~= acc.deep_view());
            }
            Some((acc, cur))
        },
    }
}

pub fn read_kus(buf: &[u8], pos: usize) -> (r: Option<(Vec<KeyUsageOption>, usize)>)
    requires
        pos <= buf@.len(),
    ensures
        match r {
            Some((v, j)) => pos <= j <= buf@.len() && p_list(buf@.skip(pos as int), p_ku_fn())
                == Some((v@, buf@.skip(j as int))),
            None => p_list(buf@.skip(pos as int), p_ku_fn()) is None,
        },
{
    match read_u64(buf, pos) {
        None => None,
        Some((n, start)) => {
            let mut acc: Vec<KeyUsageOption> = Vec::new();
            let mut cur: usize = start;
            let mut done: u64 = 0;
            while done < n
                invariant
                    done <= n,
                    pos <= buf@.len(),
                    pos <= cur <= buf@.len(),
                    acc@.len() == done,
                    p_u64(buf@.skip(pos as int)) == Some((n, buf@.skip(start as int))),
                    start <= buf@.len(),
                    match p_elems(buf@.skip(cur as int), (n - done) as nat, p_ku_fn()) {
                        Some((xs, rr)) => p_elems(buf@.skip(start as int), n as nat, p_ku_fn())
                            == Some((acc@ + xs, rr)),
                        None => p_elems(buf@.skip(start as int), n as nat, p_ku_fn()) is None,
                    },
                decreases n - done,
            {
                let ghost k = (n - done) as nat;
                match read_u8(buf, cur) {
                    None => {
                        proof {
                            assert(p_ku_fn()(buf@.skip(cur as int)) is None);
                            assert(p_elems(buf@.skip(cur as int), k, p_ku_fn()) is None);
                        }
                        return None;
                    },
                    Some((t, j)) => {
                        match KeyUsageOption::from_tag(t) {
                            None => {
                                proof {
                                    assert(p_ku_fn()(buf@.skip(cur as int)) is None);
                                    assert(p_elems(buf@.skip(cur as int), k, p_ku_fn()) is None);
                                }
                                return None;
                            },
                            Some(o) => {
                                proof {
                                    let pre = acc@;
                                    let sc = buf@.skip(cur as int);
                                    assert(p_ku_fn()(sc) == Some((o, buf@.skip(j as int))));
                                    match p_elems(buf@.skip(j as int), (k - 1) as nat, p_ku_fn()) {
                                        Some((xs2, rr)) => {
                                            assert(p_elems(sc, k, p_ku_fn()) == Some(
                                                (seq![o] + xs2, rr),
                                            ));
                                            assert(pre + (seq![o] + xs2) =~= pre.push(o) + xs2);
                                        },
                                        None => {
                                            assert(p_elems(sc, k, p_ku_fn()) is None);
                                        },
                                    }
                                }
                                acc.push(o);
                                cur = j;
                                done = done + 1;
                            },
                        }
                    },
                }
            }
            proof {
                assert(p_elems(buf@.skip(cur as int), 0, p_ku_fn()) == Some(
                    (Seq::<KeyUsageOption>::empty(), buf@.skip(cur as int)),
                ));
                assert(acc@ + Seq::<KeyUsageOption>::empty() =~= acc@);
            }
            Some((acc, cur))
        },
    }
}

pub fn read_ext(buf: &[u8], pos: usize) -> (r: Option<(Extension, usize)>)
    requires
        pos <= buf@.len(),
    ensures
        match r {
            Some((v, j)) => pos <= j <= buf@.len() && p_ext(buf@.skip(pos as int)) == Some(
                (v@, buf@.skip(j as int)),
            ),
            None => p_ext(buf@.skip(pos as int)) is None,
        },
{
    match read_u8(buf, pos) {
        None => None,
        Some((t, j)) => {
            if t == 1 {
                match read_kus(buf, j) {
                    Some((os, j2)) => Some((Extension::KeyUsage(os), j2)),
                    None => None,
                }
            } else if t == 2 {
                match read_gnames(buf, j) {
                    Some((gs, j2)) => Some((Extension::SubjectAltName(gs), j2)),
                    None => None,
                }
            } else if t == 3 {
                match read_u8(buf, j) {
                    None => None,
                    Some((nt, j2)) => match Nid::from_tag(nt) {
                        None => None,
                        Some(n) => match read_str(buf, j2) {
                            Some((v, j3)) => Some((Extension::OtherNid(n, v), j3)),
                            None => None,
                        },
                    },
                }
            } else if t == 4 {
                match read_str(buf, j) {
                    None => None,
                    Some((k, j2)) => match read_str(buf, j2) {
                        Some((v, j3)) => Some((Extension::OtherStr(k, v), j3)),
                        None => None,
                    },
                }
            } else {
                None
            }
        },
    }
}

pub fn read_exts(buf: &[u8], pos: usize) -> (r: Option<(Vec<Extension>, usize)>)
    requires
        pos <= buf@.len(),
    ensures
        match r {
            Some((v, j)) => pos <= j <= buf@.len() && p_exts(buf@.skip(pos as int)) == Some(
                (v.deep_view(), buf@.skip(j as int)),
            ),
            None => p_exts(buf@.skip(pos as int)) is None,
        },
{
    match read_u64(buf, pos) {
        None => None,
        Some((n, start)) => {
            let mut acc: Vec<Extension> = Vec::new();
            let mut cur: usize = start;
            let mut done: u64 = 0;
            proof {
                assert(acc.deep_view() =~= Seq::<ExtensionView>::empty());
            }
            while done < n
                invariant
                    done <= n,
                    pos <= buf@.len(),
                    pos <= cur <= buf@.len(),
                    acc.deep_view().len() == done,
                    p_u64(buf@.skip(pos as int)) == Some((n, buf@.skip(start as int))),
                    start <= buf@.len(),
                    match p_elems(buf@.skip(cur as int), (n - done) as nat, p_ext_fn()) {
                        Some((xs, rr)) => p_elems(buf@.skip(start as int), n as nat, p_ext_fn())
                            == Some((acc.deep_view() + xs, rr)),
                        None => p_elems(buf@.skip(start as int), n as nat, p_ext_fn()) is None,
                    },
                decreases n - done,
            {
                let ghost k = (n - done) as nat;
                match read_ext(buf, cur) {
                    None => {
                        proof {
                            assert(p_elems(buf@.skip(cur as int), k, p_ext_fn()) is None);
                        }
                        return None;
                    },
                    Some((e, j)) => {
                        proof {
                            let pre = acc.deep_view();
                            let sc = buf@.skip(cur as int);
                            assert(p_ext_fn()(sc) == Some((e@, buf@.skip(j as int))));
                            match p_elems(buf@.skip(j as int), (k - 1) as nat, p_ext_fn()) {
                                Some((xs2, rr)) => {
                                    assert(p_elems(sc, k, p_ext_fn()) == Some(
                                        (seq![e@] + xs2, rr),
                                    ));
                                    assert(pre + (seq![e@] + xs2) =~= pre.push(e@) + xs2);
                                },
                                None => {
                                    assert(p_elems(sc, k, p_ext_fn()) is None);
                                },
                            }
                        }
                        let ghost pre_acc = acc.deep_view();
                        acc.push(e);
                        proof {
                            assert(acc.deep_view() =~= pre_acc.push(e@));
                        }
                        cur = j;
                        done = done + 1;
                    },
                }
            }
            proof {
                assert(p_elems(buf@.skip(cur as int), 0, p_ext_fn()) == Some(
                    (Seq::<ExtensionView>::empty(), buf@.skip(cur as int)),
                ));
                assert(acc.deep_view() + Seq::<ExtensionView>::empty() =~= acc.deep_view());
            }
            Some((acc, cur))
        },
    }
}

} // verus!
