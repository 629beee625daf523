//! Subject and issuer names: ordered lists of (attribute-type, value) pairs.

use vstd::prelude::*;
use crate::nid::Nid;

verus! {

/// The first value stored under the given attribute key, if any.
pub open spec fn lookup(entries: Seq<(Seq<char>, Seq<char>)>, key: Seq<char>) -> Option<Seq<char>>
    decreases entries.len(),
{
    if entries.len() == 0 {
        None
    } else if entries[0].0 == key {
        Some(entries[0].1)
    } else {
        lookup(entries.drop_first(), key)
    }
}

/// An ordered list of (attribute-type, value) pairs forming a subject or
/// issuer name. Order is significant and preserved.
pub struct X509NameRef {
    entries: Vec<(String, String)>,
}

impl View for X509NameRef {
    type V = Seq<(Seq<char>, Seq<char>)>;

    closed spec fn view(&self) -> Seq<(Seq<char>, Seq<char>)> {
        self.entries.deep_view()
    }
}

impl X509NameRef {
    pub fn from_entries(entries: Vec<(String, String)>) -> (r: X509NameRef)
        ensures
            r@ == entries.deep_view(),
    {
        X509NameRef { entries }
    }

    /// The entries, in order.
    pub fn entries(&self) -> (r: &Vec<(String, String)>)
        ensures
            r.deep_view() == self@,
    {
        &self.entries
    }

    /// The number of entries.
    pub fn len(&self) -> (r: usize)
        ensures
            r == self@.len(),
    {
        self.entries.len()
    }

    /// The first value stored under the given well-known attribute, if any.
    pub fn text_by_nid(&self, nid: Nid) -> (r: Option<String>)
        ensures
            match lookup(self@, nid.spec_short_name()) {
                Some(v) => r matches Some(s) && s@ == v,
                None => r is None,
            },
    {
        let key = nid.short_name();
        let n = self.entries.len();
        let mut i: usize = 0;
        proof {
            assert(self@.skip(0) =~= self@);
        }
        while i < n
            invariant
                n == self.entries@.len(),
                i <= n,
                key@ == nid.spec_short_name(),
                lookup(self@, key@) == lookup(self@.skip(i as int), key@),
            decreases n - i,
        {
            proof {
                assert(self@.skip(i as int)[0] == self@[i as int]);
                assert(self@.skip(i as int).drop_first() =~= self@.skip(i as int + 1));
            }
            let entry = &self.entries[i];
            if string_eq_str(&entry.0, key) {
                return Some(entry.1.clone());
            }
            i = i + 1;
        }
        proof {
            assert(self@.skip(n as int).len() == 0);
        }
        None
    }
}

/// Whether the string holds exactly the given text.
pub fn string_eq_str(s: &String, t: &str) -> (r: bool)
    ensures
        r == (s@ == t@),
{
    let u = t.to_owned();
    s.eq(&u)
}

} // verus!
