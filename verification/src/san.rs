//! Subject-alternative-name entries: a variant-tagged list extracted from a
//! certificate's SAN extension, with per-variant accessors.

use vstd::prelude::*;
use vstd::slice::slice_to_vec;

verus! {

/// One SAN entry. Only DNS names and IP addresses expose accessors; every
/// other entry kind is carried as `Other`.
pub enum GeneralName {
    Dns(String),
    Ip(Vec<u8>),
    Other,
}

/// The mathematical value of a SAN entry.
pub enum GeneralNameView {
    Dns(Seq<char>),
    Ip(Seq<u8>),
    Other,
}

impl View for GeneralName {
    type V = GeneralNameView;

    open spec fn view(&self) -> GeneralNameView {
        match self {
            GeneralName::Dns(s) => GeneralNameView::Dns(s@),
            GeneralName::Ip(b) => GeneralNameView::Ip(b@),
            GeneralName::Other => GeneralNameView::Other,
        }
    }
}

impl DeepView for GeneralName {
    type V = GeneralNameView;

    open spec fn deep_view(&self) -> GeneralNameView {
        self.view()
    }
}

impl Clone for GeneralName {
    fn clone(&self) -> (r: Self)
        ensures
            r@ == self@,
    {
        match self {
            GeneralName::Dns(s) => GeneralName::Dns(s.clone()),
            GeneralName::Ip(b) => GeneralName::Ip(slice_to_vec(b.as_slice())),
            GeneralName::Other => GeneralName::Other,
        }
    }
}

impl GeneralName {
    /// The entry's text if it is a DNS name, and `None` for every other kind.
    pub fn dnsname(&self) -> (r: Option<&str>)
        ensures
            match self@ {
                GeneralNameView::Dns(s) => r matches Some(t) && t@ == s,
                _ => r is None,
            },
    {
        match self {
            GeneralName::Dns(s) => Some(s.as_str()),
            _ => None,
        }
    }

    /// The raw address bytes if the entry is an IP address, and `None` for
    /// every other kind. The length implies v4 or v6; it is not validated
    /// here.
    pub fn ipaddress(&self) -> (r: Option<&[u8]>)
        ensures
            match self@ {
                GeneralNameView::Ip(b) => r matches Some(a) && a@ == b,
                _ => r is None,
            },
    {
        match self {
            GeneralName::Ip(b) => Some(b.as_slice()),
            _ => None,
        }
    }
}

/// The decoded SAN entries of a certificate, in encoding order.
pub struct GeneralNames {
    entries: Vec<GeneralName>,
}

impl View for GeneralNames {
    type V = Seq<GeneralNameView>;

    closed spec fn view(&self) -> Seq<GeneralNameView> {
        self.entries.deep_view()
    }
}

impl GeneralNames {
    pub fn from_entries(entries: Vec<GeneralName>) -> (r: GeneralNames)
        ensures
            r@ == entries.deep_view(),
    {
        GeneralNames { entries }
    }

    /// The number of entries in the list.
    pub fn len(&self) -> (r: usize)
        ensures
            r == self@.len(),
    {
        self.entries.len()
    }

    /// The entry at the given position, which must be within the list.
    pub fn get(&self, idx: usize) -> (r: &GeneralName)
        requires
            idx < self@.len(),
        ensures
            r@ == self@[idx as int],
    {
        &self.entries[idx]
    }

    /// All entries, in order.
    pub fn iter(&self) -> (r: &Vec<GeneralName>)
        ensures
            r.deep_view() == self@,
    {
        &self.entries
    }
}

} // verus!
