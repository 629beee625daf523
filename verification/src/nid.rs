//! Well-known numeric identifiers for name attributes and extensions.

use vstd::prelude::*;

verus! {

/// The well-known attribute and extension kinds the toolkit understands.
#[derive(Copy, Clone, PartialEq, Eq, Structural, Debug)]
pub enum Nid {
    CommonName,
    CountryName,
    OrganizationName,
    OrganizationalUnitName,
    LocalityName,
    StateOrProvinceName,
    SubjectAltName,
}

impl Nid {
    /// The short textual name under which the attribute appears in a name
    /// entry.
    pub open spec fn spec_short_name(self) -> Seq<char> {
        match self {
            Nid::CommonName => "CN"@,
            Nid::CountryName => "C"@,
            Nid::OrganizationName => "O"@,
            Nid::OrganizationalUnitName => "OU"@,
            Nid::LocalityName => "L"@,
            Nid::StateOrProvinceName => "ST"@,
            Nid::SubjectAltName => "subjectAltName"@,
        }
    }

    pub fn short_name(&self) -> (r: &'static str)
        ensures
            r@ == self.spec_short_name(),
    {
        match self {
            Nid::CommonName => "CN",
            Nid::CountryName => "C",
            Nid::OrganizationName => "O",
            Nid::OrganizationalUnitName => "OU",
            Nid::LocalityName => "L",
            Nid::StateOrProvinceName => "ST",
            Nid::SubjectAltName => "subjectAltName",
        }
    }

    /// A stable numeric tag for the binary encoding.
    pub open spec fn spec_tag(self) -> u8 {
        match self {
            Nid::CommonName => 1,
            Nid::CountryName => 2,
            Nid::OrganizationName => 3,
            Nid::OrganizationalUnitName => 4,
            Nid::LocalityName => 5,
            Nid::StateOrProvinceName => 6,
            Nid::SubjectAltName => 7,
        }
    }

    pub fn tag(&self) -> (r: u8)
        ensures
            r == self.spec_tag(),
    {
        match self {
            Nid::CommonName => 1,
            Nid::CountryName => 2,
            Nid::OrganizationName => 3,
            Nid::OrganizationalUnitName => 4,
            Nid::LocalityName => 5,
            Nid::StateOrProvinceName => 6,
            Nid::SubjectAltName => 7,
        }
    }

    /// The kind a numeric tag denotes, if any.
    pub open spec fn spec_from_tag(t: u8) -> Option<Nid> {
        if t == 1 {
            Some(Nid::CommonName)
        } else if t == 2 {
            Some(Nid::CountryName)
        } else if t == 3 {
            Some(Nid::OrganizationName)
        } else if t == 4 {
            Some(Nid::OrganizationalUnitName)
        } else if t == 5 {
            Some(Nid::LocalityName)
        } else if t == 6 {
            Some(Nid::StateOrProvinceName)
        } else if t == 7 {
            Some(Nid::SubjectAltName)
        } else {
            None
        }
    }

    pub fn from_tag(t: u8) -> (r: Option<Nid>)
        ensures
            r == Nid::spec_from_tag(t),
    {
        if t == 1 {
            Some(Nid::CommonName)
        } else if t == 2 {
            Some(Nid::CountryName)
        } else if t == 3 {
            Some(Nid::OrganizationName)
        } else if t == 4 {
            Some(Nid::OrganizationalUnitName)
        } else if t == 5 {
            Some(Nid::LocalityName)
        } else if t == 6 {
            Some(Nid::StateOrProvinceName)
        } else if t == 7 {
            Some(Nid::SubjectAltName)
        } else {
            None
        }
    }
}

/// Tags round-trip: decoding a kind's tag yields the kind again.
pub proof fn lemma_nid_tag_roundtrip(n: Nid)
    ensures
        Nid::spec_from_tag(n.spec_tag()) == Some(n),
{
}

} // verus!
