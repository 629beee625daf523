//! Certificate extensions: tagged variants carrying kind-specific data, and
//! the ordered, type-unique collection that holds them.

use vstd::prelude::*;
use vstd::slice::slice_to_vec;
use crate::nid::Nid;
use crate::san::GeneralName;

verus! {

/// The key-usage bits an extension can request.
#[derive(Copy, Clone, PartialEq, Eq, Structural, Debug)]
pub enum KeyUsageOption {
    DigitalSignature,
    NonRepudiation,
    KeyEncipherment,
    DataEncipherment,
    KeyAgreement,
    KeyCertSign,
    CRLSign,
    EncipherOnly,
    DecipherOnly,
}

impl KeyUsageOption {
    /// A stable numeric tag for the binary encoding.
    pub open spec fn spec_tag(self) -> u8 {
        match self {
            KeyUsageOption::DigitalSignature => 1,
            KeyUsageOption::NonRepudiation => 2,
            KeyUsageOption::KeyEncipherment => 3,
            KeyUsageOption::DataEncipherment => 4,
            KeyUsageOption::KeyAgreement => 5,
            KeyUsageOption::KeyCertSign => 6,
            KeyUsageOption::CRLSign => 7,
            KeyUsageOption::EncipherOnly => 8,
            KeyUsageOption::DecipherOnly => 9,
        }
    }

    pub fn tag(&self) -> (r: u8)
        ensures
            r == self.spec_tag(),
    {
        match self {
            KeyUsageOption::DigitalSignature => 1,
            KeyUsageOption::NonRepudiation => 2,
            KeyUsageOption::KeyEncipherment => 3,
            KeyUsageOption::DataEncipherment => 4,
            KeyUsageOption::KeyAgreement => 5,
            KeyUsageOption::KeyCertSign => 6,
            KeyUsageOption::CRLSign => 7,
            KeyUsageOption::EncipherOnly => 8,
            KeyUsageOption::DecipherOnly => 9,
        }
    }

    pub open spec fn spec_from_tag(t: u8) -> Option<KeyUsageOption> {
        if t == 1 {
            Some(KeyUsageOption::DigitalSignature)
        } else if t == 2 {
            Some(KeyUsageOption::NonRepudiation)
        } else if t == 3 {
            Some(KeyUsageOption::KeyEncipherment)
        } else if t == 4 {
            Some(KeyUsageOption::DataEncipherment)
        } else if t == 5 {
            Some(KeyUsageOption::KeyAgreement)
        } else if t == 6 {
            Some(KeyUsageOption::KeyCertSign)
        } else if t == 7 {
            Some(KeyUsageOption::CRLSign)
        } else if t == 8 {
            Some(KeyUsageOption::EncipherOnly)
        } else if t == 9 {
            Some(KeyUsageOption::DecipherOnly)
        } else {
            None
        }
    }

    pub fn from_tag(t: u8) -> (r: Option<KeyUsageOption>)
        ensures
            r == KeyUsageOption::spec_from_tag(t),
    {
        if t == 1 {
            Some(KeyUsageOption::DigitalSignature)
        } else if t == 2 {
            Some(KeyUsageOption::NonRepudiation)
        } else if t == 3 {
            Some(KeyUsageOption::KeyEncipherment)
        } else if t == 4 {
            Some(KeyUsageOption::DataEncipherment)
        } else if t == 5 {
            Some(KeyUsageOption::KeyAgreement)
        } else if t == 6 {
            Some(KeyUsageOption::KeyCertSign)
        } else if t == 7 {
            Some(KeyUsageOption::CRLSign)
        } else if t == 8 {
            Some(KeyUsageOption::EncipherOnly)
        } else if t == 9 {
            Some(KeyUsageOption::DecipherOnly)
        } else {
            None
        }
    }
}

/// Tags round-trip: decoding a bit's tag yields the bit again.
pub proof fn lemma_ku_tag_roundtrip(o: KeyUsageOption)
    ensures
        KeyUsageOption::spec_from_tag(o.spec_tag()) == Some(o),
{
}

/// The uniqueness key of an extension: a well-known kind, a well-known
/// numeric identifier, or an opaque textual name.
pub enum ExtensionType {
    KeyUsage,
    SubjectAltName,
    OtherNid(Nid),
    OtherStr(String),
}

/// The mathematical value of an extension's uniqueness key.
pub enum ExtensionTypeView {
    KeyUsage,
    SubjectAltName,
    OtherNid(Nid),
    OtherStr(Seq<char>),
}

impl View for ExtensionType {
    type V = ExtensionTypeView;

    open spec fn view(&self) -> ExtensionTypeView {
        match self {
            ExtensionType::KeyUsage => ExtensionTypeView::KeyUsage,
            ExtensionType::SubjectAltName => ExtensionTypeView::SubjectAltName,
            ExtensionType::OtherNid(n) => ExtensionTypeView::OtherNid(*n),
            ExtensionType::OtherStr(s) => ExtensionTypeView::OtherStr(s@),
        }
    }
}

impl DeepView for ExtensionType {
    type V = ExtensionTypeView;

    open spec fn deep_view(&self) -> ExtensionTypeView {
        self.view()
    }
}

impl Clone for ExtensionType {
    fn clone(&self) -> (r: Self)
        ensures
            r@ == self@,
    {
        match self {
            ExtensionType::KeyUsage => ExtensionType::KeyUsage,
            ExtensionType::SubjectAltName => ExtensionType::SubjectAltName,
            ExtensionType::OtherNid(n) => ExtensionType::OtherNid(*n),
            ExtensionType::OtherStr(s) => ExtensionType::OtherStr(s.clone()),
        }
    }
}

/// Whether two uniqueness keys denote the same extension kind.
pub fn ext_type_eq(a: &ExtensionType, b: &ExtensionType) -> (r: bool)
    ensures
        r == (a@ == b@),
{
    match (a, b) {
        (ExtensionType::KeyUsage, ExtensionType::KeyUsage) => true,
        (ExtensionType::SubjectAltName, ExtensionType::SubjectAltName) => true,
        (ExtensionType::OtherNid(x), ExtensionType::OtherNid(y)) => *x == *y,
        (ExtensionType::OtherStr(x), ExtensionType::OtherStr(y)) => *x == *y,
        _ => false,
    }
}

/// One certificate extension, carrying its kind-specific data.
pub enum Extension {
    /// The key-usage bits, in the order they were requested.
    KeyUsage(Vec<KeyUsageOption>),
    /// The subject-alternative-name entries, in order.
    SubjectAltName(Vec<GeneralName>),
    /// A well-known kind outside the modeled ones, with its textual value.
    OtherNid(Nid, String),
    /// An opaque kind, named textually, with its textual value.
    OtherStr(String, String),
}

/// The mathematical value of an extension.
pub enum ExtensionView {
    KeyUsage(Seq<KeyUsageOption>),
    SubjectAltName(Seq<crate::san::GeneralNameView>),
    OtherNid(Nid, Seq<char>),
    OtherStr(Seq<char>, Seq<char>),
}

impl View for Extension {
    type V = ExtensionView;

    open spec fn view(&self) -> ExtensionView {
        match self {
            Extension::KeyUsage(os) => ExtensionView::KeyUsage(os@),
            Extension::SubjectAltName(gs) => ExtensionView::SubjectAltName(gs.deep_view()),
            Extension::OtherNid(n, v) => ExtensionView::OtherNid(*n, v@),
            Extension::OtherStr(k, v) => ExtensionView::OtherStr(k@, v@),
        }
    }
}

impl DeepView for Extension {
    type V = ExtensionView;

    open spec fn deep_view(&self) -> ExtensionView {
        self.view()
    }
}

impl Clone for Extension {
    fn clone(&self) -> (r: Self)
        ensures
            r@ == self@,
    {
        match self {
            Extension::KeyUsage(os) => Extension::KeyUsage(slice_to_vec(os.as_slice())),
            Extension::SubjectAltName(gs) => {
                let mut copy: Vec<GeneralName> = Vec::new();
                let mut i: usize = 0;
                while i < gs.len()
                    invariant
                        i <= gs.len(),
                        copy@.len() == i,
                        forall|j: int| 0 <= j < i ==> #[trigger] copy@[j]@ == gs@[j]@,
                    decreases gs.len() - i,
                {
                    copy.push(gs[i].clone());
                    i = i + 1;
                }
                proof {
                    assert(copy.deep_view() =~= gs.deep_view());
                }
                Extension::SubjectAltName(copy)
            },
            Extension::OtherNid(n, v) => Extension::OtherNid(*n, v.clone()),
            Extension::OtherStr(k, v) => Extension::OtherStr(k.clone(), v.clone()),
        }
    }
}

/// The uniqueness key of an extension value.
pub open spec fn type_of(e: ExtensionView) -> ExtensionTypeView {
    match e {
        ExtensionView::KeyUsage(_) => ExtensionTypeView::KeyUsage,
        ExtensionView::SubjectAltName(_) => ExtensionTypeView::SubjectAltName,
        ExtensionView::OtherNid(n, _) => ExtensionTypeView::OtherNid(n),
        ExtensionView::OtherStr(k, _) => ExtensionTypeView::OtherStr(k),
    }
}

impl Extension {
    /// The extension's uniqueness key.
    pub fn get_type(&self) -> (r: ExtensionType)
        ensures
            r@ == type_of(self@),
    {
        match self {
            Extension::KeyUsage(_) => ExtensionType::KeyUsage,
            Extension::SubjectAltName(_) => ExtensionType::SubjectAltName,
            Extension::OtherNid(n, _) => ExtensionType::OtherNid(*n),
            Extension::OtherStr(k, _) => ExtensionType::OtherStr(k.clone()),
        }
    }
}

// ---------------------------------------------------------------------------
// The collection
// ---------------------------------------------------------------------------

/// No two extensions in the sequence share a uniqueness key.
pub open spec fn unique_types(s: Seq<ExtensionView>) -> bool {
    forall|i: int, j: int| 0 <= i < j < s.len() ==> type_of(s[i]) != type_of(s[j])
}

/// Whether some extension in the sequence has the given key.
pub open spec fn has_type(s: Seq<ExtensionView>, t: ExtensionTypeView) -> bool {
    exists|i: int| 0 <= i < s.len() && type_of(s[i]) == t
}

/// The position of the extension with the given key.
pub open spec fn index_of_type(s: Seq<ExtensionView>, t: ExtensionTypeView) -> int {
    choose|i: int| 0 <= i < s.len() && type_of(s[i]) == t
}

/// What adding an extension does: replace in place if the key is already
/// present, append otherwise.
pub open spec fn spec_add(s: Seq<ExtensionView>, e: ExtensionView) -> Seq<ExtensionView> {
    if has_type(s, type_of(e)) {
        s.update(index_of_type(s, type_of(e)), e)
    } else {
        s.push(e)
    }
}

/// Adding keeps keys unique, keeps every other extension in place, and
/// puts a replacement at the replaced extension's original position.
pub proof fn lemma_add_keeps_types_unique(s: Seq<ExtensionView>, e: ExtensionView)
    requires
        unique_types(s),
    ensures
        unique_types(spec_add(s, e)),
        has_type(s, type_of(e)) ==> spec_add(s, e).len() == s.len() && spec_add(s, e)
            == s.update(index_of_type(s, type_of(e)), e),
        !has_type(s, type_of(e)) ==> spec_add(s, e) == s.push(e),
        forall|i: int|
            0 <= i < s.len() && type_of(s[i]) != type_of(e) ==> spec_add(s, e)[i] == s[i],
{
    let t = type_of(e);
    if has_type(s, t) {
        let k = index_of_type(s, t);
        assert(0 <= k < s.len() && type_of(s[k]) == t);
        let s2 = s.update(k, e);
        assert forall|i: int, j: int| 0 <= i < j < s2.len() implies type_of(s2[i]) != type_of(
            s2[j],
        ) by {
            if i != k && j != k {
                assert(s2[i] == s[i] && s2[j] == s[j]);
            } else if i == k {
                assert(s2[i] == e && s2[j] == s[j]);
                assert(type_of(s[k]) != type_of(s[j]));
            } else {
                assert(s2[j] == e && s2[i] == s[i]);
                assert(type_of(s[i]) != type_of(s[k]));
            }
        }
    } else {
        let s2 = s.push(e);
        assert forall|i: int, j: int| 0 <= i < j < s2.len() implies type_of(s2[i]) != type_of(
            s2[j],
        ) by {
            if j == s.len() {
                assert(s2[i] == s[i] && s2[j] == e);
                assert(!(0 <= i < s.len() && type_of(s[i]) == t));
            } else {
                assert(s2[i] == s[i] && s2[j] == s[j]);
            }
        }
    }
}

/// Whether no two of the given extensions share a uniqueness key.
pub fn check_unique_types(items: &Vec<Extension>) -> (r: bool)
    ensures
        r == unique_types(items.deep_view()),
{
    let n = items.len();
    let mut i: usize = 0;
    while i < n
        invariant
            n == items@.len(),
            i <= n,
            forall|a: int, b: int|
                0 <= a < b < items.deep_view().len() && a < i ==> type_of(items.deep_view()[a])
                    != type_of(items.deep_view()[b]),
        decreases n - i,
    {
        let ti = items[i].get_type();
        let mut j: usize = i + 1;
        while j < n
            invariant
                n == items@.len(),
                i < j || j == i + 1,
                i < n,
                j <= n,
                ti@ == type_of(items.deep_view()[i as int]),
                forall|b: int|
                    i < b < j ==> type_of(items.deep_view()[i as int]) != type_of(
                        items.deep_view()[b],
                    ),
            decreases n - j,
        {
            let tj = items[j].get_type();
            if ext_type_eq(&ti, &tj) {
                proof {
                    let dv = items.deep_view();
                    assert(type_of(dv[i as int]) == type_of(dv[j as int]));
                    assert(!unique_types(dv));
                }
                return false;
            }
            j = j + 1;
        }
        i = i + 1;
    }
    true
}

/// A collection of certificate extensions.
///
/// Holds at most one extension per uniqueness key at any time: adding an
/// extension whose key is already present replaces the old one in place,
/// keeping its position. Iteration order is insertion order, which matters
/// because extensions are attached to a certificate in this order during
/// signing.
pub struct Extensions {
    extensions: Vec<Extension>,
}

impl View for Extensions {
    type V = Seq<ExtensionView>;

    closed spec fn view(&self) -> Seq<ExtensionView> {
        self.extensions.deep_view()
    }
}

impl Extensions {
    /// The collection's invariant: no two extensions share a key.
    pub open spec fn wf(&self) -> bool {
        unique_types(self@)
    }

    /// Creates an empty collection.
    pub fn new() -> (r: Extensions)
        ensures
            r@ == Seq::<ExtensionView>::empty(),
            r.wf(),
    {
        let r = Extensions { extensions: Vec::new() };
        proof {
            assert(r@ =~= Seq::<ExtensionView>::empty());
        }
        r
    }

    /// Adds an extension, replacing any existing one of the same key in
    /// place.
    pub fn add(&mut self, ext: Extension)
        requires
            old(self).wf(),
        ensures
            final(self)@ == spec_add(old(self)@, ext@),
            final(self).wf(),
    {
        proof {
            lemma_add_keeps_types_unique(self@, ext@);
        }
        let t = ext.get_type();
        let n = self.extensions.len();
        let mut i: usize = 0;
        while i < n
            invariant
                n == self.extensions@.len(),
                i <= n,
                t@ == type_of(ext@),
                *self == *old(self),
                unique_types(self@),
                forall|j: int| 0 <= j < i ==> type_of(self@[j]) != t@,
            decreases n - i,
        {
            let ti = self.extensions[i].get_type();
            if ext_type_eq(&ti, &t) {
                proof {
                    assert(type_of(self@[i as int]) == t@);
                    assert(has_type(self@, t@));
                    let k = index_of_type(self@, t@);
                    assert(0 <= k < self@.len() && type_of(self@[k]) == t@);
                    if k < i as int {
                        assert(type_of(self@[k]) != t@);
                    }
                    if k > i as int {
                        assert(type_of(self@[i as int]) != type_of(self@[k]));
                    }
                    assert(k == i as int);
                }
                self.extensions.set(i, ext);
                proof {
                    assert(self@ =~= spec_add(old(self)@, ext@));
                }
                return;
            }
            i = i + 1;
        }
        proof {
            assert(!has_type(self@, t@));
        }
        self.extensions.push(ext);
        proof {
            assert(self@ =~= old(self)@.push(ext@));
        }
    }

    /// The number of extensions held.
    pub fn len(&self) -> (r: usize)
        ensures
            r == self@.len(),
    {
        self.extensions.len()
    }

    /// Every `(key, extension)` pair, in insertion order.
    pub fn iter(&self) -> (r: Vec<(ExtensionType, Extension)>)
        ensures
            r@.len() == self@.len(),
            forall|i: int|
                0 <= i < r@.len() ==> #[trigger] r@[i].1@ == self@[i] && r@[i].0@ == type_of(
                    self@[i],
                ),
    {
        let mut out: Vec<(ExtensionType, Extension)> = Vec::new();
        let mut i: usize = 0;
        while i < self.extensions.len()
            invariant
                i <= self.extensions@.len(),
                out@.len() == i,
                forall|j: int|
                    0 <= j < i ==> #[trigger] out@[j].1@ == self@[j] && out@[j].0@ == type_of(
                        self@[j],
                    ),
            decreases self.extensions@.len() - i,
        {
            let e = self.extensions[i].clone();
            let t = e.get_type();
            out.push((t, e));
            i = i + 1;
        }
        out
    }

    /// The extensions themselves, in insertion order.
    pub fn items(&self) -> (r: &Vec<Extension>)
        ensures
            r.deep_view() == self@,
    {
        &self.extensions
    }

    /// Wraps a sequence of extensions whose keys are already unique.
    pub fn from_items(items: Vec<Extension>) -> (r: Extensions)
        requires
            unique_types(items.deep_view()),
        ensures
            r@ == items.deep_view(),
            r.wf(),
    {
        Extensions { extensions: items }
    }

    /// The extension with the given key, if one is held.
    pub fn get(&self, t: &ExtensionType) -> (r: Option<&Extension>)
        requires
            self.wf(),
        ensures
            match r {
                Some(e) => has_type(self@, t@) && e@ == self@[index_of_type(self@, t@)],
                None => !has_type(self@, t@),
            },
    {
        let n = self.extensions.len();
        let mut i: usize = 0;
        while i < n
            invariant
                n == self.extensions@.len(),
                unique_types(self@),
                i <= n,
                forall|j: int| 0 <= j < i ==> type_of(self@[j]) != t@,
            decreases n - i,
        {
            let ti = self.extensions[i].get_type();
            if ext_type_eq(&ti, t) {
                proof {
                    assert(type_of(self@[i as int]) == t@);
                    assert(has_type(self@, t@));
                    let k = index_of_type(self@, t@);
                    assert(0 <= k < self@.len() && type_of(self@[k]) == t@);
                    if k < i as int {
                        assert(type_of(self@[k]) != t@);
                    }
                    if k > i as int {
                        assert(type_of(self@[i as int]) != type_of(self@[k]));
                    }
                    assert(k == i as int);
                }
                return Some(&self.extensions[i]);
            }
            i = i + 1;
        }
        proof {
            assert(!has_type(self@, t@));
        }
        None
    }

    /// A deep copy of the collection.
    pub fn duplicate(&self) -> (r: Extensions)
        ensures
            r@ == self@,
    {
        let mut copy: Vec<Extension> = Vec::new();
        let mut i: usize = 0;
        while i < self.extensions.len()
            invariant
                i <= self.extensions@.len(),
                copy@.len() == i,
                forall|j: int| 0 <= j < i ==> #[trigger] copy@[j]@ == self@[j],
            decreases self.extensions@.len() - i,
        {
            copy.push(self.extensions[i].clone());
            i = i + 1;
        }
        let r = Extensions { extensions: copy };
        proof {
            assert(r@ =~= self@);
        }
        r
    }
}

} // verus!
