use vstd::prelude::*;
use vstd::string::StringSliceAdditionalSpecFns;
use core::cmp::Ordering;
use crate::compare::{bytes_cmp, bytes_eq, dot_insensitive_cmp, dot_insensitive_eq, normalise_dot};
use crate::labels::{ends_with_dot, DOT};

verus! {

/// The section of a suffix list that a suffix comes from.
#[derive(Copy, Clone, Eq, PartialEq, Structural, Ord, PartialOrd, Hash, Debug)]
pub enum Type {
    Icann,
    Private,
}

/// A classifier's answer: the byte length of the matched suffix, counted from
/// the end of the name without its trailing dot, and the suffix's section
/// (`None` for a suffix that no list holds).
#[derive(Copy, Clone, Eq, PartialEq, Structural, Ord, PartialOrd, Hash, Debug)]
pub struct Info {
    pub len: usize,
    pub typ: Option<Type>,
}

/// What a [`Suffix`] stands for.
pub struct SuffixModel {
    pub bytes: Seq<u8>,
    pub fqdn: bool,
    pub typ: Option<Type>,
}

impl SuffixModel {
    /// Never empty, and marked fully qualified exactly when it ends with a dot.
    pub open spec fn wf(self) -> bool {
        self.bytes.len() > 0 && self.fqdn == ends_with_dot(self.bytes)
    }
}

/// What a [`Domain`] stands for.
pub struct DomainModel {
    pub bytes: Seq<u8>,
    pub suffix: SuffixModel,
}

impl DomainModel {
    /// A valid suffix that is a proper tail of the domain's bytes.
    pub open spec fn wf(self) -> bool {
        &&& self.suffix.wf()
        &&& self.bytes.len() > self.suffix.bytes.len()
        &&& self.bytes.subrange(
            self.bytes.len() - self.suffix.bytes.len(),
            self.bytes.len() as int,
        ) == self.suffix.bytes
    }
}

/// The public suffix of a domain name: a tail of the name it was found in.
#[derive(Copy, Clone, Eq, Debug)]
pub struct Suffix<'a> {
    bytes: &'a [u8],
    fqdn: bool,
    typ: Option<Type>,
}

impl<'a> View for Suffix<'a> {
    type V = SuffixModel;

    closed spec fn view(&self) -> SuffixModel {
        SuffixModel { bytes: self.bytes@, fqdn: self.fqdn, typ: self.typ }
    }
}

impl<'a> Suffix<'a> {
    #[verifier::type_invariant]
    closed spec fn inv(self) -> bool {
        self@.wf()
    }

    /// The view of `bytes` with the given flag and section.
    pub(crate) fn make(bytes: &'a [u8], fqdn: bool, typ: Option<Type>) -> (r: Suffix<'a>)
        requires
            (SuffixModel { bytes: bytes@, fqdn, typ }).wf(),
        ensures
            r@ == (SuffixModel { bytes: bytes@, fqdn, typ }),
    {
        Suffix { bytes, fqdn, typ }
    }

    /// The suffix's bytes, a tail of the name.
    pub fn as_bytes(&self) -> (r: &[u8])
        ensures
            r@ == self@.bytes,
    {
        self.bytes
    }

    /// Whether the name ended with a dot, which the suffix then holds too.
    pub fn is_fqdn(&self) -> (r: bool)
        ensures
            r == self@.fqdn,
    {
        self.fqdn
    }

    /// The section of the list the suffix comes from, `None` where no list
    /// holds it.
    pub fn typ(&self) -> (r: Option<Type>)
        ensures
            r == self@.typ,
    {
        self.typ
    }

    /// Whether a list holds the suffix.
    pub fn is_known(&self) -> (r: bool)
        ensures
            r == self@.typ.is_some(),
    {
        self.typ.is_some()
    }
}

/// Suffixes are equal where their bytes agree once a lone trailing dot is
/// left out, and order as their bytes do after the same adjustment.
impl<'a, 'b> PartialEq<Suffix<'b>> for Suffix<'a> {
    fn eq(&self, other: &Suffix<'b>) -> (r: bool) {
        proof {
            use_type_invariant(self);
        }
        let (this, other) = normalise_dot(self.bytes, self.fqdn, other.bytes);
        bytes_eq(this, other)
    }
}

impl<'a, 'b> vstd::std_specs::cmp::PartialEqSpecImpl<Suffix<'b>> for Suffix<'a> {
    open spec fn obeys_eq_spec() -> bool {
        true
    }

    open spec fn eq_spec(&self, other: &Suffix<'b>) -> bool {
        dot_insensitive_eq(self@.bytes, self@.fqdn, other@.bytes)
    }
}

impl<'a, 'b> PartialEq<&'b [u8]> for Suffix<'a> {
    fn eq(&self, other: &&'b [u8]) -> (r: bool) {
        proof {
            use_type_invariant(self);
        }
        let (this, other) = normalise_dot(self.bytes, self.fqdn, *other);
        bytes_eq(this, other)
    }
}

impl<'a, 'b> vstd::std_specs::cmp::PartialEqSpecImpl<&'b [u8]> for Suffix<'a> {
    open spec fn obeys_eq_spec() -> bool {
        true
    }

    open spec fn eq_spec(&self, other: &&'b [u8]) -> bool {
        dot_insensitive_eq(self@.bytes, self@.fqdn, (*other)@)
    }
}

impl<'a, 'b> PartialEq<&'b str> for Suffix<'a> {
    fn eq(&self, other: &&'b str) -> (r: bool) {
        proof {
            use_type_invariant(self);
        }
        let (this, other) = normalise_dot(self.bytes, self.fqdn, other.as_bytes());
        bytes_eq(this, other)
    }
}

impl<'a, 'b> vstd::std_specs::cmp::PartialEqSpecImpl<&'b str> for Suffix<'a> {
    open spec fn obeys_eq_spec() -> bool {
        true
    }

    open spec fn eq_spec(&self, other: &&'b str) -> bool {
        dot_insensitive_eq(self@.bytes, self@.fqdn, (*other).spec_bytes())
    }
}

impl<'a, 'b> PartialOrd<Suffix<'b>> for Suffix<'a> {
    fn partial_cmp(&self, other: &Suffix<'b>) -> (r: Option<Ordering>) {
        proof {
            use_type_invariant(self);
        }
        let (this, other) = normalise_dot(self.bytes, self.fqdn, other.bytes);
        Some(bytes_cmp(this, other))
    }
}

impl<'a, 'b> vstd::std_specs::cmp::PartialOrdSpecImpl<Suffix<'b>> for Suffix<'a> {
    open spec fn obeys_partial_cmp_spec() -> bool {
        true
    }

    open spec fn partial_cmp_spec(&self, other: &Suffix<'b>) -> Option<Ordering> {
        Some(dot_insensitive_cmp(self@.bytes, self@.fqdn, other@.bytes))
    }
}

/// A registrable domain: one label, a dot and the public suffix, a tail of
/// the name it was found in.
#[derive(Copy, Clone, Eq, Debug)]
pub struct Domain<'a> {
    bytes: &'a [u8],
    suffix: Suffix<'a>,
}

impl<'a> View for Domain<'a> {
    type V = DomainModel;

    closed spec fn view(&self) -> DomainModel {
        DomainModel { bytes: self.bytes@, suffix: self.suffix@ }
    }
}

impl<'a> Domain<'a> {
    #[verifier::type_invariant]
    closed spec fn inv(self) -> bool {
        self@.wf()
    }

    /// The view of `bytes`, whose tail is `suffix`.
    pub(crate) fn make(bytes: &'a [u8], suffix: Suffix<'a>) -> (r: Domain<'a>)
        requires
            (DomainModel { bytes: bytes@, suffix: suffix@ }).wf(),
        ensures
            r@ == (DomainModel { bytes: bytes@, suffix: suffix@ }),
    {
        Domain { bytes, suffix }
    }

    /// The domain's bytes, a tail of the name.
    pub fn as_bytes(&self) -> (r: &[u8])
        ensures
            r@ == self@.bytes,
    {
        self.bytes
    }

    /// The public suffix the domain was found from.
    pub fn suffix(&self) -> (r: Suffix<'a>)
        ensures
            r@ == self@.suffix,
    {
        self.suffix
    }
}

/// Domains are equal where their bytes agree once a lone trailing dot is
/// left out, and order as their bytes do after the same adjustment.
impl<'a, 'b> PartialEq<Domain<'b>> for Domain<'a> {
    fn eq(&self, other: &Domain<'b>) -> (r: bool) {
        proof {
            use_type_invariant(self);
        }
        let (this, other) = normalise_dot(self.bytes, self.suffix.fqdn, other.bytes);
        bytes_eq(this, other)
    }
}

impl<'a, 'b> vstd::std_specs::cmp::PartialEqSpecImpl<Domain<'b>> for Domain<'a> {
    open spec fn obeys_eq_spec() -> bool {
        true
    }

    open spec fn eq_spec(&self, other: &Domain<'b>) -> bool {
        dot_insensitive_eq(self@.bytes, self@.suffix.fqdn, other@.bytes)
    }
}

impl<'a, 'b> PartialEq<&'b [u8]> for Domain<'a> {
    fn eq(&self, other: &&'b [u8]) -> (r: bool) {
        proof {
            use_type_invariant(self);
        }
        let (this, other) = normalise_dot(self.bytes, self.suffix.fqdn, *other);
        bytes_eq(this, other)
    }
}

impl<'a, 'b> vstd::std_specs::cmp::PartialEqSpecImpl<&'b [u8]> for Domain<'a> {
    open spec fn obeys_eq_spec() -> bool {
        true
    }

    open spec fn eq_spec(&self, other: &&'b [u8]) -> bool {
        dot_insensitive_eq(self@.bytes, self@.suffix.fqdn, (*other)@)
    }
}

impl<'a, 'b> PartialEq<&'b str> for Domain<'a> {
    fn eq(&self, other: &&'b str) -> (r: bool) {
        proof {
            use_type_invariant(self);
        }
        let (this, other) = normalise_dot(self.bytes, self.suffix.fqdn, other.as_bytes());
        bytes_eq(this, other)
    }
}

impl<'a, 'b> vstd::std_specs::cmp::PartialEqSpecImpl<&'b str> for Domain<'a> {
    open spec fn obeys_eq_spec() -> bool {
        true
    }

    open spec fn eq_spec(&self, other: &&'b str) -> bool {
        dot_insensitive_eq(self@.bytes, self@.suffix.fqdn, (*other).spec_bytes())
    }
}

impl<'a, 'b> PartialOrd<Domain<'b>> for Domain<'a> {
    fn partial_cmp(&self, other: &Domain<'b>) -> (r: Option<Ordering>) {
        proof {
            use_type_invariant(self);
        }
        let (this, other) = normalise_dot(self.bytes, self.suffix.fqdn, other.bytes);
        Some(bytes_cmp(this, other))
    }
}

impl<'a, 'b> vstd::std_specs::cmp::PartialOrdSpecImpl<Domain<'b>> for Domain<'a> {
    open spec fn obeys_partial_cmp_spec() -> bool {
        true
    }

    open spec fn partial_cmp_spec(&self, other: &Domain<'b>) -> Option<Ordering> {
        Some(dot_insensitive_cmp(self@.bytes, self@.suffix.fqdn, other@.bytes))
    }
}

} // verus!
