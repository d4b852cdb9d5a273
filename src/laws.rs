//! Properties that relate several calls or hold of every input.
use vstd::prelude::*;
use vstd::std_specs::cmp::{PartialEqSpec, PartialOrdSpec};
use core::cmp::Ordering;
use crate::compare::{dot_insensitive_eq, lemma_lex_cmp_equal, lemma_lex_cmp_reverse, normalised};
use crate::labels::{
    ends_with_dot, labels_rtl, last_dot, lemma_last_dot_bounds, no_empty_label, starts_label,
    strip_fqdn, DOT,
};
use crate::list::{domain_spec, suffix_spec};
use crate::view::{Domain, Info, Suffix};

verus! {

/// The suffix that a classifier's answer picks out of a name is never empty
/// and is exactly the last bytes of the name.
pub proof fn law_suffix_is_tail(name: Seq<u8>, info: Info)
    ensures
        suffix_spec(name, info) matches Some(s) ==> {
            &&& s.bytes.len() > 0
            &&& s.bytes == name.subrange(name.len() - s.bytes.len(), name.len() as int)
        },
{
}

/// In a name without empty labels, whose suffix starts a label, the
/// registrable domain ends with a dot followed by the suffix, and at least
/// one byte of label stands before that dot.
pub proof fn law_domain_shape(name: Seq<u8>, info: Info)
    requires
        no_empty_label(name),
        suffix_spec(name, info) matches Some(s) ==> starts_label(
            name,
            name.len() - s.bytes.len(),
        ),
    ensures
        domain_spec(name, info) matches Some(d) ==> {
            let len = d.suffix.bytes.len();
            &&& d.bytes.len() >= len + 2
            &&& d.bytes.subrange(d.bytes.len() - len - 1, d.bytes.len() as int) == seq![DOT]
                + d.suffix.bytes
        },
{
    if let Some(d) = domain_spec(name, info) {
        let len = d.suffix.bytes.len();
        let n = name.len();
        let subdomain = name.subrange(0, n - 1 - len);
        lemma_last_dot_bounds(subdomain);
        assert(name[n - len - 1] == DOT);
        assert(name[n - len - 2] != DOT);
        assert(subdomain[subdomain.len() - 1] != DOT);
        assert(last_dot(subdomain) < subdomain.len() - 1);
        assert(d.bytes.subrange(d.bytes.len() - len - 1, d.bytes.len() as int) =~= seq![DOT]
            + d.suffix.bytes);
    }
}

/// A name without empty labels, whose suffix starts a label, has no
/// registrable domain exactly when it has no suffix or is its own suffix.
pub proof fn law_domain_absence(name: Seq<u8>, info: Info)
    requires
        no_empty_label(name),
        suffix_spec(name, info) matches Some(s) ==> starts_label(
            name,
            name.len() - s.bytes.len(),
        ),
    ensures
        domain_spec(name, info) is None <==> (suffix_spec(name, info) is None || suffix_spec(
            name,
            info,
        )->Some_0.bytes == name),
{
    if let Some(s) = suffix_spec(name, info) {
        let n = name.len();
        if n < s.bytes.len() + 2 {
            if n == s.bytes.len() + 1 {
                assert(name[0] == DOT);
            }
            assert(s.bytes =~= name);
        }
    }
}

/// A trailing dot added to a name without one leaves the labels handed to
/// the classifier as they were; a found suffix of the longer name is that of
/// the shorter with the dot added, and the two compare equal either way.
pub proof fn law_fqdn_idempotence(name: Seq<u8>, info: Info)
    requires
        !ends_with_dot(name),
        info.len > 0,
    ensures
        labels_rtl(strip_fqdn(name)) == labels_rtl(strip_fqdn(name.push(DOT))),
        suffix_spec(name, info) is Some <==> suffix_spec(name.push(DOT), info) is Some,
        suffix_spec(name, info) matches Some(a) ==> {
            let b = suffix_spec(name.push(DOT), info)->Some_0;
            &&& b.bytes == a.bytes.push(DOT)
            &&& b.fqdn && !a.fqdn
            &&& b.typ == a.typ
            &&& dot_insensitive_eq(a.bytes, a.fqdn, b.bytes)
            &&& dot_insensitive_eq(b.bytes, b.fqdn, a.bytes)
        },
{
    let longer = name.push(DOT);
    assert(longer.drop_last() =~= name);
    if let Some(a) = suffix_spec(name, info) {
        let b = suffix_spec(longer, info)->Some_0;
        assert(b.bytes =~= a.bytes.push(DOT));
        assert(b.bytes.drop_last() =~= a.bytes);
    }
}

/// Suffix views compare equal in either order or not at all, and order as
/// equal exactly when they compare equal; swapping them reverses the order.
pub proof fn law_suffix_comparison(a: Suffix<'_>, b: Suffix<'_>)
    requires
        a@.wf(),
        b@.wf(),
    ensures
        a.eq_spec(&b) == b.eq_spec(&a),
        (a.partial_cmp_spec(&b) == Some(Ordering::Equal)) == a.eq_spec(&b),
        b.partial_cmp_spec(&a) == match a.partial_cmp_spec(&b) {
            Some(Ordering::Less) => Some(Ordering::Greater),
            Some(Ordering::Greater) => Some(Ordering::Less),
            other => other,
        },
{
    let p = normalised(a@.bytes, a@.fqdn, b@.bytes);
    let q = normalised(b@.bytes, b@.fqdn, a@.bytes);
    assert(p.0 == q.1 && p.1 == q.0);
    lemma_lex_cmp_equal(p.0, p.1);
    lemma_lex_cmp_reverse(p.0, p.1);
}

/// Domain views compare equal in either order or not at all, and order as
/// equal exactly when they compare equal; swapping them reverses the order.
pub proof fn law_domain_comparison(a: Domain<'_>, b: Domain<'_>)
    requires
        a@.wf(),
        b@.wf(),
    ensures
        a.eq_spec(&b) == b.eq_spec(&a),
        (a.partial_cmp_spec(&b) == Some(Ordering::Equal)) == a.eq_spec(&b),
        b.partial_cmp_spec(&a) == match a.partial_cmp_spec(&b) {
            Some(Ordering::Less) => Some(Ordering::Greater),
            Some(Ordering::Greater) => Some(Ordering::Less),
            other => other,
        },
{
    let sa = a@.suffix.bytes;
    let sb = b@.suffix.bytes;
    assert(a@.bytes.last() == sa.last());
    assert(b@.bytes.last() == sb.last());
    let p = normalised(a@.bytes, a@.suffix.fqdn, b@.bytes);
    let q = normalised(b@.bytes, b@.suffix.fqdn, a@.bytes);
    assert(p.0 == q.1 && p.1 == q.0);
    lemma_lex_cmp_equal(p.0, p.1);
    lemma_lex_cmp_reverse(p.0, p.1);
}

} // verus!
