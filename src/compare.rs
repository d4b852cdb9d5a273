use vstd::prelude::*;
use vstd::slice::slice_subrange;
use core::cmp::Ordering;
use crate::labels::{ends_with_dot, is_fqdn};

verus! {

/// The pair actually compared when `this` (which ends with a `.` exactly
/// when `this_is_fqdn`) is compared with `other`: where one of the two ends
/// with a `.` and the other does not, that single dot is left out.
pub open spec fn normalised(this: Seq<u8>, this_is_fqdn: bool, other: Seq<u8>) -> (Seq<u8>, Seq<u8>) {
    if this_is_fqdn && !ends_with_dot(other) {
        (this.drop_last(), other)
    } else if !this_is_fqdn && ends_with_dot(other) {
        (this, other.drop_last())
    } else {
        (this, other)
    }
}

/// Equality that disregards a lone difference in the trailing dot.
pub open spec fn dot_insensitive_eq(this: Seq<u8>, this_is_fqdn: bool, other: Seq<u8>) -> bool {
    normalised(this, this_is_fqdn, other).0 == normalised(this, this_is_fqdn, other).1
}

/// Order that disregards a lone difference in the trailing dot.
pub open spec fn dot_insensitive_cmp(this: Seq<u8>, this_is_fqdn: bool, other: Seq<u8>) -> Ordering {
    lex_cmp(normalised(this, this_is_fqdn, other).0, normalised(this, this_is_fqdn, other).1)
}

/// Lexicographic order of byte strings, a proper prefix ordering first.
pub open spec fn lex_cmp(a: Seq<u8>, b: Seq<u8>) -> Ordering
    decreases a.len(),
{
    if a.len() == 0 {
        if b.len() == 0 {
            Ordering::Equal
        } else {
            Ordering::Less
        }
    } else if b.len() == 0 {
        Ordering::Greater
    } else if a[0] < b[0] {
        Ordering::Less
    } else if a[0] > b[0] {
        Ordering::Greater
    } else {
        lex_cmp(a.drop_first(), b.drop_first())
    }
}

/// Two byte strings order as equal exactly when they are equal.
pub proof fn lemma_lex_cmp_equal(a: Seq<u8>, b: Seq<u8>)
    ensures
        (lex_cmp(a, b) == Ordering::Equal) == (a == b),
    decreases a.len(),
{
    if a.len() > 0 && b.len() > 0 && a[0] == b[0] {
        lemma_lex_cmp_equal(a.drop_first(), b.drop_first());
        if a.drop_first() == b.drop_first() {
            assert(a =~= seq![a[0]] + a.drop_first());
            assert(b =~= seq![b[0]] + b.drop_first());
        } else if a == b {
            assert(a.drop_first() == b.drop_first());
        }
    } else if a.len() > 0 && b.len() > 0 && a == b {
        assert(a[0] == b[0]);
    } else if a.len() == 0 && b.len() == 0 {
        assert(a =~= b);
    }
}

/// Swapping the operands reverses the order.
pub proof fn lemma_lex_cmp_reverse(a: Seq<u8>, b: Seq<u8>)
    ensures
        lex_cmp(b, a) == match lex_cmp(a, b) {
            Ordering::Less => Ordering::Greater,
            Ordering::Equal => Ordering::Equal,
            Ordering::Greater => Ordering::Less,
        },
    decreases a.len(),
{
    if a.len() > 0 && b.len() > 0 && a[0] == b[0] {
        lemma_lex_cmp_reverse(a.drop_first(), b.drop_first());
    }
}

/// Leaves out of `this` or `other` the one trailing dot that the other lacks.
pub fn normalise_dot<'a>(this: &'a [u8], this_is_fqdn: bool, other: &'a [u8]) -> (r: (
    &'a [u8],
    &'a [u8],
))
    requires
        this_is_fqdn ==> this@.len() > 0,
    ensures
        (r.0@, r.1@) == normalised(this@, this_is_fqdn, other@),
{
    let other_is_fqdn = is_fqdn(other);
    if this_is_fqdn && !other_is_fqdn {
        let this_len = this.len();
        (slice_subrange(this, 0, this_len - 1), other)
    } else if !this_is_fqdn && other_is_fqdn {
        let other_len = other.len();
        (this, slice_subrange(other, 0, other_len - 1))
    } else {
        (this, other)
    }
}

/// Byte-wise equality of two byte strings.
pub fn bytes_eq(a: &[u8], b: &[u8]) -> (r: bool)
    ensures
        r == (a@ == b@),
{
    if a.len() != b.len() {
        return false;
    }
    let mut i: usize = 0;
    while i < a.len()
        invariant
            a@.len() == b@.len(),
            i <= a@.len(),
            forall|j: int| 0 <= j < i ==> a@[j] == b@[j],
        decreases a@.len() - i,
    {
        if a[i] != b[i] {
            return false;
        }
        i = i + 1;
    }
    assert(a@ =~= b@);
    true
}

/// Lexicographic comparison of two byte strings.
pub fn bytes_cmp(a: &[u8], b: &[u8]) -> (r: Ordering)
    ensures
        r == lex_cmp(a@, b@),
{
    let mut i: usize = 0;
    assert(a@.skip(0) =~= a@);
    assert(b@.skip(0) =~= b@);
    while i < a.len() && i < b.len()
        invariant
            i <= a@.len(),
            i <= b@.len(),
            lex_cmp(a@, b@) == lex_cmp(a@.skip(i as int), b@.skip(i as int)),
        decreases a@.len() - i,
    {
        if a[i] < b[i] {
            return Ordering::Less;
        }
        if a[i] > b[i] {
            return Ordering::Greater;
        }
        assert(a@.skip(i as int).drop_first() =~= a@.skip(i + 1));
        assert(b@.skip(i as int).drop_first() =~= b@.skip(i + 1));
        i = i + 1;
    }
    if a.len() == b.len() {
        Ordering::Equal
    } else if i == a.len() {
        Ordering::Less
    } else {
        Ordering::Greater
    }
}

} // verus!
