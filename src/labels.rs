use vstd::prelude::*;
use vstd::slice::slice_subrange;

verus! {

/// The label separator of a domain name.
pub const DOT: u8 = 46;

/// Index of the last `.` in `s`, or `-1` where `s` holds none.
pub open spec fn last_dot(s: Seq<u8>) -> int
    decreases s.len(),
{
    if s.len() == 0 {
        -1
    } else if s.last() == DOT {
        s.len() - 1
    } else {
        last_dot(s.drop_last())
    }
}

/// Whether `s` ends with a `.`.
pub open spec fn ends_with_dot(s: Seq<u8>) -> bool {
    s.len() > 0 && s.last() == DOT
}

/// Whether no label of `s` is empty: every `.` has a byte before it that is
/// not itself a `.`.
pub open spec fn no_empty_label(s: Seq<u8>) -> bool {
    forall|i: int| 0 <= i < s.len() && #[trigger] s[i] == DOT ==> i > 0 && s[i - 1] != DOT
}

/// Whether a label of `s` starts at index `k`.
pub open spec fn starts_label(s: Seq<u8>, k: int) -> bool {
    k == 0 || s[k - 1] == DOT
}

/// `s` without its single trailing `.`, if it has one.
pub open spec fn strip_fqdn(s: Seq<u8>) -> Seq<u8> {
    if ends_with_dot(s) {
        s.drop_last()
    } else {
        s
    }
}

/// The labels of `s` split on `.`, rightmost first.
///
/// Never empty: a name without any dot is one label, and the empty name is
/// one empty label.
pub open spec fn labels_rtl(s: Seq<u8>) -> Seq<Seq<u8>>
    decreases s.len(),
{
    let k = last_dot(s);
    if 0 <= k < s.len() {
        seq![s.subrange(k + 1, s.len() as int)] + labels_rtl(s.subrange(0, k))
    } else {
        seq![s]
    }
}

/// `k` is the index of the last `.` in `s` exactly when there is a `.` at `k`
/// and none after it (or `k == -1` and `s` holds none).
pub proof fn lemma_last_dot(s: Seq<u8>, k: int)
    requires
        -1 <= k < s.len(),
        k >= 0 ==> s[k] == DOT,
        forall|j: int| k < j < s.len() ==> s[j] != DOT,
    ensures
        last_dot(s) == k,
    decreases s.len(),
{
    if s.len() > 0 && s.last() != DOT {
        lemma_last_dot(s.drop_last(), k);
    }
}

/// The index of the last `.` is `-1` or an index of `s` holding a `.`, and
/// no `.` follows it.
pub proof fn lemma_last_dot_bounds(s: Seq<u8>)
    ensures
        -1 <= last_dot(s) < s.len(),
        last_dot(s) >= 0 ==> s[last_dot(s)] == DOT,
        forall|j: int| last_dot(s) < j < s.len() ==> s[j] != DOT,
    decreases s.len(),
{
    if s.len() > 0 && s.last() != DOT {
        lemma_last_dot_bounds(s.drop_last());
        assert forall|j: int| last_dot(s) < j < s.len() implies s[j] != DOT by {
            if j < s.len() - 1 {
                assert(s[j] == s.drop_last()[j]);
            }
        }
    }
}

/// Finds the index of the last `.` in `s`.
pub fn rfind_dot(s: &[u8]) -> (r: Option<usize>)
    ensures
        match r {
            Some(k) => k == last_dot(s@),
            None => last_dot(s@) == -1,
        },
{
    let mut i: usize = s.len();
    while i > 0
        invariant
            i <= s@.len(),
            forall|j: int| i <= j < s@.len() ==> s@[j] != DOT,
        decreases i,
    {
        if s[i - 1] == DOT {
            proof {
                lemma_last_dot(s@, i - 1);
            }
            return Some(i - 1);
        }
        i = i - 1;
    }
    proof {
        lemma_last_dot(s@, -1);
    }
    None
}

/// Whether `s` ends with a `.`.
pub fn is_fqdn(s: &[u8]) -> (r: bool)
    ensures
        r == ends_with_dot(s@),
{
    s.len() > 0 && s[s.len() - 1] == DOT
}

/// The labels of a domain name, handed out one at a time from right to left.
///
/// A single trailing `.` does not start a label of its own.  The sequence is
/// finite and cannot be rewound.
pub struct Labels<'a> {
    rest: &'a [u8],
    done: bool,
}

impl<'a> View for Labels<'a> {
    /// The labels still to come, rightmost first.
    type V = Seq<Seq<u8>>;

    closed spec fn view(&self) -> Seq<Seq<u8>> {
        if self.done {
            seq![]
        } else {
            labels_rtl(self.rest@)
        }
    }
}

impl<'a> Labels<'a> {
    /// The labels of `name`, leaving out the empty label after a trailing `.`.
    pub fn new(name: &'a [u8]) -> (r: Labels<'a>)
        ensures
            r@ == labels_rtl(strip_fqdn(name@)),
    {
        let rest = if is_fqdn(name) {
            slice_subrange(name, 0, name.len() - 1)
        } else {
            name
        };
        proof {
            if ends_with_dot(name@) {
                assert(rest@ =~= name@.drop_last());
            }
        }
        Labels { rest, done: false }
    }

    /// Hands out the next label to the left, or `None` once all are out.
    pub fn next(&mut self) -> (r: Option<&'a [u8]>)
        ensures
            old(self)@.len() == 0 ==> r is None && final(self)@ == old(self)@,
            old(self)@.len() > 0 ==> (r matches Some(l) && l@ == old(self)@[0] && final(self)@
                == old(self)@.drop_first()),
    {
        if self.done {
            return None;
        }
        let rest = self.rest;
        proof {
            lemma_last_dot_bounds(rest@);
        }
        match rfind_dot(rest) {
            Some(k) => {
                let n = rest.len();
                assert(k < n);
                let label = slice_subrange(rest, k + 1, n);
                self.rest = slice_subrange(rest, 0, k);
                proof {
                    assert(labels_rtl(rest@) == seq![label@] + labels_rtl(self.rest@));
                    assert((seq![label@] + labels_rtl(self.rest@)).drop_first() =~= labels_rtl(
                        self.rest@,
                    ));
                }
                Some(label)
            },
            None => {
                self.done = true;
                Some(rest)
            },
        }
    }
}

} // verus!
