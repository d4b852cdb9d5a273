use vstd::prelude::*;
use vstd::slice::slice_subrange;
use crate::labels::{ends_with_dot, is_fqdn, last_dot, rfind_dot, Labels, DOT};
use crate::view::{Domain, DomainModel, Info, Suffix, SuffixModel};

verus! {

/// The suffix that a classifier's answer `info` picks out of `name`.
///
/// A fully qualified name's suffix takes its trailing dot too.  An answer of
/// length zero, or one longer than the name, picks nothing.
pub open spec fn suffix_spec(name: Seq<u8>, info: Info) -> Option<SuffixModel> {
    let fqdn = ends_with_dot(name);
    let len: int = if fqdn {
        info.len + 1
    } else {
        info.len as int
    };
    if len == 0 || len > name.len() {
        None
    } else {
        Some(
            SuffixModel {
                bytes: name.subrange(name.len() - len, name.len() as int),
                fqdn,
                typ: info.typ,
            },
        )
    }
}

/// The registrable domain that a classifier's answer `info` picks out of
/// `name`: the label left of the suffix, the dot between them and the
/// suffix.  There is none where the suffix leaves no room for a label and a
/// dot.
pub open spec fn domain_spec(name: Seq<u8>, info: Info) -> Option<DomainModel> {
    match suffix_spec(name, info) {
        None => None,
        Some(suffix) => {
            let len = suffix.bytes.len();
            if name.len() < len + 2 {
                None
            } else {
                let subdomain = name.subrange(0, name.len() - 1 - len);
                Some(
                    DomainModel {
                        bytes: name.subrange(last_dot(subdomain) + 1, name.len() as int),
                        suffix,
                    },
                )
            }
        },
    }
}

/// The model of an optional suffix view.
pub open spec fn suffix_model(r: Option<Suffix<'_>>) -> Option<SuffixModel> {
    match r {
        Some(s) => Some(s@),
        None => None,
    }
}

/// The model of an optional domain view.
pub open spec fn domain_model(r: Option<Domain<'_>>) -> Option<DomainModel> {
    match r {
        Some(d) => Some(d@),
        None => None,
    }
}

/// The suffix of `name` that the classifier's answer `info` picks out.
pub fn suffix_from_info<'a>(name: &'a [u8], info: Info) -> (r: Option<Suffix<'a>>)
    ensures
        suffix_model(r) == suffix_spec(name@, info),
{
    let fqdn = is_fqdn(name);
    let name_len = name.len();
    let len: usize = if fqdn {
        if info.len >= name_len {
            return None;
        }
        info.len + 1
    } else {
        info.len
    };
    if len == 0 || len > name_len {
        return None;
    }
    let bytes = slice_subrange(name, name_len - len, name_len);
    proof {
        if fqdn {
            assert(bytes@.last() == name@.last());
        }
    }
    Some(Suffix::make(bytes, fqdn, info.typ))
}

/// The registrable domain of `name` that the classifier's answer `info`
/// picks out.
pub fn domain_from_info<'a>(name: &'a [u8], info: Info) -> (r: Option<Domain<'a>>)
    ensures
        domain_model(r) == domain_spec(name@, info),
{
    let suffix = match suffix_from_info(name, info) {
        Some(s) => s,
        None => return None,
    };
    let name_len = name.len();
    let suffix_len = suffix.as_bytes().len();
    if name_len < 2 || name_len - 2 < suffix_len {
        return None;
    }
    let subdomain = slice_subrange(name, 0, name_len - 1 - suffix_len);
    proof {
        crate::labels::lemma_last_dot_bounds(subdomain@);
    }
    let start: usize = match rfind_dot(subdomain) {
        Some(k) => k + 1,
        None => 0,
    };
    let bytes = slice_subrange(name, start, name_len);
    proof {
        assert(bytes@.subrange(bytes@.len() - suffix_len, bytes@.len() as int) =~= suffix@.bytes);
    }
    Some(Domain::make(bytes, suffix))
}

/// A list of public suffixes.
pub trait List {
    /// Classifies the labels of a name, which come rightmost first.
    fn find(&self, labels: Labels<'_>) -> Info;

    /// The public suffix of `name`, a valid domain name in lower case.
    fn suffix<'a>(&self, name: &'a [u8]) -> (r: Option<Suffix<'a>>)
        ensures
            exists|info: Info| #[trigger] suffix_spec(name@, info) == suffix_model(r),
            name@.len() == 0 ==> r is None,
    {
        let info = self.find(Labels::new(name));
        suffix_from_info(name, info)
    }

    /// The registrable domain of `name`, a valid domain name in lower case.
    fn domain<'a>(&self, name: &'a [u8]) -> (r: Option<Domain<'a>>)
        ensures
            exists|info: Info| #[trigger] domain_spec(name@, info) == domain_model(r),
            name@.len() < 3 ==> r is None,
    {
        let info = self.find(Labels::new(name));
        domain_from_info(name, info)
    }
}

/// A shared reference to a list is a list too.
impl<L: List> List for &L {
    fn find(&self, labels: Labels<'_>) -> Info {
        (**self).find(labels)
    }
}

} // verus!
