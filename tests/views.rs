use psl_types::{domain_from_info, suffix_from_info, Info, Labels, List, Type};
use std::cmp::Ordering;

/// A classifier that knows `co.uk` (ICANN) and `blogspot.com` (private), and
/// otherwise takes the rightmost label as an unlisted suffix.
struct Small;

impl List for Small {
    fn find(&self, mut labels: Labels<'_>) -> Info {
        let first = match labels.next() {
            Some(label) => label,
            None => return Info { len: 0, typ: None },
        };
        let second = labels.next();
        match (first, second) {
            (b"uk", Some(b"co")) => Info { len: 5, typ: Some(Type::Icann) },
            (b"com", Some(b"blogspot")) => Info { len: 12, typ: Some(Type::Private) },
            _ => Info { len: first.len(), typ: None },
        }
    }
}

fn unlisted(len: usize) -> Info {
    Info { len, typ: None }
}

#[test]
fn labels_come_right_to_left() {
    let mut labels = Labels::new(b"a.bc.def.");
    assert_eq!(labels.next(), Some(&b"def"[..]));
    assert_eq!(labels.next(), Some(&b"bc"[..]));
    assert_eq!(labels.next(), Some(&b"a"[..]));
    assert_eq!(labels.next(), None);
    assert_eq!(labels.next(), None);
}

#[test]
fn labels_of_empty_and_root() {
    let mut labels = Labels::new(b"");
    assert_eq!(labels.next(), Some(&b""[..]));
    assert_eq!(labels.next(), None);
    let mut labels = Labels::new(b".");
    assert_eq!(labels.next(), Some(&b""[..]));
    assert_eq!(labels.next(), None);
}

#[test]
fn scenario_www_example_com() {
    let domain = domain_from_info(b"www.example.com", unlisted(3)).expect("domain name");
    assert_eq!(domain.as_bytes(), b"example.com");
    assert_eq!(domain.suffix().as_bytes(), b"com");
    assert!(!domain.suffix().is_fqdn());
    assert_eq!(domain.suffix().typ(), None);
    assert!(!domain.suffix().is_known());
}

#[test]
fn scenario_fqdn_example_com() {
    let suffix = suffix_from_info(b"example.com.", unlisted(3)).expect("public suffix");
    assert_eq!(suffix.as_bytes(), b"com.");
    assert!(suffix.is_fqdn());
    let domain = domain_from_info(b"example.com.", unlisted(3)).expect("domain name");
    assert_eq!(domain.as_bytes(), b"example.com.");
    assert!(domain == "example.com");
}

#[test]
fn scenario_bare_suffix() {
    assert!(domain_from_info(b"com", unlisted(3)).is_none());
    let suffix = suffix_from_info(b"com", unlisted(3)).expect("public suffix");
    assert_eq!(suffix.as_bytes(), b"com");
}

#[test]
fn scenario_root() {
    let suffix = suffix_from_info(b".", unlisted(0)).expect("public suffix");
    assert_eq!(suffix.as_bytes(), b".");
    assert!(suffix.is_fqdn());
    assert!(domain_from_info(b".", unlisted(0)).is_none());
}

#[test]
fn scenario_empty() {
    assert!(suffix_from_info(b"", unlisted(0)).is_none());
    assert!(domain_from_info(b"", unlisted(0)).is_none());
}

#[test]
fn scenario_cross_fqdn_equality() {
    let fqdn = Small.domain(b"example.com.").expect("domain name");
    let plain = Small.domain(b"example.com").expect("domain name");
    assert_ne!(fqdn.as_bytes().len(), plain.as_bytes().len());
    assert_eq!(fqdn, plain);
    assert_eq!(plain, fqdn);
    assert_eq!(fqdn.suffix(), plain.suffix());
    assert_eq!(fqdn.partial_cmp(&plain), Some(Ordering::Equal));
}

#[test]
fn suffix_is_the_tail_of_the_name() {
    let name: &[u8] = b"a.b.co.uk";
    let suffix = Small.suffix(name).expect("public suffix");
    assert_eq!(suffix.as_bytes(), &name[name.len() - 5..]);
    assert_eq!(suffix.typ(), Some(Type::Icann));
    assert!(suffix.is_known());
    let domain = Small.domain(name).expect("domain name");
    assert_eq!(domain.as_bytes(), b"b.co.uk");
    assert!(domain.as_bytes().ends_with(b".co.uk"));
}

#[test]
fn private_suffix() {
    let domain = Small.domain(b"me.blogspot.com").expect("domain name");
    assert_eq!(domain, "me.blogspot.com");
    assert_eq!(domain.suffix().typ(), Some(Type::Private));
}

#[test]
fn fqdn_idempotence() {
    let plain = Small.suffix(b"www.example.co.uk").expect("public suffix");
    let fqdn = Small.suffix(b"www.example.co.uk.").expect("public suffix");
    assert_eq!(plain.as_bytes(), b"co.uk");
    assert_eq!(fqdn.as_bytes(), b"co.uk.");
    assert_eq!(plain, fqdn);
    assert_eq!(fqdn, plain);
}

#[test]
fn classifier_longer_than_name_gives_nothing() {
    assert!(suffix_from_info(b"com", unlisted(4)).is_none());
    assert!(suffix_from_info(b"com.", unlisted(4)).is_none());
    assert!(suffix_from_info(b"com.", unlisted(usize::MAX)).is_none());
    assert!(domain_from_info(b"example.com", unlisted(100)).is_none());
}

#[test]
fn zero_length_match_gives_nothing() {
    assert!(suffix_from_info(b"example.com", unlisted(0)).is_none());
    assert!(domain_from_info(b"example.com", unlisted(0)).is_none());
}

#[test]
fn whole_name_as_suffix_has_no_domain() {
    assert!(domain_from_info(b"co.uk", Info { len: 5, typ: Some(Type::Icann) }).is_none());
    let suffix = suffix_from_info(b"co.uk", Info { len: 5, typ: Some(Type::Icann) }).unwrap();
    assert_eq!(suffix, "co.uk");
}

#[test]
fn single_letter_label() {
    let domain = domain_from_info(b"a.com", unlisted(3)).expect("domain name");
    assert_eq!(domain.as_bytes(), b"a.com");
}

#[test]
fn comparison_with_byte_strings() {
    let suffix = suffix_from_info(b"example.com", unlisted(3)).unwrap();
    assert!(suffix == &b"com"[..]);
    assert!(suffix == &b"com."[..]);
    assert!(suffix != &b"org"[..]);
    assert!(suffix != &b"co"[..]);
    let domain = domain_from_info(b"example.com.", unlisted(3)).unwrap();
    assert!(domain == &b"example.com"[..]);
    assert!(domain == &b"example.com."[..]);
    assert!(domain != &b"example.org"[..]);
}

#[test]
fn comparison_order() {
    let a = domain_from_info(b"abc.com", unlisted(3)).unwrap();
    let b = domain_from_info(b"abd.com.", unlisted(3)).unwrap();
    assert!(a < b);
    assert!(b > a);
    assert_eq!(a.partial_cmp(&b), Some(Ordering::Less));
    assert_eq!(b.partial_cmp(&a), Some(Ordering::Greater));
    let c = suffix_from_info(b"x.com", unlisted(3)).unwrap();
    let d = suffix_from_info(b"x.co", unlisted(2)).unwrap();
    assert_eq!(c.partial_cmp(&d), Some(Ordering::Greater));
    assert_eq!(d.partial_cmp(&c), Some(Ordering::Less));
    assert_ne!(c, d);
}

#[test]
fn list_behind_a_reference() {
    let list = &Small;
    let domain = list.domain(b"www.example.co.uk").expect("domain name");
    assert_eq!(domain, "example.co.uk");
    assert_eq!(list.suffix(b"co.uk").expect("public suffix"), "co.uk");
}
