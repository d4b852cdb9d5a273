use psl_types::{Info, Labels, List as Psl};

struct List;

impl Psl for List {
    fn find(&self, mut labels: Labels<'_>) -> Info {
        match labels.next() {
            Some(label) => Info {
                len: label.len(),
                typ: None,
            },
            None => Info { len: 0, typ: None },
        }
    }
}

#[test]
fn www_example_com() {
    let domain = List.domain(b"www.example.com").expect("domain name");
    assert_eq!(domain, "example.com");
    assert_eq!(domain.suffix(), "com");
}

#[test]
fn example_com() {
    let domain = List.domain(b"example.com").expect("domain name");
    assert_eq!(domain, "example.com");
    assert_eq!(domain.suffix(), "com");
}

#[test]
fn example_com_() {
    let domain = List.domain(b"example.com.").expect("domain name");
    assert_eq!(domain, "example.com.");
    assert_eq!(domain.suffix(), "com.");
}

#[test]
fn fqdn_comparisons() {
    let domain = List.domain(b"example.com.").expect("domain name");
    assert_eq!(domain, "example.com");
    assert_eq!(domain.suffix(), "com");
}

#[test]
fn non_fqdn_comparisons() {
    let domain = List.domain(b"example.com").expect("domain name");
    assert_eq!(domain, "example.com.");
    assert_eq!(domain.suffix(), "com.");
}

#[test]
fn self_comparisons() {
    let fqdn = List.domain(b"example.com.").expect("domain name");
    let non_fqdn = List.domain(b"example.com").expect("domain name");
    assert_eq!(fqdn, non_fqdn);
    assert_eq!(fqdn.suffix(), non_fqdn.suffix());
}

#[test]
fn com() {
    let domain = List.domain(b"com");
    assert_eq!(domain, None);

    let suffix = List.suffix(b"com").expect("public suffix");
    assert_eq!(suffix, "com");
}

#[test]
fn root() {
    let domain = List.domain(b".");
    assert_eq!(domain, None);

    let suffix = List.suffix(b".").expect("public suffix");
    assert_eq!(suffix, ".");
}

#[test]
fn empty_string() {
    let domain = List.domain(b"");
    assert_eq!(domain, None);

    let suffix = List.suffix(b"");
    assert_eq!(suffix, None);
}
