use dns_server::error::ConfigError;
use dns_server::name::DomainName;

fn labels(parts: &[&str]) -> Vec<Vec<u8>> {
    parts.iter().map(|part| part.as_bytes().to_vec()).collect()
}

#[test]
fn parse_reads_labels_from_the_left() {
    let name = DomainName::parse("www.Example.COM.").unwrap();
    assert_eq!(name.num_labels(), 3);
    assert_eq!(name.label(0), Some(b"www".to_vec()));
    assert_eq!(name.label(1), Some(b"example".to_vec()));
    assert_eq!(name.label(2), Some(b"com".to_vec()));
    assert_eq!(name.label(3), None);
    assert_eq!(name, DomainName::from_labels(labels(&["www", "example", "com"])));
}

#[test]
fn parse_rejects_relative_and_malformed_names() {
    assert_eq!(DomainName::parse("www.example.com"), Err(ConfigError::Domain));
    assert_eq!(DomainName::parse(""), Err(ConfigError::Domain));
    assert_eq!(DomainName::parse("a b.example."), Err(ConfigError::Domain));
    let long = format!("{}.example.", "a".repeat(64));
    assert_eq!(DomainName::parse(&long), Err(ConfigError::Domain));
}

#[test]
fn parse_of_a_dot_is_the_root() {
    let root = DomainName::parse(".").unwrap();
    assert!(root.is_root());
    assert_eq!(root, DomainName::root());
    assert_eq!(root.num_labels(), 0);
}

#[test]
fn from_labels_makes_ascii_letters_small() {
    let name = DomainName::from_labels(labels(&["AbC-Z", "x\u{c9}y", "@[`{"]));
    assert_eq!(name.label(0), Some(b"abc-z".to_vec()));
    assert_eq!(name.label(1), Some("x\u{c9}y".as_bytes().to_vec()));
    assert_eq!(name.label(2), Some(b"@[`{".to_vec()));
    let again = DomainName::from_labels(vec![
        name.label(0).unwrap(),
        name.label(1).unwrap(),
        name.label(2).unwrap(),
    ]);
    assert_eq!(again, name);
}

#[test]
fn same_compares_labels() {
    let a = DomainName::parse("a.example.").unwrap();
    assert!(a.same(&DomainName::parse("A.EXAMPLE.").unwrap()));
    assert!(a.same(&a.clone()));
    assert!(!a.same(&DomainName::parse("b.example.").unwrap()));
    assert!(!a.same(&DomainName::parse("example.").unwrap()));
    assert!(!a.same(&DomainName::parse("a.example.com.").unwrap()));
    assert!(!a.same(&DomainName::parse("aa.example.").unwrap()));
}

#[test]
fn zone_of_holds_the_zone_and_what_is_below() {
    let zone = DomainName::parse("example.com.").unwrap();
    assert!(zone.zone_of(&DomainName::parse("example.com.").unwrap()));
    assert!(zone.zone_of(&DomainName::parse("www.example.com.").unwrap()));
    assert!(zone.zone_of(&DomainName::parse("a.b.example.com.").unwrap()));
    assert!(!zone.zone_of(&DomainName::parse("com.").unwrap()));
    assert!(!zone.zone_of(&DomainName::parse("example.net.").unwrap()));
    assert!(!zone.zone_of(&DomainName::parse("badexample.com.").unwrap()));
    assert!(!zone.zone_of(&DomainName::root()));
    assert!(DomainName::root().zone_of(&zone));
    assert!(DomainName::root().zone_of(&DomainName::root()));
}

#[test]
fn base_name_drops_the_first_label() {
    let name = DomainName::parse("www.example.com.").unwrap();
    assert_eq!(name.base_name(), DomainName::parse("example.com.").unwrap());
    assert_eq!(name.base_name().base_name().base_name(), DomainName::root());
    assert_eq!(DomainName::root().base_name(), DomainName::root());
}

#[test]
fn name_is_shown_with_a_dot_behind_each_label() {
    assert_eq!(DomainName::parse("WWW.Example.com.").unwrap().to_string(), "www.example.com.");
    assert_eq!(DomainName::root().to_string(), ".");
    assert_eq!(DomainName::from_labels(labels(&["a"])).to_string(), "a.");
    let odd = DomainName::from_labels(vec![vec![0xe9, b'.'], vec![]]);
    assert_eq!(odd.to_string(), "\u{e9}...");
}
