use dns_server::authority::local_dns::{
    load_entries, local_dns_entries, read_local_dns_file, RefreshFailure,
};
use dns_server::catalog::Authority;
use dns_server::client::ClientType;
use dns_server::config::{read_names, read_networks, DNSServer};
use dns_server::error::ConfigError;
use dns_server::ip::{IpAddress, IpRange};
use dns_server::name::DomainName;
use dns_server::record::{DecisionOutcome, Protocol, QueryContext, RecordType, ResponseCode};
use dns_server::text::{
    chars_of, find_from, slice_of, split_on, split_whitespace, string_of, take_before, trim,
    trim_end_matches,
};

fn name(text: &str) -> DomainName {
    DomainName::parse(text).unwrap()
}

fn chars(text: &str) -> Vec<char> {
    text.chars().collect()
}

fn list(text: &str) -> Option<String> {
    Some(text.to_string())
}

fn settings(default_ip: Option<u32>) -> DNSServer {
    DNSServer {
        port: 53,
        listen: "0.0.0.0".to_string(),
        worker: 4,
        blacklist: None,
        default_ip,
        zone_blacklist: None,
        dns_server: ClientType::CloudFlareH2,
        h2: false,
        h2_port: 443,
        h2_path: "/".to_string(),
        tls: false,
        tls_port: 853,
        tls_certificate: None,
        tls_private_key: None,
        rfc8215_ips: None,
        deny_networks: None,
        allow_networks: None,
    }
}

#[test]
fn text_is_taken_apart_as_std_does() {
    for text in ["", "a", "a\nb", "a\n", "\n", "\n\na\n\n", "a\r\nb", "é\n\u{3000}x"] {
        let expected: Vec<Vec<char>> = text.split('\n').map(chars).collect();
        assert_eq!(split_on(&chars(text), '\n'), expected, "{:?}", text);
    }
    for text in ["", " ", "a", "  a b \t", "\u{3000}a\u{a0}", "a\u{200b}", "\r\n x \r\n"] {
        assert_eq!(trim(&chars(text)), chars(text.trim()), "{:?}", text);
        let expected: Vec<Vec<char>> = text.split_whitespace().map(chars).collect();
        assert_eq!(split_whitespace(&chars(text)), expected, "{:?}", text);
    }
    for text in ["", ".", "a", "a.", "a..", "a.b..", "...", ".a"] {
        assert_eq!(
            trim_end_matches(&chars(text), '.'),
            chars(text.trim_end_matches('.')),
            "{:?}",
            text
        );
    }
    for text in ["", "#", "a#b", "a # b # c", "abc"] {
        let expected = text.split('#').next().unwrap();
        assert_eq!(take_before(&chars(text), '#'), chars(expected), "{:?}", text);
    }
    assert_eq!(chars_of("héllo"), chars("héllo"));
    assert_eq!(string_of(&chars("héllo")), "héllo");
    assert_eq!(string_of(&vec![]), "");
    assert_eq!(slice_of(&chars("hello"), 1, 3), chars("el"));
    assert_eq!(find_from(&chars("a.b.c"), '.', 2), 3);
    assert_eq!(find_from(&chars("a.b.c"), '.', 4), 5);
}

#[test]
fn names_are_read_one_on_a_line() {
    let text = "ads.example.com\n  Tracker.example.net.  \n\n..\nsite.example...\n";
    assert_eq!(
        read_names(&list(text)),
        Ok(vec![
            name("ads.example.com."),
            name("tracker.example.net."),
            name("site.example."),
        ])
    );
    assert_eq!(read_names(&None), Ok(vec![]));
    assert_eq!(read_names(&list("")), Ok(vec![]));
    assert_eq!(read_names(&list("good.example\nbad name\n")), Err(ConfigError::Domain));
    assert_eq!(read_names(&list("example.com .")), Err(ConfigError::Domain));
}

#[test]
fn block_list_is_a_set() {
    let settings = settings(None);
    let blocked = settings
        .get_blacklist(&list("a.example\nb.example\nA.EXAMPLE.\n"))
        .unwrap();
    assert_eq!(blocked.len(), 2);
    assert!(blocked.contains(&name("a.example.")));
    assert!(blocked.contains(&name("b.example.")));
    assert!(!blocked.contains(&name("c.example.")));
    assert_eq!(blocked.get(0), Some(&name("a.example.")));
    assert_eq!(blocked.get(1), Some(&name("b.example.")));
    assert_eq!(blocked.get(2), None);
    assert!(settings.get_blacklist(&None).unwrap().is_empty());
    assert_eq!(
        settings.get_blacklist(&list("a b")).err(),
        Some(ConfigError::Domain)
    );
}

#[test]
fn networks_are_read_one_on_a_line() {
    let text = " 10.0.0.0/8 \n\nfd00::/8\n192.168.1.1/16";
    let expected = vec![
        IpRange::new(0x0a00_0000, 0x0aff_ffff).unwrap(),
        IpRange::new(0xfd00 << 112, (0xfe00 << 112) - 1).unwrap(),
        IpRange::new(0xc0a8_0000, 0xc0a8_ffff).unwrap(),
    ];
    assert_eq!(read_networks(&list(text)), Ok(expected.clone()));
    assert_eq!(settings(None).get_networks(&list(text)), Ok(expected));
    assert_eq!(read_networks(&None), Ok(vec![]));
    assert_eq!(read_networks(&list("10.0.0.0/8\n10.0.0.0\n")), Err(ConfigError::Network));
    assert_eq!(read_networks(&list("10.0.0.0 /8")), Err(ConfigError::Network));
}

#[test]
fn nat64_networks_are_sorted() {
    let settings = settings(None);
    let index = settings
        .get_rfc8215_ips(&list("fd00::/8\n172.16.0.0/12\n10.0.0.0/8\n192.168.0.0/16\n"))
        .unwrap();
    assert_eq!(index.len(), 4);
    assert_eq!(index.get(0), Some(IpRange::try_from("10.0.0.0/8").unwrap()));
    assert_eq!(index.get(1), Some(IpRange::try_from("172.16.0.0/12").unwrap()));
    assert_eq!(index.get(2), Some(IpRange::try_from("192.168.0.0/16").unwrap()));
    assert_eq!(index.get(3), Some(IpRange::try_from("fd00::/8").unwrap()));
    assert_eq!(index.get(4), None);
    assert!(index.contains(IpAddress::V4(0x0a01_0203)));
    assert_eq!(settings.get_rfc8215_ips(&None).unwrap().len(), 0);
    assert_eq!(
        settings.get_rfc8215_ips(&list("nonsense")).err(),
        Some(ConfigError::Network)
    );
}

fn query(text: &str, source: IpAddress) -> QueryContext {
    QueryContext {
        name: name(text),
        query_type: RecordType::A,
        query_class: 1,
        source,
        protocol: Protocol::Tcp,
    }
}

#[test]
fn catalog_is_built_from_the_lists() {
    let settings = settings(None);
    let catalog = settings
        .generate_catalog(
            &list("tracking.example.com\nads.example.net.\ntracking.example.com\n"),
            &list("ads.example.com\n"),
            &list("fd00::/8\n"),
        )
        .unwrap();
    assert_eq!(catalog.find_index(&name("deep.tracking.example.com.")), Some(0));
    assert_eq!(catalog.find_index(&name("ads.example.net.")), Some(1));
    assert_eq!(catalog.find_index(&name("example.net.")), Some(2));
    let chain = catalog.find(&name("x.ads.example.net.")).unwrap();
    assert_eq!(chain.len(), 1);
    match &chain[0] {
        Authority::ZoneBlacklist(authority) => {
            assert_eq!(authority.origin(), &name("ads.example.net."))
        }
        other => panic!("{:?}", other),
    }
    let root = catalog.find(&DomainName::root()).unwrap();
    assert_eq!(root.len(), 1);
    assert!(matches!(root[0], Authority::DomainBlacklist(_)));
    let client = IpAddress::V4(1);
    assert_eq!(
        catalog.lookup(&query("ads.example.com.", client)),
        DecisionOutcome::Refuse(ResponseCode::NoError)
    );
    assert_eq!(
        catalog.lookup(&query("a.tracking.example.com.", client)),
        DecisionOutcome::Refuse(ResponseCode::NoError)
    );
    assert_eq!(catalog.lookup(&query("example.com.", client)), DecisionOutcome::Defer);
}

#[test]
fn catalog_without_lists_has_an_empty_root_chain() {
    let catalog = settings(Some(7)).generate_catalog(&None, &None, &None).unwrap();
    assert_eq!(catalog.find_index(&name("example.com.")), Some(0));
    assert_eq!(catalog.find(&name("example.com.")).unwrap().len(), 0);
    let empty = settings(Some(7)).generate_catalog(&None, &list("\n \n"), &None).unwrap();
    assert_eq!(empty.find(&name("example.com.")).unwrap().len(), 0);
}

#[test]
fn catalog_gives_the_default_ip_to_its_authorities() {
    let catalog = settings(Some(0x0a00_0001))
        .generate_catalog(&list("zone.example"), &list("name.example"), &None)
        .unwrap();
    for text in ["zone.example.", "name.example."] {
        match catalog.lookup(&query(text, IpAddress::V4(1))) {
            DecisionOutcome::Answer(lookup) => {
                assert_eq!(lookup.records.len(), 1);
                assert_eq!(
                    lookup.records[0].data,
                    dns_server::record::RecordData::A(0x0a00_0001)
                );
            }
            other => panic!("{:?}", other),
        }
    }
}

#[test]
fn first_rejected_list_ends_the_building() {
    let settings = settings(None);
    let bad_names = list("a b");
    let bad_networks = list("a b");
    let good = list("example.com");
    assert_eq!(
        settings.generate_catalog(&bad_names, &good, &bad_networks).err(),
        Some(ConfigError::Domain)
    );
    assert_eq!(
        settings.generate_catalog(&good, &bad_names, &bad_networks).err(),
        Some(ConfigError::Domain)
    );
    assert_eq!(
        settings.generate_catalog(&good, &good, &bad_networks).err(),
        Some(ConfigError::Network)
    );
}

#[test]
fn local_table_text_is_taken_apart_into_entries() {
    let text = "# local names\n10.0.0.1 printer printer.lan. # the printer\n\n   \nfd00::5\tnas.lan\nlonely\n10.0.0.2 a.. #b\n#10.0.0.3 c\n";
    let pair = |ip: &str, name: &str| (chars(ip), chars(name));
    assert_eq!(
        local_dns_entries(text),
        vec![
            pair("10.0.0.1", "printer."),
            pair("10.0.0.1", "printer.lan."),
            pair("fd00::5", "nas.lan."),
            pair("10.0.0.2", "a."),
        ]
    );
    assert_eq!(local_dns_entries(""), vec![]);
}

#[test]
fn local_table_is_read_from_its_text() {
    let table = read_local_dns_file(
        "10.0.0.1 printer.lan Printer\nfd00::5 nas.lan\n10.0.0.9 printer.lan # moved\n",
    )
    .unwrap();
    assert_eq!(table.get(&name("printer.lan.")), Some(IpAddress::V4(0x0a00_0009)));
    assert_eq!(table.get(&name("printer.")), Some(IpAddress::V4(0x0a00_0001)));
    assert_eq!(
        table.get(&name("nas.lan.")),
        Some(IpAddress::V6(0xfd00_0000_0000_0000_0000_0000_0000_0005))
    );
    assert_eq!(table.get(&name("lan.")), None);
    assert_eq!(read_local_dns_file("").unwrap().get(&name("printer.lan.")), None);
}

#[test]
fn local_table_with_a_bad_entry_is_rejected() {
    assert_eq!(
        read_local_dns_file("10.0.0.1 printer.lan\n10.0.0 nas.lan\n").err(),
        Some(RefreshFailure::Malformed)
    );
    assert_eq!(
        read_local_dns_file("printer.lan 10.0.0.1\n").err(),
        Some(RefreshFailure::Malformed)
    );
    let long = format!("10.0.0.1 {}.lan\n", "a".repeat(64));
    assert_eq!(read_local_dns_file(&long).err(), Some(RefreshFailure::Malformed));
    assert_eq!(
        load_entries(&vec![(chars("::1"), chars("ok.")), (chars("::1"), chars("not ok."))]).err(),
        Some(RefreshFailure::Malformed)
    );
    assert!(load_entries(&vec![]).is_ok());
}
