use dns_server::client::{parse_u16, same_text, ClientError, ClientType, ClientTypeParser};
use dns_server::ip::IpAddress;
use hickory_server::proto::rr::rdata::{A, AAAA};

fn ipv4(ip: &str) -> IpAddress {
    let address = IpAddress::parse(ip).unwrap();
    assert!(matches!(address, IpAddress::V4(_)));
    address
}

fn ipv6(ip: &str) -> IpAddress {
    let address = IpAddress::parse(ip).unwrap();
    assert!(matches!(address, IpAddress::V6(_)));
    address
}

#[test]
pub fn covert_custom_dns() {
    let ip4 = ClientType::try_from("1.1.1.1");
    let ip4_port = ClientType::try_from("1.1.1.1:1053");
    let ip6 = ClientType::try_from("[2606:4700:4700::1111]");
    let ip6_port = ClientType::try_from("[2606:4700:4700::1111]:1053");

    assert!(ip4.is_ok());
    assert!(ip4_port.is_ok());
    assert!(ip6.is_ok());
    assert!(ip6_port.is_ok());

    assert_eq!(ip4.unwrap(), ClientType::CustomDNS(ipv4("1.1.1.1"), 53));
    assert_eq!(
        ip4_port.unwrap(),
        ClientType::CustomDNS(ipv4("1.1.1.1"), 1053)
    );
    assert_eq!(
        ip6.unwrap(),
        ClientType::CustomDNS(ipv6("2606:4700:4700::1111"), 53)
    );
    assert_eq!(
        ip6_port.unwrap(),
        ClientType::CustomDNS(ipv6("2606:4700:4700::1111"), 1053)
    );

    assert!(ClientType::try_from("1.1.1.1:-53").is_err());
    assert!(ClientType::try_from("1.1.1.1:0").is_err());
    assert!(ClientType::try_from("2606:4700:4700::111").is_err());
    assert!(ClientType::try_from("6:4:4:2:1").is_err());
    assert!(ClientType::try_from("example.com:53").is_err());
    assert!(ClientType::try_from("example.com").is_err());
    assert!(ClientType::try_from("256.255.254.253").is_err());
}

#[test]
pub fn covert_custom_tls() {
    let cloudflare = "cloudflare-dns.com";
    let ip4 = ClientType::try_from("1.1.1.1:tls:cloudflare-dns.com");
    let ip4_port = ClientType::try_from("1.1.1.1:1853:tls:cloudflare-dns.com");
    let ip6 = ClientType::try_from("[2606:4700:4700::1111]:tls:cloudflare-dns.com");
    let ip6_port = ClientType::try_from("[2606:4700:4700::1111]:1853:tls:cloudflare-dns.com");

    assert!(ip4.is_ok());
    assert!(ip4_port.is_ok());

    assert_eq!(
        ip4.unwrap(),
        ClientType::CustomTLS(ipv4("1.1.1.1"), cloudflare.to_string(), 853)
    );
    assert_eq!(
        ip4_port.unwrap(),
        ClientType::CustomTLS(ipv4("1.1.1.1"), cloudflare.to_string(), 1853)
    );
    assert_eq!(
        ip6.unwrap(),
        ClientType::CustomTLS(ipv6("2606:4700:4700::1111"), cloudflare.to_string(), 853)
    );
    assert_eq!(
        ip6_port.unwrap(),
        ClientType::CustomTLS(ipv6("2606:4700:4700::1111"), cloudflare.to_string(), 1853)
    );

    assert!(ClientType::try_from("1.1.1.1:853:tls").is_err());
    assert!(ClientType::try_from("1.1.1.1:-853:tls:cloudflare-dns.com").is_err());
    assert!(ClientType::try_from("1.1.1.1:0:tls:cloudflare-dns.com").is_err());
    assert!(ClientType::try_from("example.com:853:tls:cloudflare-dns.com").is_err());
    assert!(ClientType::try_from("example.com:tls:cloudflare-dns.com").is_err());
    assert!(ClientType::try_from("256.255.254.253:tls:cloudflare-dns.com").is_err());
}

#[test]
pub fn covert_custom_h2() {
    let cloudflare = "cloudflare-dns.com";
    let ip4 = ClientType::try_from("1.1.1.1:h2:cloudflare-dns.com");
    let ip4_port = ClientType::try_from("1.1.1.1:1443:h2:cloudflare-dns.com");
    let ip6 = ClientType::try_from("[2606:4700:4700::1111]:h2:cloudflare-dns.com");
    let ip6_port = ClientType::try_from("[2606:4700:4700::1111]:1443:h2:cloudflare-dns.com");

    assert!(ip4.is_ok());
    assert!(ip4_port.is_ok());

    assert_eq!(
        ip4.unwrap(),
        ClientType::CustomH2(ipv4("1.1.1.1"), cloudflare.to_string(), 443)
    );
    assert_eq!(
        ip4_port.unwrap(),
        ClientType::CustomH2(ipv4("1.1.1.1"), cloudflare.to_string(), 1443)
    );
    assert_eq!(
        ip6.unwrap(),
        ClientType::CustomH2(ipv6("2606:4700:4700::1111"), cloudflare.to_string(), 443)
    );
    assert_eq!(
        ip6_port.unwrap(),
        ClientType::CustomH2(ipv6("2606:4700:4700::1111"), cloudflare.to_string(), 1443)
    );

    assert!(ClientType::try_from("1.1.1.1:443:h2").is_err());
    assert!(ClientType::try_from("1.1.1.1:-443:h2:cloudflare-dns.com").is_err());
    assert!(ClientType::try_from("1.1.1.1:0:h2:cloudflare-dns.com").is_err());
    assert!(ClientType::try_from("6:4700:4700::111:h2:cloudflare-dns.com").is_err());
    assert!(ClientType::try_from("example.com:443:h2:cloudflare-dns.com").is_err());
    assert!(ClientType::try_from("example.com:h2:cloudflare-dns.com").is_err());
    assert!(ClientType::try_from("256.255.254.253:h2:cloudflare-dns.com").is_err());
}

#[test]
fn addresses_are_read_to_their_bits() {
    assert_eq!(IpAddress::parse("1.2.3.4"), Some(IpAddress::V4(0x0102_0304)));
    assert_eq!(IpAddress::parse("255.255.255.255"), Some(IpAddress::V4(u32::MAX)));
    assert_eq!(IpAddress::parse("1.2.3"), None);
    assert_eq!(IpAddress::parse("01.2.3.4"), None);
    assert_eq!(IpAddress::parse("1.2.3.4 "), None);
    assert_eq!(IpAddress::parse("::1"), Some(IpAddress::V6(1)));
    assert_eq!(
        IpAddress::parse("2606:4700:4700::1111"),
        Some(IpAddress::V6(0x2606_4700_4700_0000_0000_0000_0000_1111))
    );
    assert_eq!(IpAddress::parse("1::2::3"), None);
    assert_eq!(IpAddress::parse("[::1]"), None);
    assert_eq!(IpAddress::parse("::ffff:1.2.3.4"), Some(IpAddress::V6(0xffff_0102_0304)));
    assert_eq!(IpAddress::parse("example.com"), None);
    assert_eq!(IpAddress::parse(""), None);
}

#[test]
fn each_error_has_its_input_and_its_words() {
    let cases: Vec<(&str, ClientError, &str)> = vec![
        ("example.com", ClientError::NoMatch, ""),
        ("256.255.254.253", ClientError::Ipv4Syntax, "invalid IPv4 address syntax"),
        ("1a1b1c1", ClientError::Ipv4Syntax, "invalid IPv4 address syntax"),
        ("[6:4:4:2:1]", ClientError::Ipv6Syntax, "invalid IPv6 address syntax"),
        ("1.1.1.1:65536", ClientError::PortTooLarge, "number too large to fit in target type"),
        ("1.1.1.1:\u{663}", ClientError::PortInvalid, "invalid digit found in string"),
        ("1.1.1.1:0", ClientError::PortZero, "Port must be greater than 0. found 0"),
        ("1.1.1.1:000", ClientError::PortZero, "Port must be greater than 0. found 0"),
    ];
    for (text, error, words) in cases {
        assert_eq!(ClientType::try_from(text), Err(error.clone()), "{}", text);
        assert_eq!(error.to_string(), words);
    }
    assert_eq!(
        ClientError::AddressNotFound.to_string(),
        "IP of the dns server not found"
    );
    assert_eq!(
        ClientError::PortEmpty.to_string(),
        "cannot parse integer from empty string"
    );
    for text in ["", "+", "x", "65536"] {
        let by_std = text.parse::<u16>().map_err(|error| format!("{}", error));
        let by_us = parse_u16(text).map_err(|error| error.to_string());
        assert_eq!(by_us, by_std, "{:?}", text);
    }
    assert_eq!(ClientError::NoDomain.to_string(), "No domain found for TLS connection.");
    assert_eq!(
        ClientError::UnsupportedProtocol("quic".to_string()).to_string(),
        "The protocol quic is not supported"
    );
}

#[test]
fn address_comes_before_port_in_errors() {
    assert_eq!(ClientType::try_from("256.1.1.1:0"), Err(ClientError::Ipv4Syntax));
    assert_eq!(ClientType::try_from("[::g]:0"), Err(ClientError::NoMatch));
    assert_eq!(ClientType::try_from("[1::2::3]:0"), Err(ClientError::Ipv6Syntax));
}

#[test]
fn odd_forms_that_the_pattern_takes() {
    assert_eq!(
        ClientType::try_from("1.1.1.1:"),
        Ok(ClientType::CustomDNS(ipv4("1.1.1.1"), 53))
    );
    assert_eq!(
        ClientType::try_from("1.1.1.1::"),
        Ok(ClientType::CustomDNS(ipv4("1.1.1.1"), 53))
    );
    assert_eq!(
        ClientType::try_from("1.1.1.1:0053:"),
        Ok(ClientType::CustomDNS(ipv4("1.1.1.1"), 53))
    );
    assert_eq!(
        ClientType::try_from("1.1.1.1::tls:"),
        Ok(ClientType::CustomTLS(ipv4("1.1.1.1"), String::new(), 853))
    );
    assert_eq!(
        ClientType::try_from("1.1.1.1:65535:h2:a:b"),
        Ok(ClientType::CustomH2(ipv4("1.1.1.1"), "a:b".to_string(), 65535))
    );
}

#[test]
fn from_captures_reads_the_parts() {
    let text = |t: &str| Some(t.to_string());
    assert_eq!(
        ClientType::from_captures(text("1.1.1.1"), None, None, None, None),
        Ok(ClientType::CustomDNS(ipv4("1.1.1.1"), 53))
    );
    assert_eq!(
        ClientType::from_captures(text("1.1.1.1"), text("::1"), text("5"), None, None),
        Ok(ClientType::CustomDNS(IpAddress::V6(1), 5))
    );
    assert_eq!(
        ClientType::from_captures(None, None, text("5"), None, None),
        Err(ClientError::AddressNotFound)
    );
    assert_eq!(
        ClientType::from_captures(text("1.1.1.1"), None, text("+7"), text("tls"), text("d")),
        Ok(ClientType::CustomTLS(ipv4("1.1.1.1"), "d".to_string(), 7))
    );
    assert_eq!(
        ClientType::from_captures(text("1.1.1.1"), None, text(""), None, None),
        Err(ClientError::PortEmpty)
    );
    assert_eq!(
        ClientType::from_captures(text("1.1.1.1"), None, text("+"), None, None),
        Err(ClientError::PortInvalid)
    );
    assert_eq!(
        ClientType::from_captures(text("1.1.1.1"), None, None, text("tls"), None),
        Err(ClientError::NoDomain)
    );
    assert_eq!(
        ClientType::from_captures(text("1.1.1.1"), None, None, text("h2"), None),
        Err(ClientError::NoDomain)
    );
    assert_eq!(
        ClientType::from_captures(text("1.1.1.1"), None, None, text("quic"), text("d")),
        Err(ClientError::UnsupportedProtocol("quic".to_string()))
    );
}

#[test]
fn assemble_takes_the_default_port_of_the_protocol() {
    let ip = IpAddress::V4(1);
    assert_eq!(ClientType::assemble(ip, None, None, None), Ok(ClientType::CustomDNS(ip, 53)));
    assert_eq!(
        ClientType::assemble(ip, Some(9), None, Some("d".to_string())),
        Ok(ClientType::CustomDNS(ip, 9))
    );
    assert_eq!(
        ClientType::assemble(ip, None, Some("tls".to_string()), Some("d".to_string())),
        Ok(ClientType::CustomTLS(ip, "d".to_string(), 853))
    );
    assert_eq!(
        ClientType::assemble(ip, None, Some("h2".to_string()), Some("d".to_string())),
        Ok(ClientType::CustomH2(ip, "d".to_string(), 443))
    );
    assert_eq!(
        ClientType::assemble(ip, Some(1), Some("h2".to_string()), Some("d".to_string())),
        Ok(ClientType::CustomH2(ip, "d".to_string(), 1))
    );
}

#[test]
fn parse_u16_reads_decimal_digits() {
    assert_eq!(parse_u16("0"), Ok(0));
    assert_eq!(parse_u16("65535"), Ok(65535));
    assert_eq!(parse_u16("+12"), Ok(12));
    assert_eq!(parse_u16("00012"), Ok(12));
    assert_eq!(parse_u16("65536"), Err(ClientError::PortTooLarge));
    assert_eq!(parse_u16("99999x"), Err(ClientError::PortTooLarge));
    assert_eq!(parse_u16("9x9999"), Err(ClientError::PortInvalid));
    assert_eq!(parse_u16(""), Err(ClientError::PortEmpty));
    assert_eq!(parse_u16("+"), Err(ClientError::PortInvalid));
    assert_eq!(parse_u16("-1"), Err(ClientError::PortInvalid));
    assert_eq!(parse_u16("1 "), Err(ClientError::PortInvalid));
    for text in ["0", "65535", "+12", "00012", "65536", "", "+", "-1", "1_0", "٣"] {
        assert_eq!(parse_u16(text).ok(), text.parse::<u16>().ok(), "{}", text);
    }
}

#[test]
fn same_text_compares_characters() {
    assert!(same_text("", ""));
    assert!(same_text("tls", "tls"));
    assert!(!same_text("tls", "tl"));
    assert!(!same_text("tls", "tlS"));
    assert!(!same_text("h2", "tls"));
}

#[test]
fn parser_reads_public_resolvers_by_name() {
    let parser = ClientTypeParser::new();
    assert_eq!(parser, ClientTypeParser {});
    assert_eq!(parser.parse("cloudflare"), Ok(ClientType::CloudFlare));
    assert_eq!(parser.parse("google"), Ok(ClientType::Google));
    assert_eq!(parser.parse("cloudflare:tls"), Ok(ClientType::CloudFlareTLS));
    assert_eq!(parser.parse("google:tls"), Ok(ClientType::GoogleTLS));
    assert_eq!(parser.parse("cloudflare:h2"), Ok(ClientType::CloudFlareH2));
    assert_eq!(parser.parse("google:h2"), Ok(ClientType::GoogleH2));
    assert_eq!(parser.parse("CloudFlare:H2"), Ok(ClientType::CloudFlareH2));
    assert_eq!(parser.parse("GOOGLE"), Ok(ClientType::Google));
}

#[test]
fn parser_reads_resolvers_by_address_in_small_letters() {
    let parser = ClientTypeParser::new();
    assert_eq!(
        parser.parse("1.1.1.1:TLS:Cloudflare-DNS.com"),
        Ok(ClientType::CustomTLS(ipv4("1.1.1.1"), "cloudflare-dns.com".to_string(), 853))
    );
    assert_eq!(
        parser.parse("[2606:4700:4700::AB]"),
        Ok(ClientType::CustomDNS(ipv6("2606:4700:4700::ab"), 53))
    );
    assert_eq!(parser.parse("quad9"), Err(ClientError::NoMatch));
    assert_eq!(parser.parse(""), Err(ClientError::NoMatch));
}

#[test]
fn possible_vals_lists_the_forms() {
    assert_eq!(
        ClientTypeParser::possible_vals(),
        vec![
            "cloudflare",
            "google",
            "cloudflare:tls",
            "google:tls",
            "cloudflare:h2",
            "google:h2",
            "ipv4:port",
            "[ipv6]:port",
            "ipv4:port:<tls|h2>:domain",
            "[ipv6]:port:<tls|h2>:domain",
        ]
    );
}

#[test]
fn address_errors_have_the_words_of_std() {
    let v4 = "256.1.1.1".parse::<A>().unwrap_err();
    assert_eq!(ClientError::Ipv4Syntax.to_string(), v4.to_string());
    let v6 = "1::2::3".parse::<AAAA>().unwrap_err();
    assert_eq!(ClientError::Ipv6Syntax.to_string(), v6.to_string());
}

#[test]
fn addresses_are_read_as_std_reads_them() {
    for text in ["1.2.3.4", "0.0.0.0", "1.2.3.04", "1.2.3", "1.2.3.4.5", " 1.2.3.4", "::", "::1", "1::", "::ffff:1.2.3.4", "1:2:3:4:5:6:7:8", "1:2:3:4:5:6:7:8:9", "fe80::1%eth0", "g::1", ""] {
        let expected = match (text.parse::<A>(), text.parse::<AAAA>()) {
            (Ok(ip), _) => Some(IpAddress::V4(u32::from(ip.0))),
            (_, Ok(ip)) => Some(IpAddress::V6(u128::from(ip.0))),
            _ => None,
        };
        assert_eq!(IpAddress::parse(text), expected, "{:?}", text);
    }
    assert_eq!(IpAddress::parse("1.2.3.04"), None);
    assert_eq!(IpAddress::parse("::ffff:1.2.3.4"), Some(IpAddress::V6(0xffff_0102_0304)));
}

#[test]
fn lowered_text_is_read_as_a_preset_or_an_address() {
    assert_eq!(ClientTypeParser::parse_lowered("cloudflare"), Ok(ClientType::CloudFlare));
    assert_eq!(ClientTypeParser::parse_lowered("google"), Ok(ClientType::Google));
    assert_eq!(ClientTypeParser::parse_lowered("cloudflare:tls"), Ok(ClientType::CloudFlareTLS));
    assert_eq!(ClientTypeParser::parse_lowered("google:tls"), Ok(ClientType::GoogleTLS));
    assert_eq!(ClientTypeParser::parse_lowered("cloudflare:h2"), Ok(ClientType::CloudFlareH2));
    assert_eq!(ClientTypeParser::parse_lowered("google:h2"), Ok(ClientType::GoogleH2));
    assert_eq!(ClientTypeParser::parse_lowered("Google"), Err(ClientError::NoMatch));
    assert_eq!(ClientTypeParser::parse_lowered("google:"), Err(ClientError::NoMatch));
    assert_eq!(
        ClientTypeParser::parse_lowered("1.1.1.1:h2:d"),
        Ok(ClientType::CustomH2(ipv4("1.1.1.1"), "d".to_string(), 443))
    );
}
