use crate::ip::{parse_ipv4, parse_ipv6, parsed_ipv4, parsed_ipv6, IpAddress};
use crate::text::chars_of;
use vstd::prelude::*;

verus! {

/// The port of plain DNS.
pub const DNS_PORT: u16 = 53;

/// The port of DNS over TLS.
pub const TLS_PORT: u16 = 853;

/// The port of DNS over HTTPS.
pub const H2_PORT: u16 = 443;

/// Why a text is no upstream resolver.
#[derive(Debug, PartialEq, Eq)]
pub enum ClientError {
    /// The text has not the form of an address with a port, a protocol and a
    /// domain.
    NoMatch,
    /// The text holds no address.
    AddressNotFound,
    /// The address is no IPv4 address.
    Ipv4Syntax,
    /// The address between the brackets is no IPv6 address.
    Ipv6Syntax,
    /// The port is an empty text.
    PortEmpty,
    /// The port holds a character that is no digit.
    PortInvalid,
    /// The port is above 65535.
    PortTooLarge,
    /// The port is 0.
    PortZero,
    /// The protocol needs a domain and there is none.
    NoDomain,
    /// The protocol is neither `tls` nor `h2`.
    UnsupportedProtocol(String),
}

/// Why a text is no upstream resolver, as a value of specifications.
pub enum ClientErrorView {
    NoMatch,
    AddressNotFound,
    Ipv4Syntax,
    Ipv6Syntax,
    PortEmpty,
    PortInvalid,
    PortTooLarge,
    PortZero,
    NoDomain,
    UnsupportedProtocol(Seq<char>),
}

impl View for ClientError {
    type V = ClientErrorView;

    open spec fn view(&self) -> ClientErrorView {
        match self {
            ClientError::NoMatch => ClientErrorView::NoMatch,
            ClientError::AddressNotFound => ClientErrorView::AddressNotFound,
            ClientError::Ipv4Syntax => ClientErrorView::Ipv4Syntax,
            ClientError::Ipv6Syntax => ClientErrorView::Ipv6Syntax,
            ClientError::PortEmpty => ClientErrorView::PortEmpty,
            ClientError::PortInvalid => ClientErrorView::PortInvalid,
            ClientError::PortTooLarge => ClientErrorView::PortTooLarge,
            ClientError::PortZero => ClientErrorView::PortZero,
            ClientError::NoDomain => ClientErrorView::NoDomain,
            ClientError::UnsupportedProtocol(protocol) => ClientErrorView::UnsupportedProtocol(
                protocol@,
            ),
        }
    }
}

/// The upstream resolver that the server forwards to, as a value of
/// specifications.
pub enum ClientTypeView {
    CloudFlare,
    Google,
    CloudFlareTLS,
    GoogleTLS,
    CloudFlareH2,
    GoogleH2,
    CustomDNS(IpAddress, u16),
    CustomTLS(IpAddress, Seq<char>, u16),
    CustomH2(IpAddress, Seq<char>, u16),
}

/// The upstream resolver that the server forwards to: a public resolver by
/// name, or a resolver by address, with its port and, for TLS and HTTPS, the
/// domain of its certificate.
#[derive(Debug, PartialEq)]
pub enum ClientType {
    CloudFlare,
    Google,
    CloudFlareTLS,
    GoogleTLS,
    CloudFlareH2,
    GoogleH2,
    CustomDNS(IpAddress, u16),
    CustomTLS(IpAddress, String, u16),
    CustomH2(IpAddress, String, u16),
}

impl View for ClientType {
    type V = ClientTypeView;

    open spec fn view(&self) -> ClientTypeView {
        match self {
            ClientType::CloudFlare => ClientTypeView::CloudFlare,
            ClientType::Google => ClientTypeView::Google,
            ClientType::CloudFlareTLS => ClientTypeView::CloudFlareTLS,
            ClientType::GoogleTLS => ClientTypeView::GoogleTLS,
            ClientType::CloudFlareH2 => ClientTypeView::CloudFlareH2,
            ClientType::GoogleH2 => ClientTypeView::GoogleH2,
            ClientType::CustomDNS(ip, port) => ClientTypeView::CustomDNS(*ip, *port),
            ClientType::CustomTLS(ip, domain, port) => ClientTypeView::CustomTLS(
                *ip,
                domain@,
                *port,
            ),
            ClientType::CustomH2(ip, domain, port) => ClientTypeView::CustomH2(*ip, domain@, *port),
        }
    }
}

impl Clone for ClientError {
    fn clone(&self) -> (copy: Self)
        ensures
            copy@ == self@,
    {
        match self {
            ClientError::NoMatch => ClientError::NoMatch,
            ClientError::AddressNotFound => ClientError::AddressNotFound,
            ClientError::Ipv4Syntax => ClientError::Ipv4Syntax,
            ClientError::Ipv6Syntax => ClientError::Ipv6Syntax,
            ClientError::PortEmpty => ClientError::PortEmpty,
            ClientError::PortInvalid => ClientError::PortInvalid,
            ClientError::PortTooLarge => ClientError::PortTooLarge,
            ClientError::PortZero => ClientError::PortZero,
            ClientError::NoDomain => ClientError::NoDomain,
            ClientError::UnsupportedProtocol(protocol) => ClientError::UnsupportedProtocol(
                protocol.clone(),
            ),
        }
    }
}

impl Clone for ClientType {
    fn clone(&self) -> (copy: Self)
        ensures
            copy@ == self@,
    {
        match self {
            ClientType::CloudFlare => ClientType::CloudFlare,
            ClientType::Google => ClientType::Google,
            ClientType::CloudFlareTLS => ClientType::CloudFlareTLS,
            ClientType::GoogleTLS => ClientType::GoogleTLS,
            ClientType::CloudFlareH2 => ClientType::CloudFlareH2,
            ClientType::GoogleH2 => ClientType::GoogleH2,
            ClientType::CustomDNS(ip, port) => ClientType::CustomDNS(*ip, *port),
            ClientType::CustomTLS(ip, domain, port) => ClientType::CustomTLS(
                *ip,
                domain.clone(),
                *port,
            ),
            ClientType::CustomH2(ip, domain, port) => ClientType::CustomH2(
                *ip,
                domain.clone(),
                *port,
            ),
        }
    }
}

/// The value of a decimal digit.
pub open spec fn digit_of(c: char) -> Option<nat> {
    if '0' <= c <= '9' {
        Some((c as u32 - '0' as u32) as nat)
    } else {
        None
    }
}

/// The number that the digits from `at` on make of `so_far`, read from the
/// left: a character that is no digit ends the reading, and so does a number
/// above 65535.
pub open spec fn read_number(s: Seq<char>, at: int, so_far: nat) -> Result<u16, ClientErrorView>
    decreases s.len() - at,
{
    if at < 0 || at >= s.len() {
        Ok(so_far as u16)
    } else {
        match digit_of(s[at]) {
            None => Err(ClientErrorView::PortInvalid),
            Some(digit) => if so_far * 10 + digit > u16::MAX {
                Err(ClientErrorView::PortTooLarge)
            } else {
                read_number(s, at + 1, so_far * 10 + digit)
            },
        }
    }
}

/// The number that a text stands for: decimal digits, after a `+` or not.
/// There has to be a digit.
pub open spec fn number_of(s: Seq<char>) -> Result<u16, ClientErrorView> {
    let from: int = if s.len() > 0 && s[0] == '+' {
        1
    } else {
        0
    };
    if s.len() == 0 {
        Err(ClientErrorView::PortEmpty)
    } else if s.len() <= from {
        Err(ClientErrorView::PortInvalid)
    } else {
        read_number(s, from, 0)
    }
}

/// The port that a text stands for, if there is a text: a number that is
/// not 0.
pub open spec fn port_of(text: Option<Seq<char>>) -> Result<Option<u16>, ClientErrorView> {
    match text {
        None => Ok(None),
        Some(text) => match number_of(text) {
            Ok(port) => if port > 0 {
                Ok(Some(port))
            } else {
                Err(ClientErrorView::PortZero)
            },
            Err(error) => Err(error),
        },
    }
}

/// The address that the captured texts stand for: the IPv6 address where
/// there is one between brackets, else the IPv4 address.
pub open spec fn address_of(ipv4: Option<Seq<char>>, ipv6: Option<Seq<char>>) -> Result<
    IpAddress,
    ClientErrorView,
> {
    match ipv6 {
        Some(text) => match parsed_ipv6(text) {
            Some(bits) => Ok(IpAddress::V6(bits)),
            None => Err(ClientErrorView::Ipv6Syntax),
        },
        None => match ipv4 {
            Some(text) => match parsed_ipv4(text) {
                Some(bits) => Ok(IpAddress::V4(bits)),
                None => Err(ClientErrorView::Ipv4Syntax),
            },
            None => Err(ClientErrorView::AddressNotFound),
        },
    }
}

/// The port that is meant: the one given, or the default of the protocol.
pub open spec fn port_or(port: Option<u16>, default: u16) -> u16 {
    match port {
        Some(port) => port,
        None => default,
    }
}

/// The resolver at an address: by plain DNS where no protocol is given, by
/// TLS or HTTPS where `tls` or `h2` is, which need a domain.
pub open spec fn custom(
    ip: IpAddress,
    port: Option<u16>,
    protocol: Option<Seq<char>>,
    domain: Option<Seq<char>>,
) -> Result<ClientTypeView, ClientErrorView> {
    match protocol {
        None => Ok(ClientTypeView::CustomDNS(ip, port_or(port, DNS_PORT))),
        Some(protocol) => if protocol == "tls"@ {
            match domain {
                Some(domain) => Ok(ClientTypeView::CustomTLS(ip, domain, port_or(port, TLS_PORT))),
                None => Err(ClientErrorView::NoDomain),
            }
        } else if protocol == "h2"@ {
            match domain {
                Some(domain) => Ok(ClientTypeView::CustomH2(ip, domain, port_or(port, H2_PORT))),
                None => Err(ClientErrorView::NoDomain),
            }
        } else {
            Err(ClientErrorView::UnsupportedProtocol(protocol))
        },
    }
}

/// The resolver that the captured texts stand for. The address is read
/// first, then the port, then the protocol.
pub open spec fn client_of(
    ipv4: Option<Seq<char>>,
    ipv6: Option<Seq<char>>,
    port: Option<Seq<char>>,
    protocol: Option<Seq<char>>,
    domain: Option<Seq<char>>,
) -> Result<ClientTypeView, ClientErrorView> {
    match address_of(ipv4, ipv6) {
        Err(error) => Err(error),
        Ok(ip) => match port_of(port) {
            Err(error) => Err(error),
            Ok(port) => custom(ip, port, protocol, domain),
        },
    }
}

/// A text that may be missing, as a value of specifications.
pub open spec fn text_view(text: Option<String>) -> Option<Seq<char>> {
    match text {
        Some(text) => Some(text@),
        None => None,
    }
}

/// What a reading came to, as a value of specifications.
pub open spec fn client_view(client: Result<ClientType, ClientError>) -> Result<
    ClientTypeView,
    ClientErrorView,
> {
    match client {
        Ok(client) => Ok(client@),
        Err(error) => Err(error@),
    }
}

/// Whether the two texts hold the same characters.
pub fn same_text(a: &str, b: &str) -> (same: bool)
    ensures
        same == (a@ == b@),
{
    let left: Vec<char> = chars_of(a);
    let right: Vec<char> = chars_of(b);
    if left.len() != right.len() {
        return false;
    }
    let mut i: usize = 0;
    while i < left.len()
        invariant
            0 <= i <= left.len(),
            left.len() == right.len(),
            left@ == a@,
            right@ == b@,
            forall|k: int| 0 <= k < i ==> left@[k] == right@[k],
        decreases left.len() - i,
    {
        if left[i] != right[i] {
            return false;
        }
        i += 1;
    }
    assert(left@ =~= right@);
    true
}

/// Reads a number between 0 and 65535 from its decimal digits.
pub fn parse_u16(text: &str) -> (number: Result<u16, ClientError>)
    ensures
        match number {
            Ok(n) => number_of(text@) == Ok::<u16, ClientErrorView>(n),
            Err(error) => number_of(text@) == Err::<u16, ClientErrorView>(error@),
        },
{
    let chars: Vec<char> = chars_of(text);
    let from: usize = if chars.len() > 0 && chars[0] == '+' {
        1
    } else {
        0
    };
    if chars.len() == 0 {
        return Err(ClientError::PortEmpty);
    }
    if chars.len() <= from {
        return Err(ClientError::PortInvalid);
    }
    let mut at: usize = from;
    let mut so_far: u32 = 0;
    while at < chars.len()
        invariant
            from <= at <= chars.len(),
            so_far <= u16::MAX,
            chars@ == text@,
            number_of(text@) == read_number(chars@, from as int, 0),
            read_number(chars@, from as int, 0) == read_number(chars@, at as int, so_far as nat),
        decreases chars.len() - at,
    {
        let c: char = chars[at];
        if !('0' <= c && c <= '9') {
            return Err(ClientError::PortInvalid);
        }
        let digit: u32 = c as u32 - '0' as u32;
        let next: u32 = so_far * 10 + digit;
        if next > 65535 {
            return Err(ClientError::PortTooLarge);
        }
        so_far = next;
        at += 1;
    }
    Ok(so_far as u16)
}

/// The form of a resolver by address: an IPv4 address, or an IPv6 address
/// between brackets; then, each after a colon, a port, and a protocol with
/// a domain.
pub const CLIENT_PATTERN: &'static str =
    r"^((?<ipv4>\d+.\d+.\d+.\d+)|\[(?<ipv6>[a-fA-F0-9:]+)\])(:(?<port>\d+)?:?((?<proto>h2|tls):(?<domain>.*))?)?$";

/// The names of the parts of that form, in the order in which they are
/// asked for.
pub open spec fn client_groups() -> Seq<Seq<char>> {
    seq!["ipv4"@, "ipv6"@, "port"@, "proto"@, "domain"@]
}

/// The texts of a vector of names.
pub open spec fn name_views(names: Seq<&str>) -> Seq<Seq<char>> {
    Seq::new(names.len(), |i: int| names[i]@)
}

/// The texts of a vector of texts that may be missing.
pub open spec fn part_views(parts: Seq<Option<String>>) -> Seq<Option<Seq<char>>> {
    Seq::new(parts.len(), |i: int| text_view(parts[i]))
}

/// What the first match of a pattern in a text captured under each of the
/// given names, as `regex` finds it: for each name the captured text, or
/// `None` where that part took no part in the match. `None` where the text
/// has no match or `regex` rejects the pattern.
pub uninterp spec fn captured(pattern: Seq<char>, text: Seq<char>, groups: Seq<Seq<char>>) -> Option<
    Seq<Option<Seq<char>>>,
>;

/// Calls `regex::Regex::new` and `Regex::captures`, and for each name
/// `Captures::name` and `Match::as_str`. The contract names the outcome and
/// says that it has one entry for each name asked for.
#[verifier::external_body]
fn capture(pattern: &str, text: &str, groups: &Vec<&str>) -> (found: Option<Vec<Option<String>>>)
    ensures
        match found {
            Some(parts) => captured(pattern@, text@, name_views(groups@)) == Some(
                part_views(parts@),
            ) && parts@.len() == groups@.len(),
            None => captured(pattern@, text@, name_views(groups@)) is None,
        },
{
    let regex = regex::Regex::new(pattern).ok()?;
    let found = regex.captures(text)?;
    Some(groups.iter().map(|group| found.name(group).map(|part| part.as_str().to_string())).collect())
}

/// The text with its letters made small, as std does it.
pub uninterp spec fn lowercased(text: Seq<char>) -> Seq<char>;

/// Calls `str::to_lowercase` of std. The contract only names the outcome.
#[verifier::external_body]
fn lowercase(text: &str) -> (lowered: String)
    ensures
        lowered@ == lowercased(text@),
{
    text.to_lowercase()
}

/// The resolver that a text of the form of a resolver by address stands
/// for.
pub open spec fn custom_client(text: Seq<char>) -> Result<ClientTypeView, ClientErrorView> {
    match captured(CLIENT_PATTERN@, text, client_groups()) {
        Some(parts) => client_of(parts[0], parts[1], parts[2], parts[3], parts[4]),
        None => Err(ClientErrorView::NoMatch),
    }
}

/// The public resolver that a name stands for.
pub open spec fn named_client(text: Seq<char>) -> Option<ClientTypeView> {
    if text == "cloudflare"@ {
        Some(ClientTypeView::CloudFlare)
    } else if text == "google"@ {
        Some(ClientTypeView::Google)
    } else if text == "cloudflare:tls"@ {
        Some(ClientTypeView::CloudFlareTLS)
    } else if text == "google:tls"@ {
        Some(ClientTypeView::GoogleTLS)
    } else if text == "cloudflare:h2"@ {
        Some(ClientTypeView::CloudFlareH2)
    } else if text == "google:h2"@ {
        Some(ClientTypeView::GoogleH2)
    } else {
        None
    }
}

/// The resolver that a text in small letters stands for: a public resolver
/// by its name, else a resolver by address.
pub open spec fn lowered_client(text: Seq<char>) -> Result<ClientTypeView, ClientErrorView> {
    match named_client(text) {
        Some(client) => Ok(client),
        None => custom_client(text),
    }
}

/// The resolver that a text stands for, small and capital letters taken as
/// the same: what the text with its letters made small stands for.
pub open spec fn parsed_client(value: Seq<char>) -> Result<ClientTypeView, ClientErrorView> {
    lowered_client(lowercased(value))
}

impl ClientError {
    /// The error in words.
    pub open spec fn message(error: ClientErrorView) -> Seq<char> {
        match error {
            ClientErrorView::NoMatch => ""@,
            ClientErrorView::AddressNotFound => "IP of the dns server not found"@,
            ClientErrorView::Ipv4Syntax => "invalid IPv4 address syntax"@,
            ClientErrorView::Ipv6Syntax => "invalid IPv6 address syntax"@,
            ClientErrorView::PortEmpty => "cannot parse integer from empty string"@,
            ClientErrorView::PortInvalid => "invalid digit found in string"@,
            ClientErrorView::PortTooLarge => "number too large to fit in target type"@,
            ClientErrorView::PortZero => "Port must be greater than 0. found 0"@,
            ClientErrorView::NoDomain => "No domain found for TLS connection."@,
            ClientErrorView::UnsupportedProtocol(protocol) => "The protocol "@ + protocol
                + " is not supported"@,
        }
    }

    /// The error in words.
    pub fn to_string(&self) -> (text: String)
        ensures
            text@ == Self::message(self@),
    {
        match self {
            ClientError::NoMatch => String::from_str(""),
            ClientError::AddressNotFound => String::from_str("IP of the dns server not found"),
            ClientError::Ipv4Syntax => String::from_str("invalid IPv4 address syntax"),
            ClientError::Ipv6Syntax => String::from_str("invalid IPv6 address syntax"),
            ClientError::PortEmpty => String::from_str("cannot parse integer from empty string"),
            ClientError::PortInvalid => String::from_str("invalid digit found in string"),
            ClientError::PortTooLarge => String::from_str("number too large to fit in target type"),
            ClientError::PortZero => String::from_str("Port must be greater than 0. found 0"),
            ClientError::NoDomain => String::from_str("No domain found for TLS connection."),
            ClientError::UnsupportedProtocol(protocol) => {
                let mut text = String::from_str("The protocol ");
                text.append(protocol.as_str());
                text.append(" is not supported");
                text
            },
        }
    }
}

fn take_last(parts: &mut Vec<Option<String>>) -> (part: Option<String>)
    requires
        old(parts)@.len() > 0,
    ensures
        final(parts)@ == old(parts)@.drop_last(),
        part == old(parts)@.last(),
{
    match parts.pop() {
        Some(part) => part,
        None => None,
    }
}

impl ClientType {
    /// Reads a resolver by address, such as `1.1.1.1`, `1.1.1.1:1053`,
    /// `[2606:4700:4700::1111]:853:tls:cloudflare-dns.com` or
    /// `1.1.1.1:h2:cloudflare-dns.com`.
    pub fn try_from(s: &str) -> (client: Result<ClientType, ClientError>)
        ensures
            client_view(client) == custom_client(s@),
    {
        let mut groups: Vec<&str> = Vec::new();
        groups.push("ipv4");
        groups.push("ipv6");
        groups.push("port");
        groups.push("proto");
        groups.push("domain");
        assert(name_views(groups@) =~= client_groups());
        match capture(CLIENT_PATTERN, s, &groups) {
            None => Err(ClientError::NoMatch),
            Some(parts) => {
                let mut parts = parts;
                let ghost all = part_views(parts@);
                let domain: Option<String> = take_last(&mut parts);
                let protocol: Option<String> = take_last(&mut parts);
                let port: Option<String> = take_last(&mut parts);
                let ipv6: Option<String> = take_last(&mut parts);
                let ipv4: Option<String> = take_last(&mut parts);
                assert(text_view(domain) == all[4]);
                assert(text_view(protocol) == all[3]);
                assert(text_view(port) == all[2]);
                assert(text_view(ipv6) == all[1]);
                assert(text_view(ipv4) == all[0]);
                Self::from_captures(ipv4, ipv6, port, protocol, domain)
            },
        }
    }

    /// The resolver at an address.
    pub fn assemble(
        ip: IpAddress,
        port: Option<u16>,
        protocol: Option<String>,
        domain: Option<String>,
    ) -> (client: Result<ClientType, ClientError>)
        ensures
            client_view(client) == custom(ip, port, text_view(protocol), text_view(domain)),
    {
        match protocol {
            None => {
                let port: u16 = match port {
                    Some(port) => port,
                    None => DNS_PORT,
                };
                Ok(ClientType::CustomDNS(ip, port))
            },
            Some(protocol) => {
                if same_text(protocol.as_str(), "tls") {
                    match domain {
                        Some(domain) => {
                            let port: u16 = match port {
                                Some(port) => port,
                                None => TLS_PORT,
                            };
                            Ok(ClientType::CustomTLS(ip, domain, port))
                        },
                        None => Err(ClientError::NoDomain),
                    }
                } else if same_text(protocol.as_str(), "h2") {
                    match domain {
                        Some(domain) => {
                            let port: u16 = match port {
                                Some(port) => port,
                                None => H2_PORT,
                            };
                            Ok(ClientType::CustomH2(ip, domain, port))
                        },
                        None => Err(ClientError::NoDomain),
                    }
                } else {
                    Err(ClientError::UnsupportedProtocol(protocol))
                }
            },
        }
    }

    /// The resolver that the parts of a text stand for: the address as
    /// IPv4 or between brackets as IPv6, the port, the protocol and the
    /// domain.
    pub fn from_captures(
        ipv4: Option<String>,
        ipv6: Option<String>,
        port: Option<String>,
        protocol: Option<String>,
        domain: Option<String>,
    ) -> (client: Result<ClientType, ClientError>)
        ensures
            client_view(client) == client_of(
                text_view(ipv4),
                text_view(ipv6),
                text_view(port),
                text_view(protocol),
                text_view(domain),
            ),
    {
        let ip: IpAddress = match ipv6 {
            Some(text) => match parse_ipv6(text.as_str()) {
                Some(bits) => IpAddress::V6(bits),
                None => {
                    return Err(ClientError::Ipv6Syntax);
                },
            },
            None => match ipv4 {
                Some(text) => match parse_ipv4(text.as_str()) {
                    Some(bits) => IpAddress::V4(bits),
                    None => {
                        return Err(ClientError::Ipv4Syntax);
                    },
                },
                None => {
                    return Err(ClientError::AddressNotFound);
                },
            },
        };
        let port: Option<u16> = match port {
            None => None,
            Some(text) => match parse_u16(text.as_str()) {
                Ok(port) => {
                    if port > 0 {
                        Some(port)
                    } else {
                        return Err(ClientError::PortZero);
                    }
                },
                Err(error) => {
                    return Err(error);
                },
            },
        };
        Self::assemble(ip, port, protocol, domain)
    }
}

/// Reads the upstream resolver that the server forwards to from its textual
/// form.
#[derive(Clone, Copy, Debug, PartialEq, Eq, Structural)]
pub struct ClientTypeParser {}

impl ClientTypeParser {
    /// The parser.
    pub fn new() -> (parser: Self)
        ensures
            parser == (ClientTypeParser {  }),
    {
        Self {  }
    }

    /// The forms that a resolver can be given in.
    pub fn possible_vals() -> (forms: Vec<&'static str>)
        ensures
            name_views(forms@) == seq![
                "cloudflare"@,
                "google"@,
                "cloudflare:tls"@,
                "google:tls"@,
                "cloudflare:h2"@,
                "google:h2"@,
                "ipv4:port"@,
                "[ipv6]:port"@,
                "ipv4:port:<tls|h2>:domain"@,
                "[ipv6]:port:<tls|h2>:domain"@,
            ],
    {
        let mut forms: Vec<&'static str> = Vec::new();
        forms.push("cloudflare");
        forms.push("google");
        forms.push("cloudflare:tls");
        forms.push("google:tls");
        forms.push("cloudflare:h2");
        forms.push("google:h2");
        forms.push("ipv4:port");
        forms.push("[ipv6]:port");
        forms.push("ipv4:port:<tls|h2>:domain");
        forms.push("[ipv6]:port:<tls|h2>:domain");
        assert(name_views(forms@) =~= seq![
            "cloudflare"@,
            "google"@,
            "cloudflare:tls"@,
            "google:tls"@,
            "cloudflare:h2"@,
            "google:h2"@,
            "ipv4:port"@,
            "[ipv6]:port"@,
            "ipv4:port:<tls|h2>:domain"@,
            "[ipv6]:port:<tls|h2>:domain"@,
        ]);
        forms
    }

    /// Reads a resolver from a text in small letters: a public resolver by
    /// its name, else a resolver by address.
    pub fn parse_lowered(text: &str) -> (client: Result<ClientType, ClientError>)
        ensures
            client_view(client) == lowered_client(text@),
    {
        if same_text(text, "cloudflare") {
            Ok(ClientType::CloudFlare)
        } else if same_text(text, "google") {
            Ok(ClientType::Google)
        } else if same_text(text, "cloudflare:tls") {
            Ok(ClientType::CloudFlareTLS)
        } else if same_text(text, "google:tls") {
            Ok(ClientType::GoogleTLS)
        } else if same_text(text, "cloudflare:h2") {
            Ok(ClientType::CloudFlareH2)
        } else if same_text(text, "google:h2") {
            Ok(ClientType::GoogleH2)
        } else {
            ClientType::try_from(text)
        }
    }

    /// Reads a resolver: a public resolver by name, or a resolver by
    /// address. Small and capital letters are taken as the same: the text is
    /// read with its letters made small.
    pub fn parse(&self, value: &str) -> (client: Result<ClientType, ClientError>)
        ensures
            client_view(client) == parsed_client(value@),
    {
        let lowered: String = lowercase(value);
        Self::parse_lowered(lowered.as_str())
    }
}

} // verus!
