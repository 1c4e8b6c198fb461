use crate::authority::zone_blacklist::v4_address;
use crate::authority::{DefaultAuthority, DomainBlacklistAuthority, ZoneBlacklistAuthority};
use crate::blockset::BlockSet;
use crate::catalog::{zone_names, Authority, Catalog};
use crate::client::{text_view, ClientType};
use crate::error::ConfigError;
use crate::index::{unique, views};
use crate::ip::{covered, disjoint, IpAddress, IpRange, IpRangeVec};
use crate::name::{name_of_text, DomainName};
use crate::text::{
    chars_of, split, split_on, string_of, texts, trim, trim_end_matches, trimmed,
    without_trailing,
};
use vstd::prelude::*;

verus! {

/// The name that a line of a list of names gives, as the text that is read:
/// the line without the white space around it and without the dots that end
/// it, ended by one dot. A line that is blank but for dots gives none.
pub open spec fn domain_text(line: Seq<char>) -> Option<Seq<char>> {
    let bare = without_trailing(trimmed(line), '.');
    if bare.len() == 0 {
        None
    } else {
        Some(bare.push('.'))
    }
}

/// The names that the lines of a list give, in order; the list is rejected
/// where a line gives a text that is no name.
pub open spec fn names_of(lines: Seq<Seq<char>>) -> Result<Seq<Seq<Seq<u8>>>, ConfigError>
    decreases lines.len(),
{
    if lines.len() == 0 {
        Ok(Seq::empty())
    } else {
        match names_of(lines.drop_last()) {
            Err(error) => Err(error),
            Ok(names) => match domain_text(lines.last()) {
                None => Ok(names),
                Some(text) => match name_of_text(text) {
                    Some(name) => Ok(names.push(name)),
                    None => Err(ConfigError::Domain),
                },
            },
        }
    }
}

/// The networks that the lines of a list give, in order: each line without
/// the white space around it, blank lines left out; the list is rejected
/// where a line is no network.
pub open spec fn ranges_of(lines: Seq<Seq<char>>) -> Result<Seq<IpRange>, ConfigError>
    decreases lines.len(),
{
    if lines.len() == 0 {
        Ok(Seq::empty())
    } else {
        match ranges_of(lines.drop_last()) {
            Err(error) => Err(error),
            Ok(ranges) => if trimmed(lines.last()).len() == 0 {
                Ok(ranges)
            } else {
                match IpRange::of_text(trimmed(lines.last())) {
                    Some(range) => Ok(ranges.push(range)),
                    None => Err(ConfigError::Network),
                }
            },
        }
    }
}

/// The lines of a list: those of its text, or none where there is no list.
pub open spec fn lines_of(list: Option<String>) -> Seq<Seq<char>> {
    match list {
        Some(content) => split(content@, '\n'),
        None => Seq::empty(),
    }
}

/// A list that is rejected up to some line is rejected as a whole.
pub proof fn lemma_names_rejected(lines: Seq<Seq<char>>, upto: int)
    requires
        0 <= upto <= lines.len(),
        names_of(lines.take(upto)) is Err,
    ensures
        names_of(lines) == names_of(lines.take(upto)),
    decreases lines.len() - upto,
{
    if upto < lines.len() {
        assert(lines.take(upto + 1).drop_last() =~= lines.take(upto));
        lemma_names_rejected(lines, upto + 1);
    } else {
        assert(lines.take(upto) =~= lines);
    }
}

/// A list that is rejected up to some line is rejected as a whole.
pub proof fn lemma_ranges_rejected(lines: Seq<Seq<char>>, upto: int)
    requires
        0 <= upto <= lines.len(),
        ranges_of(lines.take(upto)) is Err,
    ensures
        ranges_of(lines) == ranges_of(lines.take(upto)),
    decreases lines.len() - upto,
{
    if upto < lines.len() {
        assert(lines.take(upto + 1).drop_last() =~= lines.take(upto));
        lemma_ranges_rejected(lines, upto + 1);
    } else {
        assert(lines.take(upto) =~= lines);
    }
}

/// Reads a list of names, one on a line.
pub fn read_names(list: &Option<String>) -> (names: Result<Vec<DomainName>, ConfigError>)
    ensures
        match names_of(lines_of(*list)) {
            Ok(listed) => names is Ok && views(names->Ok_0@) == listed,
            Err(error) => names == Err::<Vec<DomainName>, ConfigError>(error),
        },
{
    let mut names: Vec<DomainName> = Vec::new();
    let content: &String = match list {
        Some(content) => content,
        None => {
            assert(views(names@) =~= Seq::empty());
            return Ok(names);
        },
    };
    let chars: Vec<char> = chars_of(content.as_str());
    let lines: Vec<Vec<char>> = split_on(&chars, '\n');
    let ghost all = texts(lines@);
    let mut i: usize = 0;
    proof {
        assert(all.take(0) =~= Seq::empty());
        assert(views(names@) =~= Seq::empty());
    }
    while i < lines.len()
        invariant
            0 <= i <= lines.len(),
            all == texts(lines@),
            all == lines_of(*list),
            names_of(all.take(i as int)) == Ok::<Seq<Seq<Seq<u8>>>, ConfigError>(views(names@)),
        decreases lines.len() - i,
    {
        proof {
            assert(all.take(i + 1).drop_last() =~= all.take(i as int));
            assert(all.take(i + 1).last() == lines@[i as int]@);
        }
        let line: Vec<char> = trim(&lines[i]);
        let mut bare: Vec<char> = trim_end_matches(&line, '.');
        if bare.len() > 0 {
            bare.push('.');
            let text: String = string_of(&bare);
            match DomainName::parse(text.as_str()) {
                Ok(name) => {
                    let ghost before = views(names@);
                    names.push(name);
                    assert(views(names@) =~= before.push(name@));
                },
                Err(_) => {
                    proof {
                        lemma_names_rejected(all, i + 1);
                    }
                    return Err(ConfigError::Domain);
                },
            }
        }
        i += 1;
    }
    proof {
        assert(all.take(lines@.len() as int) =~= all);
    }
    Ok(names)
}

/// Reads a list of networks in CIDR notation, one on a line.
pub fn read_networks(list: &Option<String>) -> (ranges: Result<Vec<IpRange>, ConfigError>)
    ensures
        match ranges_of(lines_of(*list)) {
            Ok(listed) => ranges is Ok && ranges->Ok_0@ == listed,
            Err(error) => ranges == Err::<Vec<IpRange>, ConfigError>(error),
        },
{
    let mut ranges: Vec<IpRange> = Vec::new();
    let content: &String = match list {
        Some(content) => content,
        None => {
            assert(ranges@ =~= Seq::empty());
            return Ok(ranges);
        },
    };
    let chars: Vec<char> = chars_of(content.as_str());
    let lines: Vec<Vec<char>> = split_on(&chars, '\n');
    let ghost all = texts(lines@);
    let mut i: usize = 0;
    proof {
        assert(all.take(0) =~= Seq::empty());
        assert(ranges@ =~= Seq::empty());
    }
    while i < lines.len()
        invariant
            0 <= i <= lines.len(),
            all == texts(lines@),
            all == lines_of(*list),
            ranges_of(all.take(i as int)) == Ok::<Seq<IpRange>, ConfigError>(ranges@),
        decreases lines.len() - i,
    {
        proof {
            assert(all.take(i + 1).drop_last() =~= all.take(i as int));
            assert(all.take(i + 1).last() == lines@[i as int]@);
        }
        let line: Vec<char> = trim(&lines[i]);
        if line.len() > 0 {
            let text: String = string_of(&line);
            match IpRange::try_from(text.as_str()) {
                Ok(range) => {
                    ranges.push(range);
                },
                Err(_) => {
                    proof {
                        lemma_ranges_rejected(all, i + 1);
                    }
                    return Err(ConfigError::Network);
                },
            }
        }
        i += 1;
    }
    proof {
        assert(all.take(lines@.len() as int) =~= all);
    }
    Ok(ranges)
}

/// The chain holds one authority, which blocks the zone.
pub open spec fn is_zone_chain(chain: Seq<Authority>, zone: Seq<Seq<u8>>, default_ip: Option<u32>) -> bool {
    &&& chain.len() == 1
    &&& chain[0] is ZoneBlacklist
    &&& chain[0]->ZoneBlacklist_0.zone() == zone
    &&& chain[0]->ZoneBlacklist_0.substitute() == default_ip
}

/// The chain holds one authority, which blocks the names; no authority
/// where there is no name to block.
pub open spec fn is_root_chain(
    chain: Seq<Authority>,
    blocked: Set<Seq<Seq<u8>>>,
    default_ip: Option<u32>,
) -> bool {
    if blocked == Set::<Seq<Seq<u8>>>::empty() {
        chain.len() == 0
    } else {
        &&& chain.len() == 1
        &&& chain[0] is DomainBlacklist
        &&& chain[0]->DomainBlacklist_0.blocked() == blocked
        &&& chain[0]->DomainBlacklist_0.substitute() == v4_address(default_ip)
    }
}

/// The settings of a server.
#[derive(Debug, PartialEq)]
pub struct DNSServer {
    /// The port for DNS over UDP.
    pub port: u16,
    /// The address to listen on.
    pub listen: String,
    /// The number of workers.
    pub worker: usize,
    /// The path of the list of names to block.
    pub blacklist: Option<String>,
    /// The IPv4 address that is given for a blocked name in place of a
    /// refusal.
    pub default_ip: Option<u32>,
    /// The path of the list of zones to block.
    pub zone_blacklist: Option<String>,
    /// The upstream resolver.
    pub dns_server: ClientType,
    /// Whether DNS over HTTPS is served.
    pub h2: bool,
    /// The port for DNS over HTTPS.
    pub h2_port: u16,
    /// The path under which DNS over HTTPS is served.
    pub h2_path: String,
    /// Whether DNS over TLS is served.
    pub tls: bool,
    /// The port for DNS over TLS.
    pub tls_port: u16,
    /// The path of the certificate.
    pub tls_certificate: Option<String>,
    /// The path of the private key.
    pub tls_private_key: Option<String>,
    /// The path of the list of networks of NAT64 clients.
    pub rfc8215_ips: Option<String>,
    /// The path of the list of networks that may not ask.
    pub deny_networks: Option<String>,
    /// The path of the list of networks that may ask.
    pub allow_networks: Option<String>,
}

fn clone_text(text: &Option<String>) -> (copy: Option<String>)
    ensures
        text_view(copy) == text_view(*text),
{
    match text {
        Some(text) => Some(text.clone()),
        None => None,
    }
}

impl Clone for DNSServer {
    fn clone(&self) -> (copy: Self)
        ensures
            copy.port == self.port,
            copy.listen@ == self.listen@,
            copy.worker == self.worker,
            text_view(copy.blacklist) == text_view(self.blacklist),
            copy.default_ip == self.default_ip,
            text_view(copy.zone_blacklist) == text_view(self.zone_blacklist),
            copy.dns_server@ == self.dns_server@,
            copy.h2 == self.h2,
            copy.h2_port == self.h2_port,
            copy.h2_path@ == self.h2_path@,
            copy.tls == self.tls,
            copy.tls_port == self.tls_port,
            text_view(copy.tls_certificate) == text_view(self.tls_certificate),
            text_view(copy.tls_private_key) == text_view(self.tls_private_key),
            text_view(copy.rfc8215_ips) == text_view(self.rfc8215_ips),
            text_view(copy.deny_networks) == text_view(self.deny_networks),
            text_view(copy.allow_networks) == text_view(self.allow_networks),
    {
        DNSServer {
            port: self.port,
            listen: self.listen.clone(),
            worker: self.worker,
            blacklist: clone_text(&self.blacklist),
            default_ip: self.default_ip,
            zone_blacklist: clone_text(&self.zone_blacklist),
            dns_server: self.dns_server.clone(),
            h2: self.h2,
            h2_port: self.h2_port,
            h2_path: self.h2_path.clone(),
            tls: self.tls,
            tls_port: self.tls_port,
            tls_certificate: clone_text(&self.tls_certificate),
            tls_private_key: clone_text(&self.tls_private_key),
            rfc8215_ips: clone_text(&self.rfc8215_ips),
            deny_networks: clone_text(&self.deny_networks),
            allow_networks: clone_text(&self.allow_networks),
        }
    }
}

impl DNSServer {
    /// The catalog is the one that the settings and the lists ask for: a
    /// chain for each zone of the list of zones, each zone once and in the
    /// order of the list, which blocks the zone; then the chain for the root, which blocks the names
    /// of the list of names; and the forwarder, with the addresses of the
    /// networks of the NAT64 clients.
    pub open spec fn builds(
        &self,
        catalog: Catalog,
        zones: Seq<Seq<Seq<u8>>>,
        blocked: Seq<Seq<Seq<u8>>>,
        ranges: Seq<IpRange>,
    ) -> bool {
        let entries = catalog.entries();
        let names = zone_names(entries);
        &&& entries.len() >= 1
        &&& names.last() == Seq::<Seq<u8>>::empty()
        &&& names.drop_last() == unique(zones)
        &&& forall|i: int|
            0 <= i < entries.len() - 1 ==> is_zone_chain(
                (#[trigger] entries[i]).1@,
                entries[i].0@,
                self.default_ip,
            )
        &&& is_root_chain(entries.last().1@, blocked.to_set(), self.default_ip)
        &&& catalog.upstream().nat64().wf()
        &&& disjoint(catalog.upstream().nat64()@)
        &&& forall|bits: u128|
            covered(catalog.upstream().nat64()@, bits) <==> covered(ranges, bits)
    }

    /// Reads a list of names to block from its text, one name on a line.
    /// Without a list no name is blocked.
    pub fn get_blacklist(&self, list: &Option<String>) -> (blocked: Result<BlockSet, ConfigError>)
        ensures
            match names_of(lines_of(*list)) {
                Ok(listed) => blocked is Ok && blocked->Ok_0@ == listed.to_set()
                    && blocked->Ok_0.listed() == unique(listed),
                Err(error) => blocked == Err::<BlockSet, ConfigError>(error),
            },
    {
        match read_names(list) {
            Ok(names) => {
                let set = BlockSet::new(names);
                proof {
                    let listed = views(names@);
                    assert forall|name: Seq<Seq<u8>>| set@.contains(name) == listed.to_set().contains(
                        name,
                    ) by {
                        if set@.contains(name) {
                            let i = choose|i: int| 0 <= i < names@.len() && names@[i]@ == name;
                            assert(listed[i] == name);
                        }
                        if listed.contains(name) {
                            let i = choose|i: int| 0 <= i < listed.len() && listed[i] == name;
                            assert(names@[i]@ == name);
                        }
                    }
                    assert(set@ =~= listed.to_set());
                }
                Ok(set)
            },
            Err(error) => Err(error),
        }
    }

    /// Reads a list of networks from its text, one network on a line.
    /// Without a list there is no network.
    pub fn get_networks(&self, list: &Option<String>) -> (ranges: Result<Vec<IpRange>, ConfigError>)
        ensures
            match ranges_of(lines_of(*list)) {
                Ok(listed) => ranges is Ok && ranges->Ok_0@ == listed,
                Err(error) => ranges == Err::<Vec<IpRange>, ConfigError>(error),
            },
    {
        read_networks(list)
    }

    /// Reads the networks of the NAT64 clients from the text of their list.
    /// The index holds the addresses of the listed networks, in ranges of
    /// which no two share an address.
    pub fn get_rfc8215_ips(&self, list: &Option<String>) -> (index: Result<IpRangeVec, ConfigError>)
        ensures
            match ranges_of(lines_of(*list)) {
                Ok(listed) => index is Ok && index->Ok_0.wf() && disjoint(index->Ok_0@)
                    && forall|bits: u128| covered(index->Ok_0@, bits) <==> covered(listed, bits),
                Err(error) => index == Err::<IpRangeVec, ConfigError>(error),
            },
    {
        match read_networks(list) {
            Ok(ranges) => Ok(IpRangeVec::new(ranges)),
            Err(error) => Err(error),
        }
    }

    /// Builds the catalog from the texts of the list of zones, of the list
    /// of names and of the list of networks of NAT64 clients. The lists are
    /// read in this order, and the first that is rejected ends the building.
    pub fn generate_catalog(
        &self,
        zone_blacklist: &Option<String>,
        blacklist: &Option<String>,
        rfc8215_ips: &Option<String>,
    ) -> (catalog: Result<Catalog, ConfigError>)
        ensures
            match names_of(lines_of(*zone_blacklist)) {
                Err(error) => catalog == Err::<Catalog, ConfigError>(error),
                Ok(zones) => match names_of(lines_of(*blacklist)) {
                    Err(error) => catalog == Err::<Catalog, ConfigError>(error),
                    Ok(blocked) => match ranges_of(lines_of(*rfc8215_ips)) {
                        Err(error) => catalog == Err::<Catalog, ConfigError>(error),
                        Ok(ranges) => catalog is Ok && self.builds(
                            catalog->Ok_0,
                            zones,
                            blocked,
                            ranges,
                        ),
                    },
                },
            },
    {
        let zone_list: Vec<DomainName> = match read_names(zone_blacklist) {
            Ok(names) => names,
            Err(error) => {
                return Err(error);
            },
        };
        let domains_blacklisted: BlockSet = match self.get_blacklist(blacklist) {
            Ok(blocked) => blocked,
            Err(error) => {
                return Err(error);
            },
        };
        let nat64: IpRangeVec = match self.get_rfc8215_ips(rfc8215_ips) {
            Ok(index) => index,
            Err(error) => {
                return Err(error);
            },
        };
        let ghost listed = views(zone_list@);
        let zones: BlockSet = BlockSet::new(zone_list);
        let forwarder = DefaultAuthority::new(nat64);
        let mut catalog = Catalog::new(forwarder);
        let mut i: usize = 0;
        while i < zones.len()
            invariant
                0 <= i <= zones.count(),
                catalog.upstream() == forwarder,
                catalog.entries().len() == i,
                forall|k: int|
                    0 <= k < i ==> (#[trigger] catalog.entries()[k]).0@ == zones.listed()[k]
                        && is_zone_chain(
                        catalog.entries()[k].1@,
                        catalog.entries()[k].0@,
                        self.default_ip,
                    ),
            decreases zones.count() - i,
        {
            let zone: DomainName = match zones.get(i) {
                Some(zone) => zone.clone(),
                None => DomainName::root(),
            };
            let authority = ZoneBlacklistAuthority::new(zone.clone(), self.default_ip);
            let mut chain: Vec<Authority> = Vec::new();
            chain.push(Authority::ZoneBlacklist(authority));
            catalog = catalog.upsert(zone, chain);
            i += 1;
        }
        let mut root_authorities: Vec<Authority> = Vec::new();
        let ghost blocked = domains_blacklisted@;
        if !domains_blacklisted.is_empty() {
            let ip: Option<IpAddress> = match self.default_ip {
                Some(bits) => Some(IpAddress::V4(bits)),
                None => None,
            };
            let authority = DomainBlacklistAuthority::new(domains_blacklisted, ip);
            root_authorities.push(Authority::DomainBlacklist(authority));
        }
        let catalog = catalog.upsert(DomainName::root(), root_authorities);
        proof {
            let entries = catalog.entries();
            let names = zone_names(entries);
            assert(names.drop_last() =~= zones.listed());
            assert(views(zone_list@) =~= listed);
        }
        Ok(catalog)
    }
}

} // verus!
