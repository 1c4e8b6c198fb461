use crate::authority::{forge_or_error, forged, prefixed_address, to_prefixed_ip};
use crate::index::NameIndex;
use crate::ip::{IpAddress, IpRangeVec};
use crate::name::{name_of_text, DomainName};
use crate::record::{
    DecisionOutcome, OutcomeView, QueryContext, RecordType, ResponseCode, ZoneType,
};
use crate::text::{
    before, chars_of, slice_of, split, split_on, split_whitespace, string_of, take_before, texts,
    trim_end_matches, without_trailing, words,
};
use vstd::prelude::*;

verus! {

/// The names and addresses of a vector of entries.
pub open spec fn entry_views(entries: Seq<(DomainName, IpAddress)>) -> Seq<
    (Seq<Seq<u8>>, IpAddress),
> {
    Seq::new(entries.len(), |i: int| (entries[i].0@, entries[i].1))
}

/// The table that the entries make, taken in order: a later entry for a name
/// replaces an earlier one.
pub open spec fn table_of(entries: Seq<(Seq<Seq<u8>>, IpAddress)>) -> Map<Seq<Seq<u8>>, IpAddress>
    decreases entries.len(),
{
    if entries.len() == 0 {
        Map::empty()
    } else {
        table_of(entries.drop_last()).insert(entries.last().0, entries.last().1)
    }
}

/// The address that a table has for a name, if any.
pub open spec fn address_of(table: Map<Seq<Seq<u8>>, IpAddress>, name: Seq<Seq<u8>>) -> Option<
    IpAddress,
> {
    if table.dom().contains(name) {
        Some(table[name])
    } else {
        None
    }
}

/// The seconds between two loads of the table of local names.
pub const REFRESH_SECONDS: u64 = 300;

/// Why the table of local names could not be loaded again.
#[derive(Clone, Copy, Debug, PartialEq, Eq, Structural)]
pub enum RefreshFailure {
    /// The source of the table could not be read.
    Unreadable,
    /// The source of the table holds a line that is no entry.
    Malformed,
}

/// What a reload did to the table.
#[derive(Clone, Copy, Debug, PartialEq, Eq, Structural)]
pub enum RefreshEvent {
    /// The table was replaced by the one that was loaded.
    Reloaded,
    /// The load failed and the table is as it was.
    Kept(RefreshFailure),
}

/// The position of `name` in a list that holds it.
pub open spec fn position_of(listed: Seq<Seq<Seq<u8>>>, name: Seq<Seq<u8>>) -> int {
    choose|i: int| 0 <= i < listed.len() && listed[i] == name
}

/// The table that gives each listed name the address at its position.
pub open spec fn table_at(listed: Seq<Seq<Seq<u8>>>, ips: Seq<IpAddress>) -> Map<
    Seq<Seq<u8>>,
    IpAddress,
> {
    Map::new(
        |name: Seq<Seq<u8>>| listed.contains(name),
        |name: Seq<Seq<u8>>| ips[position_of(listed, name)],
    )
}

/// A snapshot of the table of local names: the names in an index, and the
/// address of each name at the position of the name.
#[derive(Debug)]
pub struct LocalDNSResolver {
    names: NameIndex,
    ips: Vec<IpAddress>,
}

impl View for LocalDNSResolver {
    type V = Map<Seq<Seq<u8>>, IpAddress>;

    closed spec fn view(&self) -> Map<Seq<Seq<u8>>, IpAddress> {
        table_at(self.names.listed(), self.ips@)
    }
}

impl Default for LocalDNSResolver {
    fn default() -> (table: Self)
        ensures
            table@ == Map::<Seq<Seq<u8>>, IpAddress>::empty(),
    {
        let table = LocalDNSResolver { names: NameIndex::new(), ips: Vec::new() };
        assert(table@ =~= Map::<Seq<Seq<u8>>, IpAddress>::empty());
        table
    }
}

impl Clone for LocalDNSResolver {
    fn clone(&self) -> (copy: Self)
        ensures
            copy@ == self@,
    {
        proof {
            use_type_invariant(self);
        }
        let names = self.names.clone();
        let ips = self.ips.clone();
        assert(ips@ =~= self.ips@);
        LocalDNSResolver { names, ips }
    }
}

impl LocalDNSResolver {
    #[verifier::type_invariant]
    spec fn inv(self) -> bool {
        self.ips@.len() == self.names.listed().len()
    }

    /// The table that the entries make, taken in order.
    pub fn new(entries: Vec<(DomainName, IpAddress)>) -> (table: Self)
        ensures
            table@ == table_of(entry_views(entries@)),
    {
        let ghost all = entry_views(entries@);
        let mut names = NameIndex::new();
        let mut ips: Vec<IpAddress> = Vec::new();
        let mut i: usize = 0;
        proof {
            assert(all.take(0) =~= Seq::empty());
            assert(table_at(names.listed(), ips@) =~= table_of(all.take(0)));
        }
        while i < entries.len()
            invariant
                0 <= i <= entries.len(),
                all == entry_views(entries@),
                ips@.len() == names.listed().len(),
                names.listed().no_duplicates(),
                table_at(names.listed(), ips@) == table_of(all.take(i as int)),
            decreases entries.len() - i,
        {
            let ghost listed = names.listed();
            let ghost held = ips@;
            let ghost name = entries@[i as int].0@;
            let ip: IpAddress = entries[i].1;
            let grown = names.insert(entries[i].0.clone());
            names = grown.0;
            let at: usize = grown.1;
            if at < ips.len() {
                ips.set(at, ip);
            } else {
                ips.push(ip);
            }
            proof {
                assert(all.take(i + 1).drop_last() =~= all.take(i as int));
                assert(all.take(i + 1).last() == (name, ip));
                let after = names.listed();
                assert forall|n: Seq<Seq<u8>>| after.contains(n) implies #[trigger] ips@[position_of(
                    after,
                    n,
                )] == (if n == name {
                    ip
                } else {
                    held[position_of(listed, n)]
                }) by {
                    let p = position_of(after, n);
                    if n == name {
                        assert(after[at as int] == name);
                        assert(p == at);
                    } else {
                        assert(listed.contains(n)) by {
                            if !listed.contains(name) {
                                assert(p < listed.len());
                                assert(listed[p] == n);
                            }
                        }
                        let q = position_of(listed, n);
                        assert(after[q] == n);
                        assert(p == q);
                    }
                }
                assert forall|n: Seq<Seq<u8>>| after.contains(n) <==> (listed.contains(n) || n
                    == name) by {
                    if listed.contains(n) {
                        let q = position_of(listed, n);
                        assert(after[q] == n);
                    }
                    if n == name {
                        assert(after[at as int] == n);
                    }
                    if after.contains(n) && n != name {
                        let p = position_of(after, n);
                        if !listed.contains(name) {
                            assert(p < listed.len());
                            assert(listed[p] == n);
                        }
                    }
                }
                assert(table_at(after, ips@) =~= table_at(listed, held).insert(name, ip));
            }
            i += 1;
        }
        proof {
            assert(all.take(entries@.len() as int) =~= all);
        }
        LocalDNSResolver { names, ips }
    }

    /// The address that the table has for `name`, if any.
    pub fn get(&self, name: &DomainName) -> (ip: Option<IpAddress>)
        ensures
            ip == address_of(self@, name@),
    {
        proof {
            use_type_invariant(self);
        }
        match self.names.position(name) {
            Some(at) => {
                proof {
                    let listed = self.names.listed();
                    assert(listed[at as int] == name@);
                    assert(listed.contains(name@));
                    assert(position_of(listed, name@) == at);
                }
                Some(self.ips[at])
            },
            None => None,
        }
    }
}

/// The entries that a line of a table gives, each as the text of its address
/// and the text of its name. What follows a `#` is a comment. The first
/// word of the line is the address, each word after it a name, which is
/// read without the dots that end it and with one dot put behind. A line of
/// less than two words gives no entry.
pub open spec fn line_entries(line: Seq<char>) -> Seq<(Seq<char>, Seq<char>)> {
    let parts = words(before(line, '#'));
    if parts.len() < 2 {
        Seq::empty()
    } else {
        Seq::new(
            (parts.len() - 1) as nat,
            |i: int| (parts[0], without_trailing(parts[i + 1], '.').push('.')),
        )
    }
}

/// The entries that the lines of a table give, in order.
pub open spec fn entries_of(lines: Seq<Seq<char>>) -> Seq<(Seq<char>, Seq<char>)>
    decreases lines.len(),
{
    if lines.len() == 0 {
        Seq::empty()
    } else {
        entries_of(lines.drop_last()) + line_entries(lines.last())
    }
}

/// The name and the address that the texts of an entry stand for, if they
/// stand for an address and for a fully-qualified name.
pub open spec fn entry_of(entry: (Seq<char>, Seq<char>)) -> Option<(Seq<Seq<u8>>, IpAddress)> {
    match (IpAddress::of_text(entry.0), name_of_text(entry.1)) {
        (Some(ip), Some(name)) => Some((name, ip)),
        _ => None,
    }
}

/// The names and addresses that the texts of the entries stand for, in
/// order; the table is rejected where an entry stands for none.
pub open spec fn loaded(entries: Seq<(Seq<char>, Seq<char>)>) -> Result<
    Seq<(Seq<Seq<u8>>, IpAddress)>,
    RefreshFailure,
>
    decreases entries.len(),
{
    if entries.len() == 0 {
        Ok(Seq::empty())
    } else {
        match loaded(entries.drop_last()) {
            Err(failure) => Err(failure),
            Ok(read) => match entry_of(entries.last()) {
                Some(entry) => Ok(read.push(entry)),
                None => Err(RefreshFailure::Malformed),
            },
        }
    }
}

/// The table that a text gives, line by line.
pub open spec fn table_of_text(content: Seq<char>) -> Result<
    Map<Seq<Seq<u8>>, IpAddress>,
    RefreshFailure,
> {
    match loaded(entries_of(split(content, '\n'))) {
        Ok(entries) => Ok(table_of(entries)),
        Err(failure) => Err(failure),
    }
}

/// The texts of a vector of entries.
pub open spec fn pair_views(entries: Seq<(Vec<char>, Vec<char>)>) -> Seq<(Seq<char>, Seq<char>)> {
    Seq::new(entries.len(), |i: int| (entries[i].0@, entries[i].1@))
}

/// A table that is rejected up to some entry is rejected as a whole.
pub proof fn lemma_loaded_rejected(entries: Seq<(Seq<char>, Seq<char>)>, upto: int)
    requires
        0 <= upto <= entries.len(),
        loaded(entries.take(upto)) is Err,
    ensures
        loaded(entries) == loaded(entries.take(upto)),
    decreases entries.len() - upto,
{
    if upto < entries.len() {
        assert(entries.take(upto + 1).drop_last() =~= entries.take(upto));
        lemma_loaded_rejected(entries, upto + 1);
    } else {
        assert(entries.take(upto) =~= entries);
    }
}

/// Takes the text of a table apart into its entries.
pub fn local_dns_entries(content: &str) -> (entries: Vec<(Vec<char>, Vec<char>)>)
    ensures
        pair_views(entries@) == entries_of(split(content@, '\n')),
{
    let chars: Vec<char> = chars_of(content);
    let lines: Vec<Vec<char>> = split_on(&chars, '\n');
    let ghost all = texts(lines@);
    let mut entries: Vec<(Vec<char>, Vec<char>)> = Vec::new();
    let mut i: usize = 0;
    proof {
        assert(all.take(0) =~= Seq::empty());
        assert(pair_views(entries@) =~= Seq::empty());
    }
    while i < lines.len()
        invariant
            0 <= i <= lines.len(),
            all == texts(lines@),
            pair_views(entries@) == entries_of(all.take(i as int)),
        decreases lines.len() - i,
    {
        proof {
            assert(all.take(i + 1).drop_last() =~= all.take(i as int));
            assert(all.take(i + 1).last() == lines@[i as int]@);
        }
        let ghost done = pair_views(entries@);
        let ghost expected = line_entries(lines@[i as int]@);
        let uncommented: Vec<char> = take_before(&lines[i], '#');
        let parts: Vec<Vec<char>> = split_whitespace(&uncommented);
        if parts.len() >= 2 {
            let mut j: usize = 1;
            proof {
                assert(pair_views(entries@) =~= done + expected.take(0));
            }
            while j < parts.len()
                invariant
                    1 <= j <= parts.len(),
                    parts.len() >= 2,
                    i < lines@.len(),
                    expected.len() == parts.len() - 1,
                    texts(parts@) == words(before(lines@[i as int]@, '#')),
                    expected == line_entries(lines@[i as int]@),
                    pair_views(entries@) == done + expected.take(j - 1),
                decreases parts.len() - j,
            {
                let ip: Vec<char> = slice_of(&parts[0], 0, parts[0].len());
                let mut name: Vec<char> = trim_end_matches(&parts[j], '.');
                name.push('.');
                proof {
                    assert(ip@ =~= texts(parts@)[0]);
                    assert(name@ == without_trailing(texts(parts@)[j as int], '.').push('.'));
                    assert(expected[j - 1] == (ip@, name@));
                }
                let ghost so_far = pair_views(entries@);
                entries.push((ip, name));
                proof {
                    assert(pair_views(entries@) =~= so_far.push((ip@, name@)));
                    assert(expected.take(j as int) =~= expected.take(j - 1).push(expected[j - 1]));
                    assert(pair_views(entries@) =~= done + expected.take(j as int));
                }
                j += 1;
            }
            proof {
                assert(expected.take(parts.len() - 1) =~= expected);
            }
        } else {
            proof {
                assert(pair_views(entries@) =~= done + expected);
            }
        }
        i += 1;
    }
    proof {
        assert(all.take(lines@.len() as int) =~= all);
    }
    entries
}

/// Makes the table of the entries, each given as the text of its address
/// and the text of its name.
pub fn load_entries(entries: &Vec<(Vec<char>, Vec<char>)>) -> (table: Result<
    LocalDNSResolver,
    RefreshFailure,
>)
    ensures
        match loaded(pair_views(entries@)) {
            Ok(read) => table is Ok && table->Ok_0@ == table_of(read),
            Err(failure) => table == Err::<LocalDNSResolver, RefreshFailure>(failure),
        },
{
    let ghost all = pair_views(entries@);
    let mut read: Vec<(DomainName, IpAddress)> = Vec::new();
    let mut i: usize = 0;
    proof {
        assert(all.take(0) =~= Seq::empty());
        assert(entry_views(read@) =~= Seq::empty());
    }
    while i < entries.len()
        invariant
            0 <= i <= entries.len(),
            all == pair_views(entries@),
            loaded(all.take(i as int)) == Ok::<Seq<(Seq<Seq<u8>>, IpAddress)>, RefreshFailure>(
                entry_views(read@),
            ),
        decreases entries.len() - i,
    {
        proof {
            assert(all.take(i + 1).drop_last() =~= all.take(i as int));
            assert(all.take(i + 1).last() == (entries@[i as int].0@, entries@[i as int].1@));
        }
        let ip_text: String = string_of(&entries[i].0);
        let name_text: String = string_of(&entries[i].1);
        let ip: IpAddress = match IpAddress::parse(ip_text.as_str()) {
            Some(ip) => ip,
            None => {
                proof {
                    lemma_loaded_rejected(all, i + 1);
                }
                return Err(RefreshFailure::Malformed);
            },
        };
        match DomainName::parse(name_text.as_str()) {
            Ok(name) => {
                let ghost before = entry_views(read@);
                read.push((name, ip));
                assert(entry_views(read@) =~= before.push((name@, ip)));
            },
            Err(_) => {
                proof {
                    lemma_loaded_rejected(all, i + 1);
                }
                return Err(RefreshFailure::Malformed);
            },
        }
        i += 1;
    }
    proof {
        assert(all.take(entries@.len() as int) =~= all);
    }
    Ok(LocalDNSResolver::new(read))
}

/// Reads the table of local names from its text. A line holds an address
/// and the names that have it; what follows a `#` is a comment.
pub fn read_local_dns_file(content: &str) -> (table: Result<LocalDNSResolver, RefreshFailure>)
    ensures
        match table_of_text(content@) {
            Ok(read) => table is Ok && table->Ok_0@ == read,
            Err(failure) => table == Err::<LocalDNSResolver, RefreshFailure>(failure),
        },
{
    let entries = local_dns_entries(content);
    load_entries(&entries)
}

/// Answers from a table of local names before the upstream resolver is asked.
#[derive(Debug)]
pub struct LocalDNSAuthority {
    rfc8215_ips: IpRangeVec,
    origin: DomainName,
    local_dns_resolver: LocalDNSResolver,
}

impl LocalDNSAuthority {
    /// The table that is served now.
    pub closed spec fn table(&self) -> Map<Seq<Seq<u8>>, IpAddress> {
        self.local_dns_resolver@
    }

    /// The sources that are given addresses under the NAT64 prefix.
    pub closed spec fn nat64(&self) -> IpRangeVec {
        self.rfc8215_ips
    }

    /// The zone that the authority is registered for: the root.
    pub closed spec fn zone(&self) -> Seq<Seq<u8>> {
        self.origin@
    }

    /// What the authority decides of a query: where the table has the name
    /// and an address is asked for, that address, mapped for a NAT64 source;
    /// else the query is left to the next authority.
    pub open spec fn decision(
        &self,
        name: Seq<Seq<u8>>,
        query_type: RecordType,
        source: IpAddress,
    ) -> OutcomeView {
        match address_of(self.table(), name) {
            Some(ip) if query_type.is_ip_addr() => forged(
                Some(
                    if self.nat64().holds(source.coordinate()) {
                        prefixed_address(ip)
                    } else {
                        ip
                    },
                ),
                name,
            ),
            _ => OutcomeView::Defer,
        }
    }

    /// The authority with an empty table.
    pub fn new(rfc8215_ips: IpRangeVec) -> (authority: Self)
        ensures
            authority.table() == Map::<Seq<Seq<u8>>, IpAddress>::empty(),
            authority.nat64() == rfc8215_ips,
            authority.zone() == Seq::<Seq<u8>>::empty(),
    {
        Self {
            rfc8215_ips,
            origin: DomainName::root(),
            local_dns_resolver: LocalDNSResolver::default(),
        }
    }

    /// The zone that the authority is registered for.
    pub fn origin(&self) -> (origin: &DomainName)
        ensures
            origin@ == self.zone(),
    {
        &self.origin
    }

    /// Takes in the outcome of a reload: a table that was loaded replaces the
    /// one that is served, whole; after a failed load the table stays.
    pub fn refresh(&mut self, loaded: Result<LocalDNSResolver, RefreshFailure>) -> (event:
        RefreshEvent)
        ensures
            final(self).nat64() == old(self).nat64(),
            final(self).zone() == old(self).zone(),
            match loaded {
                Ok(table) => event == RefreshEvent::Reloaded && final(self).table() == table@,
                Err(failure) => event == RefreshEvent::Kept(failure) && final(self).table() == old(
                    self,
                ).table(),
            },
    {
        match loaded {
            Ok(table) => {
                self.local_dns_resolver = table;
                RefreshEvent::Reloaded
            },
            Err(failure) => RefreshEvent::Kept(failure),
        }
    }

    /// The authority owns its zone.
    pub fn zone_type(&self) -> (zone_type: ZoneType)
        ensures
            zone_type == ZoneType::Primary,
    {
        ZoneType::Primary
    }

    /// No transfer of the zone is allowed.
    pub fn is_axfr_allowed(&self) -> (allowed: bool)
        ensures
            !allowed,
    {
        false
    }

    /// An update of the zone changes nothing.
    pub fn update(&self) -> (updated: Result<bool, ResponseCode>)
        ensures
            updated == Ok::<bool, ResponseCode>(false),
    {
        Ok(false)
    }

    /// Decides a query.
    pub fn search(&self, request_info: &QueryContext) -> (outcome: DecisionOutcome)
        ensures
            outcome@ == self.decision(
                request_info.name@,
                request_info.query_type,
                request_info.source,
            ),
    {
        let found: Option<IpAddress> = self.local_dns_resolver.get(&request_info.name);
        match found {
            Some(ip) => {
                if request_info.query_type.is_ip_addr() {
                    let shown: IpAddress = if self.rfc8215_ips.contains(request_info.source) {
                        to_prefixed_ip(&ip)
                    } else {
                        ip
                    };
                    forge_or_error(Some(shown), request_info)
                } else {
                    DecisionOutcome::Defer
                }
            },
            None => DecisionOutcome::Defer,
        }
    }

    /// Decides a lookup that is made for a name without a query: it is left
    /// to the next authority.
    pub fn lookup(&self, _name: &DomainName, _query_type: RecordType) -> (outcome: DecisionOutcome)
        ensures
            outcome@ == OutcomeView::Defer,
    {
        DecisionOutcome::Defer
    }

    /// Decides a request for the records that prove a name's absence: it is
    /// left to the next authority.
    pub fn get_nsec_records(&self, _name: &DomainName) -> (outcome: DecisionOutcome)
        ensures
            outcome@ == OutcomeView::Defer,
    {
        DecisionOutcome::Defer
    }
}

} // verus!
