use crate::authority::local_dns::{LocalDNSResolver, RefreshEvent, RefreshFailure};
use crate::authority::{
    DefaultAuthority, DomainBlacklistAuthority, LocalDNSAuthority, ZoneBlacklistAuthority,
};
use crate::index::NameIndex;
use crate::ip::IpAddress;
use crate::name::{in_zone, DomainName};
use crate::record::{DecisionOutcome, OutcomeView, QueryContext, RecordType};
use vstd::prelude::*;

verus! {

/// An authority that decides without the upstream resolver.
#[derive(Debug)]
pub enum Authority {
    ZoneBlacklist(ZoneBlacklistAuthority),
    DomainBlacklist(DomainBlacklistAuthority),
    LocalDNS(LocalDNSAuthority),
}

impl Authority {
    /// What the authority decides of a query.
    pub open spec fn decision(
        &self,
        name: Seq<Seq<u8>>,
        query_type: RecordType,
        source: IpAddress,
    ) -> OutcomeView {
        match self {
            Authority::ZoneBlacklist(authority) => authority.decision(name),
            Authority::DomainBlacklist(authority) => authority.decision(name),
            Authority::LocalDNS(authority) => authority.decision(name, query_type, source),
        }
    }

    /// Decides a query.
    pub fn search(&self, request_info: &QueryContext) -> (outcome: DecisionOutcome)
        ensures
            outcome@ == self.decision(
                request_info.name@,
                request_info.query_type,
                request_info.source,
            ),
    {
        match self {
            Authority::ZoneBlacklist(authority) => authority.search(request_info),
            Authority::DomainBlacklist(authority) => authority.search(request_info),
            Authority::LocalDNS(authority) => authority.search(request_info),
        }
    }
}

/// `new` is `old` after the table of local names was replaced by `table`:
/// an authority that answers from that table has it, and is as before in
/// all else; any other authority is as before.
pub open spec fn is_refreshed(
    old: Authority,
    new: Authority,
    table: Map<Seq<Seq<u8>>, IpAddress>,
) -> bool {
    match old {
        Authority::LocalDNS(before) => new is LocalDNS && new->LocalDNS_0.table() == table
            && new->LocalDNS_0.nat64() == before.nat64() && new->LocalDNS_0.zone()
            == before.zone(),
        _ => new == old,
    }
}

/// Gives an authority the table that was loaded.
pub fn refresh_authority(authority: Authority, table: &LocalDNSResolver) -> (refreshed: Authority)
    ensures
        is_refreshed(authority, refreshed, table@),
{
    match authority {
        Authority::LocalDNS(local) => {
            let mut local = local;
            local.refresh(Ok(table.clone()));
            Authority::LocalDNS(local)
        },
        other => other,
    }
}

/// Gives every authority of a chain the table that was loaded.
pub fn refresh_chain(chain: Vec<Authority>, table: &LocalDNSResolver) -> (refreshed: Vec<
    Authority,
>)
    ensures
        refreshed@.len() == chain@.len(),
        forall|k: int|
            0 <= k < chain@.len() ==> is_refreshed(chain@[k], #[trigger] refreshed@[k], table@),
{
    let ghost all = chain@;
    let mut rest: Vec<Authority> = chain;
    let mut turned: Vec<Authority> = Vec::new();
    while rest.len() > 0
        invariant
            rest@.len() + turned@.len() == all.len(),
            rest@ == all.take(rest@.len() as int),
            forall|k: int|
                0 <= k < turned@.len() ==> is_refreshed(
                    all[all.len() - 1 - k],
                    #[trigger] turned@[k],
                    table@,
                ),
        decreases rest.len(),
    {
        let ghost before = rest@;
        match rest.pop() {
            Some(authority) => {
                assert(rest@ =~= all.take(rest@.len() as int));
                turned.push(refresh_authority(authority, table));
            },
            None => {},
        }
    }
    let ghost half = turned@;
    let mut refreshed: Vec<Authority> = Vec::new();
    while turned.len() > 0
        invariant
            turned@.len() + refreshed@.len() == all.len(),
            half.len() == all.len(),
            turned@ == half.take(turned@.len() as int),
            forall|k: int| 0 <= k < refreshed@.len() ==> #[trigger] refreshed@[k] == half[all.len() - 1 - k],
        decreases turned.len(),
    {
        match turned.pop() {
            Some(authority) => {
                assert(turned@ =~= half.take(turned@.len() as int));
                refreshed.push(authority);
            },
            None => {},
        }
    }
    proof {
        assert forall|k: int| 0 <= k < all.len() implies is_refreshed(
            all[k],
            #[trigger] refreshed@[k],
            table@,
        ) by {
            assert(refreshed@[k] == half[all.len() - 1 - k]);
            assert(is_refreshed(all[all.len() - 1 - (all.len() - 1 - k)], half[all.len() - 1 - k], table@));
        }
    }
    refreshed
}

/// What the authorities of a chain decide from position `from` on: the
/// decision of the first that does not defer; they all defer where none
/// decides.
pub open spec fn chain_decision(
    chain: Seq<Authority>,
    from: int,
    name: Seq<Seq<u8>>,
    query_type: RecordType,
    source: IpAddress,
) -> OutcomeView
    decreases chain.len() - from,
{
    if from < 0 || from >= chain.len() {
        OutcomeView::Defer
    } else {
        let first = chain[from].decision(name, query_type, source);
        if first is Defer {
            chain_decision(chain, from + 1, name, query_type, source)
        } else {
            first
        }
    }
}

/// Decides a query by the authorities of a chain, in order: the first that
/// does not defer wins, and those after it are not consulted.
pub fn search_chain(chain: &Vec<Authority>, request_info: &QueryContext) -> (outcome:
    DecisionOutcome)
    ensures
        outcome@ == chain_decision(
            chain@,
            0,
            request_info.name@,
            request_info.query_type,
            request_info.source,
        ),
{
    let mut i: usize = 0;
    while i < chain.len()
        invariant
            0 <= i <= chain.len(),
            chain_decision(
                chain@,
                0,
                request_info.name@,
                request_info.query_type,
                request_info.source,
            ) == chain_decision(
                chain@,
                i as int,
                request_info.name@,
                request_info.query_type,
                request_info.source,
            ),
        decreases chain.len() - i,
    {
        let outcome = chain[i].search(request_info);
        if !outcome.is_defer() {
            return outcome;
        }
        i += 1;
    }
    DecisionOutcome::Defer
}

/// Every authority of the chain defers.
pub open spec fn all_defer(
    chain: Seq<Authority>,
    name: Seq<Seq<u8>>,
    query_type: RecordType,
    source: IpAddress,
) -> bool {
    forall|i: int| 0 <= i < chain.len() ==> #[trigger] chain[i].decision(name, query_type, source) is Defer
}

/// A chain defers exactly where each of its authorities does.
pub proof fn lemma_chain_defers(
    chain: Seq<Authority>,
    from: int,
    name: Seq<Seq<u8>>,
    query_type: RecordType,
    source: IpAddress,
)
    requires
        0 <= from <= chain.len(),
    ensures
        chain_decision(chain, from, name, query_type, source) is Defer <==> forall|i: int|
            from <= i < chain.len() ==> #[trigger] chain[i].decision(name, query_type, source) is Defer,
    decreases chain.len() - from,
{
    if from < chain.len() {
        lemma_chain_defers(chain, from + 1, name, query_type, source);
    }
}

/// The zone at position `i` holds `name`, and no zone that holds `name` is
/// longer, nor as long and registered later.
pub open spec fn selects(zones: Seq<Seq<Seq<u8>>>, name: Seq<Seq<u8>>, i: int) -> bool {
    &&& 0 <= i < zones.len()
    &&& in_zone(name, zones[i])
    &&& forall|j: int|
        0 <= j < zones.len() && in_zone(name, #[trigger] zones[j]) ==> zones[j].len()
            < zones[i].len() || (zones[j].len() == zones[i].len() && j <= i)
}

/// No zone holds `name`.
pub open spec fn unclaimed(zones: Seq<Seq<Seq<u8>>>, name: Seq<Seq<u8>>) -> bool {
    forall|j: int| 0 <= j < zones.len() ==> !in_zone(name, #[trigger] zones[j])
}

/// The zones of a catalog's entries.
pub open spec fn zone_names(entries: Seq<(DomainName, Vec<Authority>)>) -> Seq<Seq<Seq<u8>>> {
    Seq::new(entries.len(), |i: int| entries[i].0@)
}

/// The chains of authorities by zone, and the forwarder for what they leave.
#[derive(Debug)]
pub struct Catalog {
    authorities: Vec<(DomainName, Vec<Authority>)>,
    zones: NameIndex,
    latest: Vec<usize>,
    forwarder: DefaultAuthority,
}

impl Catalog {
    #[verifier::type_invariant]
    spec fn inv(self) -> bool {
        Self::indexed(self.authorities@, self.zones.listed(), self.latest@)
    }

    /// The index holds the zone of every entry, and for each zone the
    /// position of the entry that was registered for it last.
    spec fn indexed(
        entries: Seq<(DomainName, Vec<Authority>)>,
        listed: Seq<Seq<Seq<u8>>>,
        latest: Seq<usize>,
    ) -> bool {
        &&& listed.no_duplicates()
        &&& latest.len() == listed.len()
        &&& forall|z: int|
            0 <= z < listed.len() ==> (#[trigger] latest[z]) < entries.len()
                && entries[latest[z] as int].0@ == listed[z]
        &&& forall|e: int| 0 <= e < entries.len() ==> #[trigger] Self::known(entries, listed, latest, e)
    }

    /// The zone of the entry at position `e` is in the index, which has for
    /// it an entry that was registered no earlier.
    spec fn known(
        entries: Seq<(DomainName, Vec<Authority>)>,
        listed: Seq<Seq<Seq<u8>>>,
        latest: Seq<usize>,
        e: int,
    ) -> bool {
        exists|z: int| 0 <= z < listed.len() && listed[z] == entries[e].0@ && e <= #[trigger] latest[z]
    }

    /// The registered zones with their chains, in the order of registration.
    pub closed spec fn entries(&self) -> Seq<(DomainName, Vec<Authority>)> {
        self.authorities@
    }

    /// The registered zones, in the order of registration.
    pub open spec fn zones(&self) -> Seq<Seq<Seq<u8>>> {
        zone_names(self.entries())
    }

    /// The forwarder.
    pub closed spec fn upstream(&self) -> DefaultAuthority {
        self.forwarder
    }

    /// What the catalog decides of a query: the decision of the chain of the
    /// longest zone that holds the name; the query is deferred, and so goes
    /// to the forwarder, where that chain defers or no zone holds the name.
    pub open spec fn decision(
        &self,
        name: Seq<Seq<u8>>,
        query_type: RecordType,
        source: IpAddress,
    ) -> OutcomeView {
        if exists|i: int| selects(self.zones(), name, i) {
            let i = choose|i: int| selects(self.zones(), name, i);
            chain_decision(self.entries()[i].1@, 0, name, query_type, source)
        } else {
            OutcomeView::Defer
        }
    }

    /// The catalog without a zone.
    pub fn new(forwarder: DefaultAuthority) -> (catalog: Self)
        ensures
            catalog.entries() == Seq::<(DomainName, Vec<Authority>)>::empty(),
            catalog.upstream() == forwarder,
    {
        let zones = NameIndex::new();
        Catalog { authorities: Vec::new(), zones, latest: Vec::new(), forwarder }
    }

    /// Registers a chain for a zone. A chain that was registered for the
    /// same zone before is no longer consulted.
    pub fn upsert(self, name: DomainName, authorities: Vec<Authority>) -> (catalog: Self)
        ensures
            catalog.entries() == self.entries().push((name, authorities)),
            catalog.upstream() == self.upstream(),
    {
        proof {
            use_type_invariant(&self);
        }
        let ghost before = self.authorities@;
        let ghost listed = self.zones.listed();
        let ghost held = self.latest@;
        let ghost zone = name@;
        let Catalog { authorities: entries, zones, latest, forwarder } = self;
        let mut entries = entries;
        let mut latest = latest;
        let at: usize = entries.len();
        let grown = zones.insert(name.clone());
        let zones = grown.0;
        let z: usize = grown.1;
        if z < latest.len() {
            latest.set(z, at);
        } else {
            latest.push(at);
        }
        entries.push((name, authorities));
        proof {
            let after = entries@;
            let now = zones.listed();
            assert(now[z as int] == zone);
            assert forall|k: int| 0 <= k < now.len() implies (#[trigger] latest@[k]) < after.len()
                && after[latest@[k] as int].0@ == now[k] by {
                if k != z {
                    assert(k < listed.len()) by {
                        if !listed.contains(zone) {
                        }
                    }
                    assert(held[k] < before.len());
                    assert(now[k] == listed[k]);
                    assert(after[held[k] as int] == before[held[k] as int]);
                }
            }
            assert forall|e: int| 0 <= e < after.len() implies #[trigger] Self::known(
                after,
                now,
                latest@,
                e,
            ) by {
                if e < before.len() {
                    assert(Self::known(before, listed, held, e));
                    let k = choose|k: int|
                        0 <= k < listed.len() && listed[k] == before[e].0@ && e <= #[trigger] held[k];
                    assert(now[k] == listed[k]);
                    assert(after[e] == before[e]);
                    if k == z {
                        assert(e <= latest@[k]);
                    } else {
                        assert(latest@[k] == held[k]);
                    }
                } else {
                    assert(after[e].0@ == zone);
                    assert(e <= latest@[z as int]);
                }
            }
        }
        Catalog { authorities: entries, zones, latest, forwarder }
    }

    /// Takes in the outcome of a reload of the table of local names: a table
    /// that was loaded replaces, whole, the table of every authority that
    /// answers from it; after a failed load the catalog is as it was.
    pub fn refresh(self, loaded: Result<LocalDNSResolver, RefreshFailure>) -> (next: (
        Self,
        RefreshEvent,
    ))
        ensures
            next.0.upstream() == self.upstream(),
            next.0.zones() == self.zones(),
            match loaded {
                Ok(table) => next.1 == RefreshEvent::Reloaded && forall|i: int|
                    0 <= i < self.entries().len() ==> Self::chain_refreshed(
                        self.entries()[i].1@,
                        (#[trigger] next.0.entries()[i]).1@,
                        table@,
                    ),
                Err(failure) => next.1 == RefreshEvent::Kept(failure) && next.0.entries()
                    == self.entries(),
            },
    {
        proof {
            use_type_invariant(&self);
        }
        let table: LocalDNSResolver = match loaded {
            Ok(table) => table,
            Err(failure) => {
                return (self, RefreshEvent::Kept(failure));
            },
        };
        let ghost all = self.authorities@;
        let ghost listed = self.zones.listed();
        let Catalog { authorities, zones, latest, forwarder } = self;
        let mut rest: Vec<(DomainName, Vec<Authority>)> = authorities;
        let mut turned: Vec<(DomainName, Vec<Authority>)> = Vec::new();
        while rest.len() > 0
            invariant
                rest@.len() + turned@.len() == all.len(),
                rest@ == all.take(rest@.len() as int),
                forall|k: int|
                    0 <= k < turned@.len() ==> (#[trigger] turned@[k]).0@ == all[all.len() - 1 - k].0@
                        && Self::chain_refreshed(
                        all[all.len() - 1 - k].1@,
                        turned@[k].1@,
                        table@,
                    ),
            decreases rest.len(),
        {
            match rest.pop() {
                Some(entry) => {
                    assert(rest@ =~= all.take(rest@.len() as int));
                    let chain: Vec<Authority> = refresh_chain(entry.1, &table);
                    turned.push((entry.0, chain));
                },
                None => {},
            }
        }
        let ghost half = turned@;
        let mut entries: Vec<(DomainName, Vec<Authority>)> = Vec::new();
        while turned.len() > 0
            invariant
                turned@.len() + entries@.len() == all.len(),
                half.len() == all.len(),
                turned@ == half.take(turned@.len() as int),
                forall|k: int| 0 <= k < entries@.len() ==> #[trigger] entries@[k] == half[all.len() - 1 - k],
            decreases turned.len(),
        {
            match turned.pop() {
                Some(entry) => {
                    assert(turned@ =~= half.take(turned@.len() as int));
                    entries.push(entry);
                },
                None => {},
            }
        }
        proof {
            assert forall|i: int| 0 <= i < all.len() implies (#[trigger] entries@[i]).0@ == all[i].0@
                && Self::chain_refreshed(all[i].1@, entries@[i].1@, table@) by {
                let k = all.len() - 1 - i;
                assert(entries@[i] == half[k]);
                assert(half[k].0@ == all[all.len() - 1 - k].0@);
            }
            assert(zone_names(entries@) =~= zone_names(all));
            assert forall|e: int| 0 <= e < entries@.len() implies #[trigger] Self::known(
                entries@,
                listed,
                latest@,
                e,
            ) by {
                assert(Self::known(all, listed, latest@, e));
                let z = choose|z: int|
                    0 <= z < listed.len() && listed[z] == all[e].0@ && e <= #[trigger] latest@[z];
                assert(listed[z] == entries@[e].0@);
            }
            assert forall|z: int| 0 <= z < listed.len() implies (#[trigger] latest@[z])
                < entries@.len() && entries@[latest@[z] as int].0@ == listed[z] by {
                assert(all[latest@[z] as int].0@ == listed[z]);
            }
        }
        (Catalog { authorities: entries, zones, latest, forwarder }, RefreshEvent::Reloaded)
    }

    /// Each authority of the new chain is the authority at the same place
    /// of the old one, after the table of local names was replaced.
    pub open spec fn chain_refreshed(
        old: Seq<Authority>,
        new: Seq<Authority>,
        table: Map<Seq<Seq<u8>>, IpAddress>,
    ) -> bool {
        new.len() == old.len() && forall|k: int|
            0 <= k < old.len() ==> is_refreshed(old[k], #[trigger] new[k], table)
    }

    /// The position of the chain for `name`: that of the longest zone that
    /// holds it.
    pub fn find_index(&self, name: &DomainName) -> (found: Option<usize>)
        ensures
            match found {
                Some(i) => selects(self.zones(), name@, i as int),
                None => unclaimed(self.zones(), name@),
            },
    {
        proof {
            use_type_invariant(self);
        }
        let ghost entries = self.authorities@;
        let ghost listed = self.zones.listed();
        let mut zone: DomainName = name.clone();
        let mut dropped: usize = 0;
        let total: usize = name.num_labels();
        proof {
            assert(name@.skip(0) =~= name@);
        }
        loop
            invariant
                0 <= dropped <= name@.len(),
                total == name@.len(),
                zone@ == name@.skip(dropped as int),
                entries == self.authorities@,
                listed == self.zones.listed(),
                Self::indexed(entries, listed, self.latest@),
                forall|j: int|
                    0 <= j < entries.len() && in_zone(name@, #[trigger] zone_names(entries)[j])
                        ==> zone_names(entries)[j].len() <= zone@.len(),
            decreases name@.len() - dropped,
        {
            match self.zones.position(&zone) {
                Some(z) => {
                    let at: usize = self.latest[z];
                    proof {
                        let names = zone_names(entries);
                        assert(names[at as int] == zone@);
                        assert(in_zone(name@, zone@)) by {
                            assert(name@.subrange(name@.len() - zone@.len(), name@.len() as int)
                                =~= zone@);
                        }
                        assert forall|j: int|
                            0 <= j < names.len() && in_zone(
                                name@,
                                #[trigger] names[j],
                            ) implies names[j].len() < names[at as int].len() || (names[j].len()
                            == names[at as int].len() && j <= at) by {
                            if names[j].len() == zone@.len() {
                                assert(names[j] =~= zone@);
                                assert(Self::known(entries, listed, self.latest@, j));
                                let k = choose|k: int|
                                    0 <= k < listed.len() && listed[k] == entries[j].0@ && j
                                        <= #[trigger] self.latest@[k];
                                assert(k == z);
                            }
                        }
                    }
                    return Some(at);
                },
                None => {
                    proof {
                        let names = zone_names(entries);
                        assert forall|j: int|
                            0 <= j < entries.len() && in_zone(
                                name@,
                                #[trigger] names[j],
                            ) implies names[j].len() < zone@.len() by {
                            if names[j].len() == zone@.len() {
                                assert(names[j] =~= zone@);
                                assert(Self::known(entries, listed, self.latest@, j));
                            }
                        }
                    }
                    if zone.is_root() {
                        return None;
                    }
                    proof {
                        assert(name@.skip(dropped as int).subrange(1, zone@.len() as int)
                            =~= name@.skip(dropped + 1));
                    }
                    zone = zone.base_name();
                    dropped += 1;
                },
            }
        }
    }

    /// The chain for `name`, if a zone holds it.
    pub fn find(&self, name: &DomainName) -> (chain: Option<&Vec<Authority>>)
        ensures
            match chain {
                Some(chain) => exists|i: int|
                    selects(self.zones(), name@, i) && *chain == self.entries()[i].1,
                None => unclaimed(self.zones(), name@),
            },
    {
        match self.find_index(name) {
            Some(i) => {
                assert(selects(self.zones(), name@, i as int));
                Some(&self.authorities[i].1)
            },
            None => None,
        }
    }

    /// Decides a query by the chain of its zone.
    pub fn lookup(&self, request_info: &QueryContext) -> (outcome: DecisionOutcome)
        ensures
            outcome@ == self.decision(
                request_info.name@,
                request_info.query_type,
                request_info.source,
            ),
    {
        match self.find_index(&request_info.name) {
            Some(i) => {
                proof {
                    lemma_selection_is_unique(self.zones(), request_info.name@, i as int);
                }
                search_chain(&self.authorities[i].1, request_info)
            },
            None => {
                assert(!exists|i: int| selects(self.zones(), request_info.name@, i));
                DecisionOutcome::Defer
            },
        }
    }

    /// The forwarder.
    pub fn forwarder(&self) -> (forwarder: &DefaultAuthority)
        ensures
            *forwarder == self.upstream(),
    {
        &self.forwarder
    }
}

/// At most one position is selected for a name.
pub proof fn lemma_selection_is_unique(zones: Seq<Seq<Seq<u8>>>, name: Seq<Seq<u8>>, i: int)
    requires
        selects(zones, name, i),
    ensures
        forall|j: int| selects(zones, name, j) ==> j == i,
        (choose|j: int| selects(zones, name, j)) == i,
{
}

/// The authority has `name` on its list: in its zone, in its set, or in its
/// table.
pub open spec fn lists(authority: Authority, name: Seq<Seq<u8>>) -> bool {
    match authority {
        Authority::ZoneBlacklist(authority) => in_zone(name, authority.zone()),
        Authority::DomainBlacklist(authority) => authority.blocked().contains(name),
        Authority::LocalDNS(authority) => authority.table().dom().contains(name),
    }
}

/// A name that no authority of the catalog has on its list goes to the
/// forwarder, whatever is asked of it and from wherever: the catalog defers.
pub proof fn lemma_unlisted_name_is_forwarded(
    catalog: Catalog,
    name: Seq<Seq<u8>>,
    query_type: RecordType,
    source: IpAddress,
)
    requires
        forall|i: int, k: int|
            0 <= i < catalog.entries().len() && 0 <= k < catalog.entries()[i].1@.len() ==> !lists(
                #[trigger] catalog.entries()[i].1@[k],
                name,
            ),
    ensures
        catalog.decision(name, query_type, source) is Defer,
{
    if exists|i: int| selects(catalog.zones(), name, i) {
        let i = choose|i: int| selects(catalog.zones(), name, i);
        let chain = catalog.entries()[i].1@;
        lemma_chain_defers(chain, 0, name, query_type, source);
        assert forall|k: int| 0 <= k < chain.len() implies #[trigger] chain[k].decision(
            name,
            query_type,
            source,
        ) is Defer by {
            assert(!lists(catalog.entries()[i].1@[k], name));
        }
    }
}

/// A name that a blocking authority of a chain has on its list is never left
/// to the forwarder.
pub proof fn lemma_listed_name_is_decided(
    chain: Seq<Authority>,
    k: int,
    name: Seq<Seq<u8>>,
    query_type: RecordType,
    source: IpAddress,
)
    requires
        0 <= k < chain.len(),
        !(chain[k] is LocalDNS),
        lists(chain[k], name),
    ensures
        !(chain_decision(chain, 0, name, query_type, source) is Defer),
{
    lemma_chain_defers(chain, 0, name, query_type, source);
    assert(!(chain[k].decision(name, query_type, source) is Defer));
}

} // verus!
