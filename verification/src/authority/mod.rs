use crate::ip::IpAddress;
use crate::record::{
    DecisionOutcome, Lookup, LookupView, OutcomeView, QueryContext, RecordData, RecordDataView,
    RecordView, ResourceRecord, ResponseCode, FORGED_TTL, MAX_TTL,
};
use vstd::prelude::*;

pub mod blacklist;
pub mod default;
pub mod domain_blacklist;
pub mod h2_blacklist;
pub mod local_dns;
pub mod none;
pub mod zone_blacklist;

pub use crate::authority::blacklist::BlacklistAuthority;
pub use crate::authority::default::DefaultAuthority;
pub use crate::authority::domain_blacklist::DomainBlacklistAuthority;
pub use crate::authority::h2_blacklist::{dns_response_to_lookup, H2BlacklistAuthority};
pub use crate::authority::local_dns::LocalDNSAuthority;
pub use crate::authority::none::NoneAuthority;
pub use crate::authority::zone_blacklist::ZoneBlacklistAuthority;

verus! {

/// The well-known prefix `64:ff9b::/96`, under which an IPv4 address is shown
/// to a client that has only IPv6.
pub const NAT64_PREFIX: u128 = 0x0064_ff9b_0000_0000_0000_0000_0000_0000;

/// The IPv6 address that stands for an IPv4 address: the well-known prefix,
/// with the IPv4 address as its last 32 bits.
pub open spec fn prefixed(ip: u32) -> u128 {
    (NAT64_PREFIX + ip) as u128
}

/// The address under the well-known prefix: an IPv4 address is mapped, an
/// IPv6 address is kept.
pub open spec fn prefixed_address(ip: IpAddress) -> IpAddress {
    match ip {
        IpAddress::V4(bits) => IpAddress::V6(prefixed(bits)),
        IpAddress::V6(bits) => IpAddress::V6(bits),
    }
}

/// The record for a NAT64 client: an `A` record becomes the `AAAA` record of
/// the mapped address, with the same owner and time to live; any other record
/// is kept.
pub open spec fn rewritten_record(record: RecordView) -> RecordView {
    match record.data {
        RecordDataView::A(ip) => RecordView {
            name: record.name,
            ttl: record.ttl,
            data: RecordDataView::AAAA(prefixed(ip)),
        },
        _ => record,
    }
}

/// The records for a NAT64 client, one for one and in the same order.
pub open spec fn rewritten(records: Seq<RecordView>) -> Seq<RecordView> {
    Seq::new(records.len(), |i: int| rewritten_record(records[i]))
}

/// What a blocking authority replies: the one record that holds the
/// substitute address, under the name asked for, or a refusal where there is
/// no substitute address.
pub open spec fn forged(ip: Option<IpAddress>, name: Seq<Seq<u8>>) -> OutcomeView {
    match ip {
        Some(ip) => OutcomeView::Answer(
            LookupView {
                records: seq![
                    RecordView { name: name, ttl: FORGED_TTL, data: RecordData::of_address(ip) },
                ],
                ttl: MAX_TTL,
            },
        ),
        None => OutcomeView::Refuse(ResponseCode::NoError),
    }
}

/// The reply of a blocking authority to a query that it blocks.
pub fn forge_or_error(ip: Option<IpAddress>, request_info: &QueryContext) -> (outcome:
    DecisionOutcome)
    ensures
        outcome@ == forged(ip, request_info.name@),
{
    match ip {
        Some(ip) => {
            let record = ResourceRecord {
                name: request_info.name.clone(),
                ttl: FORGED_TTL,
                data: RecordData::from_address(ip),
            };
            let mut records: Vec<ResourceRecord> = Vec::new();
            records.push(record);
            let lookup = Lookup { records, ttl: MAX_TTL };
            assert(lookup@.records =~= seq![
                RecordView {
                    name: request_info.name@,
                    ttl: FORGED_TTL,
                    data: RecordData::of_address(ip),
                },
            ]);
            DecisionOutcome::Answer(lookup)
        },
        None => DecisionOutcome::Refuse(ResponseCode::NoError),
    }
}

/// Maps an IPv4 address into the well-known prefix.
pub fn ipv4_to_prefixed_ipv6(ip: u32) -> (mapped: u128)
    ensures
        mapped == prefixed(ip),
        mapped >> 32 == NAT64_PREFIX >> 32,
        mapped & 0xffff_ffff == ip,
{
    let mapped: u128 = NAT64_PREFIX + ip as u128;
    assert(mapped >> 32 == 0x0064_ff9b_0000_0000_0000_0000_0000_0000u128 >> 32 && mapped
        & 0xffff_ffff == ip) by (bit_vector)
        requires
            mapped == 0x0064_ff9b_0000_0000_0000_0000_0000_0000u128 + ip as u128,
    ;
    mapped
}

/// Maps an address for a NAT64 client.
pub fn to_prefixed_ip(ip: &IpAddress) -> (mapped: IpAddress)
    ensures
        mapped == prefixed_address(*ip),
{
    match ip {
        IpAddress::V4(bits) => IpAddress::V6(ipv4_to_prefixed_ipv6(*bits)),
        IpAddress::V6(bits) => IpAddress::V6(*bits),
    }
}

/// Rewrites an answer of the upstream resolver for a NAT64 client.
pub fn ipv4_to_prefixed_ipv6_records(ipv4_records: &Lookup) -> (lookup: Lookup)
    ensures
        lookup@ == (LookupView { records: rewritten(ipv4_records@.records), ttl: MAX_TTL }),
{
    let mut records: Vec<ResourceRecord> = Vec::new();
    let mut i: usize = 0;
    while i < ipv4_records.records.len()
        invariant
            0 <= i <= ipv4_records.records.len(),
            records@.len() == i,
            forall|k: int| 0 <= k < i ==> records@[k]@ == rewritten_record(ipv4_records.records@[k]@),
        decreases ipv4_records.records.len() - i,
    {
        let record: &ResourceRecord = &ipv4_records.records[i];
        let out = match &record.data {
            RecordData::A(ip) => ResourceRecord {
                name: record.name.clone(),
                ttl: record.ttl,
                data: RecordData::AAAA(ipv4_to_prefixed_ipv6(*ip)),
            },
            _ => record.clone(),
        };
        records.push(out);
        i += 1;
    }
    let lookup = Lookup { records, ttl: MAX_TTL };
    assert(lookup@.records =~= rewritten(ipv4_records@.records));
    lookup
}

/// Rewriting leaves every record that is no `A` record as it is.
pub proof fn lemma_rewrite_keeps_other_records(records: Seq<RecordView>, i: int)
    requires
        0 <= i < records.len(),
        !(records[i].data is A),
    ensures
        rewritten(records)[i] == records[i],
{
}

/// Rewriting an answer that holds no `A` record changes nothing.
pub proof fn lemma_rewrite_without_a_is_identity(records: Seq<RecordView>)
    requires
        forall|i: int| 0 <= i < records.len() ==> !(records[i].data is A),
    ensures
        rewritten(records) == records,
{
    assert(rewritten(records) =~= records);
}

/// Rewriting twice is rewriting once: a rewritten answer holds no `A` record.
pub proof fn lemma_rewrite_is_idempotent(records: Seq<RecordView>)
    ensures
        forall|i: int| 0 <= i < records.len() ==> !(#[trigger] rewritten(records)[i].data is A),
        rewritten(rewritten(records)) == rewritten(records),
{
    assert(rewritten(rewritten(records)) =~= rewritten(records));
}

} // verus!
