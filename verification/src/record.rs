use crate::ip::IpAddress;
use crate::name::DomainName;
use vstd::prelude::*;

verus! {

/// The validity, in seconds, of an answer that the server makes up.
pub const MAX_TTL: u32 = 86400;

/// The time to live, in seconds, of a record that the server makes up.
pub const FORGED_TTL: u32 = 600;

/// The type of a query or of a record: an IPv4 address, an IPv6 address, or
/// another type by its number.
#[derive(Clone, Copy, Debug, PartialEq, Eq, Structural)]
pub enum RecordType {
    A,
    AAAA,
    Other(u16),
}

impl RecordType {
    /// Whether the type is one of the two address types.
    pub open spec fn spec_is_ip_addr(&self) -> bool {
        *self == RecordType::A || *self == RecordType::AAAA
    }

    /// Whether the type is one of the two address types.
    #[verifier::when_used_as_spec(spec_is_ip_addr)]
    pub fn is_ip_addr(&self) -> (address: bool)
        ensures
            address == self.is_ip_addr(),
    {
        match self {
            RecordType::A => true,
            RecordType::AAAA => true,
            RecordType::Other(_) => false,
        }
    }
}

/// The transport that a query came by.
#[derive(Clone, Copy, Debug, PartialEq, Eq, Structural)]
pub enum Protocol {
    Udp,
    Tcp,
    Tls,
    Https,
}

/// The response code of a refusal.
#[derive(Clone, Copy, Debug, PartialEq, Eq, Structural)]
pub enum ResponseCode {
    NoError,
    NXDomain,
}

/// How an authority stands to its zone.
#[derive(Clone, Copy, Debug, PartialEq, Eq, Structural)]
pub enum ZoneType {
    /// The authority owns the zone.
    Primary,
    /// The authority holds a copy of the zone.
    Secondary,
    /// The authority asks other servers.
    External,
}

/// Why the upstream resolver gave no answer.
#[derive(Clone, Copy, Debug, PartialEq, Eq, Structural)]
pub enum ForwardingFailure {
    /// The resolver answered with this response code.
    ResponseCode(u16),
    /// The resolver did not answer in time.
    TimedOut,
    /// The resolver could not be reached.
    Unreachable,
}

/// What a record holds, as a value of specifications.
pub enum RecordDataView {
    A(u32),
    AAAA(u128),
    Other(u16, Seq<u8>),
}

/// What a record holds: an IPv4 address, an IPv6 address, or the bytes of a
/// record of another type.
#[derive(Debug, PartialEq, Eq)]
pub enum RecordData {
    A(u32),
    AAAA(u128),
    Other(u16, Vec<u8>),
}

impl View for RecordData {
    type V = RecordDataView;

    open spec fn view(&self) -> RecordDataView {
        match self {
            RecordData::A(ip) => RecordDataView::A(*ip),
            RecordData::AAAA(ip) => RecordDataView::AAAA(*ip),
            RecordData::Other(code, bytes) => RecordDataView::Other(*code, bytes@),
        }
    }
}

impl Clone for RecordData {
    fn clone(&self) -> (copy: Self)
        ensures
            copy@ == self@,
    {
        match self {
            RecordData::A(ip) => RecordData::A(*ip),
            RecordData::AAAA(ip) => RecordData::AAAA(*ip),
            RecordData::Other(code, bytes) => {
                let mut out: Vec<u8> = Vec::new();
                let mut i: usize = 0;
                while i < bytes.len()
                    invariant
                        0 <= i <= bytes.len(),
                        out@ == bytes@.subrange(0, i as int),
                    decreases bytes.len() - i,
                {
                    out.push(bytes[i]);
                    assert(out@ =~= bytes@.subrange(0, i + 1));
                    i += 1;
                }
                assert(out@ =~= bytes@);
                RecordData::Other(*code, out)
            },
        }
    }
}

impl RecordData {
    /// The record data that holds an address: `A` for IPv4, `AAAA` for IPv6.
    pub open spec fn of_address(ip: IpAddress) -> RecordDataView {
        match ip {
            IpAddress::V4(bits) => RecordDataView::A(bits),
            IpAddress::V6(bits) => RecordDataView::AAAA(bits),
        }
    }

    /// The record data that holds an address.
    pub fn from_address(ip: IpAddress) -> (data: RecordData)
        ensures
            data@ == Self::of_address(ip),
    {
        match ip {
            IpAddress::V4(bits) => RecordData::A(bits),
            IpAddress::V6(bits) => RecordData::AAAA(bits),
        }
    }

    /// The type of a record with this data.
    pub open spec fn type_of(data: RecordDataView) -> RecordType {
        match data {
            RecordDataView::A(_) => RecordType::A,
            RecordDataView::AAAA(_) => RecordType::AAAA,
            RecordDataView::Other(code, _) => RecordType::Other(code),
        }
    }

    /// The type of a record with this data.
    pub fn record_type(&self) -> (rtype: RecordType)
        ensures
            rtype == Self::type_of(self@),
    {
        match self {
            RecordData::A(_) => RecordType::A,
            RecordData::AAAA(_) => RecordType::AAAA,
            RecordData::Other(code, _) => RecordType::Other(*code),
        }
    }
}

/// A resource record, as a value of specifications.
pub struct RecordView {
    pub name: Seq<Seq<u8>>,
    pub ttl: u32,
    pub data: RecordDataView,
}

/// A resource record: its owner, its time to live in seconds, and its data.
#[derive(Debug, PartialEq, Eq)]
pub struct ResourceRecord {
    pub name: DomainName,
    pub ttl: u32,
    pub data: RecordData,
}

impl View for ResourceRecord {
    type V = RecordView;

    open spec fn view(&self) -> RecordView {
        RecordView { name: self.name@, ttl: self.ttl, data: self.data@ }
    }
}

impl Clone for ResourceRecord {
    fn clone(&self) -> (copy: Self)
        ensures
            copy@ == self@,
    {
        ResourceRecord { name: self.name.clone(), ttl: self.ttl, data: self.data.clone() }
    }
}

/// The records of a vector of records.
pub open spec fn record_views(records: Seq<ResourceRecord>) -> Seq<RecordView> {
    Seq::new(records.len(), |i: int| records[i]@)
}

/// Copies the records.
pub fn clone_records(records: &Vec<ResourceRecord>) -> (copy: Vec<ResourceRecord>)
    ensures
        record_views(copy@) == record_views(records@),
{
    let mut copy: Vec<ResourceRecord> = Vec::new();
    let mut i: usize = 0;
    while i < records.len()
        invariant
            0 <= i <= records.len(),
            copy@.len() == i,
            forall|k: int| 0 <= k < i ==> copy@[k]@ == records@[k]@,
        decreases records.len() - i,
    {
        copy.push(records[i].clone());
        i += 1;
    }
    assert(record_views(copy@) =~= record_views(records@));
    copy
}

/// An answer, as a value of specifications.
pub struct LookupView {
    pub records: Seq<RecordView>,
    pub ttl: u32,
}

/// An answer: its records in order, and for how many seconds it holds.
#[derive(Debug, PartialEq, Eq)]
pub struct Lookup {
    pub records: Vec<ResourceRecord>,
    pub ttl: u32,
}

impl View for Lookup {
    type V = LookupView;

    open spec fn view(&self) -> LookupView {
        LookupView { records: record_views(self.records@), ttl: self.ttl }
    }
}

impl Clone for Lookup {
    fn clone(&self) -> (copy: Self)
        ensures
            copy@ == self@,
    {
        Lookup { records: clone_records(&self.records), ttl: self.ttl }
    }
}

/// A query as the transport hands it over: the name asked for, the type and
/// class of the question, the address it came from, and the transport.
#[derive(Debug, PartialEq, Eq)]
pub struct QueryContext {
    pub name: DomainName,
    pub query_type: RecordType,
    pub query_class: u16,
    pub source: IpAddress,
    pub protocol: Protocol,
}

impl Clone for QueryContext {
    fn clone(&self) -> (copy: Self)
        ensures
            copy.name@ == self.name@,
            copy.query_type == self.query_type,
            copy.query_class == self.query_class,
            copy.source == self.source,
            copy.protocol == self.protocol,
    {
        QueryContext {
            name: self.name.clone(),
            query_type: self.query_type,
            query_class: self.query_class,
            source: self.source,
            protocol: self.protocol,
        }
    }
}

/// A question for the upstream resolver, as a value of specifications.
pub struct QueryView {
    pub name: Seq<Seq<u8>>,
    pub query_type: RecordType,
    pub query_class: u16,
}

/// A question for the upstream resolver.
#[derive(Debug, PartialEq, Eq)]
pub struct Query {
    pub name: DomainName,
    pub query_type: RecordType,
    pub query_class: u16,
}

impl View for Query {
    type V = QueryView;

    open spec fn view(&self) -> QueryView {
        QueryView { name: self.name@, query_type: self.query_type, query_class: self.query_class }
    }
}

/// What an authority decides of a query, as a value of specifications.
pub enum OutcomeView {
    Answer(LookupView),
    Refuse(ResponseCode),
    Defer,
}

/// What an authority decides of a query: it answers, it refuses, or it leaves
/// the query to the next authority and in the end to the upstream resolver.
#[derive(Debug, PartialEq, Eq)]
pub enum DecisionOutcome {
    Answer(Lookup),
    Refuse(ResponseCode),
    Defer,
}

impl View for DecisionOutcome {
    type V = OutcomeView;

    open spec fn view(&self) -> OutcomeView {
        match self {
            DecisionOutcome::Answer(lookup) => OutcomeView::Answer(lookup@),
            DecisionOutcome::Refuse(code) => OutcomeView::Refuse(*code),
            DecisionOutcome::Defer => OutcomeView::Defer,
        }
    }
}

impl DecisionOutcome {
    /// Whether the authority left the query to the next one.
    pub fn is_defer(&self) -> (defer: bool)
        ensures
            defer == (self@ == OutcomeView::Defer),
    {
        match self {
            DecisionOutcome::Defer => true,
            _ => false,
        }
    }
}

} // verus!
