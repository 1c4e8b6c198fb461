use crate::authority::{ipv4_to_prefixed_ipv6_records, rewritten};
use crate::ip::{IpAddress, IpRangeVec};
use crate::name::DomainName;
use crate::record::{
    ForwardingFailure, Lookup, LookupView, Query, QueryContext, QueryView, RecordType,
    ResponseCode, MAX_TTL,
};
use vstd::prelude::*;

verus! {

/// Why a question to the upstream resolver brought no answer that can be
/// passed on.
#[derive(Clone, Copy, Debug, PartialEq, Eq, Structural)]
pub enum Unanswered {
    /// The resolver failed.
    Failed(ForwardingFailure),
    /// The resolver returned an answer without a record.
    Empty,
}

/// What the client is told in the end, as a value of specifications.
pub enum ReplyView {
    Answer(LookupView),
    Refuse(ResponseCode),
    Failed(ForwardingFailure),
}

/// What the client is told in the end: an answer, a refusal, or the failure
/// of the upstream resolver.
#[derive(Debug, PartialEq, Eq)]
pub enum Reply {
    Answer(Lookup),
    Refuse(ResponseCode),
    Failed(ForwardingFailure),
}

impl View for Reply {
    type V = ReplyView;

    open spec fn view(&self) -> ReplyView {
        match self {
            Reply::Answer(lookup) => ReplyView::Answer(lookup@),
            Reply::Refuse(code) => ReplyView::Refuse(*code),
            Reply::Failed(failure) => ReplyView::Failed(*failure),
        }
    }
}

/// How the forwarder goes on after the resolver's first answer, as a value of
/// specifications.
pub enum ForwardedView {
    Done(ReplyView),
    Retry(QueryView, Unanswered),
}

/// How the forwarder goes on after the resolver's first answer: it is done,
/// or the resolver is to be asked a second question, with what the first one
/// brought kept for the case that the second fails too.
#[derive(Debug, PartialEq, Eq)]
pub enum Forwarded {
    Done(Reply),
    Retry(Query, Unanswered),
}

impl View for Forwarded {
    type V = ForwardedView;

    open spec fn view(&self) -> ForwardedView {
        match self {
            Forwarded::Done(reply) => ForwardedView::Done(reply@),
            Forwarded::Retry(query, first) => ForwardedView::Retry(query@, *first),
        }
    }
}

/// What the resolver returned, as a value of specifications.
pub open spec fn upstream_view(answer: Result<Lookup, ForwardingFailure>) -> Result<
    LookupView,
    ForwardingFailure,
> {
    match answer {
        Ok(lookup) => Ok(lookup@),
        Err(failure) => Err(failure),
    }
}

/// What is missing in a resolver's answer, or `None` where it can be passed
/// on: it can where it holds at least one record.
pub open spec fn unanswered(answer: Result<LookupView, ForwardingFailure>) -> Option<Unanswered> {
    match answer {
        Ok(lookup) => if lookup.records.len() == 0 {
            Some(Unanswered::Empty)
        } else {
            None
        },
        Err(failure) => Some(Unanswered::Failed(failure)),
    }
}

/// What the client is told where the resolver brought nothing: its failure,
/// or a refusal without an error where its answer was empty.
pub open spec fn reply_without_answer(first: Unanswered) -> ReplyView {
    match first {
        Unanswered::Failed(failure) => ReplyView::Failed(failure),
        Unanswered::Empty => ReplyView::Refuse(ResponseCode::NoError),
    }
}

/// Hands queries to the upstream resolver. Where the resolver has no IPv6
/// address for a NAT64 client, the IPv4 addresses are asked for and shown
/// under the NAT64 prefix.
#[derive(Debug)]
pub struct DefaultAuthority {
    rfc8215_ips: IpRangeVec,
}

impl Clone for DefaultAuthority {
    fn clone(&self) -> (copy: Self)
        ensures
            copy.nat64()@ == self.nat64()@,
    {
        DefaultAuthority { rfc8215_ips: self.rfc8215_ips.clone() }
    }
}

impl DefaultAuthority {
    /// The sources that are given addresses under the NAT64 prefix.
    pub closed spec fn nat64(&self) -> IpRangeVec {
        self.rfc8215_ips
    }

    /// Whether a query that brought nothing is asked again for IPv4
    /// addresses: where it asked for IPv6 addresses and came from a NAT64
    /// source.
    pub open spec fn retries(&self, query_type: RecordType, source: IpAddress) -> bool {
        query_type == RecordType::AAAA && self.nat64().holds(source.coordinate())
    }

    /// How the forwarder goes on after the resolver's answer to the query as
    /// it was framed.
    pub open spec fn forwarded(
        &self,
        name: Seq<Seq<u8>>,
        query_type: RecordType,
        query_class: u16,
        source: IpAddress,
        answer: Result<LookupView, ForwardingFailure>,
    ) -> ForwardedView {
        match unanswered(answer) {
            None => ForwardedView::Done(ReplyView::Answer(answer->Ok_0)),
            Some(first) => if self.retries(query_type, source) {
                ForwardedView::Retry(
                    QueryView { name: name, query_type: RecordType::A, query_class: query_class },
                    first,
                )
            } else {
                ForwardedView::Done(reply_without_answer(first))
            },
        }
    }

    /// What the client is told after the resolver's answer to the second
    /// question: the IPv4 answer rewritten for NAT64, or what the first
    /// question brought where the second brought nothing either.
    pub open spec fn retried(first: Unanswered, answer: Result<LookupView, ForwardingFailure>) -> ReplyView {
        match unanswered(answer) {
            None => ReplyView::Answer(
                LookupView { records: rewritten(answer->Ok_0.records), ttl: MAX_TTL },
            ),
            Some(_) => reply_without_answer(first),
        }
    }

    /// The forwarder with the networks of the NAT64 clients.
    pub fn new(rfc8215_ips: IpRangeVec) -> (authority: Self)
        ensures
            authority.nat64() == rfc8215_ips,
    {
        Self { rfc8215_ips }
    }

    /// The question for the resolver: the query as it was framed.
    pub fn question(request_info: &QueryContext) -> (query: Query)
        ensures
            query@ == (QueryView {
                name: request_info.name@,
                query_type: request_info.query_type,
                query_class: request_info.query_class,
            }),
    {
        Query {
            name: request_info.name.clone(),
            query_type: request_info.query_type,
            query_class: request_info.query_class,
        }
    }

    /// Takes in the resolver's answer to the query as it was framed.
    pub fn search(&self, request_info: &QueryContext, answer: Result<Lookup, ForwardingFailure>) -> (next:
        Forwarded)
        ensures
            next@ == self.forwarded(
                request_info.name@,
                request_info.query_type,
                request_info.query_class,
                request_info.source,
                upstream_view(answer),
            ),
    {
        let first: Unanswered = match answer {
            Ok(lookup) => {
                if lookup.records.len() > 0 {
                    return Forwarded::Done(Reply::Answer(lookup));
                }
                Unanswered::Empty
            },
            Err(failure) => Unanswered::Failed(failure),
        };
        let asks_v6: bool = match request_info.query_type {
            RecordType::AAAA => true,
            _ => false,
        };
        if asks_v6 && self.rfc8215_ips.contains(request_info.source) {
            let query = Query {
                name: request_info.name.clone(),
                query_type: RecordType::A,
                query_class: request_info.query_class,
            };
            Forwarded::Retry(query, first)
        } else {
            Forwarded::Done(Self::without_answer(first))
        }
    }

    /// Takes in the resolver's answer to the second question.
    pub fn search_retried(first: Unanswered, answer: Result<Lookup, ForwardingFailure>) -> (reply:
        Reply)
        ensures
            reply@ == Self::retried(first, upstream_view(answer)),
    {
        match answer {
            Ok(lookup) => {
                if lookup.records.len() > 0 {
                    Reply::Answer(ipv4_to_prefixed_ipv6_records(&lookup))
                } else {
                    Self::without_answer(first)
                }
            },
            Err(_) => Self::without_answer(first),
        }
    }

    /// What the client is told where the resolver brought nothing.
    pub fn without_answer(first: Unanswered) -> (reply: Reply)
        ensures
            reply@ == reply_without_answer(first),
    {
        match first {
            Unanswered::Failed(failure) => Reply::Failed(failure),
            Unanswered::Empty => Reply::Refuse(ResponseCode::NoError),
        }
    }

    /// The zone that the authority is registered for: the root.
    pub fn origin(&self) -> (origin: DomainName)
        ensures
            origin@ == Seq::<Seq<u8>>::empty(),
    {
        DomainName::root()
    }
}

} // verus!
