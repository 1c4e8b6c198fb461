use crate::authority::default::{Reply, ReplyView};
use crate::authority::zone_blacklist::v4_address;
use crate::authority::{forge_or_error, forged};
use crate::blockset::BlockSet;
use crate::ip::IpAddress;
use crate::record::{
    record_views, DecisionOutcome, Lookup, LookupView, OutcomeView, QueryContext, RecordView,
    ResourceRecord, ResponseCode,
};
use vstd::prelude::*;

verus! {

/// What the client is told of the answers of a resolver that is asked over
/// HTTPS: the first answer alone, which holds for as long as that record
/// lives; a refusal where there is no answer.
pub open spec fn first_answer(answers: Seq<RecordView>) -> ReplyView {
    if answers.len() == 0 {
        ReplyView::Refuse(ResponseCode::NoError)
    } else {
        ReplyView::Answer(LookupView { records: seq![answers[0]], ttl: answers[0].ttl })
    }
}

/// Makes the reply to the client of the answers of a resolver that is asked
/// over HTTPS.
pub fn dns_response_to_lookup(answers: &Vec<ResourceRecord>) -> (reply: Reply)
    ensures
        reply@ == first_answer(record_views(answers@)),
{
    if answers.len() == 0 {
        Reply::Refuse(ResponseCode::NoError)
    } else {
        let first: ResourceRecord = answers[0].clone();
        let ttl: u32 = first.ttl;
        let mut records: Vec<ResourceRecord> = Vec::new();
        records.push(first);
        let lookup = Lookup { records, ttl };
        assert(lookup@.records =~= seq![record_views(answers@)[0]]);
        Reply::Answer(lookup)
    }
}

/// Blocks the names of a set; every other query is for a resolver that is
/// asked over HTTPS.
#[derive(Debug)]
pub struct H2BlacklistAuthority {
    blacklisted: BlockSet,
    default_ip: Option<u32>,
}

impl H2BlacklistAuthority {
    /// The blocked names.
    pub closed spec fn blocked(&self) -> Set<Seq<Seq<u8>>> {
        self.blacklisted@
    }

    /// The IPv4 address given in place of a refusal, if any.
    pub closed spec fn substitute(&self) -> Option<u32> {
        self.default_ip
    }

    /// What the authority decides of a query before the resolver is asked:
    /// a blocked name is answered with the substitute address or refused;
    /// any other name is deferred, which sends it to the resolver.
    pub open spec fn decision(&self, name: Seq<Seq<u8>>) -> OutcomeView {
        if self.blocked().contains(name) {
            forged(v4_address(self.substitute()), name)
        } else {
            OutcomeView::Defer
        }
    }

    /// The authority that blocks these names.
    pub fn new(blacklisted: BlockSet, default_ip: Option<u32>) -> (authority: Self)
        ensures
            authority.blocked() == blacklisted@,
            authority.substitute() == default_ip,
    {
        Self { blacklisted, default_ip }
    }

    /// Decides a query before the resolver is asked.
    pub fn search(&self, request_info: &QueryContext) -> (outcome: DecisionOutcome)
        ensures
            outcome@ == self.decision(request_info.name@),
            self.blocked().contains(request_info.name@) ==> !(outcome@ is Defer),
    {
        if self.blacklisted.contains(&request_info.name) {
            let ip: Option<IpAddress> = match self.default_ip {
                Some(bits) => Some(IpAddress::V4(bits)),
                None => None,
            };
            forge_or_error(ip, request_info)
        } else {
            DecisionOutcome::Defer
        }
    }
}

} // verus!
