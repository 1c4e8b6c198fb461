use crate::authority::zone_blacklist::v4_address;
use crate::authority::{forge_or_error, forged, DefaultAuthority};
use crate::blockset::BlockSet;
use crate::ip::{IpAddress, IpRangeVec};
use crate::record::{DecisionOutcome, OutcomeView, QueryContext};
use vstd::prelude::*;

verus! {

/// Blocks the names of a set and forwards every other query: a blocking
/// authority and a forwarder in one.
#[derive(Debug)]
pub struct BlacklistAuthority {
    blacklisted: BlockSet,
    inner: DefaultAuthority,
    default_ip: Option<u32>,
}

impl BlacklistAuthority {
    /// The blocked names.
    pub closed spec fn blocked(&self) -> Set<Seq<Seq<u8>>> {
        self.blacklisted@
    }

    /// The IPv4 address given in place of a refusal, if any.
    pub closed spec fn substitute(&self) -> Option<u32> {
        self.default_ip
    }

    /// The forwarder for the names that are not blocked.
    pub closed spec fn upstream(&self) -> DefaultAuthority {
        self.inner
    }

    /// What the authority decides of a query before the upstream resolver
    /// is asked: a blocked name is answered with the substitute address or
    /// refused; any other name is deferred, which sends it to the forwarder.
    pub open spec fn decision(&self, name: Seq<Seq<u8>>) -> OutcomeView {
        if self.blocked().contains(name) {
            forged(v4_address(self.substitute()), name)
        } else {
            OutcomeView::Defer
        }
    }

    /// The authority that blocks these names and forwards the rest, with the
    /// networks of the NAT64 clients.
    pub fn new(blacklisted: BlockSet, default_ip: Option<u32>, rfc8215_ips: IpRangeVec) -> (authority:
        Self)
        ensures
            authority.blocked() == blacklisted@,
            authority.substitute() == default_ip,
            authority.upstream().nat64() == rfc8215_ips,
    {
        Self { blacklisted, inner: DefaultAuthority::new(rfc8215_ips), default_ip }
    }

    /// The forwarder for the names that are not blocked.
    pub fn forwarder(&self) -> (forwarder: &DefaultAuthority)
        ensures
            *forwarder == self.upstream(),
    {
        &self.inner
    }

    /// Decides a query before the upstream resolver is asked.
    pub fn search(&self, request_info: &QueryContext) -> (outcome: DecisionOutcome)
        ensures
            outcome@ == self.decision(request_info.name@),
            self.blocked().contains(request_info.name@) ==> !(outcome@ is Defer),
    {
        if self.blacklisted.contains(&request_info.name) {
            let ip: Option<IpAddress> = match self.default_ip {
                Some(bits) => Some(IpAddress::V4(bits)),
                None => None,
            };
            forge_or_error(ip, request_info)
        } else {
            DecisionOutcome::Defer
        }
    }
}

} // verus!
