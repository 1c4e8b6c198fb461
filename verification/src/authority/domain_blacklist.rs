use crate::authority::{forge_or_error, forged};
use crate::blockset::BlockSet;
use crate::ip::IpAddress;
use crate::name::DomainName;
use crate::record::{
    DecisionOutcome, OutcomeView, QueryContext, RecordType, ResponseCode, ZoneType,
};
use vstd::prelude::*;

verus! {

/// Blocks the names of a set, each as it stands: a name below a member is
/// not blocked.
#[derive(Debug)]
pub struct DomainBlacklistAuthority {
    blacklisted: BlockSet,
    default_ip: Option<IpAddress>,
    origin: DomainName,
}

impl DomainBlacklistAuthority {
    /// The blocked names.
    pub closed spec fn blocked(&self) -> Set<Seq<Seq<u8>>> {
        self.blacklisted@
    }

    /// The address given in place of a refusal, if any.
    pub closed spec fn substitute(&self) -> Option<IpAddress> {
        self.default_ip
    }

    /// The zone that the authority is registered for: the root.
    pub closed spec fn zone(&self) -> Seq<Seq<u8>> {
        self.origin@
    }

    /// What the authority decides of a query: a blocked name is answered with
    /// the substitute address or refused, any other name is left to the next
    /// authority.
    pub open spec fn decision(&self, name: Seq<Seq<u8>>) -> OutcomeView {
        if self.blocked().contains(name) {
            forged(self.substitute(), name)
        } else {
            OutcomeView::Defer
        }
    }

    /// What the authority decides where no answer can be made up: a blocked
    /// name is refused.
    pub open spec fn refusal(&self, name: Seq<Seq<u8>>) -> OutcomeView {
        if self.blocked().contains(name) {
            OutcomeView::Refuse(ResponseCode::NoError)
        } else {
            OutcomeView::Defer
        }
    }

    /// The authority that blocks these names; it is registered for the root.
    pub fn new(blacklisted: BlockSet, default_ip: Option<IpAddress>) -> (authority: Self)
        ensures
            authority.blocked() == blacklisted@,
            authority.substitute() == default_ip,
            authority.zone() == Seq::<Seq<u8>>::empty(),
    {
        Self { blacklisted, default_ip, origin: DomainName::root() }
    }

    /// The zone that the authority is registered for.
    pub fn origin(&self) -> (origin: &DomainName)
        ensures
            origin@ == self.zone(),
    {
        &self.origin
    }

    /// The authority owns its zone.
    pub fn zone_type(&self) -> (zone_type: ZoneType)
        ensures
            zone_type == ZoneType::Primary,
    {
        ZoneType::Primary
    }

    /// No transfer of the zone is allowed.
    pub fn is_axfr_allowed(&self) -> (allowed: bool)
        ensures
            !allowed,
    {
        false
    }

    /// An update of the zone changes nothing.
    pub fn update(&self) -> (updated: Result<bool, ResponseCode>)
        ensures
            updated == Ok::<bool, ResponseCode>(false),
    {
        Ok(false)
    }

    /// Decides a query.
    pub fn search(&self, request_info: &QueryContext) -> (outcome: DecisionOutcome)
        ensures
            outcome@ == self.decision(request_info.name@),
            self.blocked().contains(request_info.name@) ==> !(outcome@ is Defer),
    {
        if self.blacklisted.contains(&request_info.name) {
            forge_or_error(self.default_ip, request_info)
        } else {
            DecisionOutcome::Defer
        }
    }

    /// Decides a lookup that is made for a name without a query.
    pub fn lookup(&self, name: &DomainName, _query_type: RecordType) -> (outcome: DecisionOutcome)
        ensures
            outcome@ == self.refusal(name@),
    {
        if self.blacklisted.contains(name) {
            DecisionOutcome::Refuse(ResponseCode::NoError)
        } else {
            DecisionOutcome::Defer
        }
    }

    /// Decides a request for the records that prove a name's absence.
    pub fn get_nsec_records(&self, name: &DomainName) -> (outcome: DecisionOutcome)
        ensures
            outcome@ == self.refusal(name@),
    {
        if self.blacklisted.contains(name) {
            DecisionOutcome::Refuse(ResponseCode::NoError)
        } else {
            DecisionOutcome::Defer
        }
    }
}

/// A blocked name is never left to the next authority, whatever the
/// substitute address.
pub proof fn lemma_blocked_name_is_decided(authority: DomainBlacklistAuthority, name: Seq<Seq<u8>>)
    requires
        authority.blocked().contains(name),
    ensures
        !(authority.decision(name) is Defer),
        !(authority.refusal(name) is Defer),
{
}

} // verus!
