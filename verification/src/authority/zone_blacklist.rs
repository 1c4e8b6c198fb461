use crate::authority::{forge_or_error, forged};
use crate::ip::IpAddress;
use crate::name::{in_zone, DomainName};
use crate::record::{
    DecisionOutcome, OutcomeView, QueryContext, RecordType, ResponseCode, ZoneType,
};
use vstd::prelude::*;

verus! {

/// The substitute address of a zone block as an address of either family.
pub open spec fn v4_address(ip: Option<u32>) -> Option<IpAddress> {
    match ip {
        Some(bits) => Some(IpAddress::V4(bits)),
        None => None,
    }
}

/// Blocks a zone: a name and every name below it.
#[derive(Debug)]
pub struct ZoneBlacklistAuthority {
    origin: DomainName,
    default_ip: Option<u32>,
}

impl ZoneBlacklistAuthority {
    /// The name of the blocked zone.
    pub closed spec fn zone(&self) -> Seq<Seq<u8>> {
        self.origin@
    }

    /// The IPv4 address given in place of a refusal, if any.
    pub closed spec fn substitute(&self) -> Option<u32> {
        self.default_ip
    }

    /// What the authority decides of a query: a name of the zone is answered
    /// with the substitute address or refused, any other name is left to the
    /// next authority.
    pub open spec fn decision(&self, name: Seq<Seq<u8>>) -> OutcomeView {
        if in_zone(name, self.zone()) {
            forged(v4_address(self.substitute()), name)
        } else {
            OutcomeView::Defer
        }
    }

    /// The authority that blocks the zone of this name.
    pub fn new(name: DomainName, default_ip: Option<u32>) -> (authority: Self)
        ensures
            authority.zone() == name@,
            authority.substitute() == default_ip,
    {
        Self { origin: name, default_ip }
    }

    /// The name of the blocked zone.
    pub fn origin(&self) -> (origin: &DomainName)
        ensures
            origin@ == self.zone(),
    {
        &self.origin
    }

    /// The authority owns its zone.
    pub fn zone_type(&self) -> (zone_type: ZoneType)
        ensures
            zone_type == ZoneType::Primary,
    {
        ZoneType::Primary
    }

    /// No transfer of the zone is allowed.
    pub fn is_axfr_allowed(&self) -> (allowed: bool)
        ensures
            !allowed,
    {
        false
    }

    /// An update of the zone is refused.
    pub fn update(&self) -> (updated: Result<bool, ResponseCode>)
        ensures
            updated == Err::<bool, ResponseCode>(ResponseCode::NoError),
    {
        Err(ResponseCode::NoError)
    }

    /// Decides a query.
    pub fn search(&self, request_info: &QueryContext) -> (outcome: DecisionOutcome)
        ensures
            outcome@ == self.decision(request_info.name@),
            in_zone(request_info.name@, self.zone()) ==> !(outcome@ is Defer),
    {
        if self.origin.zone_of(&request_info.name) {
            let ip: Option<IpAddress> = match self.default_ip {
                Some(bits) => Some(IpAddress::V4(bits)),
                None => None,
            };
            forge_or_error(ip, request_info)
        } else {
            DecisionOutcome::Defer
        }
    }

    /// Decides a lookup that is made for a name of the zone without a
    /// query: it is refused.
    pub fn lookup(&self, _name: &DomainName, _rtype: RecordType) -> (outcome: DecisionOutcome)
        ensures
            outcome@ == OutcomeView::Refuse(ResponseCode::NoError),
    {
        DecisionOutcome::Refuse(ResponseCode::NoError)
    }

    /// Decides a request for the records that prove a name's absence: it is
    /// refused.
    pub fn get_nsec_records(&self, _name: &DomainName) -> (outcome: DecisionOutcome)
        ensures
            outcome@ == OutcomeView::Refuse(ResponseCode::NoError),
    {
        DecisionOutcome::Refuse(ResponseCode::NoError)
    }
}

} // verus!
