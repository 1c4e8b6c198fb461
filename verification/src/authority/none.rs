use crate::authority::zone_blacklist::v4_address;
use crate::authority::{forge_or_error, forged};
use crate::ip::IpAddress;
use crate::name::DomainName;
use crate::record::{
    DecisionOutcome, OutcomeView, QueryContext, RecordType, ResponseCode, ZoneType,
};
use vstd::prelude::*;

verus! {

/// Blocks every query that it is given, whatever the name. It is for a
/// catalog that hands it the names of its zone only.
#[derive(Debug)]
pub struct NoneAuthority {
    origin: DomainName,
    default_ip: Option<u32>,
}

impl NoneAuthority {
    /// The name of the blocked zone.
    pub closed spec fn zone(&self) -> Seq<Seq<u8>> {
        self.origin@
    }

    /// The IPv4 address given in place of a refusal, if any.
    pub closed spec fn substitute(&self) -> Option<u32> {
        self.default_ip
    }

    /// The authority that blocks the zone of this name.
    pub fn new(name: DomainName, default_ip: Option<u32>) -> (authority: Self)
        ensures
            authority.zone() == name@,
            authority.substitute() == default_ip,
    {
        Self { origin: name, default_ip }
    }

    /// The name of the blocked zone.
    pub fn origin(&self) -> (origin: &DomainName)
        ensures
            origin@ == self.zone(),
    {
        &self.origin
    }

    /// The authority owns its zone.
    pub fn zone_type(&self) -> (zone_type: ZoneType)
        ensures
            zone_type == ZoneType::Primary,
    {
        ZoneType::Primary
    }

    /// No transfer of the zone is allowed.
    pub fn is_axfr_allowed(&self) -> (allowed: bool)
        ensures
            !allowed,
    {
        false
    }

    /// An update of the zone is refused.
    pub fn update(&self) -> (updated: Result<bool, ResponseCode>)
        ensures
            updated == Err::<bool, ResponseCode>(ResponseCode::NoError),
    {
        Err(ResponseCode::NoError)
    }

    /// Decides a query: the substitute address, or a refusal where there is
    /// none.
    pub fn search(&self, request_info: &QueryContext) -> (outcome: DecisionOutcome)
        ensures
            outcome@ == forged(v4_address(self.substitute()), request_info.name@),
            !(outcome@ is Defer),
    {
        let ip: Option<IpAddress> = match self.default_ip {
            Some(bits) => Some(IpAddress::V4(bits)),
            None => None,
        };
        forge_or_error(ip, request_info)
    }

    /// Decides a lookup that is made without a query: it is refused.
    pub fn lookup(&self, _name: &DomainName, _query_type: RecordType) -> (outcome: DecisionOutcome)
        ensures
            outcome@ == OutcomeView::Refuse(ResponseCode::NoError),
    {
        DecisionOutcome::Refuse(ResponseCode::NoError)
    }

    /// Decides a request for the records that prove a name's absence: it is
    /// refused.
    pub fn get_nsec_records(&self, _name: &DomainName) -> (outcome: DecisionOutcome)
        ensures
            outcome@ == OutcomeView::Refuse(ResponseCode::NoError),
    {
        DecisionOutcome::Refuse(ResponseCode::NoError)
    }
}

} // verus!
