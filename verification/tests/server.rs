use dns_server::authority::default::{Reply, Unanswered};
use dns_server::authority::local_dns::{LocalDNSResolver, RefreshEvent, RefreshFailure};
use dns_server::authority::{
    DefaultAuthority, DomainBlacklistAuthority, LocalDNSAuthority, ZoneBlacklistAuthority,
};
use dns_server::blockset::BlockSet;
use dns_server::catalog::{search_chain, Authority, Catalog};
use dns_server::ip::{IpAddress, IpRange, IpRangeVec};
use dns_server::name::DomainName;
use dns_server::record::{
    DecisionOutcome, ForwardingFailure, Lookup, Protocol, Query, QueryContext, RecordData,
    RecordType, ResourceRecord, ResponseCode,
};
use dns_server::server::{AccessControl, Action, Event, QueryState, Server};

fn name(text: &str) -> DomainName {
    DomainName::parse(text).unwrap()
}

fn v4(a: u8, b: u8, c: u8, d: u8) -> u32 {
    u32::from_be_bytes([a, b, c, d])
}

fn ranges(texts: &[&str]) -> IpRangeVec {
    IpRangeVec::new(texts.iter().map(|text| IpRange::try_from(*text).unwrap()).collect())
}

fn query(text: &str, query_type: RecordType, source: IpAddress) -> QueryContext {
    QueryContext { name: name(text), query_type, query_class: 1, source, protocol: Protocol::Udp }
}

fn client() -> IpAddress {
    IpAddress::V4(v4(192, 0, 2, 1))
}

fn nat64_client() -> IpAddress {
    IpAddress::V6(0xfd00_0000_0000_0000_0000_0000_0000_0001)
}

fn catalog(default_ip: Option<u32>) -> Catalog {
    let mut catalog = Catalog::new(DefaultAuthority::new(ranges(&["fd00::/8"])));
    catalog = catalog.upsert(
        name("tracking.example.com."),
        vec![Authority::ZoneBlacklist(ZoneBlacklistAuthority::new(
            name("tracking.example.com."),
            default_ip,
        ))],
    );
    let blocked = BlockSet::new(vec![name("ads.example.com.")]);
    catalog = catalog.upsert(
        DomainName::root(),
        vec![Authority::DomainBlacklist(DomainBlacklistAuthority::new(
            blocked,
            default_ip.map(IpAddress::V4),
        ))],
    );
    catalog
}

fn server(default_ip: Option<u32>) -> Server {
    Server::with_access(catalog(default_ip), None, None)
}

fn refused() -> (QueryState, Action) {
    (QueryState::Finished, Action::Reply(Reply::Refuse(ResponseCode::NoError)))
}

#[test]
fn scenario_blocked_domain_without_default_ip_is_refused() {
    let ctx = query("ads.example.com.", RecordType::A, client());
    assert_eq!(server(None).step(&ctx, QueryState::Received, Event::Arrived), refused());
}

#[test]
fn scenario_blocked_domain_with_default_ip_is_answered() {
    let ctx = query("ads.example.com.", RecordType::A, client());
    let answer = Lookup {
        records: vec![ResourceRecord {
            name: name("ads.example.com."),
            ttl: 600,
            data: RecordData::A(v4(0, 0, 0, 0)),
        }],
        ttl: 86400,
    };
    assert_eq!(
        server(Some(0)).step(&ctx, QueryState::Received, Event::Arrived),
        (QueryState::Finished, Action::Reply(Reply::Answer(answer)))
    );
}

#[test]
fn scenario_zone_block_refuses_below_the_zone_and_forwards_other_zones() {
    let server = server(None);
    let deep = query("deep.tracking.example.com.", RecordType::A, client());
    assert_eq!(server.step(&deep, QueryState::Received, Event::Arrived), refused());
    let other = query("tracking.example.org.", RecordType::A, client());
    assert_eq!(
        server.step(&other, QueryState::Received, Event::Arrived),
        (
            QueryState::Forwarding,
            Action::Resolve(Query {
                name: name("tracking.example.org."),
                query_type: RecordType::A,
                query_class: 1,
            })
        )
    );
}

#[test]
fn scenario_nat64_client_gets_the_a_answer_under_the_prefix() {
    let server = server(None);
    let ctx = query("example.com.", RecordType::AAAA, nat64_client());
    let (state, action) = server.step(&ctx, QueryState::Received, Event::Arrived);
    assert_eq!(state, QueryState::Forwarding);
    assert_eq!(
        action,
        Action::Resolve(Query {
            name: name("example.com."),
            query_type: RecordType::AAAA,
            query_class: 1,
        })
    );
    let failure = ForwardingFailure::ResponseCode(2);
    let (state, action) = server.step(&ctx, state, Event::Answered(Err(failure)));
    assert_eq!(state, QueryState::Retrying(Unanswered::Failed(failure)));
    assert_eq!(
        action,
        Action::Resolve(Query {
            name: name("example.com."),
            query_type: RecordType::A,
            query_class: 1,
        })
    );
    let upstream = Lookup {
        records: vec![ResourceRecord {
            name: name("example.com."),
            ttl: 300,
            data: RecordData::A(v4(93, 184, 216, 34)),
        }],
        ttl: 300,
    };
    let (state, action) = server.step(&ctx, state, Event::Answered(Ok(upstream)));
    assert_eq!(state, QueryState::Finished);
    assert_eq!(
        action,
        Action::Reply(Reply::Answer(Lookup {
            records: vec![ResourceRecord {
                name: name("example.com."),
                ttl: 300,
                data: RecordData::AAAA(0x0064_ff9b_0000_0000_0000_0000_5db8_d822),
            }],
            ttl: 86400,
        }))
    );
    assert_eq!(
        server.step(&ctx, state, Event::Arrived),
        (QueryState::Finished, Action::Drop)
    );
}

#[test]
fn failed_retry_gives_the_first_failure() {
    let server = server(None);
    let ctx = query("example.com.", RecordType::AAAA, nat64_client());
    let first = ForwardingFailure::ResponseCode(3);
    let (state, _) = server.step(&ctx, QueryState::Forwarding, Event::Answered(Err(first)));
    assert_eq!(
        server.step(&ctx, state, Event::Answered(Err(ForwardingFailure::TimedOut))),
        (QueryState::Finished, Action::Reply(Reply::Failed(first)))
    );
}

#[test]
fn failure_for_other_client_is_passed_on() {
    let server = server(None);
    let ctx = query("example.com.", RecordType::AAAA, client());
    assert_eq!(
        server.step(&ctx, QueryState::Forwarding, Event::Answered(Err(ForwardingFailure::TimedOut))),
        (QueryState::Finished, Action::Reply(Reply::Failed(ForwardingFailure::TimedOut)))
    );
}

#[test]
fn upstream_answer_is_passed_on() {
    let server = server(None);
    let ctx = query("example.com.", RecordType::A, client());
    let upstream = Lookup {
        records: vec![ResourceRecord { name: name("example.com."), ttl: 3, data: RecordData::A(7) }],
        ttl: 3,
    };
    assert_eq!(
        server.step(&ctx, QueryState::Forwarding, Event::Answered(Ok(upstream.clone()))),
        (QueryState::Finished, Action::Reply(Reply::Answer(upstream)))
    );
}

#[test]
fn event_out_of_turn_ends_with_a_refusal() {
    let server = server(None);
    let ctx = query("example.com.", RecordType::A, client());
    let answer = || Event::Answered(Err(ForwardingFailure::TimedOut));
    assert_eq!(server.step(&ctx, QueryState::Received, answer()), refused());
    assert_eq!(server.step(&ctx, QueryState::Forwarding, Event::Arrived), refused());
    assert_eq!(
        server.step(&ctx, QueryState::Retrying(Unanswered::Empty), Event::Arrived),
        refused()
    );
    assert_eq!(
        server.step(&ctx, QueryState::Finished, answer()),
        (QueryState::Finished, Action::Drop)
    );
}

#[test]
fn denied_source_is_dropped_before_any_authority() {
    let blocking = Server::with_access(catalog(Some(0)), Some(ranges(&["192.0.2.0/24"])), None);
    let ctx = query("ads.example.com.", RecordType::A, client());
    assert_eq!(
        blocking.step(&ctx, QueryState::Received, Event::Arrived),
        (QueryState::Finished, Action::Drop)
    );
    let forwarding = Server::with_access(
        Catalog::new(DefaultAuthority::new(ranges(&[]))),
        Some(ranges(&["192.0.2.0/24"])),
        None,
    );
    assert_eq!(
        forwarding.step(&ctx, QueryState::Received, Event::Arrived),
        (QueryState::Finished, Action::Drop)
    );
    let elsewhere = query("ads.example.com.", RecordType::A, IpAddress::V4(v4(198, 51, 100, 1)));
    assert_ne!(
        blocking.step(&elsewhere, QueryState::Received, Event::Arrived),
        (QueryState::Finished, Action::Drop)
    );
}

#[test]
fn access_control_follows_allow_then_deny() {
    let inside = IpAddress::V4(v4(10, 1, 2, 3));
    let outside = IpAddress::V4(v4(11, 1, 2, 3));
    let open = AccessControl::new(None, None);
    assert!(open.permit(inside));
    assert!(open.permit(outside));
    let allow = AccessControl::new(None, Some(ranges(&["10.0.0.0/8"])));
    assert!(allow.permit(inside));
    assert!(!allow.permit(outside));
    let deny = AccessControl::new(Some(ranges(&["10.0.0.0/8"])), None);
    assert!(!deny.permit(inside));
    assert!(deny.permit(outside));
    let both = AccessControl::new(Some(ranges(&["10.0.0.0/8"])), Some(ranges(&["10.1.0.0/16"])));
    assert!(both.permit(inside));
    assert!(!both.permit(IpAddress::V4(v4(10, 2, 0, 1))));
    assert!(!both.permit(outside));
    let empty_allow = AccessControl::new(Some(ranges(&["10.0.0.0/8"])), Some(ranges(&[])));
    assert!(!empty_allow.permit(inside));
    assert!(empty_allow.permit(outside));
    let only_empty = AccessControl::new(None, Some(ranges(&[])));
    assert!(only_empty.permit(inside));
}

#[test]
fn catalog_takes_the_chain_of_the_longest_zone() {
    let mut catalog = Catalog::new(DefaultAuthority::new(ranges(&[])));
    assert_eq!(catalog.find_index(&name("example.com.")), None);
    assert!(catalog.find(&name("example.com.")).is_none());
    catalog = catalog.upsert(DomainName::root(), vec![]);
    catalog = catalog.upsert(
        name("example.com."),
        vec![Authority::ZoneBlacklist(ZoneBlacklistAuthority::new(name("example.com."), None))],
    );
    catalog = catalog.upsert(name("a.example.com."), vec![]);
    assert_eq!(catalog.find_index(&name("www.example.com.")), Some(1));
    assert_eq!(catalog.find_index(&name("example.com.")), Some(1));
    assert_eq!(catalog.find_index(&name("x.a.example.com.")), Some(2));
    assert_eq!(catalog.find_index(&name("example.org.")), Some(0));
    assert_eq!(catalog.find_index(&DomainName::root()), Some(0));
    assert_eq!(catalog.find(&name("x.a.example.com.")).unwrap().len(), 0);
    assert_eq!(catalog.find(&name("www.example.com.")).unwrap().len(), 1);
    let ctx = query("x.a.example.com.", RecordType::A, client());
    assert_eq!(catalog.lookup(&ctx), DecisionOutcome::Defer);
    let ctx = query("www.example.com.", RecordType::A, client());
    assert_eq!(catalog.lookup(&ctx), DecisionOutcome::Refuse(ResponseCode::NoError));
    catalog = catalog.upsert(name("example.com."), vec![]);
    assert_eq!(catalog.find_index(&name("www.example.com.")), Some(3));
    assert_eq!(catalog.lookup(&ctx), DecisionOutcome::Defer);
    assert!(catalog.forwarder().origin().is_root());
}

#[test]
fn first_authority_that_decides_wins() {
    let mut local = LocalDNSAuthority::new(ranges(&[]));
    local.refresh(Ok(LocalDNSResolver::new(vec![(
        name("ads.example.com."),
        IpAddress::V4(v4(10, 0, 0, 1)),
    )])));
    let block =
        DomainBlacklistAuthority::new(BlockSet::new(vec![name("ads.example.com.")]), None);
    let ctx = query("ads.example.com.", RecordType::A, client());
    let local_first = vec![Authority::LocalDNS(local), Authority::DomainBlacklist(block)];
    match search_chain(&local_first, &ctx) {
        DecisionOutcome::Answer(lookup) => {
            assert_eq!(lookup.records[0].data, RecordData::A(v4(10, 0, 0, 1)))
        }
        other => panic!("{:?}", other),
    }
    let text = query("ads.example.com.", RecordType::Other(16), client());
    assert_eq!(
        search_chain(&local_first, &text),
        DecisionOutcome::Refuse(ResponseCode::NoError)
    );
    let mut reversed = local_first;
    reversed.reverse();
    assert_eq!(search_chain(&reversed, &ctx), DecisionOutcome::Refuse(ResponseCode::NoError));
    let unlisted = query("example.com.", RecordType::A, client());
    assert_eq!(search_chain(&reversed, &unlisted), DecisionOutcome::Defer);
    assert_eq!(search_chain(&vec![], &ctx), DecisionOutcome::Defer);
}

#[test]
fn reload_replaces_the_local_table_in_the_catalog() {
    let mut catalog = Catalog::new(DefaultAuthority::new(ranges(&[])));
    let block = DomainBlacklistAuthority::new(BlockSet::new(vec![name("ads.example.")]), None);
    catalog = catalog.upsert(
        DomainName::root(),
        vec![
            Authority::DomainBlacklist(block),
            Authority::LocalDNS(LocalDNSAuthority::new(ranges(&[]))),
        ],
    );
    let server = Server::with_access(catalog, None, None);
    let ctx = query("printer.lan.", RecordType::A, client());
    let (state, _) = server.step(&ctx, QueryState::Received, Event::Arrived);
    assert_eq!(state, QueryState::Forwarding);

    let table = LocalDNSResolver::new(vec![(name("printer.lan."), IpAddress::V4(7))]);
    let (server, event) = server.refresh(Ok(table));
    assert_eq!(event, RefreshEvent::Reloaded);
    let (state, action) = server.step(&ctx, QueryState::Received, Event::Arrived);
    assert_eq!(state, QueryState::Finished);
    match action {
        Action::Reply(Reply::Answer(lookup)) => {
            assert_eq!(lookup.records[0].data, RecordData::A(7))
        }
        other => panic!("{:?}", other),
    }
    let blocked = query("ads.example.", RecordType::A, client());
    assert_eq!(server.step(&blocked, QueryState::Received, Event::Arrived), refused());

    let (server, event) = server.refresh(Err(RefreshFailure::Unreadable));
    assert_eq!(event, RefreshEvent::Kept(RefreshFailure::Unreadable));
    let (state, _) = server.step(&ctx, QueryState::Received, Event::Arrived);
    assert_eq!(state, QueryState::Finished);

    let (server, _) = server.refresh(Ok(LocalDNSResolver::default()));
    let (state, _) = server.step(&ctx, QueryState::Received, Event::Arrived);
    assert_eq!(state, QueryState::Forwarding);
    assert_eq!(server.step(&blocked, QueryState::Received, Event::Arrived), refused());
}

#[test]
fn source_in_an_overlapped_denied_network_is_not_permitted() {
    let deny = ranges(&["10.0.0.0/8", "10.1.0.0/16", "10.2.0.0/16"]);
    let access = AccessControl::new(Some(deny), None);
    assert!(!access.permit(IpAddress::V4(v4(10, 3, 0, 0))));
    assert!(!access.permit(IpAddress::V4(v4(10, 1, 0, 0))));
    assert!(access.permit(IpAddress::V4(v4(11, 0, 0, 0))));
    let allow = ranges(&["10.0.0.0/8", "10.1.0.0/16", "10.2.0.0/16"]);
    let access = AccessControl::new(None, Some(allow));
    assert!(access.permit(IpAddress::V4(v4(10, 3, 0, 0))));
    assert!(!access.permit(IpAddress::V4(v4(11, 0, 0, 0))));
    let dropping = Server::with_access(
        catalog(None),
        Some(ranges(&["192.0.0.0/8", "192.0.1.0/24", "192.0.3.0/24"])),
        None,
    );
    let ctx = query("example.com.", RecordType::A, client());
    assert_eq!(
        dropping.step(&ctx, QueryState::Received, Event::Arrived),
        (QueryState::Finished, Action::Drop)
    );
}
