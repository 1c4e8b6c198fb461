use crate::authority::default::{
    upstream_view, DefaultAuthority, Forwarded, ForwardedView, Reply, ReplyView, Unanswered,
};
use crate::authority::local_dns::{LocalDNSResolver, RefreshEvent, RefreshFailure};
use crate::catalog::{lemma_unlisted_name_is_forwarded, lists, Catalog};
use crate::ip::{IpAddress, IpRangeVec};
use crate::record::{
    DecisionOutcome, ForwardingFailure, Lookup, LookupView, OutcomeView, Query, QueryContext,
    QueryView, ResponseCode,
};
use vstd::prelude::*;

verus! {

/// The sources that may ask, by an allow-list and a deny-list.
#[derive(Debug)]
pub struct AccessControl {
    deny: Option<IpRangeVec>,
    allow: Option<IpRangeVec>,
}

impl AccessControl {
    /// The deny-list, if one is configured.
    pub closed spec fn denied(&self) -> Option<IpRangeVec> {
        self.deny
    }

    /// The allow-list, if one is configured.
    pub closed spec fn allowed(&self) -> Option<IpRangeVec> {
        self.allow
    }

    /// Whether a source may ask. Under an allow-list that is not empty, a
    /// source has to be on it; else, under a deny-list, it must not be on
    /// that; else every source may.
    pub open spec fn permits(&self, source: IpAddress) -> bool {
        if self.allowed() is Some && self.allowed()->0@.len() > 0 {
            self.allowed()->0.holds(source.coordinate())
        } else if self.denied() is Some {
            !self.denied()->0.holds(source.coordinate())
        } else {
            true
        }
    }

    /// The access control with these lists.
    pub fn new(deny: Option<IpRangeVec>, allow: Option<IpRangeVec>) -> (access: Self)
        ensures
            access.denied() == deny,
            access.allowed() == allow,
    {
        AccessControl { deny, allow }
    }

    /// Whether a source may ask.
    pub fn permit(&self, source: IpAddress) -> (permitted: bool)
        ensures
            permitted == self.permits(source),
    {
        let by_allow: Option<bool> = match &self.allow {
            Some(list) => if list.len() > 0 {
                Some(list.contains(source))
            } else {
                None
            },
            None => None,
        };
        match by_allow {
            Some(permitted) => permitted,
            None => match &self.deny {
                Some(list) => !list.contains(source),
                None => true,
            },
        }
    }
}

/// Where the handling of a query stands.
#[derive(Clone, Copy, Debug, PartialEq, Eq, Structural)]
pub enum QueryState {
    /// The query came in and nothing was decided yet.
    Received,
    /// The query is with the upstream resolver, as it was framed.
    Forwarding,
    /// The query brought nothing, and its IPv4 form is with the resolver.
    Retrying(Unanswered),
    /// The client was answered, or the query was dropped.
    Finished,
}

/// What happened to a query, as a value of specifications.
pub enum EventView {
    Arrived,
    Answered(Result<LookupView, ForwardingFailure>),
}

/// What happened to a query.
#[derive(Debug, PartialEq, Eq)]
pub enum Event {
    /// The transport handed the query over.
    Arrived,
    /// The upstream resolver returned from the question it was asked last.
    Answered(Result<Lookup, ForwardingFailure>),
}

impl View for Event {
    type V = EventView;

    open spec fn view(&self) -> EventView {
        match self {
            Event::Arrived => EventView::Arrived,
            Event::Answered(answer) => EventView::Answered(upstream_view(*answer)),
        }
    }
}

/// What is to be done for a query, as a value of specifications.
pub enum ActionView {
    Drop,
    Reply(ReplyView),
    Resolve(QueryView),
}

/// What is to be done for a query.
#[derive(Debug, PartialEq, Eq)]
pub enum Action {
    /// Nothing is sent to the client.
    Drop,
    /// The client is told this.
    Reply(Reply),
    /// The upstream resolver is asked this, and its answer comes back as an
    /// event.
    Resolve(Query),
}

impl View for Action {
    type V = ActionView;

    open spec fn view(&self) -> ActionView {
        match self {
            Action::Drop => ActionView::Drop,
            Action::Reply(reply) => ActionView::Reply(reply@),
            Action::Resolve(query) => ActionView::Resolve(query@),
        }
    }
}

/// The question that a query makes, as it was framed.
pub open spec fn question_of(ctx: QueryContext) -> QueryView {
    QueryView { name: ctx.name@, query_type: ctx.query_type, query_class: ctx.query_class }
}

/// What the client is told where the authorities decided.
pub open spec fn reply_of(outcome: OutcomeView) -> ReplyView
    recommends
        !(outcome is Defer),
{
    match outcome {
        OutcomeView::Answer(lookup) => ReplyView::Answer(lookup),
        OutcomeView::Refuse(code) => ReplyView::Refuse(code),
        OutcomeView::Defer => ReplyView::Refuse(ResponseCode::NoError),
    }
}

/// The policy of a server: who may ask, and what is decided of a query.
#[derive(Debug)]
pub struct Server {
    access: AccessControl,
    catalog: Catalog,
}

impl Server {
    /// Who may ask.
    pub closed spec fn gate(&self) -> AccessControl {
        self.access
    }

    /// The chains of authorities and the forwarder.
    pub closed spec fn chains(&self) -> Catalog {
        self.catalog
    }

    /// The next state of a query and what is to be done, from its state and
    /// what happened.
    ///
    /// A query that arrives from a source that may not ask is dropped, and
    /// no authority is consulted. Otherwise the catalog decides: the reply of
    /// the first authority that does not defer, or the query goes to the
    /// upstream resolver. Where the resolver brings nothing for an IPv6
    /// question of a NAT64 source, it is asked for the IPv4 addresses, which
    /// are shown under the NAT64 prefix; where that brings nothing either,
    /// the client is told what the first question brought. An event out of
    /// turn ends the query with a refusal; a finished query stays finished.
    pub open spec fn next(&self, ctx: QueryContext, state: QueryState, event: EventView) -> (
        QueryState,
        ActionView,
    ) {
        match (state, event) {
            (QueryState::Received, EventView::Arrived) => {
                if !self.gate().permits(ctx.source) {
                    (QueryState::Finished, ActionView::Drop)
                } else {
                    let outcome = self.chains().decision(ctx.name@, ctx.query_type, ctx.source);
                    if outcome is Defer {
                        (QueryState::Forwarding, ActionView::Resolve(question_of(ctx)))
                    } else {
                        (QueryState::Finished, ActionView::Reply(reply_of(outcome)))
                    }
                }
            },
            (QueryState::Forwarding, EventView::Answered(answer)) => {
                match self.chains().upstream().forwarded(
                    ctx.name@,
                    ctx.query_type,
                    ctx.query_class,
                    ctx.source,
                    answer,
                ) {
                    ForwardedView::Done(reply) => (QueryState::Finished, ActionView::Reply(reply)),
                    ForwardedView::Retry(query, first) => (
                        QueryState::Retrying(first),
                        ActionView::Resolve(query),
                    ),
                }
            },
            (QueryState::Retrying(first), EventView::Answered(answer)) => (
                QueryState::Finished,
                ActionView::Reply(DefaultAuthority::retried(first, answer)),
            ),
            (QueryState::Finished, _) => (QueryState::Finished, ActionView::Drop),
            _ => (QueryState::Finished, ActionView::Reply(ReplyView::Refuse(ResponseCode::NoError))),
        }
    }

    /// The server with a catalog, a deny-list and an allow-list.
    pub fn with_access(catalog: Catalog, deny: Option<IpRangeVec>, allow: Option<IpRangeVec>) -> (server:
        Self)
        ensures
            server.chains() == catalog,
            server.gate().denied() == deny,
            server.gate().allowed() == allow,
    {
        Server { access: AccessControl::new(deny, allow), catalog }
    }

    /// Takes in the outcome of a reload of the table of local names, as the
    /// catalog does. Who may ask stays as it is.
    pub fn refresh(self, loaded: Result<LocalDNSResolver, RefreshFailure>) -> (next: (
        Self,
        RefreshEvent,
    ))
        ensures
            next.0.gate() == self.gate(),
            next.0.chains().upstream() == self.chains().upstream(),
            next.0.chains().zones() == self.chains().zones(),
            match loaded {
                Ok(table) => next.1 == RefreshEvent::Reloaded && forall|i: int|
                    0 <= i < self.chains().entries().len() ==> Catalog::chain_refreshed(
                        self.chains().entries()[i].1@,
                        (#[trigger] next.0.chains().entries()[i]).1@,
                        table@,
                    ),
                Err(failure) => next.1 == RefreshEvent::Kept(failure) && next.0.chains().entries()
                    == self.chains().entries(),
            },
    {
        let Server { access, catalog } = self;
        let refreshed = catalog.refresh(loaded);
        (Server { access, catalog: refreshed.0 }, refreshed.1)
    }

    /// Takes a query one step on.
    pub fn step(&self, request_info: &QueryContext, state: QueryState, event: Event) -> (next: (
        QueryState,
        Action,
    ))
        ensures
            (next.0, next.1@) == self.next(*request_info, state, event@),
    {
        match state {
            QueryState::Received => match event {
                Event::Arrived => {
                    if !self.access.permit(request_info.source) {
                        (QueryState::Finished, Action::Drop)
                    } else {
                        match self.catalog.lookup(request_info) {
                            DecisionOutcome::Answer(lookup) => (
                                QueryState::Finished,
                                Action::Reply(Reply::Answer(lookup)),
                            ),
                            DecisionOutcome::Refuse(code) => (
                                QueryState::Finished,
                                Action::Reply(Reply::Refuse(code)),
                            ),
                            DecisionOutcome::Defer => (
                                QueryState::Forwarding,
                                Action::Resolve(DefaultAuthority::question(request_info)),
                            ),
                        }
                    }
                },
                Event::Answered(_) => (
                    QueryState::Finished,
                    Action::Reply(Reply::Refuse(ResponseCode::NoError)),
                ),
            },
            QueryState::Forwarding => match event {
                Event::Answered(answer) => {
                    match self.catalog.forwarder().search(request_info, answer) {
                        Forwarded::Done(reply) => (QueryState::Finished, Action::Reply(reply)),
                        Forwarded::Retry(query, first) => (
                            QueryState::Retrying(first),
                            Action::Resolve(query),
                        ),
                    }
                },
                Event::Arrived => (
                    QueryState::Finished,
                    Action::Reply(Reply::Refuse(ResponseCode::NoError)),
                ),
            },
            QueryState::Retrying(first) => match event {
                Event::Answered(answer) => (
                    QueryState::Finished,
                    Action::Reply(DefaultAuthority::search_retried(first, answer)),
                ),
                Event::Arrived => (
                    QueryState::Finished,
                    Action::Reply(Reply::Refuse(ResponseCode::NoError)),
                ),
            },
            QueryState::Finished => (QueryState::Finished, Action::Drop),
        }
    }
}

/// A source that is on the deny-list and not on the allow-list may not ask.
pub proof fn lemma_denied_source_is_not_permitted(access: AccessControl, source: IpAddress)
    requires
        access.denied() is Some,
        access.denied()->0.holds(source.coordinate()),
        access.allowed() is Some ==> !access.allowed()->0.holds(source.coordinate()),
    ensures
        !access.permits(source),
{
}

/// A query from a source that may not ask is dropped when it arrives, and
/// the catalog has no part in that: it is dropped under every catalog.
pub proof fn lemma_rejected_query_is_dropped(server: Server, other: Server, ctx: QueryContext)
    requires
        !server.gate().permits(ctx.source),
        other.gate() == server.gate(),
    ensures
        server.next(ctx, QueryState::Received, EventView::Arrived) == (
            QueryState::Finished,
            ActionView::Drop,
        ),
        other.next(ctx, QueryState::Received, EventView::Arrived) == (
            QueryState::Finished,
            ActionView::Drop,
        ),
{
}

/// A query that may be asked, for a name that no authority of the catalog
/// has on its list, goes to the upstream resolver as it was framed.
pub proof fn lemma_unlisted_query_is_forwarded(server: Server, ctx: QueryContext)
    requires
        server.gate().permits(ctx.source),
        forall|i: int, k: int|
            0 <= i < server.chains().entries().len() && 0 <= k < server.chains().entries()[i].1@.len()
                ==> !lists(#[trigger] server.chains().entries()[i].1@[k], ctx.name@),
    ensures
        server.next(ctx, QueryState::Received, EventView::Arrived) == (
            QueryState::Forwarding,
            ActionView::Resolve(question_of(ctx)),
        ),
{
    lemma_unlisted_name_is_forwarded(server.chains(), ctx.name@, ctx.query_type, ctx.source);
}

/// Every query is finished after three events at most: after the third
/// step, whatever happened, its state is `Finished`.
pub proof fn lemma_query_finishes(
    server: Server,
    ctx: QueryContext,
    state: QueryState,
    first: EventView,
    second: EventView,
    third: EventView,
)
    ensures
        ({
            let one = server.next(ctx, state, first);
            let two = server.next(ctx, one.0, second);
            let three = server.next(ctx, two.0, third);
            three.0 == QueryState::Finished
        }),
{
}

} // verus!
