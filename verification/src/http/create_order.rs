//! Placing an order, one answer of the outside world at a time.
//!
//! A subaddress index is looked at, its address derived, and only then claimed together
//! with the insertion of the order. Claiming first would open a window in which the
//! chain scanner watches an index that no order exists for. A claim that loses a race
//! burns no index: it starts over with the next one, a bounded number of times.

use vstd::prelude::*;

use crate::decimal;
use crate::exchange_rate;
use crate::http::public;
use crate::http::public::{
    quote_order, resolve_public_tenant, CreateOrderRequest, CreateOrderResponse, Quote,
};
use crate::http::{ApiError, Network, Origin};
use crate::store::{NewOrder, Order, Tenant};
use crate::text;

verus! {

/// How often an order tries to claim a subaddress index before it gives up.
pub const CLAIM_ATTEMPTS: u32 = 8;

/// The account of a tenant's wallet that every order is paid to.
pub const ORDER_ACCOUNT: u32 = 0;

/// An order that was let in and priced, and is not stored yet.
#[derive(Debug)]
pub struct OrderDraft {
    pub request: CreateOrderRequest,
    pub tenant: Tenant,
    pub quote: Quote,
}

/// An order on its way to a subaddress index.
#[derive(Debug)]
pub struct Placement {
    pub draft: OrderDraft,
    pub network: Network,
    pub now: i64,
    /// How many claims may still be made.
    pub attempts_left: u32,
}

/// How far a request has come.
#[derive(Debug)]
pub enum CreateOrderState {
    /// The tenant is being looked up.
    Lookup { public_key: String, request: CreateOrderRequest, origin: Origin },
    /// The rate provider is being asked.
    Quote { request: CreateOrderRequest, tenant: Tenant },
    /// The tenant's wallet is being resolved.
    Wallet { draft: OrderDraft },
    /// The next free index is being looked at.
    Peek { placement: Placement },
    /// The address of the index is being derived.
    Derive { placement: Placement, minor_index: u32 },
    /// The index is being claimed, together with the insertion of the order.
    Claim { placement: Placement, minor_index: u32, address: String },
    /// The request is answered.
    Done { reply: Result<CreateOrderResponse, ApiError> },
}

/// What the outside world answered.
#[derive(Debug)]
pub enum CreateOrderEvent {
    TenantLookedUp { found: Option<Tenant> },
    RateQuoted { rate: Option<u64> },
    /// The wallet is known; with it, what the tenant's stored network name was read as,
    /// and the time.
    WalletResolved { network: Result<Network, String>, now: i64 },
    IndexPeeked { minor_index: u32 },
    AddressDerived { address: String },
    /// The stored order, or `None` when another request took the index first.
    ClaimSettled { order: Option<Order> },
    /// What was asked for failed.
    Failed { error: ApiError },
}

/// What is to be done next.
#[derive(Debug)]
pub enum CreateOrderAction {
    LookUpTenant { public_key: String },
    QuoteRate { fiat_currency: String },
    ResolveWallet { tenant_id: String, network_name: String },
    PeekIndex { tenant_id: String },
    DeriveAddress { major_index: u32, minor_index: u32, network: Network },
    ClaimIndex { order: NewOrder },
    Reply,
}

impl CreateOrderState {
    /// The attempts of a placement are within their bound, and the order's expiry is a
    /// point in time.
    pub open spec fn wf(self) -> bool {
        match self {
            CreateOrderState::Peek { placement } => placement.wf(),
            CreateOrderState::Derive { placement, .. } => placement.wf(),
            CreateOrderState::Claim { placement, .. } => placement.wf(),
            _ => true,
        }
    }

    /// `event` answers what this state asked for.
    pub open spec fn expects(self, event: CreateOrderEvent) -> bool {
        match self {
            CreateOrderState::Lookup { .. } => event is TenantLookedUp || event is Failed,
            CreateOrderState::Quote { .. } => event is RateQuoted || event is Failed,
            CreateOrderState::Wallet { draft } => match event {
                CreateOrderEvent::WalletResolved { network, now } => network is Ok ==> i64::MIN
                    <= now + draft.tenant.order_expiry_seconds <= i64::MAX,
                _ => event is Failed,
            },
            CreateOrderState::Peek { .. } => event is IndexPeeked || event is Failed,
            CreateOrderState::Derive { .. } => event is AddressDerived || event is Failed,
            CreateOrderState::Claim { .. } => event is ClaimSettled || event is Failed,
            CreateOrderState::Done { .. } => false,
        }
    }
}

impl Placement {
    pub open spec fn wf(self) -> bool {
        &&& 0 < self.attempts_left <= CLAIM_ATTEMPTS
        &&& i64::MIN <= self.now + self.draft.tenant.order_expiry_seconds <= i64::MAX
    }

    /// The placement after one more lost claim.
    pub open spec fn retried(self) -> Placement {
        Placement { attempts_left: (self.attempts_left - 1) as u32, ..self }
    }
}

/// The reply that tells of a stored order.
pub open spec fn tells_of(r: CreateOrderResponse, order: Order) -> bool {
    &&& r.payment_id == order.id
    &&& r.address == order.address
    &&& r.xmr_amount_piconero == order.xmr_amount_piconero
    &&& r.fiat_amount == order.fiat_amount
    &&& r.fiat_currency == order.fiat_currency
    &&& r.expires_at == order.expires_at
}

/// `next` answers the request with an error that satisfies `why`.
pub open spec fn refused(next: CreateOrderState, why: spec_fn(ApiError) -> bool) -> bool {
    next matches CreateOrderState::Done { reply } && reply matches Err(e) && why(e)
}

/// `next` is where `event` takes an order from `state`.
pub open spec fn advances(
    state: CreateOrderState,
    event: CreateOrderEvent,
    next: CreateOrderState,
) -> bool {
    match (state, event) {
        (_, CreateOrderEvent::Failed { error }) => next == (CreateOrderState::Done {
            reply: Err(error),
        }),
        (
            CreateOrderState::Lookup { request, origin, .. },
            CreateOrderEvent::TenantLookedUp { found },
        ) => match found {
            None => refused(next, |e: ApiError| e == ApiError::NotFound),
            Some(tenant) => if public::origin_allowed(tenant, origin) {
                next == (CreateOrderState::Quote { request, tenant })
            } else {
                refused(
                    next,
                    |e: ApiError| public::forbids(e, "origin not allowed for this tenant"@),
                )
            },
        },
        (
            CreateOrderState::Quote { request, tenant },
            CreateOrderEvent::RateQuoted { rate },
        ) => match rate {
            None => refused(
                next,
                |e: ApiError|
                    public::rejects(e, "unsupported currency: "@ + request.fiat_currency@),
            ),
            Some(rate) => match exchange_rate::price(request.fiat_amount@, rate as nat) {
                Err(why) => refused(
                    next,
                    |e: ApiError| public::rejects(e, exchange_rate::amount_error_text(why)),
                ),
                Ok(amount) => next == (CreateOrderState::Wallet {
                    draft: OrderDraft {
                        request,
                        tenant,
                        quote: Quote {
                            piconero_per_unit: rate,
                            xmr_amount_piconero: amount as u64,
                        },
                    },
                }),
            },
        },
        (
            CreateOrderState::Wallet { draft },
            CreateOrderEvent::WalletResolved { network, now },
        ) => match network {
            Err(why) => refused(
                next,
                |e: ApiError|
                    public::fails(e, "tenant has an invalid stored network: "@ + why@),
            ),
            Ok(network) => next == (CreateOrderState::Peek {
                placement: Placement { draft, network, now, attempts_left: CLAIM_ATTEMPTS },
            }),
        },
        (
            CreateOrderState::Peek { placement },
            CreateOrderEvent::IndexPeeked { minor_index },
        ) => next == (CreateOrderState::Derive { placement, minor_index }),
        (
            CreateOrderState::Derive { placement, minor_index },
            CreateOrderEvent::AddressDerived { address },
        ) => next == (CreateOrderState::Claim { placement, minor_index, address }),
        (
            CreateOrderState::Claim { placement, minor_index, address },
            CreateOrderEvent::ClaimSettled { order },
        ) => match order {
            Some(order) => next matches CreateOrderState::Done { reply } && reply matches Ok(r)
                && tells_of(r, order),
            None => if placement.attempts_left > 1 {
                next == (CreateOrderState::Peek { placement: placement.retried() })
            } else {
                refused(
                    next,
                    |e: ApiError|
                        public::fails(
                            e,
                            "could not claim a subaddress index for this order - too much concurrent contention"@,
                        ),
                )
            },
        },
        _ => false,
    }
}

/// `order` is what a placement inserts at this index and address.
pub open spec fn places(
    placement: Placement,
    minor_index: u32,
    address: String,
    order: NewOrder,
) -> bool {
    let draft = placement.draft;
    &&& order.tenant_id == draft.tenant.id
    &&& order.merchant_order_id == draft.request.merchant_order_id
    &&& order.minor_index == minor_index
    &&& order.address == address
    &&& order.fiat_currency == draft.request.fiat_currency
    &&& order.fiat_amount == draft.request.fiat_amount
    &&& order.exchange_rate@ == decimal::decimal_digits(draft.quote.piconero_per_unit as nat)
    &&& order.xmr_amount_piconero == draft.quote.xmr_amount_piconero
    &&& order.description == draft.request.description
    &&& order.created_at == placement.now
    &&& order.expires_at == placement.now + draft.tenant.order_expiry_seconds
}

/// `action` is what `state` asks the outside world for.
pub open spec fn asks(state: CreateOrderState, action: CreateOrderAction) -> bool {
    match state {
        CreateOrderState::Lookup { public_key, .. } => action == (CreateOrderAction::LookUpTenant {
            public_key,
        }),
        CreateOrderState::Quote { request, .. } => action == (CreateOrderAction::QuoteRate {
            fiat_currency: request.fiat_currency,
        }),
        CreateOrderState::Wallet { draft } => action == (CreateOrderAction::ResolveWallet {
            tenant_id: draft.tenant.id,
            network_name: draft.tenant.network,
        }),
        CreateOrderState::Peek { placement } => action == (CreateOrderAction::PeekIndex {
            tenant_id: placement.draft.tenant.id,
        }),
        CreateOrderState::Derive { placement, minor_index } => action == (
        CreateOrderAction::DeriveAddress {
            major_index: ORDER_ACCOUNT,
            minor_index,
            network: placement.network,
        }),
        CreateOrderState::Claim { placement, minor_index, address } => action matches
            CreateOrderAction::ClaimIndex { order } && places(
            placement,
            minor_index,
            address,
            order,
        ),
        CreateOrderState::Done { .. } => action is Reply,
    }
}

/// Where a request starts.
pub fn begin_order(
    public_key: String,
    request: CreateOrderRequest,
    origin: Origin,
) -> (r: CreateOrderState)
    ensures
        r == (CreateOrderState::Lookup { public_key, request, origin }),
        r.wf(),
{
    CreateOrderState::Lookup { public_key, request, origin }
}

/// What is to be done for the order next.
pub fn next_action(state: &CreateOrderState) -> (r: CreateOrderAction)
    requires
        state.wf(),
    ensures
        asks(*state, r),
        state matches CreateOrderState::Claim { placement, minor_index, address } ==> (r matches
            CreateOrderAction::ClaimIndex { order } && {
            &&& order.tenant_id == placement.draft.tenant.id
            &&& order.merchant_order_id == placement.draft.request.merchant_order_id
            &&& order.minor_index == minor_index
            &&& order.address == address
            &&& order.fiat_currency == placement.draft.request.fiat_currency
            &&& order.fiat_amount == placement.draft.request.fiat_amount
            &&& order.xmr_amount_piconero == placement.draft.quote.xmr_amount_piconero
            &&& order.description == placement.draft.request.description
            &&& order.created_at == placement.now
            &&& order.expires_at == placement.now + placement.draft.tenant.order_expiry_seconds
        }),
{
    match state {
        CreateOrderState::Lookup { public_key, .. } => CreateOrderAction::LookUpTenant {
            public_key: public_key.clone(),
        },
        CreateOrderState::Quote { request, .. } => CreateOrderAction::QuoteRate {
            fiat_currency: request.fiat_currency.clone(),
        },
        CreateOrderState::Wallet { draft } => CreateOrderAction::ResolveWallet {
            tenant_id: draft.tenant.id.clone(),
            network_name: draft.tenant.network.clone(),
        },
        CreateOrderState::Peek { placement } => CreateOrderAction::PeekIndex {
            tenant_id: placement.draft.tenant.id.clone(),
        },
        CreateOrderState::Derive { placement, minor_index } => CreateOrderAction::DeriveAddress {
            major_index: ORDER_ACCOUNT,
            minor_index: *minor_index,
            network: placement.network,
        },
        CreateOrderState::Claim { placement, minor_index, address } => {
            let draft: &OrderDraft = &placement.draft;
            CreateOrderAction::ClaimIndex {
                order: NewOrder {
                    tenant_id: draft.tenant.id.clone(),
                    merchant_order_id: text::clone_text(&draft.request.merchant_order_id),
                    minor_index: *minor_index,
                    address: address.clone(),
                    fiat_currency: draft.request.fiat_currency.clone(),
                    fiat_amount: draft.request.fiat_amount.clone(),
                    exchange_rate: decimal::write_decimal(draft.quote.piconero_per_unit),
                    xmr_amount_piconero: draft.quote.xmr_amount_piconero,
                    description: text::clone_text(&draft.request.description),
                    created_at: placement.now,
                    expires_at: placement.now + draft.tenant.order_expiry_seconds,
                },
            }
        },
        CreateOrderState::Done { .. } => CreateOrderAction::Reply,
    }
}

/// Takes an order one answer further.
pub fn create_order(state: CreateOrderState, event: CreateOrderEvent) -> (next: CreateOrderState)
    requires
        state.wf(),
        state.expects(event),
    ensures
        next.wf(),
        advances(state, event, next),
{
    match (state, event) {
        (_, CreateOrderEvent::Failed { error }) => CreateOrderState::Done { reply: Err(error) },
        (
            CreateOrderState::Lookup { request, origin, .. },
            CreateOrderEvent::TenantLookedUp { found },
        ) => match resolve_public_tenant(found, &origin) {
            Ok(tenant) => CreateOrderState::Quote { request, tenant },
            Err(e) => CreateOrderState::Done { reply: Err(e) },
        },
        (
            CreateOrderState::Quote { request, tenant },
            CreateOrderEvent::RateQuoted { rate },
        ) => match quote_order(&request, rate) {
            Ok(quote) => CreateOrderState::Wallet { draft: OrderDraft { request, tenant, quote } },
            Err(e) => CreateOrderState::Done { reply: Err(e) },
        },
        (
            CreateOrderState::Wallet { draft },
            CreateOrderEvent::WalletResolved { network, now },
        ) => match network {
            Ok(network) => CreateOrderState::Peek {
                placement: Placement { draft, network, now, attempts_left: CLAIM_ATTEMPTS },
            },
            Err(why) => CreateOrderState::Done {
                reply: Err(
                    ApiError::Internal(
                        text::join("tenant has an invalid stored network: ", why.as_str()),
                    ),
                ),
            },
        },
        (
            CreateOrderState::Peek { placement },
            CreateOrderEvent::IndexPeeked { minor_index },
        ) => CreateOrderState::Derive { placement, minor_index },
        (
            CreateOrderState::Derive { placement, minor_index },
            CreateOrderEvent::AddressDerived { address },
        ) => CreateOrderState::Claim { placement, minor_index, address },
        (
            CreateOrderState::Claim { placement, .. },
            CreateOrderEvent::ClaimSettled { order },
        ) => match order {
            Some(order) => CreateOrderState::Done {
                reply: Ok(
                    CreateOrderResponse {
                        payment_id: order.id,
                        address: order.address,
                        xmr_amount_piconero: order.xmr_amount_piconero,
                        fiat_amount: order.fiat_amount,
                        fiat_currency: order.fiat_currency,
                        expires_at: order.expires_at,
                    },
                ),
            },
            None => if placement.attempts_left > 1 {
                CreateOrderState::Peek {
                    placement: Placement {
                        draft: placement.draft,
                        network: placement.network,
                        now: placement.now,
                        attempts_left: placement.attempts_left - 1,
                    },
                }
            } else {
                CreateOrderState::Done {
                    reply: Err(
                        ApiError::Internal(
                            "could not claim a subaddress index for this order - too much concurrent contention".to_string(),
                        ),
                    ),
                }
            },
        },
        // No other pair meets the precondition.
        (state, _) => state,
    }
}

/// A request's history: every state follows from the one before by an event that it
/// expected.
pub open spec fn is_run(
    request: CreateOrderRequest,
    origin: Origin,
    states: Seq<CreateOrderState>,
    events: Seq<CreateOrderEvent>,
) -> bool {
    &&& states.len() == events.len() + 1
    &&& states[0] matches CreateOrderState::Lookup { request: q, origin: o, .. } && q == request && o
        == origin
    &&& forall|i: int|
        0 <= i < events.len() ==> #[trigger] states[i].expects(events[i]) && advances(
            states[i],
            events[i],
            states[i + 1],
        )
}

/// How many claims a history made.
pub open spec fn claims(states: Seq<CreateOrderState>) -> nat
    decreases states.len(),
{
    if states.len() == 0 {
        0
    } else {
        claims(states.drop_last()) + if states.last() is Claim {
            1nat
        } else {
            0nat
        }
    }
}

/// The placement that a state works on.
pub open spec fn placement_of(state: CreateOrderState) -> Option<Placement> {
    match state {
        CreateOrderState::Peek { placement } => Some(placement),
        CreateOrderState::Derive { placement, .. } => Some(placement),
        CreateOrderState::Claim { placement, .. } => Some(placement),
        _ => None,
    }
}

/// The draft that a state works on.
pub open spec fn draft_of(state: CreateOrderState) -> Option<OrderDraft> {
    match state {
        CreateOrderState::Wallet { draft } => Some(draft),
        _ => match placement_of(state) {
            Some(placement) => Some(placement.draft),
            None => None,
        },
    }
}

/// The draft is the request's own, from an origin that its tenant lets in, at the price
/// of its rate.
pub open spec fn is_earned(
    draft: OrderDraft,
    request: CreateOrderRequest,
    origin: Origin,
) -> bool {
    &&& draft.request == request
    &&& public::origin_allowed(draft.tenant, origin)
    &&& exchange_rate::price(request.fiat_amount@, draft.quote.piconero_per_unit as nat) == Ok::<
        nat,
        exchange_rate::AmountError,
    >(draft.quote.xmr_amount_piconero as nat)
}

/// How many claims a state can still lead to.
spec fn claims_ahead(state: CreateOrderState) -> int {
    match state {
        CreateOrderState::Lookup { .. } => CLAIM_ATTEMPTS as int,
        CreateOrderState::Quote { .. } => CLAIM_ATTEMPTS as int,
        CreateOrderState::Wallet { .. } => CLAIM_ATTEMPTS as int,
        CreateOrderState::Peek { placement } => placement.attempts_left as int,
        CreateOrderState::Derive { placement, .. } => placement.attempts_left as int,
        CreateOrderState::Claim { placement, .. } => placement.attempts_left - 1,
        CreateOrderState::Done { .. } => 0,
    }
}

/// How many answers a state can still wait for.
spec fn answers_ahead(state: CreateOrderState) -> int {
    match state {
        CreateOrderState::Lookup { .. } => 3 + 3 * CLAIM_ATTEMPTS,
        CreateOrderState::Quote { .. } => 2 + 3 * CLAIM_ATTEMPTS,
        CreateOrderState::Wallet { .. } => 1 + 3 * CLAIM_ATTEMPTS,
        CreateOrderState::Peek { placement } => 3 * placement.attempts_left,
        CreateOrderState::Derive { placement, .. } => 3 * placement.attempts_left - 1,
        CreateOrderState::Claim { placement, .. } => 3 * placement.attempts_left - 2,
        CreateOrderState::Done { .. } => 0,
    }
}

/// What holds in every state of a history.
spec fn history_holds(
    request: CreateOrderRequest,
    origin: Origin,
    state: CreateOrderState,
) -> bool {
    &&& state.wf()
    &&& state matches CreateOrderState::Lookup { request: q, origin: o, .. } ==> q == request && o
        == origin
    &&& state matches CreateOrderState::Quote { request: q, tenant } ==> q == request
        && public::origin_allowed(tenant, origin)
    &&& draft_of(state) matches Some(draft) ==> is_earned(draft, request, origin)
}

proof fn lemma_run_prefix(
    request: CreateOrderRequest,
    origin: Origin,
    states: Seq<CreateOrderState>,
    events: Seq<CreateOrderEvent>,
)
    requires
        is_run(request, origin, states, events),
        events.len() > 0,
    ensures
        is_run(request, origin, states.drop_last(), events.drop_last()),
        states[events.len() - 1].expects(events.last()),
        advances(states[events.len() - 1], events.last(), states.last()),
{
    let n = events.len() - 1;
    assert(states[n].expects(events[n]));
    assert forall|i: int| 0 <= i < events.drop_last().len() implies #[trigger] states.drop_last()[i].expects(
        events.drop_last()[i],
    ) && advances(states.drop_last()[i], events.drop_last()[i], states.drop_last()[i + 1]) by {
        assert(states[i].expects(events[i]));
    }
}

proof fn lemma_history(
    request: CreateOrderRequest,
    origin: Origin,
    states: Seq<CreateOrderState>,
    events: Seq<CreateOrderEvent>,
)
    requires
        is_run(request, origin, states, events),
    ensures
        history_holds(request, origin, states.last()),
        claims(states) + claims_ahead(states.last()) <= CLAIM_ATTEMPTS,
        events.len() + answers_ahead(states.last()) <= 3 + 3 * CLAIM_ATTEMPTS,
    decreases events.len(),
{
    if events.len() == 0 {
        assert(states.drop_last() =~= Seq::<CreateOrderState>::empty());
        assert(claims(states.drop_last()) == 0);
    } else {
        lemma_run_prefix(request, origin, states, events);
        lemma_history(request, origin, states.drop_last(), events.drop_last());
        assert(states.drop_last().last() == states[events.len() - 1]);
    }
}

/// Law: an order makes a bounded number of claims, however often it loses the race.
pub proof fn claims_are_bounded(
    request: CreateOrderRequest,
    origin: Origin,
    states: Seq<CreateOrderState>,
    events: Seq<CreateOrderEvent>,
)
    requires
        is_run(request, origin, states, events),
    ensures
        claims(states) <= CLAIM_ATTEMPTS,
{
    lemma_history(request, origin, states, events);
}

/// Law: a request is answered after a bounded number of answers from outside.
pub proof fn requests_end(
    request: CreateOrderRequest,
    origin: Origin,
    states: Seq<CreateOrderState>,
    events: Seq<CreateOrderEvent>,
)
    requires
        is_run(request, origin, states, events),
    ensures
        events.len() <= 3 + 3 * CLAIM_ATTEMPTS,
        events.len() == 3 + 3 * CLAIM_ATTEMPTS ==> states.last() is Done,
{
    lemma_history(request, origin, states, events);
}

/// Law: nothing is allocated for a request that is refused. An index is looked at, and
/// an order inserted, only for a tenant that lets the origin in, at the price of the
/// quoted rate.
pub proof fn only_earned_orders_are_placed(
    request: CreateOrderRequest,
    origin: Origin,
    states: Seq<CreateOrderState>,
    events: Seq<CreateOrderEvent>,
)
    requires
        is_run(request, origin, states, events),
    ensures
        draft_of(states.last()) matches Some(draft) ==> is_earned(draft, request, origin),
{
    lemma_history(request, origin, states, events);
}

/// Law: a claim is for the index that was looked at in the same attempt, with the
/// address that was derived for it.
pub proof fn claims_use_the_index_just_peeked(
    request: CreateOrderRequest,
    origin: Origin,
    states: Seq<CreateOrderState>,
    events: Seq<CreateOrderEvent>,
)
    requires
        is_run(request, origin, states, events),
    ensures
        states.last() matches CreateOrderState::Claim { placement, minor_index, address } ==> {
            &&& events.len() >= 2
            &&& events[events.len() - 1] == (CreateOrderEvent::AddressDerived { address })
            &&& events[events.len() - 2] == (CreateOrderEvent::IndexPeeked { minor_index })
            &&& states[events.len() - 2] == (CreateOrderState::Peek { placement })
        },
{
    if states.last() is Claim {
        lemma_run_prefix(request, origin, states, events);
        let before = states.drop_last();
        assert(before.last() is Derive);
        lemma_run_prefix(request, origin, before, events.drop_last());
    }
}

/// Law: a lost claim changes nothing about the order but the attempts that are left. The
/// customer's price, the tenant and the time of the order stay what they were.
pub proof fn attempts_place_the_same_order(
    request: CreateOrderRequest,
    origin: Origin,
    states: Seq<CreateOrderState>,
    events: Seq<CreateOrderEvent>,
    i: int,
)
    requires
        is_run(request, origin, states, events),
        0 <= i < states.len(),
        placement_of(states[i]) is Some,
        placement_of(states.last()) is Some,
    ensures
        ({
            let first = placement_of(states[i])->Some_0;
            let last = placement_of(states.last())->Some_0;
            &&& last.draft == first.draft
            &&& last.network == first.network
            &&& last.now == first.now
            &&& last.attempts_left <= first.attempts_left
        }),
    decreases states.len(),
{
    if i < events.len() {
        lemma_run_prefix(request, origin, states, events);
        let before = states.drop_last();
        lemma_history(request, origin, before, events.drop_last());
        lemma_no_way_back(request, origin, states, events, i);
        if placement_of(before.last()) is Some {
            attempts_place_the_same_order(request, origin, before, events.drop_last(), i);
        }
    }
}

/// An order on its way to an index does not return to the steps before.
proof fn lemma_no_way_back(
    request: CreateOrderRequest,
    origin: Origin,
    states: Seq<CreateOrderState>,
    events: Seq<CreateOrderEvent>,
    i: int,
)
    requires
        is_run(request, origin, states, events),
        0 <= i < states.len(),
        placement_of(states[i]) is Some,
    ensures
        placement_of(states.last()) is Some || states.last() is Done,
        i < events.len() && placement_of(states.last()) is Some ==> placement_of(
            states[events.len() - 1],
        ) is Some,
    decreases states.len(),
{
    if i < events.len() {
        lemma_run_prefix(request, origin, states, events);
        lemma_no_way_back(request, origin, states.drop_last(), events.drop_last(), i);
        assert(states.drop_last().last() == states[events.len() - 1]);
    }
}

/// Law: a site is told of an order only when storage holds it, and is told what storage
/// holds.
pub proof fn success_tells_of_a_stored_order(
    request: CreateOrderRequest,
    origin: Origin,
    states: Seq<CreateOrderState>,
    events: Seq<CreateOrderEvent>,
)
    requires
        is_run(request, origin, states, events),
    ensures
        states.last() matches CreateOrderState::Done { reply } ==> (reply matches Ok(r) ==> {
            &&& events.len() > 0
            &&& events.last() matches CreateOrderEvent::ClaimSettled { order }
            &&& order matches Some(order)
            &&& tells_of(r, order)
            &&& r.payment_id == order.id
            &&& r.address == order.address
            &&& r.xmr_amount_piconero == order.xmr_amount_piconero
            &&& r.fiat_amount == order.fiat_amount
            &&& r.fiat_currency == order.fiat_currency
            &&& r.expires_at == order.expires_at
        }),
{
    if events.len() > 0 {
        lemma_run_prefix(request, origin, states, events);
    }
}

/// What a history has been told so far is what its last state works on.
spec fn is_traced(states: Seq<CreateOrderState>, events: Seq<CreateOrderEvent>) -> bool {
    let last = states.last();
    &&& last matches CreateOrderState::Quote { tenant, .. } ==> events.len() == 1 && events[0] == (
    CreateOrderEvent::TenantLookedUp { found: Some(tenant) })
    &&& draft_of(last) matches Some(draft) ==> {
        &&& events.len() >= 2
        &&& events[0] == (CreateOrderEvent::TenantLookedUp { found: Some(draft.tenant) })
        &&& events[1] == (CreateOrderEvent::RateQuoted {
            rate: Some(draft.quote.piconero_per_unit),
        })
    }
    &&& last is Wallet ==> events.len() == 2
    &&& placement_of(last) matches Some(placement) ==> {
        &&& events.len() >= 3
        &&& events[2] == (CreateOrderEvent::WalletResolved {
            network: Ok(placement.network),
            now: placement.now,
        })
        &&& claims(states) == CLAIM_ATTEMPTS - placement.attempts_left + if last is Claim {
            1int
        } else {
            0int
        }
    }
    &&& (last is Lookup ==> events.len() == 0)
    &&& (last is Lookup || last is Quote || last is Wallet) ==> claims(states) == 0
    &&& last matches CreateOrderState::Derive { minor_index, .. } ==> events.last() == (
    CreateOrderEvent::IndexPeeked { minor_index })
}

proof fn lemma_traced(
    request: CreateOrderRequest,
    origin: Origin,
    states: Seq<CreateOrderState>,
    events: Seq<CreateOrderEvent>,
)
    requires
        is_run(request, origin, states, events),
    ensures
        is_traced(states, events),
    decreases events.len(),
{
    if events.len() == 0 {
        assert(states.drop_last() =~= Seq::<CreateOrderState>::empty());
        assert(claims(states.drop_last()) == 0);
    } else {
        lemma_run_prefix(request, origin, states, events);
        lemma_traced(request, origin, states.drop_last(), events.drop_last());
        lemma_history(request, origin, states.drop_last(), events.drop_last());
        let before = states.drop_last();
        assert(before.last() == states[events.len() - 1]);
        assert(forall|j: int|
            0 <= j < events.len() - 1 ==> events.drop_last()[j] == #[trigger] events[j]);
    }
}

/// Law: the order that a request has inserted is the request's own. It carries what the site
/// asked for and for whom, the price and the rate that were quoted, the index and the address
/// of this attempt, and expires when the tenant says.
pub proof fn claims_carry_the_request(
    request: CreateOrderRequest,
    origin: Origin,
    states: Seq<CreateOrderState>,
    events: Seq<CreateOrderEvent>,
    order: NewOrder,
)
    requires
        is_run(request, origin, states, events),
        states.last() is Claim,
        asks(states.last(), CreateOrderAction::ClaimIndex { order }),
    ensures
        order.merchant_order_id == request.merchant_order_id,
        order.fiat_amount == request.fiat_amount,
        order.fiat_currency == request.fiat_currency,
        order.description == request.description,
        events.len() >= 5,
        events[0] matches CreateOrderEvent::TenantLookedUp { found } && found matches Some(tenant)
            && order.tenant_id == tenant.id && order.expires_at - order.created_at
            == tenant.order_expiry_seconds,
        events[1] matches CreateOrderEvent::RateQuoted { rate } && rate matches Some(rate) && {
            &&& decimal::digits_value(order.exchange_rate@) == rate
            &&& decimal::all_digits(order.exchange_rate@)
            &&& order.exchange_rate@.len() > 0
            &&& order.exchange_rate@[0] == '0' ==> rate == 0
            &&& exchange_rate::price(request.fiat_amount@, rate as nat) == Ok::<
                nat,
                exchange_rate::AmountError,
            >(order.xmr_amount_piconero as nat)
        },
        events[2] matches CreateOrderEvent::WalletResolved { now, .. } && order.created_at == now,
        events[events.len() - 2] == (CreateOrderEvent::IndexPeeked {
            minor_index: order.minor_index,
        }),
        events[events.len() - 1] == (CreateOrderEvent::AddressDerived { address: order.address }),
{
    lemma_traced(request, origin, states, events);
    lemma_history(request, origin, states, events);
    claims_use_the_index_just_peeked(request, origin, states, events);
    let rate = draft_of(states.last())->Some_0.quote.piconero_per_unit;
    decimal::decimal_digits_denote(rate as nat);
    decimal::numbers_are_written_without_leading_zeros(rate as nat);
    lemma_run_prefix(request, origin, states, events);
    lemma_traced(request, origin, states.drop_last(), events.drop_last());
}

/// Law: an address is derived for the index that was just looked at, in the first account of
/// the wallet, on the network that the tenant's stored name was read as.
pub proof fn addresses_are_derived_for_the_index_just_peeked(
    request: CreateOrderRequest,
    origin: Origin,
    states: Seq<CreateOrderState>,
    events: Seq<CreateOrderEvent>,
    action: CreateOrderAction,
)
    requires
        is_run(request, origin, states, events),
        states.last() is Derive,
        asks(states.last(), action),
    ensures
        action matches CreateOrderAction::DeriveAddress { major_index, minor_index, network } && {
            &&& major_index == 0
            &&& events.len() >= 4
            &&& events.last() == (CreateOrderEvent::IndexPeeked { minor_index })
            &&& events[2] matches CreateOrderEvent::WalletResolved { network: read, .. } && read
                == Ok::<Network, String>(network)
        },
{
    lemma_traced(request, origin, states, events);
    lemma_run_prefix(request, origin, states, events);
    lemma_traced(request, origin, states.drop_last(), events.drop_last());
}

/// Law: each step asks about the request and the tenant it is for.
pub proof fn every_step_asks_about_its_own_request(
    public_key: String,
    request: CreateOrderRequest,
    origin: Origin,
    tenant: Tenant,
    quote: Quote,
    network: Network,
    now: i64,
    attempts_left: u32,
    action: CreateOrderAction,
)
    ensures
        asks(CreateOrderState::Lookup { public_key, request, origin }, action) ==> action == (
        CreateOrderAction::LookUpTenant { public_key }),
        asks(CreateOrderState::Quote { request, tenant }, action) ==> action == (
        CreateOrderAction::QuoteRate { fiat_currency: request.fiat_currency }),
        asks(
            CreateOrderState::Wallet { draft: OrderDraft { request, tenant, quote } },
            action,
        ) ==> action == (CreateOrderAction::ResolveWallet {
            tenant_id: tenant.id,
            network_name: tenant.network,
        }),
        asks(
            CreateOrderState::Peek {
                placement: Placement {
                    draft: OrderDraft { request, tenant, quote },
                    network,
                    now,
                    attempts_left,
                },
            },
            action,
        ) ==> action == (CreateOrderAction::PeekIndex { tenant_id: tenant.id }),
        forall|reply: Result<CreateOrderResponse, ApiError>|
            #[trigger] asks(CreateOrderState::Done { reply }, action) ==> action is Reply,
{
}

/// Law: an order is placed for a tenant that is known and that lets the origin in. A request
/// without an origin is let in, one whose origin is not on the list is forbidden, and one for
/// no tenant finds nothing.
pub proof fn tenants_let_their_origins_in(
    public_key: String,
    request: CreateOrderRequest,
    origin: Origin,
    found: Option<Tenant>,
    next: CreateOrderState,
)
    requires
        advances(
            CreateOrderState::Lookup { public_key, request, origin },
            CreateOrderEvent::TenantLookedUp { found },
            next,
        ),
    ensures
        match found {
            None => next matches CreateOrderState::Done { reply } && reply == Err::<
                CreateOrderResponse,
                ApiError,
            >(ApiError::NotFound),
            Some(tenant) => {
                let listed = origin is Absent || (origin matches Origin::Text(o) && exists|i: int|
                    0 <= i < tenant.allowed_origins@.len() && #[trigger] tenant.allowed_origins@[i]@
                        == o@);
                if listed {
                    next == (CreateOrderState::Quote { request, tenant })
                } else {
                    next matches CreateOrderState::Done { reply } && reply matches Err(
                        ApiError::Forbidden(words),
                    ) && words@ == "origin not allowed for this tenant"@
                }
            },
        },
{
}

/// Law: an order goes on at the price of the rate that was quoted for its currency, and is
/// refused, as a bad request, without a rate or without a price.
pub proof fn orders_go_on_at_the_quoted_price(
    request: CreateOrderRequest,
    tenant: Tenant,
    rate: Option<u64>,
    next: CreateOrderState,
)
    requires
        advances(
            CreateOrderState::Quote { request, tenant },
            CreateOrderEvent::RateQuoted { rate },
            next,
        ),
    ensures
        match rate {
            None => next matches CreateOrderState::Done { reply } && reply matches Err(
                ApiError::BadRequest(words),
            ) && words@ == "unsupported currency: "@ + request.fiat_currency@,
            Some(rate) => match exchange_rate::price(request.fiat_amount@, rate as nat) {
                Ok(amount) => next matches CreateOrderState::Wallet { draft } && draft.request
                    == request && draft.tenant == tenant && draft.quote.piconero_per_unit == rate
                    && draft.quote.xmr_amount_piconero == amount,
                Err(why) => next matches CreateOrderState::Done { reply } && reply matches Err(
                    ApiError::BadRequest(words),
                ) && words@ == exchange_rate::amount_error_text(why),
            },
        },
{
    if let Some(r) = rate {
        exchange_rate::prices_are_settled_by_cents_and_rate(request.fiat_amount@, r as nat);
    }
}

/// Law: once the wallet is known an index is looked at, its address derived, and both claimed;
/// the order stays what it was. A stored network that cannot be read is an internal error.
pub proof fn placements_keep_their_order(
    draft: OrderDraft,
    read: Result<Network, String>,
    now: i64,
    placement: Placement,
    minor_index: u32,
    address: String,
    next: CreateOrderState,
)
    ensures
        advances(
            CreateOrderState::Wallet { draft },
            CreateOrderEvent::WalletResolved { network: read, now },
            next,
        ) ==> match read {
            Ok(network) => next == (CreateOrderState::Peek {
                placement: Placement { draft, network, now, attempts_left: 8 },
            }),
            Err(why) => next matches CreateOrderState::Done { reply } && reply matches Err(
                ApiError::Internal(words),
            ) && words@ == "tenant has an invalid stored network: "@ + why@,
        },
        advances(
            CreateOrderState::Peek { placement },
            CreateOrderEvent::IndexPeeked { minor_index },
            next,
        ) ==> next == (CreateOrderState::Derive { placement, minor_index }),
        advances(
            CreateOrderState::Derive { placement, minor_index },
            CreateOrderEvent::AddressDerived { address },
            next,
        ) ==> next == (CreateOrderState::Claim { placement, minor_index, address }),
{
}

/// Law: a claim that succeeds is answered with the stored order, field by field. One that
/// loses starts over, with the same order and one attempt less, and behind the last attempt
/// the request fails.
pub proof fn claims_settle_the_request(
    placement: Placement,
    minor_index: u32,
    address: String,
    settled: Option<Order>,
    next: CreateOrderState,
)
    requires
        advances(
            CreateOrderState::Claim { placement, minor_index, address },
            CreateOrderEvent::ClaimSettled { order: settled },
            next,
        ),
        placement.attempts_left > 0,
    ensures
        match settled {
            Some(order) => next matches CreateOrderState::Done { reply } && reply matches Ok(r) && {
                &&& r.payment_id == order.id
                &&& r.address == order.address
                &&& r.xmr_amount_piconero == order.xmr_amount_piconero
                &&& r.fiat_amount == order.fiat_amount
                &&& r.fiat_currency == order.fiat_currency
                &&& r.expires_at == order.expires_at
            },
            None => if placement.attempts_left > 1 {
                next matches CreateOrderState::Peek { placement: again } && again.draft
                    == placement.draft && again.network == placement.network && again.now
                    == placement.now && again.attempts_left == placement.attempts_left - 1
            } else {
                next matches CreateOrderState::Done { reply } && reply matches Err(
                    ApiError::Internal(words),
                ) && words@
                    == "could not claim a subaddress index for this order - too much concurrent contention"@
            },
        },
{
}

/// Law: what fails outside ends the request with that failure, wherever it stands.
pub proof fn failures_end_the_request(
    state: CreateOrderState,
    error: ApiError,
    next: CreateOrderState,
)
    requires
        advances(state, CreateOrderEvent::Failed { error }, next),
    ensures
        next == (CreateOrderState::Done { reply: Err(error) }),
{
}

/// Law: a step takes every answer to what it asked for, and a failure; a resolved wallet only
/// where the order's expiry is a point in time.
pub proof fn every_answer_is_taken(
    public_key: String,
    request: CreateOrderRequest,
    origin: Origin,
    tenant: Tenant,
    draft: OrderDraft,
    placement: Placement,
    minor_index: u32,
    address: String,
    found: Option<Tenant>,
    rate: Option<u64>,
    read: Result<Network, String>,
    now: i64,
    settled: Option<Order>,
    error: ApiError,
)
    ensures
        (CreateOrderState::Lookup { public_key, request, origin }).expects(
            CreateOrderEvent::TenantLookedUp { found },
        ),
        (CreateOrderState::Quote { request, tenant }).expects(CreateOrderEvent::RateQuoted { rate }),
        i64::MIN <= now + draft.tenant.order_expiry_seconds <= i64::MAX
            ==> (CreateOrderState::Wallet { draft }).expects(
            CreateOrderEvent::WalletResolved { network: read, now },
        ),
        read is Err ==> (CreateOrderState::Wallet { draft }).expects(
            CreateOrderEvent::WalletResolved { network: read, now },
        ),
        (CreateOrderState::Peek { placement }).expects(CreateOrderEvent::IndexPeeked { minor_index }),
        (CreateOrderState::Derive { placement, minor_index }).expects(
            CreateOrderEvent::AddressDerived { address },
        ),
        (CreateOrderState::Claim { placement, minor_index, address }).expects(
            CreateOrderEvent::ClaimSettled { order: settled },
        ),
        (CreateOrderState::Lookup { public_key, request, origin }).expects(
            CreateOrderEvent::Failed { error },
        ),
        (CreateOrderState::Quote { request, tenant }).expects(CreateOrderEvent::Failed { error }),
        (CreateOrderState::Wallet { draft }).expects(CreateOrderEvent::Failed { error }),
        (CreateOrderState::Peek { placement }).expects(CreateOrderEvent::Failed { error }),
        (CreateOrderState::Derive { placement, minor_index }).expects(
            CreateOrderEvent::Failed { error },
        ),
        (CreateOrderState::Claim { placement, minor_index, address }).expects(
            CreateOrderEvent::Failed { error },
        ),
{
}

/// Law: a request that gives up for contention has made eight claims, and none makes more.
pub proof fn contention_is_given_up_after_eight_claims(
    request: CreateOrderRequest,
    origin: Origin,
    states: Seq<CreateOrderState>,
    events: Seq<CreateOrderEvent>,
)
    requires
        is_run(request, origin, states, events),
    ensures
        claims(states) <= 8,
        events.len() > 0 && states.last() is Done && events.last() == (
        CreateOrderEvent::ClaimSettled { order: None }) ==> claims(states) == 8,
{
    lemma_history(request, origin, states, events);
    if events.len() > 0 {
        lemma_run_prefix(request, origin, states, events);
        lemma_traced(request, origin, states.drop_last(), events.drop_last());
        lemma_history(request, origin, states.drop_last(), events.drop_last());
        assert(states.drop_last().last() == states[events.len() - 1]);
    }
}

proof fn lemma_step(
    request: CreateOrderRequest,
    origin: Origin,
    states: Seq<CreateOrderState>,
    events: Seq<CreateOrderEvent>,
    i: int,
)
    requires
        is_run(request, origin, states, events),
        0 <= i < events.len(),
    ensures
        states[i].expects(events[i]),
        advances(states[i], events[i], states[i + 1]),
{
    assert(states[i].expects(events[i]));
}

/// Law: a request that meets no obstacle is answered with its stored order: let in by its
/// tenant, priced at the quoted rate, and inserted at the index that was looked at.
pub proof fn an_unhindered_request_is_answered_with_its_order(
    request: CreateOrderRequest,
    states: Seq<CreateOrderState>,
    events: Seq<CreateOrderEvent>,
    tenant: Tenant,
    rate: u64,
    network: Network,
    now: i64,
    minor_index: u32,
    address: String,
    order: Order,
)
    requires
        is_run(request, Origin::Absent, states, events),
        exchange_rate::price(request.fiat_amount@, rate as nat) is Ok,
        events == seq![
            CreateOrderEvent::TenantLookedUp { found: Some(tenant) },
            CreateOrderEvent::RateQuoted { rate: Some(rate) },
            CreateOrderEvent::WalletResolved { network: Ok(network), now },
            CreateOrderEvent::IndexPeeked { minor_index },
            CreateOrderEvent::AddressDerived { address },
            CreateOrderEvent::ClaimSettled { order: Some(order) },
        ],
    ensures
        states[6] matches CreateOrderState::Done { reply } && reply matches Ok(r) && {
            &&& r.payment_id == order.id
            &&& r.address == order.address
            &&& r.xmr_amount_piconero == order.xmr_amount_piconero
            &&& r.fiat_amount == order.fiat_amount
            &&& r.fiat_currency == order.fiat_currency
            &&& r.expires_at == order.expires_at
        },
{
    assert(events.len() == 6);
    lemma_step(request, Origin::Absent, states, events, 0);
    lemma_step(request, Origin::Absent, states, events, 1);
    lemma_step(request, Origin::Absent, states, events, 2);
    lemma_step(request, Origin::Absent, states, events, 3);
    lemma_step(request, Origin::Absent, states, events, 4);
    lemma_step(request, Origin::Absent, states, events, 5);
}

} // verus!
