//! The routes that a merchant's site and its customers call.

use vstd::prelude::*;

use crate::exchange_rate;
use crate::exchange_rate::compute_xmr_amount;
use crate::http::{ApiError, Origin};
use crate::store::{Order, Tenant};
use crate::text;

verus! {

/// A site's request for a new order.
#[derive(Debug)]
pub struct CreateOrderRequest {
    pub merchant_order_id: Option<String>,
    pub fiat_amount: String,
    pub fiat_currency: String,
    pub description: Option<String>,
}

/// What the site is told about the order it placed.
#[derive(Debug)]
pub struct CreateOrderResponse {
    pub payment_id: String,
    pub address: String,
    pub xmr_amount_piconero: u64,
    pub fiat_amount: String,
    pub fiat_currency: String,
    pub expires_at: i64,
}

/// What a customer sees of the state of an order.
#[derive(Debug)]
pub struct OrderStatusResponse {
    pub payment_id: String,
    pub status: String,
    pub address: String,
    pub confirmations: u64,
    pub amount_received_piconero: u64,
    pub xmr_amount_piconero: u64,
    pub double_spend_detected_at: Option<i64>,
    pub expires_at: i64,
}

/// Where a customer wants a refund to go.
#[derive(Debug)]
pub struct SetRefundAddressRequest {
    pub refund_address: String,
}

/// The tenant lets this origin in: it is on the tenant's list, or the request has none.
/// A request without an origin does not come from a browser, and the list only says
/// which sites may act on a customer's behalf. An origin that is no text is on no list.
pub open spec fn origin_allowed(tenant: Tenant, origin: Origin) -> bool {
    match origin {
        Origin::Absent => true,
        Origin::Text(o) => exists|i: int|
            0 <= i < tenant.allowed_origins@.len() && #[trigger] tenant.allowed_origins@[i]@ == o@,
        Origin::NotText => false,
    }
}

/// `e` refuses with status `Forbidden` and these words.
pub open spec fn forbids(e: ApiError, words: Seq<char>) -> bool {
    e matches ApiError::Forbidden(m) && m@ == words
}

/// `e` refuses with status `BadRequest` and these words.
pub open spec fn rejects(e: ApiError, words: Seq<char>) -> bool {
    e matches ApiError::BadRequest(m) && m@ == words
}

/// `e` fails with status `Internal` and these words.
pub open spec fn fails(e: ApiError, words: Seq<char>) -> bool {
    e matches ApiError::Internal(m) && m@ == words
}

/// Whether `origin` is one of `allowed`.
fn lists_origin(allowed: &Vec<String>, origin: &str) -> (r: bool)
    ensures
        r == (exists|i: int| 0 <= i < allowed@.len() && #[trigger] allowed@[i]@ == origin@),
{
    let mut i: usize = 0;
    while i < allowed.len()
        invariant
            i <= allowed@.len(),
            forall|j: int| 0 <= j < i ==> #[trigger] allowed@[j]@ != origin@,
        decreases allowed@.len() - i,
    {
        if text::str_eq(allowed[i].as_str(), origin) {
            assert(allowed@[i as int]@ == origin@);
            return true;
        }
        i = i + 1;
    }
    false
}

/// Resolves the tenant that a public key was looked up for, and enforces its list of
/// origins whatever a browser does about it.
pub fn resolve_public_tenant(found: Option<Tenant>, origin: &Origin) -> (r: Result<
    Tenant,
    ApiError,
>)
    ensures
        match found {
            None => r == Err::<Tenant, ApiError>(ApiError::NotFound),
            Some(tenant) => if origin_allowed(tenant, *origin) {
                r == Ok::<Tenant, ApiError>(tenant)
            } else {
                r matches Err(e) && forbids(e, "origin not allowed for this tenant"@)
            },
        },
        r is Ok ==> found == Some(r->Ok_0),
        r matches Err(e) ==> (e matches ApiError::Forbidden(words) && words@
            == "origin not allowed for this tenant"@) || (e is NotFound && found is None),
        found matches Some(tenant) ==> (r is Ok <==> (*origin is Absent || (*origin matches
            Origin::Text(o) && exists|i: int|
            0 <= i < tenant.allowed_origins@.len() && #[trigger] tenant.allowed_origins@[i]@
                == o@))),
{
    let tenant = match found {
        Some(tenant) => tenant,
        None => {
            return Err(ApiError::NotFound);
        },
    };
    let allowed: bool = match origin {
        Origin::Absent => true,
        Origin::Text(origin) => lists_origin(&tenant.allowed_origins, origin.as_str()),
        Origin::NotText => false,
    };
    if !allowed {
        return Err(ApiError::Forbidden("origin not allowed for this tenant".to_string()));
    }
    Ok(tenant)
}

/// What an order costs.
#[derive(Debug, Clone, Copy)]
pub struct Quote {
    pub piconero_per_unit: u64,
    pub xmr_amount_piconero: u64,
}

/// What `rate`, as the rate provider gave it, makes of the request: the amount to be
/// paid in piconero, or the refusal.
pub open spec fn quoted(
    request: CreateOrderRequest,
    rate: Option<u64>,
    r: Result<Quote, ApiError>,
) -> bool {
    match rate {
        None => r matches Err(e) && rejects(
            e,
            "unsupported currency: "@ + request.fiat_currency@,
        ),
        Some(rate) => match exchange_rate::price(request.fiat_amount@, rate as nat) {
            Ok(n) => r == Ok::<Quote, ApiError>(
                Quote { piconero_per_unit: rate, xmr_amount_piconero: n as u64 },
            ),
            Err(why) => r matches Err(e) && rejects(e, exchange_rate::amount_error_text(why)),
        },
    }
}

/// Prices a request at the rate that the provider gave for its currency.
pub fn quote_order(request: &CreateOrderRequest, rate: Option<u64>) -> (r: Result<Quote, ApiError>)
    ensures
        quoted(*request, rate, r),
        rate is None ==> (r matches Err(ApiError::BadRequest(words)) && words@
            == "unsupported currency: "@ + request.fiat_currency@),
        rate matches Some(rate) ==> match exchange_rate::price(request.fiat_amount@, rate as nat) {
            Ok(amount) => r matches Ok(quote) && quote.piconero_per_unit == rate
                && quote.xmr_amount_piconero == amount,
            Err(why) => r matches Err(ApiError::BadRequest(words)) && words@
                == exchange_rate::amount_error_text(why),
        },
{
    proof {
        if let Some(rate) = rate {
            exchange_rate::prices_are_settled_by_cents_and_rate(request.fiat_amount@, rate as nat);
        }
    }
    match rate {
        None => Err(
            ApiError::BadRequest(
                text::join("unsupported currency: ", request.fiat_currency.as_str()),
            ),
        ),
        Some(rate) => match compute_xmr_amount(request.fiat_amount.as_str(), rate) {
            Ok(amount) => Ok(Quote { piconero_per_unit: rate, xmr_amount_piconero: amount }),
            Err(e) => Err(ApiError::BadRequest(e.message())),
        },
    }
}

/// Where an order is looked for: under its tenant, by its payment id.
#[derive(Debug)]
pub struct OrderKey {
    pub tenant_id: String,
    pub payment_id: String,
}

/// A refund address that is to be stored with an order.
#[derive(Debug)]
pub struct RefundUpdate {
    pub order: OrderKey,
    pub refund_address: String,
}

/// Where to look for the order of this payment id, given the tenant that the public key of
/// the request was looked up for. The payment id alone finds nothing: it is searched under
/// that tenant only.
pub fn order_key(found: &Option<Tenant>, payment_id: &str) -> (r: Result<OrderKey, ApiError>)
    ensures
        match found {
            None => r == Err::<OrderKey, ApiError>(ApiError::NotFound),
            Some(tenant) => r matches Ok(key) && key.tenant_id == tenant.id && key.payment_id@
                == payment_id@,
        },
{
    match found {
        Some(tenant) => Ok(
            OrderKey { tenant_id: tenant.id.clone(), payment_id: payment_id.to_string() },
        ),
        None => Err(ApiError::NotFound),
    }
}

/// The order that was found, for a request that cannot go on without one.
pub fn known_order(found: Option<Order>) -> (r: Result<Order, ApiError>)
    ensures
        match found {
            None => r == Err::<Order, ApiError>(ApiError::NotFound),
            Some(order) => r == Ok::<Order, ApiError>(order),
        },
{
    match found {
        Some(order) => Ok(order),
        None => Err(ApiError::NotFound),
    }
}

/// `r` tells of the state of a stored order.
pub open spec fn reports(r: OrderStatusResponse, order: Order) -> bool {
    &&& r.payment_id == order.id
    &&& r.status == order.status
    &&& r.address == order.address
    &&& r.confirmations == order.confirmations
    &&& r.amount_received_piconero == order.amount_received_piconero
    &&& r.xmr_amount_piconero == order.xmr_amount_piconero
    &&& r.double_spend_detected_at == order.double_spend_detected_at
    &&& r.expires_at == order.expires_at
}

/// The state of the order that was found under its [`OrderKey`].
pub fn get_order_status(found: Option<Order>) -> (r: Result<OrderStatusResponse, ApiError>)
    ensures
        match found {
            None => r == Err::<OrderStatusResponse, ApiError>(ApiError::NotFound),
            Some(order) => r matches Ok(response) && reports(response, order),
        },
        found matches Some(order) ==> (r matches Ok(response) && {
            &&& response.payment_id == order.id
            &&& response.status == order.status
            &&& response.address == order.address
            &&& response.confirmations == order.confirmations
            &&& response.amount_received_piconero == order.amount_received_piconero
            &&& response.xmr_amount_piconero == order.xmr_amount_piconero
            &&& response.double_spend_detected_at == order.double_spend_detected_at
            &&& response.expires_at == order.expires_at
        }),
{
    let order: Order = match known_order(found) {
        Ok(order) => order,
        Err(e) => {
            return Err(e);
        },
    };
    Ok(
        OrderStatusResponse {
            payment_id: order.id,
            status: order.status,
            address: order.address,
            confirmations: order.confirmations,
            amount_received_piconero: order.amount_received_piconero,
            xmr_amount_piconero: order.xmr_amount_piconero,
            double_spend_detected_at: order.double_spend_detected_at,
            expires_at: order.expires_at,
        },
    )
}

/// What a request to set a refund address asks storage for.
pub fn refund_update(
    found: &Option<Tenant>,
    payment_id: &str,
    request: SetRefundAddressRequest,
) -> (r: Result<RefundUpdate, ApiError>)
    ensures
        match found {
            None => r == Err::<RefundUpdate, ApiError>(ApiError::NotFound),
            Some(tenant) => r matches Ok(update) && update.order.tenant_id == tenant.id
                && update.order.payment_id@ == payment_id@ && update.refund_address
                == request.refund_address,
        },
{
    match order_key(found, payment_id) {
        Ok(order) => Ok(RefundUpdate { order, refund_address: request.refund_address }),
        Err(e) => Err(e),
    }
}

/// Answers a request to set a refund address; `updated` is whether storage held the order.
pub fn set_refund_address(updated: bool) -> (r: Result<(), ApiError>)
    ensures
        r == (if updated {
            Ok::<(), ApiError>(())
        } else {
            Err(ApiError::NotFound)
        }),
{
    if updated {
        Ok(())
    } else {
        Err(ApiError::NotFound)
    }
}

/// Law: a status tells of one state of an order only. Two orders that differ in their id,
/// status, address, confirmations, amounts, double spend or expiry are never told of alike.
pub proof fn different_states_are_reported_differently(
    a: Order,
    b: Order,
    of_a: OrderStatusResponse,
    of_b: OrderStatusResponse,
)
    requires
        reports(of_a, a),
        reports(of_b, b),
    ensures
        of_a == of_b <==> {
            &&& a.id == b.id
            &&& a.status == b.status
            &&& a.address == b.address
            &&& a.confirmations == b.confirmations
            &&& a.amount_received_piconero == b.amount_received_piconero
            &&& a.xmr_amount_piconero == b.xmr_amount_piconero
            &&& a.double_spend_detected_at == b.double_spend_detected_at
            &&& a.expires_at == b.expires_at
        },
{
}

/// Law: a status tells of each part of the order as it is stored.
pub proof fn statuses_tell_what_is_stored(order: Order, r: OrderStatusResponse)
    requires
        reports(r, order),
    ensures
        r.payment_id == order.id,
        r.status == order.status,
        r.address == order.address,
        r.confirmations == order.confirmations,
        r.amount_received_piconero == order.amount_received_piconero,
        r.xmr_amount_piconero == order.xmr_amount_piconero,
        r.double_spend_detected_at == order.double_spend_detected_at,
        r.expires_at == order.expires_at,
{
}

/// Law: a listed origin stays let in when the list grows, and the origin that is added to a
/// list is let in from then on. No text is on no list.
pub proof fn listed_origins_are_let_in(tenant: Tenant, grown: Tenant, origin: String)
    requires
        grown.allowed_origins@.len() > 0,
        grown.allowed_origins@.drop_last() == tenant.allowed_origins@,
    ensures
        origin_allowed(grown, Origin::Text(origin)) <==> (origin_allowed(
            tenant,
            Origin::Text(origin),
        ) || grown.allowed_origins@.last()@ == origin@),
        origin_allowed(tenant, Origin::Absent),
        !origin_allowed(tenant, Origin::NotText),
        tenant.allowed_origins@.len() == 0 ==> !origin_allowed(tenant, Origin::Text(origin)),
{
    let old_list = tenant.allowed_origins@;
    let new_list = grown.allowed_origins@;
    assert(forall|i: int| 0 <= i < old_list.len() ==> #[trigger] old_list[i] == new_list[i]);
    if origin_allowed(tenant, Origin::Text(origin)) {
        let i = choose|i: int| 0 <= i < old_list.len() && #[trigger] old_list[i]@ == origin@;
        assert(new_list[i]@ == origin@);
    }
    if origin_allowed(grown, Origin::Text(origin)) {
        let i = choose|i: int| 0 <= i < new_list.len() && #[trigger] new_list[i]@ == origin@;
        if i < old_list.len() {
            assert(old_list[i]@ == origin@);
        }
    }
}

/// Law: each refusal carries its own status and its own words.
pub proof fn refusals_carry_their_status_and_words(e: ApiError, words: Seq<char>)
    ensures
        forbids(e, words) <==> (e matches ApiError::Forbidden(m) && m@ == words),
        rejects(e, words) <==> (e matches ApiError::BadRequest(m) && m@ == words),
        fails(e, words) <==> (e matches ApiError::Internal(m) && m@ == words),
{
}

} // verus!
