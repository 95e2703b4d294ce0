use moneropay::http::create_order::{
    begin_order, create_order, next_action, CreateOrderAction, CreateOrderEvent, CreateOrderState,
    CLAIM_ATTEMPTS,
};
use moneropay::http::public::{quote_order, resolve_public_tenant, CreateOrderRequest};
use moneropay::http::{ApiError, Network, Origin};
use moneropay::store::{NewOrder, Order, Tenant};

fn tenant() -> Tenant {
    Tenant {
        id: "tenant_1".to_string(),
        network: "stagenet".to_string(),
        allowed_origins: vec!["https://a.example".to_string(), "https://b.example".to_string()],
        order_expiry_seconds: 900,
        confirmations_required: 10,
        template_dir: None,
    }
}

fn request() -> CreateOrderRequest {
    CreateOrderRequest {
        merchant_order_id: Some("m-7".to_string()),
        fiat_amount: "25.00".to_string(),
        fiat_currency: "USD".to_string(),
        description: None,
    }
}

fn stored(order: &NewOrder) -> Order {
    Order {
        id: "pay_1".to_string(),
        merchant_order_id: order.merchant_order_id.clone(),
        status: "pending".to_string(),
        address: order.address.clone(),
        fiat_currency: order.fiat_currency.clone(),
        fiat_amount: order.fiat_amount.clone(),
        xmr_amount_piconero: order.xmr_amount_piconero,
        amount_received_piconero: 0,
        confirmations: 0,
        double_spend_detected_at: None,
        description: order.description.clone(),
        expires_at: order.expires_at,
    }
}

/// Runs a request; `free` is the number of the claim that succeeds, counted from one.
fn run(origin: Origin, free: u32) -> (CreateOrderState, Vec<NewOrder>) {
    let mut state = begin_order("pk_1".to_string(), request(), origin);
    let mut claims: Vec<NewOrder> = Vec::new();
    loop {
        let event = match next_action(&state) {
            CreateOrderAction::LookUpTenant { public_key } => {
                assert_eq!(public_key, "pk_1");
                CreateOrderEvent::TenantLookedUp { found: Some(tenant()) }
            }
            CreateOrderAction::QuoteRate { fiat_currency } => {
                assert_eq!(fiat_currency, "USD");
                CreateOrderEvent::RateQuoted { rate: Some(6_700_000_000) }
            }
            CreateOrderAction::ResolveWallet { tenant_id, network_name } => {
                assert_eq!((tenant_id.as_str(), network_name.as_str()), ("tenant_1", "stagenet"));
                CreateOrderEvent::WalletResolved { network: Ok(Network::Stagenet), now: 1_000 }
            }
            CreateOrderAction::PeekIndex { tenant_id } => {
                assert_eq!(tenant_id, "tenant_1");
                CreateOrderEvent::IndexPeeked { minor_index: 40 + claims.len() as u32 }
            }
            CreateOrderAction::DeriveAddress { major_index, minor_index, network } => {
                assert_eq!(major_index, 0);
                assert_eq!(network, Network::Stagenet);
                CreateOrderEvent::AddressDerived { address: format!("address {minor_index}") }
            }
            CreateOrderAction::ClaimIndex { order } => {
                let made = claims.len() as u32 + 1;
                let settled = if made == free { Some(stored(&order)) } else { None };
                claims.push(order);
                CreateOrderEvent::ClaimSettled { order: settled }
            }
            CreateOrderAction::Reply => return (state, claims),
        };
        state = create_order(state, event);
    }
}

fn refusal(state: CreateOrderState) -> ApiError {
    match state {
        CreateOrderState::Done { reply: Err(e) } => e,
        other => panic!("{other:?}"),
    }
}

#[test]
fn an_order_is_placed_at_the_index_that_was_peeked() {
    let (state, claims) = run(Origin::Text("https://b.example".to_string()), 1);
    assert_eq!(claims.len(), 1);
    let order = &claims[0];
    assert_eq!(order.tenant_id, "tenant_1");
    assert_eq!(order.merchant_order_id, Some("m-7".to_string()));
    assert_eq!(order.minor_index, 40);
    assert_eq!(order.address, "address 40");
    assert_eq!(order.fiat_currency, "USD");
    assert_eq!(order.fiat_amount, "25.00");
    assert_eq!(order.exchange_rate, "6700000000");
    assert_eq!(order.xmr_amount_piconero, 167_500_000_000);
    assert_eq!(order.description, None);
    assert_eq!(order.created_at, 1_000);
    assert_eq!(order.expires_at, 1_900);
    match state {
        CreateOrderState::Done { reply: Ok(reply) } => {
            assert_eq!(reply.payment_id, "pay_1");
            assert_eq!(reply.address, "address 40");
            assert_eq!(reply.xmr_amount_piconero, 167_500_000_000);
            assert_eq!(reply.fiat_amount, "25.00");
            assert_eq!(reply.fiat_currency, "USD");
            assert_eq!(reply.expires_at, 1_900);
        }
        other => panic!("{other:?}"),
    }
}

#[test]
fn a_lost_claim_starts_over_with_the_next_index() {
    let (state, claims) = run(Origin::Absent, 3);
    assert_eq!(claims.iter().map(|o| o.minor_index).collect::<Vec<_>>(), vec![40, 41, 42]);
    assert_eq!(claims[2].address, "address 42");
    assert!(claims.iter().all(|o| o.xmr_amount_piconero == 167_500_000_000));
    assert!(claims.iter().all(|o| o.created_at == 1_000));
    assert!(matches!(state, CreateOrderState::Done { reply: Ok(_) }));
}

#[test]
fn the_last_claim_may_still_succeed() {
    let (state, claims) = run(Origin::Absent, CLAIM_ATTEMPTS);
    assert_eq!(claims.len(), 8);
    assert!(matches!(state, CreateOrderState::Done { reply: Ok(_) }));
}

#[test]
fn claims_are_given_up_after_a_bounded_number() {
    let (state, claims) = run(Origin::Absent, 0);
    assert_eq!(claims.len(), 8);
    match refusal(state) {
        ApiError::Internal(words) => assert_eq!(
            words,
            "could not claim a subaddress index for this order - too much concurrent contention"
        ),
        other => panic!("{other:?}"),
    }
}

#[test]
fn a_foreign_origin_is_forbidden() {
    let (state, claims) = run(Origin::Text("https://evil.example".to_string()), 1);
    assert!(claims.is_empty());
    match refusal(state) {
        ApiError::Forbidden(words) => assert_eq!(words, "origin not allowed for this tenant"),
        other => panic!("{other:?}"),
    }
}

#[test]
fn a_request_without_an_origin_is_let_in() {
    assert!(resolve_public_tenant(Some(tenant()), &Origin::Absent).is_ok());
    let mut closed = tenant();
    closed.allowed_origins = vec![];
    assert!(resolve_public_tenant(Some(closed), &Origin::Absent).is_ok());
}

#[test]
fn an_origin_that_is_no_text_is_forbidden() {
    let (state, claims) = run(Origin::NotText, 1);
    assert!(claims.is_empty());
    match refusal(state) {
        ApiError::Forbidden(words) => assert_eq!(words, "origin not allowed for this tenant"),
        other => panic!("{other:?}"),
    }
    assert!(matches!(
        resolve_public_tenant(None, &Origin::NotText),
        Err(ApiError::NotFound)
    ));
}

#[test]
fn origins_are_compared_to_the_letter() {
    let origin = Origin::Text("https://a.example".to_string());
    assert_eq!(resolve_public_tenant(Some(tenant()), &origin).unwrap().id, "tenant_1");
    for other in ["https://a.example/", "HTTPS://a.example", "https://a.exampl", ""] {
        let origin = Origin::Text(other.to_string());
        assert!(matches!(
            resolve_public_tenant(Some(tenant()), &origin),
            Err(ApiError::Forbidden(_))
        ));
    }
    assert!(matches!(resolve_public_tenant(None, &origin), Err(ApiError::NotFound)));
}

#[test]
fn an_unknown_tenant_is_not_found() {
    let state = create_order(
        begin_order("pk_1".to_string(), request(), Origin::Absent),
        CreateOrderEvent::TenantLookedUp { found: None },
    );
    assert!(matches!(refusal(state), ApiError::NotFound));
}

#[test]
fn a_currency_without_a_rate_is_refused() {
    match quote_order(&request(), None) {
        Err(ApiError::BadRequest(words)) => assert_eq!(words, "unsupported currency: USD"),
        other => panic!("{other:?}"),
    }
}

#[test]
fn an_amount_that_cannot_be_priced_is_refused() {
    let mut bad = request();
    bad.fiat_amount = "5.123".to_string();
    match quote_order(&bad, Some(1)) {
        Err(ApiError::BadRequest(words)) => {
            assert_eq!(words, "amount has more than 2 decimal places");
        }
        other => panic!("{other:?}"),
    }
    let quote = quote_order(&request(), Some(6_700_000_000)).unwrap();
    assert_eq!(quote.piconero_per_unit, 6_700_000_000);
    assert_eq!(quote.xmr_amount_piconero, 167_500_000_000);
}

#[test]
fn a_corrupt_stored_network_is_an_internal_error() {
    let state = begin_order("pk_1".to_string(), request(), Origin::Absent);
    let state = create_order(state, CreateOrderEvent::TenantLookedUp { found: Some(tenant()) });
    let state = create_order(state, CreateOrderEvent::RateQuoted { rate: Some(1) });
    let state = create_order(
        state,
        CreateOrderEvent::WalletResolved { network: Err("no such network".to_string()), now: 0 },
    );
    match refusal(state) {
        ApiError::Internal(words) => {
            assert_eq!(words, "tenant has an invalid stored network: no such network");
        }
        other => panic!("{other:?}"),
    }
}

#[test]
fn a_failure_outside_ends_the_request() {
    let state = begin_order("pk_1".to_string(), request(), Origin::Absent);
    let state = create_order(state, CreateOrderEvent::TenantLookedUp { found: Some(tenant()) });
    let error = ApiError::Internal("storage is gone".to_string());
    let state = create_order(state, CreateOrderEvent::Failed { error });
    match refusal(state) {
        ApiError::Internal(words) => assert_eq!(words, "storage is gone"),
        other => panic!("{other:?}"),
    }
}
