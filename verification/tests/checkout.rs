use moneropay::http::checkout::{
    can_show_payments, checkout_view, payment_page, payment_view, qr_svg_for_html, render_page, short_txid,
    strip_to_svg,
};
use moneropay::http::public::{
    get_order_status, known_order, order_key, refund_update, set_refund_address,
    SetRefundAddressRequest,
};
use moneropay::http::ApiError;
use moneropay::store::{Order, Payment, Tenant};
use moneropay::templates::CustomTemplate;

const TXID: &str = "0123456789abcdef0123456789abcdef0123456789abcdef0123456789abcdef";

fn tenant() -> Tenant {
    Tenant {
        id: "tenant_1".to_string(),
        network: "stagenet".to_string(),
        allowed_origins: vec!["https://shop.example".to_string()],
        order_expiry_seconds: 900,
        confirmations_required: 10,
        template_dir: None,
    }
}

fn order() -> Order {
    Order {
        id: "pay_1".to_string(),
        merchant_order_id: Some("m-7".to_string()),
        status: "partial".to_string(),
        address: "5abcexampleaddress".to_string(),
        fiat_currency: "USD".to_string(),
        fiat_amount: "25.00".to_string(),
        xmr_amount_piconero: 167_500_000_000,
        amount_received_piconero: 1,
        confirmations: 2,
        double_spend_detected_at: Some(1_700_000_000),
        description: Some("a hat".to_string()),
        expires_at: 1_700_000_900,
    }
}

fn payment(block_height: Option<i64>) -> Payment {
    Payment { txid: TXID.to_string(), amount_piconero: 6_700_000_000, block_height }
}

#[test]
fn long_transaction_ids_are_shortened() {
    assert_eq!(short_txid(TXID), "01234567…abcdef");
    assert_eq!(short_txid("0123456789abcdefg"), "01234567…bcdefg");
}

#[test]
fn short_transaction_ids_are_shown_in_full() {
    assert_eq!(short_txid("0123456789abcdef"), "0123456789abcdef");
    assert_eq!(short_txid(""), "");
    assert_eq!(short_txid("éé"), "éé");
}

#[test]
fn transaction_ids_are_cut_by_bytes() {
    // Eight bytes of two-byte characters, then thirteen more bytes.
    assert_eq!(short_txid("éééé0123456789abc"), "éééé…789abc");
}

#[test]
fn a_qr_code_is_an_svg_element_without_a_prolog() {
    let picture = qr_svg_for_html("5abcexampleaddress").unwrap();
    assert!(picture.starts_with("<svg xmlns="));
    assert!(picture.ends_with("</svg>"));
    assert!(!picture.contains("<?xml"));
    assert_ne!(picture, qr_svg_for_html("5otherexampleaddress").unwrap());
    assert!(qr_svg_for_html("").unwrap().starts_with("<svg"));
}

#[test]
fn data_that_no_qr_code_holds_is_an_internal_error() {
    match qr_svg_for_html(&"x".repeat(5000)) {
        Err(ApiError::Internal(words)) => {
            assert_eq!(words, "failed to encode QR code: data too long");
        }
        other => panic!("{other:?}"),
    }
}

#[test]
fn a_document_is_stripped_to_its_first_svg() {
    assert_eq!(strip_to_svg("<?xml?><svg a><svg b>"), "<svg a><svg b>");
    assert_eq!(strip_to_svg("<svg>"), "<svg>");
    assert_eq!(strip_to_svg("ä<svg>ö"), "<svg>ö");
    assert_eq!(strip_to_svg("no picture"), "no picture");
    assert_eq!(strip_to_svg("<sv"), "<sv");
    assert_eq!(strip_to_svg(""), "");
    assert_eq!(strip_to_svg("<s<svg"), "<svg");
}

#[test]
fn confirmations_count_the_payments_own_block() {
    assert_eq!(payment_view(&payment(Some(100)), 100).confirmations, 1);
    assert_eq!(payment_view(&payment(Some(100)), 109).confirmations, 10);
    assert_eq!(payment_view(&payment(Some(0)), 0).confirmations, 1);
}

#[test]
fn a_payment_above_the_scanned_chain_has_no_confirmations() {
    let ahead = payment_view(&payment(Some(101)), 100);
    assert_eq!((ahead.confirmations, ahead.is_zero_conf), (0, false));
    let unmined = payment_view(&payment(None), 100);
    assert_eq!((unmined.confirmations, unmined.is_zero_conf), (0, true));
    assert_eq!(payment_view(&payment(Some(-1)), 100).confirmations, 0);
    assert_eq!(payment_view(&payment(Some(-1)), u64::MAX).confirmations, 1);
}

#[test]
fn the_view_shows_the_order() {
    let view = checkout_view(
        order(),
        &tenant(),
        &vec![payment(Some(98)), payment(None)],
        100,
        "<svg/>".to_string(),
    );
    assert_eq!(view.payment_id, "pay_1");
    assert_eq!(view.status, "partial");
    assert_eq!(view.status_label, "Partial payment received");
    assert_eq!(view.status_class, "status-partial");
    assert!(!view.is_terminal);
    assert_eq!(view.address, "5abcexampleaddress");
    assert_eq!(view.qr_code_svg, "<svg/>");
    assert_eq!(view.xmr_amount, "0.167500000000");
    assert_eq!(view.amount_received_xmr, "0.000000000001");
    assert_eq!(view.fiat_amount, "25.00");
    assert_eq!(view.fiat_currency, "USD");
    assert_eq!(view.confirmations, 2);
    assert_eq!(view.confirmations_required, 10);
    assert_eq!(view.double_spend_detected_at, Some(1_700_000_000));
    assert_eq!(view.expires_at, 1_700_000_900);
    assert_eq!(view.merchant_order_id, Some("m-7".to_string()));
    assert_eq!(view.description, Some("a hat".to_string()));
    assert_eq!(view.payments.len(), 2);
    assert_eq!(view.payments[0].txid_short, "01234567…abcdef");
    assert_eq!(view.payments[0].amount_xmr, "0.006700000000");
    assert_eq!(view.payments[0].confirmations, 3);
    assert!(view.payments[1].is_zero_conf);
}

#[test]
fn the_page_is_made_from_the_stored_order() {
    let source = "{{payment_id}} {{xmr_amount}} {{#each payments}}{{confirmations}}{{/each}} \
        {{{qr_code_svg}}}";
    let html = payment_page(
        order(),
        &tenant(),
        &vec![payment(Some(98))],
        Some(100),
        CustomTemplate::Found(source.to_string()),
    )
    .unwrap();
    let expected =
        format!("pay_1 0.167500000000 3 {}", qr_svg_for_html("5abcexampleaddress").unwrap());
    assert_eq!(html, expected);
}

#[test]
fn a_network_that_was_never_scanned_confirms_nothing() {
    let source = "{{#each payments}}{{confirmations}}{{/each}}";
    let html = payment_page(
        order(),
        &tenant(),
        &vec![payment(Some(1)), payment(Some(0))],
        None,
        CustomTemplate::Found(source.to_string()),
    )
    .unwrap();
    assert_eq!(html, "01");
}

#[test]
fn the_default_page_renders_a_full_order() {
    let html = payment_page(
        order(),
        &tenant(),
        &vec![payment(Some(98)), payment(None)],
        Some(100),
        CustomTemplate::NotConfigured,
    )
    .unwrap();
    for part in ["pay_1", "5abcexampleaddress", "0.167500000000", "01234567…abcdef", "<svg"] {
        assert!(html.contains(part), "{part} is missing: {html}");
    }
}

#[test]
fn a_page_fails_on_its_qr_code_before_its_template() {
    let mut long = order();
    long.address = "x".repeat(5000);
    let template = CustomTemplate::Unreadable { path: "p".to_string(), reason: "r".to_string() };
    match payment_page(long, &tenant(), &vec![], Some(1), template) {
        Err(ApiError::Internal(words)) => {
            assert_eq!(words, "failed to encode QR code: data too long");
        }
        other => panic!("{other:?}"),
    }
}

#[test]
fn template_failures_are_internal_errors() {
    let unreadable = CustomTemplate::Unreadable { path: "p".to_string(), reason: "r".to_string() };
    match payment_page(order(), &tenant(), &vec![], Some(1), unreadable) {
        Err(ApiError::Internal(words)) => {
            assert_eq!(words, "failed to read template file p: r");
        }
        other => panic!("{other:?}"),
    }
    let view = checkout_view(order(), &tenant(), &vec![], 1, "<svg/>".to_string());
    match render_page(CustomTemplate::Found("{{#if}}".to_string()), &view) {
        Err(ApiError::Internal(words)) => {
            assert!(words.starts_with("failed to register template: "), "{words}");
        }
        other => panic!("{other:?}"),
    }
    match render_page(CustomTemplate::Found("{{missing}}".to_string()), &view) {
        Err(ApiError::Internal(words)) => {
            assert!(words.starts_with("failed to render template: "), "{words}");
        }
        other => panic!("{other:?}"),
    }
}

#[test]
fn orders_are_looked_up_under_their_tenant() {
    let key = order_key(&Some(tenant()), "pay_1").unwrap();
    assert_eq!((key.tenant_id.as_str(), key.payment_id.as_str()), ("tenant_1", "pay_1"));
    assert!(matches!(order_key(&None, "pay_1"), Err(ApiError::NotFound)));
}

#[test]
fn an_unknown_order_is_not_found() {
    assert!(matches!(known_order(None), Err(ApiError::NotFound)));
    assert!(matches!(get_order_status(None), Err(ApiError::NotFound)));
    assert_eq!(known_order(Some(order())).unwrap().id, "pay_1");
}

#[test]
fn the_status_of_an_order_is_what_is_stored() {
    let status = get_order_status(Some(order())).unwrap();
    assert_eq!(status.payment_id, "pay_1");
    assert_eq!(status.status, "partial");
    assert_eq!(status.address, "5abcexampleaddress");
    assert_eq!(status.confirmations, 2);
    assert_eq!(status.amount_received_piconero, 1);
    assert_eq!(status.xmr_amount_piconero, 167_500_000_000);
    assert_eq!(status.double_spend_detected_at, Some(1_700_000_000));
    assert_eq!(status.expires_at, 1_700_000_900);
}

#[test]
fn a_refund_address_is_stored_with_an_order_of_the_tenant() {
    let request = SetRefundAddressRequest { refund_address: "5refund".to_string() };
    let update = refund_update(&Some(tenant()), "pay_1", request).unwrap();
    assert_eq!(update.order.tenant_id, "tenant_1");
    assert_eq!(update.order.payment_id, "pay_1");
    assert_eq!(update.refund_address, "5refund");
    let request = SetRefundAddressRequest { refund_address: "5refund".to_string() };
    assert!(matches!(refund_update(&None, "pay_1", request), Err(ApiError::NotFound)));
}

#[test]
fn a_refund_address_for_no_order_is_not_found() {
    assert!(matches!(set_refund_address(true), Ok(())));
    assert!(matches!(set_refund_address(false), Err(ApiError::NotFound)));
}

#[test]
fn a_template_that_may_not_end_is_an_internal_error() {
    let source = "{{#if payment_id}}{{> checkout}}{{/if}}";
    let template = CustomTemplate::Found(source.to_string());
    match payment_page(order(), &tenant(), &vec![], Some(1), template) {
        Err(ApiError::Internal(words)) => {
            assert_eq!(words, "the checkout template may include partials without end");
        }
        other => panic!("{other:?}"),
    }
}

#[test]
fn a_malformed_inclusion_is_told_of_as_malformed() {
    for source in ["{{>}}", "{{#if payment_id}}{{> checkout}}"] {
        let template = CustomTemplate::Found(source.to_string());
        match payment_page(order(), &tenant(), &vec![], Some(1), template) {
            Err(ApiError::Internal(words)) => {
                assert!(words.starts_with("failed to register template: "), "{words}");
            }
            other => panic!("{other:?}"),
        }
    }
}

#[test]
fn a_page_may_be_made_of_partials() {
    let source = "{{#*inline \"row\"}}{{txid_short}} {{confirmations}};{{/inline}}\
        {{#*inline \"rows\"}}{{#each payments}}{{> row}}{{/each}}{{/inline}}{{> rows}}\
        {{#*inline \"end\"}}{{status_label}}{{/inline}}{{> end}}";
    let html = payment_page(
        order(),
        &tenant(),
        &vec![payment(Some(100)), payment(None)],
        Some(100),
        CustomTemplate::Found(source.to_string()),
    )
    .unwrap();
    assert_eq!(html, "01234567…abcdef 1;01234567…abcdef 0;Partial payment received");
}

#[test]
fn payments_that_cannot_be_shown_are_told() {
    assert!(can_show_payments(&vec![payment(Some(0)), payment(None)], Some(7)));
    assert!(can_show_payments(&vec![payment(Some(1))], Some(u64::MAX)));
    assert!(!can_show_payments(&vec![payment(Some(1)), payment(Some(0))], Some(u64::MAX)));
    let mut odd = payment(None);
    odd.txid = "0123456é89abcdefg".to_string();
    assert!(!can_show_payments(&vec![odd], None));
}
