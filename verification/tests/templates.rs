use moneropay::inclusion::is_sure_to_end;
use moneropay::script_text::escape_for_script_element;
use moneropay::templates::{
    can_be_rendered, json_helper, status_label, CheckoutViewModel, CustomTemplate, JsonHelperError,
    PaymentViewModel, TemplateEngine, TemplateError, CHECKOUT_TEMPLATE, DEFAULT_CHECKOUT_TEMPLATE,
};

fn sample_view_model() -> CheckoutViewModel {
    CheckoutViewModel {
        payment_id: "pay_test123".to_string(),
        status: "pending".to_string(),
        status_label: "Waiting for payment".to_string(),
        status_class: "status-pending".to_string(),
        address: "5abcexampleaddress".to_string(),
        qr_code_svg: "<svg></svg>".to_string(),
        xmr_amount: "0.500000000000".to_string(),
        amount_received_xmr: "0.000000000000".to_string(),
        fiat_amount: "25.00".to_string(),
        fiat_currency: "USD".to_string(),
        confirmations: 0,
        confirmations_required: 10,
        is_terminal: false,
        double_spend_detected_at: None,
        expires_at: 9_999_999_999,
        merchant_order_id: None,
        description: None,
        payments: vec![],
    }
}

fn engine_for(source: &str) -> TemplateEngine {
    assert!(is_sure_to_end(CHECKOUT_TEMPLATE, source));
    match TemplateEngine::new(CustomTemplate::Found(source.to_string())) {
        Ok(engine) => engine,
        Err(e) => panic!("{}", e.message()),
    }
}

fn page(source: &str, model: &CheckoutViewModel) -> String {
    match engine_for(source).render_checkout(model) {
        Ok(html) => html,
        Err(e) => panic!("{}", e.message()),
    }
}

fn object(fields: Vec<(&str, serde_json::Value)>) -> serde_json::Value {
    let map: serde_json::Map<String, serde_json::Value> =
        fields.into_iter().map(|(k, v)| (k.to_string(), v)).collect();
    serde_json::Value::Object(map)
}

#[test]
fn default_template_renders_without_error_and_includes_key_fields() {
    let engine = TemplateEngine::new(CustomTemplate::NotConfigured).ok().unwrap();
    let html = engine.render_checkout(&sample_view_model()).unwrap();
    assert!(html.contains("pay_test123"));
    assert!(html.contains("5abcexampleaddress"));
    assert!(html.contains("0.500000000000"));
    assert!(html.contains("<svg"));
}

#[test]
fn double_spend_banner_only_renders_when_the_field_is_set() {
    let engine = TemplateEngine::new(CustomTemplate::NotConfigured).ok().unwrap();

    let without = engine.render_checkout(&sample_view_model()).unwrap();
    assert!(
        !without.contains(r#"id="double-spend-banner""#),
        "no banner expected when double_spend_detected_at is None"
    );

    let mut with_ds = sample_view_model();
    with_ds.double_spend_detected_at = Some(1_700_000_000);
    with_ds.status = "partial".to_string();
    let with = engine.render_checkout(&with_ds).unwrap();
    assert!(
        with.contains(r#"id="double-spend-banner""#),
        "banner must render when double_spend_detected_at is set"
    );
}

#[test]
fn falls_back_to_the_embedded_default_when_a_custom_dir_lacks_the_file() {
    let engine = TemplateEngine::new(CustomTemplate::Missing).ok().unwrap();
    let html = engine.render_checkout(&sample_view_model()).unwrap();
    assert!(html.contains("pay_test123"));
    assert_eq!(html, page(DEFAULT_CHECKOUT_TEMPLATE, &sample_view_model()));
}

#[test]
fn uses_a_custom_template_file_when_present() {
    let html = page("custom template for {{payment_id}}", &sample_view_model());
    assert_eq!(html, "custom template for pay_test123");
}

#[test]
fn the_json_helper_cannot_close_the_script_element_it_is_embedded_in() {
    let engine = engine_for("<script>var d = {{{json description}}};</script>");

    let mut model = sample_view_model();
    model.description = Some("</script><img src=x onerror=alert(1)>".to_string());
    let html = engine.render_checkout(&model).unwrap();

    assert!(
        !html[..html.len() - "</script>".len()].contains("</script"),
        "no `</script` may appear before the real closing tag: {html}"
    );
    assert!(!html.contains("<img"), "markup must not survive into the page: {html}");
    assert!(html.contains("\\u003c/script\\u003e"), "got {html}");
}

#[test]
fn the_json_helper_output_still_parses_back_to_the_original_value() {
    // The escaping is only correct if it is transparent: the JavaScript that reads these
    // values must see exactly what the server put in.
    for value in [
        serde_json::Value::from("</script>"),
        serde_json::Value::from("a & b < c > d"),
        serde_json::Value::from("line\u{2028}sep\u{2029}para"),
        serde_json::Value::from("quotes \" and \\ backslash"),
        object(vec![(
            "nested",
            serde_json::Value::Array(vec![
                serde_json::Value::from("</script>"),
                serde_json::Value::from(1),
                serde_json::Value::from(true),
                serde_json::Value::Null,
            ]),
        )]),
        serde_json::Value::from(12345),
        serde_json::Value::Null,
    ] {
        let escaped = escape_for_script_element(&serde_json::to_string(&value).unwrap());
        assert!(!escaped.contains('<') && !escaped.contains('>') && !escaped.contains('&'));
        let round_tripped: serde_json::Value = serde_json::from_str(&escaped).unwrap();
        assert_eq!(round_tripped, value);
        assert_eq!(json_helper(Some(&value)).unwrap(), escaped);
    }
}

#[test]
fn status_label_covers_every_real_status_and_marks_terminal_correctly() {
    assert_eq!(
        status_label("pending"),
        ("Waiting for payment".to_string(), "status-pending", false)
    );
    assert_eq!(
        status_label("confirming"),
        ("Confirming".to_string(), "status-confirming", false)
    );
    assert_eq!(status_label("paid"), ("Paid".to_string(), "status-paid", true));
    assert_eq!(status_label("expired"), ("Expired".to_string(), "status-expired", true));
}

#[test]
fn the_other_statuses_have_labels_too() {
    assert_eq!(
        status_label("unconfirmed"),
        ("Payment seen, unconfirmed".to_string(), "status-unconfirmed", false)
    );
    assert_eq!(
        status_label("partial"),
        ("Partial payment received".to_string(), "status-partial", false)
    );
    assert_eq!(status_label("overpaid"), ("Overpaid".to_string(), "status-paid", true));
    assert_eq!(status_label("Paid"), ("Paid".to_string(), "status-unknown", true));
    assert_eq!(status_label(""), ("".to_string(), "status-unknown", true));
}

#[test]
fn unsafe_characters_are_written_as_escapes() {
    assert_eq!(
        escape_for_script_element("\"<>&\u{2028}\u{2029}é\""),
        "\"\\u003c\\u003e\\u0026\\u2028\\u2029é\""
    );
    assert_eq!(escape_for_script_element(""), "");
}

#[test]
fn escaping_goes_piece_by_piece() {
    let (a, b) = ("\"a <", "& b\"");
    assert_eq!(
        escape_for_script_element(&format!("{a}{b}")),
        format!("{}{}", escape_for_script_element(a), escape_for_script_element(b))
    );
}

#[test]
fn escaping_twice_is_escaping_once() {
    let once = escape_for_script_element("\"a < b\"");
    assert_eq!(escape_for_script_element(&once), once);
    assert_eq!(escape_for_script_element("{\"a\":[1,true]}"), "{\"a\":[1,true]}");
}

#[test]
fn the_json_helper_needs_a_parameter() {
    assert!(matches!(json_helper(None), Err(JsonHelperError::MissingParameter)));
    let rendered = engine_for("{{{json}}}").render_checkout(&sample_view_model());
    match rendered {
        Err(TemplateError::Render(_)) => {}
        other => panic!("{other:?}"),
    }
}

#[test]
fn every_field_of_the_page_reaches_the_template() {
    let mut model = sample_view_model();
    model.double_spend_detected_at = Some(-7);
    model.merchant_order_id = Some("m-1".to_string());
    model.description = Some("a hat".to_string());
    model.payments = vec![
        PaymentViewModel {
            txid_short: "aaaa".to_string(),
            amount_xmr: "0.100000000000".to_string(),
            confirmations: 3,
            is_zero_conf: false,
        },
        PaymentViewModel {
            txid_short: "bbbb".to_string(),
            amount_xmr: "0.200000000000".to_string(),
            confirmations: 0,
            is_zero_conf: true,
        },
    ];
    let source = "{{payment_id}}|{{status}}|{{status_label}}|{{status_class}}|{{address}}|\
        {{{qr_code_svg}}}|{{xmr_amount}}|{{amount_received_xmr}}|{{fiat_amount}}|\
        {{fiat_currency}}|{{confirmations}}|{{confirmations_required}}|{{is_terminal}}|\
        {{double_spend_detected_at}}|{{expires_at}}|{{merchant_order_id}}|{{description}}\
        {{#each payments}}|{{txid_short}}/{{amount_xmr}}/{{confirmations}}/{{is_zero_conf}}{{/each}}";
    assert_eq!(
        page(source, &model),
        "pay_test123|pending|Waiting for payment|status-pending|5abcexampleaddress|\
         <svg></svg>|0.500000000000|0.000000000000|25.00|USD|0|10|false|-7|9999999999|m-1|a hat\
         |aaaa/0.100000000000/3/false|bbbb/0.200000000000/0/true"
    );
}

#[test]
fn the_page_as_json_holds_the_fields() {
    let mut model = sample_view_model();
    model.payments = vec![PaymentViewModel {
        txid_short: "<t>".to_string(),
        amount_xmr: "1.000000000000".to_string(),
        confirmations: u64::MAX,
        is_zero_conf: true,
    }];
    assert_eq!(
        page("{{{json payments}}}{{{json description}}}{{{json expires_at}}}", &model),
        "[{\"amount_xmr\":\"1.000000000000\",\"confirmations\":18446744073709551615,\
         \"is_zero_conf\":true,\"txid_short\":\"\\u003ct\\u003e\"}]null9999999999"
    );
}

#[test]
fn ordinary_values_are_escaped_for_html() {
    let mut model = sample_view_model();
    model.description = Some("<b>&".to_string());
    assert_eq!(page("{{description}}", &model), "&lt;b&gt;&amp;");
}

#[test]
fn a_template_that_names_an_unknown_value_fails() {
    let error = engine_for("{{no_such_field}}").render_checkout(&sample_view_model()).unwrap_err();
    assert!(matches!(error, TemplateError::Render(_)));
    assert!(error.message().starts_with("failed to render template: "));
    assert!(error.message().contains("no_such_field"));
}

#[test]
fn a_malformed_template_is_refused() {
    let error = match TemplateEngine::new(CustomTemplate::Found("{{#if}}".to_string())) {
        Ok(_) => panic!("a block without an end was accepted"),
        Err(e) => e,
    };
    assert!(matches!(error, TemplateError::Register(_)));
    assert!(error.message().starts_with("failed to register template: "));
    assert!(error.message().len() > "failed to register template: ".len());
}

#[test]
fn an_unreadable_template_is_an_error_and_no_fallback() {
    let error = match TemplateEngine::new(CustomTemplate::Unreadable {
        path: "/srv/t/checkout.html.hbs".to_string(),
        reason: "permission denied".to_string(),
    }) {
        Ok(_) => panic!("an unreadable template was accepted"),
        Err(e) => e,
    };
    assert!(matches!(error, TemplateError::Read { .. }));
    assert_eq!(
        error.message(),
        "failed to read template file /srv/t/checkout.html.hbs: permission denied"
    );
}

#[test]
fn script_literals_escape_control_characters_and_read_back() {
    let text = "a\"\\/\u{8}\t\n\u{c}\r\u{1}\u{1f}\u{7f}<é";
    let value = serde_json::Value::from(text);
    let literal = json_helper(Some(&value)).unwrap();
    assert_eq!(
        literal,
        "\"a\\\"\\\\/\\b\\t\\n\\f\\r\\u0001\\u001f\u{7f}\\u003cé\""
    );
    let read: serde_json::Value = serde_json::from_str(&literal).unwrap();
    assert_eq!(read.as_str(), Some(text));
}

#[test]
fn the_built_in_template_is_sure_to_end() {
    assert!(!DEFAULT_CHECKOUT_TEMPLATE.contains("{{>"));
    assert!(is_sure_to_end(CHECKOUT_TEMPLATE, DEFAULT_CHECKOUT_TEMPLATE));
    assert!(can_be_rendered(&CustomTemplate::NotConfigured));
    assert!(can_be_rendered(&CustomTemplate::Missing));
}

#[test]
fn templates_that_could_go_on_including_are_told_apart() {
    for endless in [
        "{{#if payment_id}}{{> checkout}}{{/if}}",
        "{{#if payment_id}}x{{/if}}{{> checkout}}",
        "{{{{raw}}}}x{{{{/raw}}}}{{> checkout}}",
        "{{#if payment_id}}{{~ # > checkout }}x{{/checkout}}{{/if}}",
        "{{#*inline \"a\"}}{{> checkout}}{{/inline}}{{> a}}",
        "{{> (lookup this 'status')}}",
        "{{#*inline \"a\"}}{{> a}}{{/inline}}{{> a}}",
        "{{#*inline \"a\"}}{{> a}}{{/}}{{> a}}",
        "{{#*inline 'a'}}{{> b}}{{/inline}}{{#*inline \"b\"}}{{~>a}}{{/inline}}{{> a}}",
        "{{#*inline \"a\"}}{{#if status}}{{~> a}}{{/if}}{{~ / inline }}{{> a}}",
        "{{#*inline \"a\"}}{{!-- {{/inline}} --}}{{> a}}{{/inline}}{{> a}}",
        "{{#*inline \"a\"}}{{!{{/inline}}{{> a}}{{/inline}}{{> a}}",
        "{{#*inline \"a\"}}{{lookup this \"{{/inline}}\"}}{{> a}}{{/inline}}{{> a}}",
        "{{#*inline \"a\"}}\\\\{{> a}}{{/inline}}{{> a}}",
        "{{#*inline status}}{{> b}}{{/inline}}{{> b}}",
        "{{#*inline \"\\u0061\"}}{{> a}}{{/inline}}{{> a}}",
        "{{#*inline \"$a\"}}{{> $a}}{{/inline}}{{> $a}}",
        "{{#*inline \"a\"}}{{#> b}}{{> a}}{{/b}}{{/inline}}{{> a}}",
        "{{#*inline \"a\"}}{{#*inline \"b\"}}{{> a}}{{/inline}}{{> b}}{{/inline}}{{> a}}",
    ] {
        assert!(!is_sure_to_end(CHECKOUT_TEMPLATE, endless), "{endless}");
        assert!(!can_be_rendered(&CustomTemplate::Found(endless.to_string())), "{endless}");
    }
}

#[test]
fn templates_that_end_may_include_partials() {
    let mut model = sample_view_model();
    model.status = "s".to_string();
    for (source, expected) in [
        ("", ""),
        ("{{#*inline \"a\"}}x{{/inline}}{{> a}}{{#*inline \"b\"}}y{{/inline}}{{> b}}", "xy"),
        (
            "{{#*inline \"row\"}}r{{/inline}}{{#*inline \"table\"}}<{{> row}}>{{/inline}}\
             {{> table}}{{#if status}}{{> table}}{{/if}}",
            "<r><r>",
        ),
        (
            "{{#*inline \"layout\"}}<{{> title}}>{{/inline}}\
             {{#> layout}}{{#*inline \"title\"}}t{{/inline}}{{/layout}}",
            "<t>",
        ),
        ("{{#*inline \"l\"}}[{{> @partial-block}}]{{/}}{{#> l}}x{{/}}", "[x]"),
        ("{{#> none}}fallback{{/none}}", "fallback"),
        ("{{!-- {{> checkout}} --}}ok", "ok"),
        ("{{! {{> checkout}}ok", "ok"),
        ("\\{{> checkout}}", "{{> checkout}}"),
        ("{{{{raw}}}}{{> checkout}}{{{{/raw}}}}", "{{> checkout}}"),
        ("{{#if \"{{> checkout}}\"}}y{{/if}}", "y"),
        ("{{#*inline \"a\"}}{{> a}}{{/inline}}x", "x"),
        ("{{#*inline \"a\"}}\\{{> a}}{{/inline}}{{> a}}", "{{> a}}"),
        (
            "{{#*inline \"a\"}}{{#*inline \"b\"}}B{{/inline}}{{> b}}{{/inline}}{{> a}}",
            "B",
        ),
        ("{{#*inline \"a\"}}{{{k}}}{{/inline}}{{> a k={\"j\":{}}}}", "[object]"),
        ("{{#*inline \"a\"}}{{status}}{{/inline}}{{> a status=[\"x\"]}}", "[x]"),
    ] {
        assert!(is_sure_to_end(CHECKOUT_TEMPLATE, source), "{source}");
        assert_eq!(page(source, &model), expected, "{source}");
    }
}

#[test]
fn inclusions_that_are_refused_come_to_an_end() {
    for source in [
        "{{> checkout}}",
        "{{#*inline \"a\"}}x{{/inline}}{{> a}}{{> checkout}}",
        "{{> checkout_row}}",
        "{{> 'checkout'}}",
        "{{> [checkout]}}",
        "{{#*inline \"a\"}}x{{/inline}}{{> 'a'}}",
        "{{#*inline \"a\"}}{{> @partial-block}}{{/inline}}{{> a}}",
    ] {
        let rendered = engine_for(source).render_checkout(&sample_view_model());
        assert!(matches!(rendered, Err(TemplateError::Render(_))), "{source}: {rendered:?}");
    }
}
