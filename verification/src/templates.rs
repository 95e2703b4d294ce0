//! The payment page's templates.
//!
//! A merchant may supply a template of their own; without one the page falls back to a
//! built-in template, so that a deployment which never touches templates still has a
//! working checkout.

use handlebars::{
    Context, Handlebars, Helper, HelperResult, Output, RenderContext, RenderErrorReason,
};
use handlebars::TemplateError as SyntaxError;
use vstd::prelude::*;

use crate::inclusion;
use crate::json;
use crate::script_text;
use crate::script_text::escape_for_script_element;
use crate::text;

verus! {

/// The name that the checkout template is registered under.
pub const CHECKOUT_TEMPLATE: &'static str = "checkout";

/// The file of a merchant's own checkout template, in their template directory.
pub const CHECKOUT_TEMPLATE_FILE: &'static str = "checkout.html.hbs";

/// The helper that writes a value as a JavaScript literal: `{{{json value}}}`.
pub const JSON_HELPER: &'static str = "json";

/// The template of a merchant who supplies none.
pub const DEFAULT_CHECKOUT_TEMPLATE: &'static str = "<!DOCTYPE html>
<html lang=\"en\">
<head>
<meta charset=\"utf-8\">
<meta name=\"viewport\" content=\"width=device-width, initial-scale=1\">
<title>Payment {{payment_id}}</title>
</head>
<body>
<main>
<h1>{{fiat_amount}} {{fiat_currency}}</h1>
<p id=\"status\" class=\"{{status_class}}\" data-status=\"{{status}}\">{{status_label}}</p>
{{#if double_spend_detected_at}}
<p id=\"double-spend-banner\">A conflicting transaction was seen for this payment. Please contact the merchant.</p>
{{/if}}
<div id=\"qr-code\">{{{qr_code_svg}}}</div>
<p>Send <strong id=\"amount\">{{xmr_amount}}</strong> XMR to</p>
<p><code id=\"address\">{{address}}</code></p>
<p>Received: {{amount_received_xmr}} XMR</p>
<p>Confirmations: {{confirmations}} of {{confirmations_required}}</p>
{{#if merchant_order_id}}
<p>Order: {{merchant_order_id}}</p>
{{/if}}
{{#if description}}
<p>{{description}}</p>
{{/if}}
{{#if payments}}
<table id=\"payments\">
<tr><th>Transaction</th><th>Amount</th><th>Confirmations</th></tr>
{{#each payments}}
<tr><td>{{txid_short}}</td><td>{{amount_xmr}}</td><td>{{#if is_zero_conf}}unconfirmed{{else}}{{confirmations}}{{/if}}</td></tr>
{{/each}}
</table>
{{/if}}
</main>
<script>
var payment = {
  id: {{{json payment_id}}},
  status: {{{json status}}},
  expiresAt: {{{json expires_at}}},
  terminal: {{{json is_terminal}}}
};
if (!payment.terminal) {
  setTimeout(function () { location.reload(); }, 15000);
}
</script>
</body>
</html>
";

/// One payment of the page's breakdown. An order can have more than one.
#[derive(Debug)]
pub struct PaymentViewModel {
    pub txid_short: String,
    pub amount_xmr: String,
    pub confirmations: u64,
    pub is_zero_conf: bool,
}

/// What the checkout page shows.
#[derive(Debug)]
pub struct CheckoutViewModel {
    pub payment_id: String,
    pub status: String,
    pub status_label: String,
    pub status_class: String,
    pub address: String,
    pub qr_code_svg: String,
    pub xmr_amount: String,
    pub amount_received_xmr: String,
    pub fiat_amount: String,
    pub fiat_currency: String,
    pub confirmations: u64,
    pub confirmations_required: u64,
    pub is_terminal: bool,
    pub double_spend_detected_at: Option<i64>,
    pub expires_at: i64,
    pub merchant_order_id: Option<String>,
    pub description: Option<String>,
    pub payments: Vec<PaymentViewModel>,
}

/// The fields that a template sees of a payment.
pub open spec fn payment_fields(p: PaymentViewModel) -> Seq<(Seq<char>, Seq<char>)> {
    seq![
        ("txid_short"@, json::quoted(p.txid_short@)),
        ("amount_xmr"@, json::quoted(p.amount_xmr@)),
        ("confirmations"@, json::integer_text(p.confirmations as int)),
        ("is_zero_conf"@, json::flag_text(p.is_zero_conf)),
    ]
}

/// What a template sees of the payments, as JSON.
pub open spec fn payments_text(payments: Seq<PaymentViewModel>) -> Seq<char> {
    json::list_text(
        payments.map_values(|p: PaymentViewModel| json::object_text(payment_fields(p))),
    )
}

/// The fields that the checkout template sees.
pub open spec fn checkout_fields(view: CheckoutViewModel) -> Seq<(Seq<char>, Seq<char>)> {
    seq![
        ("payment_id"@, json::quoted(view.payment_id@)),
        ("status"@, json::quoted(view.status@)),
        ("status_label"@, json::quoted(view.status_label@)),
        ("status_class"@, json::quoted(view.status_class@)),
        ("address"@, json::quoted(view.address@)),
        ("qr_code_svg"@, json::quoted(view.qr_code_svg@)),
        ("xmr_amount"@, json::quoted(view.xmr_amount@)),
        ("amount_received_xmr"@, json::quoted(view.amount_received_xmr@)),
        ("fiat_amount"@, json::quoted(view.fiat_amount@)),
        ("fiat_currency"@, json::quoted(view.fiat_currency@)),
        ("confirmations"@, json::integer_text(view.confirmations as int)),
        ("confirmations_required"@, json::integer_text(view.confirmations_required as int)),
        ("is_terminal"@, json::flag_text(view.is_terminal)),
        ("double_spend_detected_at"@, json::optional_integer_text(view.double_spend_detected_at)),
        ("expires_at"@, json::integer_text(view.expires_at as int)),
        ("merchant_order_id"@, json::optional_string_text(view.merchant_order_id)),
        ("description"@, json::optional_string_text(view.description)),
        ("payments"@, payments_text(view.payments@)),
    ]
}

/// A payment as a JSON object.
fn payment_value(p: &PaymentViewModel) -> (r: serde_json::Value)
    ensures
        json::json_text(r) == json::object_text(payment_fields(*p)),
{
    let mut fields: Vec<(String, serde_json::Value)> = Vec::new();
    assert(json::field_texts(fields@) =~= Seq::empty());
    json::push_field(&mut fields, "txid_short", json::json_string(p.txid_short.as_str()));
    json::push_field(&mut fields, "amount_xmr", json::json_string(p.amount_xmr.as_str()));
    json::push_field(&mut fields, "confirmations", json::json_unsigned(p.confirmations));
    json::push_field(&mut fields, "is_zero_conf", json::json_flag(p.is_zero_conf));
    assert(json::field_texts(fields@) =~= payment_fields(*p));
    json::json_object(fields)
}

/// The payments as a JSON array.
fn payments_value(payments: &Vec<PaymentViewModel>) -> (r: serde_json::Value)
    ensures
        json::json_text(r) == payments_text(payments@),
{
    let mut values: Vec<serde_json::Value> = Vec::new();
    let mut i: usize = 0;
    while i < payments.len()
        invariant
            i <= payments@.len(),
            values@.len() == i,
            forall|j: int|
                0 <= j < i ==> json::json_text(#[trigger] values@[j]) == json::object_text(
                    payment_fields(payments@[j]),
                ),
        decreases payments@.len() - i,
    {
        values.push(payment_value(&payments[i]));
        i = i + 1;
    }
    assert(json::texts(values@) =~= payments@.map_values(
        |p: PaymentViewModel| json::object_text(payment_fields(p)),
    ));
    json::json_list(values)
}

/// The page's data as a JSON object.
fn checkout_value(view: &CheckoutViewModel) -> (r: serde_json::Value)
    ensures
        json::json_text(r) == json::object_text(checkout_fields(*view)),
{
    let mut fields: Vec<(String, serde_json::Value)> = Vec::new();
    assert(json::field_texts(fields@) =~= Seq::empty());
    json::push_field(&mut fields, "payment_id", json::json_string(view.payment_id.as_str()));
    json::push_field(&mut fields, "status", json::json_string(view.status.as_str()));
    json::push_field(&mut fields, "status_label", json::json_string(view.status_label.as_str()));
    json::push_field(&mut fields, "status_class", json::json_string(view.status_class.as_str()));
    json::push_field(&mut fields, "address", json::json_string(view.address.as_str()));
    json::push_field(&mut fields, "qr_code_svg", json::json_string(view.qr_code_svg.as_str()));
    json::push_field(&mut fields, "xmr_amount", json::json_string(view.xmr_amount.as_str()));
    json::push_field(
        &mut fields,
        "amount_received_xmr",
        json::json_string(view.amount_received_xmr.as_str()),
    );
    json::push_field(&mut fields, "fiat_amount", json::json_string(view.fiat_amount.as_str()));
    json::push_field(&mut fields, "fiat_currency", json::json_string(view.fiat_currency.as_str()));
    json::push_field(&mut fields, "confirmations", json::json_unsigned(view.confirmations));
    json::push_field(
        &mut fields,
        "confirmations_required",
        json::json_unsigned(view.confirmations_required),
    );
    json::push_field(&mut fields, "is_terminal", json::json_flag(view.is_terminal));
    json::push_field(
        &mut fields,
        "double_spend_detected_at",
        json::json_optional_signed(view.double_spend_detected_at),
    );
    json::push_field(&mut fields, "expires_at", json::json_signed(view.expires_at));
    json::push_field(
        &mut fields,
        "merchant_order_id",
        json::json_optional_string(&view.merchant_order_id),
    );
    json::push_field(&mut fields, "description", json::json_optional_string(&view.description));
    json::push_field(&mut fields, "payments", payments_value(&view.payments));
    assert(json::field_texts(fields@) =~= checkout_fields(*view));
    json::json_object(fields)
}

/// The template registry of `handlebars`.
#[verifier::external_type_specification]
#[verifier::external_body]
pub struct ExHandlebars<'reg>(Handlebars<'reg>);

/// A syntax error in a template, of `handlebars`.
#[verifier::external_type_specification]
#[verifier::external_body]
pub struct ExSyntaxError(SyntaxError);

/// A failure to render a template, of `handlebars`.
#[verifier::external_type_specification]
#[verifier::external_body]
pub struct ExRenderError(handlebars::RenderError);

/// The sources of the templates that a registry holds, by name.
pub uninterp spec fn registered_templates(registry: Handlebars<'static>) -> Map<
    Seq<char>,
    Seq<char>,
>;

/// Whether a registry refuses to render a value that is not there.
pub uninterp spec fn is_strict(registry: Handlebars<'static>) -> bool;

/// The names that a registry holds [`json_helper`] under.
pub uninterp spec fn script_helpers(registry: Handlebars<'static>) -> Set<Seq<char>>;

/// Whether a registry is, templates, strictness and [`json_helper`] aside, as
/// `Handlebars::new` makes it.
pub uninterp spec fn is_stock(registry: Handlebars<'static>) -> bool;

/// What the `Display` of a template's syntax error says.
pub uninterp spec fn template_error_text(error: SyntaxError) -> Seq<char>;

/// What the `Display` of a failure to render says.
pub uninterp spec fn render_error_text(error: handlebars::RenderError) -> Seq<char>;

/// Whether a template of this name and source is well formed.
pub uninterp spec fn is_well_formed(name: Seq<char>, source: Seq<char>) -> bool;

/// The page that a registry with these templates, this strictness and these names of
/// [`json_helper`] makes of the template `name` and a JSON value with the text `data`;
/// `None` when it cannot be made.
pub uninterp spec fn rendered(
    templates: Map<Seq<char>, Seq<char>>,
    strict: bool,
    helpers: Set<Seq<char>>,
    name: Seq<char>,
    data: Seq<char>,
) -> Option<Seq<char>>;

/// `Handlebars::new`: a registry without templates, not strict, with the helpers that come
/// with it and no other.
#[verifier::external_body]
fn new_registry() -> (r: Handlebars<'static>)
    ensures
        registered_templates(r).dom() == Set::<Seq<char>>::empty(),
        !is_strict(r),
        script_helpers(r) == Set::<Seq<char>>::empty(),
        is_stock(r),
{
    Handlebars::new()
}

/// `Handlebars::set_strict_mode`: sets the strictness and nothing else.
#[verifier::external_body]
fn set_strict(registry: &mut Handlebars<'static>, strict: bool)
    ensures
        is_strict(*final(registry)) == strict,
        registered_templates(*final(registry)) == registered_templates(*old(registry)),
        script_helpers(*final(registry)) == script_helpers(*old(registry)),
        is_stock(*final(registry)) == is_stock(*old(registry)),
{
    registry.set_strict_mode(strict);
}

/// `Handlebars::register_helper` with a helper that hands its first parameter to
/// [`json_helper`] and writes what comes back: the registry holds it under `name`, and is
/// otherwise unchanged. The name must not be that of a helper that comes with `handlebars`,
/// which it would replace.
#[verifier::external_body]
fn register_script_helper(registry: &mut Handlebars<'static>, name: &'static str)
    requires
        name@ == JSON_HELPER@,
    ensures
        script_helpers(*final(registry)) == script_helpers(*old(registry)).insert(name@),
        registered_templates(*final(registry)) == registered_templates(*old(registry)),
        is_strict(*final(registry)) == is_strict(*old(registry)),
        is_stock(*final(registry)) == is_stock(*old(registry)),
{
    registry.register_helper(name, Box::new(
        move |h: &Helper, _: &Handlebars, _: &Context, _: &mut RenderContext, out: &mut dyn Output| -> HelperResult {
            let literal = json_helper(h.param(0).map(|p| p.value())).map_err(|e| match e {
                JsonHelperError::MissingParameter => RenderErrorReason::ParamNotFoundForIndex(name, 0),
                JsonHelperError::Serialize(e) => RenderErrorReason::NestedError(Box::new(e)),
            })?;
            out.write(&literal)?;
            Ok(())
        },
    ));
}

/// `Handlebars::register_template_string`: a well-formed template is held under its name,
/// in place of an earlier one; another is refused, and the registry is unchanged. Which
/// words it is refused with is left open: where they show the named arguments of a tag, their
/// order is that of a hash map. The parser needs stack in proportion to how deep the source
/// nests: with less than 64 KiB of it left, it refuses a well-formed source too, which is left
/// aside here.
#[verifier::external_body]
fn register_template(registry: &mut Handlebars<'static>, name: &str, source: &str) -> (r: Result<
    (),
    SyntaxError,
>)
    requires
        is_stock(*old(registry)),
    ensures
        match r {
            Ok(_) => is_well_formed(name@, source@) && registered_templates(*final(registry))
                == registered_templates(*old(registry)).insert(name@, source@),
            Err(_) => !is_well_formed(name@, source@) && registered_templates(*final(registry))
                == registered_templates(*old(registry)),
        },
        is_strict(*final(registry)) == is_strict(*old(registry)),
        script_helpers(*final(registry)) == script_helpers(*old(registry)),
        is_stock(*final(registry)) == is_stock(*old(registry)),
{
    registry.register_template_string(name, source)
}

/// The checkout template with this source comes to an end when it is rendered. The built-in
/// template includes nothing; of another, its inclusions tell.
pub open spec fn comes_to_an_end(source: Seq<char>) -> bool {
    source == DEFAULT_CHECKOUT_TEMPLATE@ || inclusion::sure_to_end(CHECKOUT_TEMPLATE@, source)
}

/// `Handlebars::render` on JSON data, of the one template that the registry holds: whether a
/// page can be made, and which, is settled by what the registry holds, the name and the data.
/// Which failure is told of is left open where several named arguments of a tag fail: they
/// are tried in the order of a hash map. `handlebars` stops a template that includes itself
/// only at its top level, and does not stop inline partials that include one another in a
/// circle, so a source that could go on including is left out. Rendering needs stack in
/// proportion to how deep the source nests.
#[verifier::external_body]
fn render(registry: &Handlebars<'static>, name: &str, data: &serde_json::Value) -> (r: Result<
    String,
    handlebars::RenderError,
>)
    requires
        is_stock(*registry),
        name@ == CHECKOUT_TEMPLATE@,
        registered_templates(*registry).dom() == Set::<Seq<char>>::empty().insert(name@),
        comes_to_an_end(registered_templates(*registry)[name@]),
    ensures
        match r {
            Ok(page) => rendered(
                registered_templates(*registry),
                is_strict(*registry),
                script_helpers(*registry),
                name@,
                json::json_text(*data),
            ) == Some(page@),
            Err(_) => rendered(
                registered_templates(*registry),
                is_strict(*registry),
                script_helpers(*registry),
                name@,
                json::json_text(*data),
            ) is None,
        },
{
    registry.render(name, data)
}

/// The `Display` of the `TemplateError` of `handlebars`.
#[verifier::external_body]
fn template_error_words(error: &SyntaxError) -> (r: String)
    ensures
        r@ == template_error_text(*error),
{
    error.to_string()
}

/// The `Display` of `handlebars::RenderError`.
#[verifier::external_body]
fn render_error_words(error: &handlebars::RenderError) -> (r: String)
    ensures
        r@ == render_error_text(*error),
{
    error.to_string()
}

/// Why [`json_helper`] gave nothing.
#[derive(Debug)]
pub enum JsonHelperError {
    MissingParameter,
    Serialize(serde_json::Error),
}

/// Writes a template value as a JavaScript literal that is safe between `<script>` tags.
///
/// Both a customer's description and a merchant's order number reach the page next to the
/// address that is to be paid; unescaped, either could rewrite it.
pub fn json_helper(param: Option<&serde_json::Value>) -> (r: Result<String, JsonHelperError>)
    ensures
        match param {
            Some(value) => r matches Ok(literal) && literal@ == script_text::escaped(
                json::json_text(*value),
            ) && script_text::read_json(literal@, false) == script_text::read_json(
                json::json_text(*value),
                false,
            ) && (forall|i: int|
                0 <= i < literal@.len() ==> !script_text::is_unsafe(#[trigger] literal@[i])),
            None => r == Err::<String, JsonHelperError>(JsonHelperError::MissingParameter),
        },
{
    let value: &serde_json::Value = match param {
        Some(value) => value,
        None => {
            return Err(JsonHelperError::MissingParameter);
        },
    };
    match json::json_to_string(value) {
        Ok(json) => {
            proof {
                script_text::escaped_text_reads_the_same(json@, false);
                script_text::escaped_text_is_safe(json@);
            }
            Ok(escape_for_script_element(json.as_str()))
        },
        Err(e) => Err(JsonHelperError::Serialize(e)),
    }
}

/// Why a page could not be made.
#[derive(Debug)]
pub enum TemplateError {
    /// A template file could not be read.
    Read { path: String, reason: String },
    /// A template is not well formed.
    Register(SyntaxError),
    /// A template could not be rendered.
    Render(handlebars::RenderError),
}

/// The words for a [`TemplateError`].
pub open spec fn template_failure_text(e: TemplateError) -> Seq<char> {
    match e {
        TemplateError::Read { path, reason } => "failed to read template file "@ + path@ + ": "@
            + reason@,
        TemplateError::Register(e) => "failed to register template: "@ + template_error_text(e),
        TemplateError::Render(e) => "failed to render template: "@ + render_error_text(e),
    }
}

impl TemplateError {
    /// What is logged.
    pub fn message(&self) -> (r: String)
        ensures
            r@ == template_failure_text(*self),
            *self matches TemplateError::Read { path, reason } ==> r@
                == "failed to read template file "@ + path@ + ": "@ + reason@,
            *self matches TemplateError::Register(e) ==> r@ == "failed to register template: "@
                + template_error_text(e),
            *self matches TemplateError::Render(e) ==> r@ == "failed to render template: "@
                + render_error_text(e),
    {
        match self {
            TemplateError::Read { path, reason } => {
                let mut out = text::join("failed to read template file ", path.as_str());
                out.append(": ");
                out.append(reason.as_str());
                out
            },
            TemplateError::Register(e) => text::join(
                "failed to register template: ",
                template_error_words(e).as_str(),
            ),
            TemplateError::Render(e) => text::join(
                "failed to render template: ",
                render_error_words(e).as_str(),
            ),
        }
    }
}

/// What was found where a merchant's own template would stand.
#[derive(Debug)]
pub enum CustomTemplate {
    /// The merchant has no directory of templates.
    NotConfigured,
    /// The directory holds no template of the name [`CHECKOUT_TEMPLATE_FILE`].
    Missing,
    /// The template.
    Found(String),
    /// The template is there and cannot be read.
    Unreadable { path: String, reason: String },
}

/// The template that a page is made from: the merchant's own, or the built-in one where
/// the merchant has none.
pub open spec fn chosen_source(custom: CustomTemplate) -> Seq<char> {
    match custom {
        CustomTemplate::Found(source) => source@,
        _ => DEFAULT_CHECKOUT_TEMPLATE@,
    }
}

/// A merchant's own template is not sure to come to an end.
pub open spec fn may_not_end(custom: CustomTemplate) -> bool {
    custom matches CustomTemplate::Found(source) && !inclusion::sure_to_end(
        CHECKOUT_TEMPLATE@,
        source@,
    )
}

/// Whether the checkout page can be rendered with this template, if it is well formed: the
/// built-in one can, and a merchant's own when it is sure to come to an end.
pub fn can_be_rendered(custom: &CustomTemplate) -> (r: bool)
    ensures
        r == !may_not_end(*custom),
        r ==> comes_to_an_end(chosen_source(*custom)),
        *custom !is Found ==> r,
        *custom matches CustomTemplate::Found(source) ==> r == inclusion::sure_to_end(
            "checkout"@,
            source@,
        ),
{
    match custom {
        CustomTemplate::Found(source) => inclusion::is_sure_to_end(
            CHECKOUT_TEMPLATE,
            source.as_str(),
        ),
        _ => true,
    }
}

/// What the checkout page made from `source` shows of `view`; `None` when it cannot be made.
/// A template that names a value which `view` does not have makes no page, not one with a gap.
pub open spec fn checkout_page(source: Seq<char>, view: CheckoutViewModel) -> Option<Seq<char>> {
    rendered(
        Map::empty().insert(CHECKOUT_TEMPLATE@, source),
        true,
        Set::empty().insert(JSON_HELPER@),
        CHECKOUT_TEMPLATE@,
        json::object_text(checkout_fields(view)),
    )
}

/// Makes checkout pages from one template.
pub struct TemplateEngine {
    handlebars: Handlebars<'static>,
}

impl TemplateEngine {
    #[verifier::type_invariant]
    spec fn is_ready(self) -> bool {
        &&& registered_templates(self.handlebars).dom() == Set::<Seq<char>>::empty().insert(
            CHECKOUT_TEMPLATE@,
        )
        &&& is_strict(self.handlebars)
        &&& script_helpers(self.handlebars) == Set::<Seq<char>>::empty().insert(JSON_HELPER@)
        &&& is_stock(self.handlebars)
    }

    /// The source of the checkout template.
    pub closed spec fn source(&self) -> Seq<char> {
        registered_templates(self.handlebars)[CHECKOUT_TEMPLATE@]
    }

    /// An engine for the merchant's own template, or for the built-in one where the merchant
    /// has none. A template that is there and cannot be used is an error: the merchant's
    /// customers are not shown another page in silence.
    pub fn new(custom: CustomTemplate) -> (r: Result<Self, TemplateError>)
        ensures
            match custom {
                CustomTemplate::Unreadable { path, reason } => r == Err::<Self, TemplateError>(
                    TemplateError::Read { path, reason },
                ),
                _ => if is_well_formed(CHECKOUT_TEMPLATE@, chosen_source(custom)) {
                    r matches Ok(engine) && engine.source() == chosen_source(custom)
                } else {
                    r matches Err(TemplateError::Register(_))
                },
            },
            custom matches CustomTemplate::Found(source) ==> if is_well_formed(
                "checkout"@,
                source@,
            ) {
                r matches Ok(engine) && engine.source() == source@
            } else {
                r is Err
            },
            custom is Missing || custom is NotConfigured ==> if is_well_formed(
                "checkout"@,
                DEFAULT_CHECKOUT_TEMPLATE@,
            ) {
                r matches Ok(engine) && engine.source() == DEFAULT_CHECKOUT_TEMPLATE@
            } else {
                r is Err
            },
    {
        let mut handlebars = new_registry();
        set_strict(&mut handlebars, true);
        register_script_helper(&mut handlebars, JSON_HELPER);
        let source: String = match custom {
            CustomTemplate::Found(source) => source,
            CustomTemplate::Missing => DEFAULT_CHECKOUT_TEMPLATE.to_string(),
            CustomTemplate::NotConfigured => DEFAULT_CHECKOUT_TEMPLATE.to_string(),
            CustomTemplate::Unreadable { path, reason } => {
                return Err(TemplateError::Read { path, reason });
            },
        };
        match register_template(&mut handlebars, CHECKOUT_TEMPLATE, source.as_str()) {
            Ok(_) => Ok(TemplateEngine { handlebars }),
            Err(e) => Err(TemplateError::Register(e)),
        }
    }

    /// The checkout page for `data`. The template must come to an end, which
    /// [`can_be_rendered`] tells of it.
    pub fn render_checkout(&self, data: &CheckoutViewModel) -> (r: Result<String, TemplateError>)
        requires
            comes_to_an_end(self.source()),
        ensures
            match checkout_page(self.source(), *data) {
                Some(page) => r matches Ok(html) && html@ == page,
                None => r matches Err(TemplateError::Render(_)),
            },
    {
        proof {
            use_type_invariant(self);
            assert(registered_templates(self.handlebars) =~= Map::empty().insert(
                CHECKOUT_TEMPLATE@,
                self.source(),
            ));
        }
        let value: serde_json::Value = checkout_value(data);
        match render(&self.handlebars, CHECKOUT_TEMPLATE, &value) {
            Ok(html) => Ok(html),
            Err(e) => Err(TemplateError::Render(e)),
        }
    }
}

/// How the page words a status, how it styles it, and whether the order is settled: a page
/// that shows a settled order stops asking for news.
pub open spec fn status_words(status: Seq<char>) -> (Seq<char>, Seq<char>, bool) {
    if status == "pending"@ {
        ("Waiting for payment"@, "status-pending"@, false)
    } else if status == "unconfirmed"@ {
        ("Payment seen, unconfirmed"@, "status-unconfirmed"@, false)
    } else if status == "confirming"@ {
        ("Confirming"@, "status-confirming"@, false)
    } else if status == "partial"@ {
        ("Partial payment received"@, "status-partial"@, false)
    } else if status == "paid"@ {
        ("Paid"@, "status-paid"@, true)
    } else if status == "overpaid"@ {
        ("Overpaid"@, "status-paid"@, true)
    } else if status == "expired"@ {
        ("Expired"@, "status-expired"@, true)
    } else {
        (status, "status-unknown"@, true)
    }
}

/// The label, the style class and the terminal mark of a status.
pub fn status_label(status: &str) -> (r: (String, &'static str, bool))
    ensures
        (r.0@, r.1@, r.2) == status_words(status@),
        status@ == "pending"@ ==> r.0@ == "Waiting for payment"@ && r.1@ == "status-pending"@
            && !r.2,
        status@ == "unconfirmed"@ ==> r.0@ == "Payment seen, unconfirmed"@ && r.1@
            == "status-unconfirmed"@ && !r.2,
        status@ == "confirming"@ ==> r.0@ == "Confirming"@ && r.1@ == "status-confirming"@ && !r.2,
        status@ == "partial"@ ==> r.0@ == "Partial payment received"@ && r.1@ == "status-partial"@
            && !r.2,
        status@ == "paid"@ ==> r.0@ == "Paid"@ && r.1@ == "status-paid"@ && r.2,
        status@ == "overpaid"@ ==> r.0@ == "Overpaid"@ && r.1@ == "status-paid"@ && r.2,
        status@ == "expired"@ ==> r.0@ == "Expired"@ && r.1@ == "status-expired"@ && r.2,
        !(status@ == "pending"@ || status@ == "unconfirmed"@ || status@ == "confirming"@ || status@
            == "partial"@ || status@ == "paid"@ || status@ == "overpaid"@ || status@
            == "expired"@) ==> r.0@ == status@ && r.1@ == "status-unknown"@ && r.2,
{
    proof {
        statuses_are_worded_as_they_are(status@);
    }
    if text::str_eq(status, "pending") {
        ("Waiting for payment".to_string(), "status-pending", false)
    } else if text::str_eq(status, "unconfirmed") {
        ("Payment seen, unconfirmed".to_string(), "status-unconfirmed", false)
    } else if text::str_eq(status, "confirming") {
        ("Confirming".to_string(), "status-confirming", false)
    } else if text::str_eq(status, "partial") {
        ("Partial payment received".to_string(), "status-partial", false)
    } else if text::str_eq(status, "paid") {
        ("Paid".to_string(), "status-paid", true)
    } else if text::str_eq(status, "overpaid") {
        ("Overpaid".to_string(), "status-paid", true)
    } else if text::str_eq(status, "expired") {
        ("Expired".to_string(), "status-expired", true)
    } else {
        (status.to_string(), "status-unknown", true)
    }
}

/// Law: a page keeps asking for news exactly while its order is still in progress.
pub proof fn only_orders_in_progress_are_polled(status: Seq<char>)
    ensures
        !status_words(status).2 <==> (status == "pending"@ || status == "unconfirmed"@ || status
            == "confirming"@ || status == "partial"@),
{
    reveal_strlit("pending");
    reveal_strlit("unconfirmed");
    reveal_strlit("confirming");
    reveal_strlit("partial");
    reveal_strlit("paid");
    reveal_strlit("overpaid");
    reveal_strlit("expired");
}

/// Law: each status that storage knows has its own label; an order that is overpaid is styled
/// as paid. A status that is not known is shown as it is, in a style of its own, and as settled.
pub proof fn statuses_are_worded_as_they_are(status: Seq<char>)
    ensures
        status_words("pending"@) == ("Waiting for payment"@, "status-pending"@, false),
        status_words("unconfirmed"@) == (
            "Payment seen, unconfirmed"@,
            "status-unconfirmed"@,
            false,
        ),
        status_words("confirming"@) == ("Confirming"@, "status-confirming"@, false),
        status_words("partial"@) == ("Partial payment received"@, "status-partial"@, false),
        status_words("paid"@) == ("Paid"@, "status-paid"@, true),
        status_words("overpaid"@) == ("Overpaid"@, "status-paid"@, true),
        status_words("expired"@) == ("Expired"@, "status-expired"@, true),
        !(status == "pending"@ || status == "unconfirmed"@ || status == "confirming"@ || status
            == "partial"@ || status == "paid"@ || status == "overpaid"@ || status == "expired"@)
            ==> status_words(status) == (status, "status-unknown"@, true),
{
    reveal_strlit("pending");
    reveal_strlit("unconfirmed");
    reveal_strlit("confirming");
    reveal_strlit("partial");
    reveal_strlit("paid");
    reveal_strlit("overpaid");
    reveal_strlit("expired");
    assert("pending"@.len() == 7 && "partial"@.len() == 7 && "expired"@.len() == 7);
    assert("unconfirmed"@.len() == 11 && "confirming"@.len() == 10);
    assert("paid"@.len() == 4 && "overpaid"@.len() == 8);
    assert("pending"@[1] == 'e' && "partial"@[1] == 'a' && "expired"@[1] == 'x');
}

/// Law: a template sees every part of the page's data, under its own name, and nothing else.
pub proof fn templates_see_the_whole_page(v: CheckoutViewModel)
    ensures
        checkout_fields(v).len() == 18,
        checkout_fields(v).contains(("payment_id"@, json::quoted(v.payment_id@))),
        checkout_fields(v).contains(("status"@, json::quoted(v.status@))),
        checkout_fields(v).contains(("status_label"@, json::quoted(v.status_label@))),
        checkout_fields(v).contains(("status_class"@, json::quoted(v.status_class@))),
        checkout_fields(v).contains(("address"@, json::quoted(v.address@))),
        checkout_fields(v).contains(("qr_code_svg"@, json::quoted(v.qr_code_svg@))),
        checkout_fields(v).contains(("xmr_amount"@, json::quoted(v.xmr_amount@))),
        checkout_fields(v).contains(("amount_received_xmr"@, json::quoted(v.amount_received_xmr@))),
        checkout_fields(v).contains(("fiat_amount"@, json::quoted(v.fiat_amount@))),
        checkout_fields(v).contains(("fiat_currency"@, json::quoted(v.fiat_currency@))),
        checkout_fields(v).contains(("confirmations"@, json::integer_text(v.confirmations as int))),
        checkout_fields(v).contains(
            ("confirmations_required"@, json::integer_text(v.confirmations_required as int)),
        ),
        checkout_fields(v).contains(
            ("is_terminal"@, if v.is_terminal { "true"@ } else { "false"@ }),
        ),
        checkout_fields(v).contains(
            (
                "double_spend_detected_at"@,
                match v.double_spend_detected_at {
                    Some(at) => json::integer_text(at as int),
                    None => "null"@,
                },
            ),
        ),
        checkout_fields(v).contains(("expires_at"@, json::integer_text(v.expires_at as int))),
        checkout_fields(v).contains(
            (
                "merchant_order_id"@,
                match v.merchant_order_id {
                    Some(id) => json::quoted(id@),
                    None => "null"@,
                },
            ),
        ),
        checkout_fields(v).contains(
            (
                "description"@,
                match v.description {
                    Some(words) => json::quoted(words@),
                    None => "null"@,
                },
            ),
        ),
        checkout_fields(v).contains(("payments"@, payments_text(v.payments@))),
{
    let fields = checkout_fields(v);
    assert(fields[0].0 == "payment_id"@ && fields[1].0 == "status"@ && fields[2].0
        == "status_label"@ && fields[3].0 == "status_class"@ && fields[4].0 == "address"@
        && fields[5].0 == "qr_code_svg"@ && fields[6].0 == "xmr_amount"@ && fields[7].0
        == "amount_received_xmr"@ && fields[8].0 == "fiat_amount"@ && fields[9].0
        == "fiat_currency"@ && fields[10].0 == "confirmations"@ && fields[11].0
        == "confirmations_required"@ && fields[12].0 == "is_terminal"@ && fields[13].0
        == "double_spend_detected_at"@ && fields[14].0 == "expires_at"@ && fields[15].0
        == "merchant_order_id"@ && fields[16].0 == "description"@ && fields[17].0 == "payments"@);
}

/// Law: a template sees every part of a payment, under its own name, and nothing else.
pub proof fn templates_see_whole_payments(p: PaymentViewModel)
    ensures
        payment_fields(p).len() == 4,
        payment_fields(p).contains(("txid_short"@, json::quoted(p.txid_short@))),
        payment_fields(p).contains(("amount_xmr"@, json::quoted(p.amount_xmr@))),
        payment_fields(p).contains(("confirmations"@, json::integer_text(p.confirmations as int))),
        payment_fields(p).contains(
            ("is_zero_conf"@, if p.is_zero_conf { "true"@ } else { "false"@ }),
        ),
{
    let fields = payment_fields(p);
    assert(fields[0].0 == "txid_short"@ && fields[1].0 == "amount_xmr"@ && fields[2].0
        == "confirmations"@ && fields[3].0 == "is_zero_conf"@);
}

/// Law: a template sees the payments one by one, in their order: a list with a further payment
/// is the list and that payment.
pub proof fn templates_see_every_payment(payments: Seq<PaymentViewModel>, p: PaymentViewModel)
    ensures
        payments_text(Seq::empty()) == seq!['[', ']'],
        payments_text(seq![p]) == seq!['['] + json::object_text(payment_fields(p)) + seq![']'],
        payments.len() > 0 ==> payments_text(payments.push(p)) == payments_text(
            payments,
        ).drop_last() + seq![','] + json::object_text(payment_fields(p)) + seq![']'],
{
    let text = |q: PaymentViewModel| json::object_text(payment_fields(q));
    let none = Seq::<PaymentViewModel>::empty().map_values(text);
    assert(none =~= Seq::empty());
    assert(json::comma_separated(none) == Seq::<char>::empty());
    assert(payments_text(Seq::empty()) =~= seq!['[', ']']);
    let one = seq![p].map_values(text);
    assert(one =~= seq![text(p)]);
    let all = payments.push(p).map_values(text);
    assert(all.drop_last() =~= payments.map_values(text));
    if payments.len() > 0 {
        assert(payments_text(payments).drop_last() =~= seq!['['] + json::comma_separated(
            payments.map_values(text),
        ));
        assert(payments_text(payments.push(p)) =~= payments_text(payments).drop_last() + seq![',']
            + text(p) + seq![']']);
    }
}

/// Law: a merchant's own template is used as it is, and the built-in one where there is none.
/// Only the merchant's own can be refused for going on without end.
pub proof fn own_templates_come_first(source: String, path: String, reason: String)
    ensures
        chosen_source(CustomTemplate::Found(source)) == source@,
        chosen_source(CustomTemplate::Missing) == DEFAULT_CHECKOUT_TEMPLATE@,
        chosen_source(CustomTemplate::NotConfigured) == DEFAULT_CHECKOUT_TEMPLATE@,
        may_not_end(CustomTemplate::Found(source)) <==> !inclusion::sure_to_end(
            "checkout"@,
            source@,
        ),
        !may_not_end(CustomTemplate::Missing),
        !may_not_end(CustomTemplate::NotConfigured),
        !may_not_end(CustomTemplate::Unreadable { path, reason }),
{
}

/// Law: a page is rendered strictly, from the one template `checkout`, with the helper `json`
/// and no other of its own, on the page's data and nothing else.
pub proof fn pages_are_rendered_strictly(source: Seq<char>, v: CheckoutViewModel)
    ensures
        checkout_page(source, v) == rendered(
            map!["checkout"@ => source],
            true,
            set!["json"@],
            "checkout"@,
            json::object_text(checkout_fields(v)),
        ),
{
}

} // verus!
