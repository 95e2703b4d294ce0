//! The public checkout page.
//!
//! The page asks for no credentials: its address holds the order's payment id, which
//! cannot be guessed and which the customer already has.

use qrcode::render::svg;
use qrcode::types::QrError;
use qrcode::QrCode;
use vstd::prelude::*;
use vstd::utf8;

use crate::exchange_rate;
use crate::exchange_rate::format_piconero_as_xmr;
use crate::http::public;
use crate::http::ApiError;
use crate::store::{Order, Payment, Tenant};
use crate::templates;
use crate::templates::{
    can_be_rendered, status_label, CheckoutViewModel, CustomTemplate, PaymentViewModel,
    TemplateEngine,
};
use crate::text;

verus! {

/// How many bytes of a transaction id are shown in full.
pub const TXID_SHOWN_IN_FULL: usize = 16;

/// How many bytes a shortened transaction id starts with.
pub const TXID_HEAD: usize = 8;

/// How many bytes a shortened transaction id ends with.
pub const TXID_TAIL: usize = 6;

/// A transaction id as the page shows it: in full when it is short, else its start and its
/// end.
pub open spec fn shortened(txid: Seq<char>) -> Seq<char> {
    let bytes = utf8::encode_utf8(txid);
    if bytes.len() <= TXID_SHOWN_IN_FULL {
        txid
    } else {
        utf8::decode_utf8(bytes.subrange(0, TXID_HEAD as int)) + seq!['\u{2026}']
            + utf8::decode_utf8(bytes.subrange(bytes.len() - TXID_TAIL, bytes.len() as int))
    }
}

/// A transaction id can be shortened: no character stands across a cut.
pub open spec fn can_be_shortened(txid: Seq<char>) -> bool {
    let bytes = utf8::encode_utf8(txid);
    bytes.len() > TXID_SHOWN_IN_FULL ==> utf8::is_char_boundary(bytes, TXID_HEAD as int)
        && utf8::is_char_boundary(bytes, bytes.len() - TXID_TAIL)
}

/// Shortens a transaction id for the page.
pub fn short_txid(txid: &str) -> (r: String)
    requires
        can_be_shortened(txid@),
    ensures
        r@ == shortened(txid@),
{
    let n: usize = txid.as_bytes().len();
    if n <= TXID_SHOWN_IN_FULL {
        return txid.to_string();
    }
    let (head, _) = txid.split_at(TXID_HEAD);
    let (_, tail) = txid.split_at(n - TXID_TAIL);
    proof {
        utf8::encode_utf8_decode_utf8(head@);
        utf8::encode_utf8_decode_utf8(tail@);
    }
    let mut out = head.to_string();
    out.push('\u{2026}');
    out.append(tail);
    out
}

/// Law: a transaction id of ASCII characters, as every real one is, can always be shortened;
/// the page then shows its first and its last characters.
pub proof fn ascii_txids_are_cut_between_characters(txid: Seq<char>)
    requires
        utf8::is_ascii_chars(txid),
    ensures
        can_be_shortened(txid),
        txid.len() <= TXID_SHOWN_IN_FULL ==> shortened(txid) == txid,
        txid.len() > TXID_SHOWN_IN_FULL ==> shortened(txid) == txid.take(TXID_HEAD as int)
            + seq!['\u{2026}'] + txid.skip(txid.len() - TXID_TAIL),
{
    utf8::is_ascii_chars_encode_utf8(txid);
    utf8::encode_utf8_valid_utf8(txid);
    if txid.len() > TXID_SHOWN_IN_FULL {
        let bytes = utf8::encode_utf8(txid);
        let cut = txid.len() - TXID_TAIL;
        assert(txid[TXID_HEAD as int] as u8 == bytes[TXID_HEAD as int]);
        assert(txid[cut] as u8 == bytes[cut]);
        assert(bytes[TXID_HEAD as int] <= 0x7f);
        assert(bytes[cut] <= 0x7f);
        utf8::is_char_boundary_iff_not_is_continuation_byte(bytes, TXID_HEAD as int);
        utf8::is_char_boundary_iff_not_is_continuation_byte(bytes, cut);
        let head = txid.take(TXID_HEAD as int);
        let tail = txid.skip(cut);
        utf8::is_ascii_chars_encode_utf8(head);
        utf8::is_ascii_chars_encode_utf8(tail);
        assert forall|i: int| 0 <= i < TXID_HEAD implies bytes[i] == utf8::encode_utf8(head)[i] by {
            assert(head[i] == txid[i]);
        }
        assert forall|i: int| 0 <= i < TXID_TAIL implies bytes[cut + i] == utf8::encode_utf8(
            tail,
        )[i] by {
            assert(tail[i] == txid[cut + i]);
        }
        assert(bytes.subrange(0, TXID_HEAD as int) =~= utf8::encode_utf8(head));
        assert(bytes.subrange(cut, bytes.len() as int) =~= utf8::encode_utf8(tail));
        utf8::encode_utf8_decode_utf8(head);
        utf8::encode_utf8_decode_utf8(tail);
    }
}

/// An error of `qrcode`.
#[verifier::external_type_specification]
#[verifier::external_body]
pub struct ExQrError(QrError);

/// What the `Display` of an error of `qrcode` says.
pub uninterp spec fn qr_error_text(error: QrError) -> Seq<char>;

/// The SVG document of the QR code that `qrcode` makes of some bytes, or why there is none,
/// in words.
pub uninterp spec fn qr_document(data: Seq<u8>) -> Result<Seq<char>, Seq<char>>;

/// What every SVG document of `qrcode` starts with.
pub const SVG_PROLOG: &'static str = "<?xml version=\"1.0\" standalone=\"yes\"?>";

/// What the picture itself starts with.
pub const SVG_TAG: &'static str = "<svg";

/// `QrCode::new`, rendered by `render::<svg::Color>().build()`: the document is settled by
/// the data, and starts with an XML prolog that its `svg` element follows at once.
#[verifier::external_body]
fn draw_qr_code(data: &[u8]) -> (r: Result<String, QrError>)
    ensures
        match r {
            Ok(document) => qr_document(data@) == Ok::<Seq<char>, Seq<char>>(document@)
                && (SVG_PROLOG@ + SVG_TAG@).is_prefix_of(document@),
            Err(e) => qr_document(data@) == Err::<Seq<char>, Seq<char>>(qr_error_text(e)),
        },
{
    Ok(QrCode::new(data)?.render::<svg::Color>().build())
}

/// The `Display` of `QrError`.
#[verifier::external_body]
fn qr_error_words(error: &QrError) -> (r: String)
    ensures
        r@ == qr_error_text(*error),
{
    error.to_string()
}

/// `s` holds [`SVG_TAG`] at `i`.
pub open spec fn has_svg_at(s: Seq<char>, i: int) -> bool {
    0 <= i <= s.len() - SVG_TAG@.len() && s.subrange(i, i + SVG_TAG@.len()) == SVG_TAG@
}

/// `s` holds [`SVG_TAG`] at `i` and nowhere before.
pub open spec fn has_first_svg_at(s: Seq<char>, i: int) -> bool {
    has_svg_at(s, i) && forall|j: int| j < i ==> !#[trigger] has_svg_at(s, j)
}

/// What is left of a document for a page of HTML: it from its first [`SVG_TAG`] on, or all
/// of it when there is none.
pub open spec fn svg_part(s: Seq<char>) -> Seq<char> {
    if exists|i: int| has_first_svg_at(s, i) {
        s.skip(choose|i: int| has_first_svg_at(s, i))
    } else {
        s
    }
}

/// Whether the characters hold [`SVG_TAG`] at `i`.
fn holds_svg_at(chars: &Vec<char>, i: usize) -> (r: bool)
    requires
        i <= chars@.len(),
    ensures
        r == has_svg_at(chars@, i as int),
{
    proof {
        reveal_strlit("<svg");
    }
    if chars.len() - i < 4 {
        return false;
    }
    let r: bool = chars[i] == '<' && chars[i + 1] == 's' && chars[i + 2] == 'v' && chars[i + 3]
        == 'g';
    proof {
        let here = chars@.subrange(i as int, i + 4);
        assert(here[0] == chars@[i as int]);
        assert(here[1] == chars@[i + 1]);
        assert(here[2] == chars@[i + 2]);
        assert(here[3] == chars@[i + 3]);
        if r {
            assert(here =~= SVG_TAG@);
        }
    }
    r
}

/// Strips a document down to its `svg` element, so that it can stand in a page of HTML: a
/// prolog is fine in a document of its own, and garbled text in HTML.
pub fn strip_to_svg(document: &str) -> (r: String)
    ensures
        r@ == svg_part(document@),
{
    let chars: Vec<char> = text::characters(document);
    let n: usize = chars.len();
    let mut start: usize = 0;
    while start < n && !holds_svg_at(&chars, start)
        invariant
            start <= n,
            n == chars@.len(),
            forall|j: int| j < start ==> !#[trigger] has_svg_at(chars@, j),
        decreases n - start,
    {
        start = start + 1;
    }
    if start == n {
        proof {
            reveal_strlit("<svg");
            assert forall|i: int| !has_svg_at(document@, i) by {}
        }
        return document.to_string();
    }
    assert(has_first_svg_at(document@, start as int));
    let mut out = String::new();
    let mut i: usize = start;
    while i < n
        invariant
            start <= i <= n,
            n == chars@.len(),
            out@ == chars@.subrange(start as int, i as int),
        decreases n - i,
    {
        out.push(chars[i]);
        i = i + 1;
    }
    proof {
        let chosen = choose|i: int| has_first_svg_at(document@, i);
        assert(has_first_svg_at(document@, chosen));
        assert(chosen == start) by {
            if chosen < start {
                assert(has_svg_at(document@, chosen));
            } else if start < chosen {
                assert(has_svg_at(document@, start as int));
            }
        }
        assert(out@ =~= document@.skip(start as int));
    }
    out
}

/// Law: what is left of a document that opens with a prolog and an `svg` element is that
/// element, without the prolog.
pub proof fn prologs_are_stripped(document: Seq<char>)
    requires
        (SVG_PROLOG@ + SVG_TAG@).is_prefix_of(document),
    ensures
        svg_part(document) == document.skip(SVG_PROLOG@.len() as int),
        SVG_TAG@.is_prefix_of(svg_part(document)),
{
    reveal_strlit("<?xml version=\"1.0\" standalone=\"yes\"?>");
    reveal_strlit("<svg");
    let n = SVG_PROLOG@.len() as int;
    let opening = SVG_PROLOG@ + SVG_TAG@;
    assert forall|i: int| 0 <= i < opening.len() implies document[i] == opening[i] by {}
    assert(document.subrange(n, n + 4) =~= SVG_TAG@);
    assert(has_svg_at(document, n));
    assert forall|j: int| j < n implies !has_svg_at(document, j) by {
        if has_svg_at(document, j) {
            let here = document.subrange(j, j + 4);
            assert(here[0] == document[j] && here[1] == document[j + 1]);
            assert(opening[j] == '<' && opening[j + 1] == 's');
        }
    }
    assert(has_first_svg_at(document, n));
    let chosen = choose|i: int| has_first_svg_at(document, i);
    assert(has_first_svg_at(document, chosen));
    if chosen < n {
        assert(has_svg_at(document, chosen));
    } else if n < chosen {
        assert(has_svg_at(document, n));
    }
}

/// The QR code of `data` as an `svg` element that can stand in a page of HTML.
pub fn qr_svg_for_html(data: &str) -> (r: Result<String, ApiError>)
    ensures
        match qr_document(utf8::encode_utf8(data@)) {
            Ok(document) => r matches Ok(picture) && picture@ == svg_part(document)
                && SVG_TAG@.is_prefix_of(picture@),
            Err(words) => r matches Err(e) && public::fails(
                e,
                "failed to encode QR code: "@ + words,
            ),
        },
{
    match draw_qr_code(data.as_bytes()) {
        Ok(document) => {
            proof {
                prologs_are_stripped(document@);
            }
            Ok(strip_to_svg(document.as_str()))
        },
        Err(e) => Err(
            ApiError::Internal(
                text::join("failed to encode QR code: ", qr_error_words(&e).as_str()),
            ),
        ),
    }
}

/// The block height that storage keeps as a signed number.
pub open spec fn height_of(stored: i64) -> int {
    if stored >= 0 {
        stored as int
    } else {
        stored + 0x1_0000_0000_0000_0000
    }
}

/// How many blocks confirm a payment when the chain is scanned up to `scanned`: its own and
/// those above it. A payment that is not mined yet, or only above what is scanned, has none.
pub open spec fn payment_confirmations(block_height: Option<i64>, scanned: u64) -> int {
    match block_height {
        Some(h) => if height_of(h) <= scanned {
            scanned - height_of(h) + 1
        } else {
            0
        },
        None => 0,
    }
}

/// The page can show a payment: its transaction id can be shortened, and its
/// confirmations can be counted.
pub open spec fn can_be_shown(p: Payment, scanned: u64) -> bool {
    &&& can_be_shortened(p.txid@)
    &&& payment_confirmations(p.block_height, scanned) <= u64::MAX
}

/// Whether the page can show all these payments.
pub fn can_show_payments(payments: &Vec<Payment>, scanned: Option<u64>) -> (r: bool)
    ensures
        r == forall|i: int|
            0 <= i < payments@.len() ==> can_be_shown(
                #[trigger] payments@[i],
                scanned_up_to(scanned),
            ),
{
    let height: u64 = match scanned {
        Some(height) => height,
        None => 0,
    };
    let mut i: usize = 0;
    while i < payments.len()
        invariant
            i <= payments@.len(),
            height == scanned_up_to(scanned),
            forall|j: int| 0 <= j < i ==> can_be_shown(#[trigger] payments@[j], height),
        decreases payments@.len() - i,
    {
        let txid: &str = payments[i].txid.as_str();
        let n: usize = txid.as_bytes().len();
        if n > TXID_SHOWN_IN_FULL && !(txid.is_char_boundary(TXID_HEAD) && txid.is_char_boundary(
            n - TXID_TAIL,
        )) {
            assert(!can_be_shown(payments@[i as int], height));
            return false;
        }
        // Only a payment of the very first block can have more confirmations than fit.
        if let Some(h) = payments[i].block_height {
            if h == 0 && height == u64::MAX {
                assert(!can_be_shown(payments@[i as int], height));
                return false;
            }
        }
        assert(can_be_shown(payments@[i as int], height));
        i = i + 1;
    }
    true
}

/// `v` is what the page shows of a payment.
pub open spec fn shows_payment(p: Payment, scanned: u64, v: PaymentViewModel) -> bool {
    &&& v.txid_short@ == shortened(p.txid@)
    &&& v.amount_xmr@ == exchange_rate::xmr_text(p.amount_piconero as nat)
    &&& v.confirmations == payment_confirmations(p.block_height, scanned)
    &&& v.is_zero_conf == (p.block_height is None)
}

/// `v` is what the page shows of an order, with this picture of its address.
pub open spec fn shows(
    order: Order,
    tenant: Tenant,
    payments: Seq<Payment>,
    scanned: u64,
    picture: Seq<char>,
    v: CheckoutViewModel,
) -> bool {
    &&& v.payment_id == order.id
    &&& v.status == order.status
    &&& (v.status_label@, v.status_class@, v.is_terminal) == templates::status_words(order.status@)
    &&& v.address == order.address
    &&& v.qr_code_svg@ == picture
    &&& v.xmr_amount@ == exchange_rate::xmr_text(order.xmr_amount_piconero as nat)
    &&& v.amount_received_xmr@ == exchange_rate::xmr_text(order.amount_received_piconero as nat)
    &&& v.fiat_amount == order.fiat_amount
    &&& v.fiat_currency == order.fiat_currency
    &&& v.confirmations == order.confirmations
    &&& v.confirmations_required == tenant.confirmations_required
    &&& v.double_spend_detected_at == order.double_spend_detected_at
    &&& v.expires_at == order.expires_at
    &&& v.merchant_order_id == order.merchant_order_id
    &&& v.description == order.description
    &&& v.payments@.len() == payments.len()
    &&& forall|i: int|
        0 <= i < payments.len() ==> shows_payment(payments[i], scanned, #[trigger] v.payments@[i])
}

/// What the page shows of a payment.
pub fn payment_view(p: &Payment, scanned: u64) -> (r: PaymentViewModel)
    requires
        can_be_shown(*p, scanned),
    ensures
        shows_payment(*p, scanned, r),
        r.txid_short@ == shortened(p.txid@),
        exchange_rate::piconero(r.amount_xmr@) == Ok::<nat, exchange_rate::AmountError>(
            p.amount_piconero as nat,
        ),
        r.is_zero_conf == (p.block_height is None),
        match p.block_height {
            None => r.confirmations == 0,
            Some(h) => if h < 0 {
                r.confirmations == (if scanned < h + 0x1_0000_0000_0000_0000 {
                    0
                } else {
                    scanned - h - 0x1_0000_0000_0000_0000 + 1
                })
            } else if scanned < h {
                r.confirmations == 0
            } else {
                r.confirmations == scanned - h + 1
            },
        },
{
    proof {
        exchange_rate::format_then_parse_is_identity(p.amount_piconero);
    }
    let confirmations: u64 = match p.block_height {
        Some(h) => {
            let height: u64 = #[verifier::truncate] (h as u64);
            assert(height == height_of(h)) by {
                assert(h >= 0 ==> (h as u64) == h) by (bit_vector);
                assert(h < 0 ==> (h as u64) == h + 0x1_0000_0000_0000_0000) by (bit_vector);
            }
            if height <= scanned {
                scanned - height + 1
            } else {
                0
            }
        },
        None => 0,
    };
    PaymentViewModel {
        txid_short: short_txid(p.txid.as_str()),
        amount_xmr: format_piconero_as_xmr(p.amount_piconero),
        confirmations,
        is_zero_conf: p.block_height.is_none(),
    }
}

/// What the page shows of an order, with this picture of its address.
pub fn checkout_view(
    order: Order,
    tenant: &Tenant,
    payments: &Vec<Payment>,
    scanned: u64,
    picture: String,
) -> (r: CheckoutViewModel)
    requires
        forall|i: int|
            0 <= i < payments@.len() ==> can_be_shown(#[trigger] payments@[i], scanned),
    ensures
        shows(order, *tenant, payments@, scanned, picture@, r),
        r.payment_id == order.id,
        r.status == order.status,
        r.address == order.address,
        r.qr_code_svg == picture,
        exchange_rate::piconero(r.xmr_amount@) == Ok::<nat, exchange_rate::AmountError>(
            order.xmr_amount_piconero as nat,
        ),
        exchange_rate::piconero(r.amount_received_xmr@) == Ok::<nat, exchange_rate::AmountError>(
            order.amount_received_piconero as nat,
        ),
        r.fiat_amount == order.fiat_amount,
        r.fiat_currency == order.fiat_currency,
        r.confirmations == order.confirmations,
        r.confirmations_required == tenant.confirmations_required,
        r.double_spend_detected_at == order.double_spend_detected_at,
        r.expires_at == order.expires_at,
        r.merchant_order_id == order.merchant_order_id,
        r.description == order.description,
        r.payments@.len() == payments@.len(),
{
    proof {
        exchange_rate::format_then_parse_is_identity(order.xmr_amount_piconero);
        exchange_rate::format_then_parse_is_identity(order.amount_received_piconero);
    }
    let (status_label, status_class, is_terminal) = status_label(order.status.as_str());
    let mut shown: Vec<PaymentViewModel> = Vec::new();
    let mut i: usize = 0;
    while i < payments.len()
        invariant
            i <= payments@.len(),
            shown@.len() == i,
            forall|j: int|
                0 <= j < payments@.len() ==> can_be_shown(#[trigger] payments@[j], scanned),
            forall|j: int|
                0 <= j < i ==> shows_payment(payments@[j], scanned, #[trigger] shown@[j]),
        decreases payments@.len() - i,
    {
        shown.push(payment_view(&payments[i], scanned));
        i = i + 1;
    }
    CheckoutViewModel {
        payment_id: order.id,
        status: order.status,
        status_label,
        status_class: status_class.to_string(),
        address: order.address,
        qr_code_svg: picture,
        xmr_amount: format_piconero_as_xmr(order.xmr_amount_piconero),
        amount_received_xmr: format_piconero_as_xmr(order.amount_received_piconero),
        fiat_amount: order.fiat_amount,
        fiat_currency: order.fiat_currency,
        confirmations: order.confirmations,
        confirmations_required: tenant.confirmations_required,
        is_terminal,
        double_spend_detected_at: order.double_spend_detected_at,
        expires_at: order.expires_at,
        merchant_order_id: order.merchant_order_id,
        description: order.description,
        payments: shown,
    }
}

/// The chain's height as far as it is scanned; a network that was never scanned is at its
/// start.
pub open spec fn scanned_up_to(scanned: Option<u64>) -> u64 {
    match scanned {
        Some(height) => height,
        None => 0,
    }
}

/// What is told of a merchant's template that could include partials without end. Rendering it
/// could take the whole service down.
pub const MAY_NOT_END: &'static str = "the checkout template may include partials without end";

/// `e` tells that a template is not well formed, in the words of `handlebars`.
pub open spec fn tells_of_syntax(e: ApiError) -> bool {
    exists|fault: handlebars::TemplateError|
        public::fails(
            e,
            "failed to register template: "@ + #[trigger] templates::template_error_text(fault),
        )
}

/// `e` tells that a page could not be made, in the words of `handlebars`.
pub open spec fn tells_of_rendering(e: ApiError) -> bool {
    exists|fault: handlebars::RenderError|
        public::fails(
            e,
            "failed to render template: "@ + #[trigger] templates::render_error_text(fault),
        )
}

/// `r` is the page that `template` makes of `v`, or why there is none.
pub open spec fn renders(
    template: CustomTemplate,
    v: CheckoutViewModel,
    r: Result<String, ApiError>,
) -> bool {
    match template {
        CustomTemplate::Unreadable { path, reason } => r matches Err(e) && public::fails(
            e,
            "failed to read template file "@ + path@ + ": "@ + reason@,
        ),
        _ => {
            let source = templates::chosen_source(template);
            if !templates::is_well_formed(templates::CHECKOUT_TEMPLATE@, source) {
                r matches Err(e) && tells_of_syntax(e)
            } else if templates::may_not_end(template) {
                r matches Err(e) && public::fails(e, MAY_NOT_END@)
            } else {
                match templates::checkout_page(source, v) {
                    Some(page) => r matches Ok(html) && html@ == page,
                    None => r matches Err(e) && tells_of_rendering(e),
                }
            }
        },
    }
}

/// Renders the page. The template is read anew for every page, so that a merchant's edit
/// is live at once.
pub fn render_page(template: CustomTemplate, v: &CheckoutViewModel) -> (r: Result<String, ApiError>)
    ensures
        renders(template, *v, r),
{
    let ends: bool = can_be_rendered(&template);
    let engine: TemplateEngine = match TemplateEngine::new(template) {
        Ok(engine) => engine,
        Err(e) => {
            return Err(ApiError::Internal(e.message()));
        },
    };
    if !ends {
        return Err(ApiError::Internal(MAY_NOT_END.to_string()));
    }
    match engine.render_checkout(v) {
        Ok(html) => Ok(html),
        Err(e) => Err(ApiError::Internal(e.message())),
    }
}

/// The checkout page of an order: its address as a QR code, the amounts, and the payments
/// that count towards it. `scanned` is how far the tenant's network is scanned, and
/// `template` what was found where the tenant keeps templates.
pub fn payment_page(
    order: Order,
    tenant: &Tenant,
    payments: &Vec<Payment>,
    scanned: Option<u64>,
    template: CustomTemplate,
) -> (r: Result<String, ApiError>)
    requires
        forall|i: int|
            0 <= i < payments@.len() ==> can_be_shown(
                #[trigger] payments@[i],
                scanned_up_to(scanned),
            ),
    ensures
        match qr_document(utf8::encode_utf8(order.address@)) {
            Ok(document) => exists|v: CheckoutViewModel|
                shows(
                    order,
                    *tenant,
                    payments@,
                    scanned_up_to(scanned),
                    svg_part(document),
                    v,
                ) && #[trigger] renders(template, v, r),
            Err(words) => r matches Err(e) && public::fails(
                e,
                "failed to encode QR code: "@ + words,
            ),
        },
{
    let height: u64 = match scanned {
        Some(height) => height,
        None => 0,
    };
    let picture: String = match qr_svg_for_html(order.address.as_str()) {
        Ok(picture) => picture,
        Err(e) => {
            return Err(e);
        },
    };
    let view: CheckoutViewModel = checkout_view(order, tenant, payments, height, picture);
    render_page(template, &view)
}

/// Law: what the page shows is settled by what is stored, how far the chain is scanned and
/// the picture of the address. Nothing else reaches a template.
pub proof fn pages_show_only_what_is_stored(
    order: Order,
    tenant: Tenant,
    payments: Seq<Payment>,
    scanned: u64,
    picture: Seq<char>,
    v: CheckoutViewModel,
    w: CheckoutViewModel,
)
    requires
        shows(order, tenant, payments, scanned, picture, v),
        shows(order, tenant, payments, scanned, picture, w),
    ensures
        templates::checkout_fields(v) == templates::checkout_fields(w),
        forall|source: Seq<char>|
            #![auto]
            templates::checkout_page(source, v) == templates::checkout_page(source, w),
{
    let text = |p: PaymentViewModel| crate::json::object_text(templates::payment_fields(p));
    assert forall|i: int| 0 <= i < payments.len() implies text(v.payments@[i]) == text(
        w.payments@[i],
    ) by {
        assert(shows_payment(payments[i], scanned, v.payments@[i]));
        assert(shows_payment(payments[i], scanned, w.payments@[i]));
        assert(templates::payment_fields(v.payments@[i]) =~= templates::payment_fields(
            w.payments@[i],
        ));
    }
    assert(v.payments@.map_values(text) =~= w.payments@.map_values(text));
    assert(templates::checkout_fields(v) =~= templates::checkout_fields(w));
}

/// Law: a mined payment has one more confirmation for every block that is scanned, and at
/// least one once its own block is.
pub proof fn confirmations_grow_with_the_chain(block_height: i64, scanned: u64, later: u64)
    requires
        height_of(block_height) <= scanned <= later,
    ensures
        payment_confirmations(Some(block_height), scanned) >= 1,
        payment_confirmations(Some(block_height), later) == payment_confirmations(
            Some(block_height),
            scanned,
        ) + (later - scanned),
{
}

/// Law: a payment has one confirmation when the chain is scanned up to its own block, none
/// while it is scanned only below, and one more with each further block. One that is not
/// mined has none.
pub proof fn a_block_confirms_its_own_payments(block_height: i64, scanned: u64)
    requires
        block_height >= 0,
    ensures
        payment_confirmations(Some(block_height), block_height as u64) == 1,
        scanned < block_height ==> payment_confirmations(Some(block_height), scanned) == 0,
        block_height <= scanned ==> payment_confirmations(Some(block_height), scanned) == scanned
            - block_height + 1,
        payment_confirmations(None, scanned) == 0,
{
}

/// Law: storage keeps a height as a signed number of the same bits. What it keeps as a
/// negative number is a height beyond all others, and it keeps no two heights alike.
pub proof fn heights_are_stored_bit_by_bit(stored: i64, other: i64, scanned: u64)
    ensures
        0 <= height_of(stored) <= u64::MAX,
        stored >= 0 ==> height_of(stored) == stored,
        stored < 0 ==> height_of(stored) == stored + 0x1_0000_0000_0000_0000,
        height_of(stored) == height_of(other) ==> stored == other,
        stored < 0 ==> payment_confirmations(Some(stored), (stored + 0x1_0000_0000_0000_0000) as u64)
            == 1,
        stored < 0 && scanned < stored + 0x1_0000_0000_0000_0000 ==> payment_confirmations(
            Some(stored),
            scanned,
        ) == 0,
{
}

/// Law: the page can show every payment whose transaction id is of ASCII characters, short or
/// long, wherever it was mined; but for one of the very first block when the chain is scanned
/// as far as heights go, which has more confirmations than fit.
pub proof fn ordinary_payments_can_be_shown(p: Payment, scanned: u64)
    ensures
        (utf8::is_ascii_chars(p.txid@) || utf8::encode_utf8(p.txid@).len() <= 16) && (
        p.block_height != Some(0i64) || scanned < u64::MAX) ==> can_be_shown(p, scanned),
        p.block_height == Some(0i64) && scanned == u64::MAX ==> !can_be_shown(p, scanned),
        can_be_shown(p, scanned) <==> can_be_shortened(p.txid@) && !(p.block_height == Some(0i64)
            && scanned == u64::MAX),
{
    if utf8::is_ascii_chars(p.txid@) {
        ascii_txids_are_cut_between_characters(p.txid@);
    }
}

/// Law: a transaction id of at most sixteen bytes is shown as it is. Of a longer one the page
/// shows the first eight bytes and the last six, with an ellipsis between.
pub proof fn long_txids_show_their_ends(txid: Seq<char>)
    requires
        can_be_shortened(txid),
    ensures
        utf8::encode_utf8(txid).len() <= 16 ==> shortened(txid) == txid,
        utf8::encode_utf8(txid).len() > 16 ==> exists|head: Seq<char>, tail: Seq<char>|
            shortened(txid) == #[trigger] (head + seq!['\u{2026}'] + tail) && utf8::encode_utf8(head)
                == utf8::encode_utf8(txid).take(8) && utf8::encode_utf8(tail) == utf8::encode_utf8(
                txid,
            ).skip(utf8::encode_utf8(txid).len() - 6),
{
    let bytes = utf8::encode_utf8(txid);
    if bytes.len() > 16 {
        utf8::encode_utf8_valid_utf8(txid);
        let n = bytes.len() as int;
        utf8::valid_utf8_split(bytes, 8);
        utf8::valid_utf8_split(bytes, n - 6);
        utf8::decode_utf8_encode_utf8(bytes.subrange(0, 8));
        utf8::decode_utf8_encode_utf8(bytes.subrange(n - 6, n));
        let head = utf8::decode_utf8(bytes.subrange(0, 8));
        let tail = utf8::decode_utf8(bytes.subrange(n - 6, n));
        assert(bytes.subrange(0, 8) =~= bytes.take(8));
        assert(bytes.subrange(n - 6, n) =~= bytes.skip(n - 6));
        assert(shortened(txid) == head + seq!['\u{2026}'] + tail);
    }
}

/// Law: of a transaction id of ASCII characters beyond sixteen, the page shows the first eight
/// and the last six, with an ellipsis between.
pub proof fn long_ascii_txids_show_their_ends(txid: Seq<char>)
    requires
        utf8::is_ascii_chars(txid),
    ensures
        txid.len() <= 16 ==> shortened(txid) == txid,
        txid.len() > 16 ==> shortened(txid) == txid.take(8) + seq!['\u{2026}'] + txid.skip(
            txid.len() - 6,
        ),
{
    ascii_txids_are_cut_between_characters(txid);
}

/// Law: a document is stripped up to the first place where it holds `<svg`, and kept whole
/// when it holds that nowhere.
pub proof fn documents_are_stripped_to_their_first_picture(s: Seq<char>, i: int)
    ensures
        (0 <= i <= s.len() - 4 && s[i] == '<' && s[i + 1] == 's' && s[i + 2] == 'v' && s[i + 3]
            == 'g' && forall|j: int|
            0 <= j < i ==> !(#[trigger] s[j] == '<' && s[j + 1] == 's' && s[j + 2] == 'v' && s[j
                + 3] == 'g')) ==> svg_part(s) == s.skip(i),
        (forall|j: int|
            0 <= j <= s.len() - 4 ==> !(#[trigger] s[j] == '<' && s[j + 1] == 's' && s[j + 2] == 'v'
                && s[j + 3] == 'g')) ==> svg_part(s) == s,
{
    reveal_strlit("<svg");
    assert forall|j: int| 0 <= j <= s.len() - 4 implies #[trigger] has_svg_at(s, j) == (s[j] == '<'
        && s[j + 1] == 's' && s[j + 2] == 'v' && s[j + 3] == 'g') by {
        let here = s.subrange(j, j + 4);
        assert(here[0] == s[j] && here[1] == s[j + 1] && here[2] == s[j + 2] && here[3] == s[j + 3]);
        if s[j] == '<' && s[j + 1] == 's' && s[j + 2] == 'v' && s[j + 3] == 'g' {
            assert(here =~= SVG_TAG@);
        }
    }
    if 0 <= i <= s.len() - 4 && s[i] == '<' && s[i + 1] == 's' && s[i + 2] == 'v' && s[i + 3] == 'g'
        && forall|j: int|
        0 <= j < i ==> !(#[trigger] s[j] == '<' && s[j + 1] == 's' && s[j + 2] == 'v' && s[j + 3]
            == 'g') {
        assert(has_svg_at(s, i));
        assert(has_first_svg_at(s, i));
        let chosen = choose|k: int| has_first_svg_at(s, k);
        assert(has_first_svg_at(s, chosen));
        if chosen < i {
            assert(has_svg_at(s, chosen));
            assert(s[chosen] == '<');
        } else if i < chosen {
            assert(has_svg_at(s, i));
        }
    }
    if forall|j: int|
        0 <= j <= s.len() - 4 ==> !(#[trigger] s[j] == '<' && s[j + 1] == 's' && s[j + 2] == 'v'
            && s[j + 3] == 'g') {
        assert forall|j: int| !has_svg_at(s, j) by {
            if has_svg_at(s, j) {
                assert(s[j] == '<');
            }
        }
    }
}

/// Law: what the page shows of an order is what is stored of it: its amounts read back as the
/// stored ones, its payments stand in their order, and its status is worded as statuses are.
pub proof fn pages_show_what_is_stored(
    order: Order,
    tenant: Tenant,
    payments: Seq<Payment>,
    scanned: u64,
    picture: Seq<char>,
    v: CheckoutViewModel,
    i: int,
)
    requires
        shows(order, tenant, payments, scanned, picture, v),
    ensures
        v.payment_id == order.id,
        v.status == order.status,
        (v.status_label@, v.status_class@, v.is_terminal) == templates::status_words(order.status@),
        v.address == order.address,
        v.qr_code_svg@ == picture,
        exchange_rate::piconero(v.xmr_amount@) == Ok::<nat, exchange_rate::AmountError>(
            order.xmr_amount_piconero as nat,
        ),
        exchange_rate::piconero(v.amount_received_xmr@) == Ok::<nat, exchange_rate::AmountError>(
            order.amount_received_piconero as nat,
        ),
        v.fiat_amount == order.fiat_amount,
        v.fiat_currency == order.fiat_currency,
        v.confirmations == order.confirmations,
        v.confirmations_required == tenant.confirmations_required,
        v.double_spend_detected_at == order.double_spend_detected_at,
        v.expires_at == order.expires_at,
        v.merchant_order_id == order.merchant_order_id,
        v.description == order.description,
        v.payments@.len() == payments.len(),
        0 <= i < payments.len() ==> {
            &&& exchange_rate::piconero(v.payments@[i].amount_xmr@) == Ok::<
                nat,
                exchange_rate::AmountError,
            >(payments[i].amount_piconero as nat)
            &&& v.payments@[i].txid_short@ == shortened(payments[i].txid@)
            &&& v.payments@[i].is_zero_conf == (payments[i].block_height is None)
            &&& v.payments@[i].confirmations == payment_confirmations(
                payments[i].block_height,
                scanned,
            )
        },
{
    exchange_rate::format_then_parse_is_identity(order.xmr_amount_piconero);
    exchange_rate::format_then_parse_is_identity(order.amount_received_piconero);
    if 0 <= i < payments.len() {
        exchange_rate::format_then_parse_is_identity(payments[i].amount_piconero);
        assert(shows_payment(payments[i], scanned, v.payments@[i]));
    }
}

/// Law: confirmations are counted up to where the network is scanned, and from the chain's
/// start where it was never scanned.
pub proof fn unscanned_networks_are_at_their_start(height: u64)
    ensures
        scanned_up_to(Some(height)) == height,
        scanned_up_to(None) == 0,
{
}

/// Law: a page is made from the merchant's own template where there is one, and from the
/// built-in one else. A template that cannot be read, is not well formed, may go on without
/// end or cannot be rendered is an internal error in words of its own, and never another page.
pub proof fn pages_come_from_their_template(
    template: CustomTemplate,
    v: CheckoutViewModel,
    r: Result<String, ApiError>,
)
    requires
        renders(template, v, r),
    ensures
        r is Err ==> r->Err_0 is Internal,
        template matches CustomTemplate::Unreadable { path, reason } ==> (r matches Err(
            ApiError::Internal(words),
        ) && words@ == "failed to read template file "@ + path@ + ": "@ + reason@),
        template matches CustomTemplate::Found(source) ==> {
            &&& r is Ok ==> templates::is_well_formed("checkout"@, source@)
            &&& r matches Ok(page) ==> templates::checkout_page(source@, v) == Some(page@)
            &&& r is Ok ==> crate::inclusion::sure_to_end("checkout"@, source@)
            &&& templates::is_well_formed("checkout"@, source@) && !crate::inclusion::sure_to_end(
                "checkout"@,
                source@,
            ) ==> (r matches Err(ApiError::Internal(words)) && words@
                == "the checkout template may include partials without end"@)
            &&& templates::is_well_formed("checkout"@, source@) && crate::inclusion::sure_to_end(
                "checkout"@,
                source@,
            ) ==> (r is Ok <==> templates::checkout_page(source@, v) is Some)
            &&& !templates::is_well_formed("checkout"@, source@) ==> (r matches Err(
                ApiError::Internal(words),
            ) && exists|fault: handlebars::TemplateError|
                words@ == "failed to register template: "@
                    + #[trigger] templates::template_error_text(fault))
            &&& templates::is_well_formed("checkout"@, source@) && crate::inclusion::sure_to_end(
                "checkout"@,
                source@,
            ) && r is Err ==> (r matches Err(ApiError::Internal(words)) && exists|
                fault: handlebars::RenderError,
            |
                words@ == "failed to render template: "@ + #[trigger] templates::render_error_text(
                    fault,
                ))
        },
        template is Missing || template is NotConfigured ==> {
            &&& r matches Ok(page) ==> templates::checkout_page(
                templates::DEFAULT_CHECKOUT_TEMPLATE@,
                v,
            ) == Some(page@)
            &&& templates::is_well_formed("checkout"@, templates::DEFAULT_CHECKOUT_TEMPLATE@) ==> (
            r is Ok <==> templates::checkout_page(templates::DEFAULT_CHECKOUT_TEMPLATE@, v) is Some)
        },
{
}

/// Law: a transaction id can be shortened exactly when neither cut of a long one, behind its
/// eighth byte and before its last six, goes through a character.
pub proof fn txids_are_cut_between_characters(txid: Seq<char>)
    ensures
        ({
            let bytes = utf8::encode_utf8(txid);
            can_be_shortened(txid) <==> (bytes.len() > 16 ==> !(0x80 <= bytes[8] <= 0xbf) && !(0x80
                <= bytes[bytes.len() - 6] <= 0xbf))
        }),
{
    let bytes = utf8::encode_utf8(txid);
    utf8::encode_utf8_valid_utf8(txid);
    if bytes.len() > 16 {
        utf8::is_char_boundary_iff_not_is_continuation_byte(bytes, 8);
        utf8::is_char_boundary_iff_not_is_continuation_byte(bytes, bytes.len() - 6);
    }
}

} // verus!
