# moneropay

The decisions of a self-hosted Monero payment service, verified with Verus.

- `src/exchange_rate.rs`: fiat amounts to piconero and back, exactly and never in the
  customer's favour by a fraction.
- `src/http/`: the public routes. `create_order.rs` places an order step by step,
  `public.rs` finds orders and refund addresses, `checkout.rs` makes the payment page.
- `src/templates.rs`, `src/script_text.rs`, `src/json.rs`: page templates, and values that
  are safe inside a `<script>` element. `src/template_tags.rs` and
  `src/inclusion.rs`: which templates come to an end.
- `src/boot.rs`, `src/wallets.rs`: the command line, the first tenant, the registered
  wallets and the supervision of background loops.
- `src/store.rs`: the records that the above read and fill. `src/decimal.rs` and
  `src/text.rs` hold digits and strings.

The library does no input or output. `app/` is the service around it: handlers, loops and
boot, over a `Deployment` that brings storage, key custody, nodes and webhook delivery.

Calls into `handlebars`, `serde_json`, `qrcode` and a few functions of the standard library
stand behind small functions whose doc comments say what is taken for granted of them.
