//! Order pricing, checkout pages and boot decisions of a self-hosted Monero payment
//! service.
//!
//! Everything here computes: it takes what storage, the network or the file system
//! answered as plain values and hands back the decision. The code that does the
//! input and output lives outside this crate.

pub mod boot;
pub mod decimal;
pub mod exchange_rate;
pub mod http;
pub mod inclusion;
pub mod json;
pub mod script_text;
pub mod store;
pub mod template_tags;
pub mod templates;
pub mod text;
pub mod wallets;
