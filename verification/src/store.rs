//! The records that storage keeps, as far as the decisions here read or fill them.

use vstd::prelude::*;

verus! {

/// A merchant.
#[derive(Debug)]
pub struct Tenant {
    pub id: String,
    /// The name of the Monero network that this tenant is paid on.
    pub network: String,
    /// The sites that may place orders from a browser.
    pub allowed_origins: Vec<String>,
    pub order_expiry_seconds: i64,
    pub confirmations_required: u64,
    /// The directory of the merchant's own page templates.
    pub template_dir: Option<String>,
}

/// An order to be inserted.
#[derive(Debug)]
pub struct NewOrder {
    pub tenant_id: String,
    pub merchant_order_id: Option<String>,
    pub minor_index: u32,
    pub address: String,
    pub fiat_currency: String,
    pub fiat_amount: String,
    /// Piconero per whole unit of the currency, in decimal.
    pub exchange_rate: String,
    pub xmr_amount_piconero: u64,
    pub description: Option<String>,
    pub created_at: i64,
    pub expires_at: i64,
}

/// A stored order.
#[derive(Debug)]
pub struct Order {
    pub id: String,
    pub merchant_order_id: Option<String>,
    pub status: String,
    pub address: String,
    pub fiat_currency: String,
    pub fiat_amount: String,
    pub xmr_amount_piconero: u64,
    pub amount_received_piconero: u64,
    pub confirmations: u64,
    pub double_spend_detected_at: Option<i64>,
    pub description: Option<String>,
    pub expires_at: i64,
}

/// A payment that counts towards an order.
#[derive(Debug)]
pub struct Payment {
    pub txid: String,
    pub amount_piconero: u64,
    /// The block it was mined in; `None` while it is only in the mempool.
    pub block_height: Option<i64>,
}

/// A tenant to be created.
#[derive(Debug)]
pub struct NewTenant {
    pub key_custody_backend: String,
    pub sealed_key_material: Vec<u8>,
    pub primary_address: String,
    pub network: String,
    pub allowed_origins: Vec<String>,
    pub confirmations_required: Option<u64>,
    pub zero_conf_max_piconero: Option<u64>,
    pub order_expiry_seconds: Option<i64>,
}

} // verus!
