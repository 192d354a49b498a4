//! The prices that Porkbun asks for each top-level domain.

use vstd::prelude::*;

verus! {

#[derive(Debug)]
pub struct PorkbunPricingConfig {
    pub enabled: bool,
    pub interval: Option<String>,
}

/// The prices of one top-level domain, in dollars, as decimal texts.
#[derive(Debug)]
pub struct PorkbunTLDPrice {
    pub registration: String,
    pub renewal: String,
    pub transfer: String,
    pub coupons: Vec<String>,
    pub special_type: Option<String>,
}

/// The answer to a request for the prices: each top-level domain with its
/// prices.
#[derive(Debug)]
pub struct PorkbunTLDPriceResponse {
    pub status: String,
    pub pricing: Vec<(String, PorkbunTLDPrice)>,
}

} // verus!
