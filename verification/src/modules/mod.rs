//! Providers, the diff engine and the notification transports.

pub mod batches;
pub mod cloudflare;
pub mod diff_laws;
pub mod domains;
pub mod ntfy;
pub mod porkbun;
pub mod telegram;
pub mod whois;
