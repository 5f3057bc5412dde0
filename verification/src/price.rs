//! Manual price alerts: level keys, shared price-level entries, the per-coin
//! and multi-coin books, direction resolution and the alert service.
pub mod alert;
pub mod book;
pub mod coin_book;
pub mod entry;
pub mod key;
pub mod resolve;
pub mod service;
pub mod ordered;
