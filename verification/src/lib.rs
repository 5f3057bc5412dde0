//! A verified core for a market-data alert engine: coin and candle types,
//! shared price-level alert books, indicator rules and the ATR breakout
//! evaluators, subscription-message conversion, WebSocket message types and
//! a small HTTP request/response model.
pub mod text;
pub mod types;
pub mod price;
pub mod price_alert;
pub mod price_alert_book;
pub mod indicator_rules;
pub mod indicators;
pub mod candle_store;
pub mod http;
pub mod evaluate;
pub mod event;
pub mod redis_transport;
pub mod startup;
pub mod ws;
pub mod ws_recv;
pub mod ws_send;
