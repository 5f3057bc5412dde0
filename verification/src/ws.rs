//! Messages exchanged with the exchange's WebSocket feed.
pub mod ws_recv;
pub mod ws_send;
