//! Messages of the WebSocket feed in their first form; the order-book and
//! trade shapes are those of `ws::ws_recv`.
pub use crate::ws::ws_recv::{OrderBookL2, Trade, TradeSide, WsLevel};
