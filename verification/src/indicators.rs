//! Technical indicators computed from fixed-point candles.
pub mod atr;
pub mod evaluate_indicators;
