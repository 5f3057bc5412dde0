//! Evaluation of price moves and indicator rules into alerts.
pub mod spike_gate;
pub mod evaluators;
pub mod event_evaluator;
pub mod evaluate_atr;
pub mod evaluate_indicators;
