//! Evaluators of price moves and indicator rules.
pub mod indicator_evaluator;
pub mod indicators;
pub mod price_evaluator;
