//! Per-indicator evaluators.
pub mod atr_evaluator;
