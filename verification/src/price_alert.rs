//! Shared manual price alerts held per coin, with subscriber counting.
pub mod alert_book;
