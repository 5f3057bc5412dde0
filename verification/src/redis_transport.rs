//! Subscription messages from the backend and alert messages back to it:
//! the message shapes and their conversion into subscription commands.
pub mod command;
pub mod convert;
pub mod incoming;
pub mod outgoing;
pub mod subscription_listener;
