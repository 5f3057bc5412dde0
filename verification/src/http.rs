//! A small HTTP/1.1 model: requests parsed from their lines, responses
//! formatted as text.
pub mod headers;
pub mod http_server;
pub mod request;
pub mod response;
