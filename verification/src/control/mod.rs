//! Requests to control the node.

pub mod messages;
pub mod proceed;
pub mod request;
