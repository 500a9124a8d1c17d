//! What the operations promise, in terms of what they are given and what they
//! give back.

pub mod access;
pub mod control;
pub mod encoding;
pub mod payments;
pub mod records;
pub mod relay;
pub mod reports;
pub mod requests;
pub mod results;
pub mod routes;
pub mod service;
pub mod stores;
pub mod texts;
