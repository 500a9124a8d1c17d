//! The Lightning node: what it reports, what it is asked for, and how its
//! answers are read.

pub mod config;
pub mod graph;
pub mod hex;
pub mod ldk_service;
pub mod node;
pub mod parse;
pub mod payments;
pub mod reports;
pub mod routing;
pub mod scid;
pub mod service;
