//! What goes over the relay: requests and their answers, grants, notifications
//! and what the service tells of itself.

pub mod event;
pub mod exchange;
pub mod grants;
pub mod info;
pub mod notices;
pub mod publish;
