//! What the service remembers between requests.

pub mod address_store;
pub mod forwarding_store;
pub mod offer_store;
pub mod page;
pub mod stores;
pub mod subscription_store;
pub mod text_map;
