//! Carrying out the requests to the wallet.

pub mod execute;
pub mod info;
pub mod proceed;
pub mod records;
pub mod request;
pub mod validate;
