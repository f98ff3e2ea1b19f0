//! The terminal's link to the payment service.
pub mod client;
pub mod pipe;
