//! Requests to the payment service.
use vstd::prelude::*;

verus! {

/// The Wi-Fi credentials the terminal is built with.
pub struct Config {
    pub wifi_ssid: &'static str,
    pub wifi_psk: &'static str,
}

/// The GET requests the terminal makes.
#[derive(Debug, Clone, Copy, PartialEq, Eq)]
pub enum GET {
    /// Whether the payment service is up.
    Health,
}

/// A response is read only when its HTTP status is a success (200..=299);
/// any other status fails the request.
pub fn status_succeeded(status: u16) -> (r: bool)
    ensures
        r == (200 <= status <= 299),
{
    200 <= status && status <= 299
}

} // verus!
