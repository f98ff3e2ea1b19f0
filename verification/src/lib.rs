//! Decision logic of a BLE-connected payment terminal: keypad decoding, the
//! price entry on the LCD, the assembly of chunked payment messages and the
//! one-shot hand-out of encrypted values to connected peers.
pub mod buffers;
pub mod keypad;
pub mod encrypt;
pub mod state;
pub mod jinx;
pub mod gix;
pub mod cloud;
pub mod lcd;
