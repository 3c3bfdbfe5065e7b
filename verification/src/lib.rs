//! Verified core of a payment-HSM protocol proxy.

pub mod apc;
pub mod error;
pub mod handlers;
pub mod hsm_probe;
pub mod key_map;
pub mod protocol;
pub mod secret;
pub mod server;
pub mod text;
pub mod vendor;
pub mod verify;
pub mod verify_run;
