//! Commands that are answered as disabled.

use apc_proxy::error::ProxyError;
use apc_proxy::handlers::thales::hmac::HmacHandler;
use apc_proxy::handlers::Handler;

#[test]
fn hmac_command_codes_registered() {
    let h = HmacHandler;
    assert!(h.command_codes().contains(&"LQ"));
    assert!(h.command_codes().contains(&"LS"));
}

#[test]
fn hmac_unsupported_maps_to_68() {
    assert_eq!(
        ProxyError::Unsupported("LQ".to_string()).payshield_code(),
        *b"68"
    );
}
