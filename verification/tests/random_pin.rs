//! Commands that are answered as disabled.

use apc_proxy::error::ProxyError;
use apc_proxy::handlers::thales::random_pin::RandomPinHandler;
use apc_proxy::handlers::Handler;

#[test]
fn command_code_registered() {
    assert!(RandomPinHandler.command_codes().contains(&"JA"));
}

#[test]
fn random_pin_unsupported_maps_to_68() {
    assert_eq!(
        ProxyError::Unsupported("JA".to_string()).payshield_code(),
        *b"68"
    );
}
