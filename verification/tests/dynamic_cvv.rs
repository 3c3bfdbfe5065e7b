//! Commands that are answered as disabled.

use apc_proxy::error::ProxyError;
use apc_proxy::handlers::thales::dynamic_cvv::DynamicCvvHandler;
use apc_proxy::handlers::Handler;

#[test]
fn dynamic_cvv_command_codes_registered() {
    let h = DynamicCvvHandler;
    assert!(h.command_codes().contains(&"QY"));
    assert!(h.command_codes().contains(&"PM"));
}

#[test]
fn dynamic_cvv_unsupported_maps_to_68() {
    assert_eq!(
        ProxyError::Unsupported("QY".to_string()).payshield_code(),
        *b"68"
    );
}
