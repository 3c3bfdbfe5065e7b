//! Commands that are answered as disabled.

use apc_proxy::error::ProxyError;
use apc_proxy::handlers::thales::diebold_pin::DieboldPinHandler;
use apc_proxy::handlers::Handler;

#[test]
fn diebold_pin_command_codes_registered() {
    let h = DieboldPinHandler;
    assert!(h.command_codes().contains(&"GA"));
    assert!(h.command_codes().contains(&"CE"));
}

#[test]
fn diebold_pin_unsupported_maps_to_68() {
    let e = ProxyError::Unsupported("GA".to_string());
    assert_eq!(e.payshield_code(), *b"68");
}
