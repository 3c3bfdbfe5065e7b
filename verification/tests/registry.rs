//! The command table.

use apc_proxy::handlers::futurex::FuturexModule;
use apc_proxy::handlers::registry::{Registered, Registry};
use apc_proxy::handlers::thales::heartbeat::HeartbeatHandler;
use apc_proxy::handlers::thales::{ThalesHandler, ThalesModule};
use apc_proxy::handlers::Handler;
use apc_proxy::vendor::VendorModule;

#[test]
fn every_vendor_code_is_reached() {
    let registry = Registry::build();
    for h in ThalesModule.handlers() {
        for code in h.command_codes() {
            match registry.get(code.as_bytes()) {
                Some(Registered::Vendor(found)) => {
                    assert!(found.command_codes().contains(&code))
                }
                _ => panic!("{} is not reached", code),
            }
        }
    }
    assert!(registry.get(b"ZZ").is_none());
    assert!(registry.get(b"").is_none());
}

#[test]
fn unavailable_commands_stand_beside_the_vendor() {
    let registry = Registry::build();
    assert!(matches!(
        registry.get(b"B0"),
        Some(Registered::Unavailable(_))
    ));
    let futurex = Registry::for_module(&FuturexModule);
    assert!(matches!(futurex.get(b"ECHO"), Some(Registered::Vendor(_))));
}

#[test]
fn codes_are_listed_in_order() {
    let codes = Registry::build().command_codes();
    assert!(codes.windows(2).all(|w| w[0] < w[1]));
    assert!(codes.contains(&b"B2".to_vec()));
}

#[test]
fn registering_twice_is_registering_once() {
    let mut registry = Registry::build();
    let before = registry.command_codes();
    registry.register(ThalesHandler::Heartbeat(HeartbeatHandler));
    registry.register(ThalesHandler::Heartbeat(HeartbeatHandler));
    assert_eq!(registry.command_codes(), before);
    assert!(matches!(
        registry.get(b"B2"),
        Some(Registered::Vendor(ThalesHandler::Heartbeat(_)))
    ));
}

#[test]
fn codes_belong_to_their_handlers() {
    let registry = Registry::build();
    for code in registry.command_codes() {
        let handler = registry.get(&code).expect("listed");
        let own = handler.command_codes();
        assert!(own.iter().any(|c| c.as_bytes() == code.as_slice()));
    }
}
