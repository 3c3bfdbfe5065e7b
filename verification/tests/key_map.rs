//! Resolution of key fields.

use apc_proxy::error::ProxyError;
use apc_proxy::key_map::{ApcKey, KeyBlockMeta, KeyDescriptor, KeyMap};

fn arn(n: &str) -> String {
    format!("arn:aws:payment-cryptography:us-east-1:000000000000:key/{n}")
}

#[test]
fn arn_passthrough() {
    let km = KeyMap::new(Vec::new());
    let id = arn("abc");
    assert_eq!(km.resolve(&id).unwrap(), id);
}

#[test]
fn alias_passthrough() {
    let km = KeyMap::new(Vec::new());
    assert_eq!(
        km.resolve("alias/zpk-inbound").unwrap(),
        "alias/zpk-inbound"
    );
}

#[test]
fn label_lookup() {
    let mut m = Vec::new();
    m.push(("MY_LABEL".to_string(), arn("xyz")));
    let km = KeyMap::new(m);
    assert!(km.resolve("MY_LABEL").unwrap().ends_with("/xyz"));
}

#[test]
fn label_miss_returns_keynotfound() {
    let km = KeyMap::new(Vec::new());
    assert!(matches!(
        km.resolve("UNKNOWN"),
        Err(ProxyError::KeyNotFound(_))
    ));
}

#[test]
fn descriptor_kcv_hit() {
    let mut km = KeyMap::new(Vec::new());
    km.index_keys(&vec![ApcKey {
        arn: arn("pin1"),
        attributes: Some((
            "TR31_P0_PIN_ENCRYPTION_KEY".to_string(),
            "TDES_2KEY".to_string(),
        )),
        kcv: "ABCDEF".to_string(),
        enabled: true,
    }]);
    let desc = KeyDescriptor {
        raw: "ignored".to_string(),
        block: Some(KeyBlockMeta {
            key_usage: "P0".to_string(),
            algorithm: 'T',
            kcv: Some("abcdef".to_string()), // case-insensitive
        }),
    };
    assert!(km.resolve_descriptor(&desc).unwrap().ends_with("/pin1"));
}

#[test]
fn descriptor_kcv_miss_does_not_fall_back_to_label() {
    // If a wrapped block has a KCV that isn't in the index, we don't silently
    // resolve via the label path — that could send the operation to the wrong key.
    let mut labels = Vec::new();
    labels.push(("S...".to_string(), arn("wrong")));
    let km = KeyMap::new(labels);
    let desc = KeyDescriptor {
        raw: "S...".to_string(),
        block: Some(KeyBlockMeta {
            key_usage: "P0".to_string(),
            algorithm: 'T',
            kcv: Some("DEADBE".to_string()),
        }),
    };
    assert!(matches!(
        km.resolve_descriptor(&desc),
        Err(ProxyError::KeyNotFound(_))
    ));
}

#[test]
fn descriptor_block_no_kcv_falls_back_to_label() {
    let mut labels = Vec::new();
    labels.push(("RAWBLOB".to_string(), arn("zpk")));
    let km = KeyMap::new(labels);
    let desc = KeyDescriptor {
        raw: "RAWBLOB".to_string(),
        block: Some(KeyBlockMeta {
            key_usage: "P0".to_string(),
            algorithm: 'T',
            kcv: None,
        }),
    };
    assert!(km.resolve_descriptor(&desc).unwrap().ends_with("/zpk"));
}
