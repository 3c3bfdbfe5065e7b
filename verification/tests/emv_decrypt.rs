//! The K0 field layout.

use apc_proxy::error::ProxyError;
use apc_proxy::handlers::thales::emv_decrypt::parse_k0;

fn single_key() -> Vec<u8> {
    b"1234567890ABCDEF".to_vec()
}

// EMV pre-formatted (rightmost 16 of PAN||PSN) "1234567890123401" -> PAN 12345678901234, Seq 01
fn pan_bcd() -> [u8; 8] {
    [0x12, 0x34, 0x56, 0x78, 0x90, 0x12, 0x34, 0x01]
}

fn k0_payload(key: &[u8], data: &[u8]) -> Vec<u8> {
    let mut v = b"00E".to_vec(); // key type
    v.extend_from_slice(key);
    v.extend_from_slice(&pan_bcd());
    v.extend_from_slice(&[0x00, 0x2A]); // ATC = 0x002A
    let len = data.len() as u16;
    v.extend_from_slice(&len.to_be_bytes());
    v.extend_from_slice(data);
    v
}

#[test]
fn k0_parse_ok() {
    let data = [0xDE, 0xAD, 0xBE, 0xEF, 0xCA, 0xFE, 0x00, 0x01];
    let payload = k0_payload(&single_key(), &data);
    let f = parse_k0(&payload).unwrap();
    assert_eq!(f.key_id.raw, "1234567890ABCDEF");
    assert_eq!(f.pan, "12345678901234");
    assert_eq!(f.pan_seq, "01");
    assert_eq!(f.atc, "002A");
    assert_eq!(f.cipher_text.as_str(), "DEADBEEFCAFE0001");
}

#[test]
fn k0_session_derivation_data() {
    let data = [0xAB, 0xCD];
    let payload = k0_payload(&single_key(), &data);
    let f = parse_k0(&payload).unwrap();
    // ATC 002A + 12 zero hex chars = 16 chars total
    let sdd = format!("{}000000000000", f.atc);
    assert_eq!(sdd, "002A000000000000");
    assert_eq!(sdd.len(), 16);
}

#[test]
fn k0_parse_double_key() {
    let mut key = vec![b'U'];
    key.extend_from_slice(b"1234567890ABCDEF1234567890ABCDEF");
    let payload = k0_payload(&key, &[0x01, 0x02]);
    let f = parse_k0(&payload).unwrap();
    assert_eq!(f.key_id.raw, "U1234567890ABCDEF1234567890ABCDEF");
}

#[test]
fn k0_rejects_truncated_data() {
    let mut payload = k0_payload(&single_key(), &[0xDE, 0xAD]);
    // Corrupt the data length to claim 8 bytes but only 2 present
    let data_len_pos = 3 + 16 + 8 + 2; // key_type + single_key + pan_seq + atc
    payload[data_len_pos] = 0x00;
    payload[data_len_pos + 1] = 0x08;
    payload.truncate(data_len_pos + 2 + 2); // keep only 2 data bytes
    assert!(matches!(
        parse_k0(&payload),
        Err(ProxyError::MalformedPayload(_))
    ));
}
