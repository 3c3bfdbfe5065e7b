//! The CK field layout.

use apc_proxy::error::ProxyError;
use apc_proxy::handlers::thales::common::{parse_bdk, parse_legacy_key};
use apc_proxy::handlers::thales::dukpt_pin_verify::parse_ck;

const KSN_DESC_LEN: usize = 3;
const KSN_HEX_LEN: usize = 20;
const PIN_BLOCK_LEN: usize = 16;
const CHECK_LEN: usize = 2;
const ACCOUNT_LEN: usize = 12;
const DECIM_TABLE_LEN: usize = 16;
const PIN_VAL_DATA_LEN: usize = 12;
const IBM_OFFSET_LEN: usize = 12;

fn bdk_single() -> Vec<u8> {
    b"12345678901234561234567890123456".to_vec() // 32 chars
}

fn pvk_single() -> Vec<u8> {
    b"1234567890ABCDEF".to_vec() // 16 chars
}

fn ksn_desc_and_ksn() -> Vec<u8> {
    let mut v = b"00A".to_vec(); // 3-char descriptor
    v.extend_from_slice(b"12345678901234567890"); // 20-char KSN
    v
}

#[test]
fn ck_parse_min_fields() {
    let mut payload = bdk_single(); // 32
    payload.extend_from_slice(&pvk_single()); // 16
    payload.extend_from_slice(&ksn_desc_and_ksn()); // 23
    payload.extend_from_slice(b"1234567890123456"); // PIN block 16
    payload.extend_from_slice(b"04"); // check length 2
    payload.extend_from_slice(b"123456789012"); // account 12
    payload.extend_from_slice(b"1234567890123456"); // decim table 16
    payload.extend_from_slice(b"NNNNNNNNNNNN"); // pin val data 12
    payload.extend_from_slice(b"123456789012"); // offset 12

    let (bdk_id, bdk_len) = parse_bdk(&payload, 0).unwrap();
    assert_eq!(bdk_len, 32);
    let (pvk_id, pvk_len) = parse_legacy_key(&payload, bdk_len).unwrap();
    assert_eq!(pvk_len, 16);
    let ksn_start = bdk_len + pvk_len + KSN_DESC_LEN;
    let pin_start = ksn_start + KSN_HEX_LEN;
    let check_start = pin_start + PIN_BLOCK_LEN;
    let account_start = check_start + CHECK_LEN;
    let decim_start = account_start + ACCOUNT_LEN;
    let pin_val_start = decim_start + DECIM_TABLE_LEN;
    let offset_start = pin_val_start + PIN_VAL_DATA_LEN;
    let min_len = offset_start + IBM_OFFSET_LEN;
    assert_eq!(payload.len(), min_len);
    let f = parse_ck(&payload).ok().unwrap();
    assert_eq!(f.bdk_id.raw, bdk_id.raw);
    assert_eq!(f.pvk_id.raw, pvk_id.raw);
    assert_eq!(f.ksn, "12345678901234567890");
    assert_eq!(f.pin_block.as_str(), "1234567890123456");
    assert_eq!(f.account, "123456789012");
    assert_eq!(f.decim_table, "1234567890123456");
    assert_eq!(f.pin_val_data, "NNNNNNNNNNNN");
    assert_eq!(f.offset, "123456789012");
}

#[test]
fn ck_rejects_k_prefix_decim_table() {
    let mut payload = bdk_single();
    payload.extend_from_slice(&pvk_single());
    payload.extend_from_slice(&ksn_desc_and_ksn());
    payload.extend_from_slice(b"1234567890123456"); // PIN block
    payload.extend_from_slice(b"04"); // check length
    payload.extend_from_slice(b"123456789012"); // account
    payload.push(b'K'); // K-prefix decim table
                        // doesn't matter what follows — handler rejects on prefix

    let (_, bdk_len) = parse_bdk(&payload, 0).unwrap();
    let (_, pvk_len) = parse_legacy_key(&payload, bdk_len).unwrap();
    let ksn_start = bdk_len + pvk_len + KSN_DESC_LEN;
    let pin_start = ksn_start + KSN_HEX_LEN;
    let check_start = pin_start + PIN_BLOCK_LEN;
    let account_start = check_start + CHECK_LEN;
    let decim_start = account_start + ACCOUNT_LEN;
    assert_eq!(payload.get(decim_start), Some(&b'K'));
    assert!(matches!(
        parse_ck(&payload),
        Err(ProxyError::MalformedPayload(_))
    ));
}
