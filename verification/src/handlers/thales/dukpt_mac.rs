//! GW: generate or verify a MAC under a DUKPT key.

use vstd::prelude::*;
use vstd::string::*;
#[allow(unused_imports)]
use vstd::utf8::{
    decode_utf8, encode_utf8, encode_utf8_decode_utf8, encode_utf8_valid_utf8, is_ascii_chars,
    is_ascii_chars_encode_utf8, valid_utf8,
};

#[allow(unused_imports)]
use crate::apc::ApcReply;
use crate::apc::{ApcCall, MacAlgorithm, MacScheme};
#[allow(unused_imports)]
use crate::error;
use crate::error::{Failure, ProxyError};
#[allow(unused_imports)]
use crate::handlers;
use crate::handlers::grounding::Evidence;
#[allow(unused_imports)]
use crate::handlers::thales::common;
use crate::handlers::thales::common::{
    field_text, malformed, parse_bdk, parse_ksn_with_descriptor, DukptDerivationType,
};
use crate::handlers::{fail, Finish, Handler, Pending, Step, StepView};
use crate::key_map::{KeyDescriptor, KeyMap, KeyTable};
use crate::secret::Secret;
#[allow(unused_imports)]
use crate::text;
use crate::text::{byte_text, decimal_text, fits, owned, same_text, utf8, word_of};

verus! {

/// What a GW command asks for.
pub struct GwFields<T = String> {
    pub is_verify: bool,
    pub mac_size_bytes: usize,
    /// `ISO9797_ALG1`, `ISO9797_ALG3` or `CMAC`.
    pub algo: T,
    pub bdk_id: KeyDescriptor<T>,
    pub ksn: T,
    pub deriv_type: DukptDerivationType,
    /// The message in hexadecimal.
    pub message_hex: T,
    /// The MAC to hold the message against, for a verification.
    pub mac_to_verify: Option<T>,
}

impl View for GwFields<String> {
    type V = GwFields<Seq<char>>;

    open spec fn view(&self) -> GwFields<Seq<char>> {
        GwFields {
            is_verify: self.is_verify,
            mac_size_bytes: self.mac_size_bytes,
            algo: self.algo@,
            bdk_id: self.bdk_id@,
            ksn: self.ksn@,
            deriv_type: self.deriv_type,
            message_hex: self.message_hex@,
            mac_to_verify: crate::key_map::maybe(self.mac_to_verify),
        }
    }
}

/// The algorithm of an algorithm digit.
pub open spec fn gw_algorithm(byte: u8) -> Result<Seq<char>, Failure> {
    if byte == '1' as u8 {
        Ok("ISO9797_ALG1"@)
    } else if byte == '3' as u8 {
        Ok("ISO9797_ALG3"@)
    } else if byte == '6' as u8 {
        Ok("CMAC"@)
    } else {
        Err(ProxyError::UnsupportedMacMode(seq![byte as char]))
    }
}

/// A GW payload: 0 mode (`0` generate, `1` verify), 1 input format (`1` only),
/// 2 MAC size (`0` four bytes, `1` two), 3 algorithm, 4 padding, 5 base derivation
/// key; then the key serial number with its descriptor, the message length in
/// bytes (four hexadecimal digits), the message in hexadecimal, and for mode `1`
/// the MAC.
pub open spec fn gw_fields(p: Seq<u8>) -> Result<GwFields<Seq<char>>, Failure> {
    let size: usize = if p[2] == '0' as u8 {
        4
    } else {
        2
    };
    let bdk = common::bdk_key(p, 5);
    let a = 5 + (bdk->Ok_0).1;
    let ksn = common::ksn_field(p, a);
    let b = a + (ksn->Ok_0).1;
    let len_bytes = p.subrange(b, b + 4);
    let len_text = decode_utf8(len_bytes);
    let len = text::word(len_text, 16);
    let end = b + 4 + 2 * len->0;
    if p.len() < 5 {
        error::bad("GW: payload too short: "@ + text::decimal(p.len()))
    } else if p[0] != '0' as u8 && p[0] != '1' as u8 {
        error::bad(
            "GW: invalid mode '"@ + seq![p[0] as char] + "' (0=generate, 1=verify)"@,
        )
    } else if p[1] != '1' as u8 {
        error::bad(
            "GW: unsupported input format '"@ + seq![p[1] as char] + "' (only '1'=hex)"@,
        )
    } else if p[2] != '0' as u8 && p[2] != '1' as u8 {
        error::bad("GW: unsupported MAC size '"@ + seq![p[2] as char] + "'"@)
    } else if gw_algorithm(p[3]) is Err {
        Err(gw_algorithm(p[3])->Err_0)
    } else if bdk is Err {
        Err(bdk->Err_0)
    } else if ksn is Err {
        Err(ksn->Err_0)
    } else if p.len() < b + 4 {
        error::bad("GW: message length field missing"@)
    } else if !valid_utf8(len_bytes) {
        error::bad("GW: msg length not ASCII"@)
    } else if len is None {
        error::bad("GW: invalid msg length '"@ + len_text + "'"@)
    } else if p.len() < end {
        error::bad(
            "GW: payload shorter than declared message: need "@ + text::decimal(end as nat)
                + " got "@ + text::decimal(p.len()),
        )
    } else if p[0] == '1' as u8 && p.len() < end + 2 * size {
        error::bad("GW: MAC field missing for verify"@)
    } else {
        Ok(
            GwFields {
                is_verify: p[0] == '1' as u8,
                mac_size_bytes: size,
                algo: gw_algorithm(p[3])->Ok_0,
                bdk_id: (bdk->Ok_0).0,
                ksn: (ksn->Ok_0).0,
                deriv_type: (ksn->Ok_0).2,
                message_hex: common::text_at(p, b + 4, 2 * len->0),
                mac_to_verify: if p[0] == '1' as u8 {
                    Some(common::text_at(p, end, 2 * size))
                } else {
                    None
                },
            },
        )
    }
}

fn algorithm_of(byte: u8) -> (r: Result<String, ProxyError>)
    ensures
        error::outcome(r) == gw_algorithm(byte),
{
    if byte == '1' as u8 {
        Ok(owned("ISO9797_ALG1"))
    } else if byte == '3' as u8 {
        Ok(owned("ISO9797_ALG3"))
    } else if byte == '6' as u8 {
        Ok(owned("CMAC"))
    } else {
        Err(ProxyError::UnsupportedMacMode(byte_text(byte)))
    }
}

/// Parse the payload of GW.
pub fn parse_gw(payload: &[u8]) -> (r: Result<GwFields, ProxyError>)
    ensures
        error::outcome(r) == gw_fields(payload@),
{
    if payload.len() < 5 {
        return Err(
            ProxyError::MalformedPayload(
                owned("GW: payload too short: ").concat(
                    decimal_text(payload.len() as u128).as_str(),
                ),
            ),
        );
    }
    if payload[0] != '0' as u8 && payload[0] != '1' as u8 {
        return Err(
            ProxyError::MalformedPayload(
                owned("GW: invalid mode '").concat(byte_text(payload[0]).as_str()).concat(
                    "' (0=generate, 1=verify)",
                ),
            ),
        );
    }
    let is_verify: bool = payload[0] == '1' as u8;
    if payload[1] != '1' as u8 {
        return Err(
            ProxyError::MalformedPayload(
                owned("GW: unsupported input format '").concat(
                    byte_text(payload[1]).as_str(),
                ).concat("' (only '1'=hex)"),
            ),
        );
    }
    let mac_size_bytes: usize = if payload[2] == '0' as u8 {
        4
    } else if payload[2] == '1' as u8 {
        2
    } else {
        return Err(
            ProxyError::MalformedPayload(
                owned("GW: unsupported MAC size '").concat(byte_text(payload[2]).as_str()).concat(
                    "'",
                ),
            ),
        );
    };
    let algo: String = algorithm_of(payload[3])?;
    let (bdk_id, bdk_consumed) = parse_bdk(payload, 5)?;
    let a: usize = 5 + bdk_consumed;
    let (ksn, ksn_consumed, deriv_type) = parse_ksn_with_descriptor(payload, a)?;
    let b: usize = a + ksn_consumed;
    if !fits(payload, b, 4) {
        return Err(malformed("GW: message length field missing"));
    }
    let len_text: String = match utf8(&payload[b..b + 4]) {
        Some(t) => t,
        None => {
            return Err(malformed("GW: msg length not ASCII"));
        },
    };
    let len: usize = match word_of(len_text.as_str(), 16) {
        Some(n) => n,
        None => {
            return Err(
                ProxyError::MalformedPayload(
                    owned("GW: invalid msg length '").concat(len_text.as_str()).concat("'"),
                ),
            );
        },
    };
    let start: usize = b + 4;
    if len > (payload.len() - start) / 2 {
        return Err(
            ProxyError::MalformedPayload(
                owned("GW: payload shorter than declared message: need ").concat(
                    decimal_text(start as u128 + 2 * len as u128).as_str(),
                ).concat(" got ").concat(decimal_text(payload.len() as u128).as_str()),
            ),
        );
    }
    let end: usize = start + 2 * len;
    let message_hex: String = field_text(payload, start, 2 * len);
    let mac_to_verify: Option<String> = if is_verify {
        if !fits(payload, end, 2 * mac_size_bytes) {
            return Err(malformed("GW: MAC field missing for verify"));
        }
        Some(field_text(payload, end, 2 * mac_size_bytes))
    } else {
        None
    };
    Ok(
        GwFields {
            is_verify,
            mac_size_bytes,
            algo,
            bdk_id,
            ksn,
            deriv_type,
            message_hex,
            mac_to_verify,
        },
    )
}

/// The MAC algorithm that a GW algorithm name stands for.
pub open spec fn gw_apc_algorithm(name: Seq<char>) -> Option<MacAlgorithm> {
    if name == "ISO9797_ALG1"@ {
        Some(MacAlgorithm::Iso9797Algorithm1)
    } else if name == "ISO9797_ALG3"@ {
        Some(MacAlgorithm::Iso9797Algorithm3)
    } else if name == "CMAC"@ {
        Some(MacAlgorithm::Cmac)
    } else {
        None
    }
}

fn apc_algorithm_of(name: &str) -> (r: Option<MacAlgorithm>)
    ensures
        r == gw_apc_algorithm(name@),
{
    if same_text(name, "ISO9797_ALG1") {
        Some(MacAlgorithm::Iso9797Algorithm1)
    } else if same_text(name, "ISO9797_ALG3") {
        Some(MacAlgorithm::Iso9797Algorithm3)
    } else if same_text(name, "CMAC") {
        Some(MacAlgorithm::Cmac)
    } else {
        None
    }
}

/// What a GW command leads to.
pub open spec fn gw_step(p: Seq<u8>, keys: KeyTable) -> StepView {
    match gw_fields(p) {
        Err(e) => handlers::failed(e),
        Ok(f) => match keys.resolved_field(f.bdk_id) {
            Err(e) => handlers::failed(e),
            Ok(arn) => match gw_apc_algorithm(f.algo) {
                None => handlers::failed(ProxyError::UnsupportedMacMode(f.algo)),
                Some(algorithm) => {
                    let scheme = MacScheme::DukptBidirectional {
                        algorithm,
                        ksn: f.ksn,
                        derivation: f.deriv_type,
                    };
                    match f.mac_to_verify {
                        Some(mac) => handlers::ask(
                            ApcCall::VerifyMac { key: arn, message: f.message_hex, mac, scheme },
                            Finish::Accepted,
                        ),
                        None => handlers::ask(
                            ApcCall::GenerateMac {
                                key: arn,
                                message: f.message_hex,
                                scheme,
                                mac_length: None,
                            },
                            Finish::Mac { chars: (2 * f.mac_size_bytes) as usize },
                        ),
                    }
                },
            },
        },
    }
}

/// payShield GW: generate or verify a MAC under a DUKPT key, 3DES or AES by the
/// length of the key serial number.
pub struct DukptMacHandler;

impl Handler for DukptMacHandler {
    open spec fn codes(&self) -> Seq<Seq<char>> {
        seq!["GW"@]
    }

    open spec fn step(&self, command_code: Seq<u8>, payload: Seq<u8>, keys: KeyTable) -> StepView {
        gw_step(payload, keys)
    }

    open spec fn evidence(&self) -> Seq<Evidence> {
        Seq::empty()
    }

    fn command_codes(&self) -> Vec<&'static str> {
        let r: Vec<&'static str> = vec!["GW"];
        assert(text::texts(r@) =~= self.codes());
        r
    }

    fn start(&self, command_code: &[u8], payload: &[u8], keys: &KeyMap) -> Step {
        let fields: GwFields = match parse_gw(payload) {
            Ok(f) => f,
            Err(e) => {
                return fail(&e);
            },
        };
        let key: String = match keys.resolve_descriptor(&fields.bdk_id) {
            Ok(a) => owned(a),
            Err(e) => {
                return fail(&e);
            },
        };
        let algorithm: MacAlgorithm = match apc_algorithm_of(fields.algo.as_str()) {
            Some(a) => a,
            None => {
                return fail(&ProxyError::UnsupportedMacMode(fields.algo));
            },
        };
        let scheme: MacScheme = MacScheme::DukptBidirectional {
            algorithm,
            ksn: fields.ksn,
            derivation: fields.deriv_type,
        };
        let message: Secret = Secret::new(fields.message_hex);
        let chars: usize = 2 * fields.mac_size_bytes;
        match fields.mac_to_verify {
            Some(mac) => Step::Call {
                call: ApcCall::VerifyMac { key, message, mac, scheme },
                then: Pending::Finish(Finish::Accepted),
            },
            None => Step::Call {
                call: ApcCall::GenerateMac { key, message, scheme, mac_length: None },
                then: Pending::Finish(Finish::Mac { chars }),
            },
        }
    }

    fn grounding(&self) -> Vec<Evidence> {
        Vec::new()
    }
}

/// Where the message of a GW payload ends.
pub open spec fn gw_end(p: Seq<u8>) -> int {
    let a = 5 + (common::bdk_key(p, 5)->Ok_0).1;
    let b = a + (common::ksn_field(p, a)->Ok_0).1;
    b + 4 + 2 * text::word(decode_utf8(p.subrange(b, b + 4)), 16)->0
}

/// A DUKPT MAC is verified as it was generated: a GW payload that generates, with mode
/// `1` and the MAC behind it, is read as the same key, serial number, algorithm and
/// message, and that MAC to verify.
pub proof fn a_dukpt_mac_is_verified_as_it_was_generated(p: Seq<u8>, mac: Seq<char>)
    requires
        gw_fields(p) matches Ok(f) && !f.is_verify && mac.len() == 2 * f.mac_size_bytes,
        gw_end(p) == p.len(),
        is_ascii_chars(mac),
    ensures
        gw_fields(p.update(0, '1' as u8) + encode_utf8(mac)) == Ok::<_, Failure>(
            GwFields { is_verify: true, mac_to_verify: Some(mac), ..gw_fields(p)->Ok_0 },
        ),
{
    let tail = encode_utf8(mac);
    let m = p.update(0, '1' as u8);
    let q = m + tail;
    let a = 5 + (common::bdk_key(p, 5)->Ok_0).1;
    common::key_fields_lie_within(p, 5);
    assert(common::rest(m, 5) =~= common::rest(p, 5));
    common::fields_begin_where_they_begin(m, p, 5);
    common::key_fields_end_where_they_end(m, tail, 5);
    assert(common::rest(m, a) =~= common::rest(p, a));
    common::fields_begin_where_they_begin(m, p, a);
    common::key_serial_numbers_end_where_they_end(m, tail, a);
    let b = a + (common::ksn_field(p, a)->Ok_0).1;
    let end = gw_end(p);
    text::numbers_are_natural(decode_utf8(p.subrange(b, b + 4)), 16);
    is_ascii_chars_encode_utf8(mac);
    encode_utf8_valid_utf8(mac);
    encode_utf8_decode_utf8(mac);
    assert(q.subrange(b, b + 4) =~= p.subrange(b, b + 4));
    assert(q.subrange(b + 4, end) =~= p.subrange(b + 4, end));
    assert(q.subrange(end, end + mac.len()) =~= tail);
}

/// A GW payload is forwarded field by field: in mode `0` a MAC of the message is generated,
/// in mode `1` the one behind it is verified, by the algorithm of the digit, under a working
/// key of the key serial number: 3DES for one of twenty digits, AES for one of twenty-four.
/// Eight characters of a MAC that was generated are answered, or four for the short size.
#[verifier::rlimit(30)]
pub proof fn a_dukpt_mac_is_forwarded_field_by_field(
    mode: u8,
    size: u8,
    digit: u8,
    padding: u8,
    algorithm: MacAlgorithm,
    bdk: Seq<u8>,
    ksn: Seq<u8>,
    length: Seq<u8>,
    data: Seq<u8>,
    mac: Seq<u8>,
    more: Seq<u8>,
    keys: KeyTable,
    arn: Seq<char>,
    out: Seq<char>,
)
    requires
        mode == '0' as u8 || mode == '1' as u8,
        size == '0' as u8 || size == '1' as u8,
        ({
            ||| digit == '1' as u8 && algorithm == MacAlgorithm::Iso9797Algorithm1
            ||| digit == '3' as u8 && algorithm == MacAlgorithm::Iso9797Algorithm3
            ||| digit == '6' as u8 && algorithm == MacAlgorithm::Cmac
        }),
        common::bdk_key_is(keys, bdk, arn),
        common::is_ksn(ksn),
        length.len() == 4,
        valid_utf8(length),
        text::word(decode_utf8(length), 16) == Some(data.len() as int / 2),
        data.len() % 2 == 0,
        mac.len() == if size == '0' as u8 {
            8nat
        } else {
            4
        },
        encode_utf8(out).len() >= 8,
    ensures
        ({
            let tail = if mode == '1' as u8 {
                mac + more
            } else {
                more
            };
            let scheme = MacScheme::DukptBidirectional {
                algorithm,
                ksn: text::lossy_text(ksn.skip(3)),
                derivation: if ksn.len() == 23 {
                    DukptDerivationType::Tdes2Key
                } else {
                    DukptDerivationType::Aes128
                },
            };
            let p = seq![mode, '1' as u8, size, digit, padding] + bdk + ksn + length + data + tail;
            &&& DukptMacHandler.step(text::ascii_2('G', 'W'), p, keys) matches Step::Call {
                call,
                then,
            }
            &&& call == (if mode == '0' as u8 {
                ApcCall::GenerateMac {
                    key: arn,
                    message: text::lossy_text(data),
                    scheme,
                    mac_length: None,
                }
            } else {
                ApcCall::VerifyMac {
                    key: arn,
                    message: text::lossy_text(data),
                    mac: text::lossy_text(mac),
                    scheme,
                }
            })
            &&& mode == '0' as u8 ==> handlers::resumed(then, ApcReply::Mac(out)) == StepView::Done(
                handlers::answered(encode_utf8(out).take(mac.len() as int)),
            )
            &&& mode == '1' as u8 ==> handlers::resumed(then, ApcReply::Accepted) == StepView::Done(
                handlers::answered(Seq::empty()),
            )
            &&& mode == '1' as u8 ==> handlers::resumed(
                then,
                ApcReply::VerificationFailed,
            ) == StepView::Done(
                handlers::refused(text::ascii_2('0', '1')),
            )
        }),
{
    let tail = if mode == '1' as u8 {
        mac + more
    } else {
        more
    };
    lemma_gw_names_differ();
    let p = seq![mode, '1' as u8, size, digit, padding] + bdk + ksn + length + data + tail;
    assert(common::bdk_key(p, 5) == common::bdk_key(bdk, 0)) by {
        let before = seq![mode, '1' as u8, size, digit, padding];
        let behind = ksn + length + data + tail;
        assert(p =~= before + bdk + behind);
        common::key_fields_are_read_in_place(before, bdk, behind);
    }
    common::key_fields_lie_within(bdk, 0);
    let a = 5 + bdk.len() as int;
    assert(common::ksn_field(p, a) == common::ksn_field(ksn, 0)) by {
        let before = seq![mode, '1' as u8, size, digit, padding] + bdk;
        let behind = length + data + tail;
        assert(p =~= before + ksn + behind);
        common::key_serial_numbers_are_read_in_place(before, ksn, behind);
    }
    common::key_serial_numbers_go_by_their_length(ksn);
    let b = a + ksn.len() as int;
    assert(p.subrange(b, b + 4) =~= length);
    let q = b + 4 + data.len() as int;
    assert(p.subrange(b + 4, q) =~= data);
    assert(p[0] == mode && p[1] == '1' as u8 && p[2] == size && p[3] == digit);
    if mode == '1' as u8 {
        assert(p.subrange(q, q + mac.len() as int) =~= mac);
    }
}

proof fn lemma_gw_names_differ()
    ensures
        "ISO9797_ALG1"@ != "ISO9797_ALG3"@,
        "ISO9797_ALG1"@ != "CMAC"@,
        "ISO9797_ALG3"@ != "CMAC"@,
{
    reveal_strlit("ISO9797_ALG1");
    reveal_strlit("ISO9797_ALG3");
    reveal_strlit("CMAC");
    assert("ISO9797_ALG1"@[11] == '1' && "ISO9797_ALG3"@[11] == '3' && "CMAC"@.len() == 4);
}

/// A GW command leads to a call only for flags that are known, and only if its payload holds
/// the message and, in mode `1`, the MAC. What is unknown or cut short is answered with code
/// `15`, a key that is not found with `10`.
pub proof fn only_whole_payloads_lead_to_a_call(p: Seq<u8>, keys: KeyTable)
    ensures
        ({
            let a = 5 + (common::bdk_key(p, 5)->Ok_0).1;
            let b = a + (common::ksn_field(p, a)->Ok_0).1;
            let n = text::word(decode_utf8(p.subrange(b, b + 4)), 16);
            let step = DukptMacHandler.step(text::ascii_2('G', 'W'), p, keys);
            &&& match step {
                Step::Call { call, .. } => {
                    &&& p[0] == '0' as u8 || p[0] == '1' as u8
                    &&& p[1] == '1' as u8
                    &&& p[2] == '0' as u8 || p[2] == '1' as u8
                    &&& p[3] == '1' as u8 || p[3] == '3' as u8 || p[3] == '6' as u8
                    &&& common::bdk_key(p, 5) is Ok
                    &&& common::ksn_field(p, a) is Ok
                    &&& n is Some
                    &&& p.len() >= b + 4 + 2 * n->0
                    &&& p[0] == '1' as u8 && p[2] == '0' as u8 ==> p.len() >= b + 12 + 2 * n->0
                    &&& p[0] == '1' as u8 && p[2] == '1' as u8 ==> p.len() >= b + 8 + 2 * n->0
                    &&& call is VerifyMac <==> p[0] == '1' as u8
                },
                Step::Done(r) => r.payload.len() == 0 && (r.error_code == text::ascii_2('1', '0')
                    || r.error_code == text::ascii_2('1', '5')),
            }

        }),
{
    lemma_gw_names_differ();
    let a = 5 + (common::bdk_key(p, 5)->Ok_0).1;
    let b = a + (common::ksn_field(p, a)->Ok_0).1;
    common::unreadable_fields_are_answered_15(p, 5);
    common::unreadable_fields_are_answered_15(p, a);
}

} // verus!
