//! C2, C4, M6, M8: generate and verify a MAC.

use vstd::prelude::*;
use vstd::string::*;
#[allow(unused_imports)]
use vstd::utf8::{
    decode_utf8, encode_utf8, encode_utf8_decode_utf8, encode_utf8_valid_utf8, is_ascii_chars,
    is_ascii_chars_encode_utf8, valid_utf8,
};

#[allow(unused_imports)]
use crate::apc::ApcReply;
use crate::apc::{ApcCall, MacAlgorithm, MacScheme};
#[allow(unused_imports)]
use crate::error;
use crate::error::{Failure, ProxyError};
#[allow(unused_imports)]
use crate::handlers;
use crate::handlers::grounding::Evidence;
#[allow(unused_imports)]
use crate::handlers::thales::common;
use crate::handlers::thales::common::{field_text, malformed, parse_legacy_key};
use crate::handlers::{fail, Finish, Handler, Pending, Step, StepView};
use crate::key_map::{KeyDescriptor, KeyMap, KeyTable};
use crate::secret::Secret;
#[allow(unused_imports)]
use crate::text;
use crate::text::{
    byte_text, decimal_text, fits, is_ascii_2, owned, same_text, trim_end_text, trim_start_text,
    utf8, word_of,
};

verus! {

/// What a MAC command asks for.
pub struct MacFields<T = String> {
    /// The APC name of the MAC algorithm.
    pub algorithm: T,
    pub key_id: KeyDescriptor<T>,
    /// The message in hexadecimal.
    pub message_hex: T,
    /// The MAC to hold the message against, for a verification.
    pub mac_to_verify: Option<T>,
    pub mac_size_bytes: usize,
}

impl View for MacFields<String> {
    type V = MacFields<Seq<char>>;

    open spec fn view(&self) -> MacFields<Seq<char>> {
        MacFields {
            algorithm: self.algorithm@,
            key_id: self.key_id@,
            message_hex: self.message_hex@,
            mac_to_verify: crate::key_map::maybe(self.mac_to_verify),
            mac_size_bytes: self.mac_size_bytes,
        }
    }
}

// ── C2 and C4 ────────────────────────────────────────────────────────────────

/// The algorithm of a C2 or C4 mode: `0` X9.9, `1` X9.19, `2` and `3` AS2805.4.1.
pub open spec fn c2_algorithm(mode: u8) -> Result<Seq<char>, Failure> {
    if mode == '0' as u8 {
        Ok("ISO9797_ALGORITHM1"@)
    } else if mode == '1' as u8 {
        Ok("ISO9797_ALGORITHM3"@)
    } else if mode == '2' as u8 || mode == '3' as u8 {
        Ok("AS2805_4_1"@)
    } else {
        Err(ProxyError::UnsupportedMacMode(seq![mode as char]))
    }
}

/// A C2 or C4 payload: 0 message block number (`0` only), 1 key type, 2 mode,
/// 3 message type (`1` only), 4 key; then the message length in bytes (four
/// hexadecimal digits, white space around them allowed), the message in
/// hexadecimal, and for C4 the MAC (eight digits).
pub open spec fn c2_fields(p: Seq<u8>, is_verify: bool) -> Result<MacFields<Seq<char>>, Failure> {
    let key = common::legacy_key(p, 4);
    let at = 4 + (key->Ok_0).1;
    let len = text::word(text::trim_end(text::trim_start(common::text_at(p, at, 4))), 16);
    let end = at + 4 + 2 * len->0;
    if p.len() < 4 {
        error::bad("C2/C4 payload too short: "@ + text::decimal(p.len()))
    } else if p[0] != '0' as u8 {
        Err(
            ProxyError::UnsupportedMacMode(
                "C2/C4: message block number '"@ + seq![p[0] as char]
                    + "' (continuation) not supported; use '0' (only block)"@,
            ),
        )
    } else if c2_algorithm(p[2]) is Err {
        Err(c2_algorithm(p[2])->Err_0)
    } else if p[3] != '1' as u8 {
        error::bad(
            "C2/C4: message type '"@ + seq![p[3] as char]
                + "' not supported; only '1' (expanded hex) is accepted"@,
        )
    } else if key is Err {
        Err(key->Err_0)
    } else if p.len() < at + 4 {
        error::bad("C2/C4: message length field missing"@)
    } else if len is None {
        error::bad("C2/C4: bad message length hex"@)
    } else if p.len() < end {
        error::bad(
            "C2/C4: payload shorter than declared message: need "@ + text::decimal(end as nat)
                + " got "@ + text::decimal(p.len()),
        )
    } else if is_verify && p.len() < end + 8 {
        error::bad("C4: missing MAC"@)
    } else {
        Ok(
            MacFields {
                algorithm: c2_algorithm(p[2])->Ok_0,
                key_id: (key->Ok_0).0,
                message_hex: common::text_at(p, at + 4, 2 * len->0),
                mac_to_verify: if is_verify {
                    Some(common::text_at(p, end, 8))
                } else {
                    None
                },
                mac_size_bytes: 4,
            },
        )
    }
}

fn algorithm_from_mode_c2(mode: u8) -> (r: Result<String, ProxyError>)
    ensures
        error::outcome(r) == c2_algorithm(mode),
{
    if mode == '0' as u8 {
        Ok(owned("ISO9797_ALGORITHM1"))
    } else if mode == '1' as u8 {
        Ok(owned("ISO9797_ALGORITHM3"))
    } else if mode == '2' as u8 || mode == '3' as u8 {
        Ok(owned("AS2805_4_1"))
    } else {
        Err(ProxyError::UnsupportedMacMode(byte_text(mode)))
    }
}

/// Parse the payload of C2 or C4.
pub fn parse_c2_payload(payload: &[u8], is_verify: bool) -> (r: Result<MacFields, ProxyError>)
    ensures
        error::outcome(r) == c2_fields(payload@, is_verify),
{
    if payload.len() < 4 {
        return Err(
            ProxyError::MalformedPayload(
                owned("C2/C4 payload too short: ").concat(
                    decimal_text(payload.len() as u128).as_str(),
                ),
            ),
        );
    }
    if payload[0] != '0' as u8 {
        return Err(
            ProxyError::UnsupportedMacMode(
                owned("C2/C4: message block number '").concat(byte_text(payload[0]).as_str()).concat(
                    "' (continuation) not supported; use '0' (only block)",
                ),
            ),
        );
    }
    let algorithm: String = algorithm_from_mode_c2(payload[2])?;
    if payload[3] != '1' as u8 {
        return Err(
            ProxyError::MalformedPayload(
                owned("C2/C4: message type '").concat(byte_text(payload[3]).as_str()).concat(
                    "' not supported; only '1' (expanded hex) is accepted",
                ),
            ),
        );
    }
    let (key_id, key_consumed) = parse_legacy_key(payload, 4)?;
    let at: usize = 4 + key_consumed;
    if !fits(payload, at, 4) {
        return Err(malformed("C2/C4: message length field missing"));
    }
    let len_text: String = trim_end_text(
        trim_start_text(field_text(payload, at, 4).as_str()).as_str(),
    );
    let len: usize = match word_of(len_text.as_str(), 16) {
        Some(n) => n,
        None => {
            return Err(malformed("C2/C4: bad message length hex"));
        },
    };
    let start: usize = at + 4;
    if len > (payload.len() - start) / 2 {
        return Err(
            ProxyError::MalformedPayload(
                owned("C2/C4: payload shorter than declared message: need ").concat(
                    decimal_text(start as u128 + 2 * len as u128).as_str(),
                ).concat(" got ").concat(decimal_text(payload.len() as u128).as_str()),
            ),
        );
    }
    let end: usize = start + 2 * len;
    let message_hex: String = field_text(payload, start, 2 * len);
    let mac_to_verify: Option<String> = if is_verify {
        if !fits(payload, end, 8) {
            return Err(malformed("C4: missing MAC"));
        }
        Some(field_text(payload, end, 8))
    } else {
        None
    };
    Ok(MacFields { algorithm, key_id, message_hex, mac_to_verify, mac_size_bytes: 4 })
}

// ── M6 and M8 ────────────────────────────────────────────────────────────────

/// The algorithm of an M6 or M8 algorithm byte: `1` ISO 9797 algorithm 1,
/// `3` algorithm 3, `6` CMAC.
pub open spec fn m6_algorithm(byte: u8) -> Result<Seq<char>, Failure> {
    if byte == '1' as u8 {
        Ok("ISO9797_ALGORITHM1"@)
    } else if byte == '3' as u8 {
        Ok("ISO9797_ALGORITHM3"@)
    } else if byte == '6' as u8 {
        Ok("CMAC"@)
    } else {
        Err(ProxyError::UnsupportedMacMode(seq![byte as char]))
    }
}

/// An M6 or M8 payload: 0 mode (`0` only), 1 input format (`1` only), 2 MAC size
/// (`0` four bytes, `1` eight), 3 algorithm, 4 padding, 5 key type, 8 key; then
/// the message length in bytes (four hexadecimal digits), the message in
/// hexadecimal, and for M8 the MAC.
pub open spec fn m6_fields(p: Seq<u8>, is_verify: bool) -> Result<MacFields<Seq<char>>, Failure> {
    let key = common::legacy_key(p, 8);
    let at = 8 + (key->Ok_0).1;
    let len_bytes = p.subrange(at, at + 4);
    let len_text = decode_utf8(len_bytes);
    let len = text::word(len_text, 16);
    let end = at + 4 + 2 * len->0;
    let size: usize = if p[2] == '0' as u8 {
        4
    } else {
        8
    };
    if p.len() < 8 {
        error::bad("M6/M8 payload too short: "@ + text::decimal(p.len()))
    } else if p[0] != '0' as u8 {
        Err(
            ProxyError::UnsupportedMacMode(
                "M6/M8: mode '"@ + seq![p[0] as char]
                    + "' (continuation) not supported; APC is stateless — use mode '0' (complete message) only"@,
            ),
        )
    } else if p[1] != '1' as u8 {
        error::bad(
            "M6/M8: input format '"@ + seq![p[1] as char]
                + "' not supported; only format '1' (hex-encoded) is accepted"@,
        )
    } else if p[2] != '0' as u8 && p[2] != '1' as u8 {
        error::bad("M6/M8: unsupported MAC size byte '"@ + seq![p[2] as char] + "'"@)
    } else if m6_algorithm(p[3]) is Err {
        Err(m6_algorithm(p[3])->Err_0)
    } else if key is Err {
        Err(key->Err_0)
    } else if p.len() < at + 4 {
        error::bad("M6/M8: message length field missing"@)
    } else if !valid_utf8(len_bytes) {
        error::bad("M6/M8: msg length not ASCII"@)
    } else if len is None {
        error::bad("M6/M8: invalid msg length '"@ + len_text + "'"@)
    } else if p.len() < end {
        error::bad(
            "M6/M8: payload shorter than declared message: need "@ + text::decimal(end as nat)
                + " got "@ + text::decimal(p.len()),
        )
    } else if is_verify && p.len() < end + 2 * size {
        error::bad("M8: MAC field missing"@)
    } else {
        Ok(
            MacFields {
                algorithm: m6_algorithm(p[3])->Ok_0,
                key_id: (key->Ok_0).0,
                message_hex: common::text_at(p, at + 4, 2 * len->0),
                mac_to_verify: if is_verify {
                    Some(common::text_at(p, end, 2 * size))
                } else {
                    None
                },
                mac_size_bytes: size,
            },
        )
    }
}

fn algorithm_from_m6_algo_byte(byte: u8) -> (r: Result<String, ProxyError>)
    ensures
        error::outcome(r) == m6_algorithm(byte),
{
    if byte == '1' as u8 {
        Ok(owned("ISO9797_ALGORITHM1"))
    } else if byte == '3' as u8 {
        Ok(owned("ISO9797_ALGORITHM3"))
    } else if byte == '6' as u8 {
        Ok(owned("CMAC"))
    } else {
        Err(ProxyError::UnsupportedMacMode(byte_text(byte)))
    }
}

/// Parse the payload of M6 or M8.
pub fn parse_m6_payload(payload: &[u8], is_verify: bool) -> (r: Result<MacFields, ProxyError>)
    ensures
        error::outcome(r) == m6_fields(payload@, is_verify),
{
    if payload.len() < 8 {
        return Err(
            ProxyError::MalformedPayload(
                owned("M6/M8 payload too short: ").concat(
                    decimal_text(payload.len() as u128).as_str(),
                ),
            ),
        );
    }
    if payload[0] != '0' as u8 {
        return Err(
            ProxyError::UnsupportedMacMode(
                owned("M6/M8: mode '").concat(byte_text(payload[0]).as_str()).concat(
                    "' (continuation) not supported; APC is stateless — use mode '0' (complete message) only",
                ),
            ),
        );
    }
    if payload[1] != '1' as u8 {
        return Err(
            ProxyError::MalformedPayload(
                owned("M6/M8: input format '").concat(byte_text(payload[1]).as_str()).concat(
                    "' not supported; only format '1' (hex-encoded) is accepted",
                ),
            ),
        );
    }
    let mac_size_bytes: usize = if payload[2] == '0' as u8 {
        4
    } else if payload[2] == '1' as u8 {
        8
    } else {
        return Err(
            ProxyError::MalformedPayload(
                owned("M6/M8: unsupported MAC size byte '").concat(
                    byte_text(payload[2]).as_str(),
                ).concat("'"),
            ),
        );
    };
    let algorithm: String = algorithm_from_m6_algo_byte(payload[3])?;
    let (key_id, key_consumed) = parse_legacy_key(payload, 8)?;
    let at: usize = 8 + key_consumed;
    if !fits(payload, at, 4) {
        return Err(malformed("M6/M8: message length field missing"));
    }
    let len_text: String = match utf8(&payload[at..at + 4]) {
        Some(t) => t,
        None => {
            return Err(malformed("M6/M8: msg length not ASCII"));
        },
    };
    let len: usize = match word_of(len_text.as_str(), 16) {
        Some(n) => n,
        None => {
            return Err(
                ProxyError::MalformedPayload(
                    owned("M6/M8: invalid msg length '").concat(len_text.as_str()).concat("'"),
                ),
            );
        },
    };
    let start: usize = at + 4;
    if len > (payload.len() - start) / 2 {
        return Err(
            ProxyError::MalformedPayload(
                owned("M6/M8: payload shorter than declared message: need ").concat(
                    decimal_text(start as u128 + 2 * len as u128).as_str(),
                ).concat(" got ").concat(decimal_text(payload.len() as u128).as_str()),
            ),
        );
    }
    let end: usize = start + 2 * len;
    let message_hex: String = field_text(payload, start, 2 * len);
    let mac_to_verify: Option<String> = if is_verify {
        if !fits(payload, end, 2 * mac_size_bytes) {
            return Err(malformed("M8: MAC field missing"));
        }
        Some(field_text(payload, end, 2 * mac_size_bytes))
    } else {
        None
    };
    Ok(MacFields { algorithm, key_id, message_hex, mac_to_verify, mac_size_bytes })
}

// ── the handler ──────────────────────────────────────────────────────────────

/// The MAC algorithm with the APC name `name`.
pub open spec fn mac_algorithm(name: Seq<char>) -> Option<MacAlgorithm> {
    if name == "ISO9797_ALGORITHM1"@ {
        Some(MacAlgorithm::Iso9797Algorithm1)
    } else if name == "ISO9797_ALGORITHM3"@ {
        Some(MacAlgorithm::Iso9797Algorithm3)
    } else if name == "CMAC"@ {
        Some(MacAlgorithm::Cmac)
    } else if name == "AS2805_4_1"@ {
        Some(MacAlgorithm::As280541)
    } else {
        None
    }
}

fn algorithm_named(name: &str) -> (r: Option<MacAlgorithm>)
    ensures
        r == mac_algorithm(name@),
{
    if same_text(name, "ISO9797_ALGORITHM1") {
        Some(MacAlgorithm::Iso9797Algorithm1)
    } else if same_text(name, "ISO9797_ALGORITHM3") {
        Some(MacAlgorithm::Iso9797Algorithm3)
    } else if same_text(name, "CMAC") {
        Some(MacAlgorithm::Cmac)
    } else if same_text(name, "AS2805_4_1") {
        Some(MacAlgorithm::As280541)
    } else {
        None
    }
}

/// What a MAC command with these fields leads to. APC verifies only a whole CMAC,
/// while M8 carries the digits that M6 returned; so a CMAC is verified by
/// generating it again and comparing its leading digits.
pub open spec fn mac_call(f: MacFields<Seq<char>>, is_verify: bool, arn: Seq<char>) -> StepView {
    let chars = (2 * f.mac_size_bytes) as usize;
    match mac_algorithm(f.algorithm) {
        None => handlers::failed(ProxyError::UnsupportedMacMode(f.algorithm)),
        Some(a) => {
            let generate = ApcCall::GenerateMac {
                key: arn,
                message: f.message_hex,
                scheme: MacScheme::Algorithm(a),
                mac_length: None,
            };
            if !is_verify {
                handlers::ask(generate, Finish::Mac { chars })
            } else if f.algorithm == "CMAC"@ {
                handlers::ask(generate, Finish::MacPrefix { mac: f.mac_to_verify->0, chars })
            } else {
                handlers::ask(
                    ApcCall::VerifyMac {
                        key: arn,
                        message: f.message_hex,
                        mac: f.mac_to_verify->0,
                        scheme: MacScheme::Algorithm(a),
                    },
                    Finish::Accepted,
                )
            }
        },
    }
}

/// What a MAC command leads to.
pub open spec fn mac_step(command_code: Seq<u8>, p: Seq<u8>, keys: KeyTable) -> StepView {
    let is_m_series = command_code == text::ascii_2('M', '6') || command_code == text::ascii_2(
        'M',
        '8',
    );
    let is_verify = command_code == text::ascii_2('C', '4') || command_code == text::ascii_2(
        'M',
        '8',
    );
    let fields = if is_m_series {
        m6_fields(p, is_verify)
    } else {
        c2_fields(p, is_verify)
    };
    match fields {
        Err(e) => handlers::failed(e),
        Ok(f) => match keys.resolved_field(f.key_id) {
            Err(e) => handlers::failed(e),
            Ok(arn) => mac_call(f, is_verify, arn),
        },
    }
}

/// payShield MAC commands: C2 and M6 generate, C4 and M8 verify.
pub struct MacHandler;

impl Handler for MacHandler {
    open spec fn codes(&self) -> Seq<Seq<char>> {
        seq!["C2"@, "C4"@, "M6"@, "M8"@]
    }

    open spec fn step(&self, command_code: Seq<u8>, payload: Seq<u8>, keys: KeyTable) -> StepView {
        mac_step(command_code, payload, keys)
    }

    open spec fn evidence(&self) -> Seq<Evidence> {
        Seq::empty()
    }

    fn command_codes(&self) -> Vec<&'static str> {
        let r: Vec<&'static str> = vec!["C2", "C4", "M6", "M8"];
        assert(text::texts(r@) =~= self.codes());
        r
    }

    fn start(&self, command_code: &[u8], payload: &[u8], keys: &KeyMap) -> Step {
        let m6: bool = is_ascii_2(command_code, 'M', '6');
        let m8: bool = is_ascii_2(command_code, 'M', '8');
        let is_verify: bool = m8 || is_ascii_2(command_code, 'C', '4');
        let parsed: Result<MacFields, ProxyError> = if m6 || m8 {
            parse_m6_payload(payload, is_verify)
        } else {
            parse_c2_payload(payload, is_verify)
        };
        let fields: MacFields = match parsed {
            Ok(f) => f,
            Err(e) => {
                return fail(&e);
            },
        };
        let key: String = match keys.resolve_descriptor(&fields.key_id) {
            Ok(a) => owned(a),
            Err(e) => {
                return fail(&e);
            },
        };
        let algorithm: MacAlgorithm = match algorithm_named(fields.algorithm.as_str()) {
            Some(a) => a,
            None => {
                return fail(&ProxyError::UnsupportedMacMode(fields.algorithm));
            },
        };
        let scheme: MacScheme = MacScheme::Algorithm(algorithm);
        let message: Secret = Secret::new(fields.message_hex);
        let chars: usize = 2 * fields.mac_size_bytes;
        match fields.mac_to_verify {
            None => Step::Call {
                call: ApcCall::GenerateMac { key, message, scheme, mac_length: None },
                then: Pending::Finish(Finish::Mac { chars }),
            },
            Some(mac) => {
                if same_text(fields.algorithm.as_str(), "CMAC") {
                    Step::Call {
                        call: ApcCall::GenerateMac { key, message, scheme, mac_length: None },
                        then: Pending::Finish(Finish::MacPrefix { mac, chars }),
                    }
                } else {
                    Step::Call {
                        call: ApcCall::VerifyMac { key, message, mac, scheme },
                        then: Pending::Finish(Finish::Accepted),
                    }
                }
            },
        }
    }

    fn grounding(&self) -> Vec<Evidence> {
        Vec::new()
    }
}

/// The digits that M6 answers of a CMAC are those that M8 accepts: held against the
/// same CMAC they verify, and other digits do not.
pub proof fn a_cmac_verifies_as_it_was_generated(mac: Seq<char>, whole: Seq<char>, chars: usize)
    ensures
        ({
            let generated = handlers::finished(Finish::Mac { chars }, ApcReply::Mac(whole));
            let verified = handlers::finished(
                Finish::MacPrefix { mac, chars },
                ApcReply::Mac(whole),
            );
            if text::same_ignoring_case(encode_utf8(mac), generated.payload) {
                verified == handlers::answered(Seq::empty())
            } else {
                verified == handlers::refused(text::ascii_2('0', '1'))
            }
        }),
{
}

/// Where the message of an M6 or M8 payload ends.
pub open spec fn m6_end(p: Seq<u8>) -> int {
    let at = 8 + (common::legacy_key(p, 8)->Ok_0).1;
    at + 4 + 2 * text::word(decode_utf8(p.subrange(at, at + 4)), 16)->0
}

/// M8 reads an M6 payload with the MAC behind it: the same key, algorithm and
/// message, and that MAC to verify.
pub proof fn a_mac_is_verified_where_it_was_appended(p: Seq<u8>, mac: Seq<char>)
    requires
        m6_fields(p, false) is Ok,
        m6_end(p) == p.len(),
        is_ascii_chars(mac),
        mac.len() == 2 * (m6_fields(p, false)->Ok_0).mac_size_bytes,
    ensures
        m6_fields(p + encode_utf8(mac), true) == Ok::<_, Failure>(
            MacFields { mac_to_verify: Some(mac), ..m6_fields(p, false)->Ok_0 },
        ),
{
    let tail = encode_utf8(mac);
    let q = p + tail;
    let at = 8 + (common::legacy_key(p, 8)->Ok_0).1;
    let end = m6_end(p);
    common::key_fields_lie_within(p, 8);
    common::key_fields_end_where_they_end(p, tail, 8);
    text::numbers_are_natural(decode_utf8(p.subrange(at, at + 4)), 16);
    is_ascii_chars_encode_utf8(mac);
    encode_utf8_valid_utf8(mac);
    encode_utf8_decode_utf8(mac);
    assert(q.subrange(at, at + 4) =~= p.subrange(at, at + 4));
    assert(q.subrange(at + 4, end) =~= p.subrange(at + 4, end));
    assert(q.subrange(end, end + mac.len()) =~= tail);
}

/// Where the message of a C2 or C4 payload ends.
pub open spec fn c2_end(p: Seq<u8>) -> int {
    let at = 4 + (common::legacy_key(p, 4)->Ok_0).1;
    at + 4 + 2 * text::word(
        text::trim_end(text::trim_start(common::text_at(p, at, 4))),
        16,
    )->0
}

/// C4 reads a C2 payload with the MAC behind it: the same key, algorithm and
/// message, and that MAC to verify.
pub proof fn a_short_mac_is_verified_where_it_was_appended(p: Seq<u8>, mac: Seq<char>)
    requires
        c2_fields(p, false) is Ok,
        c2_end(p) == p.len(),
        is_ascii_chars(mac),
        mac.len() == 8,
    ensures
        c2_fields(p + encode_utf8(mac), true) == Ok::<_, Failure>(
            MacFields { mac_to_verify: Some(mac), ..c2_fields(p, false)->Ok_0 },
        ),
{
    let tail = encode_utf8(mac);
    let q = p + tail;
    let at = 4 + (common::legacy_key(p, 4)->Ok_0).1;
    let end = c2_end(p);
    common::key_fields_lie_within(p, 4);
    common::key_fields_end_where_they_end(p, tail, 4);
    text::numbers_are_natural(
        text::trim_end(text::trim_start(common::text_at(p, at, 4))),
        16,
    );
    is_ascii_chars_encode_utf8(mac);
    encode_utf8_valid_utf8(mac);
    encode_utf8_decode_utf8(mac);
    assert(q.subrange(at, at + 4) =~= p.subrange(at, at + 4));
    assert(q.subrange(at + 4, end) =~= p.subrange(at + 4, end));
    assert(q.subrange(end, end + 8) =~= tail);
}

/// A C2 or C4 payload is forwarded field by field: C2 has a MAC of the message generated and
/// C4 has the one behind it verified, by ISO 9797 algorithm 1 in mode `0`, algorithm 3 in
/// mode `1` and AS2805.4.1 in modes `2` and `3`. Eight characters of a MAC that was generated
/// are answered.
#[verifier::rlimit(30)]
pub proof fn a_message_mac_is_forwarded_field_by_field(
    verify: bool,
    key_type: u8,
    digit: u8,
    algorithm: MacAlgorithm,
    k: Seq<u8>,
    length: Seq<u8>,
    data: Seq<u8>,
    mac: Seq<u8>,
    more: Seq<u8>,
    keys: KeyTable,
    arn: Seq<char>,
    out: Seq<char>,
)
    requires
        ({
            ||| digit == '0' as u8 && algorithm == MacAlgorithm::Iso9797Algorithm1
            ||| digit == '1' as u8 && algorithm == MacAlgorithm::Iso9797Algorithm3
            ||| digit == '2' as u8 && algorithm == MacAlgorithm::As280541
            ||| digit == '3' as u8 && algorithm == MacAlgorithm::As280541
        }),
        common::legacy_key_is(keys, k, arn),
        length.len() == 4,
        text::word(text::trim_end(text::trim_start(text::lossy_text(length))), 16) == Some(
            data.len() as int / 2,
        ),
        data.len() % 2 == 0,
        mac.len() == 8,
        encode_utf8(out).len() >= 8,
    ensures
        ({
            let command = if verify {
                text::ascii_2('C', '4')
            } else {
                text::ascii_2('C', '2')
            };
            let tail = if verify {
                mac + more
            } else {
                more
            };
            let p = seq!['0' as u8, key_type, digit, '1' as u8] + k + length + data + tail;
            &&& MacHandler.step(command, p, keys) matches Step::Call { call, then }
            &&& call == (if verify {
                ApcCall::VerifyMac {
                    key: arn,
                    message: text::lossy_text(data),
                    mac: text::lossy_text(mac),
                    scheme: MacScheme::Algorithm(algorithm),
                }
            } else {
                ApcCall::GenerateMac {
                    key: arn,
                    message: text::lossy_text(data),
                    scheme: MacScheme::Algorithm(algorithm),
                    mac_length: None,
                }
            })
            &&& !verify ==> handlers::resumed(then, ApcReply::Mac(out)) == StepView::Done(
                handlers::answered(encode_utf8(out).take(8)),
            )
            &&& verify ==> handlers::resumed(then, ApcReply::Accepted) == StepView::Done(
                handlers::answered(Seq::empty()),
            )
            &&& verify ==> handlers::resumed(then, ApcReply::VerificationFailed) == StepView::Done(
                handlers::refused(text::ascii_2('0', '1')),
            )
        }),
{
    let tail = if verify {
        mac + more
    } else {
        more
    };
    lemma_mac_names_differ();
    let p = seq!['0' as u8, key_type, digit, '1' as u8] + k + length + data + tail;
    assert(common::legacy_key(p, 4) == common::legacy_key(k, 0)) by {
        let before = seq!['0' as u8, key_type, digit, '1' as u8];
        let behind = length + data + tail;
        assert(p =~= before + k + behind);
        common::key_fields_are_read_in_place(before, k, behind);
    }
    common::key_fields_lie_within(k, 0);
    let a = 4 + k.len() as int;
    assert(p.subrange(a, a + 4) =~= length);
    let q = a + 4 + data.len() as int;
    assert(p.subrange(a + 4, q) =~= data);
    assert(p[0] == '0' as u8 && p[2] == digit && p[3] == '1' as u8);
    if verify {
        assert(p.subrange(q, q + 8) =~= mac);
    }
}

/// An M6 or M8 payload is forwarded field by field: M6 has a MAC of the message generated, by
/// the algorithm of the digit, and eight characters of it are answered, or sixteen for the
/// long size. M8 has the one behind the message verified; a CMAC is generated again for
/// that, and accepted if its leading characters are the ones that came in, in either case.
#[verifier::rlimit(30)]
pub proof fn a_complete_mac_is_forwarded_field_by_field(
    verify: bool,
    size: u8,
    digit: u8,
    padding: u8,
    algorithm: MacAlgorithm,
    key_type: Seq<u8>,
    k: Seq<u8>,
    length: Seq<u8>,
    data: Seq<u8>,
    mac: Seq<u8>,
    more: Seq<u8>,
    keys: KeyTable,
    arn: Seq<char>,
    out: Seq<char>,
)
    requires
        size == '0' as u8 || size == '1' as u8,
        ({
            ||| digit == '1' as u8 && algorithm == MacAlgorithm::Iso9797Algorithm1
            ||| digit == '3' as u8 && algorithm == MacAlgorithm::Iso9797Algorithm3
            ||| digit == '6' as u8 && algorithm == MacAlgorithm::Cmac
        }),
        key_type.len() == 3,
        common::legacy_key_is(keys, k, arn),
        length.len() == 4,
        valid_utf8(length),
        text::word(decode_utf8(length), 16) == Some(data.len() as int / 2),
        data.len() % 2 == 0,
        mac.len() == if size == '0' as u8 {
            8nat
        } else {
            16
        },
        encode_utf8(out).len() >= 16,
    ensures
        ({
            let command = if verify {
                text::ascii_2('M', '8')
            } else {
                text::ascii_2('M', '6')
            };
            let tail = if verify {
                mac + more
            } else {
                more
            };
            let p = seq!['0' as u8, '1' as u8, size, digit, padding] + key_type + k + length + data
                + tail;
            &&& MacHandler.step(command, p, keys) matches Step::Call { call, then }
            &&& call == (if verify && algorithm != MacAlgorithm::Cmac {
                ApcCall::VerifyMac {
                    key: arn,
                    message: text::lossy_text(data),
                    mac: text::lossy_text(mac),
                    scheme: MacScheme::Algorithm(algorithm),
                }
            } else {
                ApcCall::GenerateMac {
                    key: arn,
                    message: text::lossy_text(data),
                    scheme: MacScheme::Algorithm(algorithm),
                    mac_length: None,
                }
            })
            &&& !verify ==> handlers::resumed(then, ApcReply::Mac(out)) == StepView::Done(
                handlers::answered(encode_utf8(out).take(mac.len() as int)),
            )
            &&& verify && algorithm == MacAlgorithm::Cmac ==> handlers::resumed(
                then,
                ApcReply::Mac(out),
            ) == StepView::Done(
                if text::same_ignoring_case(
                    encode_utf8(text::lossy_text(mac)),
                    encode_utf8(out).take(mac.len() as int),
                ) {
                    handlers::answered(Seq::empty())
                } else {
                    handlers::refused(text::ascii_2('0', '1'))
                },
            )
            &&& verify && algorithm != MacAlgorithm::Cmac ==> handlers::resumed(
                then,
                ApcReply::Accepted,
            ) == StepView::Done(handlers::answered(Seq::empty()))
            &&& verify && algorithm != MacAlgorithm::Cmac ==> handlers::resumed(
                then,
                ApcReply::VerificationFailed,
            ) == StepView::Done(handlers::refused(text::ascii_2('0', '1')))
        }),
{
    let tail = if verify {
        mac + more
    } else {
        more
    };
    lemma_mac_names_differ();
    let p = seq!['0' as u8, '1' as u8, size, digit, padding] + key_type + k + length + data + tail;
    assert(common::legacy_key(p, 8) == common::legacy_key(k, 0)) by {
        let before = seq!['0' as u8, '1' as u8, size, digit, padding] + key_type;
        let behind = length + data + tail;
        assert(p =~= before + k + behind);
        common::key_fields_are_read_in_place(before, k, behind);
    }
    common::key_fields_lie_within(k, 0);
    let a = 8 + k.len() as int;
    assert(p.subrange(a, a + 4) =~= length);
    let q = a + 4 + data.len() as int;
    assert(p.subrange(a + 4, q) =~= data);
    assert(p[0] == '0' as u8 && p[1] == '1' as u8 && p[2] == size && p[3] == digit);
    if verify {
        assert(p.subrange(q, q + mac.len() as int) =~= mac);
    }
}

proof fn lemma_mac_names_differ()
    ensures
        "ISO9797_ALGORITHM1"@ != "ISO9797_ALGORITHM3"@,
        "ISO9797_ALGORITHM1"@ != "CMAC"@,
        "ISO9797_ALGORITHM3"@ != "CMAC"@,
        "AS2805_4_1"@ != "ISO9797_ALGORITHM1"@,
        "AS2805_4_1"@ != "ISO9797_ALGORITHM3"@,
        "AS2805_4_1"@ != "CMAC"@,
        text::ascii_2('C', '2') != text::ascii_2('C', '4'),
        text::ascii_2('M', '6') != text::ascii_2('M', '8'),
        text::ascii_2('C', '2') != text::ascii_2('M', '6'),
        text::ascii_2('C', '2') != text::ascii_2('M', '8'),
        text::ascii_2('C', '4') != text::ascii_2('M', '6'),
        text::ascii_2('C', '4') != text::ascii_2('M', '8'),
{
    reveal_strlit("ISO9797_ALGORITHM1");
    reveal_strlit("ISO9797_ALGORITHM3");
    reveal_strlit("CMAC");
    reveal_strlit("AS2805_4_1");
    assert("ISO9797_ALGORITHM1"@[17] == '1' && "ISO9797_ALGORITHM3"@[17] == '3');
    assert("CMAC"@.len() == 4 && "AS2805_4_1"@.len() == 10);
    assert(text::ascii_2('C', '2')[1] == '2' as u8 && text::ascii_2('C', '4')[1] == '4' as u8);
    assert(text::ascii_2('M', '6')[1] == '6' as u8 && text::ascii_2('M', '8')[1] == '8' as u8);
}

/// A C2 or C4 command leads to a call only for the only block of a hexadecimal message and in
/// modes `0` to `3`, and only if its payload holds the message and, for C4, the MAC. What is
/// not offered, unknown or cut short is answered with code `15`, a key that is not found with
/// `10`.
pub proof fn only_whole_message_macs_lead_to_a_call(verify: bool, p: Seq<u8>, keys: KeyTable)
    ensures
        ({
            let a = 4 + (common::legacy_key(p, 4)->Ok_0).1;
            let n = text::word(text::trim_end(text::trim_start(common::text_at(p, a, 4))), 16);
            let step = MacHandler.step(if verify {
                text::ascii_2('C', '4')
            } else {
                text::ascii_2('C', '2')
            }, p, keys);
            &&& match step {
                Step::Call { call, .. } => {
                    &&& p[0] == '0' as u8
                    &&& '0' as u8 <= p[2] <= '3' as u8
                    &&& p[3] == '1' as u8
                    &&& common::legacy_key(p, 4) is Ok
                    &&& n is Some
                    &&& p.len() >= a + 4 + 2 * n->0
                    &&& verify ==> p.len() >= a + 12 + 2 * n->0
                },
                Step::Done(r) => r.payload.len() == 0 && (r.error_code == text::ascii_2('1', '0')
                    || r.error_code == text::ascii_2('1', '5')),
            }

        }),
{
    lemma_mac_names_differ();
    let a = 4 + (common::legacy_key(p, 4)->Ok_0).1;
    common::unreadable_fields_are_answered_15(p, 4);
}

/// An M6 or M8 command leads to a call only for a complete hexadecimal message, a MAC size of
/// `0` or `1` and an algorithm of `1`, `3` or `6`, and only if its payload holds the message
/// and, for M8, the MAC. What is not offered, unknown or cut short is answered with code `15`,
/// a key that is not found with `10`.
pub proof fn only_complete_macs_lead_to_a_call(verify: bool, p: Seq<u8>, keys: KeyTable)
    ensures
        ({
            let a = 8 + (common::legacy_key(p, 8)->Ok_0).1;
            let n = text::word(decode_utf8(p.subrange(a, a + 4)), 16);
            let step = MacHandler.step(if verify {
                text::ascii_2('M', '8')
            } else {
                text::ascii_2('M', '6')
            }, p, keys);
            &&& match step {
                Step::Call { call, .. } => {
                    &&& p[0] == '0' as u8
                    &&& p[1] == '1' as u8
                    &&& p[2] == '0' as u8 || p[2] == '1' as u8
                    &&& p[3] == '1' as u8 || p[3] == '3' as u8 || p[3] == '6' as u8
                    &&& common::legacy_key(p, 8) is Ok
                    &&& n is Some
                    &&& p.len() >= a + 4 + 2 * n->0
                    &&& verify && p[2] == '0' as u8 ==> p.len() >= a + 12 + 2 * n->0
                    &&& verify && p[2] == '1' as u8 ==> p.len() >= a + 20 + 2 * n->0
                },
                Step::Done(r) => r.payload.len() == 0 && (r.error_code == text::ascii_2('1', '0')
                    || r.error_code == text::ascii_2('1', '5')),
            }

        }),
{
    lemma_mac_names_differ();
    let a = 8 + (common::legacy_key(p, 8)->Ok_0).1;
    common::unreadable_fields_are_answered_15(p, 8);
}

} // verus!
