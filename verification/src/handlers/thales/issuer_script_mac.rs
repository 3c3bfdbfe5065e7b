//! JU, KU, KY: generate the MAC of an issuer script.

use vstd::prelude::*;
use vstd::string::*;
#[allow(unused_imports)]
use vstd::utf8::{decode_utf8, encode_utf8, valid_utf8};

#[allow(unused_imports)]
use crate::apc::ApcReply;
use crate::apc::{ApcCall, MacScheme, SessionKeyDerivationMode, SmiValue};
#[allow(unused_imports)]
use crate::error;
use crate::error::{Failure, ProxyError};
#[allow(unused_imports)]
use crate::handlers;
use crate::handlers::evidence;
use crate::handlers::grounding::{CryptoGrounding, Evidence, Proof, WireGrounding};
#[allow(unused_imports)]
use crate::handlers::thales::common;
use crate::handlers::thales::common::{
    bytes_to_hex, decode_bcd_pan_seq, emv_pad, field_8, field_hex, malformed, parse_key_32,
    show_byte,
};
use crate::handlers::{fail, Finish, Handler, Pending, Step, StepView};
use crate::key_map::{KeyDescriptor, KeyMap, KeyTable};
use crate::secret::Secret;
#[allow(unused_imports)]
use crate::text;
use crate::text::{
    byte_text, decimal_text, find_byte, fits, is_ascii_2, lossy, owned, utf8, word_of,
};

verus! {

/// The session-key method of a scheme and the value that seeds it.
pub struct SmiMapping<T = String> {
    pub session_mode: SessionKeyDerivationMode,
    pub value: SmiValue<T>,
}

/// What an issuer-script MAC command asks for.
pub struct SmiFields<T = String, S = Secret> {
    pub key_id: KeyDescriptor<T>,
    pub pan: T,
    pub pan_seq: T,
    pub mapping: SmiMapping<T>,
    /// The message in hexadecimal, padded.
    pub message: S,
}

/// The fields of an issuer-script MAC command as contracts speak of them.
pub type SmiView = SmiFields<Seq<char>, Seq<char>>;

impl View for SmiFields<String, Secret> {
    type V = SmiView;

    open spec fn view(&self) -> SmiView {
        SmiFields {
            key_id: self.key_id@,
            pan: self.pan@,
            pan_seq: self.pan_seq@,
            mapping: SmiMapping {
                session_mode: self.mapping.session_mode,
                value: self.mapping.value@,
            },
            message: self.message@,
        }
    }
}

/// Why the mode flag is refused: only mode `0`, integrity, is offered.
pub open spec fn mode_refusal(cmd: Seq<char>, byte: u8) -> Option<Failure> {
    if byte == '0' as u8 {
        None
    } else if '1' as u8 <= byte <= '4' as u8 {
        Some(
            ProxyError::Unsupported(
                cmd + ": mode '"@ + seq![byte as char]
                    + "' (confidentiality / PIN change) requires APC GenerateMacEmvPinChange and a confidentiality key; only mode 0 (integrity) is supported"@,
            ),
        )
    } else {
        Some(
            ProxyError::MalformedPayload(
                cmd + ": unknown mode flag '"@ + seq![byte as char] + "'"@,
            ),
        )
    }
}

fn require_mode_0(cmd: &str, byte: u8) -> (r: Result<(), ProxyError>)
    ensures
        match r {
            Ok(_) => mode_refusal(cmd@, byte) is None,
            Err(e) => mode_refusal(cmd@, byte) == Some(e@),
        },
{
    if byte == '0' as u8 {
        Ok(())
    } else if '1' as u8 <= byte && byte <= '4' as u8 {
        Err(
            ProxyError::Unsupported(
                owned(cmd).concat(": mode '").concat(byte_text(byte).as_str()).concat(
                    "' (confidentiality / PIN change) requires APC GenerateMacEmvPinChange and a confidentiality key; only mode 0 (integrity) is supported",
                ),
            ),
        )
    } else {
        Err(
            ProxyError::MalformedPayload(
                owned(cmd).concat(": unknown mode flag '").concat(byte_text(byte).as_str()).concat(
                    "'",
                ),
            ),
        )
    }
}

/// A message behind a length of four hexadecimal digits at `at`, and where it
/// ends.
pub open spec fn counted_message(cmd: Seq<char>, p: Seq<u8>, at: int) -> Result<
    (Seq<u8>, int),
    Failure,
> {
    let len_bytes = p.subrange(at, at + 4);
    let len_text = decode_utf8(len_bytes);
    let len = text::word(len_text, 16);
    if p.len() < at + 4 {
        error::bad(cmd + ": message length missing"@)
    } else if !valid_utf8(len_bytes) {
        error::bad(cmd + ": message length not ASCII"@)
    } else if len is None {
        error::bad(cmd + ": invalid message length '"@ + len_text + "'"@)
    } else if p.len() < at + 4 + len->0 {
        error::bad(
            cmd + ": message truncated: need "@ + text::decimal(len->0 as nat) + "B"@,
        )
    } else {
        Ok((p.subrange(at + 4, at + 4 + len->0), at + 4 + len->0))
    }
}

/// A message that runs up to the next `;`, and where that stands.
pub open spec fn delimited_message(cmd: Seq<char>, p: Seq<u8>, at: int) -> Result<
    (Seq<u8>, int),
    Failure,
> {
    let end = at + text::first_index(p.skip(at), 0x3B);
    if end >= p.len() {
        error::bad(cmd + ": message delimiter ';' not found"@)
    } else {
        Ok((p.subrange(at, end), end))
    }
}

/// A message that was read, as contracts speak of it.
pub open spec fn message_outcome(r: Result<(&[u8], usize), ProxyError>) -> Result<
    (Seq<u8>, int),
    Failure,
> {
    match r {
        Ok((m, n)) => Ok((m@, n as int)),
        Err(e) => Err(e@),
    }
}

fn read_len_prefixed_message<'a>(cmd: &str, payload: &'a [u8], pos: usize) -> (r: Result<
    (&'a [u8], usize),
    ProxyError,
>)
    ensures
        message_outcome(r) == counted_message(cmd@, payload@, pos as int),
        r is Ok ==> r->Ok_0.1 <= payload@.len(),
{
    if !fits(payload, pos, 4) {
        return Err(ProxyError::MalformedPayload(owned(cmd).concat(": message length missing")));
    }
    let len_text: String = match utf8(&payload[pos..pos + 4]) {
        Some(t) => t,
        None => {
            return Err(
                ProxyError::MalformedPayload(owned(cmd).concat(": message length not ASCII")),
            );
        },
    };
    let len: usize = match word_of(len_text.as_str(), 16) {
        Some(n) => n,
        None => {
            return Err(
                ProxyError::MalformedPayload(
                    owned(cmd).concat(": invalid message length '").concat(
                        len_text.as_str(),
                    ).concat("'"),
                ),
            );
        },
    };
    let start: usize = pos + 4;
    if !fits(payload, start, len) {
        return Err(
            ProxyError::MalformedPayload(
                owned(cmd).concat(": message truncated: need ").concat(
                    decimal_text(len as u128).as_str(),
                ).concat("B"),
            ),
        );
    }
    Ok((&payload[start..start + len], start + len))
}

fn read_delimited_message<'a>(cmd: &str, payload: &'a [u8], pos: usize) -> (r: Result<
    (&'a [u8], usize),
    ProxyError,
>)
    requires
        pos <= payload@.len(),
    ensures
        message_outcome(r) == delimited_message(cmd@, payload@, pos as int),
        r is Ok ==> r->Ok_0.1 <= payload@.len(),
{
    let end: usize = find_byte(payload, pos, 0x3B);
    if end == payload.len() {
        return Err(
            ProxyError::MalformedPayload(
                owned(cmd).concat(": message delimiter ';' not found"),
            ),
        );
    }
    Ok((&payload[pos..end], end))
}

/// The failure text of a missing delimiter at `at`.
pub open spec fn no_delimiter(cmd: Seq<char>, p: Seq<u8>, at: int) -> Seq<char> {
    cmd + ": expected ';' delimiter at offset "@ + text::decimal(at as nat) + ", got "@
        + common::byte_or_none(p, at)
}

fn expect_delimiter(cmd: &str, payload: &[u8], pos: usize) -> (r: Result<(), ProxyError>)
    ensures
        match r {
            Ok(_) => pos < payload@.len() && payload@[pos as int] == 0x3B,
            Err(e) => !(pos < payload@.len() && payload@[pos as int] == 0x3B) && e@
                == Failure::MalformedPayload(no_delimiter(cmd@, payload@, pos as int)),
        },
{
    if pos < payload.len() && payload[pos] == 0x3B {
        Ok(())
    } else {
        Err(
            ProxyError::MalformedPayload(
                owned(cmd).concat(": expected ';' delimiter at offset ").concat(
                    decimal_text(pos as u128).as_str(),
                ).concat(", got ").concat(show_byte(payload, pos).as_str()),
            ),
        )
    }
}

/// The message as it is forwarded: APC does not pad, so it is padded unless the
/// host has done so.
pub open spec fn forwarded(raw: Seq<u8>, already_padded: bool) -> Seq<char> {
    if already_padded {
        text::hex_upper(raw)
    } else {
        text::hex_upper(common::emv_padded(raw))
    }
}

fn message_for_apc(raw: &[u8], already_padded: bool) -> (r: Secret)
    ensures
        r@ == forwarded(raw@, already_padded),
{
    if already_padded {
        Secret::new(bytes_to_hex(raw))
    } else {
        Secret::new(bytes_to_hex(emv_pad(raw).as_slice()))
    }
}

// ── JU ───────────────────────────────────────────────────────────────────────

/// A JU payload: 0 mode (`0` only), 1 scheme (`1` only), 2 key; then account and
/// sequence number (eight bytes BCD), ATC (two bytes), padding flag (`1` if the
/// host padded the message), the message behind its length, and the delimiter
/// `;`.
pub open spec fn ju_fields(p: Seq<u8>) -> Result<SmiView, Failure> {
    let mode = mode_refusal("JU"@, p[0]);
    let key = common::key_32(p, 2);
    let a = 2 + (key->Ok_0).1;
    let message = counted_message("JU"@, p, a + 11);
    let end = (message->Ok_0).1;
    if p.len() == 0 {
        error::bad("JU: mode flag missing"@)
    } else if mode is Some {
        Err(mode->0)
    } else if p.len() < 2 {
        error::bad("JU: scheme ID missing"@)
    } else if p[1] != '1' as u8 {
        error::bad(
            "JU: unsupported scheme '"@ + seq![p[1] as char] + "' (CUP defines only '1')"@,
        )
    } else if key is Err {
        Err(key->Err_0)
    } else if p.len() < a + 8 {
        error::bad("JU: PAN+Seq missing"@)
    } else if p.len() < a + 10 {
        error::bad("JU: ATC missing"@)
    } else if p.len() < a + 11 {
        error::bad("JU: padding flag missing"@)
    } else if p[a + 10] != '0' as u8 && p[a + 10] != '1' as u8 {
        error::bad("JU: invalid padding flag '"@ + seq![p[a + 10] as char] + "'"@)
    } else if message is Err {
        Err(message->Err_0)
    } else if end >= p.len() || p[end] != 0x3B {
        error::bad(no_delimiter("JU"@, p, end))
    } else {
        Ok(
            SmiFields {
                key_id: (key->Ok_0).0,
                pan: common::bcd_pan(p.subrange(a, a + 8)),
                pan_seq: common::bcd_seq(p.subrange(a, a + 8)),
                mapping: SmiMapping {
                    session_mode: SessionKeyDerivationMode::Emv2000,
                    value: SmiValue::Atc(common::hex_at(p, a + 8, 2)),
                },
                message: forwarded((message->Ok_0).0, p[a + 10] == '1' as u8),
            },
        )
    }
}

/// Parse the payload of JU.
pub fn parse_ju(payload: &[u8]) -> (r: Result<SmiFields, ProxyError>)
    ensures
        error::outcome(r) == ju_fields(payload@),
{
    if payload.len() == 0 {
        return Err(malformed("JU: mode flag missing"));
    }
    require_mode_0("JU", payload[0])?;
    if payload.len() < 2 {
        return Err(malformed("JU: scheme ID missing"));
    }
    if payload[1] != '1' as u8 {
        return Err(
            ProxyError::MalformedPayload(
                owned("JU: unsupported scheme '").concat(byte_text(payload[1]).as_str()).concat(
                    "' (CUP defines only '1')",
                ),
            ),
        );
    }
    let (key_id, key_consumed) = parse_key_32(payload, 2)?;
    let a: usize = 2 + key_consumed;
    if !fits(payload, a, 8) {
        return Err(malformed("JU: PAN+Seq missing"));
    }
    let (pan, pan_seq) = decode_bcd_pan_seq(field_8(payload, a));
    if !fits(payload, a, 10) {
        return Err(malformed("JU: ATC missing"));
    }
    let atc: String = field_hex(payload, a + 8, 2);
    if !fits(payload, a, 11) {
        return Err(malformed("JU: padding flag missing"));
    }
    let flag: u8 = payload[a + 10];
    if flag != '0' as u8 && flag != '1' as u8 {
        return Err(
            ProxyError::MalformedPayload(
                owned("JU: invalid padding flag '").concat(byte_text(flag).as_str()).concat("'"),
            ),
        );
    }
    let (message, end) = read_len_prefixed_message("JU", payload, a + 11)?;
    expect_delimiter("JU", payload, end)?;
    Ok(
        SmiFields {
            key_id,
            pan,
            pan_seq,
            mapping: SmiMapping {
                session_mode: SessionKeyDerivationMode::Emv2000,
                value: SmiValue::Atc(atc),
            },
            message: message_for_apc(message, flag == '1' as u8),
        },
    )
}

// ── KU ───────────────────────────────────────────────────────────────────────

/// The session-key method of a KU scheme and the value that seeds it, from the
/// eight bytes of session key data at `at`: `0` Visa and `2` Amex by the ATC in
/// the last two of them, `1` Mastercard and `5` EMV common by all of them.
pub open spec fn ku_scheme(p: Seq<u8>, scheme: u8, at: int) -> Result<
    SmiMapping<Seq<char>>,
    Failure,
> {
    let atc = SmiValue::Atc(common::hex_at(p, at + 6, 2));
    let ac = SmiValue::Ac(common::hex_at(p, at, 8));
    if scheme == '0' as u8 {
        Ok(SmiMapping { session_mode: SessionKeyDerivationMode::Visa, value: atc })
    } else if scheme == '1' as u8 {
        Ok(SmiMapping { session_mode: SessionKeyDerivationMode::MastercardSessionKey, value: ac })
    } else if scheme == '2' as u8 {
        Ok(SmiMapping { session_mode: SessionKeyDerivationMode::Amex, value: atc })
    } else if scheme == '5' as u8 {
        Ok(SmiMapping { session_mode: SessionKeyDerivationMode::EmvCommonSessionKey, value: ac })
    } else if scheme == '3' as u8 || scheme == '4' as u8 {
        error::gated(
            "KU: scheme '"@ + seq![scheme as char]
                + "' (JCB CVN01/02) has no APC session-key method (no-session-key / JCB SKD)"@,
        )
    } else if scheme == '6' as u8 {
        error::gated("KU: scheme '6' (UnionPay) is gated in KU; use JU for UnionPay"@)
    } else {
        error::bad("KU: unknown scheme '"@ + seq![scheme as char] + "'"@)
    }
}

/// A KU payload: 0 mode (`0` only), 1 scheme, 2 key; then account and sequence
/// number (eight bytes BCD), session key data (eight bytes), the message and the
/// delimiter `;`. In scheme `5` the message stands behind its length, in the
/// others it runs up to the delimiter.
pub open spec fn ku_fields(p: Seq<u8>) -> Result<SmiView, Failure> {
    let mode = mode_refusal("KU"@, p[0]);
    let key = common::key_32(p, 2);
    let a = 2 + (key->Ok_0).1;
    let scheme = ku_scheme(p, p[1], a + 8);
    let message = if p[1] == '5' as u8 {
        counted_message("KU"@, p, a + 16)
    } else {
        delimited_message("KU"@, p, a + 16)
    };
    let end = (message->Ok_0).1;
    if p.len() == 0 {
        error::bad("KU: mode flag missing"@)
    } else if mode is Some {
        Err(mode->0)
    } else if p.len() < 2 {
        error::bad("KU: scheme ID missing"@)
    } else if key is Err {
        Err(key->Err_0)
    } else if p.len() < a + 8 {
        error::bad("KU: PAN+Seq missing"@)
    } else if p.len() < a + 16 {
        error::bad("KU: integrity session key data missing"@)
    } else if scheme is Err {
        Err(scheme->Err_0)
    } else if message is Err {
        Err(message->Err_0)
    } else if end >= p.len() || p[end] != 0x3B {
        error::bad(no_delimiter("KU"@, p, end))
    } else {
        Ok(
            SmiFields {
                key_id: (key->Ok_0).0,
                pan: common::bcd_pan(p.subrange(a, a + 8)),
                pan_seq: common::bcd_seq(p.subrange(a, a + 8)),
                mapping: scheme->Ok_0,
                message: forwarded((message->Ok_0).0, false),
            },
        )
    }
}

fn scheme_mapping(payload: &[u8], scheme: u8, at: usize) -> (r: Result<SmiMapping, ProxyError>)
    requires
        at + 8 <= payload@.len(),
    ensures
        match (r, ku_scheme(payload@, scheme, at as int)) {
            (Ok(m), Ok(v)) => m.session_mode == v.session_mode && m.value@ == v.value,
            (Err(e), Err(f)) => e@ == f,
            _ => false,
        },
{
    assert(payload.len() == payload@.len());
    if scheme == '0' as u8 {
        Ok(
            SmiMapping {
                session_mode: SessionKeyDerivationMode::Visa,
                value: SmiValue::Atc(field_hex(payload, at + 6, 2)),
            },
        )
    } else if scheme == '1' as u8 {
        Ok(
            SmiMapping {
                session_mode: SessionKeyDerivationMode::MastercardSessionKey,
                value: SmiValue::Ac(field_hex(payload, at, 8)),
            },
        )
    } else if scheme == '2' as u8 {
        Ok(
            SmiMapping {
                session_mode: SessionKeyDerivationMode::Amex,
                value: SmiValue::Atc(field_hex(payload, at + 6, 2)),
            },
        )
    } else if scheme == '5' as u8 {
        Ok(
            SmiMapping {
                session_mode: SessionKeyDerivationMode::EmvCommonSessionKey,
                value: SmiValue::Ac(field_hex(payload, at, 8)),
            },
        )
    } else if scheme == '3' as u8 || scheme == '4' as u8 {
        Err(
            ProxyError::Unsupported(
                owned("KU: scheme '").concat(byte_text(scheme).as_str()).concat(
                    "' (JCB CVN01/02) has no APC session-key method (no-session-key / JCB SKD)",
                ),
            ),
        )
    } else if scheme == '6' as u8 {
        Err(
            ProxyError::Unsupported(
                owned("KU: scheme '6' (UnionPay) is gated in KU; use JU for UnionPay"),
            ),
        )
    } else {
        Err(
            ProxyError::MalformedPayload(
                owned("KU: unknown scheme '").concat(byte_text(scheme).as_str()).concat("'"),
            ),
        )
    }
}

/// Parse the payload of KU.
pub fn parse_ku(payload: &[u8]) -> (r: Result<SmiFields, ProxyError>)
    ensures
        error::outcome(r) == ku_fields(payload@),
{
    if payload.len() == 0 {
        return Err(malformed("KU: mode flag missing"));
    }
    require_mode_0("KU", payload[0])?;
    if payload.len() < 2 {
        return Err(malformed("KU: scheme ID missing"));
    }
    let scheme: u8 = payload[1];
    let (key_id, key_consumed) = parse_key_32(payload, 2)?;
    let a: usize = 2 + key_consumed;
    if !fits(payload, a, 8) {
        return Err(malformed("KU: PAN+Seq missing"));
    }
    let (pan, pan_seq) = decode_bcd_pan_seq(field_8(payload, a));
    if !fits(payload, a, 16) {
        return Err(malformed("KU: integrity session key data missing"));
    }
    let mapping: SmiMapping = scheme_mapping(payload, scheme, a + 8)?;
    let (message, end) = if scheme == '5' as u8 {
        read_len_prefixed_message("KU", payload, a + 16)?
    } else {
        read_delimited_message("KU", payload, a + 16)?
    };
    expect_delimiter("KU", payload, end)?;
    Ok(SmiFields { key_id, pan, pan_seq, mapping, message: message_for_apc(message, false) })
}

// ── the handler ──────────────────────────────────────────────────────────────

/// What issuer-script MAC fields lead to: a MAC of four bytes, answered whole.
pub open spec fn smi_call(f: SmiView, keys: KeyTable) -> StepView {
    match keys.resolved_field(f.key_id) {
        Err(e) => handlers::failed(e),
        Ok(arn) => handlers::ask(
            ApcCall::GenerateMac {
                key: arn,
                message: f.message,
                scheme: MacScheme::EmvOptionA {
                    pan: f.pan,
                    pan_seq: f.pan_seq,
                    mode: f.mapping.session_mode,
                    value: f.mapping.value,
                },
                mac_length: Some(4i32),
            },
            Finish::WholeMac,
        ),
    }
}

/// What an issuer-script MAC command leads to. KY is not offered: it takes an
/// initial value and a key tree that APC does not model.
pub open spec fn smi_step(command_code: Seq<u8>, p: Seq<u8>, keys: KeyTable) -> StepView {
    let fields = if command_code == text::ascii_2('J', 'U') {
        ju_fields(p)
    } else if command_code == text::ascii_2('K', 'U') {
        ku_fields(p)
    } else if command_code == text::ascii_2('K', 'Y') {
        error::gated(
            "KY: EMV2000 secure-messaging integrity uses an IV-SMI and branch/height key-tree that APC's EmvMac does not model; gated pending payShield-referenced validation"@,
        )
    } else {
        error::gated(
            text::lossy_text(command_code) + ": not an issuer-script MAC command"@,
        )
    };
    match fields {
        Err(e) => handlers::failed(e),
        Ok(f) => smi_call(f, keys),
    }
}

/// payShield secure messages with integrity: JU for UnionPay, KU for the other
/// schemes. Only mode `0`, integrity alone, is mapped. KY is not offered.
pub struct IssuerScriptMacHandler;

impl Handler for IssuerScriptMacHandler {
    open spec fn codes(&self) -> Seq<Seq<char>> {
        seq!["JU"@, "KU"@, "KY"@]
    }

    open spec fn step(&self, command_code: Seq<u8>, payload: Seq<u8>, keys: KeyTable) -> StepView {
        smi_step(command_code, payload, keys)
    }

    open spec fn evidence(&self) -> Seq<Evidence> {
        seq![
            Evidence {
                decision: evidence::ISSUER_SCRIPT_MAC_1_DECISION,
                because: evidence::ISSUER_SCRIPT_MAC_1_BECAUSE,
                wire: WireGrounding::DiffXprov,
                crypto: CryptoGrounding::Apc,
                proof: Proof::LiveTest(evidence::ISSUER_SCRIPT_MAC_1_PROOF),
            },
            Evidence {
                decision: evidence::ISSUER_SCRIPT_MAC_2_DECISION,
                because: evidence::ISSUER_SCRIPT_MAC_2_BECAUSE,
                wire: WireGrounding::Ungrounded,
                crypto: CryptoGrounding::Ungrounded,
                proof: Proof::Gated(evidence::ISSUER_SCRIPT_MAC_2_PROOF),
            },
        ]
    }

    fn command_codes(&self) -> Vec<&'static str> {
        let r: Vec<&'static str> = vec!["JU", "KU", "KY"];
        assert(text::texts(r@) =~= self.codes());
        r
    }

    fn start(&self, command_code: &[u8], payload: &[u8], keys: &KeyMap) -> Step {
        let parsed: Result<SmiFields, ProxyError> = if is_ascii_2(command_code, 'J', 'U') {
            parse_ju(payload)
        } else if is_ascii_2(command_code, 'K', 'U') {
            parse_ku(payload)
        } else if is_ascii_2(command_code, 'K', 'Y') {
            Err(
                ProxyError::Unsupported(
                    owned(
                        "KY: EMV2000 secure-messaging integrity uses an IV-SMI and branch/height key-tree that APC's EmvMac does not model; gated pending payShield-referenced validation",
                    ),
                ),
            )
        } else {
            Err(
                ProxyError::Unsupported(
                    lossy(command_code).concat(": not an issuer-script MAC command"),
                ),
            )
        };
        let fields: SmiFields = match parsed {
            Ok(f) => f,
            Err(e) => {
                return fail(&e);
            },
        };
        let key: String = match keys.resolve_descriptor(&fields.key_id) {
            Ok(a) => owned(a),
            Err(e) => {
                return fail(&e);
            },
        };
        Step::Call {
            call: ApcCall::GenerateMac {
                key,
                message: fields.message,
                scheme: MacScheme::EmvOptionA {
                    pan: fields.pan,
                    pan_seq: fields.pan_seq,
                    mode: fields.mapping.session_mode,
                    value: fields.mapping.value,
                },
                mac_length: Some(4),
            },
            then: Pending::Finish(Finish::WholeMac),
        }
    }

    fn grounding(&self) -> Vec<Evidence> {
        let r: Vec<Evidence> = vec![
            Evidence {
                decision: evidence::ISSUER_SCRIPT_MAC_1_DECISION,
                because: evidence::ISSUER_SCRIPT_MAC_1_BECAUSE,
                wire: WireGrounding::DiffXprov,
                crypto: CryptoGrounding::Apc,
                proof: Proof::LiveTest(evidence::ISSUER_SCRIPT_MAC_1_PROOF),
            },
            Evidence {
                decision: evidence::ISSUER_SCRIPT_MAC_2_DECISION,
                because: evidence::ISSUER_SCRIPT_MAC_2_BECAUSE,
                wire: WireGrounding::Ungrounded,
                crypto: CryptoGrounding::Ungrounded,
                proof: Proof::Gated(evidence::ISSUER_SCRIPT_MAC_2_PROOF),
            },
        ];
        assert(r@ =~= self.evidence());
        r
    }
}

/// A JU payload is forwarded field by field: a MAC of four bytes is generated over the
/// message, padded unless the flag says that the host has done so, under the EMV2000 session
/// key of the account and sequence number that the ATC seeds, and is answered whole.
#[verifier::rlimit(30)]
pub proof fn a_unionpay_script_is_forwarded_field_by_field(
    k: Seq<u8>,
    pan: Seq<u8>,
    atc: Seq<u8>,
    padded: u8,
    length: Seq<u8>,
    data: Seq<u8>,
    more: Seq<u8>,
    keys: KeyTable,
    arn: Seq<char>,
    out: Seq<char>,
)
    requires
        common::key_32_is(keys, k, arn),
        pan.len() == 8,
        atc.len() == 2,
        padded == '0' as u8 || padded == '1' as u8,
        length.len() == 4,
        valid_utf8(length),
        text::word(decode_utf8(length), 16) == Some(data.len() as int),
    ensures
        ({
            let p = seq!['0' as u8, '1' as u8] + k + pan + atc + seq![padded] + length + data
                + seq![0x3Bu8] + more;
            &&& IssuerScriptMacHandler.step(text::ascii_2('J', 'U'), p,
                keys) matches Step::Call { call, then }
            &&& call == (ApcCall::GenerateMac {
                key: arn,
                message: text::hex_upper(
                    if padded == '1' as u8 {
                        data
                    } else {
                        common::emv_padded(data)
                    },
                ),
                scheme: MacScheme::EmvOptionA {
                    pan: common::bcd_pan(pan),
                    pan_seq: common::bcd_seq(pan),
                    mode: SessionKeyDerivationMode::Emv2000,
                    value: SmiValue::Atc(text::hex_upper(atc)),
                },
                mac_length: Some(4i32),
            })
            &&& handlers::resumed(then, ApcReply::Mac(out)) == StepView::Done(
                handlers::answered(encode_utf8(out)),
            )
        }),
{
    let p = seq!['0' as u8, '1' as u8] + k + pan + atc + seq![padded] + length + data
        + seq![0x3Bu8] + more;
    assert(common::key_32(p, 2) == common::key_32(k, 0)) by {
        let before = seq!['0' as u8, '1' as u8];
        let behind = pan + atc + seq![padded] + length + data + seq![0x3Bu8] + more;
        assert(p =~= before + k + behind);
        common::key_fields_are_read_in_place(before, k, behind);
    }
    common::key_fields_lie_within(k, 0);
    let a = 2 + k.len() as int;
    assert(p.subrange(a, a + 8) =~= pan);
    assert(p.subrange(a + 8, a + 10) =~= atc);
    assert(p[a + 10] == padded);
    assert(p.subrange(a + 11, a + 15) =~= length);
    let q = a + 15 + data.len() as int;
    assert(p.subrange(a + 15, q) =~= data);
    assert(p[q] == 0x3Bu8);
    assert(p[0] == '0' as u8 && p[1] == '1' as u8);
    lemma_script_commands_differ();
}

/// A KU payload is forwarded field by field: a MAC of four bytes is generated over the
/// message, padded, under the session key of the scheme: Visa (`0`) and American Express
/// (`2`) seeded by the last two bytes of the session key data, Mastercard (`1`) and EMV common
/// (`5`) by all eight. The message runs up to the delimiter, or in scheme `5` is behind its
/// length. The MAC is answered whole.
#[verifier::rlimit(30)]
pub proof fn an_issuer_script_is_forwarded_field_by_field(
    scheme: u8,
    k: Seq<u8>,
    pan: Seq<u8>,
    front: Seq<u8>,
    back: Seq<u8>,
    length: Seq<u8>,
    data: Seq<u8>,
    more: Seq<u8>,
    keys: KeyTable,
    arn: Seq<char>,
    out: Seq<char>,
)
    requires
        scheme == '0' as u8 || scheme == '1' as u8 || scheme == '2' as u8 || scheme == '5' as u8,
        common::key_32_is(keys, k, arn),
        pan.len() == 8,
        front.len() == 6,
        back.len() == 2,
        if scheme == '5' as u8 {
            length.len() == 4 && valid_utf8(length) && text::word(decode_utf8(length), 16) == Some(
                data.len() as int,
            )
        } else {
            length.len() == 0 && !data.contains(0x3Bu8)
        },
    ensures
        ({
            let p = seq!['0' as u8, scheme] + k + pan + front + back + length + data + seq![0x3Bu8]
                + more;
            &&& IssuerScriptMacHandler.step(text::ascii_2('K', 'U'), p,
                keys) matches Step::Call { call, then }
            &&& call == (ApcCall::GenerateMac {
                key: arn,
                message: text::hex_upper(common::emv_padded(data)),
                scheme: MacScheme::EmvOptionA {
                    pan: common::bcd_pan(pan),
                    pan_seq: common::bcd_seq(pan),
                    mode: if scheme == '0' as u8 {
                        SessionKeyDerivationMode::Visa
                    } else if scheme == '1' as u8 {
                        SessionKeyDerivationMode::MastercardSessionKey
                    } else if scheme == '2' as u8 {
                        SessionKeyDerivationMode::Amex
                    } else {
                        SessionKeyDerivationMode::EmvCommonSessionKey
                    },
                    value: if scheme == '0' as u8 || scheme == '2' as u8 {
                        SmiValue::Atc(text::hex_upper(back))
                    } else {
                        SmiValue::Ac(text::hex_upper(front + back))
                    },
                },
                mac_length: Some(4i32),
            })
            &&& handlers::resumed(then, ApcReply::Mac(out)) == StepView::Done(
                handlers::answered(encode_utf8(out)),
            )
        }),
{
    let p = seq!['0' as u8, scheme] + k + pan + front + back + length + data + seq![0x3Bu8] + more;
    assert(common::key_32(p, 2) == common::key_32(k, 0)) by {
        let before = seq!['0' as u8, scheme];
        let behind = pan + front + back + length + data + seq![0x3Bu8] + more;
        assert(p =~= before + k + behind);
        common::key_fields_are_read_in_place(before, k, behind);
    }
    common::key_fields_lie_within(k, 0);
    let a = 2 + k.len() as int;
    assert(p.subrange(a, a + 8) =~= pan);
    assert(p.subrange(a + 14, a + 16) =~= back);
    let q = a + 16 + length.len() as int;
    assert(p.subrange(a + 16, q) =~= length);
    let r = q + data.len() as int;
    assert(p.subrange(q, r) =~= data);
    assert(p[r] == 0x3Bu8);
    assert(p[0] == '0' as u8 && p[1] == scheme);
    assert(p.subrange(a + 8, a + 16) =~= front + back);
    lemma_script_commands_differ();
    if scheme != '5' as u8 {
        let ending = seq![0x3Bu8] + more;
        assert(p.skip(a + 16) =~= data + ending);
        lemma_script_ends_at_delimiter(data, ending);
    }
}

proof fn lemma_script_ends_at_delimiter(data: Seq<u8>, ending: Seq<u8>)
    requires
        !data.contains(0x3Bu8),
        ending.len() > 0,
        ending[0] == 0x3Bu8,
    ensures
        text::first_index(data + ending, 0x3B) == data.len(),
{
    text::first_index_is_first(data + ending, 0x3B);
    let i = text::first_index(data + ending, 0x3B);
    if i < data.len() {
        assert((data + ending)[i] == data[i]);
    }
    if i > data.len() {
        assert((data + ending)[data.len() as int] == ending[0]);
    }
}

proof fn lemma_script_commands_differ()
    ensures
        text::ascii_2('J', 'U') != text::ascii_2('K', 'U'),
        text::ascii_2('J', 'U') != text::ascii_2('K', 'Y'),
        text::ascii_2('K', 'U') != text::ascii_2('K', 'Y'),
{
    assert(text::ascii_2('J', 'U')[0] == 'J' as u8 && text::ascii_2('K', 'U')[0] == 'K' as u8);
    assert(text::ascii_2('K', 'U')[1] == 'U' as u8 && text::ascii_2('K', 'Y')[1] == 'Y' as u8);
    assert(text::ascii_2('K', 'Y')[0] == 'K' as u8);
}

/// A JU or KU command leads to a call only in mode `0` and for a scheme that is offered, and only
/// if its payload holds every field and the delimiter. Modes `1` to `4` are answered with code
/// `68`.
pub proof fn only_whole_scripts_lead_to_a_call(ku: bool, p: Seq<u8>, keys: KeyTable)
    ensures
        ({
            let a = 2 + (common::key_32(p, 2)->Ok_0).1;
            let step = IssuerScriptMacHandler.step(if ku {
                text::ascii_2('K', 'U')
            } else {
                text::ascii_2('J', 'U')
            }, p, keys);
            &&& match step {
                Step::Call { call, .. } => {
                    &&& p[0] == '0' as u8
                    &&& !ku ==> p[1] == '1' as u8
                    &&& ku ==> p[1] == '0' as u8 || p[1] == '1' as u8 || p[1] == '2' as u8
                        || p[1] == '5' as u8
                    &&& common::key_32(p, 2) is Ok
                    &&& p.len() > a + 15
                    &&& !ku ==> p[a + 10] == '0' as u8 || p[a + 10] == '1' as u8
                    &&& exists|i: int| a + 15 <= i < p.len() && p[i] == ';' as u8
                },
                Step::Done(r) => r.payload.len() == 0 && (r.error_code == text::ascii_2('1', '0')
                    || r.error_code == text::ascii_2('1', '5')
                    || r.error_code == text::ascii_2('6', '8')),
            }
            &&& p.len() > 0 && '1' as u8 <= p[0] <= '4' as u8
                ==> step == StepView::Done(handlers::refused(text::ascii_2('6', '8')))
            &&& p.len() > 0 && (p[0] < '0' as u8 || p[0] > '4' as u8)
                ==> step == StepView::Done(handlers::refused(text::ascii_2('1', '5')))
            &&& ku && p.len() >= a + 16 && p[0] == '0' as u8 && common::key_32(p, 2) is Ok && (p[1]
                == '3' as u8 || p[1] == '4' as u8 || p[1] == '6' as u8)
                ==> step == StepView::Done(handlers::refused(text::ascii_2('6', '8')))
            &&& step == StepView::Done(handlers::refused(text::ascii_2('6', '8')))
                ==> '1' as u8 <= p[0] <= '4' as u8 || ku && (p[1] == '3' as u8 || p[1] == '4' as u8
                || p[1] == '6' as u8)
        }),
{
    assert(text::ascii_2('6', '8')[0] == '6' as u8 && text::ascii_2('1', '5')[0] == '1' as u8);
    assert(text::ascii_2('1', '0')[0] == '1' as u8 && text::ascii_2('2', '3')[0] == '2' as u8);
    lemma_script_commands_differ();
    text::numbers_are_natural(decode_utf8(p.subrange(2 + (common::key_32(p, 2)->Ok_0).1 + 11, 2
        + (common::key_32(p, 2)->Ok_0).1 + 15)), 16);
    common::key_fields_lie_within(p, 2);
    let a = 2 + (common::key_32(p, 2)->Ok_0).1;
    let message = if !ku {
        counted_message("JU"@, p, a + 11)
    } else if p[1] == '5' as u8 {
        counted_message("KU"@, p, a + 16)
    } else {
        delimited_message("KU"@, p, a + 16)
    };
    let end = (message->Ok_0).1;
    text::first_index_is_first(p.skip(a + 16), 0x3B);
    text::numbers_are_natural(decode_utf8(p.subrange(a + 16, a + 20)), 16);
    assert(p[end] == ';' as u8 ==> p[end] == 0x3B);
    common::unreadable_fields_are_answered_15(p, 2);
}

/// KY is not offered: it is answered with code `68`, whatever it carries.
pub proof fn key_trees_are_not_offered(p: Seq<u8>, keys: KeyTable)
    ensures
        IssuerScriptMacHandler.step(text::ascii_2('K', 'Y'), p, keys) == StepView::Done(
            handlers::refused(text::ascii_2('6', '8')),
        ),
{
    lemma_script_commands_differ();
}

} // verus!
