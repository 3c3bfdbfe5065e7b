//! KW: verify an authorisation request cryptogram, EMV and cloud schemes.

use vstd::prelude::*;
use vstd::string::*;
#[allow(unused_imports)]
use vstd::utf8::encode_utf8;

#[allow(unused_imports)]
use crate::apc::{ApcReply, AuthResponse};
use crate::apc::{ApcCall, MajorKeyDerivation};
#[allow(unused_imports)]
use crate::error;
use crate::error::{Failure, ProxyError};
#[allow(unused_imports)]
use crate::handlers;
use crate::handlers::evidence;
use crate::handlers::grounding::{CryptoGrounding, Evidence, Proof, WireGrounding};
#[allow(unused_imports)]
use crate::handlers::thales::common;
use crate::handlers::thales::common::{
    build_auth_response, build_session_key, decode_bcd_pan_seq, field_8, field_be16, field_hex,
    field_padded_hex, malformed, parse_legacy_key, ArpcParams, EmvSession,
};
#[allow(unused_imports)]
use crate::handlers::thales::common::SessionKey;
use crate::handlers::{fail, Finish, Handler, Pending, Step, StepView};
use crate::key_map::{KeyDescriptor, KeyMap, KeyTable};
use crate::secret::Secret;
#[allow(unused_imports)]
use crate::text;
use crate::text::{byte_text, decimal_text, fits, owned};

verus! {

/// What is asked for beside the verification.
#[derive(Clone, Copy, Debug, PartialEq, Eq, Structural)]
pub enum KwMode {
    VerifyOnly,
    VerifyArpcMethod1,
    VerifyArpcMethod2,
}

/// What a KW command asks for.
pub struct KwFields<T = String, S = Secret> {
    pub key_id: KeyDescriptor<T>,
    pub mode: KwMode,
    /// Whether the card's master key is derived by option A, and not B.
    pub deriv_mode_a: bool,
    pub session: EmvSession,
    pub pan: T,
    pub pan_seq: T,
    pub atc: T,
    pub un: T,
    pub txn_data: S,
    pub arqc: T,
    pub arpc_params: Option<ArpcParams<T>>,
}

/// The fields of a KW command as contracts speak of them.
pub type KwView = KwFields<Seq<char>, Seq<char>>;

impl View for KwFields<String, Secret> {
    type V = KwView;

    open spec fn view(&self) -> KwView {
        KwFields {
            key_id: self.key_id@,
            mode: self.mode,
            deriv_mode_a: self.deriv_mode_a,
            session: self.session,
            pan: self.pan@,
            pan_seq: self.pan_seq@,
            atc: self.atc@,
            un: self.un@,
            txn_data: self.txn_data@,
            arqc: self.arqc@,
            arpc_params: common::maybe_arpc(self.arpc_params),
        }
    }
}

/// The mode of a mode flag.
pub open spec fn kw_mode(flag: u8) -> Result<KwMode, Failure> {
    if flag == '0' as u8 {
        Ok(KwMode::VerifyOnly)
    } else if flag == '1' as u8 {
        Ok(KwMode::VerifyArpcMethod1)
    } else if flag == '2' as u8 {
        Ok(KwMode::VerifyArpcMethod2)
    } else if flag == '3' as u8 || flag == '4' as u8 {
        error::bad("KW: modes 3/4 (skip-verify) not supported by APC"@)
    } else {
        error::bad("KW: invalid mode flag '"@ + seq![flag as char] + "'"@)
    }
}

/// What a scheme selects: whether option A, and the session-key method.
pub open spec fn kw_scheme(id: u8) -> Result<(bool, EmvSession), Failure> {
    if id == '0' as u8 {
        Ok((true, EmvSession::Emv2000))
    } else if id == '1' as u8 {
        Ok((false, EmvSession::Emv2000))
    } else if id == '2' as u8 || id == '5' as u8 {
        Ok((true, EmvSession::EmvCommon))
    } else if id == '3' as u8 {
        Ok((false, EmvSession::EmvCommon))
    } else if id == '4' as u8 || ('6' as u8 <= id <= '9' as u8) || ('A' as u8 <= id <= 'C' as u8) {
        error::gated(
            "KW scheme '"@ + seq![id as char]
                + "' (cloud/LUK/Option-C/JCB/UnionPay SKD) has no APC equivalent"@,
        )
    } else {
        error::bad("KW: invalid scheme ID '"@ + seq![id as char] + "'"@)
    }
}

/// A KW payload: 0 mode flag, 1 scheme, 2 derivation method (`A` or `B`), 3 key
/// type, 6 key; then account and sequence number (eight bytes BCD), ATC (two
/// bytes), unpredictable number (four), length of the transaction data (two,
/// big-endian), the data, the delimiter `;`, the cryptogram (eight), and by mode
/// the response code (two) or the status update (four) with length-prefixed
/// proprietary data.
pub open spec fn kw_fields(p: Seq<u8>) -> Result<KwView, Failure> {
    let mode = kw_mode(p[0]);
    let scheme = kw_scheme(p[1]);
    let key = common::legacy_key(p, 6);
    let a = 6 + (key->Ok_0).1;
    let txn_len = text::be16(p, a + 14);
    let d = a + 16 + txn_len;
    let tail = d + 9;
    if p.len() < 1 {
        error::bad("KW: mode flag missing"@)
    } else if mode is Err {
        Err(mode->Err_0)
    } else if p.len() < 2 {
        error::bad("KW: scheme ID missing"@)
    } else if scheme is Err {
        Err(scheme->Err_0)
    } else if p.len() < 3 {
        error::bad("KW: derivation method missing"@)
    } else if p[2] != 'A' as u8 && p[2] != 'B' as u8 {
        error::bad(
            "KW: invalid derivation method '"@ + seq![p[2] as char] + "' ('A' or 'B')"@,
        )
    } else if p.len() < 6 {
        error::bad("KW: key type missing"@)
    } else if key is Err {
        Err(key->Err_0)
    } else if p.len() < a + 8 {
        error::bad("KW: PAN+seq field missing"@)
    } else if p.len() < a + 10 {
        error::bad("KW: ATC missing"@)
    } else if p.len() < a + 14 {
        error::bad("KW: UN missing"@)
    } else if p.len() < a + 16 {
        error::bad("KW: transaction data length missing"@)
    } else if p.len() < d {
        error::bad(
            "KW: transaction data too short: need "@ + text::decimal(txn_len as nat) + " bytes"@,
        )
    } else if p.len() < d + 1 || p[d] != 0x3B {
        error::bad("KW: missing 0x3B delimiter"@)
    } else if p.len() < d + 9 {
        error::bad("KW: ARQC missing"@)
    } else if mode->Ok_0 == KwMode::VerifyArpcMethod1 && p.len() < tail + 2 {
        error::bad("KW Method1: ARC missing"@)
    } else if mode->Ok_0 == KwMode::VerifyArpcMethod2 && p.len() < tail + 4 {
        error::bad("KW Method2: CSU missing"@)
    } else if mode->Ok_0 == KwMode::VerifyArpcMethod2 && p.len() < tail + 5 {
        error::bad("KW Method2: PAD length missing"@)
    } else if mode->Ok_0 == KwMode::VerifyArpcMethod2 && p.len() < tail + 5 + p[tail + 4] {
        error::bad("KW Method2: PAD data truncated"@)
    } else {
        Ok(
            KwFields {
                key_id: (key->Ok_0).0,
                mode: mode->Ok_0,
                deriv_mode_a: (scheme->Ok_0).0,
                session: (scheme->Ok_0).1,
                pan: common::bcd_pan(p.subrange(a, a + 8)),
                pan_seq: common::bcd_seq(p.subrange(a, a + 8)),
                atc: common::hex_at(p, a + 8, 2),
                un: common::hex_at(p, a + 10, 4),
                txn_data: common::padded_hex_at(p, a + 16, txn_len),
                arqc: common::hex_at(p, d + 1, 8),
                arpc_params: match mode->Ok_0 {
                    KwMode::VerifyOnly => None,
                    KwMode::VerifyArpcMethod1 => Some(
                        ArpcParams::Method1 { auth_response_code: common::hex_at(p, tail, 2) },
                    ),
                    KwMode::VerifyArpcMethod2 => Some(
                        ArpcParams::Method2 {
                            card_status_update: common::hex_at(p, tail, 4),
                            proprietary_auth_data: common::hex_at(
                                p,
                                tail + 5,
                                p[tail + 4] as int,
                            ),
                        },
                    ),
                },
            },
        )
    }
}

fn mode_of(flag: u8) -> (r: Result<KwMode, ProxyError>)
    ensures
        match r {
            Ok(m) => kw_mode(flag) == Ok::<KwMode, Failure>(m),
            Err(e) => kw_mode(flag) == Err::<KwMode, Failure>(e@),
        },
{
    if flag == '0' as u8 {
        Ok(KwMode::VerifyOnly)
    } else if flag == '1' as u8 {
        Ok(KwMode::VerifyArpcMethod1)
    } else if flag == '2' as u8 {
        Ok(KwMode::VerifyArpcMethod2)
    } else if flag == '3' as u8 || flag == '4' as u8 {
        Err(malformed("KW: modes 3/4 (skip-verify) not supported by APC"))
    } else {
        Err(
            ProxyError::MalformedPayload(
                owned("KW: invalid mode flag '").concat(byte_text(flag).as_str()).concat("'"),
            ),
        )
    }
}

fn scheme_of(id: u8) -> (r: Result<(bool, EmvSession), ProxyError>)
    ensures
        match r {
            Ok(s) => kw_scheme(id) == Ok::<(bool, EmvSession), Failure>(s),
            Err(e) => kw_scheme(id) == Err::<(bool, EmvSession), Failure>(e@),
        },
{
    if id == '0' as u8 {
        Ok((true, EmvSession::Emv2000))
    } else if id == '1' as u8 {
        Ok((false, EmvSession::Emv2000))
    } else if id == '2' as u8 || id == '5' as u8 {
        Ok((true, EmvSession::EmvCommon))
    } else if id == '3' as u8 {
        Ok((false, EmvSession::EmvCommon))
    } else if id == '4' as u8 || ('6' as u8 <= id && id <= '9' as u8) || ('A' as u8 <= id && id
        <= 'C' as u8) {
        Err(
            ProxyError::Unsupported(
                owned("KW scheme '").concat(byte_text(id).as_str()).concat(
                    "' (cloud/LUK/Option-C/JCB/UnionPay SKD) has no APC equivalent",
                ),
            ),
        )
    } else {
        Err(
            ProxyError::MalformedPayload(
                owned("KW: invalid scheme ID '").concat(byte_text(id).as_str()).concat("'"),
            ),
        )
    }
}

/// Parse the payload of KW.
pub fn parse_kw(payload: &[u8]) -> (r: Result<KwFields, ProxyError>)
    ensures
        error::outcome(r) == kw_fields(payload@),
{
    if payload.len() < 1 {
        return Err(malformed("KW: mode flag missing"));
    }
    let mode: KwMode = mode_of(payload[0])?;
    if payload.len() < 2 {
        return Err(malformed("KW: scheme ID missing"));
    }
    let (deriv_mode_a, session) = scheme_of(payload[1])?;
    if payload.len() < 3 {
        return Err(malformed("KW: derivation method missing"));
    }
    if payload[2] != 'A' as u8 && payload[2] != 'B' as u8 {
        return Err(
            ProxyError::MalformedPayload(
                owned("KW: invalid derivation method '").concat(
                    byte_text(payload[2]).as_str(),
                ).concat("' ('A' or 'B')"),
            ),
        );
    }
    if payload.len() < 6 {
        return Err(malformed("KW: key type missing"));
    }
    let (key_id, key_consumed) = parse_legacy_key(payload, 6)?;
    let a: usize = 6 + key_consumed;
    if !fits(payload, a, 8) {
        return Err(malformed("KW: PAN+seq field missing"));
    }
    let (pan, pan_seq) = decode_bcd_pan_seq(field_8(payload, a));
    if !fits(payload, a, 10) {
        return Err(malformed("KW: ATC missing"));
    }
    let atc: String = field_hex(payload, a + 8, 2);
    if !fits(payload, a, 14) {
        return Err(malformed("KW: UN missing"));
    }
    let un: String = field_hex(payload, a + 10, 4);
    if !fits(payload, a, 16) {
        return Err(malformed("KW: transaction data length missing"));
    }
    let txn_len: usize = field_be16(payload, a + 14);
    if !fits(payload, a + 16, txn_len) {
        return Err(
            ProxyError::MalformedPayload(
                owned("KW: transaction data too short: need ").concat(
                    decimal_text(txn_len as u128).as_str(),
                ).concat(" bytes"),
            ),
        );
    }
    let txn_data: Secret = field_padded_hex(payload, a + 16, txn_len);
    let d: usize = a + 16 + txn_len;
    if !fits(payload, d, 1) || payload[d] != 0x3B {
        return Err(malformed("KW: missing 0x3B delimiter"));
    }
    if !fits(payload, d, 9) {
        return Err(malformed("KW: ARQC missing"));
    }
    let arqc: String = field_hex(payload, d + 1, 8);
    let tail: usize = d + 9;
    let arpc_params: Option<ArpcParams> = match mode {
        KwMode::VerifyOnly => None,
        KwMode::VerifyArpcMethod1 => {
            if !fits(payload, tail, 2) {
                return Err(malformed("KW Method1: ARC missing"));
            }
            Some(ArpcParams::Method1 { auth_response_code: field_hex(payload, tail, 2) })
        },
        KwMode::VerifyArpcMethod2 => {
            if !fits(payload, tail, 4) {
                return Err(malformed("KW Method2: CSU missing"));
            }
            if !fits(payload, tail, 5) {
                return Err(malformed("KW Method2: PAD length missing"));
            }
            let pad_len: usize = payload[tail + 4] as usize;
            if !fits(payload, tail + 5, pad_len) {
                return Err(malformed("KW Method2: PAD data truncated"));
            }
            Some(
                ArpcParams::Method2 {
                    card_status_update: field_hex(payload, tail, 4),
                    proprietary_auth_data: field_hex(payload, tail + 5, pad_len),
                },
            )
        },
    };
    Ok(
        KwFields {
            key_id,
            mode,
            deriv_mode_a,
            session,
            pan,
            pan_seq,
            atc,
            un,
            txn_data,
            arqc,
            arpc_params,
        },
    )
}

/// What a KW command leads to.
pub open spec fn kw_step(p: Seq<u8>, keys: KeyTable) -> StepView {
    match kw_fields(p) {
        Err(e) => handlers::failed(e),
        Ok(f) => match keys.resolved_field(f.key_id) {
            Err(e) => handlers::failed(e),
            Ok(arn) => handlers::ask(
                ApcCall::VerifyCryptogram {
                    key: arn,
                    transaction_data: f.txn_data,
                    cryptogram: f.arqc,
                    derivation: if f.deriv_mode_a {
                        MajorKeyDerivation::EmvOptionA
                    } else {
                        MajorKeyDerivation::EmvOptionB
                    },
                    session: common::session_key(f.session, f.pan, f.pan_seq, f.atc, f.un),
                    response: common::auth_response(f.arpc_params),
                },
                Finish::Arpc,
            ),
        },
    }
}

/// payShield KW: verify a cryptogram and, by mode, generate the response to it.
/// The scheme selects both the derivation of the card's master key (option A or
/// B) and the session-key method (EMV2000 or EMV common).
pub struct KwArqcHandler;

impl Handler for KwArqcHandler {
    open spec fn codes(&self) -> Seq<Seq<char>> {
        seq!["KW"@]
    }

    open spec fn step(&self, command_code: Seq<u8>, payload: Seq<u8>, keys: KeyTable) -> StepView {
        kw_step(payload, keys)
    }

    open spec fn evidence(&self) -> Seq<Evidence> {
        seq![
            Evidence {
                decision: evidence::KW_ARQC_1_DECISION,
                because: evidence::KW_ARQC_1_BECAUSE,
                wire: WireGrounding::DiffXprov,
                crypto: CryptoGrounding::Apc,
                proof: Proof::LiveTest(evidence::KW_ARQC_1_PROOF),
            },
        ]
    }

    fn command_codes(&self) -> Vec<&'static str> {
        let r: Vec<&'static str> = vec!["KW"];
        assert(text::texts(r@) =~= self.codes());
        r
    }

    fn start(&self, command_code: &[u8], payload: &[u8], keys: &KeyMap) -> Step {
        let fields: KwFields = match parse_kw(payload) {
            Ok(f) => f,
            Err(e) => {
                return fail(&e);
            },
        };
        let key: String = match keys.resolve_descriptor(&fields.key_id) {
            Ok(a) => owned(a),
            Err(e) => {
                return fail(&e);
            },
        };
        let session = build_session_key(
            fields.session,
            fields.pan.as_str(),
            fields.pan_seq.as_str(),
            fields.atc.as_str(),
            fields.un.as_str(),
        );
        let derivation: MajorKeyDerivation = if fields.deriv_mode_a {
            MajorKeyDerivation::EmvOptionA
        } else {
            MajorKeyDerivation::EmvOptionB
        };
        Step::Call {
            call: ApcCall::VerifyCryptogram {
                key,
                transaction_data: fields.txn_data,
                cryptogram: fields.arqc,
                derivation,
                session,
                response: build_auth_response(fields.arpc_params),
            },
            then: Pending::Finish(Finish::Arpc),
        }
    }

    fn grounding(&self) -> Vec<Evidence> {
        let r: Vec<Evidence> = vec![
            Evidence {
                decision: evidence::KW_ARQC_1_DECISION,
                because: evidence::KW_ARQC_1_BECAUSE,
                wire: WireGrounding::DiffXprov,
                crypto: CryptoGrounding::Apc,
                proof: Proof::LiveTest(evidence::KW_ARQC_1_PROOF),
            },
        ];
        assert(r@ =~= self.evidence());
        r
    }
}

/// Every KW command that leads to a call has the card's master key derived by option A
/// where its scheme byte is `0`, `2` or `5`, and by option B where it is `1` or `3`; the
/// session key goes by EMV2000 in schemes `0` and `1` and by EMV common in the others.
pub proof fn the_scheme_byte_decides_the_derivation(p: Seq<u8>, keys: KeyTable)
    ensures
        KwArqcHandler.step(text::ascii_2('K', 'W'), p, keys) matches Step::Call { call, .. } ==> {
            &&& p.len() > 1
            &&& call is VerifyCryptogram
            &&& p[1] == '0' as u8 || p[1] == '1' as u8 || p[1] == '2' as u8 || p[1] == '3' as u8
                || p[1] == '5' as u8
            &&& call->derivation == MajorKeyDerivation::EmvOptionA <==> p[1] == '0' as u8 || p[1]
                == '2' as u8 || p[1] == '5' as u8
            &&& call->derivation == MajorKeyDerivation::EmvOptionB <==> p[1] == '1' as u8 || p[1]
                == '3' as u8
            &&& call->session is Emv2000 <==> p[1] == '0' as u8 || p[1] == '1' as u8
            &&& call->session is EmvCommon <==> p[1] == '2' as u8 || p[1] == '3' as u8 || p[1]
                == '5' as u8
        },
{
}

/// A KW payload is forwarded field by field: a payload that is put together from a key
/// field, account and sequence number, ATC, unpredictable number, transaction data,
/// cryptogram and response data leads to the verification of that cryptogram over that
/// data, padded, under that key, with the response that its mode asks for. A response
/// cryptogram that comes back is answered as it is.
#[verifier::rlimit(30)]
pub proof fn cryptograms_are_forwarded_field_by_field(
    flags: Seq<u8>,
    key_type: Seq<u8>,
    k: Seq<u8>,
    pan: Seq<u8>,
    atc: Seq<u8>,
    un: Seq<u8>,
    data: Seq<u8>,
    arqc: Seq<u8>,
    response: Seq<u8>,
    pad: Seq<u8>,
    more: Seq<u8>,
    keys: KeyTable,
    arn: Seq<char>,
    arpc: Seq<char>,
)
    requires
        flags.len() == 3,
        '0' as u8 <= flags[0] <= '2' as u8,
        '0' as u8 <= flags[1] <= '3' as u8 || flags[1] == '5' as u8,
        flags[2] == 'A' as u8 || flags[2] == 'B' as u8,
        key_type.len() == 3,
        common::legacy_key_is(keys, k, arn),
        pan.len() == 8,
        atc.len() == 2,
        un.len() == 4,
        data.len() <= 0xFFFF,
        arqc.len() == 8,
        flags[0] == '1' as u8 ==> response.len() == 2,
        flags[0] == '2' as u8 ==> response.len() == 4,
        pad.len() <= 0xFF,
    ensures
        ({
            let data_len = seq![(data.len() / 256) as u8, (data.len() % 256) as u8];
            let tail = if flags[0] == '0' as u8 {
                more
            } else if flags[0] == '1' as u8 {
                response + more
            } else {
                response + seq![pad.len() as u8] + pad + more
            };
            let p = flags + key_type + k + pan + atc + un + data_len + data + seq![0x3Bu8] + arqc
                + tail;
            let account = common::bcd_pan(pan);
            let number = common::bcd_seq(pan);
            KwArqcHandler.step(text::ascii_2('K', 'W'), p, keys) matches Step::Call { call, then }
                && call == (ApcCall::VerifyCryptogram {
                key: arn,
                transaction_data: text::hex_upper(common::emv_padded(data)),
                cryptogram: text::hex_upper(arqc),
                derivation: if flags[1] == '1' as u8 || flags[1] == '3' as u8 {
                    MajorKeyDerivation::EmvOptionB
                } else {
                    MajorKeyDerivation::EmvOptionA
                },
                session: if flags[1] == '0' as u8 || flags[1] == '1' as u8 {
                    SessionKey::Emv2000 {
                        pan: account,
                        pan_seq: number,
                        atc: text::hex_upper(atc),
                    }
                } else {
                    SessionKey::EmvCommon {
                        pan: account,
                        pan_seq: number,
                        atc: text::hex_upper(atc),
                    }
                },
                response: if flags[0] == '0' as u8 {
                    None
                } else if flags[0] == '1' as u8 {
                    Some(AuthResponse::Method1 { auth_response_code: text::hex_upper(response) })
                } else {
                    Some(
                        AuthResponse::Method2 {
                            card_status_update: text::hex_upper(response),
                            proprietary_auth_data: if pad.len() == 0 {
                                None
                            } else {
                                Some(text::hex_upper(pad))
                            },
                        },
                    )
                },
            }) && handlers::resumed(then, ApcReply::Cryptogram(Some(arpc))) == StepView::Done(
                handlers::answered(encode_utf8(arpc)),
            ) && handlers::resumed(then, ApcReply::Cryptogram(None)) == StepView::Done(
                handlers::answered(Seq::empty()),
            ) && handlers::resumed(then, ApcReply::VerificationFailed) == StepView::Done(
                handlers::refused(text::ascii_2('0', '1')),
            )
        }),
{
    let tail = if flags[0] == '0' as u8 {
        more
    } else if flags[0] == '1' as u8 {
        response + more
    } else {
        response + seq![pad.len() as u8] + pad + more
    };
    let data_len = seq![(data.len() / 256) as u8, (data.len() % 256) as u8];
    let head = flags + key_type;
    let front = head + k;
    let behind = pan + atc + un + data_len + data + seq![0x3Bu8] + arqc + tail;
    let p = front + pan + atc + un + data_len + data + seq![0x3Bu8] + arqc + tail;
    assert(common::legacy_key(p, 6) == common::legacy_key(k, 0)) by {
        assert(p =~= head + k + behind);
        common::key_fields_are_read_in_place(head, k, behind);
    }
    common::key_fields_lie_within(k, 0);
    common::cryptogram_fields_are_read_in_place(front, pan, atc, un, data, arqc, tail);
    common::response_data_is_read_in_place(response, pad, more);
    assert(p[0] == flags[0] && p[1] == flags[1] && p[2] == flags[2]);
}

/// A KW command leads to a call only if its flags are known and its payload holds every field
/// that they ask for, with the delimiter in its place. A scheme that is not offered is
/// answered with code `68`; what is unknown or cut short, with `15`; a key that is not found,
/// with `10`.
pub proof fn only_whole_payloads_lead_to_a_call(p: Seq<u8>, keys: KeyTable)
    ensures
        ({
            let a = 6 + (common::legacy_key(p, 6)->Ok_0).1;
            let d = a + 16 + text::be16(p, a + 14);
            let step = KwArqcHandler.step(text::ascii_2('K', 'W'), p, keys);
            &&& match step {
                Step::Call { call, .. } => {
                    &&& '0' as u8 <= p[0] <= '2' as u8
                    &&& p[2] == 'A' as u8 || p[2] == 'B' as u8
                    &&& common::legacy_key(p, 6) is Ok
                    &&& p.len() >= d + 9
                    &&& p[d] == 0x3Bu8
                    &&& p[0] == '1' as u8 ==> p.len() >= d + 11
                    &&& p[0] == '2' as u8 ==> p.len() >= d + 14 + p[d + 13]
                },
                Step::Done(r) => r.payload.len() == 0 && (r.error_code == text::ascii_2('1', '0')
                    || r.error_code == text::ascii_2('1', '5')
                    || r.error_code == text::ascii_2('6', '8')),
            }
            &&& p.len() > 0 && !('0' as u8 <= p[0] <= '2' as u8)
                ==> step == StepView::Done(handlers::refused(text::ascii_2('1', '5')))
            &&& p.len() > 1 && '0' as u8 <= p[0] <= '2' as u8 && (p[1] == '4' as u8
                || '6' as u8 <= p[1]
                <= '9' as u8 || 'A' as u8 <= p[1] <= 'C' as u8)
                    ==> step == StepView::Done(handlers::refused(text::ascii_2('6', '8')))
            &&& p.len() > 1 && (p[1] < '0' as u8 || p[1] > '9' as u8 && p[1] < 'A' as u8
                || p[1] > 'C' as u8) ==> step
                == StepView::Done(handlers::refused(text::ascii_2('1', '5')))
            &&& step == StepView::Done(handlers::refused(text::ascii_2('6', '8')))
                ==> p[1] == '4' as u8
                || '6' as u8 <= p[1] <= '9' as u8 || 'A' as u8 <= p[1] <= 'C' as u8
        }),
{
    assert(text::ascii_2('6', '8')[0] == '6' as u8 && text::ascii_2('1', '5')[0] == '1' as u8);
    assert(text::ascii_2('1', '0')[0] == '1' as u8 && text::ascii_2('2', '3')[0] == '2' as u8);
    let a = 6 + (common::legacy_key(p, 6)->Ok_0).1;
    common::unreadable_fields_are_answered_15(p, 6);
}

} // verus!
