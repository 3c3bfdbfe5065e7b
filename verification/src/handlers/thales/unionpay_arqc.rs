//! JS: verify a UnionPay authorisation request cryptogram.

use vstd::prelude::*;
use vstd::string::*;
#[allow(unused_imports)]
use vstd::utf8::{decode_utf8, encode_utf8, valid_utf8};

#[allow(unused_imports)]
use crate::apc::ApcReply;
use crate::apc::{ApcCall, AuthResponse, MajorKeyDerivation};
#[allow(unused_imports)]
use crate::error;
use crate::error::{Failure, ProxyError};
#[allow(unused_imports)]
use crate::handlers;
use crate::handlers::evidence;
use crate::handlers::grounding::{CryptoGrounding, Evidence, Proof, WireGrounding};
#[allow(unused_imports)]
use crate::handlers::thales::common;
use crate::handlers::thales::common::{
    decode_bcd_pan_seq, field_8, field_hex, field_padded_hex, malformed, parse_key_32, show_byte,
    SessionKey,
};
use crate::handlers::{fail, Finish, Handler, Pending, Step, StepView};
use crate::key_map::{KeyDescriptor, KeyMap, KeyTable};
use crate::secret::Secret;
#[allow(unused_imports)]
use crate::text;
use crate::text::{byte_text, decimal_text, fits, owned, utf8, word_of};

verus! {

/// What a JS command asks for.
pub struct JsFields<T = String, S = Secret> {
    pub key_id: KeyDescriptor<T>,
    pub pan: T,
    pub pan_seq: T,
    pub atc: T,
    pub txn_data: S,
    pub arqc: T,
    /// The response code, if a response cryptogram is asked for.
    pub arc: Option<T>,
}

/// The fields of a JS command as contracts speak of them.
pub type JsView = JsFields<Seq<char>, Seq<char>>;

impl View for JsFields<String, Secret> {
    type V = JsView;

    open spec fn view(&self) -> JsView {
        JsFields {
            key_id: self.key_id@,
            pan: self.pan@,
            pan_seq: self.pan_seq@,
            atc: self.atc@,
            txn_data: self.txn_data@,
            arqc: self.arqc@,
            arc: crate::key_map::maybe(self.arc),
        }
    }
}

/// A JS payload: 0 mode (`0` verify, `1` verify and respond), 1 scheme, 2 key;
/// then account and sequence number (eight bytes BCD), ATC (two bytes), padding
/// flag, length of the transaction data (two hexadecimal digits), the data, the
/// delimiter `;`, the cryptogram (eight bytes), and for mode `1` the response
/// code (two).
pub open spec fn js_fields(p: Seq<u8>) -> Result<JsView, Failure> {
    let key = common::key_32(p, 2);
    let a = 2 + (key->Ok_0).1;
    let len_bytes = p.subrange(a + 11, a + 13);
    let len_text = decode_utf8(len_bytes);
    let len = text::word(len_text, 16);
    let d = a + 13 + len->0;
    if p.len() == 0 {
        error::bad("JS: mode flag missing"@)
    } else if p[0] == '2' as u8 {
        error::bad("JS: mode '2' (ARPC-only) not supported — APC requires transaction data"@)
    } else if p[0] != '0' as u8 && p[0] != '1' as u8 {
        error::bad("JS: unknown mode '"@ + seq![p[0] as char] + "'"@)
    } else if p.len() < 2 {
        error::bad("JS: scheme ID missing"@)
    } else if key is Err {
        Err(key->Err_0)
    } else if p.len() < a + 8 {
        error::bad("JS: PAN+Seq missing"@)
    } else if p.len() < a + 10 {
        error::bad("JS: ATC missing"@)
    } else if p.len() < a + 11 {
        error::bad("JS: padding flag missing"@)
    } else if p.len() < a + 13 {
        error::bad("JS: TxnLen missing"@)
    } else if !valid_utf8(len_bytes) {
        error::bad("JS: TxnLen not ASCII"@)
    } else if len is None {
        error::bad("JS: invalid TxnLen '"@ + len_text + "'"@)
    } else if p.len() < d {
        error::bad("JS: TxnData truncated: need "@ + text::decimal(len->0 as nat) + "B"@)
    } else if p.len() < d + 1 || p[d] != 0x3B {
        error::bad(
            "JS: expected 0x3B delimiter at offset "@ + text::decimal(d as nat) + ", got "@
                + common::byte_or_none(p, d),
        )
    } else if p.len() < d + 9 {
        error::bad("JS: ARQC missing"@)
    } else if p[0] == '1' as u8 && p.len() < d + 11 {
        error::bad("JS Mode1: ARC missing"@)
    } else {
        Ok(
            JsFields {
                key_id: (key->Ok_0).0,
                pan: common::bcd_pan(p.subrange(a, a + 8)),
                pan_seq: common::bcd_seq(p.subrange(a, a + 8)),
                atc: common::hex_at(p, a + 8, 2),
                txn_data: common::padded_hex_at(p, a + 13, len->0),
                arqc: common::hex_at(p, d + 1, 8),
                arc: if p[0] == '1' as u8 {
                    Some(common::hex_at(p, d + 9, 2))
                } else {
                    None
                },
            },
        )
    }
}

/// Parse the payload of JS.
pub fn parse_js(payload: &[u8]) -> (r: Result<JsFields, ProxyError>)
    ensures
        error::outcome(r) == js_fields(payload@),
{
    if payload.len() == 0 {
        return Err(malformed("JS: mode flag missing"));
    }
    let mode: u8 = payload[0];
    if mode == '2' as u8 {
        return Err(
            malformed("JS: mode '2' (ARPC-only) not supported — APC requires transaction data"),
        );
    }
    if mode != '0' as u8 && mode != '1' as u8 {
        return Err(
            ProxyError::MalformedPayload(
                owned("JS: unknown mode '").concat(byte_text(mode).as_str()).concat("'"),
            ),
        );
    }
    if payload.len() < 2 {
        return Err(malformed("JS: scheme ID missing"));
    }
    let (key_id, key_consumed) = parse_key_32(payload, 2)?;
    let a: usize = 2 + key_consumed;
    if !fits(payload, a, 8) {
        return Err(malformed("JS: PAN+Seq missing"));
    }
    let (pan, pan_seq) = decode_bcd_pan_seq(field_8(payload, a));
    if !fits(payload, a, 10) {
        return Err(malformed("JS: ATC missing"));
    }
    let atc: String = field_hex(payload, a + 8, 2);
    if !fits(payload, a, 11) {
        return Err(malformed("JS: padding flag missing"));
    }
    if !fits(payload, a, 13) {
        return Err(malformed("JS: TxnLen missing"));
    }
    let len_text: String = match utf8(&payload[a + 11..a + 13]) {
        Some(t) => t,
        None => {
            return Err(malformed("JS: TxnLen not ASCII"));
        },
    };
    let len: usize = match word_of(len_text.as_str(), 16) {
        Some(n) => n,
        None => {
            return Err(
                ProxyError::MalformedPayload(
                    owned("JS: invalid TxnLen '").concat(len_text.as_str()).concat("'"),
                ),
            );
        },
    };
    if !fits(payload, a + 13, len) {
        return Err(
            ProxyError::MalformedPayload(
                owned("JS: TxnData truncated: need ").concat(
                    decimal_text(len as u128).as_str(),
                ).concat("B"),
            ),
        );
    }
    let txn_data: Secret = field_padded_hex(payload, a + 13, len);
    let d: usize = a + 13 + len;
    if !fits(payload, d, 1) || payload[d] != 0x3B {
        return Err(
            ProxyError::MalformedPayload(
                owned("JS: expected 0x3B delimiter at offset ").concat(
                    decimal_text(d as u128).as_str(),
                ).concat(", got ").concat(show_byte(payload, d).as_str()),
            ),
        );
    }
    if !fits(payload, d, 9) {
        return Err(malformed("JS: ARQC missing"));
    }
    let arqc: String = field_hex(payload, d + 1, 8);
    let arc: Option<String> = if mode == '1' as u8 {
        if !fits(payload, d, 11) {
            return Err(malformed("JS Mode1: ARC missing"));
        }
        Some(field_hex(payload, d + 9, 2))
    } else {
        None
    };
    Ok(JsFields { key_id, pan, pan_seq, atc, txn_data, arqc, arc })
}

/// What a JS command leads to.
pub open spec fn js_step(p: Seq<u8>, keys: KeyTable) -> StepView {
    match js_fields(p) {
        Err(e) => handlers::failed(e),
        Ok(f) => match keys.resolved_field(f.key_id) {
            Err(e) => handlers::failed(e),
            Ok(arn) => handlers::ask(
                ApcCall::VerifyCryptogram {
                    key: arn,
                    transaction_data: f.txn_data,
                    cryptogram: f.arqc,
                    derivation: MajorKeyDerivation::EmvOptionA,
                    session: SessionKey::Emv2000 { pan: f.pan, pan_seq: f.pan_seq, atc: f.atc },
                    response: match f.arc {
                        Some(arc) => Some(AuthResponse::Method1 { auth_response_code: arc }),
                        None => None,
                    },
                },
                Finish::Arpc,
            ),
        },
    }
}

/// payShield JS: verify a UnionPay cryptogram and, in mode `1`, generate the
/// response to it. The session key is derived by EMV2000, option A.
pub struct UnionPayArqcHandler;

impl Handler for UnionPayArqcHandler {
    open spec fn codes(&self) -> Seq<Seq<char>> {
        seq!["JS"@]
    }

    open spec fn step(&self, command_code: Seq<u8>, payload: Seq<u8>, keys: KeyTable) -> StepView {
        js_step(payload, keys)
    }

    open spec fn evidence(&self) -> Seq<Evidence> {
        seq![
            Evidence {
                decision: evidence::UNIONPAY_ARQC_1_DECISION,
                because: evidence::UNIONPAY_ARQC_1_BECAUSE,
                wire: WireGrounding::DiffXprov,
                crypto: CryptoGrounding::Apc,
                proof: Proof::LiveTest(evidence::UNIONPAY_ARQC_1_PROOF),
            },
        ]
    }

    fn command_codes(&self) -> Vec<&'static str> {
        let r: Vec<&'static str> = vec!["JS"];
        assert(text::texts(r@) =~= self.codes());
        r
    }

    fn start(&self, command_code: &[u8], payload: &[u8], keys: &KeyMap) -> Step {
        let fields: JsFields = match parse_js(payload) {
            Ok(f) => f,
            Err(e) => {
                return fail(&e);
            },
        };
        let key: String = match keys.resolve_descriptor(&fields.key_id) {
            Ok(a) => owned(a),
            Err(e) => {
                return fail(&e);
            },
        };
        let response: Option<AuthResponse> = match fields.arc {
            Some(arc) => Some(AuthResponse::Method1 { auth_response_code: arc }),
            None => None,
        };
        Step::Call {
            call: ApcCall::VerifyCryptogram {
                key,
                transaction_data: fields.txn_data,
                cryptogram: fields.arqc,
                derivation: MajorKeyDerivation::EmvOptionA,
                session: SessionKey::Emv2000 {
                    pan: fields.pan,
                    pan_seq: fields.pan_seq,
                    atc: fields.atc,
                },
                response,
            },
            then: Pending::Finish(Finish::Arpc),
        }
    }

    fn grounding(&self) -> Vec<Evidence> {
        let r: Vec<Evidence> = vec![
            Evidence {
                decision: evidence::UNIONPAY_ARQC_1_DECISION,
                because: evidence::UNIONPAY_ARQC_1_BECAUSE,
                wire: WireGrounding::DiffXprov,
                crypto: CryptoGrounding::Apc,
                proof: Proof::LiveTest(evidence::UNIONPAY_ARQC_1_PROOF),
            },
        ];
        assert(r@ =~= self.evidence());
        r
    }
}

/// A JS payload is forwarded field by field: the cryptogram is verified over the transaction
/// data, padded, by the EMV2000 session key and option A; mode `1` asks for a response
/// with the response code, mode `0` for none. A response cryptogram that comes back is
/// answered as it is.
#[verifier::rlimit(30)]
pub proof fn cryptograms_are_forwarded_field_by_field(
    flags: Seq<u8>,
    k: Seq<u8>,
    pan: Seq<u8>,
    atc: Seq<u8>,
    padding: Seq<u8>,
    length: Seq<u8>,
    data: Seq<u8>,
    arqc: Seq<u8>,
    arc: Seq<u8>,
    more: Seq<u8>,
    keys: KeyTable,
    arn: Seq<char>,
    arpc: Seq<char>,
)
    requires
        flags.len() == 2,
        flags[0] == '0' as u8 || flags[0] == '1' as u8,
        common::key_32_is(keys, k, arn),
        pan.len() == 8,
        atc.len() == 2,
        padding.len() == 1,
        length.len() == 2,
        valid_utf8(length),
        text::word(decode_utf8(length), 16) == Some(data.len() as int),
        arqc.len() == 8,
        flags[0] == '1' as u8 ==> arc.len() == 2,
    ensures
        ({
            let p = flags + k + pan + atc + padding + length + data + seq![0x3Bu8] + arqc + arc
                + more;
            &&& UnionPayArqcHandler.step(text::ascii_2('J', 'S'), p,
                keys) matches Step::Call { call, then }
            &&& call == (ApcCall::VerifyCryptogram {
                key: arn,
                transaction_data: text::hex_upper(common::emv_padded(data)),
                cryptogram: text::hex_upper(arqc),
                derivation: MajorKeyDerivation::EmvOptionA,
                session: SessionKey::Emv2000 {
                    pan: common::bcd_pan(pan),
                    pan_seq: common::bcd_seq(pan),
                    atc: text::hex_upper(atc),
                },
                response: if flags[0] == '1' as u8 {
                    Some(AuthResponse::Method1 { auth_response_code: text::hex_upper(arc) })
                } else {
                    None
                },
            })
            &&& handlers::resumed(then, ApcReply::Cryptogram(Some(arpc))) == StepView::Done(
                handlers::answered(encode_utf8(arpc)),
            )
            &&& handlers::resumed(then, ApcReply::Cryptogram(None)) == StepView::Done(
                handlers::answered(Seq::empty()),
            )
            &&& handlers::resumed(then, ApcReply::VerificationFailed) == StepView::Done(
                handlers::refused(text::ascii_2('0', '1')),
            )
        }),
{
    let p = flags + k + pan + atc + padding + length + data + seq![0x3Bu8] + arqc + arc + more;
    assert(common::key_32(p, 2) == common::key_32(k, 0)) by {
        let before = flags;
        let behind = pan + atc + padding + length + data + seq![0x3Bu8] + arqc + arc + more;
        assert(p =~= before + k + behind);
        common::key_fields_are_read_in_place(before, k, behind);
    }
    common::key_fields_lie_within(k, 0);
    let a = 2 + k.len() as int;
    assert(p[0] == flags[0]);
    assert(p[1] == flags[1]);
    assert(p.subrange(a, a + 8) =~= pan);
    assert(p.subrange(a + 8, a + 10) =~= atc);
    assert(p.subrange(a + 11, a + 13) =~= length);
    let q = a + 13 + data.len() as int;
    assert(p.subrange(a + 13, q) =~= data);
    assert(p[q] == 0x3Bu8);
    assert(p.subrange(q + 1, q + 9) =~= arqc);
    if flags[0] == '1' as u8 {
        assert(p.subrange(q + 9, q + 11) =~= arc);
    }
}

/// A JS command leads to a call only in modes `0` and `1`, and only if its payload holds every
/// field, with the delimiter in its place. What is unknown or cut short is answered with code
/// `15`, a key that is not found with `10`.
pub proof fn only_whole_payloads_lead_to_a_call(p: Seq<u8>, keys: KeyTable)
    ensures
        ({
            let a = 2 + (common::key_32(p, 2)->Ok_0).1;
            let n = text::word(decode_utf8(p.subrange(a + 11, a + 13)), 16);
            let d = a + 13 + n->0;
            let step = UnionPayArqcHandler.step(text::ascii_2('J', 'S'), p, keys);
            &&& match step {
                Step::Call { call, .. } => {
                    &&& p[0] == '0' as u8 || p[0] == '1' as u8
                    &&& common::key_32(p, 2) is Ok
                    &&& n is Some
                    &&& p.len() >= d + 9
                    &&& p[d] == 0x3Bu8
                    &&& p[0] == '1' as u8 ==> p.len() >= d + 11
                },
                Step::Done(r) => r.payload.len() == 0 && (r.error_code == text::ascii_2('1', '0')
                    || r.error_code == text::ascii_2('1', '5')),
            }
            &&& p.len() > 0 && p[0] != '0' as u8 && p[0] != '1' as u8
                ==> step == StepView::Done(handlers::refused(text::ascii_2('1', '5')))
        }),
{
    let a = 2 + (common::key_32(p, 2)->Ok_0).1;
    common::unreadable_fields_are_answered_15(p, 2);
}

} // verus!
