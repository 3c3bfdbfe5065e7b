//! KQ: verify an authorisation request cryptogram.

use vstd::prelude::*;
use vstd::string::*;
#[allow(unused_imports)]
use vstd::utf8::encode_utf8;

#[allow(unused_imports)]
use crate::apc::{ApcReply, AuthResponse};
use crate::apc::{ApcCall, MajorKeyDerivation};
#[allow(unused_imports)]
use crate::error;
use crate::error::{Failure, ProxyError};
#[allow(unused_imports)]
use crate::handlers;
use crate::handlers::evidence;
use crate::handlers::grounding::{CryptoGrounding, Evidence, Proof, WireGrounding};
#[allow(unused_imports)]
use crate::handlers::thales::common;
use crate::handlers::thales::common::{
    build_auth_response, build_session_key, bytes_to_hex, decode_bcd_pan_seq, emv_pad, malformed,
    parse_legacy_key, ArpcParams, EmvSession,
};
#[allow(unused_imports)]
use crate::handlers::thales::common::SessionKey;
#[allow(unused_imports)]
use crate::handlers::thales::reader;
use crate::handlers::thales::reader::FieldReader;
use crate::handlers::{fail, Finish, Handler, Pending, Step, StepView};
use crate::key_map::{KeyDescriptor, KeyMap, KeyTable};
use crate::secret::Secret;
#[allow(unused_imports)]
use crate::text;
use crate::text::{byte_text, owned};

verus! {

/// What is asked for beside the verification.
#[derive(Clone, Copy, Debug, PartialEq, Eq, Structural)]
pub enum KqMode {
    VerifyOnly,
    VerifyArpcMethod1,
    VerifyArpcMethod2,
}

/// What a KQ command asks for.
pub struct KqFields<T = String, S = Secret> {
    pub key_id: KeyDescriptor<T>,
    pub mode: KqMode,
    pub session: EmvSession,
    pub pan: T,
    pub pan_seq: T,
    pub atc: T,
    pub un: T,
    pub txn_data: S,
    pub arqc: T,
    pub arpc_params: Option<ArpcParams<T>>,
}

/// The fields of a KQ command as contracts speak of them.
pub type KqView = KqFields<Seq<char>, Seq<char>>;

impl View for KqFields<String, Secret> {
    type V = KqView;

    open spec fn view(&self) -> KqView {
        KqFields {
            key_id: self.key_id@,
            mode: self.mode,
            session: self.session,
            pan: self.pan@,
            pan_seq: self.pan_seq@,
            atc: self.atc@,
            un: self.un@,
            txn_data: self.txn_data@,
            arqc: self.arqc@,
            arpc_params: common::maybe_arpc(self.arpc_params),
        }
    }
}

/// The mode of a mode flag.
pub open spec fn kq_mode(flag: u8) -> Result<KqMode, Failure> {
    if flag == '0' as u8 {
        Ok(KqMode::VerifyOnly)
    } else if flag == '1' as u8 {
        Ok(KqMode::VerifyArpcMethod1)
    } else if flag == '2' as u8 {
        Ok(KqMode::VerifyArpcMethod2)
    } else if flag == '3' as u8 || flag == '4' as u8 {
        error::bad("KQ: modes 3/4 (skip-verify) not supported by APC"@)
    } else {
        error::bad("KQ: invalid mode flag '"@ + seq![flag as char] + "'"@)
    }
}

/// The session-key method of a scheme: `0` Visa, `1` Mastercard M/Chip, `2` Amex.
pub open spec fn kq_scheme(id: u8) -> Result<EmvSession, Failure> {
    if id == '0' as u8 {
        Ok(EmvSession::Visa)
    } else if id == '1' as u8 {
        Ok(EmvSession::Mastercard)
    } else if id == '2' as u8 {
        Ok(EmvSession::Amex)
    } else {
        error::bad(
            "KQ: invalid scheme ID '"@ + seq![id as char] + "' (0=Visa, 1=MC M/Chip, 2=Amex)"@,
        )
    }
}

/// The failure of the field `name` of `n` bytes at `at`.
pub open spec fn kq_short(p: Seq<u8>, name: Seq<char>, n: int, at: int) -> Result<KqView, Failure> {
    reader::truncated("KQ"@, name, n as nat, at as nat, (p.len() - at) as nat)
}

/// A KQ payload: 0 mode flag, 1 scheme, 2 key type, 5 key; then account and
/// sequence number (eight bytes BCD), ATC (two bytes), unpredictable number
/// (four), length of the transaction data (two, big-endian), the data, the
/// delimiter `;`, the cryptogram (eight), and by mode the response code (two) or
/// the status update (four) with length-prefixed proprietary data.
pub open spec fn kq_fields(p: Seq<u8>) -> Result<KqView, Failure> {
    let mode = kq_mode(p[0]);
    let scheme = kq_scheme(p[1]);
    let key = common::legacy_key(p, 5);
    let a = 5 + (key->Ok_0).1;
    let txn_len = text::be16(p, a + 14);
    let d = a + 16 + txn_len;
    let tail = d + 9;
    if p.len() < 1 {
        kq_short(p, "mode flag"@, 1, 0)
    } else if mode is Err {
        Err(mode->Err_0)
    } else if p.len() < 2 {
        kq_short(p, "scheme ID"@, 1, 1)
    } else if scheme is Err {
        Err(scheme->Err_0)
    } else if p.len() < 5 {
        kq_short(p, "key type"@, 3, 2)
    } else if key is Err {
        Err(key->Err_0)
    } else if p.len() < a + 8 {
        kq_short(p, "PAN+seq"@, 8, a)
    } else if p.len() < a + 10 {
        kq_short(p, "ATC"@, 2, a + 8)
    } else if p.len() < a + 14 {
        kq_short(p, "UN"@, 4, a + 10)
    } else if p.len() < a + 16 {
        kq_short(p, "txn length"@, 2, a + 14)
    } else if p.len() < d {
        kq_short(p, "txn data"@, txn_len, a + 16)
    } else if p.len() < d + 1 {
        kq_short(p, "delimiter"@, 1, d)
    } else if p[d] != 0x3B {
        error::bad(reader::mismatch("KQ"@, "delimiter"@, 0x3B, d as nat, p[d]))
    } else if p.len() < d + 9 {
        kq_short(p, "ARQC"@, 8, d + 1)
    } else if mode->Ok_0 == KqMode::VerifyArpcMethod1 && p.len() < tail + 2 {
        kq_short(p, "ARC"@, 2, tail)
    } else if mode->Ok_0 == KqMode::VerifyArpcMethod2 && p.len() < tail + 4 {
        kq_short(p, "CSU"@, 4, tail)
    } else if mode->Ok_0 == KqMode::VerifyArpcMethod2 && p.len() < tail + 5 {
        kq_short(p, "PAD length"@, 1, tail + 4)
    } else if mode->Ok_0 == KqMode::VerifyArpcMethod2 && p.len() < tail + 5 + p[tail + 4] {
        kq_short(p, "PAD data"@, p[tail + 4] as int, tail + 5)
    } else {
        Ok(
            KqFields {
                key_id: (key->Ok_0).0,
                mode: mode->Ok_0,
                session: scheme->Ok_0,
                pan: common::bcd_pan(p.subrange(a, a + 8)),
                pan_seq: common::bcd_seq(p.subrange(a, a + 8)),
                atc: common::hex_at(p, a + 8, 2),
                un: common::hex_at(p, a + 10, 4),
                txn_data: common::padded_hex_at(p, a + 16, txn_len),
                arqc: common::hex_at(p, d + 1, 8),
                arpc_params: match mode->Ok_0 {
                    KqMode::VerifyOnly => None,
                    KqMode::VerifyArpcMethod1 => Some(
                        ArpcParams::Method1 { auth_response_code: common::hex_at(p, tail, 2) },
                    ),
                    KqMode::VerifyArpcMethod2 => Some(
                        ArpcParams::Method2 {
                            card_status_update: common::hex_at(p, tail, 4),
                            proprietary_auth_data: common::hex_at(
                                p,
                                tail + 5,
                                p[tail + 4] as int,
                            ),
                        },
                    ),
                },
            },
        )
    }
}

fn mode_of(flag: u8) -> (r: Result<KqMode, ProxyError>)
    ensures
        match r {
            Ok(m) => kq_mode(flag) == Ok::<KqMode, Failure>(m),
            Err(e) => kq_mode(flag) == Err::<KqMode, Failure>(e@),
        },
{
    if flag == '0' as u8 {
        Ok(KqMode::VerifyOnly)
    } else if flag == '1' as u8 {
        Ok(KqMode::VerifyArpcMethod1)
    } else if flag == '2' as u8 {
        Ok(KqMode::VerifyArpcMethod2)
    } else if flag == '3' as u8 || flag == '4' as u8 {
        Err(malformed("KQ: modes 3/4 (skip-verify) not supported by APC"))
    } else {
        Err(
            ProxyError::MalformedPayload(
                owned("KQ: invalid mode flag '").concat(byte_text(flag).as_str()).concat("'"),
            ),
        )
    }
}

fn scheme_of(id: u8) -> (r: Result<EmvSession, ProxyError>)
    ensures
        match r {
            Ok(s) => kq_scheme(id) == Ok::<EmvSession, Failure>(s),
            Err(e) => kq_scheme(id) == Err::<EmvSession, Failure>(e@),
        },
{
    if id == '0' as u8 {
        Ok(EmvSession::Visa)
    } else if id == '1' as u8 {
        Ok(EmvSession::Mastercard)
    } else if id == '2' as u8 {
        Ok(EmvSession::Amex)
    } else {
        Err(
            ProxyError::MalformedPayload(
                owned("KQ: invalid scheme ID '").concat(byte_text(id).as_str()).concat(
                    "' (0=Visa, 1=MC M/Chip, 2=Amex)",
                ),
            ),
        )
    }
}

/// Parse the payload of KQ.
pub fn parse_kq(payload: &[u8]) -> (r: Result<KqFields, ProxyError>)
    ensures
        error::outcome(r) == kq_fields(payload@),
{
    assert(payload.len() == payload@.len());
    let mut r = FieldReader::new(payload, "KQ");
    let mode: KqMode = mode_of(r.byte("mode flag")?)?;
    let session: EmvSession = scheme_of(r.byte("scheme ID")?)?;
    r.take(3, "key type")?;
    let key_id: KeyDescriptor = r.parse_with(parse_legacy_key)?;
    let (pan, pan_seq) = decode_bcd_pan_seq(r.take_8("PAN+seq")?);
    let atc: String = r.take_hex(2, "ATC")?;
    let un: String = r.take_hex(4, "UN")?;
    let txn_len: usize = r.u16_be("txn length")?;
    let txn_data: Secret = Secret::new(
        bytes_to_hex(emv_pad(r.take(txn_len, "txn data")?).as_slice()),
    );
    r.expect_byte(0x3B, "delimiter")?;
    let arqc: String = r.take_hex(8, "ARQC")?;
    let arpc_params: Option<ArpcParams> = match mode {
        KqMode::VerifyOnly => None,
        KqMode::VerifyArpcMethod1 => Some(
            ArpcParams::Method1 { auth_response_code: r.take_hex(2, "ARC")? },
        ),
        KqMode::VerifyArpcMethod2 => {
            let card_status_update: String = r.take_hex(4, "CSU")?;
            let pad_len: usize = r.byte("PAD length")? as usize;
            let proprietary_auth_data: String = r.take_hex(pad_len, "PAD data")?;
            Some(ArpcParams::Method2 { card_status_update, proprietary_auth_data })
        },
    };
    Ok(
        KqFields {
            key_id,
            mode,
            session,
            pan,
            pan_seq,
            atc,
            un,
            txn_data,
            arqc,
            arpc_params,
        },
    )
}

/// What a KQ command leads to.
pub open spec fn kq_step(p: Seq<u8>, keys: KeyTable) -> StepView {
    match kq_fields(p) {
        Err(e) => handlers::failed(e),
        Ok(f) => match keys.resolved_field(f.key_id) {
            Err(e) => handlers::failed(e),
            Ok(arn) => handlers::ask(
                ApcCall::VerifyCryptogram {
                    key: arn,
                    transaction_data: f.txn_data,
                    cryptogram: f.arqc,
                    derivation: MajorKeyDerivation::EmvOptionA,
                    session: common::session_key(f.session, f.pan, f.pan_seq, f.atc, f.un),
                    response: common::auth_response(f.arpc_params),
                },
                Finish::Arpc,
            ),
        },
    }
}

/// payShield KQ: verify a cryptogram and, by mode, generate the response to it.
/// Every scheme derives the card's master key by option A; the scheme selects the
/// session-key method.
pub struct KqArqcHandler;

impl Handler for KqArqcHandler {
    open spec fn codes(&self) -> Seq<Seq<char>> {
        seq!["KQ"@]
    }

    open spec fn step(&self, command_code: Seq<u8>, payload: Seq<u8>, keys: KeyTable) -> StepView {
        kq_step(payload, keys)
    }

    open spec fn evidence(&self) -> Seq<Evidence> {
        seq![
            Evidence {
                decision: evidence::KQ_ARQC_1_DECISION,
                because: evidence::KQ_ARQC_1_BECAUSE,
                wire: WireGrounding::DiffXprov,
                crypto: CryptoGrounding::Apc,
                proof: Proof::LiveTest(evidence::KQ_ARQC_1_PROOF),
            },
        ]
    }

    fn command_codes(&self) -> Vec<&'static str> {
        let r: Vec<&'static str> = vec!["KQ"];
        assert(text::texts(r@) =~= self.codes());
        r
    }

    fn start(&self, command_code: &[u8], payload: &[u8], keys: &KeyMap) -> Step {
        let fields: KqFields = match parse_kq(payload) {
            Ok(f) => f,
            Err(e) => {
                return fail(&e);
            },
        };
        let key: String = match keys.resolve_descriptor(&fields.key_id) {
            Ok(a) => owned(a),
            Err(e) => {
                return fail(&e);
            },
        };
        let session = build_session_key(
            fields.session,
            fields.pan.as_str(),
            fields.pan_seq.as_str(),
            fields.atc.as_str(),
            fields.un.as_str(),
        );
        Step::Call {
            call: ApcCall::VerifyCryptogram {
                key,
                transaction_data: fields.txn_data,
                cryptogram: fields.arqc,
                derivation: MajorKeyDerivation::EmvOptionA,
                session,
                response: build_auth_response(fields.arpc_params),
            },
            then: Pending::Finish(Finish::Arpc),
        }
    }

    fn grounding(&self) -> Vec<Evidence> {
        let r: Vec<Evidence> = vec![
            Evidence {
                decision: evidence::KQ_ARQC_1_DECISION,
                because: evidence::KQ_ARQC_1_BECAUSE,
                wire: WireGrounding::DiffXprov,
                crypto: CryptoGrounding::Apc,
                proof: Proof::LiveTest(evidence::KQ_ARQC_1_PROOF),
            },
        ];
        assert(r@ =~= self.evidence());
        r
    }
}

/// A KQ payload is forwarded field by field: a payload that is put together from a key
/// field, account and sequence number, ATC, unpredictable number, transaction data,
/// cryptogram and response data leads to the verification of that cryptogram over that
/// data, padded, under that key, by the session key of its scheme and with the response
/// that its mode asks for. A response cryptogram that comes back is answered as it is.
#[verifier::rlimit(30)]
pub proof fn cryptograms_are_forwarded_field_by_field(
    flags: Seq<u8>,
    key_type: Seq<u8>,
    k: Seq<u8>,
    pan: Seq<u8>,
    atc: Seq<u8>,
    un: Seq<u8>,
    data: Seq<u8>,
    arqc: Seq<u8>,
    response: Seq<u8>,
    pad: Seq<u8>,
    more: Seq<u8>,
    keys: KeyTable,
    arn: Seq<char>,
    arpc: Seq<char>,
)
    requires
        flags.len() == 2,
        '0' as u8 <= flags[0] <= '2' as u8,
        '0' as u8 <= flags[1] <= '2' as u8,
        key_type.len() == 3,
        common::legacy_key_is(keys, k, arn),
        pan.len() == 8,
        atc.len() == 2,
        un.len() == 4,
        data.len() <= 0xFFFF,
        arqc.len() == 8,
        flags[0] == '1' as u8 ==> response.len() == 2,
        flags[0] == '2' as u8 ==> response.len() == 4,
        pad.len() <= 0xFF,
    ensures
        ({
            let tail = if flags[0] == '0' as u8 {
                more
            } else if flags[0] == '1' as u8 {
                response + more
            } else {
                response + seq![pad.len() as u8] + pad + more
            };
            let p = flags + key_type + k + pan + atc + un + seq![(data.len() / 256) as u8,
                (data.len() % 256) as u8] + data + seq![0x3Bu8] + arqc + tail;
            &&& KqArqcHandler.step(text::ascii_2('K', 'Q'), p, keys) matches Step::Call {
                call,
                then,
            }
            &&& call == (ApcCall::VerifyCryptogram {
                key: arn,
                transaction_data: text::hex_upper(common::emv_padded(data)),
                cryptogram: text::hex_upper(arqc),
                derivation: MajorKeyDerivation::EmvOptionA,
                session: if flags[1] == '0' as u8 {
                    SessionKey::Visa { pan: common::bcd_pan(pan), pan_seq: common::bcd_seq(pan) }
                } else if flags[1] == '1' as u8 {
                    SessionKey::Mastercard {
                        pan: common::bcd_pan(pan),
                        pan_seq: common::bcd_seq(pan),
                        atc: text::hex_upper(atc),
                        un: text::hex_upper(un),
                    }
                } else {
                    SessionKey::Amex { pan: common::bcd_pan(pan), pan_seq: common::bcd_seq(pan) }
                },
                response: if flags[0] == '0' as u8 {
                    None
                } else if flags[0] == '1' as u8 {
                    Some(AuthResponse::Method1 { auth_response_code: text::hex_upper(response) })
                } else {
                    Some(
                        AuthResponse::Method2 {
                            card_status_update: text::hex_upper(response),
                            proprietary_auth_data: if pad.len() == 0 {
                                None
                            } else {
                                Some(text::hex_upper(pad))
                            },
                        },
                    )
                },
            })
            &&& handlers::resumed(then, ApcReply::Cryptogram(Some(arpc))) == StepView::Done(
                handlers::answered(encode_utf8(arpc)),
            )
            &&& handlers::resumed(then, ApcReply::Cryptogram(None)) == StepView::Done(
                handlers::answered(Seq::empty()),
            )
            &&& handlers::resumed(then, ApcReply::VerificationFailed) == StepView::Done(
                handlers::refused(text::ascii_2('0', '1')),
            )
        }),
{
    let tail = if flags[0] == '0' as u8 {
        more
    } else if flags[0] == '1' as u8 {
        response + more
    } else {
        response + seq![pad.len() as u8] + pad + more
    };
    common::response_data_is_read_in_place(response, pad, more);
    lemma_payload_is_read(flags, key_type, k, pan, atc, un, data, arqc, tail);
}

proof fn lemma_payload_is_read(
    flags: Seq<u8>,
    key_type: Seq<u8>,
    k: Seq<u8>,
    pan: Seq<u8>,
    atc: Seq<u8>,
    un: Seq<u8>,
    data: Seq<u8>,
    arqc: Seq<u8>,
    tail: Seq<u8>,
)
    requires
        flags.len() == 2,
        '0' as u8 <= flags[0] <= '2' as u8,
        '0' as u8 <= flags[1] <= '2' as u8,
        key_type.len() == 3,
        common::is_legacy_key(k),
        pan.len() == 8,
        atc.len() == 2,
        un.len() == 4,
        data.len() <= 0xFFFF,
        arqc.len() == 8,
        flags[0] == '1' as u8 ==> tail.len() >= 2,
        flags[0] == '2' as u8 ==> tail.len() >= 5 && tail.len() >= 5 + tail[4],
    ensures
        ({
            let count = seq![(data.len() / 256) as u8, (data.len() % 256) as u8];
            let p = flags + key_type + k + pan + atc + un + count + data + seq![0x3Bu8] + arqc
                + tail;
            kq_fields(p) == Ok::<KqView, Failure>(
                KqFields {
                    key_id: (common::legacy_key(k, 0)->Ok_0).0,
                    mode: kq_mode(flags[0])->Ok_0,
                    session: kq_scheme(flags[1])->Ok_0,
                    pan: common::bcd_pan(pan),
                    pan_seq: common::bcd_seq(pan),
                    atc: text::hex_upper(atc),
                    un: text::hex_upper(un),
                    txn_data: text::hex_upper(common::emv_padded(data)),
                    arqc: text::hex_upper(arqc),
                    arpc_params: if flags[0] == '0' as u8 {
                        None
                    } else if flags[0] == '1' as u8 {
                        Some(
                            ArpcParams::Method1 {
                                auth_response_code: text::hex_upper(tail.subrange(0, 2)),
                            },
                        )
                    } else {
                        Some(
                            ArpcParams::Method2 {
                                card_status_update: text::hex_upper(tail.subrange(0, 4)),
                                proprietary_auth_data: text::hex_upper(
                                    tail.subrange(5, 5 + tail[4]),
                                ),
                            },
                        )
                    },
                },
            )
        }),
{
    let data_len = seq![(data.len() / 256) as u8, (data.len() % 256) as u8];
    let head = flags + key_type;
    let front = head + k;
    let behind = pan + atc + un + data_len + data + seq![0x3Bu8] + arqc + tail;
    let p = front + pan + atc + un + data_len + data + seq![0x3Bu8] + arqc + tail;
    assert(common::legacy_key(p, 5) == common::legacy_key(k, 0)) by {
        assert(p =~= head + k + behind);
        common::key_fields_are_read_in_place(head, k, behind);
    }
    common::key_fields_lie_within(k, 0);
    common::cryptogram_fields_are_read_in_place(front, pan, atc, un, data, arqc, tail);
    assert(p[0] == flags[0] && p[1] == flags[1]);
}

/// Every KQ command that leads to a call has the card's master key derived by option A,
/// and the session key by Visa where its scheme byte is `0`, by Mastercard where it is `1`
/// and by American Express where it is `2`.
pub proof fn the_scheme_byte_decides_the_session_key(p: Seq<u8>, keys: KeyTable)
    ensures
        KqArqcHandler.step(text::ascii_2('K', 'Q'), p, keys) matches Step::Call { call, .. } ==> {
            &&& p.len() > 1
            &&& call is VerifyCryptogram
            &&& call->derivation == MajorKeyDerivation::EmvOptionA
            &&& call->session is Visa <==> p[1] == '0' as u8
            &&& call->session is Mastercard <==> p[1] == '1' as u8
            &&& call->session is Amex <==> p[1] == '2' as u8
        },
{
}

/// A KQ command leads to a call only if its flags are known and its payload holds every field
/// that they ask for, with the delimiter in its place. What is unknown or cut short is
/// answered with code `15`, a key that is not found with `10`.
pub proof fn only_whole_payloads_lead_to_a_call(p: Seq<u8>, keys: KeyTable)
    ensures
        ({
            let a = 5 + (common::legacy_key(p, 5)->Ok_0).1;
            let d = a + 16 + text::be16(p, a + 14);
            let step = KqArqcHandler.step(text::ascii_2('K', 'Q'), p, keys);
            &&& match step {
                Step::Call { call, .. } => {
                    &&& '0' as u8 <= p[0] <= '2' as u8
                    &&& '0' as u8 <= p[1] <= '2' as u8
                    &&& common::legacy_key(p, 5) is Ok
                    &&& p.len() >= d + 9
                    &&& p[d] == 0x3Bu8
                    &&& p[0] == '1' as u8 ==> p.len() >= d + 11
                    &&& p[0] == '2' as u8 ==> p.len() >= d + 14 + p[d + 13]
                },
                Step::Done(r) => r.payload.len() == 0 && (r.error_code == text::ascii_2('1', '0')
                    || r.error_code == text::ascii_2('1', '5')),
            }
            &&& p.len() > 0 && !('0' as u8 <= p[0] <= '2' as u8)
                ==> step == StepView::Done(handlers::refused(text::ascii_2('1', '5')))
        }),
{
    let a = 5 + (common::legacy_key(p, 5)->Ok_0).1;
    common::unreadable_fields_are_answered_15(p, 5);
}

} // verus!
