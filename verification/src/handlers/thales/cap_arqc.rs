//! K2, KS: verify a Mastercard CAP cryptogram or an EMV data authentication code.

use vstd::prelude::*;
use vstd::string::*;

#[allow(unused_imports)]
use crate::apc::ApcReply;
use crate::apc::{ApcCall, MajorKeyDerivation};
#[allow(unused_imports)]
use crate::error;
use crate::error::{Failure, ProxyError};
#[allow(unused_imports)]
use crate::handlers;
use crate::handlers::grounding::Evidence;
#[allow(unused_imports)]
use crate::handlers::thales::common;
use crate::handlers::thales::common::{
    field_be16, field_hex, parse_legacy_key, SessionKey,
};
use crate::handlers::{fail, Finish, Handler, Pending, Step, StepView};
use crate::key_map::{KeyDescriptor, KeyMap, KeyTable};
use crate::secret::Secret;
#[allow(unused_imports)]
use crate::text;
use crate::text::{decimal_text, fits, is_ascii_2, owned};

verus! {

/// What a K2 or KS command asks for.
pub struct CapFields<T = String, S = Secret> {
    pub key_id: KeyDescriptor<T>,
    pub pan: T,
    pub pan_seq: T,
    pub atc: T,
    /// Carried by K2 only.
    pub unpredictable_number: Option<T>,
    pub txn_data: S,
    pub cryptogram: T,
}

/// The fields of a K2 or KS command as contracts speak of them.
pub type CapView = CapFields<Seq<char>, Seq<char>>;

impl View for CapFields<String, Secret> {
    type V = CapView;

    open spec fn view(&self) -> CapView {
        CapFields {
            key_id: self.key_id@,
            pan: self.pan@,
            pan_seq: self.pan_seq@,
            atc: self.atc@,
            unpredictable_number: crate::key_map::maybe(self.unpredictable_number),
            txn_data: self.txn_data@,
            cryptogram: self.cryptogram@,
        }
    }
}

/// The name of the command.
pub open spec fn cap_name(is_k2: bool) -> Seq<char> {
    if is_k2 {
        "K2"@
    } else {
        "KS"@
    }
}

/// A K2 or KS payload: 0 key type, 3 key; then account and sequence number (eight
/// bytes BCD: twelve digits of account number, two of sequence number and a pad
/// byte), ATC (two bytes), for K2 the unpredictable number (four), the length of
/// the transaction data (two, big-endian), the data, the delimiter `;` and the
/// cryptogram (eight). The data is forwarded as it is.
pub open spec fn cap_fields(p: Seq<u8>, is_k2: bool) -> Result<CapView, Failure> {
    let cmd = cap_name(is_k2);
    let key = common::legacy_key(p, 3);
    let a = 3 + (key->Ok_0).1;
    let l = if is_k2 {
        a + 14
    } else {
        a + 10
    };
    let txn_len = text::be16(p, l);
    let d = l + 2 + txn_len;
    if p.len() < 3 {
        error::bad(cmd + ": key type missing"@)
    } else if key is Err {
        Err(key->Err_0)
    } else if p.len() < a + 8 {
        error::bad(cmd + ": PAN+seq field missing"@)
    } else if p.len() < a + 10 {
        error::bad(cmd + ": ATC missing"@)
    } else if is_k2 && p.len() < a + 14 {
        error::bad("K2: UN missing"@)
    } else if p.len() < l + 2 {
        error::bad(cmd + ": transaction data length missing"@)
    } else if p.len() < d {
        error::bad(
            cmd + ": transaction data too short: need "@ + text::decimal(txn_len as nat)
                + " bytes"@,
        )
    } else if p.len() < d + 1 || p[d] != 0x3B {
        error::bad(cmd + ": missing 0x3B delimiter"@)
    } else if p.len() < d + 9 {
        error::bad(cmd + ": cryptogram missing"@)
    } else {
        Ok(
            CapFields {
                key_id: (key->Ok_0).0,
                pan: common::hex_at(p, a, 6),
                pan_seq: common::hex_at(p, a + 6, 1),
                atc: common::hex_at(p, a + 8, 2),
                unpredictable_number: if is_k2 {
                    Some(common::hex_at(p, a + 10, 4))
                } else {
                    None
                },
                txn_data: common::hex_at(p, l + 2, txn_len),
                cryptogram: common::hex_at(p, d + 1, 8),
            },
        )
    }
}

fn complaint(cmd: &str, why: &str) -> (r: ProxyError)
    ensures
        r@ == Failure::MalformedPayload(cmd@ + why@),
{
    ProxyError::MalformedPayload(owned(cmd).concat(why))
}

/// Parse the payload of K2 or KS.
pub fn parse_cap(payload: &[u8], is_k2: bool) -> (r: Result<CapFields, ProxyError>)
    ensures
        error::outcome(r) == cap_fields(payload@, is_k2),
{
    let cmd: &str = if is_k2 {
        "K2"
    } else {
        "KS"
    };
    if payload.len() < 3 {
        return Err(complaint(cmd, ": key type missing"));
    }
    let (key_id, key_consumed) = parse_legacy_key(payload, 3)?;
    let a: usize = 3 + key_consumed;
    if !fits(payload, a, 8) {
        return Err(complaint(cmd, ": PAN+seq field missing"));
    }
    let pan: String = field_hex(payload, a, 6);
    let pan_seq: String = field_hex(payload, a + 6, 1);
    if !fits(payload, a, 10) {
        return Err(complaint(cmd, ": ATC missing"));
    }
    let atc: String = field_hex(payload, a + 8, 2);
    let mut l: usize = a + 10;
    let unpredictable_number: Option<String> = if is_k2 {
        if !fits(payload, l, 4) {
            return Err(ProxyError::MalformedPayload(owned("K2: UN missing")));
        }
        let un: String = field_hex(payload, l, 4);
        l = l + 4;
        Some(un)
    } else {
        None
    };
    if !fits(payload, l, 2) {
        return Err(complaint(cmd, ": transaction data length missing"));
    }
    let txn_len: usize = field_be16(payload, l);
    if !fits(payload, l + 2, txn_len) {
        return Err(
            ProxyError::MalformedPayload(
                owned(cmd).concat(": transaction data too short: need ").concat(
                    decimal_text(txn_len as u128).as_str(),
                ).concat(" bytes"),
            ),
        );
    }
    let txn_data: Secret = Secret::new(field_hex(payload, l + 2, txn_len));
    let d: usize = l + 2 + txn_len;
    if !fits(payload, d, 1) || payload[d] != 0x3B {
        return Err(complaint(cmd, ": missing 0x3B delimiter"));
    }
    if !fits(payload, d, 9) {
        return Err(complaint(cmd, ": cryptogram missing"));
    }
    let cryptogram: String = field_hex(payload, d + 1, 8);
    Ok(CapFields { key_id, pan, pan_seq, atc, unpredictable_number, txn_data, cryptogram })
}

/// What a K2 or KS command leads to: K2 by the Mastercard session key and option
/// B, KS by EMV2000 and option A.
pub open spec fn cap_step(p: Seq<u8>, is_k2: bool, keys: KeyTable) -> StepView {
    match cap_fields(p, is_k2) {
        Err(e) => handlers::failed(e),
        Ok(f) => match keys.resolved_field(f.key_id) {
            Err(e) => handlers::failed(e),
            Ok(arn) => handlers::ask(
                ApcCall::VerifyCryptogram {
                    key: arn,
                    transaction_data: f.txn_data,
                    cryptogram: f.cryptogram,
                    derivation: if is_k2 {
                        MajorKeyDerivation::EmvOptionB
                    } else {
                        MajorKeyDerivation::EmvOptionA
                    },
                    session: if is_k2 {
                        SessionKey::Mastercard {
                            pan: f.pan,
                            pan_seq: f.pan_seq,
                            atc: f.atc,
                            un: f.unpredictable_number->0,
                        }
                    } else {
                        SessionKey::Emv2000 { pan: f.pan, pan_seq: f.pan_seq, atc: f.atc }
                    },
                    response: None,
                },
                Finish::CryptogramAccepted,
            ),
        },
    }
}

/// payShield K2: verify a Mastercard CAP cryptogram. payShield KS: verify an EMV
/// 3.1.1 dynamic data authentication code.
pub struct CapArqcHandler;

impl Handler for CapArqcHandler {
    open spec fn codes(&self) -> Seq<Seq<char>> {
        seq!["K2"@, "KS"@]
    }

    open spec fn step(&self, command_code: Seq<u8>, payload: Seq<u8>, keys: KeyTable) -> StepView {
        cap_step(payload, command_code != text::ascii_2('K', 'S'), keys)
    }

    open spec fn evidence(&self) -> Seq<Evidence> {
        Seq::empty()
    }

    fn command_codes(&self) -> Vec<&'static str> {
        let r: Vec<&'static str> = vec!["K2", "KS"];
        assert(text::texts(r@) =~= self.codes());
        r
    }

    fn start(&self, command_code: &[u8], payload: &[u8], keys: &KeyMap) -> Step {
        let is_k2: bool = !is_ascii_2(command_code, 'K', 'S');
        let fields: CapFields = match parse_cap(payload, is_k2) {
            Ok(f) => f,
            Err(e) => {
                return fail(&e);
            },
        };
        let key: String = match keys.resolve_descriptor(&fields.key_id) {
            Ok(a) => owned(a),
            Err(e) => {
                return fail(&e);
            },
        };
        let derivation: MajorKeyDerivation = if is_k2 {
            MajorKeyDerivation::EmvOptionB
        } else {
            MajorKeyDerivation::EmvOptionA
        };
        let session: SessionKey = match fields.unpredictable_number {
            Some(un) => SessionKey::Mastercard {
                pan: fields.pan,
                pan_seq: fields.pan_seq,
                atc: fields.atc,
                un,
            },
            None => SessionKey::Emv2000 {
                pan: fields.pan,
                pan_seq: fields.pan_seq,
                atc: fields.atc,
            },
        };
        Step::Call {
            call: ApcCall::VerifyCryptogram {
                key,
                transaction_data: fields.txn_data,
                cryptogram: fields.cryptogram,
                derivation,
                session,
                response: None,
            },
            then: Pending::Finish(Finish::CryptogramAccepted),
        }
    }

    fn grounding(&self) -> Vec<Evidence> {
        Vec::new()
    }
}

/// A K2 payload is forwarded field by field: the cryptogram is verified over the transaction
/// data as it came, by the Mastercard session key and option B.
#[verifier::rlimit(30)]
pub proof fn a_cap_cryptogram_is_forwarded_field_by_field(
    key_type: Seq<u8>,
    k: Seq<u8>,
    pan: Seq<u8>,
    number: Seq<u8>,
    filler: Seq<u8>,
    atc: Seq<u8>,
    un: Seq<u8>,
    data: Seq<u8>,
    cryptogram: Seq<u8>,
    more: Seq<u8>,
    keys: KeyTable,
    arn: Seq<char>,
    arpc: Option<Seq<char>>,
)
    requires
        key_type.len() == 3,
        common::legacy_key_is(keys, k, arn),
        pan.len() == 6,
        number.len() == 1,
        filler.len() == 1,
        atc.len() == 2,
        un.len() == 4,
        data.len() <= 0xFFFF,
        cryptogram.len() == 8,
    ensures
        ({
            let p = key_type + k + pan + number + filler + atc + un
                + seq![(data.len() / 256) as u8, (data.len() % 256) as u8] + data + seq![0x3Bu8]
                + cryptogram + more;
            &&& CapArqcHandler.step(text::ascii_2('K', '2'), p, keys) matches Step::Call {
                call,
                then,
            }
            &&& call == (ApcCall::VerifyCryptogram {
                key: arn,
                transaction_data: text::hex_upper(data),
                cryptogram: text::hex_upper(cryptogram),
                derivation: MajorKeyDerivation::EmvOptionB,
                session: SessionKey::Mastercard {
                    pan: text::hex_upper(pan),
                    pan_seq: text::hex_upper(number),
                    atc: text::hex_upper(atc),
                    un: text::hex_upper(un),
                },
                response: None,
            })
            &&& handlers::resumed(then, ApcReply::Cryptogram(arpc)) == StepView::Done(
                handlers::answered(Seq::empty()),
            )
            &&& handlers::resumed(then, ApcReply::VerificationFailed) == StepView::Done(
                handlers::refused(text::ascii_2('0', '1')),
            )
        }),
{
    let p = key_type + k + pan + number + filler + atc + un + seq![(data.len() / 256) as u8,
        (data.len() % 256) as u8] + data + seq![0x3Bu8] + cryptogram + more;
    assert(common::legacy_key(p, 3) == common::legacy_key(k, 0)) by {
        let before = key_type;
        let behind = pan + number + filler + atc + un + seq![(data.len() / 256) as u8,
            (data.len() % 256) as u8] + data + seq![0x3Bu8] + cryptogram + more;
        assert(p =~= before + k + behind);
        common::key_fields_are_read_in_place(before, k, behind);
    }
    common::key_fields_lie_within(k, 0);
    let a = 3 + k.len() as int;
    assert(p.subrange(a, a + 6) =~= pan);
    assert(p.subrange(a + 6, a + 7) =~= number);
    assert(p.subrange(a + 8, a + 10) =~= atc);
    assert(p.subrange(a + 10, a + 14) =~= un);
    assert(p[a + 14] == (data.len() / 256) as u8 && p[a + 15] == (data.len() % 256) as u8);
    assert(text::be16(p, a + 14) == data.len());
    let q = a + 16 + data.len() as int;
    assert(p.subrange(a + 16, q) =~= data);
    assert(p[q] == 0x3Bu8);
    assert(p.subrange(q + 1, q + 9) =~= cryptogram);
    assert(text::ascii_2('K', '2')[1] != text::ascii_2('K', 'S')[1]);
}

/// A KS payload is forwarded field by field: the code is verified over the transaction data
/// as it came, by the EMV2000 session key and option A.
#[verifier::rlimit(30)]
pub proof fn a_data_authentication_code_is_forwarded_field_by_field(
    key_type: Seq<u8>,
    k: Seq<u8>,
    pan: Seq<u8>,
    number: Seq<u8>,
    filler: Seq<u8>,
    atc: Seq<u8>,
    data: Seq<u8>,
    cryptogram: Seq<u8>,
    more: Seq<u8>,
    keys: KeyTable,
    arn: Seq<char>,
    arpc: Option<Seq<char>>,
)
    requires
        key_type.len() == 3,
        common::legacy_key_is(keys, k, arn),
        pan.len() == 6,
        number.len() == 1,
        filler.len() == 1,
        atc.len() == 2,
        data.len() <= 0xFFFF,
        cryptogram.len() == 8,
    ensures
        ({
            let p = key_type + k + pan + number + filler + atc + seq![(data.len() / 256) as u8,
                (data.len() % 256) as u8] + data + seq![0x3Bu8] + cryptogram + more;
            &&& CapArqcHandler.step(text::ascii_2('K', 'S'), p, keys) matches Step::Call {
                call,
                then,
            }
            &&& call == (ApcCall::VerifyCryptogram {
                key: arn,
                transaction_data: text::hex_upper(data),
                cryptogram: text::hex_upper(cryptogram),
                derivation: MajorKeyDerivation::EmvOptionA,
                session: SessionKey::Emv2000 {
                    pan: text::hex_upper(pan),
                    pan_seq: text::hex_upper(number),
                    atc: text::hex_upper(atc),
                },
                response: None,
            })
            &&& handlers::resumed(then, ApcReply::Cryptogram(arpc)) == StepView::Done(
                handlers::answered(Seq::empty()),
            )
            &&& handlers::resumed(then, ApcReply::VerificationFailed) == StepView::Done(
                handlers::refused(text::ascii_2('0', '1')),
            )
        }),
{
    let p = key_type + k + pan + number + filler + atc + seq![(data.len() / 256) as u8,
        (data.len() % 256) as u8] + data + seq![0x3Bu8] + cryptogram + more;
    assert(common::legacy_key(p, 3) == common::legacy_key(k, 0)) by {
        let before = key_type;
        let behind = pan + number + filler + atc + seq![(data.len() / 256) as u8,
            (data.len() % 256) as u8] + data + seq![0x3Bu8] + cryptogram + more;
        assert(p =~= before + k + behind);
        common::key_fields_are_read_in_place(before, k, behind);
    }
    common::key_fields_lie_within(k, 0);
    let a = 3 + k.len() as int;
    assert(p.subrange(a, a + 6) =~= pan);
    assert(p.subrange(a + 6, a + 7) =~= number);
    assert(p.subrange(a + 8, a + 10) =~= atc);
    assert(p[a + 10] == (data.len() / 256) as u8 && p[a + 11] == (data.len() % 256) as u8);
    assert(text::be16(p, a + 10) == data.len());
    let q = a + 12 + data.len() as int;
    assert(p.subrange(a + 12, q) =~= data);
    assert(p[q] == 0x3Bu8);
    assert(p.subrange(q + 1, q + 9) =~= cryptogram);
    assert(text::ascii_2('K', '2')[1] != text::ascii_2('K', 'S')[1]);
}

/// A K2 or KS command leads to a call only if its payload holds every field, with the
/// delimiter in its place. What is cut short is answered with code `15`, a key that is not
/// found with `10`.
pub proof fn only_whole_payloads_lead_to_a_call(k2: bool, p: Seq<u8>, keys: KeyTable)
    ensures
        ({
            let a = 3 + (common::legacy_key(p, 3)->Ok_0).1;
            let l = if k2 {
                a + 14
            } else {
                a + 10
            };
            let d = l + 2 + text::be16(p, l);
            let step = CapArqcHandler.step(if k2 {
                text::ascii_2('K', '2')
            } else {
                text::ascii_2('K', 'S')
            }, p, keys);
            &&& match step {
                Step::Call { call, .. } => {
                    &&& common::legacy_key(p, 3) is Ok
                    &&& p.len() >= d + 9
                    &&& p[d] == 0x3Bu8
                },
                Step::Done(r) => r.payload.len() == 0 && (r.error_code == text::ascii_2('1', '0')
                    || r.error_code == text::ascii_2('1', '5')),
            }

        }),
{
    assert(text::ascii_2('K', '2')[1] != text::ascii_2('K', 'S')[1]);
    let a = 3 + (common::legacy_key(p, 3)->Ok_0).1;
    common::unreadable_fields_are_answered_15(p, 3);
}

} // verus!
