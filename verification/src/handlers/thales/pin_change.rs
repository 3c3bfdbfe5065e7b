//! DU, CU: verify the current PIN, then generate what the new PIN is verified by.

use vstd::prelude::*;
use vstd::string::*;
#[allow(unused_imports)]
use vstd::utf8::encode_utf8;

use crate::apc::{ApcCall, PinCheck, PinGeneration};
#[allow(unused_imports)]
use crate::error;
use crate::error::{Failure, ProxyError};
#[allow(unused_imports)]
use crate::handlers;
use crate::handlers::evidence;
use crate::handlers::grounding::{CryptoGrounding, Evidence, Proof, WireGrounding};
#[allow(unused_imports)]
use crate::handlers::thales::common;
use crate::handlers::thales::common::{field_text, map_pin_block_format, parse_key_32, parse_legacy_key, parse_pvki, PinBlockFormat};
use crate::handlers::{fail, Finish, Handler, Pending, Step, StepView};
use crate::key_map::{KeyDescriptor, KeyMap, KeyTable};
use crate::secret::Secret;
#[allow(unused_imports)]
use crate::text;
use crate::text::{decimal_text, fits, is_ascii_2, owned, strip_end_text};
#[allow(unused_imports)]
use crate::apc::{ApcReply, ReplyView};

verus! {

/// What a DU command asks for.
pub struct DuFields<T = String, S = Secret> {
    pub enc_key_id: KeyDescriptor<T>,
    pub pvk_id: KeyDescriptor<T>,
    pub cur_pin_block: S,
    pub pin_block_format: T,
    pub account: T,
    pub decim_table: T,
    pub pin_val_data: T,
    /// Filled up with `F`.
    pub cur_offset: T,
    pub new_pin_block: S,
}

/// The fields of a DU command as contracts speak of them.
pub type DuView = DuFields<Seq<char>, Seq<char>>;

impl View for DuFields<String, Secret> {
    type V = DuView;

    open spec fn view(&self) -> DuView {
        DuFields {
            enc_key_id: self.enc_key_id@,
            pvk_id: self.pvk_id@,
            cur_pin_block: self.cur_pin_block@,
            pin_block_format: self.pin_block_format@,
            account: self.account@,
            decim_table: self.decim_table@,
            pin_val_data: self.pin_val_data@,
            cur_offset: self.cur_offset@,
            new_pin_block: self.new_pin_block@,
        }
    }
}

/// What a CU command asks for.
pub struct CuFields<T = String, S = Secret> {
    pub enc_key_id: KeyDescriptor<T>,
    pub pvk_id: KeyDescriptor<T>,
    pub cur_pin_block: S,
    pub pin_block_format: T,
    pub account: T,
    /// The PIN verification key indicator.
    pub pvki: i32,
    pub cur_pvv: T,
    pub new_pin_block: S,
}

/// The fields of a CU command as contracts speak of them.
pub type CuView = CuFields<Seq<char>, Seq<char>>;

impl View for CuFields<String, Secret> {
    type V = CuView;

    open spec fn view(&self) -> CuView {
        CuFields {
            enc_key_id: self.enc_key_id@,
            pvk_id: self.pvk_id@,
            cur_pin_block: self.cur_pin_block@,
            pin_block_format: self.pin_block_format@,
            account: self.account@,
            pvki: self.pvki,
            cur_pvv: self.cur_pvv@,
            new_pin_block: self.new_pin_block@,
        }
    }
}

/// A DU payload: PIN encryption key, PIN verification key; then maximum and
/// minimum PIN length (two bytes each), current PIN block (sixteen), PIN block
/// format (two), account number (twelve), decimalization table (sixteen), PIN
/// validation data (twelve), current offset (twelve), new PIN block (sixteen).
pub open spec fn du_fields(p: Seq<u8>) -> Result<DuView, Failure> {
    let enc = common::legacy_key(p, 0);
    let a = (enc->Ok_0).1;
    let pvk = common::legacy_key(p, a);
    let b = a + (pvk->Ok_0).1;
    if enc is Err {
        Err(enc->Err_0)
    } else if pvk is Err {
        Err(pvk->Err_0)
    } else if p.len() < b + 90 {
        error::bad(
            "DU payload too short: "@ + text::decimal(p.len()) + " < "@ + text::decimal(
                (b + 90) as nat,
            ),
        )
    } else {
        Ok(
            DuFields {
                enc_key_id: (enc->Ok_0).0,
                pvk_id: (pvk->Ok_0).0,
                cur_pin_block: common::text_at(p, b + 4, 16),
                pin_block_format: common::text_at(p, b + 20, 2),
                account: common::text_at(p, b + 22, 12),
                decim_table: common::text_at(p, b + 34, 16),
                pin_val_data: common::text_at(p, b + 50, 12),
                cur_offset: common::text_at(p, b + 62, 12),
                new_pin_block: common::text_at(p, b + 74, 16),
            },
        )
    }
}

/// Parse the payload of DU.
pub fn parse_du(payload: &[u8]) -> (r: Result<DuFields, ProxyError>)
    ensures
        error::outcome(r) == du_fields(payload@),
{
    assert(payload.len() == payload@.len());
    let (enc_key_id, a) = parse_legacy_key(payload, 0)?;
    let (pvk_id, pvk_len) = parse_legacy_key(payload, a)?;
    let b: usize = a + pvk_len;
    if !fits(payload, b, 90) {
        return Err(
            ProxyError::MalformedPayload(
                owned("DU payload too short: ").concat(
                    decimal_text(payload.len() as u128).as_str(),
                ).concat(" < ").concat(decimal_text(b as u128 + 90).as_str()),
            ),
        );
    }
    Ok(
        DuFields {
            enc_key_id,
            pvk_id,
            cur_pin_block: Secret::new(field_text(payload, b + 4, 16)),
            pin_block_format: field_text(payload, b + 20, 2),
            account: field_text(payload, b + 22, 12),
            decim_table: field_text(payload, b + 34, 16),
            pin_val_data: field_text(payload, b + 50, 12),
            cur_offset: field_text(payload, b + 62, 12),
            new_pin_block: Secret::new(field_text(payload, b + 74, 16)),
        },
    )
}

/// A CU payload: PIN encryption key, pair of PIN verification keys; then maximum
/// and minimum PIN length (two bytes each), current PIN block (sixteen), PIN block
/// format (two), account number (twelve), PIN verification key indicator (one),
/// current PIN verification value (four), new PIN block (sixteen).
pub open spec fn cu_fields(p: Seq<u8>) -> Result<CuView, Failure> {
    let enc = common::legacy_key(p, 0);
    let a = (enc->Ok_0).1;
    let pvk = common::key_32(p, a);
    let b = a + (pvk->Ok_0).1;
    let pvki = common::pvki("CU"@, p[b + 34]);
    if enc is Err {
        Err(enc->Err_0)
    } else if pvk is Err {
        Err(pvk->Err_0)
    } else if p.len() < b + 55 {
        error::bad(
            "CU payload too short: "@ + text::decimal(p.len()) + " < "@ + text::decimal(
                (b + 55) as nat,
            ),
        )
    } else if pvki is Err {
        Err(pvki->Err_0)
    } else {
        Ok(
            CuFields {
                enc_key_id: (enc->Ok_0).0,
                pvk_id: (pvk->Ok_0).0,
                cur_pin_block: common::text_at(p, b + 4, 16),
                pin_block_format: common::text_at(p, b + 20, 2),
                account: common::text_at(p, b + 22, 12),
                pvki: pvki->Ok_0,
                cur_pvv: common::text_at(p, b + 35, 4),
                new_pin_block: common::text_at(p, b + 39, 16),
            },
        )
    }
}

/// Parse the payload of CU.
pub fn parse_cu(payload: &[u8]) -> (r: Result<CuFields, ProxyError>)
    ensures
        error::outcome(r) == cu_fields(payload@),
{
    assert(payload.len() == payload@.len());
    let (enc_key_id, a) = parse_legacy_key(payload, 0)?;
    let (pvk_id, pvk_len) = parse_key_32(payload, a)?;
    let b: usize = a + pvk_len;
    if !fits(payload, b, 55) {
        return Err(
            ProxyError::MalformedPayload(
                owned("CU payload too short: ").concat(
                    decimal_text(payload.len() as u128).as_str(),
                ).concat(" < ").concat(decimal_text(b as u128 + 55).as_str()),
            ),
        );
    }
    let pvki: i32 = parse_pvki("CU", payload[b + 34])?;
    Ok(
        CuFields {
            enc_key_id,
            pvk_id,
            cur_pin_block: Secret::new(field_text(payload, b + 4, 16)),
            pin_block_format: field_text(payload, b + 20, 2),
            account: field_text(payload, b + 22, 12),
            pvki,
            cur_pvv: field_text(payload, b + 35, 4),
            new_pin_block: Secret::new(field_text(payload, b + 39, 16)),
        },
    )
}

/// What a DU command leads to: the current PIN is verified by its offset, and if it
/// is accepted the offset of the new PIN is generated.
pub open spec fn du_step(p: Seq<u8>, keys: KeyTable) -> StepView {
    match du_fields(p) {
        Err(e) => handlers::failed(e),
        Ok(f) => match keys.resolved_field(f.enc_key_id) {
            Err(e) => handlers::failed(e),
            Ok(enc) => match keys.resolved_field(f.pvk_id) {
                Err(e) => handlers::failed(e),
                Ok(pvk) => match common::pin_block_format(f.pin_block_format) {
                    Err(e) => handlers::failed(e),
                    Ok(format) => Step::Call {
                        call: ApcCall::VerifyPin {
                            encryption_key: enc,
                            verification_key: pvk,
                            pin_block: f.cur_pin_block,
                            pan: f.account,
                            format,
                            check: PinCheck::Ibm3624 {
                                decimalization_table: f.decim_table,
                                pad_character: 'F',
                                validation_data: f.pin_val_data,
                                offset: text::strip_end(f.cur_offset, 'F'),
                            },
                            dukpt: None,
                        },
                        then: Pending::IfAccepted {
                            next: ApcCall::GeneratePin {
                                generation_key: pvk,
                                encryption_key: enc,
                                generation: PinGeneration::Ibm3624Offset {
                                    pin_block: f.new_pin_block,
                                    decimalization_table: f.decim_table,
                                    pad_character: 'F',
                                    validation_data: f.pin_val_data,
                                },
                                pan: f.account,
                                format,
                            },
                            finish: Finish::PinOffset,
                        },
                    },
                },
            },
        },
    }
}

/// What a CU command leads to: the current PIN is verified by its PIN verification
/// value, and if it is accepted that of the new PIN is generated.
pub open spec fn cu_step(p: Seq<u8>, keys: KeyTable) -> StepView {
    match cu_fields(p) {
        Err(e) => handlers::failed(e),
        Ok(f) => match keys.resolved_field(f.enc_key_id) {
            Err(e) => handlers::failed(e),
            Ok(enc) => match keys.resolved_field(f.pvk_id) {
                Err(e) => handlers::failed(e),
                Ok(pvk) => match common::pin_block_format(f.pin_block_format) {
                    Err(e) => handlers::failed(e),
                    Ok(format) => Step::Call {
                        call: ApcCall::VerifyPin {
                            encryption_key: enc,
                            verification_key: pvk,
                            pin_block: f.cur_pin_block,
                            pan: f.account,
                            format,
                            check: PinCheck::Visa { key_index: f.pvki, value: f.cur_pvv },
                            dukpt: None,
                        },
                        then: Pending::IfAccepted {
                            next: ApcCall::GeneratePin {
                                generation_key: pvk,
                                encryption_key: enc,
                                generation: PinGeneration::VisaValue {
                                    pin_block: f.new_pin_block,
                                    key_index: f.pvki,
                                },
                                pan: f.account,
                                format,
                            },
                            finish: Finish::PinVerificationValue,
                        },
                    },
                },
            },
        },
    }
}

fn handle_du(payload: &[u8], keys: &KeyMap) -> (r: Step)
    requires
        keys.wf(),
    ensures
        r@ == du_step(payload@, keys@),
{
    let fields: DuFields = match parse_du(payload) {
        Ok(f) => f,
        Err(e) => {
            return fail(&e);
        },
    };
    let enc: String = match keys.resolve_descriptor(&fields.enc_key_id) {
        Ok(a) => owned(a),
        Err(e) => {
            return fail(&e);
        },
    };
    let pvk: String = match keys.resolve_descriptor(&fields.pvk_id) {
        Ok(a) => owned(a),
        Err(e) => {
            return fail(&e);
        },
    };
    let format: PinBlockFormat = match map_pin_block_format(fields.pin_block_format.as_str()) {
        Ok(f) => f,
        Err(e) => {
            return fail(&e);
        },
    };
    let next: ApcCall = ApcCall::GeneratePin {
        generation_key: owned(pvk.as_str()),
        encryption_key: owned(enc.as_str()),
        generation: PinGeneration::Ibm3624Offset {
            pin_block: fields.new_pin_block,
            decimalization_table: owned(fields.decim_table.as_str()),
            pad_character: 'F',
            validation_data: owned(fields.pin_val_data.as_str()),
        },
        pan: owned(fields.account.as_str()),
        format,
    };
    Step::Call {
        call: ApcCall::VerifyPin {
            encryption_key: enc,
            verification_key: pvk,
            pin_block: fields.cur_pin_block,
            pan: fields.account,
            format,
            check: PinCheck::Ibm3624 {
                decimalization_table: fields.decim_table,
                pad_character: 'F',
                validation_data: fields.pin_val_data,
                offset: strip_end_text(fields.cur_offset.as_str(), 'F'),
            },
            dukpt: None,
        },
        then: Pending::IfAccepted { next, finish: Finish::PinOffset },
    }
}

fn handle_cu(payload: &[u8], keys: &KeyMap) -> (r: Step)
    requires
        keys.wf(),
    ensures
        r@ == cu_step(payload@, keys@),
{
    let fields: CuFields = match parse_cu(payload) {
        Ok(f) => f,
        Err(e) => {
            return fail(&e);
        },
    };
    let enc: String = match keys.resolve_descriptor(&fields.enc_key_id) {
        Ok(a) => owned(a),
        Err(e) => {
            return fail(&e);
        },
    };
    let pvk: String = match keys.resolve_descriptor(&fields.pvk_id) {
        Ok(a) => owned(a),
        Err(e) => {
            return fail(&e);
        },
    };
    let format: PinBlockFormat = match map_pin_block_format(fields.pin_block_format.as_str()) {
        Ok(f) => f,
        Err(e) => {
            return fail(&e);
        },
    };
    let next: ApcCall = ApcCall::GeneratePin {
        generation_key: owned(pvk.as_str()),
        encryption_key: owned(enc.as_str()),
        generation: PinGeneration::VisaValue {
            pin_block: fields.new_pin_block,
            key_index: fields.pvki,
        },
        pan: owned(fields.account.as_str()),
        format,
    };
    Step::Call {
        call: ApcCall::VerifyPin {
            encryption_key: enc,
            verification_key: pvk,
            pin_block: fields.cur_pin_block,
            pan: fields.account,
            format,
            check: PinCheck::Visa { key_index: fields.pvki, value: fields.cur_pvv },
            dukpt: None,
        },
        then: Pending::IfAccepted { next, finish: Finish::PinVerificationValue },
    }
}

/// What a PIN change command leads to.
pub open spec fn pin_change_step(command_code: Seq<u8>, p: Seq<u8>, keys: KeyTable) -> StepView {
    if command_code == text::ascii_2('C', 'U') {
        cu_step(p, keys)
    } else {
        du_step(p, keys)
    }
}

/// A PIN change is atomic: the first call verifies the current PIN. What the new
/// PIN is verified by is generated only once the current PIN has been accepted; a
/// mismatch is answered with code `01`, any other reply with `41`, both without a
/// payload.
pub proof fn a_pin_change_verifies_first(
    command_code: Seq<u8>,
    p: Seq<u8>,
    keys: KeyTable,
    reply: ReplyView,
)
    ensures
        match pin_change_step(command_code, p, keys) {
            Step::Done(r) => r.payload.len() == 0 && r.error_code != text::ascii_2('0', '0'),
            Step::Call { call, then } => {
                &&& call is VerifyPin
                &&& match reply {
                    ApcReply::Accepted => handlers::resumed(then, reply) matches Step::Call {
                        call: next,
                        ..
                    } && next is GeneratePin,
                    ApcReply::VerificationFailed => handlers::resumed(then, reply) == Step::<
                        Seq<char>,
                        Seq<char>,
                        handlers::Answer,
                    >::Done(handlers::refused(text::ascii_2('0', '1'))),
                    _ => handlers::resumed(then, reply) == Step::<
                        Seq<char>,
                        Seq<char>,
                        handlers::Answer,
                    >::Done(handlers::refused(text::ascii_2('4', '1'))),
                }
            },
        },
{
    let success = text::ascii_2('0', '0');
    assert(success[0] == '0' as u8 && success[1] == '0' as u8);
}

/// payShield PIN change: DU by IBM 3624 offset, CU by Visa PIN verification value.
pub struct PinChangeHandler;

impl Handler for PinChangeHandler {
    open spec fn codes(&self) -> Seq<Seq<char>> {
        seq!["CU"@, "DU"@]
    }

    open spec fn step(&self, command_code: Seq<u8>, payload: Seq<u8>, keys: KeyTable) -> StepView {
        pin_change_step(command_code, payload, keys)
    }

    open spec fn evidence(&self) -> Seq<Evidence> {
        seq![
            Evidence {
                decision: evidence::PIN_CHANGE_1_DECISION,
                because: evidence::PIN_CHANGE_1_BECAUSE,
                wire: WireGrounding::DiffXprov,
                crypto: CryptoGrounding::Apc,
                proof: Proof::LiveTest(evidence::PIN_CHANGE_1_PROOF),
            },
            Evidence {
                decision: evidence::PIN_CHANGE_2_DECISION,
                because: evidence::PIN_CHANGE_2_BECAUSE,
                wire: WireGrounding::Ungrounded,
                crypto: CryptoGrounding::TwoImpl,
                proof: Proof::ManualCite(evidence::PIN_CHANGE_2_PROOF),
            },
        ]
    }

    fn command_codes(&self) -> Vec<&'static str> {
        let r: Vec<&'static str> = vec!["CU", "DU"];
        assert(text::texts(r@) =~= self.codes());
        r
    }

    fn start(&self, command_code: &[u8], payload: &[u8], keys: &KeyMap) -> Step {
        if is_ascii_2(command_code, 'C', 'U') {
            handle_cu(payload, keys)
        } else {
            handle_du(payload, keys)
        }
    }

    fn grounding(&self) -> Vec<Evidence> {
        let r: Vec<Evidence> = vec![
            Evidence {
                decision: evidence::PIN_CHANGE_1_DECISION,
                because: evidence::PIN_CHANGE_1_BECAUSE,
                wire: WireGrounding::DiffXprov,
                crypto: CryptoGrounding::Apc,
                proof: Proof::LiveTest(evidence::PIN_CHANGE_1_PROOF),
            },
            Evidence {
                decision: evidence::PIN_CHANGE_2_DECISION,
                because: evidence::PIN_CHANGE_2_BECAUSE,
                wire: WireGrounding::Ungrounded,
                crypto: CryptoGrounding::TwoImpl,
                proof: Proof::ManualCite(evidence::PIN_CHANGE_2_PROOF),
            },
        ];
        assert(r@ =~= self.evidence());
        r
    }
}

/// An offset survives the wire: what DU answers with, filled up with `F` to twelve
/// characters, is stripped to the same offset when it comes back as a field.
pub proof fn offsets_survive_the_wire(offset: Seq<char>)
    requires
        offset.len() > 0 ==> offset.last() != 'F',
    ensures
        text::strip_end(text::pad_end(offset, 'F', 12), 'F') == offset,
{
    if offset.len() < 12 {
        let padded = text::pad_end(offset, 'F', 12);
        assert(padded =~= offset + Seq::new((12 - offset.len()) as nat, |i: int| 'F'));
        lemma_padding_is_stripped(offset, (12 - offset.len()) as nat);
    }
}

proof fn lemma_padding_is_stripped(s: Seq<char>, n: nat)
    requires
        s.len() > 0 ==> s.last() != 'F',
    ensures
        text::strip_end(s + Seq::new(n, |i: int| 'F'), 'F') == s,
    decreases n,
{
    let padded = s + Seq::new(n, |i: int| 'F');
    if n > 0 {
        let less = s + Seq::new((n - 1) as nat, |i: int| 'F');
        assert(padded.last() == 'F');
        assert(padded.drop_last() =~= less);
        lemma_padding_is_stripped(s, (n - 1) as nat);
    } else {
        assert(padded =~= s);
    }
}

/// A DU payload is forwarded field by field: the current PIN block and the offset go to
/// the verification, and once that is accepted the new PIN block goes to the generation,
/// under the same two keys, for the same account, table and validation data. The offset
/// that is generated is answered.
#[verifier::rlimit(30)]
pub proof fn an_offset_is_changed_field_by_field(
    enc: Seq<u8>,
    pvk: Seq<u8>,
    lengths: Seq<u8>,
    current: Seq<u8>,
    code: Seq<u8>,
    format: PinBlockFormat,
    account: Seq<u8>,
    table: Seq<u8>,
    data: Seq<u8>,
    offset: Seq<u8>,
    new: Seq<u8>,
    more: Seq<u8>,
    keys: KeyTable,
    enc_arn: Seq<char>,
    pvk_arn: Seq<char>,
    value: Seq<char>,
)
    requires
        common::legacy_key_is(keys, enc, enc_arn),
        common::legacy_key_is(keys, pvk, pvk_arn),
        lengths.len() == 4,
        current.len() == 16,
        common::format_code_is(code, format),
        account.len() == 12,
        table.len() == 16,
        data.len() == 12,
        offset.len() == 12,
        new.len() == 16,
    ensures
        ({
            let p = enc + pvk + lengths + current + code + account + table + data + offset + new
                + more;
            &&& PinChangeHandler.step(text::ascii_2('D', 'U'), p, keys) matches Step::Call {
                call,
                then,
            }
            &&& call == (ApcCall::VerifyPin {
                encryption_key: enc_arn,
                verification_key: pvk_arn,
                pin_block: text::lossy_text(current),
                pan: text::lossy_text(account),
                format,
                check: PinCheck::Ibm3624 {
                    decimalization_table: text::lossy_text(table),
                    pad_character: 'F',
                    validation_data: text::lossy_text(data),
                    offset: text::strip_end(text::lossy_text(offset), 'F'),
                },
                dukpt: None,
            })
            &&& handlers::resumed(then, ApcReply::VerificationFailed) == StepView::Done(
                handlers::refused(text::ascii_2('0', '1')),
            )
            &&& handlers::resumed(then, ApcReply::Accepted) matches Step::Call {
                call: generate,
                then: last,
            }
            &&& generate == (ApcCall::GeneratePin {
                generation_key: pvk_arn,
                encryption_key: enc_arn,
                generation: PinGeneration::Ibm3624Offset {
                    pin_block: text::lossy_text(new),
                    decimalization_table: text::lossy_text(table),
                    pad_character: 'F',
                    validation_data: text::lossy_text(data),
                },
                pan: text::lossy_text(account),
                format,
            })
            &&& handlers::resumed(last, ApcReply::PinOffset(value)) == StepView::Done(
                handlers::answered(encode_utf8(text::pad_end(value, 'F', 12))),
            )
        }),
{
    let p = enc + pvk + lengths + current + code + account + table + data + offset + new + more;
    let behind = lengths + current + code + account + table + data + offset + new + more;
    let b = (enc.len() + pvk.len()) as int;
    assert(p =~= enc + pvk + behind);
    assert(common::legacy_key(p, 0) == common::legacy_key(enc, 0)) by {
        common::key_fields_are_read_in_place(Seq::empty(), enc, pvk + behind);
        assert(enc + pvk + behind =~= Seq::<u8>::empty() + enc + (pvk + behind));
    }
    assert(common::legacy_key(p, enc.len() as int) == common::legacy_key(pvk, 0)) by {
        common::key_fields_are_read_in_place(enc, pvk, behind);
    }
    assert(common::pin_block_format(text::lossy_text(code)) == Ok::<PinBlockFormat, Failure>(
        format,
    )) by {
        common::format_codes_stand_for_their_formats(code, format);
    }
    assert(code.len() == 2);
    assert(p.subrange(b + 4, b + 20) =~= current);
    assert(p.subrange(b + 20, b + 22) =~= code);
    assert(p.subrange(b + 22, b + 34) =~= account);
    assert(p.subrange(b + 34, b + 50) =~= table);
    assert(p.subrange(b + 50, b + 62) =~= data);
    assert(p.subrange(b + 62, b + 74) =~= offset);
    assert(p.subrange(b + 74, b + 90) =~= new);
}

/// A CU payload is forwarded field by field: the current PIN block and the PIN verification
/// value go to the verification, and once that is accepted the new PIN block goes to the
/// generation, under the same two keys, for the same account and key indicator. The value
/// that is generated is answered.
#[verifier::rlimit(30)]
pub proof fn a_verification_value_is_changed_field_by_field(
    enc: Seq<u8>,
    pvk: Seq<u8>,
    lengths: Seq<u8>,
    current: Seq<u8>,
    code: Seq<u8>,
    format: PinBlockFormat,
    account: Seq<u8>,
    indicator: u8,
    pvv: Seq<u8>,
    new: Seq<u8>,
    more: Seq<u8>,
    keys: KeyTable,
    enc_arn: Seq<char>,
    pvk_arn: Seq<char>,
    value: Seq<char>,
)
    requires
        common::legacy_key_is(keys, enc, enc_arn),
        common::key_32_is(keys, pvk, pvk_arn),
        lengths.len() == 4,
        current.len() == 16,
        common::format_code_is(code, format),
        account.len() == 12,
        '0' as u8 <= indicator <= '9' as u8,
        pvv.len() == 4,
        new.len() == 16,
    ensures
        ({
            let p = enc + pvk + lengths + current + code + account + seq![indicator] + pvv + new
                + more;
            &&& PinChangeHandler.step(text::ascii_2('C', 'U'), p, keys) matches Step::Call {
                call,
                then,
            }
            &&& call == (ApcCall::VerifyPin {
                encryption_key: enc_arn,
                verification_key: pvk_arn,
                pin_block: text::lossy_text(current),
                pan: text::lossy_text(account),
                format,
                check: PinCheck::Visa {
                    key_index: (indicator - '0' as u8) as i32,
                    value: text::lossy_text(pvv),
                },
                dukpt: None,
            })
            &&& handlers::resumed(then, ApcReply::VerificationFailed) == StepView::Done(
                handlers::refused(text::ascii_2('0', '1')),
            )
            &&& handlers::resumed(then, ApcReply::Accepted) matches Step::Call {
                call: generate,
                then: last,
            }
            &&& generate == (ApcCall::GeneratePin {
                generation_key: pvk_arn,
                encryption_key: enc_arn,
                generation: PinGeneration::VisaValue {
                    pin_block: text::lossy_text(new),
                    key_index: (indicator - '0' as u8) as i32,
                },
                pan: text::lossy_text(account),
                format,
            })
            &&& handlers::resumed(last, ApcReply::PinVerificationValue(value)) == StepView::Done(
                handlers::answered(encode_utf8(value)),
            )
        }),
{
    let p = enc + pvk + lengths + current + code + account + seq![indicator] + pvv + new + more;
    let behind = lengths + current + code + account + seq![indicator] + pvv + new + more;
    assert(p =~= Seq::<u8>::empty() + enc + (pvk + behind));
    assert(p =~= enc + pvk + behind);
    common::key_fields_are_read_in_place(Seq::empty(), enc, pvk + behind);
    common::key_fields_are_read_in_place(enc, pvk, behind);
    common::key_fields_lie_within(enc, 0);
    common::key_fields_lie_within(pvk, 0);
    common::format_codes_stand_for_their_formats(code, format);
    let b = (enc.len() + pvk.len()) as int;
    assert(p.subrange(b + 4, b + 20) =~= current);
    assert(p.subrange(b + 20, b + 22) =~= code);
    assert(p.subrange(b + 22, b + 34) =~= account);
    assert(p[b + 34] == indicator);
    assert(p.subrange(b + 35, b + 39) =~= pvv);
    assert(p.subrange(b + 39, b + 55) =~= new);
}

/// The block that a CU command verifies is that of its current PIN, and the block that it
/// generates a value from is that of the new PIN, the last sixteen bytes of the payload:
/// payloads that differ in these bytes alone lead to the same verification, and to
/// generations that differ in that block alone.
pub proof fn only_the_new_pin_block_changes_a_generated_value(
    enc: Seq<u8>,
    pvk: Seq<u8>,
    body: Seq<u8>,
    x: Seq<u8>,
    y: Seq<u8>,
    keys: KeyTable,
)
    requires
        common::is_legacy_key(enc),
        common::is_key_32(pvk),
        body.len() == 39,
        x.len() == 16,
        y.len() == 16,
    ensures
        ({
            let code = text::ascii_2('C', 'U');
            match (
                PinChangeHandler.step(code, enc + pvk + body + x, keys),
                PinChangeHandler.step(code, enc + pvk + body + y, keys),
            ) {
                (Step::Call { call: v, then: t }, Step::Call { call: w, then: u }) => {
                    &&& v == w
                    &&& v is VerifyPin
                    &&& v->VerifyPin_pin_block == text::lossy_text(body.subrange(4, 20))
                    &&& handlers::resumed(t, ApcReply::Accepted) matches Step::Call { call: g, .. }
                    &&& handlers::resumed(u, ApcReply::Accepted) matches Step::Call { call: h, .. }
                    &&& g is GeneratePin
                    &&& g->generation is VisaValue
                    &&& g->generation->VisaValue_pin_block == text::lossy_text(x)
                    &&& h == (ApcCall::GeneratePin {
                        generation_key: g->generation_key,
                        encryption_key: g->GeneratePin_encryption_key,
                        generation: PinGeneration::VisaValue {
                            pin_block: text::lossy_text(y),
                            key_index: g->generation->key_index,
                        },
                        pan: g->GeneratePin_pan,
                        format: g->GeneratePin_format,
                    })
                },
                (Step::Done(r), Step::Done(s)) => r == s,
                _ => false,
            }
        }),
{
    let p = enc + pvk + body + x;
    let q = enc + pvk + body + y;
    assert(p =~= Seq::<u8>::empty() + enc + (pvk + body + x));
    assert(q =~= Seq::<u8>::empty() + enc + (pvk + body + y));
    assert(p =~= enc + pvk + (body + x));
    assert(q =~= enc + pvk + (body + y));
    common::key_fields_are_read_in_place(Seq::empty(), enc, pvk + body + x);
    common::key_fields_are_read_in_place(Seq::empty(), enc, pvk + body + y);
    common::key_fields_are_read_in_place(enc, pvk, body + x);
    common::key_fields_are_read_in_place(enc, pvk, body + y);
    common::key_fields_lie_within(enc, 0);
    common::key_fields_lie_within(pvk, 0);
    let b = (enc.len() + pvk.len()) as int;
    assert forall|i: int, j: int| 0 <= i <= j <= 39 implies #[trigger] p.subrange(b + i, b + j)
        == q.subrange(b + i, b + j) by {
        assert(p.subrange(b + i, b + j) =~= q.subrange(b + i, b + j));
    }
    assert(p.subrange(b + 4, b + 20) =~= body.subrange(4, 20));
    assert(p.subrange(b + 39, b + 39 + 16) =~= x);
    assert(q.subrange(b + 39, b + 39 + 16) =~= y);
    assert(p[b + 34] == q[b + 34]);
}

/// The block that a DU command verifies is that of its current PIN, and the block that it
/// generates an offset from is that of the new PIN, the last sixteen bytes of the payload:
/// payloads that differ in these bytes alone lead to the same verification, and to
/// generations that differ in that block alone.
pub proof fn only_the_new_pin_block_changes_a_generated_offset(
    enc: Seq<u8>,
    pvk: Seq<u8>,
    body: Seq<u8>,
    x: Seq<u8>,
    y: Seq<u8>,
    keys: KeyTable,
)
    requires
        common::is_legacy_key(enc),
        common::is_legacy_key(pvk),
        body.len() == 74,
        x.len() == 16,
        y.len() == 16,
    ensures
        ({
            let code = text::ascii_2('D', 'U');
            match (
                PinChangeHandler.step(code, enc + pvk + body + x, keys),
                PinChangeHandler.step(code, enc + pvk + body + y, keys),
            ) {
                (Step::Call { call: v, then: t }, Step::Call { call: w, then: u }) => {
                    &&& v == w
                    &&& v is VerifyPin
                    &&& v->VerifyPin_pin_block == text::lossy_text(body.subrange(4, 20))
                    &&& handlers::resumed(t, ApcReply::Accepted) matches Step::Call { call: g, .. }
                    &&& handlers::resumed(u, ApcReply::Accepted) matches Step::Call { call: h, .. }
                    &&& g is GeneratePin
                    &&& g->generation is Ibm3624Offset
                    &&& g->generation->Ibm3624Offset_pin_block == text::lossy_text(x)
                    &&& h == (ApcCall::GeneratePin {
                        generation_key: g->generation_key,
                        encryption_key: g->GeneratePin_encryption_key,
                        generation: PinGeneration::Ibm3624Offset {
                            pin_block: text::lossy_text(y),
                            decimalization_table: g->generation->decimalization_table,
                            pad_character: g->generation->pad_character,
                            validation_data: g->generation->validation_data,
                        },
                        pan: g->GeneratePin_pan,
                        format: g->GeneratePin_format,
                    })
                },
                (Step::Done(r), Step::Done(s)) => r == s,
                _ => false,
            }
        }),
{
    let p = enc + pvk + body + x;
    let q = enc + pvk + body + y;
    assert(p =~= Seq::<u8>::empty() + enc + (pvk + body + x));
    assert(q =~= Seq::<u8>::empty() + enc + (pvk + body + y));
    assert(p =~= enc + pvk + (body + x));
    assert(q =~= enc + pvk + (body + y));
    common::key_fields_are_read_in_place(Seq::empty(), enc, pvk + body + x);
    common::key_fields_are_read_in_place(Seq::empty(), enc, pvk + body + y);
    common::key_fields_are_read_in_place(enc, pvk, body + x);
    common::key_fields_are_read_in_place(enc, pvk, body + y);
    common::key_fields_lie_within(enc, 0);
    common::key_fields_lie_within(pvk, 0);
    let b = (enc.len() + pvk.len()) as int;
    assert forall|i: int, j: int| 0 <= i <= j <= 74 implies #[trigger] p.subrange(b + i, b + j)
        == q.subrange(b + i, b + j) by {
        assert(p.subrange(b + i, b + j) =~= q.subrange(b + i, b + j));
    }
    assert(p.subrange(b + 4, b + 20) =~= body.subrange(4, 20));
    assert(p.subrange(b + 74, b + 74 + 16) =~= x);
    assert(q.subrange(b + 74, b + 74 + 16) =~= y);
    assert(p[b + 34] == q[b + 34]);
}

/// A DU command leads to a call only if its payload holds every field. What is cut short is
/// answered with code `15`, a format that is not offered with `23`, a key that is not found
/// with `10`.
pub proof fn only_whole_offset_changes_lead_to_a_call(p: Seq<u8>, keys: KeyTable)
    ensures
        ({
            let a = (common::legacy_key(p, 0)->Ok_0).1;
            let b = a + (common::legacy_key(p, a)->Ok_0).1;
            let step = PinChangeHandler.step(text::ascii_2('D', 'U'), p, keys);
            &&& match step {
                Step::Call { call, .. } => {
                    &&& common::legacy_key(p, 0) is Ok
                    &&& common::legacy_key(p, a) is Ok
                    &&& p.len() >= b + 90
                },
                Step::Done(r) => r.payload.len() == 0 && (r.error_code == text::ascii_2('1', '0')
                    || r.error_code == text::ascii_2('1', '5')
                    || r.error_code == text::ascii_2('2', '3')),
            }
            &&& step == StepView::Done(handlers::refused(text::ascii_2('2', '3')))
                ==> p.len() >= b + 90 && common::pin_block_format(
                common::text_at(p, b + 20, 2),
            ) is Err
            &&& common::legacy_key(p, 0) is Ok && common::legacy_key(p, a) is Ok
                && p.len() >= b + 90 && common::pin_block_format(
                common::text_at(p, b + 20, 2),
            ) is Err ==> step
                == StepView::Done(handlers::refused(text::ascii_2('2', '3'))) || step
                == StepView::Done(handlers::refused(text::ascii_2('1', '0')))
        }),
{
    assert(text::ascii_2('6', '8')[0] == '6' as u8 && text::ascii_2('1', '5')[0] == '1' as u8);
    assert(text::ascii_2('1', '0')[0] == '1' as u8 && text::ascii_2('2', '3')[0] == '2' as u8);
    assert(text::ascii_2('D', 'U')[0] != text::ascii_2('C', 'U')[0]);
    let a = (common::legacy_key(p, 0)->Ok_0).1;
    let b = a + (common::legacy_key(p, a)->Ok_0).1;
    common::unreadable_fields_are_answered_15(p, 0);
    common::unreadable_fields_are_answered_15(p, a);
}

/// A CU command leads to a call only if its payload holds every field and its key indicator is
/// a digit. What is cut short or is no digit is answered with code `15`, a format that is not
/// offered with `23`, a key that is not found with `10`.
pub proof fn only_whole_value_changes_lead_to_a_call(p: Seq<u8>, keys: KeyTable)
    ensures
        ({
            let a = (common::legacy_key(p, 0)->Ok_0).1;
            let b = a + (common::key_32(p, a)->Ok_0).1;
            let step = PinChangeHandler.step(text::ascii_2('C', 'U'), p, keys);
            &&& match step {
                Step::Call { call, .. } => {
                    &&& common::legacy_key(p, 0) is Ok
                    &&& common::key_32(p, a) is Ok
                    &&& p.len() >= b + 55
                    &&& '0' as u8 <= p[b + 34] <= '9' as u8
                },
                Step::Done(r) => r.payload.len() == 0 && (r.error_code == text::ascii_2('1', '0')
                    || r.error_code == text::ascii_2('1', '5')
                    || r.error_code == text::ascii_2('2', '3')),
            }
            &&& step == StepView::Done(handlers::refused(text::ascii_2('2', '3')))
                ==> p.len() >= b + 55 && common::pin_block_format(
                common::text_at(p, b + 20, 2),
            ) is Err
            &&& common::legacy_key(p, 0) is Ok && common::key_32(p, a) is Ok
                && p.len() >= b + 55 && common::pin_block_format(
                common::text_at(p, b + 20, 2),
            ) is Err
                && '0' as u8 <= p[b + 34] <= '9' as u8 ==> step
                == StepView::Done(handlers::refused(text::ascii_2('2', '3'))) || step
                == StepView::Done(handlers::refused(text::ascii_2('1', '0')))
        }),
{
    assert(text::ascii_2('6', '8')[0] == '6' as u8 && text::ascii_2('1', '5')[0] == '1' as u8);
    assert(text::ascii_2('1', '0')[0] == '1' as u8 && text::ascii_2('2', '3')[0] == '2' as u8);
    let a = (common::legacy_key(p, 0)->Ok_0).1;
    let b = a + (common::key_32(p, a)->Ok_0).1;
    common::unreadable_fields_are_answered_15(p, 0);
    common::unreadable_fields_are_answered_15(p, a);
}

} // verus!
