//! DA, DC, EA, EC: verify a PIN under a terminal or zone PIN key.

use vstd::prelude::*;
use vstd::string::*;

#[allow(unused_imports)]
use crate::apc::ApcReply;
use crate::apc::{ApcCall, PinCheck};
#[allow(unused_imports)]
use crate::error;
use crate::error::{Failure, ProxyError};
#[allow(unused_imports)]
use crate::handlers;
use crate::handlers::evidence;
use crate::handlers::grounding::{CryptoGrounding, Evidence, Proof, WireGrounding};
#[allow(unused_imports)]
use crate::handlers::thales::common;
use crate::handlers::thales::common::{field_text, map_pin_block_format, parse_key_32, parse_legacy_key, parse_pvki, PinBlockFormat};
use crate::handlers::{disable, fail, Finish, Handler, Pending, Step, StepView};
use crate::key_map::{KeyDescriptor, KeyMap, KeyTable};
use crate::secret::Secret;
#[allow(unused_imports)]
use crate::text;
use crate::text::{decimal_text, fits, is_ascii_2, owned, strip_end_text};

verus! {

/// What DA and EA ask for.
pub struct IbmFields<T = String, S = Secret> {
    pub enc_key_id: KeyDescriptor<T>,
    pub pvk_id: KeyDescriptor<T>,
    pub pin_block: S,
    pub pin_block_format: T,
    pub account: T,
    pub decim_table: T,
    pub pin_val_data: T,
    /// Filled up with `F`.
    pub offset: T,
}

/// The fields of DA and EA as contracts speak of them.
pub type IbmView = IbmFields<Seq<char>, Seq<char>>;

impl View for IbmFields<String, Secret> {
    type V = IbmView;

    open spec fn view(&self) -> IbmView {
        IbmFields {
            enc_key_id: self.enc_key_id@,
            pvk_id: self.pvk_id@,
            pin_block: self.pin_block@,
            pin_block_format: self.pin_block_format@,
            account: self.account@,
            decim_table: self.decim_table@,
            pin_val_data: self.pin_val_data@,
            offset: self.offset@,
        }
    }
}

/// What DC and EC ask for.
pub struct VisaFields<T = String, S = Secret> {
    pub enc_key_id: KeyDescriptor<T>,
    pub pvk_id: KeyDescriptor<T>,
    pub pin_block: S,
    pub pin_block_format: T,
    pub account: T,
    /// The PIN verification key indicator.
    pub pvki: i32,
    pub pvv: T,
}

/// The fields of DC and EC as contracts speak of them.
pub type VisaView = VisaFields<Seq<char>, Seq<char>>;

impl View for VisaFields<String, Secret> {
    type V = VisaView;

    open spec fn view(&self) -> VisaView {
        VisaFields {
            enc_key_id: self.enc_key_id@,
            pvk_id: self.pvk_id@,
            pin_block: self.pin_block@,
            pin_block_format: self.pin_block_format@,
            account: self.account@,
            pvki: self.pvki,
            pvv: self.pvv@,
        }
    }
}

/// A DA or EA payload: PIN encryption key, PIN verification key; then maximum and
/// minimum PIN length (two bytes each), PIN block (sixteen), PIN block format
/// (two), account number (twelve), decimalization table (sixteen), PIN validation
/// data (twelve), offset (twelve).
pub open spec fn ibm_fields(p: Seq<u8>) -> Result<IbmView, Failure> {
    let enc = common::legacy_key(p, 0);
    let a = (enc->Ok_0).1;
    let pvk = common::legacy_key(p, a);
    let b = a + (pvk->Ok_0).1;
    if enc is Err {
        Err(enc->Err_0)
    } else if pvk is Err {
        Err(pvk->Err_0)
    } else if p.len() < b + 74 {
        error::bad(
            "DA/EA payload too short: "@ + text::decimal(p.len()) + " < "@ + text::decimal(
                (b + 74) as nat,
            ),
        )
    } else {
        Ok(
            IbmFields {
                enc_key_id: (enc->Ok_0).0,
                pvk_id: (pvk->Ok_0).0,
                pin_block: common::text_at(p, b + 4, 16),
                pin_block_format: common::text_at(p, b + 20, 2),
                account: common::text_at(p, b + 22, 12),
                decim_table: common::text_at(p, b + 34, 16),
                pin_val_data: common::text_at(p, b + 50, 12),
                offset: common::text_at(p, b + 62, 12),
            },
        )
    }
}

/// Parse the payload of DA and EA.
pub fn parse_ibm(payload: &[u8]) -> (r: Result<IbmFields, ProxyError>)
    ensures
        error::outcome(r) == ibm_fields(payload@),
{
    assert(payload.len() == payload@.len());
    let (enc_key_id, a) = parse_legacy_key(payload, 0)?;
    let (pvk_id, pvk_len) = parse_legacy_key(payload, a)?;
    let b: usize = a + pvk_len;
    if !fits(payload, b, 74) {
        return Err(
            ProxyError::MalformedPayload(
                owned("DA/EA payload too short: ").concat(
                    decimal_text(payload.len() as u128).as_str(),
                ).concat(" < ").concat(decimal_text(b as u128 + 74).as_str()),
            ),
        );
    }
    Ok(
        IbmFields {
            enc_key_id,
            pvk_id,
            pin_block: Secret::new(field_text(payload, b + 4, 16)),
            pin_block_format: field_text(payload, b + 20, 2),
            account: field_text(payload, b + 22, 12),
            decim_table: field_text(payload, b + 34, 16),
            pin_val_data: field_text(payload, b + 50, 12),
            offset: field_text(payload, b + 62, 12),
        },
    )
}

/// A DC or EC payload: PIN encryption key, pair of PIN verification keys; then
/// maximum and minimum PIN length (two bytes each), PIN block (sixteen), PIN block
/// format (two), account number (twelve), PIN verification key indicator (one),
/// PIN verification value (four).
pub open spec fn visa_fields(p: Seq<u8>) -> Result<VisaView, Failure> {
    let enc = common::legacy_key(p, 0);
    let a = (enc->Ok_0).1;
    let pvk = common::key_32(p, a);
    let b = a + (pvk->Ok_0).1;
    let pvki = common::pvki("DC/EC"@, p[b + 34]);
    if enc is Err {
        Err(enc->Err_0)
    } else if pvk is Err {
        Err(pvk->Err_0)
    } else if p.len() < b + 39 {
        error::bad(
            "DC/EC payload too short: "@ + text::decimal(p.len()) + " < "@ + text::decimal(
                (b + 39) as nat,
            ),
        )
    } else if pvki is Err {
        Err(pvki->Err_0)
    } else {
        Ok(
            VisaFields {
                enc_key_id: (enc->Ok_0).0,
                pvk_id: (pvk->Ok_0).0,
                pin_block: common::text_at(p, b + 4, 16),
                pin_block_format: common::text_at(p, b + 20, 2),
                account: common::text_at(p, b + 22, 12),
                pvki: pvki->Ok_0,
                pvv: common::text_at(p, b + 35, 4),
            },
        )
    }
}

/// Parse the payload of DC and EC.
pub fn parse_visa(payload: &[u8]) -> (r: Result<VisaFields, ProxyError>)
    ensures
        error::outcome(r) == visa_fields(payload@),
{
    assert(payload.len() == payload@.len());
    let (enc_key_id, a) = parse_legacy_key(payload, 0)?;
    let (pvk_id, pvk_len) = parse_key_32(payload, a)?;
    let b: usize = a + pvk_len;
    if !fits(payload, b, 39) {
        return Err(
            ProxyError::MalformedPayload(
                owned("DC/EC payload too short: ").concat(
                    decimal_text(payload.len() as u128).as_str(),
                ).concat(" < ").concat(decimal_text(b as u128 + 39).as_str()),
            ),
        );
    }
    let pvki: i32 = parse_pvki("DC/EC", payload[b + 34])?;
    Ok(
        VisaFields {
            enc_key_id,
            pvk_id,
            pin_block: Secret::new(field_text(payload, b + 4, 16)),
            pin_block_format: field_text(payload, b + 20, 2),
            account: field_text(payload, b + 22, 12),
            pvki,
            pvv: field_text(payload, b + 35, 4),
        },
    )
}

/// What DA and EA lead to.
pub open spec fn ibm_step(p: Seq<u8>, keys: KeyTable) -> StepView {
    match ibm_fields(p) {
        Err(e) => handlers::failed(e),
        Ok(f) => match keys.resolved_field(f.enc_key_id) {
            Err(e) => handlers::failed(e),
            Ok(enc) => match keys.resolved_field(f.pvk_id) {
                Err(e) => handlers::failed(e),
                Ok(pvk) => match common::pin_block_format(f.pin_block_format) {
                    Err(e) => handlers::failed(e),
                    Ok(format) => handlers::ask(
                        ApcCall::VerifyPin {
                            encryption_key: enc,
                            verification_key: pvk,
                            pin_block: f.pin_block,
                            pan: f.account,
                            format,
                            check: PinCheck::Ibm3624 {
                                decimalization_table: f.decim_table,
                                pad_character: 'F',
                                validation_data: f.pin_val_data,
                                offset: text::strip_end(f.offset, 'F'),
                            },
                            dukpt: None,
                        },
                        Finish::Accepted,
                    ),
                },
            },
        },
    }
}

/// What DC and EC lead to.
pub open spec fn visa_step(p: Seq<u8>, keys: KeyTable) -> StepView {
    match visa_fields(p) {
        Err(e) => handlers::failed(e),
        Ok(f) => match keys.resolved_field(f.enc_key_id) {
            Err(e) => handlers::failed(e),
            Ok(enc) => match keys.resolved_field(f.pvk_id) {
                Err(e) => handlers::failed(e),
                Ok(pvk) => match common::pin_block_format(f.pin_block_format) {
                    Err(e) => handlers::failed(e),
                    Ok(format) => handlers::ask(
                        ApcCall::VerifyPin {
                            encryption_key: enc,
                            verification_key: pvk,
                            pin_block: f.pin_block,
                            pan: f.account,
                            format,
                            check: PinCheck::Visa { key_index: f.pvki, value: f.pvv },
                            dukpt: None,
                        },
                        Finish::Accepted,
                    ),
                },
            },
        },
    }
}

fn handle_ibm(payload: &[u8], keys: &KeyMap) -> (r: Step)
    requires
        keys.wf(),
    ensures
        r@ == ibm_step(payload@, keys@),
{
    let fields: IbmFields = match parse_ibm(payload) {
        Ok(f) => f,
        Err(e) => {
            return fail(&e);
        },
    };
    let enc: String = match keys.resolve_descriptor(&fields.enc_key_id) {
        Ok(a) => owned(a),
        Err(e) => {
            return fail(&e);
        },
    };
    let pvk: String = match keys.resolve_descriptor(&fields.pvk_id) {
        Ok(a) => owned(a),
        Err(e) => {
            return fail(&e);
        },
    };
    let format: PinBlockFormat = match map_pin_block_format(fields.pin_block_format.as_str()) {
        Ok(f) => f,
        Err(e) => {
            return fail(&e);
        },
    };
    Step::Call {
        call: ApcCall::VerifyPin {
            encryption_key: enc,
            verification_key: pvk,
            pin_block: fields.pin_block,
            pan: fields.account,
            format,
            check: PinCheck::Ibm3624 {
                decimalization_table: fields.decim_table,
                pad_character: 'F',
                validation_data: fields.pin_val_data,
                offset: strip_end_text(fields.offset.as_str(), 'F'),
            },
            dukpt: None,
        },
        then: Pending::Finish(Finish::Accepted),
    }
}

fn handle_visa(payload: &[u8], keys: &KeyMap) -> (r: Step)
    requires
        keys.wf(),
    ensures
        r@ == visa_step(payload@, keys@),
{
    let fields: VisaFields = match parse_visa(payload) {
        Ok(f) => f,
        Err(e) => {
            return fail(&e);
        },
    };
    let enc: String = match keys.resolve_descriptor(&fields.enc_key_id) {
        Ok(a) => owned(a),
        Err(e) => {
            return fail(&e);
        },
    };
    let pvk: String = match keys.resolve_descriptor(&fields.pvk_id) {
        Ok(a) => owned(a),
        Err(e) => {
            return fail(&e);
        },
    };
    let format: PinBlockFormat = match map_pin_block_format(fields.pin_block_format.as_str()) {
        Ok(f) => f,
        Err(e) => {
            return fail(&e);
        },
    };
    Step::Call {
        call: ApcCall::VerifyPin {
            encryption_key: enc,
            verification_key: pvk,
            pin_block: fields.pin_block,
            pan: fields.account,
            format,
            check: PinCheck::Visa { key_index: fields.pvki, value: fields.pvv },
            dukpt: None,
        },
        then: Pending::Finish(Finish::Accepted),
    }
}

/// What a PIN verification command leads to.
pub open spec fn pin_verify_step(command_code: Seq<u8>, p: Seq<u8>, keys: KeyTable) -> StepView {
    if command_code == text::ascii_2('D', 'A') || command_code == text::ascii_2('E', 'A') {
        ibm_step(p, keys)
    } else if command_code == text::ascii_2('D', 'C') || command_code == text::ascii_2('E', 'C') {
        visa_step(p, keys)
    } else {
        handlers::disabled()
    }
}

/// payShield PIN verification without DUKPT: DA and EA by IBM 3624 offset, DC and EC by
/// Visa PIN verification value.
pub struct PinVerifyNonDukptHandler;

impl Handler for PinVerifyNonDukptHandler {
    open spec fn codes(&self) -> Seq<Seq<char>> {
        seq!["DA"@, "DC"@, "EA"@, "EC"@]
    }

    open spec fn step(&self, command_code: Seq<u8>, payload: Seq<u8>, keys: KeyTable) -> StepView {
        pin_verify_step(command_code, payload, keys)
    }

    open spec fn evidence(&self) -> Seq<Evidence> {
        seq![
            Evidence {
                decision: evidence::PIN_VERIFY_NON_DUKPT_1_DECISION,
                because: evidence::PIN_VERIFY_NON_DUKPT_1_BECAUSE,
                wire: WireGrounding::DiffXprov,
                crypto: CryptoGrounding::Apc,
                proof: Proof::LiveTest(evidence::PIN_VERIFY_NON_DUKPT_1_PROOF),
            },
        ]
    }

    fn command_codes(&self) -> Vec<&'static str> {
        let r: Vec<&'static str> = vec!["DA", "DC", "EA", "EC"];
        assert(text::texts(r@) =~= self.codes());
        r
    }

    fn start(&self, command_code: &[u8], payload: &[u8], keys: &KeyMap) -> Step {
        if is_ascii_2(command_code, 'D', 'A') || is_ascii_2(command_code, 'E', 'A') {
            handle_ibm(payload, keys)
        } else if is_ascii_2(command_code, 'D', 'C') || is_ascii_2(command_code, 'E', 'C') {
            handle_visa(payload, keys)
        } else {
            disable()
        }
    }

    fn grounding(&self) -> Vec<Evidence> {
        let r: Vec<Evidence> = vec![
            Evidence {
                decision: evidence::PIN_VERIFY_NON_DUKPT_1_DECISION,
                because: evidence::PIN_VERIFY_NON_DUKPT_1_BECAUSE,
                wire: WireGrounding::DiffXprov,
                crypto: CryptoGrounding::Apc,
                proof: Proof::LiveTest(evidence::PIN_VERIFY_NON_DUKPT_1_PROOF),
            },
        ];
        assert(r@ =~= self.evidence());
        r
    }
}

/// A DA or EA payload is forwarded field by field: the PIN block goes to a verification by
/// the offset, under the two keys, and an acceptance is answered without a payload.
#[verifier::rlimit(30)]
pub proof fn a_pin_is_verified_by_its_offset_field_by_field(
    terminal: bool,
    enc: Seq<u8>,
    pvk: Seq<u8>,
    lengths: Seq<u8>,
    block: Seq<u8>,
    code: Seq<u8>,
    format: PinBlockFormat,
    account: Seq<u8>,
    table: Seq<u8>,
    data: Seq<u8>,
    offset: Seq<u8>,
    more: Seq<u8>,
    keys: KeyTable,
    enc_arn: Seq<char>,
    pvk_arn: Seq<char>,
)
    requires
        common::legacy_key_is(keys, enc, enc_arn),
        common::legacy_key_is(keys, pvk, pvk_arn),
        lengths.len() == 4,
        block.len() == 16,
        common::format_code_is(code, format),
        account.len() == 12,
        table.len() == 16,
        data.len() == 12,
        offset.len() == 12,
    ensures
        ({
            let command = if terminal {
                text::ascii_2('D', 'A')
            } else {
                text::ascii_2('E', 'A')
            };
            let p = enc + pvk + lengths + block + code + account + table + data + offset + more;
            &&& PinVerifyNonDukptHandler.step(command, p, keys) matches Step::Call { call, then }
            &&& call == (ApcCall::VerifyPin {
                encryption_key: enc_arn,
                verification_key: pvk_arn,
                pin_block: text::lossy_text(block),
                pan: text::lossy_text(account),
                format,
                check: PinCheck::Ibm3624 {
                    decimalization_table: text::lossy_text(table),
                    pad_character: 'F',
                    validation_data: text::lossy_text(data),
                    offset: text::strip_end(text::lossy_text(offset), 'F'),
                },
                dukpt: None,
            })
            &&& handlers::resumed(then, ApcReply::Accepted) == StepView::Done(
                handlers::answered(Seq::empty()),
            )
            &&& handlers::resumed(then, ApcReply::VerificationFailed) == StepView::Done(
                handlers::refused(text::ascii_2('0', '1')),
            )
        }),
{
    common::format_codes_stand_for_their_formats(code, format);
    lemma_pin_commands_differ();
    let p = enc + pvk + lengths + block + code + account + table + data + offset + more;
    assert(common::legacy_key(p, 0) == common::legacy_key(enc, 0)) by {
        let before = Seq::<u8>::empty();
        let behind = pvk + lengths + block + code + account + table + data + offset + more;
        assert(p =~= before + enc + behind);
        common::key_fields_are_read_in_place(before, enc, behind);
    }
    common::key_fields_lie_within(enc, 0);
    let a = 0 + enc.len() as int;
    assert(common::legacy_key(p, a) == common::legacy_key(pvk, 0)) by {
        let before = enc;
        let behind = lengths + block + code + account + table + data + offset + more;
        assert(p =~= before + pvk + behind);
        common::key_fields_are_read_in_place(before, pvk, behind);
    }
    common::key_fields_lie_within(pvk, 0);
    let b = a + pvk.len() as int;
    assert(p.subrange(b + 4, b + 20) =~= block);
    assert(p.subrange(b + 20, b + 22) =~= code);
    assert(p.subrange(b + 22, b + 34) =~= account);
    assert(p.subrange(b + 34, b + 50) =~= table);
    assert(p.subrange(b + 50, b + 62) =~= data);
    assert(p.subrange(b + 62, b + 74) =~= offset);
}

/// A DC or EC payload is forwarded field by field: the PIN block goes to a verification by
/// the PIN verification value and its key indicator, under the two keys, and an acceptance
/// is answered without a payload.
#[verifier::rlimit(30)]
pub proof fn a_pin_is_verified_by_its_value_field_by_field(
    terminal: bool,
    enc: Seq<u8>,
    pvk: Seq<u8>,
    lengths: Seq<u8>,
    block: Seq<u8>,
    code: Seq<u8>,
    format: PinBlockFormat,
    account: Seq<u8>,
    indicator: u8,
    pvv: Seq<u8>,
    more: Seq<u8>,
    keys: KeyTable,
    enc_arn: Seq<char>,
    pvk_arn: Seq<char>,
)
    requires
        common::legacy_key_is(keys, enc, enc_arn),
        common::key_32_is(keys, pvk, pvk_arn),
        lengths.len() == 4,
        block.len() == 16,
        common::format_code_is(code, format),
        account.len() == 12,
        '0' as u8 <= indicator <= '9' as u8,
        pvv.len() == 4,
    ensures
        ({
            let command = if terminal {
                text::ascii_2('D', 'C')
            } else {
                text::ascii_2('E', 'C')
            };
            let p = enc + pvk + lengths + block + code + account + seq![indicator] + pvv + more;
            &&& PinVerifyNonDukptHandler.step(command, p, keys) matches Step::Call { call, then }
            &&& call == (ApcCall::VerifyPin {
                encryption_key: enc_arn,
                verification_key: pvk_arn,
                pin_block: text::lossy_text(block),
                pan: text::lossy_text(account),
                format,
                check: PinCheck::Visa {
                    key_index: (indicator - '0' as u8) as i32,
                    value: text::lossy_text(pvv),
                },
                dukpt: None,
            })
            &&& handlers::resumed(then, ApcReply::Accepted) == StepView::Done(
                handlers::answered(Seq::empty()),
            )
            &&& handlers::resumed(then, ApcReply::VerificationFailed) == StepView::Done(
                handlers::refused(text::ascii_2('0', '1')),
            )
        }),
{
    common::format_codes_stand_for_their_formats(code, format);
    lemma_pin_commands_differ();
    let p = enc + pvk + lengths + block + code + account + seq![indicator] + pvv + more;
    assert(common::legacy_key(p, 0) == common::legacy_key(enc, 0)) by {
        let before = Seq::<u8>::empty();
        let behind = pvk + lengths + block + code + account + seq![indicator] + pvv + more;
        assert(p =~= before + enc + behind);
        common::key_fields_are_read_in_place(before, enc, behind);
    }
    common::key_fields_lie_within(enc, 0);
    let a = 0 + enc.len() as int;
    assert(common::key_32(p, a) == common::key_32(pvk, 0)) by {
        let before = enc;
        let behind = lengths + block + code + account + seq![indicator] + pvv + more;
        assert(p =~= before + pvk + behind);
        common::key_fields_are_read_in_place(before, pvk, behind);
    }
    common::key_fields_lie_within(pvk, 0);
    let b = a + pvk.len() as int;
    assert(p.subrange(b + 4, b + 20) =~= block);
    assert(p.subrange(b + 20, b + 22) =~= code);
    assert(p.subrange(b + 22, b + 34) =~= account);
    assert(p[b + 34] == indicator);
    assert(p.subrange(b + 35, b + 39) =~= pvv);
}

proof fn lemma_pin_commands_differ()
    ensures
        text::ascii_2('D', 'A') != text::ascii_2('D', 'C'),
        text::ascii_2('E', 'A') != text::ascii_2('D', 'C'),
        text::ascii_2('D', 'A') != text::ascii_2('E', 'C'),
        text::ascii_2('E', 'A') != text::ascii_2('E', 'C'),
{
    assert(text::ascii_2('D', 'A')[1] == 'A' as u8 && text::ascii_2('E', 'A')[1] == 'A' as u8);
    assert(text::ascii_2('D', 'C')[1] == 'C' as u8 && text::ascii_2('E', 'C')[1] == 'C' as u8);
}

/// A DA or EA command leads to a call only if its payload holds every field. What is cut short
/// is answered with code `15`, a format that is not offered with `23`, a key that is not found
/// with `10`.
pub proof fn only_whole_offset_checks_lead_to_a_call(terminal: bool, p: Seq<u8>, keys: KeyTable)
    ensures
        ({
            let a = (common::legacy_key(p, 0)->Ok_0).1;
            let b = a + (common::legacy_key(p, a)->Ok_0).1;
            let step = PinVerifyNonDukptHandler.step(if terminal {
                text::ascii_2('D', 'A')
            } else {
                text::ascii_2('E', 'A')
            }, p, keys);
            &&& match step {
                Step::Call { call, .. } => {
                    &&& common::legacy_key(p, 0) is Ok
                    &&& common::legacy_key(p, a) is Ok
                    &&& p.len() >= b + 74
                },
                Step::Done(r) => r.payload.len() == 0 && (r.error_code == text::ascii_2('1', '0')
                    || r.error_code == text::ascii_2('1', '5')
                    || r.error_code == text::ascii_2('2', '3')),
            }
            &&& step == StepView::Done(handlers::refused(text::ascii_2('2', '3')))
                ==> p.len() >= b + 74 && common::pin_block_format(
                common::text_at(p, b + 20, 2),
            ) is Err
            &&& common::legacy_key(p, 0) is Ok && common::legacy_key(p, a) is Ok
                && p.len() >= b + 74 && common::pin_block_format(
                common::text_at(p, b + 20, 2),
            ) is Err ==> step
                == StepView::Done(handlers::refused(text::ascii_2('2', '3'))) || step
                == StepView::Done(handlers::refused(text::ascii_2('1', '0')))
        }),
{
    assert(text::ascii_2('6', '8')[0] == '6' as u8 && text::ascii_2('1', '5')[0] == '1' as u8);
    assert(text::ascii_2('1', '0')[0] == '1' as u8 && text::ascii_2('2', '3')[0] == '2' as u8);
    lemma_pin_commands_differ();
    let a = (common::legacy_key(p, 0)->Ok_0).1;
    let b = a + (common::legacy_key(p, a)->Ok_0).1;
    common::unreadable_fields_are_answered_15(p, 0);
    common::unreadable_fields_are_answered_15(p, a);
}

/// A DC or EC command leads to a call only if its payload holds every field and its key
/// indicator is a digit. What is cut short or is no digit is answered with code `15`, a format
/// that is not offered with `23`, a key that is not found with `10`.
pub proof fn only_whole_value_checks_lead_to_a_call(terminal: bool, p: Seq<u8>, keys: KeyTable)
    ensures
        ({
            let a = (common::legacy_key(p, 0)->Ok_0).1;
            let b = a + (common::key_32(p, a)->Ok_0).1;
            let step = PinVerifyNonDukptHandler.step(if terminal {
                text::ascii_2('D', 'C')
            } else {
                text::ascii_2('E', 'C')
            }, p, keys);
            &&& match step {
                Step::Call { call, .. } => {
                    &&& common::legacy_key(p, 0) is Ok
                    &&& common::key_32(p, a) is Ok
                    &&& p.len() >= b + 39
                    &&& '0' as u8 <= p[b + 34] <= '9' as u8
                },
                Step::Done(r) => r.payload.len() == 0 && (r.error_code == text::ascii_2('1', '0')
                    || r.error_code == text::ascii_2('1', '5')
                    || r.error_code == text::ascii_2('2', '3')),
            }
            &&& step == StepView::Done(handlers::refused(text::ascii_2('2', '3')))
                ==> p.len() >= b + 39 && common::pin_block_format(
                common::text_at(p, b + 20, 2),
            ) is Err
            &&& common::legacy_key(p, 0) is Ok && common::key_32(p, a) is Ok
                && p.len() >= b + 39 && common::pin_block_format(
                common::text_at(p, b + 20, 2),
            ) is Err
                && '0' as u8 <= p[b + 34] <= '9' as u8 ==> step
                == StepView::Done(handlers::refused(text::ascii_2('2', '3'))) || step
                == StepView::Done(handlers::refused(text::ascii_2('1', '0')))
        }),
{
    assert(text::ascii_2('6', '8')[0] == '6' as u8 && text::ascii_2('1', '5')[0] == '1' as u8);
    assert(text::ascii_2('1', '0')[0] == '1' as u8 && text::ascii_2('2', '3')[0] == '2' as u8);
    lemma_pin_commands_differ();
    let a = (common::legacy_key(p, 0)->Ok_0).1;
    let b = a + (common::key_32(p, a)->Ok_0).1;
    common::unreadable_fields_are_answered_15(p, 0);
    common::unreadable_fields_are_answered_15(p, a);
}

} // verus!
