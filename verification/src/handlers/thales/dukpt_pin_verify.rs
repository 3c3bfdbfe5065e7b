//! CK: verify a PIN under a single-length DUKPT key.

use vstd::prelude::*;
use vstd::string::*;

#[allow(unused_imports)]
use crate::apc::ApcReply;
use crate::apc::{ApcCall, Dukpt, PinCheck};
#[allow(unused_imports)]
use crate::error;
use crate::error::{Failure, ProxyError};
#[allow(unused_imports)]
use crate::handlers;
use crate::handlers::evidence;
use crate::handlers::grounding::{CryptoGrounding, Evidence, Proof, WireGrounding};
#[allow(unused_imports)]
use crate::handlers::thales::common;
use crate::handlers::thales::common::{field_text, malformed, parse_bdk, parse_legacy_key, DukptDerivationType, PinBlockFormat};
use crate::handlers::{disable, fail, Finish, Handler, Pending, Step, StepView};
use crate::key_map::{KeyDescriptor, KeyMap, KeyTable};
use crate::secret::Secret;
#[allow(unused_imports)]
use crate::text;
use crate::text::{decimal_text, fits, is_ascii_2, owned, strip_end_text};

verus! {

/// What a CK command asks for.
pub struct CkFields<T = String, S = Secret> {
    pub bdk_id: KeyDescriptor<T>,
    pub pvk_id: KeyDescriptor<T>,
    pub ksn: T,
    pub pin_block: S,
    pub account: T,
    pub decim_table: T,
    pub pin_val_data: T,
    /// Filled up with `F`.
    pub offset: T,
}

/// The fields of a CK command as contracts speak of them.
pub type CkView = CkFields<Seq<char>, Seq<char>>;

impl View for CkFields<String, Secret> {
    type V = CkView;

    open spec fn view(&self) -> CkView {
        CkFields {
            bdk_id: self.bdk_id@,
            pvk_id: self.pvk_id@,
            ksn: self.ksn@,
            pin_block: self.pin_block@,
            account: self.account@,
            decim_table: self.decim_table@,
            pin_val_data: self.pin_val_data@,
            offset: self.offset@,
        }
    }
}

/// A CK payload: base derivation key, PIN verification key; then key serial number
/// descriptor (three bytes), key serial number (twenty), PIN block (sixteen), check
/// length (two), account number (twelve), decimalization table (sixteen), PIN
/// validation data (twelve), offset (twelve). A decimalization table that begins
/// with `K` or `L`, and validation data that begins with `P`, are of a form that is
/// not offered.
pub open spec fn ck_fields(p: Seq<u8>) -> Result<CkView, Failure> {
    let bdk = common::bdk_key(p, 0);
    let a = (bdk->Ok_0).1;
    let pvk = common::legacy_key(p, a);
    let b = a + (pvk->Ok_0).1;
    if bdk is Err {
        Err(bdk->Err_0)
    } else if pvk is Err {
        Err(pvk->Err_0)
    } else if b + 53 < p.len() && (p[b + 53] == 'K' as u8 || p[b + 53] == 'L' as u8) {
        error::bad("CK: user-storage/AES-encrypted decimalization table not supported"@)
    } else if b + 69 < p.len() && p[b + 69] == 'P' as u8 {
        error::bad("CK: 'P'-prefix PIN validation data (16H) not supported"@)
    } else if p.len() < b + 93 {
        error::bad(
            "CK payload too short: "@ + text::decimal(p.len()) + " < "@ + text::decimal(
                (b + 93) as nat,
            ),
        )
    } else {
        Ok(
            CkFields {
                bdk_id: (bdk->Ok_0).0,
                pvk_id: (pvk->Ok_0).0,
                ksn: common::text_at(p, b + 3, 20),
                pin_block: common::text_at(p, b + 23, 16),
                account: common::text_at(p, b + 41, 12),
                decim_table: common::text_at(p, b + 53, 16),
                pin_val_data: common::text_at(p, b + 69, 12),
                offset: common::text_at(p, b + 81, 12),
            },
        )
    }
}

/// Parse the payload of CK.
pub fn parse_ck(payload: &[u8]) -> (r: Result<CkFields, ProxyError>)
    ensures
        error::outcome(r) == ck_fields(payload@),
{
    assert(payload.len() == payload@.len());
    let (bdk_id, a) = parse_bdk(payload, 0)?;
    let (pvk_id, pvk_len) = parse_legacy_key(payload, a)?;
    let b: usize = a + pvk_len;
    if fits(payload, b, 54) && (payload[b + 53] == 'K' as u8 || payload[b + 53] == 'L' as u8) {
        return Err(
            malformed("CK: user-storage/AES-encrypted decimalization table not supported"),
        );
    }
    if fits(payload, b, 70) && payload[b + 69] == 'P' as u8 {
        return Err(malformed("CK: 'P'-prefix PIN validation data (16H) not supported"));
    }
    if !fits(payload, b, 93) {
        return Err(
            ProxyError::MalformedPayload(
                owned("CK payload too short: ").concat(
                    decimal_text(payload.len() as u128).as_str(),
                ).concat(" < ").concat(decimal_text(b as u128 + 93).as_str()),
            ),
        );
    }
    Ok(
        CkFields {
            bdk_id,
            pvk_id,
            ksn: field_text(payload, b + 3, 20),
            pin_block: Secret::new(field_text(payload, b + 23, 16)),
            account: field_text(payload, b + 41, 12),
            decim_table: field_text(payload, b + 53, 16),
            pin_val_data: field_text(payload, b + 69, 12),
            offset: field_text(payload, b + 81, 12),
        },
    )
}

/// What a CK command leads to.
pub open spec fn ck_step(p: Seq<u8>, keys: KeyTable) -> StepView {
    match ck_fields(p) {
        Err(e) => handlers::failed(e),
        Ok(f) => match keys.resolved_field(f.bdk_id) {
            Err(e) => handlers::failed(e),
            Ok(bdk) => match keys.resolved_field(f.pvk_id) {
                Err(e) => handlers::failed(e),
                Ok(pvk) => handlers::ask(
                    ApcCall::VerifyPin {
                        encryption_key: bdk,
                        verification_key: pvk,
                        pin_block: f.pin_block,
                        pan: f.account,
                        format: PinBlockFormat::IsoFormat0,
                        check: PinCheck::Ibm3624 {
                            decimalization_table: f.decim_table,
                            pad_character: 'F',
                            validation_data: f.pin_val_data,
                            offset: text::strip_end(f.offset, 'F'),
                        },
                        dukpt: Some(
                            Dukpt { ksn: f.ksn, derivation: DukptDerivationType::Tdes2Key },
                        ),
                    },
                    Finish::Accepted,
                ),
            },
        },
    }
}

/// What a single-length DUKPT PIN verification command leads to. Only CK is
/// offered.
pub open spec fn dukpt_pin_verify_step(
    command_code: Seq<u8>,
    p: Seq<u8>,
    keys: KeyTable,
) -> StepView {
    if command_code == text::ascii_2('C', 'K') {
        ck_step(p, keys)
    } else if command_code == text::ascii_2('C', 'M') {
        handlers::failed(
            ProxyError::Unsupported(
                "CM (Visa PVV, DUKPT verify): APC VerifyPinData with DukptAttributes + VisaPin returns InternalServerException; gated pending an APC fix (same limitation as GQ). Workaround: translate the DUKPT PIN block to a ZPK, then verify the PVV non-DUKPT."@,
            ),
        )
    } else {
        handlers::disabled()
    }
}

/// payShield PIN verification under a single-length DUKPT key: CK by IBM 3624 offset. CM
/// (Visa), CO (Diebold) and CQ (encrypted PIN) are not offered.
pub struct DukptPinVerifyHandler;

impl Handler for DukptPinVerifyHandler {
    open spec fn codes(&self) -> Seq<Seq<char>> {
        seq!["CK"@, "CM"@, "CO"@, "CQ"@]
    }

    open spec fn step(&self, command_code: Seq<u8>, payload: Seq<u8>, keys: KeyTable) -> StepView {
        dukpt_pin_verify_step(command_code, payload, keys)
    }

    open spec fn evidence(&self) -> Seq<Evidence> {
        seq![
            Evidence {
                decision: evidence::DUKPT_PIN_VERIFY_1_DECISION,
                because: evidence::DUKPT_PIN_VERIFY_1_BECAUSE,
                wire: WireGrounding::DiffXprov,
                crypto: CryptoGrounding::Apc,
                proof: Proof::LiveTest(evidence::DUKPT_PIN_VERIFY_1_PROOF),
            },
            Evidence {
                decision: evidence::DUKPT_PIN_VERIFY_2_DECISION,
                because: evidence::DUKPT_PIN_VERIFY_2_BECAUSE,
                wire: WireGrounding::Ungrounded,
                crypto: CryptoGrounding::Ungrounded,
                proof: Proof::Gated(evidence::DUKPT_PIN_VERIFY_2_PROOF),
            },
            Evidence {
                decision: evidence::DUKPT_PIN_VERIFY_3_DECISION,
                because: evidence::DUKPT_PIN_VERIFY_3_BECAUSE,
                wire: WireGrounding::Ungrounded,
                crypto: CryptoGrounding::Ungrounded,
                proof: Proof::Gated(evidence::DUKPT_PIN_VERIFY_3_PROOF),
            },
        ]
    }

    fn command_codes(&self) -> Vec<&'static str> {
        let r: Vec<&'static str> = vec!["CK", "CM", "CO", "CQ"];
        assert(text::texts(r@) =~= self.codes());
        r
    }

    fn start(&self, command_code: &[u8], payload: &[u8], keys: &KeyMap) -> Step {
        if is_ascii_2(command_code, 'C', 'M') {
            return fail(
                &ProxyError::Unsupported(
                    owned(
                        "CM (Visa PVV, DUKPT verify): APC VerifyPinData with DukptAttributes + VisaPin returns InternalServerException; gated pending an APC fix (same limitation as GQ). Workaround: translate the DUKPT PIN block to a ZPK, then verify the PVV non-DUKPT.",
                    ),
                ),
            );
        }
        if !is_ascii_2(command_code, 'C', 'K') {
            return disable();
        }
        let fields: CkFields = match parse_ck(payload) {
            Ok(f) => f,
            Err(e) => {
                return fail(&e);
            },
        };
        let bdk: String = match keys.resolve_descriptor(&fields.bdk_id) {
            Ok(a) => owned(a),
            Err(e) => {
                return fail(&e);
            },
        };
        let pvk: String = match keys.resolve_descriptor(&fields.pvk_id) {
            Ok(a) => owned(a),
            Err(e) => {
                return fail(&e);
            },
        };
        Step::Call {
            call: ApcCall::VerifyPin {
                encryption_key: bdk,
                verification_key: pvk,
                pin_block: fields.pin_block,
                pan: fields.account,
                format: PinBlockFormat::IsoFormat0,
                check: PinCheck::Ibm3624 {
                    decimalization_table: fields.decim_table,
                    pad_character: 'F',
                    validation_data: fields.pin_val_data,
                    offset: strip_end_text(fields.offset.as_str(), 'F'),
                },
                dukpt: Some(
                    Dukpt { ksn: fields.ksn, derivation: DukptDerivationType::Tdes2Key },
                ),
            },
            then: Pending::Finish(Finish::Accepted),
        }
    }

    fn grounding(&self) -> Vec<Evidence> {
        let r: Vec<Evidence> = vec![
            Evidence {
                decision: evidence::DUKPT_PIN_VERIFY_1_DECISION,
                because: evidence::DUKPT_PIN_VERIFY_1_BECAUSE,
                wire: WireGrounding::DiffXprov,
                crypto: CryptoGrounding::Apc,
                proof: Proof::LiveTest(evidence::DUKPT_PIN_VERIFY_1_PROOF),
            },
            Evidence {
                decision: evidence::DUKPT_PIN_VERIFY_2_DECISION,
                because: evidence::DUKPT_PIN_VERIFY_2_BECAUSE,
                wire: WireGrounding::Ungrounded,
                crypto: CryptoGrounding::Ungrounded,
                proof: Proof::Gated(evidence::DUKPT_PIN_VERIFY_2_PROOF),
            },
            Evidence {
                decision: evidence::DUKPT_PIN_VERIFY_3_DECISION,
                because: evidence::DUKPT_PIN_VERIFY_3_BECAUSE,
                wire: WireGrounding::Ungrounded,
                crypto: CryptoGrounding::Ungrounded,
                proof: Proof::Gated(evidence::DUKPT_PIN_VERIFY_3_PROOF),
            },
        ];
        assert(r@ =~= self.evidence());
        r
    }
}

/// A CK payload is forwarded field by field: the PIN block, of ISO format 0, goes to a
/// verification by the offset under the derivation key, with the key serial number and 3DES
/// derivation, and an acceptance is answered without a payload.
#[verifier::rlimit(30)]
pub proof fn a_pin_is_verified_by_its_offset_field_by_field(
    bdk: Seq<u8>,
    pvk: Seq<u8>,
    descriptor: Seq<u8>,
    ksn: Seq<u8>,
    block: Seq<u8>,
    length: Seq<u8>,
    account: Seq<u8>,
    table: Seq<u8>,
    data: Seq<u8>,
    offset: Seq<u8>,
    more: Seq<u8>,
    keys: KeyTable,
    bdk_arn: Seq<char>,
    pvk_arn: Seq<char>,
)
    requires
        common::bdk_key_is(keys, bdk, bdk_arn),
        common::legacy_key_is(keys, pvk, pvk_arn),
        descriptor.len() == 3,
        ksn.len() == 20,
        block.len() == 16,
        length.len() == 2,
        account.len() == 12,
        table.len() == 16,
        table[0] != 'K' as u8 && table[0] != 'L' as u8,
        data.len() == 12,
        data[0] != 'P' as u8,
        offset.len() == 12,
    ensures
        ({
            let p = bdk + pvk + descriptor + ksn + block + length + account + table + data + offset
                + more;
            &&& DukptPinVerifyHandler.step(text::ascii_2('C', 'K'), p,
                keys) matches Step::Call { call, then }
            &&& call == (ApcCall::VerifyPin {
                encryption_key: bdk_arn,
                verification_key: pvk_arn,
                pin_block: text::lossy_text(block),
                pan: text::lossy_text(account),
                format: PinBlockFormat::IsoFormat0,
                check: PinCheck::Ibm3624 {
                    decimalization_table: text::lossy_text(table),
                    pad_character: 'F',
                    validation_data: text::lossy_text(data),
                    offset: text::strip_end(text::lossy_text(offset), 'F'),
                },
                dukpt: Some(
                    Dukpt {
                        ksn: text::lossy_text(ksn),
                        derivation: DukptDerivationType::Tdes2Key,
                    },
                ),
            })
            &&& handlers::resumed(then, ApcReply::Accepted) == StepView::Done(
                handlers::answered(Seq::empty()),
            )
            &&& handlers::resumed(then, ApcReply::VerificationFailed) == StepView::Done(
                handlers::refused(text::ascii_2('0', '1')),
            )
        }),
{
    let p = bdk + pvk + descriptor + ksn + block + length + account + table + data + offset + more;
    assert(common::bdk_key(p, 0) == common::bdk_key(bdk, 0)) by {
        let before = Seq::<u8>::empty();
        let behind = pvk + descriptor + ksn + block + length + account + table + data + offset
            + more;
        assert(p =~= before + bdk + behind);
        common::key_fields_are_read_in_place(before, bdk, behind);
    }
    common::key_fields_lie_within(bdk, 0);
    let a = 0 + bdk.len() as int;
    assert(common::legacy_key(p, a) == common::legacy_key(pvk, 0)) by {
        let before = bdk;
        let behind = descriptor + ksn + block + length + account + table + data + offset + more;
        assert(p =~= before + pvk + behind);
        common::key_fields_are_read_in_place(before, pvk, behind);
    }
    common::key_fields_lie_within(pvk, 0);
    let b = a + pvk.len() as int;
    assert(p.subrange(b + 3, b + 23) =~= ksn);
    assert(p.subrange(b + 23, b + 39) =~= block);
    assert(p.subrange(b + 41, b + 53) =~= account);
    assert(p.subrange(b + 53, b + 69) =~= table);
    assert(p.subrange(b + 69, b + 81) =~= data);
    assert(p.subrange(b + 81, b + 93) =~= offset);
    assert(p[b + 53] == table[0]);
    assert(p[b + 69] == data[0]);
}

/// Of the commands of this handler only CK leads to a call, and only if its payload holds every
/// field and neither its table nor its validation data is of a form that is not offered; that,
/// and what is cut short, is answered with code `15`, a key that is not found with `10`, and
/// the other commands with `68`.
pub proof fn only_whole_payloads_lead_to_a_call(second: char, p: Seq<u8>, keys: KeyTable)
    requires
        (second as u32) < 0x80,
    ensures
        ({
            let a = (common::bdk_key(p, 0)->Ok_0).1;
            let b = a + (common::legacy_key(p, a)->Ok_0).1;
            let step = DukptPinVerifyHandler.step(text::ascii_2('C', second), p, keys);
            &&& match step {
                Step::Call { call, .. } => {
                    &&& second == 'K'
                    &&& common::bdk_key(p, 0) is Ok
                    &&& common::legacy_key(p, a) is Ok
                    &&& p.len() >= b + 93
                    &&& p[b + 53] != 'K' as u8 && p[b + 53] != 'L' as u8
                    &&& p[b + 69] != 'P' as u8
                },
                Step::Done(r) => r.payload.len() == 0 && (r.error_code == text::ascii_2('1', '0')
                    || r.error_code == text::ascii_2('1', '5')
                    || r.error_code == text::ascii_2('6', '8')),
            }
            &&& second != 'K' ==> step == StepView::Done(handlers::refused(text::ascii_2('6', '8')))
            &&& second == 'K' ==> step != StepView::Done(handlers::refused(text::ascii_2('6', '8')))
        }),
{
    assert(text::ascii_2('C', 'K')[1] == 'K' as u8 && text::ascii_2('C', 'M')[1] == 'M' as u8);
    assert(text::ascii_2('C', second)[1] == second as u8);
    assert(text::ascii_2('6', '8')[0] == '6' as u8);
    assert(text::ascii_2('1', '0')[0] == '1' as u8);
    assert(text::ascii_2('1', '5')[0] == '1' as u8);
    let a = (common::bdk_key(p, 0)->Ok_0).1;
    let b = a + (common::legacy_key(p, a)->Ok_0).1;
    common::unreadable_fields_are_answered_15(p, 0);
    common::unreadable_fields_are_answered_15(p, a);
}

} // verus!
