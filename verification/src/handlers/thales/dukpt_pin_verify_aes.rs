//! GO: verify a PIN under a 3DES or AES DUKPT key.

use vstd::prelude::*;
use vstd::string::*;
#[allow(unused_imports)]
use vstd::utf8::{decode_utf8, valid_utf8};

#[allow(unused_imports)]
use crate::apc::ApcReply;
use crate::apc::{ApcCall, Dukpt, PinCheck};
#[allow(unused_imports)]
use crate::error;
use crate::error::{Failure, ProxyError};
#[allow(unused_imports)]
use crate::handlers;
use crate::handlers::evidence;
use crate::handlers::grounding::{CryptoGrounding, Evidence, Proof, WireGrounding};
#[allow(unused_imports)]
use crate::handlers::thales::common;
use crate::handlers::thales::common::{field_text, malformed, map_pin_block_format, parse_bdk, parse_ksn_with_descriptor, parse_legacy_key, DukptDerivationType, PinBlockFormat};
use crate::handlers::{disable, fail, Finish, Handler, Pending, Step, StepView};
use crate::key_map::{KeyDescriptor, KeyMap, KeyTable};
use crate::secret::Secret;
#[allow(unused_imports)]
use crate::text;
use crate::text::{byte_text, decimal_text, fits, is_ascii_2, owned, same_text, strip_end_text, utf8};

verus! {

/// What a GO command asks for.
pub struct GoFields<T = String, S = Secret> {
    pub bdk_id: KeyDescriptor<T>,
    pub pvk_id: KeyDescriptor<T>,
    pub deriv_type: DukptDerivationType,
    pub pin_block_format: PinBlockFormat,
    pub ksn: T,
    pub pin_block: S,
    pub account: T,
    pub decim_table: T,
    pub pin_val_data: T,
    /// Filled up with `F`.
    pub offset: T,
}

/// The fields of a GO command as contracts speak of them.
pub type GoView = GoFields<Seq<char>, Seq<char>>;

impl View for GoFields<String, Secret> {
    type V = GoView;

    open spec fn view(&self) -> GoView {
        GoFields {
            bdk_id: self.bdk_id@,
            pvk_id: self.pvk_id@,
            deriv_type: self.deriv_type,
            pin_block_format: self.pin_block_format,
            ksn: self.ksn@,
            pin_block: self.pin_block@,
            account: self.account@,
            decim_table: self.decim_table@,
            pin_val_data: self.pin_val_data@,
            offset: self.offset@,
        }
    }
}

/// Why the mode is refused: `0` and `2` are offered.
pub open spec fn mode_refusal(cmd: Seq<char>, p: Seq<u8>) -> Option<Failure> {
    if p.len() == 0 {
        Some(ProxyError::MalformedPayload(cmd + ": empty payload (no Mode)"@))
    } else if p[0] == '0' as u8 || p[0] == '2' as u8 {
        None
    } else if p[0] == '1' as u8 {
        Some(
            ProxyError::Unsupported(
                cmd
                    + " Mode '1' (PIN+MAC verify): APC verify_pin_data cannot verify a MAC atomically"@,
            ),
        )
    } else {
        Some(
            ProxyError::MalformedPayload(cmd + ": invalid Mode '"@ + seq![p[0] as char] + "'"@),
        )
    }
}

/// Read the mode; what follows it is at the offset that is returned.
pub fn parse_mode(payload: &[u8], cmd: &str) -> (r: Result<usize, ProxyError>)
    ensures
        match r {
            Ok(n) => n == 1 && payload@.len() > 0 && mode_refusal(cmd@, payload@) is None,
            Err(e) => mode_refusal(cmd@, payload@) == Some(e@),
        },
{
    if payload.len() == 0 {
        return Err(ProxyError::MalformedPayload(owned(cmd).concat(": empty payload (no Mode)")));
    }
    if payload[0] == '0' as u8 || payload[0] == '2' as u8 {
        Ok(1)
    } else if payload[0] == '1' as u8 {
        Err(
            ProxyError::Unsupported(
                owned(cmd).concat(
                    " Mode '1' (PIN+MAC verify): APC verify_pin_data cannot verify a MAC atomically",
                ),
            ),
        )
    } else {
        Err(
            ProxyError::MalformedPayload(
                owned(cmd).concat(": invalid Mode '").concat(byte_text(payload[0]).as_str()).concat(
                    "'",
                ),
            ),
        )
    }
}

/// The width of an encrypted PIN block: 32 bytes under AES, else 16.
pub open spec fn pin_block_width(deriv_type: DukptDerivationType) -> int {
    match deriv_type {
        DukptDerivationType::Aes128
        | DukptDerivationType::Aes192
        | DukptDerivationType::Aes256 => 32,
        _ => 16,
    }
}

/// The width of an encrypted PIN block.
pub fn pin_block_len(deriv_type: &DukptDerivationType) -> (r: usize)
    ensures
        r == pin_block_width(*deriv_type),
{
    match deriv_type {
        DukptDerivationType::Aes128
        | DukptDerivationType::Aes192
        | DukptDerivationType::Aes256 => 32,
        _ => 16,
    }
}

/// The PIN block format code at `at`; `04` has no equivalent.
pub open spec fn dukpt_format(p: Seq<u8>, at: int) -> Result<PinBlockFormat, Failure> {
    let code = p.subrange(at, at + 2);
    if p.len() < at + 2 {
        error::bad("DUKPT verify: payload too short for PIN block format code"@)
    } else if !valid_utf8(code) {
        error::bad("DUKPT verify: format code not ASCII"@)
    } else if decode_utf8(code) == "04"@ {
        error::gated("Thales PIN block format '04' (Plus) has no APC equivalent"@)
    } else {
        common::pin_block_format(decode_utf8(code))
    }
}

/// Read the PIN block format code at `pos`.
pub fn map_dukpt_format(payload: &[u8], pos: usize) -> (r: Result<PinBlockFormat, ProxyError>)
    ensures
        match r {
            Ok(f) => pos + 2 <= payload@.len() && dukpt_format(payload@, pos as int) == Ok::<
                PinBlockFormat,
                Failure,
            >(f),
            Err(e) => dukpt_format(payload@, pos as int) == Err::<PinBlockFormat, Failure>(e@),
        },
{
    if !fits(payload, pos, 2) {
        return Err(malformed("DUKPT verify: payload too short for PIN block format code"));
    }
    let code: String = match utf8(&payload[pos..pos + 2]) {
        Some(t) => t,
        None => {
            return Err(malformed("DUKPT verify: format code not ASCII"));
        },
    };
    if same_text(code.as_str(), "04") {
        return Err(
            ProxyError::Unsupported(
                owned("Thales PIN block format '04' (Plus) has no APC equivalent"),
            ),
        );
    }
    map_pin_block_format(code.as_str())
}

/// A GO payload: 0 mode, 1 base derivation key; then PIN verification key, key
/// serial number with its descriptor, PIN block (16 or 32 bytes by the
/// derivation), PIN block format (two), check length (two), account number
/// (twelve), decimalization table (sixteen), PIN validation data (twelve), offset
/// (twelve). A decimalization table that begins with `K` or `L`, and validation
/// data that begins with `P`, are of a form that is not offered.
pub open spec fn go_fields(p: Seq<u8>) -> Result<GoView, Failure> {
    let mode = mode_refusal("GO"@, p);
    let bdk = common::bdk_key(p, 1);
    let a = 1 + (bdk->Ok_0).1;
    let pvk = common::legacy_key(p, a);
    let b = a + (pvk->Ok_0).1;
    let ksn = common::ksn_field(p, b);
    let c = b + (ksn->Ok_0).1;
    let width = pin_block_width((ksn->Ok_0).2);
    let d = c + width;
    let format = dukpt_format(p, d);
    if mode is Some {
        Err(mode->0)
    } else if bdk is Err {
        Err(bdk->Err_0)
    } else if pvk is Err {
        Err(pvk->Err_0)
    } else if ksn is Err {
        Err(ksn->Err_0)
    } else if format is Err {
        Err(format->Err_0)
    } else if d + 16 < p.len() && (p[d + 16] == 'K' as u8 || p[d + 16] == 'L' as u8) {
        error::bad("GO: K/L prefix decim table not supported"@)
    } else if d + 32 < p.len() && p[d + 32] == 'P' as u8 {
        error::bad("GO: P-prefix PIN validation data not supported"@)
    } else if p.len() < d + 56 {
        error::bad(
            "GO payload too short: "@ + text::decimal(p.len()) + " < "@ + text::decimal(
                (d + 56) as nat,
            ),
        )
    } else {
        Ok(
            GoFields {
                bdk_id: (bdk->Ok_0).0,
                pvk_id: (pvk->Ok_0).0,
                deriv_type: (ksn->Ok_0).2,
                pin_block_format: format->Ok_0,
                ksn: (ksn->Ok_0).0,
                pin_block: common::text_at(p, c, width),
                account: common::text_at(p, d + 4, 12),
                decim_table: common::text_at(p, d + 16, 16),
                pin_val_data: common::text_at(p, d + 32, 12),
                offset: common::text_at(p, d + 44, 12),
            },
        )
    }
}

/// Parse the payload of GO.
pub fn parse_go(payload: &[u8]) -> (r: Result<GoFields, ProxyError>)
    ensures
        error::outcome(r) == go_fields(payload@),
{
    assert(payload.len() == payload@.len());
    let pos: usize = parse_mode(payload, "GO")?;
    let (bdk_id, bdk_len) = parse_bdk(payload, pos)?;
    let a: usize = pos + bdk_len;
    let (pvk_id, pvk_len) = parse_legacy_key(payload, a)?;
    let b: usize = a + pvk_len;
    let (ksn, ksn_len, deriv_type) = parse_ksn_with_descriptor(payload, b)?;
    let c: usize = b + ksn_len;
    let width: usize = pin_block_len(&deriv_type);
    if !fits(payload, c, width) {
        return Err(malformed("DUKPT verify: payload too short for PIN block format code"));
    }
    let d: usize = c + width;
    let pin_block_format: PinBlockFormat = map_dukpt_format(payload, d)?;
    if fits(payload, d, 17) && (payload[d + 16] == 'K' as u8 || payload[d + 16] == 'L' as u8) {
        return Err(malformed("GO: K/L prefix decim table not supported"));
    }
    if fits(payload, d, 33) && payload[d + 32] == 'P' as u8 {
        return Err(malformed("GO: P-prefix PIN validation data not supported"));
    }
    if !fits(payload, d, 56) {
        return Err(
            ProxyError::MalformedPayload(
                owned("GO payload too short: ").concat(
                    decimal_text(payload.len() as u128).as_str(),
                ).concat(" < ").concat(decimal_text(d as u128 + 56).as_str()),
            ),
        );
    }
    Ok(
        GoFields {
            bdk_id,
            pvk_id,
            deriv_type,
            pin_block_format,
            ksn,
            pin_block: Secret::new(field_text(payload, c, width)),
            account: field_text(payload, d + 4, 12),
            decim_table: field_text(payload, d + 16, 16),
            pin_val_data: field_text(payload, d + 32, 12),
            offset: field_text(payload, d + 44, 12),
        },
    )
}

/// What a GO command leads to.
pub open spec fn go_step(p: Seq<u8>, keys: KeyTable) -> StepView {
    match go_fields(p) {
        Err(e) => handlers::failed(e),
        Ok(f) => match keys.resolved_field(f.bdk_id) {
            Err(e) => handlers::failed(e),
            Ok(bdk) => match keys.resolved_field(f.pvk_id) {
                Err(e) => handlers::failed(e),
                Ok(pvk) => handlers::ask(
                    ApcCall::VerifyPin {
                        encryption_key: bdk,
                        verification_key: pvk,
                        pin_block: f.pin_block,
                        pan: f.account,
                        format: f.pin_block_format,
                        check: PinCheck::Ibm3624 {
                            decimalization_table: f.decim_table,
                            pad_character: 'F',
                            validation_data: f.pin_val_data,
                            offset: text::strip_end(f.offset, 'F'),
                        },
                        dukpt: Some(Dukpt { ksn: f.ksn, derivation: f.deriv_type }),
                    },
                    Finish::Accepted,
                ),
            },
        },
    }
}

/// What a DUKPT PIN verification command leads to. Only GO is offered.
pub open spec fn dukpt_pin_verify_aes_step(
    command_code: Seq<u8>,
    p: Seq<u8>,
    keys: KeyTable,
) -> StepView {
    if command_code == text::ascii_2('G', 'O') {
        go_step(p, keys)
    } else if command_code == text::ascii_2('G', 'Q') {
        handlers::failed(
            ProxyError::Unsupported(
                "GQ (Visa PVV, DUKPT verify): APC VerifyPinData with DukptAttributes + VisaPin returns InternalServerException; gated pending an APC fix. Workaround: translate the DUKPT PIN block to a ZPK, then verify the PVV non-DUKPT."@,
            ),
        )
    } else {
        handlers::disabled()
    }
}

/// payShield PIN verification under a 3DES or AES DUKPT key: GO by IBM 3624 offset. GQ
/// (Visa), GS (Diebold) and GU (encrypted PIN) are not offered.
pub struct DukptPinVerifyAesHandler;

impl Handler for DukptPinVerifyAesHandler {
    open spec fn codes(&self) -> Seq<Seq<char>> {
        seq!["GO"@, "GQ"@, "GS"@, "GU"@]
    }

    open spec fn step(&self, command_code: Seq<u8>, payload: Seq<u8>, keys: KeyTable) -> StepView {
        dukpt_pin_verify_aes_step(command_code, payload, keys)
    }

    open spec fn evidence(&self) -> Seq<Evidence> {
        seq![
            Evidence {
                decision: evidence::DUKPT_PIN_VERIFY_AES_1_DECISION,
                because: evidence::DUKPT_PIN_VERIFY_AES_1_BECAUSE,
                wire: WireGrounding::DiffXprov,
                crypto: CryptoGrounding::Apc,
                proof: Proof::LiveTest(evidence::DUKPT_PIN_VERIFY_AES_1_PROOF),
            },
            Evidence {
                decision: evidence::DUKPT_PIN_VERIFY_AES_2_DECISION,
                because: evidence::DUKPT_PIN_VERIFY_AES_2_BECAUSE,
                wire: WireGrounding::Ungrounded,
                crypto: CryptoGrounding::Ungrounded,
                proof: Proof::Gated(evidence::DUKPT_PIN_VERIFY_AES_2_PROOF),
            },
            Evidence {
                decision: evidence::DUKPT_PIN_VERIFY_AES_3_DECISION,
                because: evidence::DUKPT_PIN_VERIFY_AES_3_BECAUSE,
                wire: WireGrounding::Ungrounded,
                crypto: CryptoGrounding::Ungrounded,
                proof: Proof::Gated(evidence::DUKPT_PIN_VERIFY_AES_3_PROOF),
            },
        ]
    }

    fn command_codes(&self) -> Vec<&'static str> {
        let r: Vec<&'static str> = vec!["GO", "GQ", "GS", "GU"];
        assert(text::texts(r@) =~= self.codes());
        r
    }

    fn start(&self, command_code: &[u8], payload: &[u8], keys: &KeyMap) -> Step {
        if is_ascii_2(command_code, 'G', 'Q') {
            return fail(
                &ProxyError::Unsupported(
                    owned(
                        "GQ (Visa PVV, DUKPT verify): APC VerifyPinData with DukptAttributes + VisaPin returns InternalServerException; gated pending an APC fix. Workaround: translate the DUKPT PIN block to a ZPK, then verify the PVV non-DUKPT.",
                    ),
                ),
            );
        }
        if !is_ascii_2(command_code, 'G', 'O') {
            return disable();
        }
        let fields: GoFields = match parse_go(payload) {
            Ok(f) => f,
            Err(e) => {
                return fail(&e);
            },
        };
        let bdk: String = match keys.resolve_descriptor(&fields.bdk_id) {
            Ok(a) => owned(a),
            Err(e) => {
                return fail(&e);
            },
        };
        let pvk: String = match keys.resolve_descriptor(&fields.pvk_id) {
            Ok(a) => owned(a),
            Err(e) => {
                return fail(&e);
            },
        };
        Step::Call {
            call: ApcCall::VerifyPin {
                encryption_key: bdk,
                verification_key: pvk,
                pin_block: fields.pin_block,
                pan: fields.account,
                format: fields.pin_block_format,
                check: PinCheck::Ibm3624 {
                    decimalization_table: fields.decim_table,
                    pad_character: 'F',
                    validation_data: fields.pin_val_data,
                    offset: strip_end_text(fields.offset.as_str(), 'F'),
                },
                dukpt: Some(Dukpt { ksn: fields.ksn, derivation: fields.deriv_type }),
            },
            then: Pending::Finish(Finish::Accepted),
        }
    }

    fn grounding(&self) -> Vec<Evidence> {
        let r: Vec<Evidence> = vec![
            Evidence {
                decision: evidence::DUKPT_PIN_VERIFY_AES_1_DECISION,
                because: evidence::DUKPT_PIN_VERIFY_AES_1_BECAUSE,
                wire: WireGrounding::DiffXprov,
                crypto: CryptoGrounding::Apc,
                proof: Proof::LiveTest(evidence::DUKPT_PIN_VERIFY_AES_1_PROOF),
            },
            Evidence {
                decision: evidence::DUKPT_PIN_VERIFY_AES_2_DECISION,
                because: evidence::DUKPT_PIN_VERIFY_AES_2_BECAUSE,
                wire: WireGrounding::Ungrounded,
                crypto: CryptoGrounding::Ungrounded,
                proof: Proof::Gated(evidence::DUKPT_PIN_VERIFY_AES_2_PROOF),
            },
            Evidence {
                decision: evidence::DUKPT_PIN_VERIFY_AES_3_DECISION,
                because: evidence::DUKPT_PIN_VERIFY_AES_3_BECAUSE,
                wire: WireGrounding::Ungrounded,
                crypto: CryptoGrounding::Ungrounded,
                proof: Proof::Gated(evidence::DUKPT_PIN_VERIFY_AES_3_PROOF),
            },
        ];
        assert(r@ =~= self.evidence());
        r
    }
}

/// A GO payload is forwarded field by field: the PIN block, as wide as the key serial number
/// has it, goes to a verification by the offset under the derivation key, with the number,
/// 3DES derivation for one of twenty digits and AES for one of twenty-four, in the format of
/// its code. An acceptance is answered without a payload.
#[verifier::rlimit(30)]
pub proof fn a_pin_is_verified_by_its_offset_field_by_field(
    mode: u8,
    bdk: Seq<u8>,
    pvk: Seq<u8>,
    ksn: Seq<u8>,
    block: Seq<u8>,
    code: Seq<u8>,
    format: PinBlockFormat,
    length: Seq<u8>,
    account: Seq<u8>,
    table: Seq<u8>,
    data: Seq<u8>,
    offset: Seq<u8>,
    more: Seq<u8>,
    keys: KeyTable,
    bdk_arn: Seq<char>,
    pvk_arn: Seq<char>,
)
    requires
        mode == '0' as u8 || mode == '2' as u8,
        common::bdk_key_is(keys, bdk, bdk_arn),
        common::legacy_key_is(keys, pvk, pvk_arn),
        common::is_ksn(ksn),
        block.len() == if ksn.len() == 23 {
            16nat
        } else {
            32
        },
        common::format_code_is(code, format),
        length.len() == 2,
        account.len() == 12,
        table.len() == 16,
        table[0] != 'K' as u8 && table[0] != 'L' as u8,
        data.len() == 12,
        data[0] != 'P' as u8,
        offset.len() == 12,
    ensures
        ({
            let p = seq![mode] + bdk + pvk + ksn + block + code + length + account + table + data
                + offset + more;
            &&& DukptPinVerifyAesHandler.step(text::ascii_2('G', 'O'), p,
                keys) matches Step::Call { call, then }
            &&& call == (ApcCall::VerifyPin {
                encryption_key: bdk_arn,
                verification_key: pvk_arn,
                pin_block: text::lossy_text(block),
                pan: text::lossy_text(account),
                format,
                check: PinCheck::Ibm3624 {
                    decimalization_table: text::lossy_text(table),
                    pad_character: 'F',
                    validation_data: text::lossy_text(data),
                    offset: text::strip_end(text::lossy_text(offset), 'F'),
                },
                dukpt: Some(
                    Dukpt {
                        ksn: text::lossy_text(ksn.skip(3)),
                        derivation: if ksn.len() == 23 {
                            DukptDerivationType::Tdes2Key
                        } else {
                            DukptDerivationType::Aes128
                        },
                    },
                ),
            })
            &&& handlers::resumed(then, ApcReply::Accepted) == StepView::Done(
                handlers::answered(Seq::empty()),
            )
            &&& handlers::resumed(then, ApcReply::VerificationFailed) == StepView::Done(
                handlers::refused(text::ascii_2('0', '1')),
            )
        }),
{
    let tail = block + code + length + account + table + data + offset + more;
    let head = seq![mode] + bdk + pvk + ksn;
    assert(head + block + code + length + account + table + data + offset + more =~= head + tail);
    common::format_codes_stand_for_their_formats(code, format);
    lemma_code_is_read(code, format);
    lemma_keys_are_read(mode, bdk, pvk, ksn, tail);
    lemma_tail_is_read(head, block, code, length, account, table, data, offset, more);
    assert((head + tail)[0] == mode);
}

proof fn lemma_tail_is_read(
    head: Seq<u8>,
    block: Seq<u8>,
    code: Seq<u8>,
    length: Seq<u8>,
    account: Seq<u8>,
    table: Seq<u8>,
    data: Seq<u8>,
    offset: Seq<u8>,
    more: Seq<u8>,
)
    requires
        code.len() == 2,
        length.len() == 2,
        account.len() == 12,
        table.len() == 16,
        data.len() == 12,
        offset.len() == 12,
    ensures
        ({
            let p = head + (block + code + length + account + table + data + offset + more);
            let c = head.len() as int;
            let d = c + block.len();
            &&& p.len() == d + 56 + more.len()
            &&& p.subrange(c, d) == block
            &&& p.subrange(d, d + 2) == code
            &&& p.subrange(d + 4, d + 16) == account
            &&& p.subrange(d + 16, d + 32) == table
            &&& p.subrange(d + 32, d + 44) == data
            &&& p.subrange(d + 44, d + 56) == offset
            &&& p[d + 16] == table[0]
            &&& p[d + 32] == data[0]
        }),
{
}

proof fn lemma_keys_are_read(mode: u8, bdk: Seq<u8>, pvk: Seq<u8>, ksn: Seq<u8>, tail: Seq<u8>)
    requires
        common::is_bdk_key(bdk),
        common::is_legacy_key(pvk),
        common::is_ksn(ksn),
    ensures
        ({
            let p = seq![mode] + bdk + pvk + ksn + tail;
            let a = 1 + bdk.len() as int;
            let b = a + pvk.len();
            &&& common::bdk_key(p, 1) == common::bdk_key(bdk, 0)
            &&& common::legacy_key(p, a) == common::legacy_key(pvk, 0)
            &&& common::ksn_field(p, b) == common::ksn_field(ksn, 0)
            &&& (common::ksn_field(ksn, 0)->Ok_0).0 == text::lossy_text(ksn.skip(3))
            &&& ksn.len() == 23 || ksn.len() == 27
            &&& (common::ksn_field(ksn, 0)->Ok_0).2 == if ksn.len() == 23 {
                DukptDerivationType::Tdes2Key
            } else {
                DukptDerivationType::Aes128
            }
        }),
{
    let p = seq![mode] + bdk + pvk + ksn + tail;
    let head = seq![mode] + bdk;
    assert(p =~= seq![mode] + bdk + (pvk + ksn + tail));
    common::key_fields_are_read_in_place(seq![mode], bdk, pvk + ksn + tail);
    assert(p =~= head + pvk + (ksn + tail));
    common::key_fields_are_read_in_place(head, pvk, ksn + tail);
    common::key_serial_numbers_are_read_in_place(head + pvk, ksn, tail);
    common::key_serial_numbers_go_by_their_length(ksn);
}

proof fn lemma_code_is_read(code: Seq<u8>, format: PinBlockFormat)
    requires
        common::format_code_is(code, format),
    ensures
        valid_utf8(code),
        decode_utf8(code) != "04"@,
        decode_utf8(code) == text::lossy_text(code),
        code.len() == 2,
{
    text::ascii_pairs_are_read_as_written('0', '1');
    text::ascii_pairs_are_read_as_written('0', '5');
    text::ascii_pairs_are_read_as_written('4', '7');
    text::ascii_pairs_are_read_as_written('4', '8');
    reveal_strlit("04");
    assert("04"@[0] == '0' && "04"@[1] == '4');
    assert(decode_utf8(code)[1] != '4');
}

proof fn lemma_only_four_codes_have_a_format(code: Seq<u8>)
    requires
        valid_utf8(code),
        has_no_format(code),
    ensures
        common::pin_block_format(decode_utf8(code)) is Err,
        common::pin_block_format(decode_utf8(code))->Err_0.code() == text::ascii_2('2', '3'),
{
    assert(!common::format_code_is(code, PinBlockFormat::IsoFormat0));
    assert(!common::format_code_is(code, PinBlockFormat::IsoFormat1));
    assert(!common::format_code_is(code, PinBlockFormat::IsoFormat3));
    assert(!common::format_code_is(code, PinBlockFormat::IsoFormat4));
    lemma_text_tells_the_code(code, '0', '1');
    lemma_text_tells_the_code(code, '0', '5');
    lemma_text_tells_the_code(code, '4', '7');
    lemma_text_tells_the_code(code, '4', '8');
    reveal_strlit("01");
    reveal_strlit("05");
    reveal_strlit("47");
    reveal_strlit("48");
    assert("01"@ =~= seq!['0', '1']);
    assert("05"@ =~= seq!['0', '5']);
    assert("47"@ =~= seq!['4', '7']);
    assert("48"@ =~= seq!['4', '8']);
}

proof fn lemma_text_tells_the_code(code: Seq<u8>, a: char, b: char)
    requires
        valid_utf8(code),
        (a as u32) < 0x80,
        (b as u32) < 0x80,
    ensures
        decode_utf8(code) == seq![a, b] ==> code == text::ascii_2(a, b),
{
    text::ascii_pairs_are_read_as_written(a, b);
    vstd::utf8::decode_utf8_encode_utf8(code);
    vstd::utf8::decode_utf8_encode_utf8(text::ascii_2(a, b));
}

/// No PIN block format goes with the code.
pub open spec fn has_no_format(code: Seq<u8>) -> bool {
    forall|f: PinBlockFormat| !(#[trigger] common::format_code_is(code, f))
}

/// Of the commands of this handler only GO leads to a call, and only in modes `0` and `2` and if
/// its payload holds every field and neither its table nor its validation data is of a form
/// that is not offered. Mode `1` and the other commands are answered with code `68`.
pub proof fn only_whole_payloads_lead_to_a_call(second: char, p: Seq<u8>, keys: KeyTable)
    requires
        (second as u32) < 0x80,
    ensures
        ({
            let a = 1 + (common::bdk_key(p, 1)->Ok_0).1;
            let b = a + (common::legacy_key(p, a)->Ok_0).1;
            let c = b + (common::ksn_field(p, b)->Ok_0).1;
            let d = if (common::ksn_field(p, b)->Ok_0).2 == DukptDerivationType::Tdes2Key {
                c + 16
            } else {
                c + 32
            };
            let step = DukptPinVerifyAesHandler.step(text::ascii_2('G', second), p, keys);
            &&& match step {
                Step::Call { call, .. } => {
                    &&& second == 'O'
                    &&& p[0] == '0' as u8 || p[0] == '2' as u8
                    &&& common::bdk_key(p, 1) is Ok
                    &&& common::legacy_key(p, a) is Ok
                    &&& common::ksn_field(p, b) is Ok
                    &&& p.len() >= d + 56
                    &&& p[d + 16] != 'K' as u8 && p[d + 16] != 'L' as u8
                    &&& p[d + 32] != 'P' as u8
                },
                Step::Done(r) => r.payload.len() == 0 && (r.error_code == text::ascii_2('1', '0')
                    || r.error_code == text::ascii_2('1', '5')
                    || r.error_code == text::ascii_2('2', '3')
                    || r.error_code == text::ascii_2('6', '8')),
            }
            &&& second != 'O' ==> step == StepView::Done(handlers::refused(text::ascii_2('6', '8')))
            &&& second == 'O' && p.len() > 0 && p[0] == '1' as u8
                ==> step == StepView::Done(handlers::refused(text::ascii_2('6', '8')))
            &&& second == 'O' && p.len() > 0 && p[0] != '0' as u8 && p[0] != '1' as u8
                && p[0] != '2' as u8
                ==> step == StepView::Done(handlers::refused(text::ascii_2('1', '5')))
            &&& second == 'O' && step == StepView::Done(handlers::refused(text::ascii_2('6', '8')))
                ==> p[0] == '1' as u8 || p.subrange(d, d + 2) == text::ascii_2('0', '4')
            &&& step == StepView::Done(handlers::refused(text::ascii_2('2', '3')))
                ==> has_no_format(p.subrange(d, d + 2))
            &&& second == 'O' && p.len() >= d + 2 && (p[0] == '0' as u8 || p[0] == '2' as u8)
                && common::bdk_key(p, 1) is Ok && common::legacy_key(p, a) is Ok
                && common::ksn_field(p, b) is Ok && valid_utf8(p.subrange(d, d + 2))
                && p.subrange(d, d + 2) != text::ascii_2('0', '4') && has_no_format(
                p.subrange(d, d + 2),
            ) ==> step == StepView::Done(handlers::refused(text::ascii_2('2', '3')))
        }),
{
    assert(text::ascii_2('6', '8')[0] == '6' as u8 && text::ascii_2('1', '5')[0] == '1' as u8);
    assert(text::ascii_2('1', '0')[0] == '1' as u8 && text::ascii_2('2', '3')[0] == '2' as u8);
    assert(text::ascii_2('G', 'O')[1] == 'O' as u8 && text::ascii_2('G', 'Q')[1] == 'Q' as u8);
    assert(text::ascii_2('G', second)[1] == second as u8);
    reveal(common::ksn_field);
    let a = 1 + (common::bdk_key(p, 1)->Ok_0).1;
    let b = a + (common::legacy_key(p, a)->Ok_0).1;
    let c = b + (common::ksn_field(p, b)->Ok_0).1;
    let d = if (common::ksn_field(p, b)->Ok_0).2 == DukptDerivationType::Tdes2Key {
        c + 16
    } else {
        c + 32
    };
    let code = p.subrange(d, d + 2);
    if valid_utf8(code) && decode_utf8(code) == "04"@ {
        reveal_strlit("04");
        assert("04"@ =~= seq!['0', '4']);
        lemma_text_tells_the_code(code, '0', '4');
    }
    assert forall|f: PinBlockFormat| #[trigger] common::format_code_is(code, f) implies valid_utf8(
        code,
    )
        && common::pin_block_format(decode_utf8(code)) is Ok by {
        lemma_code_is_read(code, f);
        common::format_codes_stand_for_their_formats(code, f);
    }
    if valid_utf8(code) && has_no_format(code) {
        lemma_only_four_codes_have_a_format(code);
    }
    common::unreadable_fields_are_answered_15(p, 1);
    common::unreadable_fields_are_answered_15(p, a);
    common::unreadable_fields_are_answered_15(p, b);
}

} // verus!
