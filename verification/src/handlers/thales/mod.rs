//! Thales payShield 10K commands.

pub mod cap_arqc;
pub mod common;
pub mod cvv;
pub mod diebold_pin;
pub mod dukpt_mac;
pub mod dukpt_pin_verify;
pub mod dukpt_pin_verify_aes;
pub mod dynamic_cvv;
pub mod emv_decrypt;
pub mod encrypt_decrypt;
pub mod heartbeat;
pub mod hmac;
pub mod international_encrypt;
pub mod issuer_script_mac;
pub mod kq_arqc;
pub mod kw_arqc;
pub mod legacy_mac;
pub mod mac;
pub mod mac_translate;
pub mod pin;
pub mod pin_change;
pub mod pin_verify_non_dukpt;
pub mod random_pin;
pub mod reader;
pub mod unionpay_arqc;

use vstd::prelude::*;

#[allow(unused_imports)]
use crate::handlers;
use crate::handlers::grounding::Evidence;
#[allow(unused_imports)]
use crate::handlers::grounding::{CryptoGrounding, WireGrounding};
use crate::handlers::thales::cap_arqc::CapArqcHandler;
use crate::handlers::thales::cvv::CvvHandler;
use crate::handlers::thales::diebold_pin::DieboldPinHandler;
use crate::handlers::thales::dukpt_mac::DukptMacHandler;
use crate::handlers::thales::dukpt_pin_verify::DukptPinVerifyHandler;
use crate::handlers::thales::dukpt_pin_verify_aes::DukptPinVerifyAesHandler;
use crate::handlers::thales::dynamic_cvv::DynamicCvvHandler;
use crate::handlers::thales::emv_decrypt::EmvDecryptHandler;
use crate::handlers::thales::encrypt_decrypt::EncryptDecryptHandler;
use crate::handlers::thales::heartbeat::HeartbeatHandler;
use crate::handlers::thales::hmac::HmacHandler;
use crate::handlers::thales::international_encrypt::InternationalEncryptHandler;
use crate::handlers::thales::issuer_script_mac::IssuerScriptMacHandler;
use crate::handlers::thales::kq_arqc::KqArqcHandler;
use crate::handlers::thales::kw_arqc::KwArqcHandler;
use crate::handlers::thales::legacy_mac::LegacyMacHandler;
use crate::handlers::thales::mac::MacHandler;
use crate::handlers::thales::mac_translate::MacTranslateHandler;
use crate::handlers::thales::pin::PinHandler;
use crate::handlers::thales::pin_change::PinChangeHandler;
use crate::handlers::thales::pin_verify_non_dukpt::PinVerifyNonDukptHandler;
use crate::handlers::thales::random_pin::RandomPinHandler;
use crate::handlers::thales::unionpay_arqc::UnionPayArqcHandler;
use crate::handlers::{Handler, Step, StepView};
#[allow(unused_imports)]
use crate::key_map::KeyField;
use crate::key_map::{KeyMap, KeyTable};
use crate::protocol::thales::ThalesPayShield;
#[allow(unused_imports)]
use crate::text;
use crate::vendor::VendorModule;

verus! {

/// One of the payShield handlers.
pub enum ThalesHandler {
    Pin(PinHandler),
    PinChange(PinChangeHandler),
    DieboldPin(DieboldPinHandler),
    RandomPin(RandomPinHandler),
    DukptPinVerify(DukptPinVerifyHandler),
    DukptPinVerifyAes(DukptPinVerifyAesHandler),
    PinVerifyNonDukpt(PinVerifyNonDukptHandler),
    EncryptDecrypt(EncryptDecryptHandler),
    InternationalEncrypt(InternationalEncryptHandler),
    DukptMac(DukptMacHandler),
    IssuerScriptMac(IssuerScriptMacHandler),
    CapArqc(CapArqcHandler),
    EmvDecrypt(EmvDecryptHandler),
    KqArqc(KqArqcHandler),
    KwArqc(KwArqcHandler),
    UnionPayArqc(UnionPayArqcHandler),
    Hmac(HmacHandler),
    Mac(MacHandler),
    MacTranslate(MacTranslateHandler),
    LegacyMac(LegacyMacHandler),
    Cvv(CvvHandler),
    DynamicCvv(DynamicCvvHandler),
    Heartbeat(HeartbeatHandler),
}

impl Handler for ThalesHandler {
    open spec fn codes(&self) -> Seq<Seq<char>> {
        match self {
            ThalesHandler::Pin(h) => h.codes(),
            ThalesHandler::PinChange(h) => h.codes(),
            ThalesHandler::DieboldPin(h) => h.codes(),
            ThalesHandler::RandomPin(h) => h.codes(),
            ThalesHandler::DukptPinVerify(h) => h.codes(),
            ThalesHandler::DukptPinVerifyAes(h) => h.codes(),
            ThalesHandler::PinVerifyNonDukpt(h) => h.codes(),
            ThalesHandler::EncryptDecrypt(h) => h.codes(),
            ThalesHandler::InternationalEncrypt(h) => h.codes(),
            ThalesHandler::DukptMac(h) => h.codes(),
            ThalesHandler::IssuerScriptMac(h) => h.codes(),
            ThalesHandler::CapArqc(h) => h.codes(),
            ThalesHandler::EmvDecrypt(h) => h.codes(),
            ThalesHandler::KqArqc(h) => h.codes(),
            ThalesHandler::KwArqc(h) => h.codes(),
            ThalesHandler::UnionPayArqc(h) => h.codes(),
            ThalesHandler::Hmac(h) => h.codes(),
            ThalesHandler::Mac(h) => h.codes(),
            ThalesHandler::MacTranslate(h) => h.codes(),
            ThalesHandler::LegacyMac(h) => h.codes(),
            ThalesHandler::Cvv(h) => h.codes(),
            ThalesHandler::DynamicCvv(h) => h.codes(),
            ThalesHandler::Heartbeat(h) => h.codes(),
        }
    }

    open spec fn step(&self, command_code: Seq<u8>, payload: Seq<u8>, keys: KeyTable) -> StepView {
        match self {
            ThalesHandler::Pin(h) => h.step(command_code, payload, keys),
            ThalesHandler::PinChange(h) => h.step(command_code, payload, keys),
            ThalesHandler::DieboldPin(h) => h.step(command_code, payload, keys),
            ThalesHandler::RandomPin(h) => h.step(command_code, payload, keys),
            ThalesHandler::DukptPinVerify(h) => h.step(command_code, payload, keys),
            ThalesHandler::DukptPinVerifyAes(h) => h.step(command_code, payload, keys),
            ThalesHandler::PinVerifyNonDukpt(h) => h.step(command_code, payload, keys),
            ThalesHandler::EncryptDecrypt(h) => h.step(command_code, payload, keys),
            ThalesHandler::InternationalEncrypt(h) => h.step(command_code, payload, keys),
            ThalesHandler::DukptMac(h) => h.step(command_code, payload, keys),
            ThalesHandler::IssuerScriptMac(h) => h.step(command_code, payload, keys),
            ThalesHandler::CapArqc(h) => h.step(command_code, payload, keys),
            ThalesHandler::EmvDecrypt(h) => h.step(command_code, payload, keys),
            ThalesHandler::KqArqc(h) => h.step(command_code, payload, keys),
            ThalesHandler::KwArqc(h) => h.step(command_code, payload, keys),
            ThalesHandler::UnionPayArqc(h) => h.step(command_code, payload, keys),
            ThalesHandler::Hmac(h) => h.step(command_code, payload, keys),
            ThalesHandler::Mac(h) => h.step(command_code, payload, keys),
            ThalesHandler::MacTranslate(h) => h.step(command_code, payload, keys),
            ThalesHandler::LegacyMac(h) => h.step(command_code, payload, keys),
            ThalesHandler::Cvv(h) => h.step(command_code, payload, keys),
            ThalesHandler::DynamicCvv(h) => h.step(command_code, payload, keys),
            ThalesHandler::Heartbeat(h) => h.step(command_code, payload, keys),
        }
    }

    open spec fn evidence(&self) -> Seq<Evidence> {
        match self {
            ThalesHandler::Pin(h) => h.evidence(),
            ThalesHandler::PinChange(h) => h.evidence(),
            ThalesHandler::DieboldPin(h) => h.evidence(),
            ThalesHandler::RandomPin(h) => h.evidence(),
            ThalesHandler::DukptPinVerify(h) => h.evidence(),
            ThalesHandler::DukptPinVerifyAes(h) => h.evidence(),
            ThalesHandler::PinVerifyNonDukpt(h) => h.evidence(),
            ThalesHandler::EncryptDecrypt(h) => h.evidence(),
            ThalesHandler::InternationalEncrypt(h) => h.evidence(),
            ThalesHandler::DukptMac(h) => h.evidence(),
            ThalesHandler::IssuerScriptMac(h) => h.evidence(),
            ThalesHandler::CapArqc(h) => h.evidence(),
            ThalesHandler::EmvDecrypt(h) => h.evidence(),
            ThalesHandler::KqArqc(h) => h.evidence(),
            ThalesHandler::KwArqc(h) => h.evidence(),
            ThalesHandler::UnionPayArqc(h) => h.evidence(),
            ThalesHandler::Hmac(h) => h.evidence(),
            ThalesHandler::Mac(h) => h.evidence(),
            ThalesHandler::MacTranslate(h) => h.evidence(),
            ThalesHandler::LegacyMac(h) => h.evidence(),
            ThalesHandler::Cvv(h) => h.evidence(),
            ThalesHandler::DynamicCvv(h) => h.evidence(),
            ThalesHandler::Heartbeat(h) => h.evidence(),
        }
    }

    fn command_codes(&self) -> Vec<&'static str> {
        match self {
            ThalesHandler::Pin(h) => h.command_codes(),
            ThalesHandler::PinChange(h) => h.command_codes(),
            ThalesHandler::DieboldPin(h) => h.command_codes(),
            ThalesHandler::RandomPin(h) => h.command_codes(),
            ThalesHandler::DukptPinVerify(h) => h.command_codes(),
            ThalesHandler::DukptPinVerifyAes(h) => h.command_codes(),
            ThalesHandler::PinVerifyNonDukpt(h) => h.command_codes(),
            ThalesHandler::EncryptDecrypt(h) => h.command_codes(),
            ThalesHandler::InternationalEncrypt(h) => h.command_codes(),
            ThalesHandler::DukptMac(h) => h.command_codes(),
            ThalesHandler::IssuerScriptMac(h) => h.command_codes(),
            ThalesHandler::CapArqc(h) => h.command_codes(),
            ThalesHandler::EmvDecrypt(h) => h.command_codes(),
            ThalesHandler::KqArqc(h) => h.command_codes(),
            ThalesHandler::KwArqc(h) => h.command_codes(),
            ThalesHandler::UnionPayArqc(h) => h.command_codes(),
            ThalesHandler::Hmac(h) => h.command_codes(),
            ThalesHandler::Mac(h) => h.command_codes(),
            ThalesHandler::MacTranslate(h) => h.command_codes(),
            ThalesHandler::LegacyMac(h) => h.command_codes(),
            ThalesHandler::Cvv(h) => h.command_codes(),
            ThalesHandler::DynamicCvv(h) => h.command_codes(),
            ThalesHandler::Heartbeat(h) => h.command_codes(),
        }
    }

    fn start(&self, command_code: &[u8], payload: &[u8], keys: &KeyMap) -> Step {
        match self {
            ThalesHandler::Pin(h) => h.start(command_code, payload, keys),
            ThalesHandler::PinChange(h) => h.start(command_code, payload, keys),
            ThalesHandler::DieboldPin(h) => h.start(command_code, payload, keys),
            ThalesHandler::RandomPin(h) => h.start(command_code, payload, keys),
            ThalesHandler::DukptPinVerify(h) => h.start(command_code, payload, keys),
            ThalesHandler::DukptPinVerifyAes(h) => h.start(command_code, payload, keys),
            ThalesHandler::PinVerifyNonDukpt(h) => h.start(command_code, payload, keys),
            ThalesHandler::EncryptDecrypt(h) => h.start(command_code, payload, keys),
            ThalesHandler::InternationalEncrypt(h) => h.start(command_code, payload, keys),
            ThalesHandler::DukptMac(h) => h.start(command_code, payload, keys),
            ThalesHandler::IssuerScriptMac(h) => h.start(command_code, payload, keys),
            ThalesHandler::CapArqc(h) => h.start(command_code, payload, keys),
            ThalesHandler::EmvDecrypt(h) => h.start(command_code, payload, keys),
            ThalesHandler::KqArqc(h) => h.start(command_code, payload, keys),
            ThalesHandler::KwArqc(h) => h.start(command_code, payload, keys),
            ThalesHandler::UnionPayArqc(h) => h.start(command_code, payload, keys),
            ThalesHandler::Hmac(h) => h.start(command_code, payload, keys),
            ThalesHandler::Mac(h) => h.start(command_code, payload, keys),
            ThalesHandler::MacTranslate(h) => h.start(command_code, payload, keys),
            ThalesHandler::LegacyMac(h) => h.start(command_code, payload, keys),
            ThalesHandler::Cvv(h) => h.start(command_code, payload, keys),
            ThalesHandler::DynamicCvv(h) => h.start(command_code, payload, keys),
            ThalesHandler::Heartbeat(h) => h.start(command_code, payload, keys),
        }
    }

    fn grounding(&self) -> Vec<Evidence> {
        match self {
            ThalesHandler::Pin(h) => h.grounding(),
            ThalesHandler::PinChange(h) => h.grounding(),
            ThalesHandler::DieboldPin(h) => h.grounding(),
            ThalesHandler::RandomPin(h) => h.grounding(),
            ThalesHandler::DukptPinVerify(h) => h.grounding(),
            ThalesHandler::DukptPinVerifyAes(h) => h.grounding(),
            ThalesHandler::PinVerifyNonDukpt(h) => h.grounding(),
            ThalesHandler::EncryptDecrypt(h) => h.grounding(),
            ThalesHandler::InternationalEncrypt(h) => h.grounding(),
            ThalesHandler::DukptMac(h) => h.grounding(),
            ThalesHandler::IssuerScriptMac(h) => h.grounding(),
            ThalesHandler::CapArqc(h) => h.grounding(),
            ThalesHandler::EmvDecrypt(h) => h.grounding(),
            ThalesHandler::KqArqc(h) => h.grounding(),
            ThalesHandler::KwArqc(h) => h.grounding(),
            ThalesHandler::UnionPayArqc(h) => h.grounding(),
            ThalesHandler::Hmac(h) => h.grounding(),
            ThalesHandler::Mac(h) => h.grounding(),
            ThalesHandler::MacTranslate(h) => h.grounding(),
            ThalesHandler::LegacyMac(h) => h.grounding(),
            ThalesHandler::Cvv(h) => h.grounding(),
            ThalesHandler::DynamicCvv(h) => h.grounding(),
            ThalesHandler::Heartbeat(h) => h.grounding(),
        }
    }
}

/// Thales payShield 10K: its framing and all of its handlers.
pub struct ThalesModule;

impl VendorModule for ThalesModule {
    type Commands = ThalesHandler;

    type Framing = ThalesPayShield;

    open spec fn name(&self) -> Seq<char> {
        "thales_payshield"@
    }

    open spec fn framing(&self) -> ThalesPayShield {
        ThalesPayShield
    }

    open spec fn listed(&self) -> Seq<ThalesHandler> {
        seq![
            ThalesHandler::Pin(PinHandler),
            ThalesHandler::PinChange(PinChangeHandler),
            ThalesHandler::DieboldPin(DieboldPinHandler),
            ThalesHandler::RandomPin(RandomPinHandler),
            ThalesHandler::DukptPinVerify(DukptPinVerifyHandler),
            ThalesHandler::DukptPinVerifyAes(DukptPinVerifyAesHandler),
            ThalesHandler::PinVerifyNonDukpt(PinVerifyNonDukptHandler),
            ThalesHandler::EncryptDecrypt(EncryptDecryptHandler),
            ThalesHandler::InternationalEncrypt(InternationalEncryptHandler),
            ThalesHandler::DukptMac(DukptMacHandler),
            ThalesHandler::IssuerScriptMac(IssuerScriptMacHandler),
            ThalesHandler::CapArqc(CapArqcHandler),
            ThalesHandler::EmvDecrypt(EmvDecryptHandler),
            ThalesHandler::KqArqc(KqArqcHandler),
            ThalesHandler::KwArqc(KwArqcHandler),
            ThalesHandler::UnionPayArqc(UnionPayArqcHandler),
            ThalesHandler::Hmac(HmacHandler),
            ThalesHandler::Mac(MacHandler),
            ThalesHandler::MacTranslate(MacTranslateHandler),
            ThalesHandler::LegacyMac(LegacyMacHandler),
            ThalesHandler::Cvv(CvvHandler),
            ThalesHandler::DynamicCvv(DynamicCvvHandler),
            ThalesHandler::Heartbeat(HeartbeatHandler),
        ]
    }

    fn vendor(&self) -> &'static str {
        "thales_payshield"
    }

    fn protocol(&self) -> ThalesPayShield {
        ThalesPayShield
    }

    fn handlers(&self) -> Vec<ThalesHandler> {
        let r: Vec<ThalesHandler> = vec![
            ThalesHandler::Pin(PinHandler),
            ThalesHandler::PinChange(PinChangeHandler),
            ThalesHandler::DieboldPin(DieboldPinHandler),
            ThalesHandler::RandomPin(RandomPinHandler),
            ThalesHandler::DukptPinVerify(DukptPinVerifyHandler),
            ThalesHandler::DukptPinVerifyAes(DukptPinVerifyAesHandler),
            ThalesHandler::PinVerifyNonDukpt(PinVerifyNonDukptHandler),
            ThalesHandler::EncryptDecrypt(EncryptDecryptHandler),
            ThalesHandler::InternationalEncrypt(InternationalEncryptHandler),
            ThalesHandler::DukptMac(DukptMacHandler),
            ThalesHandler::IssuerScriptMac(IssuerScriptMacHandler),
            ThalesHandler::CapArqc(CapArqcHandler),
            ThalesHandler::EmvDecrypt(EmvDecryptHandler),
            ThalesHandler::KqArqc(KqArqcHandler),
            ThalesHandler::KwArqc(KwArqcHandler),
            ThalesHandler::UnionPayArqc(UnionPayArqcHandler),
            ThalesHandler::Hmac(HmacHandler),
            ThalesHandler::Mac(MacHandler),
            ThalesHandler::MacTranslate(MacTranslateHandler),
            ThalesHandler::LegacyMac(LegacyMacHandler),
            ThalesHandler::Cvv(CvvHandler),
            ThalesHandler::DynamicCvv(DynamicCvvHandler),
            ThalesHandler::Heartbeat(HeartbeatHandler),
        ];
        assert(r@ =~= self.listed());
        r
    }
}

/// A step that answers without a call answers with an error and without a payload.
pub open spec fn quiet(step: StepView) -> bool {
    step matches Step::Done(r) ==> r.payload.len() == 0 && r.error_code != text::ascii_2('0', '0')
}

proof fn pin_is_quiet(c: Seq<u8>, p: Seq<u8>, keys: KeyTable)
    ensures
        quiet(PinHandler.step(c, p, keys)),
{
    broadcast use handlers::failures_are_quiet;

}

proof fn pin_change_is_quiet(c: Seq<u8>, p: Seq<u8>, keys: KeyTable)
    ensures
        quiet(PinChangeHandler.step(c, p, keys)),
{
    broadcast use handlers::failures_are_quiet;

}

proof fn dukpt_pin_verify_is_quiet(c: Seq<u8>, p: Seq<u8>, keys: KeyTable)
    ensures
        quiet(DukptPinVerifyHandler.step(c, p, keys)),
{
    broadcast use handlers::failures_are_quiet;

}

proof fn dukpt_pin_verify_aes_is_quiet(c: Seq<u8>, p: Seq<u8>, keys: KeyTable)
    ensures
        quiet(DukptPinVerifyAesHandler.step(c, p, keys)),
{
    broadcast use handlers::failures_are_quiet;

}

proof fn pin_verify_non_dukpt_is_quiet(c: Seq<u8>, p: Seq<u8>, keys: KeyTable)
    ensures
        quiet(PinVerifyNonDukptHandler.step(c, p, keys)),
{
    broadcast use handlers::failures_are_quiet;

}

proof fn encrypt_decrypt_is_quiet(c: Seq<u8>, p: Seq<u8>, keys: KeyTable)
    ensures
        quiet(EncryptDecryptHandler.step(c, p, keys)),
{
    broadcast use handlers::failures_are_quiet;

}

proof fn international_encrypt_is_quiet(c: Seq<u8>, p: Seq<u8>, keys: KeyTable)
    ensures
        quiet(InternationalEncryptHandler.step(c, p, keys)),
{
    broadcast use handlers::failures_are_quiet;

}

proof fn dukpt_mac_is_quiet(c: Seq<u8>, p: Seq<u8>, keys: KeyTable)
    ensures
        quiet(DukptMacHandler.step(c, p, keys)),
{
    broadcast use handlers::failures_are_quiet;

}

proof fn issuer_script_mac_is_quiet(c: Seq<u8>, p: Seq<u8>, keys: KeyTable)
    ensures
        quiet(IssuerScriptMacHandler.step(c, p, keys)),
{
    broadcast use handlers::failures_are_quiet;

}

proof fn cap_arqc_is_quiet(c: Seq<u8>, p: Seq<u8>, keys: KeyTable)
    ensures
        quiet(CapArqcHandler.step(c, p, keys)),
{
    broadcast use handlers::failures_are_quiet;

}

proof fn emv_decrypt_is_quiet(c: Seq<u8>, p: Seq<u8>, keys: KeyTable)
    ensures
        quiet(EmvDecryptHandler.step(c, p, keys)),
{
    broadcast use handlers::failures_are_quiet;

}

proof fn kq_arqc_is_quiet(c: Seq<u8>, p: Seq<u8>, keys: KeyTable)
    ensures
        quiet(KqArqcHandler.step(c, p, keys)),
{
    broadcast use handlers::failures_are_quiet;

}

proof fn kw_arqc_is_quiet(c: Seq<u8>, p: Seq<u8>, keys: KeyTable)
    ensures
        quiet(KwArqcHandler.step(c, p, keys)),
{
    broadcast use handlers::failures_are_quiet;

}

proof fn union_pay_arqc_is_quiet(c: Seq<u8>, p: Seq<u8>, keys: KeyTable)
    ensures
        quiet(UnionPayArqcHandler.step(c, p, keys)),
{
    broadcast use handlers::failures_are_quiet;

}

proof fn mac_is_quiet(c: Seq<u8>, p: Seq<u8>, keys: KeyTable)
    ensures
        quiet(MacHandler.step(c, p, keys)),
{
    broadcast use handlers::failures_are_quiet;

}

proof fn mac_translate_is_quiet(c: Seq<u8>, p: Seq<u8>, keys: KeyTable)
    ensures
        quiet(MacTranslateHandler.step(c, p, keys)),
{
    broadcast use handlers::failures_are_quiet;

}

proof fn legacy_mac_is_quiet(c: Seq<u8>, p: Seq<u8>, keys: KeyTable)
    ensures
        quiet(LegacyMacHandler.step(c, p, keys)),
{
    broadcast use handlers::failures_are_quiet;

}

proof fn cvv_is_quiet(c: Seq<u8>, p: Seq<u8>, keys: KeyTable)
    ensures
        quiet(CvvHandler.step(c, p, keys)),
{
    broadcast use handlers::failures_are_quiet;

}

/// A payShield command that is answered without a call to APC is answered without a
/// payload; and with an error, unless it is the heartbeat.
pub proof fn answers_without_a_call_carry_no_payload(
    h: ThalesHandler,
    command_code: Seq<u8>,
    payload: Seq<u8>,
    keys: KeyTable,
)
    ensures
        h.step(command_code, payload, keys) matches Step::Done(r) ==> r.payload.len() == 0 && (
        r.error_code == text::ascii_2('0', '0') <==> h is Heartbeat),
{
    let (c, p) = (command_code, payload);
    match h {
        ThalesHandler::Pin(_) => pin_is_quiet(c, p, keys),
        ThalesHandler::PinChange(_) => pin_change_is_quiet(c, p, keys),
        ThalesHandler::DukptPinVerify(_) => dukpt_pin_verify_is_quiet(c, p, keys),
        ThalesHandler::DukptPinVerifyAes(_) => dukpt_pin_verify_aes_is_quiet(c, p, keys),
        ThalesHandler::PinVerifyNonDukpt(_) => pin_verify_non_dukpt_is_quiet(c, p, keys),
        ThalesHandler::EncryptDecrypt(_) => encrypt_decrypt_is_quiet(c, p, keys),
        ThalesHandler::InternationalEncrypt(_) => international_encrypt_is_quiet(c, p, keys),
        ThalesHandler::DukptMac(_) => dukpt_mac_is_quiet(c, p, keys),
        ThalesHandler::IssuerScriptMac(_) => issuer_script_mac_is_quiet(c, p, keys),
        ThalesHandler::CapArqc(_) => cap_arqc_is_quiet(c, p, keys),
        ThalesHandler::EmvDecrypt(_) => emv_decrypt_is_quiet(c, p, keys),
        ThalesHandler::KqArqc(_) => kq_arqc_is_quiet(c, p, keys),
        ThalesHandler::KwArqc(_) => kw_arqc_is_quiet(c, p, keys),
        ThalesHandler::UnionPayArqc(_) => union_pay_arqc_is_quiet(c, p, keys),
        ThalesHandler::Mac(_) => mac_is_quiet(c, p, keys),
        ThalesHandler::MacTranslate(_) => mac_translate_is_quiet(c, p, keys),
        ThalesHandler::LegacyMac(_) => legacy_mac_is_quiet(c, p, keys),
        ThalesHandler::Cvv(_) => cvv_is_quiet(c, p, keys),
        _ => {
            broadcast use handlers::failures_are_quiet;

        },
    }
}

/// What is not offered is answered as disabled, with code `68`, whatever it carries: the Diebold
/// method (GA, CE), random PINs (JA), HMAC (LQ, LS), dynamic card values (QY, PM), the PIN
/// translations G0 and BQ, and the card verifications NY and RY.
pub proof fn what_is_not_offered_is_answered_68(p: Seq<u8>, keys: KeyTable)
    ensures
        ({
            let disabled = StepView::Done(handlers::refused(text::ascii_2('6', '8')));
            &&& DieboldPinHandler.step(text::ascii_2('G', 'A'), p, keys) == disabled
            &&& DieboldPinHandler.step(text::ascii_2('C', 'E'), p, keys) == disabled
            &&& RandomPinHandler.step(text::ascii_2('J', 'A'), p, keys) == disabled
            &&& HmacHandler.step(text::ascii_2('L', 'Q'), p, keys) == disabled
            &&& HmacHandler.step(text::ascii_2('L', 'S'), p, keys) == disabled
            &&& DynamicCvvHandler.step(text::ascii_2('Q', 'Y'), p, keys) == disabled
            &&& DynamicCvvHandler.step(text::ascii_2('P', 'M'), p, keys) == disabled
            &&& PinHandler.step(text::ascii_2('G', '0'), p, keys) == disabled
            &&& PinHandler.step(text::ascii_2('B', 'Q'), p, keys) == disabled
            &&& CvvHandler.step(text::ascii_2('N', 'Y'), p, keys) == disabled
            &&& CvvHandler.step(text::ascii_2('R', 'Y'), p, keys) == disabled
        }),
{
    assert(text::ascii_2('C', 'C')[0] == 'C' as u8 && text::ascii_2('C', 'A')[0] == 'C' as u8);
    assert(text::ascii_2('C', 'Y')[0] == 'C' as u8);
    assert(text::ascii_2('G', '0')[0] == 'G' as u8 && text::ascii_2('B', 'Q')[0] == 'B' as u8);
    assert(text::ascii_2('N', 'Y')[0] == 'N' as u8 && text::ascii_2('R', 'Y')[0] == 'R' as u8);
}

/// The heartbeat is answered with success and nothing else, whatever it carries.
pub proof fn a_heartbeat_is_always_answered(p: Seq<u8>, keys: KeyTable)
    ensures
        HeartbeatHandler.step(text::ascii_2('B', '2'), p, keys) == StepView::Done(
            handlers::answered(Seq::empty()),
        ),
{
}

/// The two steps differ in nothing but whether keys were found: where one leads to a call, the
/// other leads to a call or is answered with code `10`; and where neither leads to a call, they
/// are the same unless a key was missing.
pub open spec fn apart_by_keys_alone(a: StepView, b: StepView) -> bool {
    let missing = handlers::refused(text::ascii_2('1', '0'));
    match (a, b) {
        (Step::Call { .. }, Step::Done(r)) => r == missing,
        (Step::Done(r), Step::Call { .. }) => r == missing,
        (Step::Done(r), Step::Done(s)) => r == s || r == missing || s == missing,
        _ => true,
    }
}

/// The table resolves every key field.
pub open spec fn finds_every_key(keys: KeyTable) -> bool {
    forall|f: KeyField| (#[trigger] keys.resolved_field(f)) is Ok
}

/// The step does not tell of a key that is missing.
pub open spec fn misses_no_key(step: StepView) -> bool {
    step != StepView::Done(handlers::refused(text::ascii_2('1', '0')))
}

proof fn pin_goes_by_keys(c: Seq<u8>, p: Seq<u8>, keys: KeyTable, other: KeyTable)
    ensures
        apart_by_keys_alone(
            PinHandler.step(c, p, keys),
            PinHandler.step(c, p, other),
        ),
        finds_every_key(keys) ==> misses_no_key(PinHandler.step(c, p, keys)),
{
    lemma_codes_of_key_fields(keys);
    lemma_codes_of_key_fields(other);
    lemma_codes_of_unread_fields(p);
}

proof fn pin_change_goes_by_keys(c: Seq<u8>, p: Seq<u8>, keys: KeyTable, other: KeyTable)
    ensures
        apart_by_keys_alone(
            PinChangeHandler.step(c, p, keys),
            PinChangeHandler.step(c, p, other),
        ),
        finds_every_key(keys) ==> misses_no_key(PinChangeHandler.step(c, p, keys)),
{
    lemma_codes_of_key_fields(keys);
    lemma_codes_of_key_fields(other);
    lemma_codes_of_unread_fields(p);
}

proof fn dukpt_pin_verify_goes_by_keys(c: Seq<u8>, p: Seq<u8>, keys: KeyTable, other: KeyTable)
    ensures
        apart_by_keys_alone(
            DukptPinVerifyHandler.step(c, p, keys),
            DukptPinVerifyHandler.step(c, p, other),
        ),
        finds_every_key(keys) ==> misses_no_key(DukptPinVerifyHandler.step(c, p, keys)),
{
    lemma_codes_of_key_fields(keys);
    lemma_codes_of_key_fields(other);
    lemma_codes_of_unread_fields(p);
}

proof fn dukpt_pin_verify_aes_goes_by_keys(c: Seq<u8>, p: Seq<u8>, keys: KeyTable, other: KeyTable)
    ensures
        apart_by_keys_alone(
            DukptPinVerifyAesHandler.step(c, p, keys),
            DukptPinVerifyAesHandler.step(c, p, other),
        ),
        finds_every_key(keys) ==> misses_no_key(DukptPinVerifyAesHandler.step(c, p, keys)),
{
    lemma_codes_of_key_fields(keys);
    lemma_codes_of_key_fields(other);
    lemma_codes_of_unread_fields(p);
}

proof fn pin_verify_non_dukpt_goes_by_keys(c: Seq<u8>, p: Seq<u8>, keys: KeyTable, other: KeyTable)
    ensures
        apart_by_keys_alone(
            PinVerifyNonDukptHandler.step(c, p, keys),
            PinVerifyNonDukptHandler.step(c, p, other),
        ),
        finds_every_key(keys) ==> misses_no_key(PinVerifyNonDukptHandler.step(c, p, keys)),
{
    lemma_codes_of_key_fields(keys);
    lemma_codes_of_key_fields(other);
    lemma_codes_of_unread_fields(p);
}

proof fn encrypt_decrypt_goes_by_keys(c: Seq<u8>, p: Seq<u8>, keys: KeyTable, other: KeyTable)
    ensures
        apart_by_keys_alone(
            EncryptDecryptHandler.step(c, p, keys),
            EncryptDecryptHandler.step(c, p, other),
        ),
        finds_every_key(keys) ==> misses_no_key(EncryptDecryptHandler.step(c, p, keys)),
{
    lemma_codes_of_key_fields(keys);
    lemma_codes_of_key_fields(other);
    lemma_codes_of_unread_fields(p);
}

proof fn international_encrypt_goes_by_keys(c: Seq<u8>, p: Seq<u8>, keys: KeyTable, other: KeyTable)
    ensures
        apart_by_keys_alone(
            InternationalEncryptHandler.step(c, p, keys),
            InternationalEncryptHandler.step(c, p, other),
        ),
        finds_every_key(keys) ==> misses_no_key(InternationalEncryptHandler.step(c, p, keys)),
{
    lemma_codes_of_key_fields(keys);
    lemma_codes_of_key_fields(other);
    lemma_codes_of_unread_fields(p);
}

proof fn dukpt_mac_goes_by_keys(c: Seq<u8>, p: Seq<u8>, keys: KeyTable, other: KeyTable)
    ensures
        apart_by_keys_alone(
            DukptMacHandler.step(c, p, keys),
            DukptMacHandler.step(c, p, other),
        ),
        finds_every_key(keys) ==> misses_no_key(DukptMacHandler.step(c, p, keys)),
{
    lemma_codes_of_key_fields(keys);
    lemma_codes_of_key_fields(other);
    lemma_codes_of_unread_fields(p);
}

proof fn issuer_script_mac_goes_by_keys(c: Seq<u8>, p: Seq<u8>, keys: KeyTable, other: KeyTable)
    ensures
        apart_by_keys_alone(
            IssuerScriptMacHandler.step(c, p, keys),
            IssuerScriptMacHandler.step(c, p, other),
        ),
        finds_every_key(keys) ==> misses_no_key(IssuerScriptMacHandler.step(c, p, keys)),
{
    lemma_codes_of_key_fields(keys);
    lemma_codes_of_key_fields(other);
    lemma_codes_of_unread_fields(p);
}

proof fn cap_arqc_goes_by_keys(c: Seq<u8>, p: Seq<u8>, keys: KeyTable, other: KeyTable)
    ensures
        apart_by_keys_alone(
            CapArqcHandler.step(c, p, keys),
            CapArqcHandler.step(c, p, other),
        ),
        finds_every_key(keys) ==> misses_no_key(CapArqcHandler.step(c, p, keys)),
{
    lemma_codes_of_key_fields(keys);
    lemma_codes_of_key_fields(other);
    lemma_codes_of_unread_fields(p);
}

proof fn emv_decrypt_goes_by_keys(c: Seq<u8>, p: Seq<u8>, keys: KeyTable, other: KeyTable)
    ensures
        apart_by_keys_alone(
            EmvDecryptHandler.step(c, p, keys),
            EmvDecryptHandler.step(c, p, other),
        ),
        finds_every_key(keys) ==> misses_no_key(EmvDecryptHandler.step(c, p, keys)),
{
    lemma_codes_of_key_fields(keys);
    lemma_codes_of_key_fields(other);
    lemma_codes_of_unread_fields(p);
}

proof fn kq_arqc_goes_by_keys(c: Seq<u8>, p: Seq<u8>, keys: KeyTable, other: KeyTable)
    ensures
        apart_by_keys_alone(
            KqArqcHandler.step(c, p, keys),
            KqArqcHandler.step(c, p, other),
        ),
        finds_every_key(keys) ==> misses_no_key(KqArqcHandler.step(c, p, keys)),
{
    lemma_codes_of_key_fields(keys);
    lemma_codes_of_key_fields(other);
    lemma_codes_of_unread_fields(p);
}

proof fn kw_arqc_goes_by_keys(c: Seq<u8>, p: Seq<u8>, keys: KeyTable, other: KeyTable)
    ensures
        apart_by_keys_alone(
            KwArqcHandler.step(c, p, keys),
            KwArqcHandler.step(c, p, other),
        ),
        finds_every_key(keys) ==> misses_no_key(KwArqcHandler.step(c, p, keys)),
{
    lemma_codes_of_key_fields(keys);
    lemma_codes_of_key_fields(other);
    lemma_codes_of_unread_fields(p);
}

proof fn union_pay_arqc_goes_by_keys(c: Seq<u8>, p: Seq<u8>, keys: KeyTable, other: KeyTable)
    ensures
        apart_by_keys_alone(
            UnionPayArqcHandler.step(c, p, keys),
            UnionPayArqcHandler.step(c, p, other),
        ),
        finds_every_key(keys) ==> misses_no_key(UnionPayArqcHandler.step(c, p, keys)),
{
    lemma_codes_of_key_fields(keys);
    lemma_codes_of_key_fields(other);
    lemma_codes_of_unread_fields(p);
}

proof fn mac_goes_by_keys(c: Seq<u8>, p: Seq<u8>, keys: KeyTable, other: KeyTable)
    ensures
        apart_by_keys_alone(
            MacHandler.step(c, p, keys),
            MacHandler.step(c, p, other),
        ),
        finds_every_key(keys) ==> misses_no_key(MacHandler.step(c, p, keys)),
{
    lemma_codes_of_key_fields(keys);
    lemma_codes_of_key_fields(other);
    lemma_codes_of_unread_fields(p);
}

proof fn mac_translate_goes_by_keys(c: Seq<u8>, p: Seq<u8>, keys: KeyTable, other: KeyTable)
    ensures
        apart_by_keys_alone(
            MacTranslateHandler.step(c, p, keys),
            MacTranslateHandler.step(c, p, other),
        ),
        finds_every_key(keys) ==> misses_no_key(MacTranslateHandler.step(c, p, keys)),
{
    lemma_codes_of_key_fields(keys);
    lemma_codes_of_key_fields(other);
    lemma_codes_of_unread_fields(p);
    reveal(mac_translate::my_side);
}

proof fn legacy_mac_goes_by_keys(c: Seq<u8>, p: Seq<u8>, keys: KeyTable, other: KeyTable)
    ensures
        apart_by_keys_alone(
            LegacyMacHandler.step(c, p, keys),
            LegacyMacHandler.step(c, p, other),
        ),
        finds_every_key(keys) ==> misses_no_key(LegacyMacHandler.step(c, p, keys)),
{
    lemma_codes_of_key_fields(keys);
    lemma_codes_of_key_fields(other);
    lemma_codes_of_unread_fields(p);
}

proof fn cvv_goes_by_keys(c: Seq<u8>, p: Seq<u8>, keys: KeyTable, other: KeyTable)
    ensures
        apart_by_keys_alone(
            CvvHandler.step(c, p, keys),
            CvvHandler.step(c, p, other),
        ),
        finds_every_key(keys) ==> misses_no_key(CvvHandler.step(c, p, keys)),
{
    lemma_codes_of_key_fields(keys);
    lemma_codes_of_key_fields(other);
    lemma_codes_of_unread_fields(p);
}

proof fn lemma_codes_of_key_fields(keys: KeyTable)
    ensures
        forall|f: KeyField| (#[trigger] keys.resolved_field(f)) is Err ==> keys.resolved_field(
            f,
        )->Err_0.code() == text::ascii_2('1', '0'),
{
}

proof fn lemma_codes_of_unread_fields(p: Seq<u8>)
    ensures
        forall|at: int| (#[trigger] common::legacy_key(p, at)) is Err ==> common::legacy_key(
            p,
            at,
        )->Err_0.code() == text::ascii_2('1', '5'),
        forall|at: int| (#[trigger] common::bdk_key(p, at)) is Err ==> common::bdk_key(
            p,
            at,
        )->Err_0.code() == text::ascii_2('1', '5'),
        forall|at: int| (#[trigger] common::key_32(p, at)) is Err ==> common::key_32(
            p,
            at,
        )->Err_0.code() == text::ascii_2('1', '5'),
        forall|at: int| (#[trigger] common::ksn_field(p, at)) is Err ==> common::ksn_field(
            p,
            at,
        )->Err_0.code() == text::ascii_2('1', '5'),
        text::ascii_2('1', '5') != text::ascii_2('1', '0'),
        text::ascii_2('6', '8') != text::ascii_2('1', '0'),
        text::ascii_2('2', '3') != text::ascii_2('1', '0'),
        text::ascii_2('0', '0') != text::ascii_2('1', '0'),
{
    assert(text::ascii_2('1', '0')[0] == '1' as u8 && text::ascii_2('1', '0')[1] == '0' as u8);
    assert(text::ascii_2('1', '5')[1] == '5' as u8 && text::ascii_2('6', '8')[0] == '6' as u8);
    assert(text::ascii_2('2', '3')[0] == '2' as u8 && text::ascii_2('0', '0')[0] == '0' as u8);
    assert forall|at: int| (#[trigger] common::legacy_key(p, at)) is Err implies common::legacy_key(
        p,
        at,
    )->Err_0.code() == text::ascii_2('1', '5') by {
        common::unreadable_fields_are_answered_15(p, at);
    }
    assert forall|at: int| (#[trigger] common::bdk_key(p, at)) is Err implies common::bdk_key(
        p,
        at,
    )->Err_0.code() == text::ascii_2('1', '5') by {
        common::unreadable_fields_are_answered_15(p, at);
    }
    assert forall|at: int| (#[trigger] common::key_32(p, at)) is Err implies common::key_32(
        p,
        at,
    )->Err_0.code() == text::ascii_2('1', '5') by {
        common::unreadable_fields_are_answered_15(p, at);
    }
    assert forall|at: int| (#[trigger] common::ksn_field(p, at)) is Err implies common::ksn_field(
        p,
        at,
    )->Err_0.code() == text::ascii_2('1', '5') by {
        common::unreadable_fields_are_answered_15(p, at);
    }
}

/// The keys decide only what is found: whether a payload can be read does not depend on them. Where
/// it leads to a call with one table of keys, it leads to a call with any other, or is answered
/// with code `10`; and with a table in which every key is found that code is never the answer.
pub proof fn keys_decide_only_what_is_found(
    h: ThalesHandler,
    command_code: Seq<u8>,
    payload: Seq<u8>,
    keys: KeyTable,
    other: KeyTable,
)
    ensures
        apart_by_keys_alone(
            h.step(command_code, payload, keys),
            h.step(command_code, payload, other),
        ),
        finds_every_key(keys) ==> misses_no_key(h.step(command_code, payload, keys)),
{
    lemma_codes_of_unread_fields(payload);
    let (c, p) = (command_code, payload);
    match h {
        ThalesHandler::Pin(_) => pin_goes_by_keys(c, p, keys, other),
        ThalesHandler::PinChange(_) => pin_change_goes_by_keys(c, p, keys, other),
        ThalesHandler::DukptPinVerify(_) => dukpt_pin_verify_goes_by_keys(c, p, keys, other),
        ThalesHandler::DukptPinVerifyAes(_) => dukpt_pin_verify_aes_goes_by_keys(c, p, keys, other),
        ThalesHandler::PinVerifyNonDukpt(_) => pin_verify_non_dukpt_goes_by_keys(c, p, keys, other),
        ThalesHandler::EncryptDecrypt(_) => encrypt_decrypt_goes_by_keys(c, p, keys, other),
        ThalesHandler::InternationalEncrypt(_) => {
            international_encrypt_goes_by_keys(c, p, keys, other)
        },
        ThalesHandler::DukptMac(_) => dukpt_mac_goes_by_keys(c, p, keys, other),
        ThalesHandler::IssuerScriptMac(_) => issuer_script_mac_goes_by_keys(c, p, keys, other),
        ThalesHandler::CapArqc(_) => cap_arqc_goes_by_keys(c, p, keys, other),
        ThalesHandler::EmvDecrypt(_) => emv_decrypt_goes_by_keys(c, p, keys, other),
        ThalesHandler::KqArqc(_) => kq_arqc_goes_by_keys(c, p, keys, other),
        ThalesHandler::KwArqc(_) => kw_arqc_goes_by_keys(c, p, keys, other),
        ThalesHandler::UnionPayArqc(_) => union_pay_arqc_goes_by_keys(c, p, keys, other),
        ThalesHandler::Mac(_) => mac_goes_by_keys(c, p, keys, other),
        ThalesHandler::MacTranslate(_) => mac_translate_goes_by_keys(c, p, keys, other),
        ThalesHandler::LegacyMac(_) => legacy_mac_goes_by_keys(c, p, keys, other),
        ThalesHandler::Cvv(_) => cvv_goes_by_keys(c, p, keys, other),
        _ => {},
    }
}

/// What a handler's evidence rests on: a live test grounds the wire and leaves the value to APC,
/// and nothing else does; what is gated is grounded in nothing; and a citation of the manual
/// grounds either the wire or, for the PIN changes and the verification values, a value on which
/// two implementations agree.
pub proof fn live_tests_ground_the_wire(h: ThalesHandler, i: int)
    requires
        0 <= i < h.evidence().len(),
    ensures
        ({
            let e = h.evidence()[i];
            &&& e.proof is LiveTest <==> e.wire == WireGrounding::DiffXprov
            &&& e.proof is LiveTest <==> e.crypto == CryptoGrounding::Apc
            &&& e.proof is Gated ==> e.wire == WireGrounding::Ungrounded && e.crypto
                == CryptoGrounding::Ungrounded
            &&& e.proof is ManualCite ==> {
                ||| e.wire == WireGrounding::Cited && e.crypto == CryptoGrounding::Ungrounded
                ||| e.wire == WireGrounding::Ungrounded && e.crypto == CryptoGrounding::TwoImpl
            }
            &&& e.crypto == CryptoGrounding::TwoImpl ==> h is PinChange || h is Cvv
        }),
{
}

} // verus!
