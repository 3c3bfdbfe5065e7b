//! CC, CA: translate a PIN block from one key to another.

use vstd::prelude::*;
use vstd::string::*;
#[allow(unused_imports)]
use vstd::utf8::encode_utf8;

#[allow(unused_imports)]
use crate::apc::ApcReply;
use crate::apc::{ApcCall, TranslationFormat};
#[allow(unused_imports)]
use crate::error;
use crate::error::{Failure, ProxyError};
#[allow(unused_imports)]
use crate::handlers;
use crate::handlers::grounding::Evidence;
#[allow(unused_imports)]
use crate::handlers::thales::common;
use crate::handlers::thales::common::{field_text, parse_legacy_key};
use crate::handlers::{disable, fail, Finish, Handler, Pending, Step, StepView};
use crate::key_map::{KeyDescriptor, KeyMap, KeyTable};
use crate::secret::Secret;
#[allow(unused_imports)]
use crate::text;
use crate::text::{decimal_text, fits, is_ascii_2, lossy, owned};

verus! {

/// A PIN block format that can be translated.
#[derive(Clone, Copy, Debug, PartialEq, Eq, Structural)]
pub enum IsoFmt {
    /// ISO 9564-1 format 0.
    F0,
    /// ISO 9564-1 format 1.
    F1,
    /// ISO 9564-1 format 3.
    F3,
}

/// The format of a format code.
pub open spec fn translate_format(code: Seq<u8>) -> Result<IsoFmt, Failure> {
    if code == text::ascii_2('0', '1') {
        Ok(IsoFmt::F0)
    } else if code == text::ascii_2('0', '5') {
        Ok(IsoFmt::F1)
    } else if code == text::ascii_2('4', '7') {
        Ok(IsoFmt::F3)
    } else if code == text::ascii_2('0', '4') {
        error::gated("PIN block format '04' (Plus) has no APC equivalent"@)
    } else if code == text::ascii_2('4', '8') {
        error::gated(
            "PIN block format '48' (ISO 4) translate is not yet validated against APC"@,
        )
    } else {
        Err(ProxyError::UnsupportedPinFormat(text::lossy_text(code)))
    }
}

/// The format of a format code.
pub fn map_translate_format(code: &[u8]) -> (r: Result<IsoFmt, ProxyError>)
    ensures
        match r {
            Ok(f) => translate_format(code@) == Ok::<IsoFmt, Failure>(f),
            Err(e) => translate_format(code@) == Err::<IsoFmt, Failure>(e@),
        },
{
    if is_ascii_2(code, '0', '1') {
        Ok(IsoFmt::F0)
    } else if is_ascii_2(code, '0', '5') {
        Ok(IsoFmt::F1)
    } else if is_ascii_2(code, '4', '7') {
        Ok(IsoFmt::F3)
    } else if is_ascii_2(code, '0', '4') {
        Err(
            ProxyError::Unsupported(owned("PIN block format '04' (Plus) has no APC equivalent")),
        )
    } else if is_ascii_2(code, '4', '8') {
        Err(
            ProxyError::Unsupported(
                owned("PIN block format '48' (ISO 4) translate is not yet validated against APC"),
            ),
        )
    } else {
        Err(ProxyError::UnsupportedPinFormat(lossy(code)))
    }
}

/// What a translation asks for.
pub struct PinFields<T = String, S = Secret> {
    pub source_key: KeyDescriptor<T>,
    pub dest_key: KeyDescriptor<T>,
    pub source_format: IsoFmt,
    pub dest_format: IsoFmt,
    pub pin_block: S,
    pub account_number: T,
}

/// The fields of a translation as contracts speak of them.
pub type PinView = PinFields<Seq<char>, Seq<char>>;

impl View for PinFields<String, Secret> {
    type V = PinView;

    open spec fn view(&self) -> PinView {
        PinFields {
            source_key: self.source_key@,
            dest_key: self.dest_key@,
            source_format: self.source_format,
            dest_format: self.dest_format,
            pin_block: self.pin_block@,
            account_number: self.account_number@,
        }
    }
}

/// A CC or CA payload: source key, destination key, maximum PIN length (two
/// bytes), PIN block (sixteen), source and destination format (two each) and
/// account number (twelve). In CA a `*` or `~` ahead of the destination key makes
/// it a base derivation key, which is not offered.
pub open spec fn translate_fields(p: Seq<u8>, has_dest_flag: bool) -> Result<PinView, Failure> {
    let source = common::legacy_key(p, 0);
    let a = (source->Ok_0).1;
    let dest = common::legacy_key(p, a);
    let b = a + (dest->Ok_0).1;
    let source_format = translate_format(p.subrange(b + 18, b + 20));
    let dest_format = translate_format(p.subrange(b + 20, b + 22));
    if source is Err {
        Err(source->Err_0)
    } else if has_dest_flag && a < p.len() && (p[a] == '*' as u8 || p[a] == '~' as u8) {
        error::gated("CA with a DUKPT destination (BDK key flag) is not supported"@)
    } else if dest is Err {
        Err(dest->Err_0)
    } else if p.len() < b + 34 {
        error::bad(
            "translate payload too short: "@ + text::decimal(p.len()) + " < "@ + text::decimal(
                (b + 34) as nat,
            ),
        )
    } else if source_format is Err {
        Err(source_format->Err_0)
    } else if dest_format is Err {
        Err(dest_format->Err_0)
    } else {
        Ok(
            PinFields {
                source_key: (source->Ok_0).0,
                dest_key: (dest->Ok_0).0,
                source_format: source_format->Ok_0,
                dest_format: dest_format->Ok_0,
                pin_block: common::text_at(p, b + 2, 16),
                account_number: common::text_at(p, b + 22, 12),
            },
        )
    }
}

/// Parse the payload of CC (`has_dest_flag` is false) and CA (true).
pub fn parse_translate(payload: &[u8], has_dest_flag: bool) -> (r: Result<PinFields, ProxyError>)
    ensures
        error::outcome(r) == translate_fields(payload@, has_dest_flag),
{
    assert(payload.len() == payload@.len());
    let (source_key, a) = parse_legacy_key(payload, 0)?;
    if has_dest_flag && a < payload.len() && (payload[a] == '*' as u8 || payload[a] == '~' as u8) {
        return Err(
            ProxyError::Unsupported(
                owned("CA with a DUKPT destination (BDK key flag) is not supported"),
            ),
        );
    }
    let (dest_key, dest_len) = parse_legacy_key(payload, a)?;
    let b: usize = a + dest_len;
    if !fits(payload, b, 34) {
        return Err(
            ProxyError::MalformedPayload(
                owned("translate payload too short: ").concat(
                    decimal_text(payload.len() as u128).as_str(),
                ).concat(" < ").concat(decimal_text(b as u128 + 34).as_str()),
            ),
        );
    }
    let source_format: IsoFmt = map_translate_format(&payload[b + 18..b + 20])?;
    let dest_format: IsoFmt = map_translate_format(&payload[b + 20..b + 22])?;
    Ok(
        PinFields {
            source_key,
            dest_key,
            source_format,
            dest_format,
            pin_block: Secret::new(field_text(payload, b + 2, 16)),
            account_number: field_text(payload, b + 22, 12),
        },
    )
}

/// One side of a translation; format 1 takes no account number.
pub open spec fn translation_format(format: IsoFmt, pan: Seq<char>) -> TranslationFormat<
    Seq<char>,
> {
    match format {
        IsoFmt::F0 => TranslationFormat::IsoFormat0 { pan },
        IsoFmt::F1 => TranslationFormat::IsoFormat1,
        IsoFmt::F3 => TranslationFormat::IsoFormat3 { pan },
    }
}

fn build_translation_attrs(format: IsoFmt, account_number: &str) -> (r: TranslationFormat)
    ensures
        r@ == translation_format(format, account_number@),
{
    match format {
        IsoFmt::F0 => TranslationFormat::IsoFormat0 { pan: owned(account_number) },
        IsoFmt::F1 => TranslationFormat::IsoFormat1,
        IsoFmt::F3 => TranslationFormat::IsoFormat3 { pan: owned(account_number) },
    }
}

/// What a PIN translation command leads to. G0 and BQ are not offered.
pub open spec fn translate_step(command_code: Seq<u8>, p: Seq<u8>, keys: KeyTable) -> StepView {
    if command_code == text::ascii_2('C', 'C') || command_code == text::ascii_2('C', 'A') {
        match translate_fields(p, command_code == text::ascii_2('C', 'A')) {
            Err(e) => handlers::failed(e),
            Ok(f) => match keys.resolved_field(f.source_key) {
                Err(e) => handlers::failed(e),
                Ok(incoming_key) => match keys.resolved_field(f.dest_key) {
                    Err(e) => handlers::failed(e),
                    Ok(outgoing_key) => handlers::ask(
                        ApcCall::TranslatePin {
                            incoming_key,
                            outgoing_key,
                            pin_block: f.pin_block,
                            incoming: translation_format(f.source_format, f.account_number),
                            outgoing: translation_format(f.dest_format, f.account_number),
                        },
                        Finish::PinBlock,
                    ),
                },
            },
        }
    } else if command_code == text::ascii_2('G', '0') {
        handlers::failed(
            ProxyError::Unsupported(
                "G0: BDK-to-BDK/ZPK DUKPT PIN translate carries optional source and destination KSNs and needs DUKPT validation against APC before it can be proxied"@,
            ),
        )
    } else if command_code == text::ascii_2('B', 'Q') {
        handlers::failed(
            ProxyError::Unsupported(
                "BQ: Translate PIN Algorithm is a distinct operation not yet mapped to APC"@,
            ),
        )
    } else {
        handlers::disabled()
    }
}

/// payShield PIN translation: CC from one zone PIN key to another, CA from a terminal
/// PIN key to a zone PIN key. G0 and BQ are not offered.
pub struct PinHandler;

impl Handler for PinHandler {
    open spec fn codes(&self) -> Seq<Seq<char>> {
        seq!["CA"@, "CC"@, "BQ"@, "G0"@]
    }

    open spec fn step(&self, command_code: Seq<u8>, payload: Seq<u8>, keys: KeyTable) -> StepView {
        translate_step(command_code, payload, keys)
    }

    open spec fn evidence(&self) -> Seq<Evidence> {
        Seq::empty()
    }

    fn command_codes(&self) -> Vec<&'static str> {
        let r: Vec<&'static str> = vec!["CA", "CC", "BQ", "G0"];
        assert(text::texts(r@) =~= self.codes());
        r
    }

    fn start(&self, command_code: &[u8], payload: &[u8], keys: &KeyMap) -> Step {
        let is_ca: bool = is_ascii_2(command_code, 'C', 'A');
        if !is_ca && !is_ascii_2(command_code, 'C', 'C') {
            if is_ascii_2(command_code, 'G', '0') {
                return fail(
                    &ProxyError::Unsupported(
                        owned(
                            "G0: BDK-to-BDK/ZPK DUKPT PIN translate carries optional source and destination KSNs and needs DUKPT validation against APC before it can be proxied",
                        ),
                    ),
                );
            }
            if is_ascii_2(command_code, 'B', 'Q') {
                return fail(
                    &ProxyError::Unsupported(
                        owned(
                            "BQ: Translate PIN Algorithm is a distinct operation not yet mapped to APC",
                        ),
                    ),
                );
            }
            return disable();
        }
        let fields: PinFields = match parse_translate(payload, is_ca) {
            Ok(f) => f,
            Err(e) => {
                return fail(&e);
            },
        };
        let incoming_key: String = match keys.resolve_descriptor(&fields.source_key) {
            Ok(a) => owned(a),
            Err(e) => {
                return fail(&e);
            },
        };
        let outgoing_key: String = match keys.resolve_descriptor(&fields.dest_key) {
            Ok(a) => owned(a),
            Err(e) => {
                return fail(&e);
            },
        };
        let pan: &str = fields.account_number.as_str();
        let incoming: TranslationFormat = build_translation_attrs(fields.source_format, pan);
        let outgoing: TranslationFormat = build_translation_attrs(fields.dest_format, pan);
        Step::Call {
            call: ApcCall::TranslatePin {
                incoming_key,
                outgoing_key,
                pin_block: fields.pin_block,
                incoming,
                outgoing,
            },
            then: Pending::Finish(Finish::PinBlock),
        }
    }

    fn grounding(&self) -> Vec<Evidence> {
        Vec::new()
    }
}

/// The formats of a translation go by the two format codes of the payload: in every CC or
/// CA command that leads to a call, code `01` is ISO format 0 with the account number, `05`
/// ISO format 1, and `47` ISO format 3 with the account number, on the side of the code. So
/// different codes are different formats.
pub proof fn format_codes_decide_the_translation(ca: bool, p: Seq<u8>, keys: KeyTable)
    ensures
        ({
            let code = if ca {
                text::ascii_2('C', 'A')
            } else {
                text::ascii_2('C', 'C')
            };
            let a = (common::legacy_key(p, 0)->Ok_0).1;
            let b = a + (common::legacy_key(p, a)->Ok_0).1;
            let from = p.subrange(b + 18, b + 20);
            let to = p.subrange(b + 20, b + 22);
            let pan = text::lossy_text(p.subrange(b + 22, b + 34));
            PinHandler.step(code, p, keys) matches Step::Call { call, .. } ==> {
                &&& call is TranslatePin
                &&& call->TranslatePin_pin_block == text::lossy_text(p.subrange(b + 2, b + 18))
                &&& from == text::ascii_2('0', '1') <==> call->incoming
                    == (TranslationFormat::IsoFormat0 { pan })
                &&& from == text::ascii_2('0', '5') <==> call->incoming
                    == TranslationFormat::<Seq<char>>::IsoFormat1
                &&& from == text::ascii_2('4', '7') <==> call->incoming
                    == (TranslationFormat::IsoFormat3 { pan })
                &&& to == text::ascii_2('0', '1') <==> call->outgoing
                    == (TranslationFormat::IsoFormat0 { pan })
                &&& to == text::ascii_2('0', '5') <==> call->outgoing
                    == TranslationFormat::<Seq<char>>::IsoFormat1
                &&& to == text::ascii_2('4', '7') <==> call->outgoing
                    == (TranslationFormat::IsoFormat3 { pan })
                &&& call->incoming is IsoFormat0 ==> from == text::ascii_2('0', '1')
                &&& call->incoming is IsoFormat3 ==> from == text::ascii_2('4', '7')
                &&& call->outgoing is IsoFormat0 ==> to == text::ascii_2('0', '1')
                &&& call->outgoing is IsoFormat3 ==> to == text::ascii_2('4', '7')
            }
        }),
{
    lemma_codes_differ();
}

proof fn lemma_codes_differ()
    ensures
        text::ascii_2('C', 'C') != text::ascii_2('C', 'A'),
        text::ascii_2('0', '1') != text::ascii_2('0', '5'),
        text::ascii_2('0', '1') != text::ascii_2('4', '7'),
        text::ascii_2('0', '5') != text::ascii_2('4', '7'),
        text::ascii_2('0', '1') != text::ascii_2('0', '4'),
        text::ascii_2('0', '5') != text::ascii_2('0', '4'),
        text::ascii_2('4', '7') != text::ascii_2('4', '8'),
        text::ascii_2('0', '1') != text::ascii_2('4', '8'),
        text::ascii_2('0', '5') != text::ascii_2('4', '8'),
        text::ascii_2('4', '7') != text::ascii_2('0', '4'),
{
    assert(text::ascii_2('C', 'C')[1] != text::ascii_2('C', 'A')[1]);
    assert(text::ascii_2('0', '1')[1] == '1' as u8 && text::ascii_2('0', '1')[0] == '0' as u8);
    assert(text::ascii_2('0', '5')[1] == '5' as u8 && text::ascii_2('0', '5')[0] == '0' as u8);
    assert(text::ascii_2('0', '4')[1] == '4' as u8 && text::ascii_2('0', '4')[0] == '0' as u8);
    assert(text::ascii_2('4', '7')[1] == '7' as u8 && text::ascii_2('4', '7')[0] == '4' as u8);
    assert(text::ascii_2('4', '8')[1] == '8' as u8 && text::ascii_2('4', '8')[0] == '4' as u8);
}

/// A format code and the side of a translation that it stands for, for the account `pan`.
pub open spec fn side_is(
    code: Seq<u8>,
    pan: Seq<char>,
    side: TranslationFormat<Seq<char>>,
) -> bool {
    ||| code == text::ascii_2('0', '1') && side == (TranslationFormat::IsoFormat0 { pan })
    ||| code == text::ascii_2('0', '5') && side == TranslationFormat::<Seq<char>>::IsoFormat1
    ||| code == text::ascii_2('4', '7') && side == (TranslationFormat::IsoFormat3 { pan })
}

/// A CC or CA payload is forwarded field by field: the PIN block goes to a translation with the
/// first key and format as its source and the second as its destination, and the block that
/// comes back is answered. A format code that is not offered is refused: `04` and `48` with code
/// `68`, any other with `23`.
#[verifier::rlimit(30)]
pub proof fn a_pin_block_is_translated_field_by_field(
    ca: bool,
    source: Seq<u8>,
    dest: Seq<u8>,
    length: Seq<u8>,
    block: Seq<u8>,
    from: Seq<u8>,
    to: Seq<u8>,
    account: Seq<u8>,
    more: Seq<u8>,
    keys: KeyTable,
    source_arn: Seq<char>,
    dest_arn: Seq<char>,
    incoming: TranslationFormat<Seq<char>>,
    outgoing: TranslationFormat<Seq<char>>,
    out: Seq<char>,
)
    requires
        common::legacy_key_is(keys, source, source_arn),
        common::legacy_key_is(keys, dest, dest_arn),
        ca ==> dest[0] != '*' as u8 && dest[0] != '~' as u8,
        length.len() == 2,
        block.len() == 16,
        from.len() == 2,
        to.len() == 2,
        account.len() == 12,
    ensures
        ({
            let code = if ca {
                text::ascii_2('C', 'A')
            } else {
                text::ascii_2('C', 'C')
            };
            let p = source + dest + length + block + from + to + account + more;
            let pan = text::lossy_text(account);
            let step = PinHandler.step(code, p, keys);
            &&& side_is(from, pan, incoming) && side_is(to, pan, outgoing) ==> {
                &&& step matches Step::Call { call, then }
                &&& call == (ApcCall::TranslatePin {
                    incoming_key: source_arn,
                    outgoing_key: dest_arn,
                    pin_block: text::lossy_text(block),
                    incoming,
                    outgoing,
                })
                &&& handlers::resumed(then, ApcReply::PinBlock(out)) == StepView::Done(
                    handlers::answered(encode_utf8(out)),
                )
            }
            &&& from == text::ascii_2('0', '4') || from == text::ascii_2('4', '8') ==> step
                == StepView::Done(handlers::refused(text::ascii_2('6', '8')))
            &&& from != text::ascii_2('0', '1') && from != text::ascii_2('0', '5') && from
                != text::ascii_2('4', '7') && from != text::ascii_2('0', '4') && from
                != text::ascii_2('4', '8') ==> step == StepView::Done(
                handlers::refused(text::ascii_2('2', '3')),
            )
        }),
{
    let p = source + dest + length + block + from + to + account + more;
    let behind = length + block + from + to + account + more;
    let b = (source.len() + dest.len()) as int;
    lemma_codes_differ();
    assert(p =~= source + dest + behind);
    common::leading_key_fields_are_read_in_place(source, dest, behind);
    common::key_fields_lie_within(source, 0);
    common::key_fields_lie_within(dest, 0);
    assert(p[source.len() as int] == dest[0]);
    assert(p.subrange(b + 2, b + 18) =~= block);
    assert(p.subrange(b + 18, b + 20) =~= from);
    assert(p.subrange(b + 20, b + 22) =~= to);
    assert(p.subrange(b + 22, b + 34) =~= account);
}

/// A CC or CA command leads to a call only if its payload holds every field. A derivation key
/// as the destination of CA is answered with code `68`, what is cut short with `15`, and a key
/// that is not found with `10`.
pub proof fn only_whole_translations_lead_to_a_call(ca: bool, p: Seq<u8>, keys: KeyTable)
    ensures
        ({
            let a = (common::legacy_key(p, 0)->Ok_0).1;
            let b = a + (common::legacy_key(p, a)->Ok_0).1;
            let step = PinHandler.step(if ca {
                text::ascii_2('C', 'A')
            } else {
                text::ascii_2('C', 'C')
            }, p, keys);
            &&& match step {
                Step::Call { call, .. } => {
                    &&& common::legacy_key(p, 0) is Ok
                    &&& common::legacy_key(p, a) is Ok
                    &&& p.len() >= b + 34
                },
                Step::Done(r) => r.payload.len() == 0 && (r.error_code == text::ascii_2('1', '0')
                    || r.error_code == text::ascii_2('1', '5')
                    || r.error_code == text::ascii_2('2', '3')
                    || r.error_code == text::ascii_2('6', '8')),
            }
            &&& ca && common::legacy_key(p, 0) is Ok && a < p.len() && (p[a] == '*' as u8
                || p[a] == '~' as u8)
                ==> step == StepView::Done(handlers::refused(text::ascii_2('6', '8')))
            &&& step == StepView::Done(handlers::refused(text::ascii_2('6', '8'))) ==> {
                ||| ca && (p[a] == '*' as u8 || p[a] == '~' as u8)
                ||| p.subrange(b + 18, b + 20) == text::ascii_2('0', '4')
                ||| p.subrange(b + 18, b + 20) == text::ascii_2('4', '8')
                ||| p.subrange(b + 20, b + 22) == text::ascii_2('0', '4')
                ||| p.subrange(b + 20, b + 22) == text::ascii_2('4', '8')
            }
            &&& step == StepView::Done(handlers::refused(text::ascii_2('2', '3')))
                ==> p.len() >= b + 34
        }),
{
    assert(text::ascii_2('6', '8')[0] == '6' as u8 && text::ascii_2('1', '5')[0] == '1' as u8);
    assert(text::ascii_2('1', '0')[0] == '1' as u8 && text::ascii_2('2', '3')[0] == '2' as u8);
    lemma_codes_differ();
    let a = (common::legacy_key(p, 0)->Ok_0).1;
    let b = a + (common::legacy_key(p, a)->Ok_0).1;
    common::unreadable_fields_are_answered_15(p, 0);
    common::unreadable_fields_are_answered_15(p, a);
}

} // verus!
