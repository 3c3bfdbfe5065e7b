//! MA, MC, ME, MK, MM, MO, MU, MW, MQ, MS: legacy MAC commands.
//!
//! The first three take data up to a tilde or the end of the payload; the others
//! take binary data behind a length of three hexadecimal digits.

use vstd::prelude::*;
use vstd::string::*;
#[allow(unused_imports)]
use vstd::utf8::{
    decode_utf8, encode_utf8, encode_utf8_decode_utf8, encode_utf8_valid_utf8, is_ascii_chars,
    is_ascii_chars_encode_utf8, valid_utf8,
};

use crate::apc::{ApcCall, MacAlgorithm, MacScheme};
#[allow(unused_imports)]
use crate::apc::{ApcReply, ReplyView};
#[allow(unused_imports)]
use crate::error;
use crate::error::{Failure, ProxyError};
#[allow(unused_imports)]
use crate::handlers;
use crate::handlers::evidence;
use crate::handlers::grounding::{CryptoGrounding, Evidence, Proof, WireGrounding};
#[allow(unused_imports)]
use crate::handlers::thales::common;
use crate::handlers::thales::common::{bytes_to_hex, field_hex, field_text, parse_legacy_key};
use crate::handlers::{disable, fail, Finish, Handler, Pending, Step, StepView};
use crate::key_map::{KeyDescriptor, KeyMap, KeyTable};
use crate::secret::Secret;
#[allow(unused_imports)]
use crate::text;
use crate::text::{
    byte_text, decimal_text, find_byte, fits, is_ascii_2, owned, utf8, word_of,
};

verus! {

/// The data from `start` up to the next tilde, or to the end.
pub open spec fn until_tilde(p: Seq<u8>, start: int) -> Seq<u8> {
    p.subrange(start, start + text::first_index(p.skip(start), '~' as u8))
}

/// Take the data from `start` up to the next tilde, or to the end.
pub fn data_slice(payload: &[u8], start: usize) -> (r: &[u8])
    requires
        start <= payload@.len(),
    ensures
        r@ == until_tilde(payload@, start as int),
{
    let end: usize = find_byte(payload, start, '~' as u8);
    &payload[start..end]
}

/// Data behind a length of three hexadecimal digits at `pos`, in hexadecimal, and
/// how many bytes the two take.
pub open spec fn len_binary(p: Seq<u8>, pos: int, cmd: Seq<char>) -> Result<
    (Seq<char>, int),
    Failure,
> {
    let len_bytes = p.subrange(pos, pos + 3);
    let len_text = decode_utf8(len_bytes);
    let len = text::word(len_text, 16);
    if p.len() < pos + 3 {
        error::bad(cmd + ": data length field missing"@)
    } else if !valid_utf8(len_bytes) {
        error::bad(cmd + ": data length not ASCII"@)
    } else if len is None {
        error::bad(cmd + ": invalid data length '"@ + len_text + "'"@)
    } else if p.len() < pos + 3 + len->0 {
        error::bad(
            cmd + ": data truncated (need "@ + text::decimal(len->0 as nat) + "B)"@,
        )
    } else {
        Ok((common::hex_at(p, pos + 3, len->0), 3 + len->0))
    }
}

/// Parse binary data behind a length of three hexadecimal digits. Gives the data
/// in hexadecimal and how many bytes length and data take.
pub fn parse_len_binary(payload: &[u8], pos: usize, cmd: &str) -> (r: Result<
    (String, usize),
    ProxyError,
>)
    ensures
        match r {
            Ok((s, n)) => len_binary(payload@, pos as int, cmd@) == Ok::<
                (Seq<char>, int),
                Failure,
            >((s@, n as int)),
            Err(e) => len_binary(payload@, pos as int, cmd@) == Err::<(Seq<char>, int), Failure>(
                e@,
            ),
        },
{
    if !fits(payload, pos, 3) {
        return Err(
            ProxyError::MalformedPayload(owned(cmd).concat(": data length field missing")),
        );
    }
    let len_text: String = match utf8(&payload[pos..pos + 3]) {
        Some(t) => t,
        None => {
            return Err(
                ProxyError::MalformedPayload(owned(cmd).concat(": data length not ASCII")),
            );
        },
    };
    let len: usize = match word_of(len_text.as_str(), 16) {
        Some(n) => n,
        None => {
            return Err(
                ProxyError::MalformedPayload(
                    owned(cmd).concat(": invalid data length '").concat(len_text.as_str()).concat(
                        "'",
                    ),
                ),
            );
        },
    };
    if !fits(payload, pos + 3, len) {
        return Err(
            ProxyError::MalformedPayload(
                owned(cmd).concat(": data truncated (need ").concat(
                    decimal_text(len as u128).as_str(),
                ).concat("B)"),
            ),
        );
    }
    Ok((field_hex(payload, pos + 3, len), 3 + len))
}

/// Which fields a command has.
#[derive(Clone, Copy, Debug, PartialEq, Eq, Structural)]
pub struct Layout {
    /// A mode digit in front, of which only `0` is supported.
    pub mode: bool,
    /// A second key.
    pub two_keys: bool,
    /// A MAC of eight digits.
    pub mac: bool,
    /// Data behind a length, and not up to a tilde.
    pub binary: bool,
    /// ISO 9797 algorithm 3, and not 1.
    pub retail: bool,
}

/// What a legacy MAC command asks for.
pub struct LegacyFields<T = String> {
    pub key_id: KeyDescriptor<T>,
    pub dst_key_id: Option<KeyDescriptor<T>>,
    pub mac: Option<T>,
    pub data_hex: T,
}

impl View for LegacyFields<String> {
    type V = LegacyFields<Seq<char>>;

    open spec fn view(&self) -> LegacyFields<Seq<char>> {
        LegacyFields {
            key_id: self.key_id@,
            dst_key_id: match self.dst_key_id {
                Some(k) => Some(k@),
                None => None,
            },
            mac: crate::key_map::maybe(self.mac),
            data_hex: self.data_hex@,
        }
    }
}

/// A legacy MAC payload: the mode, the key, the second key, the MAC and the data,
/// as far as the layout has them. `cmd` stands in front of the failures.
pub open spec fn legacy_fields(p: Seq<u8>, cmd: Seq<char>, layout: Layout) -> Result<
    LegacyFields<Seq<char>>,
    Failure,
> {
    let base: int = if layout.mode {
        1
    } else {
        0
    };
    let key = common::legacy_key(p, base);
    let a = base + (key->Ok_0).1;
    let dst = common::legacy_key(p, a);
    let b = if layout.two_keys {
        a + (dst->Ok_0).1
    } else {
        a
    };
    let c = if layout.mac {
        b + 8
    } else {
        b
    };
    let binary = len_binary(p, c, cmd);
    if layout.mode && p.len() == 0 {
        error::bad(cmd + ": empty payload"@)
    } else if layout.mode && p[0] != '0' as u8 {
        error::bad(
            cmd + ": continuation mode '"@ + seq![p[0] as char]
                + "' not supported (APC is stateless; use mode '0' only)"@,
        )
    } else if key is Err {
        Err(key->Err_0)
    } else if layout.two_keys && dst is Err {
        Err(dst->Err_0)
    } else if layout.mac && p.len() < b + 8 {
        error::bad(cmd + ": payload too short for MAC field"@)
    } else if layout.binary && binary is Err {
        Err(binary->Err_0)
    } else {
        Ok(
            LegacyFields {
                key_id: (key->Ok_0).0,
                dst_key_id: if layout.two_keys {
                    Some((dst->Ok_0).0)
                } else {
                    None
                },
                mac: if layout.mac {
                    Some(common::text_at(p, b, 8))
                } else {
                    None
                },
                data_hex: if layout.binary {
                    (binary->Ok_0).0
                } else {
                    text::hex_upper(until_tilde(p, c))
                },
            },
        )
    }
}

/// Parse the payload of a legacy MAC command.
pub fn parse_legacy(payload: &[u8], cmd: &str, layout: Layout) -> (r: Result<
    LegacyFields,
    ProxyError,
>)
    ensures
        error::outcome(r) == legacy_fields(payload@, cmd@, layout),
{
    let mut pos: usize = 0;
    if layout.mode {
        if payload.len() == 0 {
            return Err(ProxyError::MalformedPayload(owned(cmd).concat(": empty payload")));
        }
        if payload[0] != '0' as u8 {
            return Err(
                ProxyError::MalformedPayload(
                    owned(cmd).concat(": continuation mode '").concat(
                        byte_text(payload[0]).as_str(),
                    ).concat("' not supported (APC is stateless; use mode '0' only)"),
                ),
            );
        }
        pos = 1;
    }
    let (key_id, key_consumed) = parse_legacy_key(payload, pos)?;
    assert(payload.len() == payload@.len());
    pos = pos + key_consumed;
    let dst_key_id: Option<KeyDescriptor> = if layout.two_keys {
        let (dst, dst_consumed) = parse_legacy_key(payload, pos)?;
        pos = pos + dst_consumed;
        Some(dst)
    } else {
        None
    };
    let mac: Option<String> = if layout.mac {
        if !fits(payload, pos, 8) {
            return Err(
                ProxyError::MalformedPayload(
                    owned(cmd).concat(": payload too short for MAC field"),
                ),
            );
        }
        let m: String = field_text(payload, pos, 8);
        pos = pos + 8;
        Some(m)
    } else {
        None
    };
    let data_hex: String = if layout.binary {
        let (d, _consumed) = parse_len_binary(payload, pos, cmd)?;
        d
    } else {
        bytes_to_hex(data_slice(payload, pos))
    };
    Ok(LegacyFields { key_id, dst_key_id, mac, data_hex })
}

/// The name of a legacy MAC command and the fields it has.
pub open spec fn legacy_command(command_code: Seq<u8>) -> Option<(Seq<char>, Layout)> {
    let plain = Layout { mode: false, two_keys: false, mac: false, binary: false, retail: false };
    if command_code == text::ascii_2('M', 'A') {
        Some(("MA"@, plain))
    } else if command_code == text::ascii_2('M', 'C') {
        Some(("MC"@, Layout { mac: true, ..plain }))
    } else if command_code == text::ascii_2('M', 'E') {
        Some(("ME"@, Layout { two_keys: true, mac: true, ..plain }))
    } else if command_code == text::ascii_2('M', 'K') {
        Some(("MK"@, Layout { binary: true, ..plain }))
    } else if command_code == text::ascii_2('M', 'M') {
        Some(("MM"@, Layout { mac: true, binary: true, ..plain }))
    } else if command_code == text::ascii_2('M', 'O') {
        Some(("MO"@, Layout { two_keys: true, mac: true, binary: true, ..plain }))
    } else if command_code == text::ascii_2('M', 'U') {
        Some(("MU"@, Layout { mode: true, binary: true, ..plain }))
    } else if command_code == text::ascii_2('M', 'W') {
        Some(("MW"@, Layout { mode: true, mac: true, binary: true, ..plain }))
    } else if command_code == text::ascii_2('M', 'Q') {
        Some(("MQ"@, Layout { mode: true, binary: true, ..plain }))
    } else if command_code == text::ascii_2('M', 'S') {
        Some(("MS"@, Layout { mode: true, binary: true, retail: true, ..plain }))
    } else {
        None
    }
}

fn command_layout(command_code: &[u8]) -> (r: Option<(&'static str, Layout)>)
    ensures
        legacy_command(command_code@) == match r {
            Some((name, layout)) => Some((name@, layout)),
            None => None,
        },
{
    let plain = Layout { mode: false, two_keys: false, mac: false, binary: false, retail: false };
    if is_ascii_2(command_code, 'M', 'A') {
        Some(("MA", plain))
    } else if is_ascii_2(command_code, 'M', 'C') {
        Some(("MC", Layout { mac: true, ..plain }))
    } else if is_ascii_2(command_code, 'M', 'E') {
        Some(("ME", Layout { two_keys: true, mac: true, ..plain }))
    } else if is_ascii_2(command_code, 'M', 'K') {
        Some(("MK", Layout { binary: true, ..plain }))
    } else if is_ascii_2(command_code, 'M', 'M') {
        Some(("MM", Layout { mac: true, binary: true, ..plain }))
    } else if is_ascii_2(command_code, 'M', 'O') {
        Some(("MO", Layout { two_keys: true, mac: true, binary: true, ..plain }))
    } else if is_ascii_2(command_code, 'M', 'U') {
        Some(("MU", Layout { mode: true, binary: true, ..plain }))
    } else if is_ascii_2(command_code, 'M', 'W') {
        Some(("MW", Layout { mode: true, mac: true, binary: true, ..plain }))
    } else if is_ascii_2(command_code, 'M', 'Q') {
        Some(("MQ", Layout { mode: true, binary: true, ..plain }))
    } else if is_ascii_2(command_code, 'M', 'S') {
        Some(("MS", Layout { mode: true, binary: true, retail: true, ..plain }))
    } else {
        None
    }
}

/// What legacy MAC fields lead to: a MAC is generated where none is given, one
/// that is given is verified, and with a second key a new one is generated under
/// it once the first is accepted. Eight characters of a MAC are answered.
pub open spec fn legacy_call(
    f: LegacyFields<Seq<char>>,
    retail: bool,
    arn: Seq<char>,
    dst_arn: Option<Seq<char>>,
) -> StepView {
    let scheme = MacScheme::Algorithm(
        if retail {
            MacAlgorithm::Iso9797Algorithm3
        } else {
            MacAlgorithm::Iso9797Algorithm1
        },
    );
    let finish = Finish::MacBytes { chars: 8 };
    match f.mac {
        None => handlers::ask(
            ApcCall::GenerateMac { key: arn, message: f.data_hex, scheme, mac_length: None },
            finish,
        ),
        Some(mac) => {
            let verify = ApcCall::VerifyMac { key: arn, message: f.data_hex, mac, scheme };
            match dst_arn {
                None => handlers::ask(verify, Finish::Accepted),
                Some(dst) => Step::Call {
                    call: verify,
                    then: Pending::IfAccepted {
                        next: ApcCall::GenerateMac {
                            key: dst,
                            message: f.data_hex,
                            scheme,
                            mac_length: None,
                        },
                        finish,
                    },
                },
            }
        },
    }
}

/// What a legacy MAC command leads to.
pub open spec fn legacy_step(command_code: Seq<u8>, p: Seq<u8>, keys: KeyTable) -> StepView {
    match legacy_command(command_code) {
        None => handlers::disabled(),
        Some((name, layout)) => match legacy_fields(p, name, layout) {
            Err(e) => handlers::failed(e),
            Ok(f) => match keys.resolved_field(f.key_id) {
                Err(e) => handlers::failed(e),
                Ok(arn) => match f.dst_key_id {
                    None => legacy_call(f, layout.retail, arn, None),
                    Some(dst) => match keys.resolved_field(dst) {
                        Err(e) => handlers::failed(e),
                        Ok(dst_arn) => legacy_call(f, layout.retail, arn, Some(dst_arn)),
                    },
                },
            },
        },
    }
}

/// payShield legacy MAC commands. MA, MK, MU, MQ and MS generate a MAC, MC, MM and
/// MW verify one, ME and MO verify one and generate another under a second key.
/// All use ISO 9797 algorithm 1 but for MS, which uses algorithm 3.
pub struct LegacyMacHandler;

impl Handler for LegacyMacHandler {
    open spec fn codes(&self) -> Seq<Seq<char>> {
        seq!["MA"@, "MC"@, "ME"@, "MK"@, "MM"@, "MO"@, "MU"@, "MW"@, "MQ"@, "MS"@]
    }

    open spec fn step(&self, command_code: Seq<u8>, payload: Seq<u8>, keys: KeyTable) -> StepView {
        legacy_step(command_code, payload, keys)
    }

    open spec fn evidence(&self) -> Seq<Evidence> {
        seq![
            Evidence {
                decision: evidence::LEGACY_MAC_1_DECISION,
                because: evidence::LEGACY_MAC_1_BECAUSE,
                wire: WireGrounding::DiffXprov,
                crypto: CryptoGrounding::Apc,
                proof: Proof::LiveTest(evidence::LEGACY_MAC_1_PROOF),
            },
            Evidence {
                decision: evidence::LEGACY_MAC_2_DECISION,
                because: evidence::LEGACY_MAC_2_BECAUSE,
                wire: WireGrounding::Cited,
                crypto: CryptoGrounding::Ungrounded,
                proof: Proof::ManualCite(evidence::LEGACY_MAC_2_PROOF),
            },
        ]
    }

    fn command_codes(&self) -> Vec<&'static str> {
        let r: Vec<&'static str> = vec!["MA", "MC", "ME", "MK", "MM", "MO", "MU", "MW", "MQ", "MS"];
        assert(text::texts(r@) =~= self.codes());
        r
    }

    fn start(&self, command_code: &[u8], payload: &[u8], keys: &KeyMap) -> Step {
        let (name, layout) = match command_layout(command_code) {
            Some(c) => c,
            None => {
                return disable();
            },
        };
        let fields: LegacyFields = match parse_legacy(payload, name, layout) {
            Ok(f) => f,
            Err(e) => {
                return fail(&e);
            },
        };
        let key: String = match keys.resolve_descriptor(&fields.key_id) {
            Ok(a) => owned(a),
            Err(e) => {
                return fail(&e);
            },
        };
        let dst_key: Option<String> = match &fields.dst_key_id {
            Some(d) => match keys.resolve_descriptor(d) {
                Ok(a) => Some(owned(a)),
                Err(e) => {
                    return fail(&e);
                },
            },
            None => None,
        };
        let algorithm: MacAlgorithm = if layout.retail {
            MacAlgorithm::Iso9797Algorithm3
        } else {
            MacAlgorithm::Iso9797Algorithm1
        };
        let message: Secret = Secret::new(fields.data_hex);
        match (fields.mac, dst_key) {
            (None, _) => Step::Call {
                call: ApcCall::GenerateMac {
                    key,
                    message,
                    scheme: MacScheme::Algorithm(algorithm),
                    mac_length: None,
                },
                then: Pending::Finish(Finish::MacBytes { chars: 8 }),
            },
            (Some(mac), None) => Step::Call {
                call: ApcCall::VerifyMac {
                    key,
                    message,
                    mac,
                    scheme: MacScheme::Algorithm(algorithm),
                },
                then: Pending::Finish(Finish::Accepted),
            },
            (Some(mac), Some(dst)) => {
                let next = ApcCall::GenerateMac {
                    key: dst,
                    message: message.duplicate(),
                    scheme: MacScheme::Algorithm(algorithm),
                    mac_length: None,
                };
                Step::Call {
                    call: ApcCall::VerifyMac {
                        key,
                        message,
                        mac,
                        scheme: MacScheme::Algorithm(algorithm),
                    },
                    then: Pending::IfAccepted { next, finish: Finish::MacBytes { chars: 8 } },
                }
            },
        }
    }

    fn grounding(&self) -> Vec<Evidence> {
        let r: Vec<Evidence> = vec![
            Evidence {
                decision: evidence::LEGACY_MAC_1_DECISION,
                because: evidence::LEGACY_MAC_1_BECAUSE,
                wire: WireGrounding::DiffXprov,
                crypto: CryptoGrounding::Apc,
                proof: Proof::LiveTest(evidence::LEGACY_MAC_1_PROOF),
            },
            Evidence {
                decision: evidence::LEGACY_MAC_2_DECISION,
                because: evidence::LEGACY_MAC_2_BECAUSE,
                wire: WireGrounding::Cited,
                crypto: CryptoGrounding::Ungrounded,
                proof: Proof::ManualCite(evidence::LEGACY_MAC_2_PROOF),
            },
        ];
        assert(r@ =~= self.evidence());
        r
    }
}

/// A legacy MAC translation (ME, MO) verifies first: the MAC that came in is handed
/// to APC under the source key, and one over the same data is generated under the
/// destination key only once it has been accepted. A mismatch is answered with code
/// `01` and no payload.
pub proof fn a_legacy_translation_verifies_first(
    command_code: Seq<u8>,
    p: Seq<u8>,
    keys: KeyTable,
    reply: ReplyView,
)
    requires
        command_code == text::ascii_2('M', 'E') || command_code == text::ascii_2('M', 'O'),
    ensures
        match legacy_step(command_code, p, keys) {
            Step::Done(r) => r.payload.len() == 0,
            Step::Call { call, then } => {
                let (name, layout) = legacy_command(command_code)->0;
                let f = legacy_fields(p, name, layout)->Ok_0;
                let scheme = MacScheme::Algorithm(MacAlgorithm::Iso9797Algorithm1);
                &&& keys.resolved_field(f.key_id) matches Ok(key)
                &&& keys.resolved_field(f.dst_key_id->0) matches Ok(dst)
                &&& call == ApcCall::VerifyMac { key, message: f.data_hex, mac: f.mac->0, scheme }
                &&& handlers::resumed(then, reply) matches Step::Call { call: next, .. } ==> {
                    &&& reply is Accepted
                    &&& next == ApcCall::GenerateMac {
                        key: dst,
                        message: f.data_hex,
                        scheme,
                        mac_length: None,
                    }
                }
                &&& reply is Accepted ==> handlers::resumed(then, reply) is Call
                &&& reply is VerificationFailed ==> handlers::resumed(then, reply)
                    == StepView::Done(handlers::refused(text::ascii_2('0', '1')))
            },
        },
{
}

/// A legacy MAC is verified as it was generated: MC reads an MA payload with the MAC
/// behind its key, MM an MK payload and MW an MU payload, as the same key and data
/// and that MAC to verify. `head` ends with the key field.
pub proof fn a_legacy_mac_is_verified_as_it_was_generated(
    head: Seq<u8>,
    body: Seq<u8>,
    generating: Seq<char>,
    verifying: Seq<char>,
    layout: Layout,
    mac: Seq<char>,
)
    requires
        !layout.two_keys && !layout.mac,
        ({
            let base: int = if layout.mode {
                1
            } else {
                0
            };
            common::legacy_key(head, base) matches Ok(key) && base + key.1 == head.len()
        }),
        legacy_fields(head + body, generating, layout) is Ok,
        is_ascii_chars(mac),
        mac.len() == 8,
    ensures
        legacy_fields(head + encode_utf8(mac) + body, verifying, Layout { mac: true, ..layout })
            == Ok::<_, Failure>(
            LegacyFields {
                mac: Some(mac),
                ..legacy_fields(head + body, generating, layout)->Ok_0
            },
        ),
{
    let base: int = if layout.mode {
        1
    } else {
        0
    };
    let wire = encode_utf8(mac);
    let p = head + body;
    let q = head + wire + body;
    let a = head.len() as int;
    assert(q =~= head + (wire + body));
    common::key_fields_lie_within(head, base);
    common::key_fields_end_where_they_end(head, body, base);
    common::key_fields_end_where_they_end(head, wire + body, base);
    is_ascii_chars_encode_utf8(mac);
    encode_utf8_valid_utf8(mac);
    encode_utf8_decode_utf8(mac);
    assert(q.subrange(a, a + 8) =~= wire);
    if layout.binary {
        let len = text::word(decode_utf8(p.subrange(a, a + 3)), 16);
        text::numbers_are_natural(decode_utf8(p.subrange(a, a + 3)), 16);
        assert(q.subrange(a + 8, a + 11) =~= p.subrange(a, a + 3));
        assert(q.subrange(a + 11, a + 11 + len->0) =~= p.subrange(a + 3, a + 3 + len->0));
    } else {
        assert(p.skip(a) =~= body && q.skip(a + 8) =~= body);
        text::first_index_is_first(body, '~' as u8);
        assert(until_tilde(q, a + 8) =~= until_tilde(p, a));
    }
}

/// The algorithm of a legacy MAC goes by the command alone: MA, MK, MU and MQ generate by
/// ISO 9797 algorithm 1 and MS by algorithm 3; MC, MM, MW, ME and MO verify by algorithm 1,
/// and the MAC that ME and MO generate goes by algorithm 1 too.
pub proof fn the_command_decides_the_mac_algorithm(second: char, p: Seq<u8>, keys: KeyTable)
    requires
        (second as u32) < 0x80,
    ensures
        LegacyMacHandler.step(text::ascii_2('M', second), p, keys) matches Step::Call { call, then }
            ==> {
            let one = MacScheme::<Seq<char>>::Algorithm(MacAlgorithm::Iso9797Algorithm1);
            let three = MacScheme::<Seq<char>>::Algorithm(MacAlgorithm::Iso9797Algorithm3);
            &&& call is GenerateMac <==> second == 'A' || second == 'K' || second == 'U' || second
                == 'Q' || second == 'S'
            &&& call is VerifyMac <==> second == 'C' || second == 'M' || second == 'W' || second
                == 'E' || second == 'O'
            &&& second == 'S' ==> call->GenerateMac_scheme == three
            &&& call is GenerateMac && second != 'S' ==> call->GenerateMac_scheme == one
            &&& call is VerifyMac ==> call->VerifyMac_scheme == one
            &&& second == 'E' || second == 'O' ==> {
                &&& handlers::resumed(then, ApcReply::Accepted) matches Step::Call { call: next,
                    .. }
                &&& next is GenerateMac
                &&& next->GenerateMac_scheme == one
            }
        },
{
    lemma_commands_differ(second);
}

proof fn lemma_commands_differ(second: char)
    requires
        (second as u32) < 0x80,
    ensures
        text::ascii_2('M', second) == text::ascii_2('M', 'A') <==> second == 'A',
        text::ascii_2('M', second) == text::ascii_2('M', 'C') <==> second == 'C',
        text::ascii_2('M', second) == text::ascii_2('M', 'E') <==> second == 'E',
        text::ascii_2('M', second) == text::ascii_2('M', 'K') <==> second == 'K',
        text::ascii_2('M', second) == text::ascii_2('M', 'M') <==> second == 'M',
        text::ascii_2('M', second) == text::ascii_2('M', 'O') <==> second == 'O',
        text::ascii_2('M', second) == text::ascii_2('M', 'U') <==> second == 'U',
        text::ascii_2('M', second) == text::ascii_2('M', 'W') <==> second == 'W',
        text::ascii_2('M', second) == text::ascii_2('M', 'Q') <==> second == 'Q',
        text::ascii_2('M', second) == text::ascii_2('M', 'S') <==> second == 'S',
{
    assert(text::ascii_2('M', second)[1] == second as u8);
    assert(text::ascii_2('M', 'A')[1] == 'A' as u8);
    assert(text::ascii_2('M', 'C')[1] == 'C' as u8);
    assert(text::ascii_2('M', 'E')[1] == 'E' as u8);
    assert(text::ascii_2('M', 'K')[1] == 'K' as u8);
    assert(text::ascii_2('M', 'M')[1] == 'M' as u8);
    assert(text::ascii_2('M', 'O')[1] == 'O' as u8);
    assert(text::ascii_2('M', 'U')[1] == 'U' as u8);
    assert(text::ascii_2('M', 'W')[1] == 'W' as u8);
    assert(text::ascii_2('M', 'Q')[1] == 'Q' as u8);
    assert(text::ascii_2('M', 'S')[1] == 'S' as u8);
}

/// A legacy MAC payload is forwarded field by field. `second` is the second letter of the
/// command; the payload is put together from the mode digit `0` (MU, MW, MQ, MS), the key,
/// the second key (ME, MO), the MAC (MC, ME, MM, MO, MW) and the data: up to the end or a
/// tilde in MA, MC and ME, behind its length of three digits in the others. The MAC is
/// generated over the data, or the one that came in is verified over it; eight characters
/// of a MAC that was generated are answered.
#[verifier::rlimit(30)]
pub proof fn a_legacy_mac_is_forwarded_field_by_field(
    second: char,
    k: Seq<u8>,
    k2: Seq<u8>,
    mac: Seq<u8>,
    length: Seq<u8>,
    data: Seq<u8>,
    more: Seq<u8>,
    keys: KeyTable,
    arn: Seq<char>,
    arn2: Seq<char>,
    out: Seq<char>,
)
    requires
        second == 'A' || second == 'C' || second == 'E' || second == 'K' || second == 'M' || second
            == 'O' || second == 'U' || second == 'W' || second == 'Q' || second == 'S',
        common::legacy_key_is(keys, k, arn),
        common::legacy_key_is(keys, k2, arn2),
        mac.len() == 8,
        length.len() == 3,
        valid_utf8(length),
        text::word(decode_utf8(length), 16) == Some(data.len() as int),
        !data.contains('~' as u8),
        more.len() > 0 ==> more[0] == '~' as u8,
        encode_utf8(out).len() >= 8,
    ensures
        ({
            let mode = second == 'U' || second == 'W' || second == 'Q' || second == 'S';
            let twice = second == 'E' || second == 'O';
            let verify = second == 'C' || second == 'M' || second == 'W' || twice;
            let plain = second == 'A' || second == 'C' || second == 'E';
            let none = Seq::<u8>::empty();
            let p = (if mode {
                seq!['0' as u8]
            } else {
                none
            }) + k + (if twice {
                k2
            } else {
                none
            }) + (if verify {
                mac
            } else {
                none
            }) + (if plain {
                none
            } else {
                length
            }) + data + more;
            let scheme = MacScheme::<Seq<char>>::Algorithm(
                if second == 'S' {
                    MacAlgorithm::Iso9797Algorithm3
                } else {
                    MacAlgorithm::Iso9797Algorithm1
                },
            );
            let message = text::hex_upper(data);
            let eight = StepView::Done(handlers::answered(encode_utf8(out).take(8)));
            &&& LegacyMacHandler.step(text::ascii_2('M', second), p, keys) matches Step::Call {
                call,
                then,
            }
            &&& !verify ==> call == (ApcCall::GenerateMac {
                key: arn,
                message,
                scheme,
                mac_length: None,
            }) && handlers::resumed(then, ApcReply::Mac(out)) == eight
            &&& verify ==> call == (ApcCall::VerifyMac {
                key: arn,
                message,
                mac: text::lossy_text(mac),
                scheme,
            })
            &&& verify && !twice ==> handlers::resumed(then, ApcReply::Accepted) == StepView::Done(
                handlers::answered(Seq::empty()),
            )
            &&& verify ==> handlers::resumed(then, ApcReply::VerificationFailed) == StepView::Done(
                handlers::refused(text::ascii_2('0', '1')),
            )
            &&& twice ==> {
                &&& handlers::resumed(then, ApcReply::Accepted) matches Step::Call {
                    call: next,
                    then: last,
                }
                &&& next == (ApcCall::GenerateMac { key: arn2, message, scheme, mac_length: None })
                &&& handlers::resumed(last, ApcReply::Mac(out)) == eight
            }
        }),
{
    lemma_commands_differ(second);
    let (name, layout) = legacy_command(text::ascii_2('M', second))->0;
    let none = Seq::<u8>::empty();
    lemma_legacy_payload(
        name,
        layout,
        if layout.mode {
            seq!['0' as u8]
        } else {
            none
        },
        k,
        if layout.two_keys {
            k2
        } else {
            none
        },
        if layout.mac {
            mac
        } else {
            none
        },
        if layout.binary {
            length
        } else {
            none
        },
        data,
        more,
    );
}

proof fn lemma_legacy_payload(
    cmd: Seq<char>,
    layout: Layout,
    head: Seq<u8>,
    k: Seq<u8>,
    other: Seq<u8>,
    sum: Seq<u8>,
    count: Seq<u8>,
    data: Seq<u8>,
    more: Seq<u8>,
)
    requires
        common::is_legacy_key(k),
        if layout.mode {
            head.len() == 1 && head[0] == '0' as u8
        } else {
            head.len() == 0
        },
        if layout.two_keys {
            common::is_legacy_key(other)
        } else {
            other.len() == 0
        },
        sum.len() == if layout.mac {
            8nat
        } else {
            0
        },
        if layout.binary {
            count.len() == 3 && valid_utf8(count) && text::word(decode_utf8(count), 16) == Some(
                data.len() as int,
            )
        } else {
            count.len() == 0
        },
        !data.contains('~' as u8),
        more.len() > 0 ==> more[0] == '~' as u8,
    ensures
        legacy_fields(head + k + other + sum + count + data + more, cmd, layout) == Ok::<_,
            Failure>(
            LegacyFields {
                key_id: (common::legacy_key(k, 0)->Ok_0).0,
                dst_key_id: if layout.two_keys {
                    Some((common::legacy_key(other, 0)->Ok_0).0)
                } else {
                    None
                },
                mac: if layout.mac {
                    Some(text::lossy_text(sum))
                } else {
                    None
                },
                data_hex: text::hex_upper(data),
            },
        ),
{
    lemma_legacy_pieces(layout, head, k, other, sum, count, data, more);
    common::key_fields_lie_within(k, 0);
    common::key_fields_lie_within(other, 0);
}

proof fn lemma_legacy_pieces(
    layout: Layout,
    head: Seq<u8>,
    k: Seq<u8>,
    other: Seq<u8>,
    sum: Seq<u8>,
    count: Seq<u8>,
    data: Seq<u8>,
    more: Seq<u8>,
)
    requires
        common::is_legacy_key(k),
        if layout.mode {
            head.len() == 1 && head[0] == '0' as u8
        } else {
            head.len() == 0
        },
        if layout.two_keys {
            common::is_legacy_key(other)
        } else {
            other.len() == 0
        },
        sum.len() == if layout.mac {
            8nat
        } else {
            0
        },
        if layout.binary {
            count.len() == 3 && valid_utf8(count) && text::word(decode_utf8(count), 16) == Some(
                data.len() as int,
            )
        } else {
            count.len() == 0
        },
        !data.contains('~' as u8),
        more.len() > 0 ==> more[0] == '~' as u8,
    ensures
        ({
            let p = head + k + other + sum + count + data + more;
            let a = (head.len() + k.len()) as int;
            let b = a + other.len();
            let c = b + sum.len();
            &&& p.len() == c + count.len() + data.len() + more.len()
            &&& layout.mode ==> p[0] == '0' as u8
            &&& common::legacy_key(p, head.len() as int) == common::legacy_key(k, 0)
            &&& layout.two_keys ==> common::legacy_key(p, a) == common::legacy_key(other, 0)
            &&& p.subrange(b, c) == sum
            &&& layout.binary ==> p.subrange(c, c + 3) == count
            &&& layout.binary ==> p.subrange(c + 3, c + 3 + data.len()) == data
            &&& !layout.binary ==> until_tilde(p, c) == data
        }),
{
    let p = head + k + other + sum + count + data + more;
    let tail = sum + count + data + more;
    let b = (head.len() + k.len() + other.len()) as int;
    let c = b + sum.len();
    assert(common::legacy_key(p, head.len() as int) == common::legacy_key(k, 0)) by {
        assert(p =~= head + k + (other + tail));
        common::key_fields_are_read_in_place(head, k, other + tail);
    }
    assert(layout.two_keys ==> common::legacy_key(p, (head.len() + k.len()) as int)
        == common::legacy_key(other, 0)) by {
        assert(p =~= (head + k) + other + tail);
        common::key_fields_are_read_in_place(head + k, other, tail);
    }
    common::key_fields_lie_within(k, 0);
    common::key_fields_lie_within(other, 0);
    assert(p.subrange(b, c) =~= sum);
    assert(p.len() == c + count.len() + data.len() + more.len());
    assert(layout.binary ==> p.subrange(c, c + 3) == count && p.subrange(c + 3, c + 3 + data.len())
        == data) by {
        if layout.binary {
            assert(p.subrange(c, c + 3) =~= count);
            assert(p.subrange(c + 3, c + 3 + data.len()) =~= data);
        }
    }
    assert(!layout.binary ==> until_tilde(p, c) == data) by {
        if !layout.binary {
            lemma_data_ends_at_tilde(data, more);
            assert(p.skip(c) =~= data + more);
            assert(until_tilde(p, c) =~= data);
        }
    }
    assert(layout.mode ==> p[0] == '0' as u8);
}

proof fn lemma_data_ends_at_tilde(data: Seq<u8>, more: Seq<u8>)
    requires
        !data.contains('~' as u8),
        more.len() > 0 ==> more[0] == '~' as u8,
    ensures
        text::first_index(data + more, '~' as u8) == data.len(),
{
    text::first_index_is_first(data + more, '~' as u8);
    let i = text::first_index(data + more, '~' as u8);
    if i < data.len() {
        assert((data + more)[i] == data[i]);
    }
    if i > data.len() {
        assert((data + more)[data.len() as int] == more[0]);
    }
}

/// The call that MC, MM or MW makes for a payload that is made from an MA, MK or MU
/// payload with the MAC behind its key has the same key, message and scheme as the call
/// that generated the MAC, and verifies that MAC. `head` ends with the key field.
pub proof fn a_legacy_mac_is_verified_by_the_call_that_made_it(
    generating: char,
    head: Seq<u8>,
    body: Seq<u8>,
    mac: Seq<char>,
    keys: KeyTable,
)
    requires
        generating == 'A' || generating == 'K' || generating == 'U',
        ({
            let base: int = if generating == 'U' {
                1
            } else {
                0
            };
            common::legacy_key(head, base) matches Ok(key) && base + key.1 == head.len()
        }),
        is_ascii_chars(mac),
        mac.len() == 8,
        LegacyMacHandler.step(text::ascii_2('M', generating), head + body, keys) is Call,
    ensures
        ({
            let verifying = if generating == 'A' {
                'C'
            } else if generating == 'K' {
                'M'
            } else {
                'W'
            };
            let made = LegacyMacHandler.step(
                text::ascii_2('M', generating),
                head + body,
                keys,
            )->call;
            &&& made is GenerateMac
            &&& LegacyMacHandler.step(
                text::ascii_2('M', verifying),
                head + encode_utf8(mac) + body,
                keys,
            ) matches Step::Call { call, .. }
            &&& call == (ApcCall::VerifyMac {
                key: made->GenerateMac_key,
                message: made->GenerateMac_message,
                mac,
                scheme: made->GenerateMac_scheme,
            })
        }),
{
    let verifying = if generating == 'A' {
        'C'
    } else if generating == 'K' {
        'M'
    } else {
        'W'
    };
    lemma_commands_differ(generating);
    lemma_commands_differ(verifying);
    let from = legacy_command(text::ascii_2('M', generating))->0;
    let to = legacy_command(text::ascii_2('M', verifying))->0;
    a_legacy_mac_is_verified_as_it_was_generated(head, body, from.0, to.0, from.1, mac);
}

/// A legacy MAC command leads to a call only if its mode, where it has one, is `0`, and only if
/// its payload holds its keys and its MAC. What is not so is answered with code `15`, a key that
/// is not found with `10`, and a command that is none of these with `68`.
pub proof fn only_whole_legacy_macs_lead_to_a_call(second: char, p: Seq<u8>, keys: KeyTable)
    requires
        (second as u32) < 0x80,
    ensures
        ({
            let step = LegacyMacHandler.step(text::ascii_2('M', second), p, keys);
            let mode = second == 'U' || second == 'W' || second == 'Q' || second == 'S';
            let base: int = if mode {
                1
            } else {
                0
            };
            let a = base + (common::legacy_key(p, base)->Ok_0).1;
            &&& match step {
                Step::Call { call, .. } => {
                    &&& mode ==> p[0] == '0' as u8
                    &&& common::legacy_key(p, base) is Ok
                    &&& second == 'E' || second == 'O' ==> common::legacy_key(p, a) is Ok
                    &&& call is VerifyMac ==> p.len() >= a + 8
                    &&& !(call is VerifyMac) && second != 'A' ==> p.len() >= a + 3
                },
                Step::Done(r) => r.payload.len() == 0 && (r.error_code == text::ascii_2('1', '0')
                    || r.error_code == text::ascii_2('1', '5') || r.error_code == text::ascii_2(
                    '6',
                    '8',
                )),
            }
            &&& mode && p.len() > 0 && p[0] != '0' as u8 ==> step == StepView::Done(
                handlers::refused(text::ascii_2('1', '5')),
            )
            &&& step == StepView::Done(handlers::refused(text::ascii_2('6', '8')))
                <==> !(second == 'A'
                || second == 'C' || second == 'E' || second == 'K' || second == 'M' || second == 'O'
                || second == 'U' || second == 'W' || second == 'Q' || second == 'S')
        }),
{
    assert(text::ascii_2('6', '8')[0] == '6' as u8 && text::ascii_2('1', '5')[0] == '1' as u8);
    assert(text::ascii_2('1', '0')[0] == '1' as u8 && text::ascii_2('2', '3')[0] == '2' as u8);
    lemma_commands_differ(second);
    let mode = second == 'U' || second == 'W' || second == 'Q' || second == 'S';
    let base: int = if mode {
        1
    } else {
        0
    };
    let a = base + (common::legacy_key(p, base)->Ok_0).1;
    common::unreadable_fields_are_answered_15(p, base);
    common::unreadable_fields_are_answered_15(p, a);
    common::key_fields_lie_within(p, base);
    if common::legacy_key(p, base) is Ok {
        common::key_fields_lie_within(p, a);
    }
}

} // verus!
