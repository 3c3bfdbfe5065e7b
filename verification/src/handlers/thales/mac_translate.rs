//! MY: verify a MAC and generate another under a second key.

use vstd::prelude::*;
use vstd::string::*;
#[allow(unused_imports)]
use vstd::utf8::{
    decode_utf8, encode_utf8, encode_utf8_decode_utf8, encode_utf8_valid_utf8, is_ascii_chars,
    is_ascii_chars_encode_utf8, valid_utf8,
};

use crate::apc::{ApcCall, MacAlgorithm, MacScheme};
#[allow(unused_imports)]
use crate::apc::{ApcReply, CallView, ReplyView};
#[allow(unused_imports)]
use crate::error;
use crate::error::{Failure, ProxyError};
#[allow(unused_imports)]
use crate::handlers;
use crate::handlers::evidence;
use crate::handlers::grounding::{CryptoGrounding, Evidence, Proof, WireGrounding};
#[allow(unused_imports)]
use crate::handlers::thales::common;
use crate::handlers::thales::common::parse_legacy_key;
#[allow(unused_imports)]
use crate::handlers::thales::reader;
use crate::handlers::thales::reader::FieldReader;
use crate::handlers::{fail, Finish, Handler, Pending, Step, StepView};
use crate::key_map::{KeyDescriptor, KeyMap, KeyTable};
use crate::secret::Secret;
#[allow(unused_imports)]
use crate::text;
use crate::text::{byte_text, lossy, owned, same_text};

verus! {

/// What an MY command asks for.
pub struct MacTranslateFields<T = String> {
    /// The APC name of the algorithm of the MAC that comes in.
    pub in_algo: T,
    pub in_key_id: KeyDescriptor<T>,
    /// The APC name of the algorithm of the MAC that goes out.
    pub out_algo: T,
    pub out_mac_size: usize,
    pub out_key_id: KeyDescriptor<T>,
    /// The message in hexadecimal.
    pub message_hex: T,
    pub inbound_mac: T,
}

impl View for MacTranslateFields<String> {
    type V = MacTranslateFields<Seq<char>>;

    open spec fn view(&self) -> MacTranslateFields<Seq<char>> {
        MacTranslateFields {
            in_algo: self.in_algo@,
            in_key_id: self.in_key_id@,
            out_algo: self.out_algo@,
            out_mac_size: self.out_mac_size,
            out_key_id: self.out_key_id@,
            message_hex: self.message_hex@,
            inbound_mac: self.inbound_mac@,
        }
    }
}

/// The size in bytes of a MAC size digit: `0` whole, `1` half.
pub open spec fn my_size(byte: u8) -> Result<usize, Failure> {
    if byte == '0' as u8 {
        Ok(4)
    } else if byte == '1' as u8 {
        Ok(2)
    } else {
        error::bad("MY: unsupported MAC size byte '"@ + seq![byte as char] + "'"@)
    }
}

/// The algorithm of an algorithm digit.
pub open spec fn my_algorithm(byte: u8) -> Result<Seq<char>, Failure> {
    if byte == '1' as u8 {
        Ok("ISO9797_ALGORITHM1"@)
    } else if byte == '3' as u8 {
        Ok("ISO9797_ALGORITHM3"@)
    } else if byte == '6' as u8 {
        Ok("CMAC"@)
    } else {
        Err(ProxyError::UnsupportedMacMode(seq![byte as char]))
    }
}

/// The failure of the field `name` of `n` bytes at `at`.
pub open spec fn my_short<A>(p: Seq<u8>, name: Seq<char>, n: int, at: int) -> Result<A, Failure> {
    reader::truncated("MY"@, name, n as nat, at as nat, (p.len() - at) as nat)
}

/// One side of an MY command: size, algorithm and key of its MAC.
pub struct MacSide<T = String> {
    pub size: usize,
    pub algo: T,
    pub key_id: KeyDescriptor<T>,
}

impl View for MacSide<String> {
    type V = MacSide<Seq<char>>;

    open spec fn view(&self) -> MacSide<Seq<char>> {
        MacSide { size: self.size, algo: self.algo@, key_id: self.key_id@ }
    }
}

/// One side of an MY payload at `at`, and where it ends: 0 size, 1 algorithm,
/// 2 padding, 3 key type, 6 key. The four names stand in the failures.
#[verifier::opaque]
pub open spec fn my_side(
    p: Seq<u8>,
    at: int,
    size: Seq<char>,
    algo: Seq<char>,
    pad: Seq<char>,
    key_type: Seq<char>,
) -> Result<(MacSide<Seq<char>>, int), Failure> {
    let key = common::legacy_key(p, at + 6);
    if p.len() < at + 1 {
        my_short(p, size, 1, at)
    } else if my_size(p[at]) is Err {
        Err(my_size(p[at])->Err_0)
    } else if p.len() < at + 2 {
        my_short(p, algo, 1, at + 1)
    } else if my_algorithm(p[at + 1]) is Err {
        Err(my_algorithm(p[at + 1])->Err_0)
    } else if p.len() < at + 3 {
        my_short(p, pad, 1, at + 2)
    } else if p.len() < at + 6 {
        my_short(p, key_type, 3, at + 3)
    } else if key is Err {
        Err(key->Err_0)
    } else {
        Ok(
            (
                MacSide {
                    size: my_size(p[at])->Ok_0,
                    algo: my_algorithm(p[at + 1])->Ok_0,
                    key_id: (key->Ok_0).0,
                },
                at + 6 + (key->Ok_0).1,
            ),
        )
    }
}

/// An MY payload: 0 mode (`0` only), 1 input format (`1` only), 2 the side that
/// comes in; then the side that goes out, the message length in bytes (four
/// hexadecimal digits), the message in hexadecimal, and the MAC that comes in.
pub open spec fn my_fields(p: Seq<u8>) -> Result<MacTranslateFields<Seq<char>>, Failure> {
    let inward = my_side(
        p,
        2,
        "in MAC size"@,
        "in MAC algo"@,
        "in pad method"@,
        "in key type"@,
    );
    let outward = my_side(
        p,
        (inward->Ok_0).1,
        "out MAC size"@,
        "out MAC algo"@,
        "out pad method"@,
        "out key type"@,
    );
    let b = (outward->Ok_0).1;
    let len_bytes = p.subrange(b, b + 4);
    let len_text = decode_utf8(len_bytes);
    let len = text::word(len_text, 16);
    let c = b + 4 + 2 * len->0;
    let in_side = (inward->Ok_0).0;
    let out_side = (outward->Ok_0).0;
    if p.len() < 1 {
        my_short(p, "mode"@, 1, 0)
    } else if p[0] != '0' as u8 {
        Err(
            ProxyError::UnsupportedMacMode(
                "MY: mode '"@ + seq![p[0] as char]
                    + "' (continuation) not supported; APC is stateless — use mode '0' (complete message) only"@,
            ),
        )
    } else if p.len() < 2 {
        my_short(p, "input format"@, 1, 1)
    } else if p[1] != '1' as u8 {
        error::bad(
            "MY: input format '"@ + seq![p[1] as char]
                + "' not supported; only format '1' (hex-encoded) is accepted"@,
        )
    } else if inward is Err {
        Err(inward->Err_0)
    } else if outward is Err {
        Err(outward->Err_0)
    } else if p.len() < b + 4 {
        my_short(p, "message"@, 4, b)
    } else if !valid_utf8(len_bytes) {
        error::bad("MY"@ + ": "@ + "message"@ + " length not ASCII"@)
    } else if len is None {
        error::bad("MY"@ + ": invalid "@ + "message"@ + " length '"@ + len_text + "'"@)
    } else if p.len() < c {
        my_short(p, "message"@, 2 * len->0, b + 4)
    } else if p.len() < c + 2 * in_side.size {
        my_short(p, "inbound MAC"@, 2 * in_side.size, c)
    } else {
        Ok(
            MacTranslateFields {
                in_algo: in_side.algo,
                in_key_id: in_side.key_id,
                out_algo: out_side.algo,
                out_mac_size: out_side.size,
                out_key_id: out_side.key_id,
                message_hex: common::text_at(p, b + 4, 2 * len->0),
                inbound_mac: common::text_at(p, c, 2 * in_side.size),
            },
        )
    }
}

fn mac_size_from_byte(byte: u8) -> (r: Result<usize, ProxyError>)
    ensures
        match r {
            Ok(n) => my_size(byte) == Ok::<usize, Failure>(n),
            Err(e) => my_size(byte) == Err::<usize, Failure>(e@),
        },
{
    if byte == '0' as u8 {
        Ok(4)
    } else if byte == '1' as u8 {
        Ok(2)
    } else {
        Err(
            ProxyError::MalformedPayload(
                owned("MY: unsupported MAC size byte '").concat(byte_text(byte).as_str()).concat(
                    "'",
                ),
            ),
        )
    }
}

fn algo_from_byte(byte: u8) -> (r: Result<String, ProxyError>)
    ensures
        error::outcome(r) == my_algorithm(byte),
{
    if byte == '1' as u8 {
        Ok(owned("ISO9797_ALGORITHM1"))
    } else if byte == '3' as u8 {
        Ok(owned("ISO9797_ALGORITHM3"))
    } else if byte == '6' as u8 {
        Ok(owned("CMAC"))
    } else {
        Err(ProxyError::UnsupportedMacMode(byte_text(byte)))
    }
}

fn parse_side(
    r: &mut FieldReader,
    size: &'static str,
    algo: &'static str,
    pad: &'static str,
    key_type: &'static str,
) -> (side: Result<MacSide, ProxyError>)
    requires
        old(r)@.pos <= old(r)@.buf.len(),
        old(r)@.ctx == "MY"@,
    ensures
        side is Ok ==> final(r)@.pos <= old(r)@.buf.len(),
        match (side, my_side(old(r)@.buf, old(r)@.pos, size@, algo@, pad@, key_type@)) {
            (Ok(s), Ok((v, end))) => s@ == v && s.size <= 4 && final(r)@ == (reader::Cursor {
                buf: old(r)@.buf,
                pos: end,
                ctx: old(r)@.ctx,
            }),
            (Err(e), Err(f)) => e@ == f,
            _ => false,
        },
{
    proof {
        reveal(my_side);
    }
    assert(r.source().len() == r.source()@.len());
    let mac_size: usize = mac_size_from_byte(r.byte(size)?)?;
    let algorithm: String = algo_from_byte(r.byte(algo)?)?;
    r.byte(pad)?;
    r.take(3, key_type)?;
    let key_id: KeyDescriptor = r.parse_with(parse_legacy_key)?;
    Ok(MacSide { size: mac_size, algo: algorithm, key_id })
}

/// Parse the payload of MY.
pub fn parse_my(payload: &[u8]) -> (r: Result<MacTranslateFields, ProxyError>)
    ensures
        error::outcome(r) == my_fields(payload@),
        r is Ok ==> r->Ok_0.out_mac_size <= 4,
{
    let mut r = FieldReader::new(payload, "MY");
    let mode: u8 = r.byte("mode")?;
    if mode != '0' as u8 {
        return Err(
            ProxyError::UnsupportedMacMode(
                owned("MY: mode '").concat(byte_text(mode).as_str()).concat(
                    "' (continuation) not supported; APC is stateless — use mode '0' (complete message) only",
                ),
            ),
        );
    }
    let infmt: u8 = r.byte("input format")?;
    if infmt != '1' as u8 {
        return Err(
            ProxyError::MalformedPayload(
                owned("MY: input format '").concat(byte_text(infmt).as_str()).concat(
                    "' not supported; only format '1' (hex-encoded) is accepted",
                ),
            ),
        );
    }
    let inward: MacSide = parse_side(
        &mut r,
        "in MAC size",
        "in MAC algo",
        "in pad method",
        "in key type",
    )?;
    let outward: MacSide = parse_side(
        &mut r,
        "out MAC size",
        "out MAC algo",
        "out pad method",
        "out key type",
    )?;
    let message_hex: String = lossy(r.take_ascii_len_hex(4, 16, "message")?);
    let inbound_mac: String = lossy(r.take(inward.size * 2, "inbound MAC")?);
    Ok(
        MacTranslateFields {
            in_algo: inward.algo,
            in_key_id: inward.key_id,
            out_algo: outward.algo,
            out_mac_size: outward.size,
            out_key_id: outward.key_id,
            message_hex,
            inbound_mac,
        },
    )
}

/// The MAC algorithm with the APC name `name`, among those that MY knows.
pub open spec fn my_apc_algorithm(name: Seq<char>) -> Option<MacAlgorithm> {
    if name == "ISO9797_ALGORITHM1"@ {
        Some(MacAlgorithm::Iso9797Algorithm1)
    } else if name == "ISO9797_ALGORITHM3"@ {
        Some(MacAlgorithm::Iso9797Algorithm3)
    } else if name == "CMAC"@ {
        Some(MacAlgorithm::Cmac)
    } else {
        None
    }
}

fn apc_algorithm_of(name: &str) -> (r: Option<MacAlgorithm>)
    ensures
        r == my_apc_algorithm(name@),
{
    if same_text(name, "ISO9797_ALGORITHM1") {
        Some(MacAlgorithm::Iso9797Algorithm1)
    } else if same_text(name, "ISO9797_ALGORITHM3") {
        Some(MacAlgorithm::Iso9797Algorithm3)
    } else if same_text(name, "CMAC") {
        Some(MacAlgorithm::Cmac)
    } else {
        None
    }
}

/// What MY fields lead to. APC verifies only a whole MAC; so a half one is
/// verified by generating the MAC again and comparing its leading digits. Once
/// the MAC is accepted, the other is generated and cut to its size.
pub open spec fn my_call(
    f: MacTranslateFields<Seq<char>>,
    in_algorithm: MacAlgorithm,
    out_algorithm: MacAlgorithm,
    in_arn: Seq<char>,
    out_arn: Seq<char>,
) -> StepView {
    let next = ApcCall::GenerateMac {
        key: out_arn,
        message: f.message_hex,
        scheme: MacScheme::Algorithm(out_algorithm),
        mac_length: None,
    };
    let finish = Finish::Mac { chars: (2 * f.out_mac_size) as usize };
    if encode_utf8(f.inbound_mac).len() < 8 {
        Step::Call {
            call: ApcCall::GenerateMac {
                key: in_arn,
                message: f.message_hex,
                scheme: MacScheme::Algorithm(in_algorithm),
                mac_length: None,
            },
            then: Pending::IfMacPrefix { mac: f.inbound_mac, next, finish },
        }
    } else {
        Step::Call {
            call: ApcCall::VerifyMac {
                key: in_arn,
                message: f.message_hex,
                mac: f.inbound_mac,
                scheme: MacScheme::Algorithm(in_algorithm),
            },
            then: Pending::IfAccepted { next, finish },
        }
    }
}

/// What an MY command leads to.
pub open spec fn my_step(p: Seq<u8>, keys: KeyTable) -> StepView {
    match my_fields(p) {
        Err(e) => handlers::failed(e),
        Ok(f) => match keys.resolved_field(f.in_key_id) {
            Err(e) => handlers::failed(e),
            Ok(in_arn) => match keys.resolved_field(f.out_key_id) {
                Err(e) => handlers::failed(e),
                Ok(out_arn) => match (my_apc_algorithm(f.in_algo), my_apc_algorithm(f.out_algo)) {
                    (None, _) => handlers::failed(ProxyError::UnsupportedMacMode(f.in_algo)),
                    (_, None) => handlers::failed(ProxyError::UnsupportedMacMode(f.out_algo)),
                    (Some(i), Some(o)) => my_call(f, i, o, in_arn, out_arn),
                },
            },
        },
    }
}

/// payShield MY: verify a MAC under one key, and generate a MAC of the same message
/// under another.
pub struct MacTranslateHandler;

impl Handler for MacTranslateHandler {
    open spec fn codes(&self) -> Seq<Seq<char>> {
        seq!["MY"@]
    }

    open spec fn step(&self, command_code: Seq<u8>, payload: Seq<u8>, keys: KeyTable) -> StepView {
        my_step(payload, keys)
    }

    open spec fn evidence(&self) -> Seq<Evidence> {
        seq![
            Evidence {
                decision: evidence::MAC_TRANSLATE_1_DECISION,
                because: evidence::MAC_TRANSLATE_1_BECAUSE,
                wire: WireGrounding::DiffXprov,
                crypto: CryptoGrounding::Apc,
                proof: Proof::LiveTest(evidence::MAC_TRANSLATE_1_PROOF),
            },
            Evidence {
                decision: evidence::MAC_TRANSLATE_2_DECISION,
                because: evidence::MAC_TRANSLATE_2_BECAUSE,
                wire: WireGrounding::Cited,
                crypto: CryptoGrounding::Ungrounded,
                proof: Proof::ManualCite(evidence::MAC_TRANSLATE_2_PROOF),
            },
        ]
    }

    fn command_codes(&self) -> Vec<&'static str> {
        let r: Vec<&'static str> = vec!["MY"];
        assert(text::texts(r@) =~= self.codes());
        r
    }

    fn start(&self, command_code: &[u8], payload: &[u8], keys: &KeyMap) -> Step {
        let fields: MacTranslateFields = match parse_my(payload) {
            Ok(f) => f,
            Err(e) => {
                return fail(&e);
            },
        };
        let in_key: String = match keys.resolve_descriptor(&fields.in_key_id) {
            Ok(a) => owned(a),
            Err(e) => {
                return fail(&e);
            },
        };
        let out_key: String = match keys.resolve_descriptor(&fields.out_key_id) {
            Ok(a) => owned(a),
            Err(e) => {
                return fail(&e);
            },
        };
        let in_algorithm: MacAlgorithm = match apc_algorithm_of(fields.in_algo.as_str()) {
            Some(a) => a,
            None => {
                return fail(&ProxyError::UnsupportedMacMode(fields.in_algo));
            },
        };
        let out_algorithm: MacAlgorithm = match apc_algorithm_of(fields.out_algo.as_str()) {
            Some(a) => a,
            None => {
                return fail(&ProxyError::UnsupportedMacMode(fields.out_algo));
            },
        };
        let message: Secret = Secret::new(fields.message_hex);
        let next = ApcCall::GenerateMac {
            key: out_key,
            message: message.duplicate(),
            scheme: MacScheme::Algorithm(out_algorithm),
            mac_length: None,
        };
        let finish = Finish::Mac { chars: 2 * fields.out_mac_size };
        let mac: String = fields.inbound_mac;
        let scheme: MacScheme = MacScheme::Algorithm(in_algorithm);
        if mac.as_str().as_bytes().len() < 8 {
            Step::Call {
                call: ApcCall::GenerateMac { key: in_key, message, scheme, mac_length: None },
                then: Pending::IfMacPrefix { mac, next, finish },
            }
        } else {
            Step::Call {
                call: ApcCall::VerifyMac { key: in_key, message, mac, scheme },
                then: Pending::IfAccepted { next, finish },
            }
        }
    }

    fn grounding(&self) -> Vec<Evidence> {
        let r: Vec<Evidence> = vec![
            Evidence {
                decision: evidence::MAC_TRANSLATE_1_DECISION,
                because: evidence::MAC_TRANSLATE_1_BECAUSE,
                wire: WireGrounding::DiffXprov,
                crypto: CryptoGrounding::Apc,
                proof: Proof::LiveTest(evidence::MAC_TRANSLATE_1_PROOF),
            },
            Evidence {
                decision: evidence::MAC_TRANSLATE_2_DECISION,
                because: evidence::MAC_TRANSLATE_2_BECAUSE,
                wire: WireGrounding::Cited,
                crypto: CryptoGrounding::Ungrounded,
                proof: Proof::ManualCite(evidence::MAC_TRANSLATE_2_PROOF),
            },
        ];
        assert(r@ =~= self.evidence());
        r
    }
}

/// A MAC translation verifies first: the MAC under the outgoing key is generated
/// only once the MAC that came in has been accepted under the incoming key, by APC
/// or by its leading digits. What is refused is answered without a payload.
pub proof fn a_mac_translation_verifies_first(p: Seq<u8>, keys: KeyTable, reply: ReplyView)
    ensures
        match my_step(p, keys) {
            Step::Done(r) => r.payload.len() == 0,
            Step::Call { call, then } => {
                let f = my_fields(p)->Ok_0;
                let wanted = encode_utf8(f.inbound_mac);
                &&& match call {
                    ApcCall::VerifyMac { key, message, mac, .. } => keys.resolved_field(f.in_key_id)
                        == Ok::<_, Failure>(key) && message == f.message_hex && mac
                        == f.inbound_mac,
                    ApcCall::GenerateMac { key, message, .. } => keys.resolved_field(f.in_key_id)
                        == Ok::<_, Failure>(key) && message == f.message_hex,
                    _ => false,
                }
                &&& match handlers::resumed(then, reply) {
                    Step::Done(r) => r.payload.len() == 0 && r.error_code != text::ascii_2(
                        '0',
                        '0',
                    ),
                    Step::Call { call: next, .. } => {
                        &&& next matches ApcCall::GenerateMac { key, message, .. }
                        &&& keys.resolved_field(f.out_key_id) == Ok::<_, Failure>(key)
                        &&& message == f.message_hex
                        &&& match reply {
                            ApcReply::Accepted => call is VerifyMac,
                            ApcReply::Mac(m) => call is GenerateMac && text::same_ignoring_case(
                                wanted,
                                handlers::lead(m, wanted.len() as int),
                            ),
                            _ => false,
                        }
                    },
                }
            },
        },
{
    broadcast use handlers::failures_are_quiet;

    let (bad, good) = (text::ascii_2('4', '1'), text::ascii_2('0', '0'));
    assert(bad[0] != good[0]);
}

/// The size digit of one side of an MY command and how many characters its MAC has.
pub open spec fn mac_digits(size: u8) -> nat {
    if size == '0' as u8 {
        8
    } else {
        4
    }
}

/// An algorithm digit and the algorithm that it stands for: `1` ISO 9797 algorithm 1, `3`
/// algorithm 3, `6` CMAC.
pub open spec fn digit_is(digit: u8, algorithm: MacAlgorithm) -> bool {
    ||| digit == '1' as u8 && algorithm == MacAlgorithm::Iso9797Algorithm1
    ||| digit == '3' as u8 && algorithm == MacAlgorithm::Iso9797Algorithm3
    ||| digit == '6' as u8 && algorithm == MacAlgorithm::Cmac
}

/// An MY payload is forwarded field by field. A whole MAC that comes in is verified over the
/// message under the first key, a half one by generating the MAC again and comparing its
/// leading characters, in either case; once it is accepted, a MAC of the same message is
/// generated under the second key, and as many characters of it are answered as its size
/// digit says. Each side goes by its own algorithm digit.
#[verifier::rlimit(30)]
pub proof fn a_mac_is_translated_field_by_field(
    flags: Seq<u8>,
    in_type: Seq<u8>,
    k: Seq<u8>,
    out_flags: Seq<u8>,
    out_type: Seq<u8>,
    k2: Seq<u8>,
    length: Seq<u8>,
    data: Seq<u8>,
    mac: Seq<char>,
    more: Seq<u8>,
    keys: KeyTable,
    arn: Seq<char>,
    arn2: Seq<char>,
    in_algorithm: MacAlgorithm,
    out_algorithm: MacAlgorithm,
    again: Seq<char>,
    out: Seq<char>,
)
    requires
        flags.len() == 3,
        flags[0] == '0' as u8 || flags[0] == '1' as u8,
        digit_is(flags[1], in_algorithm),
        in_type.len() == 3,
        common::legacy_key_is(keys, k, arn),
        out_flags.len() == 3,
        out_flags[0] == '0' as u8 || out_flags[0] == '1' as u8,
        digit_is(out_flags[1], out_algorithm),
        out_type.len() == 3,
        common::legacy_key_is(keys, k2, arn2),
        length.len() == 4,
        valid_utf8(length),
        text::word(decode_utf8(length), 16) == Some(data.len() as int / 2),
        data.len() % 2 == 0,
        is_ascii_chars(mac),
        mac.len() == mac_digits(flags[0]),
        encode_utf8(again).len() >= 4,
        encode_utf8(out).len() >= 8,
    ensures
        ({
            let p = seq!['0' as u8, '1' as u8] + (flags + in_type + k) + (out_flags + out_type + k2)
                + length + data + encode_utf8(mac) + more;
            let message = text::lossy_text(data);
            let second: CallView = ApcCall::GenerateMac {
                key: arn2,
                message,
                scheme: MacScheme::Algorithm(out_algorithm),
                mac_length: None,
            };
            &&& MacTranslateHandler.step(text::ascii_2('M', 'Y'), p, keys) matches Step::Call {
                call,
                then,
            }
            &&& flags[0] == '0' as u8 ==> {
                &&& call == (ApcCall::VerifyMac {
                    key: arn,
                    message,
                    mac,
                    scheme: MacScheme::Algorithm(in_algorithm),
                })
                &&& handlers::resumed(then, ApcReply::VerificationFailed) == StepView::Done(
                    handlers::refused(text::ascii_2('0', '1')),
                )
                &&& handlers::resumed(then, ApcReply::Accepted) matches Step::Call {
                    call: next,
                    then: last,
                }
                &&& next == second
                &&& handlers::resumed(last, ApcReply::Mac(out)) == StepView::Done(
                    handlers::answered(encode_utf8(out).take(mac_digits(out_flags[0]) as int)),
                )
            }
            &&& flags[0] == '1' as u8 ==> {
                let same = text::same_ignoring_case(encode_utf8(mac), encode_utf8(again).take(4));
                &&& call == (ApcCall::GenerateMac {
                    key: arn,
                    message,
                    scheme: MacScheme::Algorithm(in_algorithm),
                    mac_length: None,
                })
                &&& !same ==> handlers::resumed(then, ApcReply::Mac(again)) == StepView::Done(
                    handlers::refused(text::ascii_2('0', '1')),
                )
                &&& same ==> {
                    &&& handlers::resumed(then, ApcReply::Mac(again)) matches Step::Call {
                        call: next,
                        then: last,
                    }
                    &&& next == second
                    &&& handlers::resumed(last, ApcReply::Mac(out)) == StepView::Done(
                        handlers::answered(encode_utf8(out).take(mac_digits(out_flags[0]) as int)),
                    )
                }
            }
        }),
{
    let wire = encode_utf8(mac);
    is_ascii_chars_encode_utf8(mac);
    encode_utf8_valid_utf8(mac);
    encode_utf8_decode_utf8(mac);
    lemma_payload_is_read(
        flags,
        in_type,
        k,
        out_flags,
        out_type,
        k2,
        length,
        data,
        wire,
        more,
    );
    lemma_my_names_differ();
}

proof fn lemma_payload_is_read(
    flags: Seq<u8>,
    in_type: Seq<u8>,
    k: Seq<u8>,
    out_flags: Seq<u8>,
    out_type: Seq<u8>,
    k2: Seq<u8>,
    length: Seq<u8>,
    data: Seq<u8>,
    wire: Seq<u8>,
    more: Seq<u8>,
)
    requires
        flags.len() == 3,
        flags[0] == '0' as u8 || flags[0] == '1' as u8,
        flags[1] == '1' as u8 || flags[1] == '3' as u8 || flags[1] == '6' as u8,
        in_type.len() == 3,
        common::is_legacy_key(k),
        out_flags.len() == 3,
        out_flags[0] == '0' as u8 || out_flags[0] == '1' as u8,
        out_flags[1] == '1' as u8 || out_flags[1] == '3' as u8 || out_flags[1] == '6' as u8,
        out_type.len() == 3,
        common::is_legacy_key(k2),
        length.len() == 4,
        valid_utf8(length),
        text::word(decode_utf8(length), 16) == Some(data.len() as int / 2),
        data.len() % 2 == 0,
        wire.len() == mac_digits(flags[0]),
    ensures
        my_fields(
            seq!['0' as u8, '1' as u8] + (flags + in_type + k) + (out_flags + out_type + k2)
                + length + data + wire + more,
        ) == Ok::<_, Failure>(
            MacTranslateFields {
                in_algo: my_algorithm(flags[1])->Ok_0,
                in_key_id: (common::legacy_key(k, 0)->Ok_0).0,
                out_algo: my_algorithm(out_flags[1])->Ok_0,
                out_mac_size: if out_flags[0] == '0' as u8 {
                    4usize
                } else {
                    2
                },
                out_key_id: (common::legacy_key(k2, 0)->Ok_0).0,
                message_hex: text::lossy_text(data),
                inbound_mac: text::lossy_text(wire),
            },
        ),
{
    let head = seq!['0' as u8, '1' as u8];
    let inward = flags + in_type + k;
    let outward = out_flags + out_type + k2;
    let tail = length + data + wire + more;
    let p = head + inward + outward + length + data + wire + more;
    assert(p =~= (head + inward) + outward + tail);
    assert(p =~= head + inward + (outward + tail));
    lemma_side_is_read(
        head,
        flags,
        in_type,
        k,
        outward + tail,
        "in MAC size"@,
        "in MAC algo"@,
        "in pad method"@,
        "in key type"@,
    );
    lemma_side_is_read(
        head + inward,
        out_flags,
        out_type,
        k2,
        tail,
        "out MAC size"@,
        "out MAC algo"@,
        "out pad method"@,
        "out key type"@,
    );
    lemma_tail_is_read(head + inward + outward, length, data, wire, more);
    assert(p[0] == '0' as u8 && p[1] == '1' as u8);
}

proof fn lemma_tail_is_read(
    front: Seq<u8>,
    length: Seq<u8>,
    data: Seq<u8>,
    wire: Seq<u8>,
    more: Seq<u8>,
)
    requires
        length.len() == 4,
    ensures
        ({
            let p = front + length + data + wire + more;
            let b = front.len() as int;
            let c = b + 4 + data.len();
            &&& p.len() == c + wire.len() + more.len()
            &&& p.subrange(b, b + 4) == length
            &&& p.subrange(b + 4, c) == data
            &&& p.subrange(c, c + wire.len()) == wire
        }),
{
}

proof fn lemma_side_is_read(
    before: Seq<u8>,
    flags: Seq<u8>,
    key_type: Seq<u8>,
    k: Seq<u8>,
    behind: Seq<u8>,
    size: Seq<char>,
    algo: Seq<char>,
    pad: Seq<char>,
    key_name: Seq<char>,
)
    requires
        flags.len() == 3,
        flags[0] == '0' as u8 || flags[0] == '1' as u8,
        flags[1] == '1' as u8 || flags[1] == '3' as u8 || flags[1] == '6' as u8,
        key_type.len() == 3,
        common::is_legacy_key(k),
    ensures
        my_side(
            before + (flags + key_type + k) + behind,
            before.len() as int,
            size,
            algo,
            pad,
            key_name,
        ) == Ok::<_, Failure>(
            (
                MacSide {
                    size: if flags[0] == '0' as u8 {
                        4usize
                    } else {
                        2
                    },
                    algo: my_algorithm(flags[1])->Ok_0,
                    key_id: (common::legacy_key(k, 0)->Ok_0).0,
                },
                before.len() + 6 + k.len() as int,
            ),
        ),
{
    reveal(my_side);
    let p = before + (flags + key_type + k) + behind;
    let head = before + flags + key_type;
    assert(p =~= head + k + behind);
    common::key_fields_are_read_in_place(head, k, behind);
    common::key_fields_lie_within(k, 0);
    assert(p[before.len() as int] == flags[0] && p[before.len() as int + 1] == flags[1]);
}

proof fn lemma_my_names_differ()
    ensures
        "ISO9797_ALGORITHM1"@ != "ISO9797_ALGORITHM3"@,
        "ISO9797_ALGORITHM1"@ != "CMAC"@,
        "ISO9797_ALGORITHM3"@ != "CMAC"@,
{
    reveal_strlit("ISO9797_ALGORITHM1");
    reveal_strlit("ISO9797_ALGORITHM3");
    reveal_strlit("CMAC");
    assert("ISO9797_ALGORITHM1"@[17] == '1' && "ISO9797_ALGORITHM3"@[17] == '3');
    assert("CMAC"@.len() == 4);
}

/// An MY command leads to a call only for a complete hexadecimal message. What is not so is
/// answered with code `15`, and a key that is not found with `10`.
pub proof fn only_complete_messages_lead_to_a_call(p: Seq<u8>, keys: KeyTable)
    ensures
        match MacTranslateHandler.step(text::ascii_2('M', 'Y'), p, keys) {
            Step::Call { .. } => {
                &&& p[0] == '0' as u8
                &&& p[1] == '1' as u8
                &&& p[2] == '0' as u8 || p[2] == '1' as u8
                &&& p[3] == '1' as u8 || p[3] == '3' as u8 || p[3] == '6' as u8
                &&& common::legacy_key(p, 8) is Ok
            },
            Step::Done(r) => r.payload.len() == 0 && (r.error_code == text::ascii_2('1', '0')
                || r.error_code == text::ascii_2('1', '5')),
        },
{
    reveal(my_side);
    let a = 8 + (common::legacy_key(p, 8)->Ok_0).1;
    common::unreadable_fields_are_answered_15(p, 8);
    common::unreadable_fields_are_answered_15(p, a + 6);
}

} // verus!
