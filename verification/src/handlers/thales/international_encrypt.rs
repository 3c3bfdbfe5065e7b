//! M0, M2, M4: encrypt, decrypt and translate a block of data.

use vstd::prelude::*;
use vstd::string::*;
#[allow(unused_imports)]
use vstd::utf8::{
    decode_utf8, encode_utf8, encode_utf8_decode_utf8, encode_utf8_valid_utf8, is_ascii_chars,
    is_ascii_chars_encode_utf8, valid_utf8,
};

use crate::apc::{ApcCall, Cipher};
#[allow(unused_imports)]
use crate::apc::{ApcReply, ReplyView};
#[allow(unused_imports)]
use crate::error;
use crate::error::{Failure, ProxyError};
#[allow(unused_imports)]
use crate::handlers;
use crate::handlers::evidence;
use crate::handlers::grounding::{CryptoGrounding, Evidence, Proof, WireGrounding};
#[allow(unused_imports)]
use crate::handlers::thales::common;
use crate::handlers::thales::common::{field_text, malformed, parse_legacy_key};
use crate::handlers::{disable, fail, Finish, Handler, Pending, Step, StepView};
use crate::key_map::{KeyDescriptor, KeyMap, KeyTable};
use crate::secret::Secret;
#[allow(unused_imports)]
use crate::text;
use crate::text::{byte_text, decimal_text, fits, is_ascii_2, lossy, owned, utf8, word_of};

verus! {

/// What M0 and M2 ask for.
pub struct BlockFields<T = String, S = Secret> {
    pub key_id: KeyDescriptor<T>,
    /// The data in hexadecimal.
    pub data: S,
}

impl View for BlockFields<String, Secret> {
    type V = BlockFields<Seq<char>, Seq<char>>;

    open spec fn view(&self) -> BlockFields<Seq<char>, Seq<char>> {
        BlockFields { key_id: self.key_id@, data: self.data@ }
    }
}

/// What M4 asks for.
pub struct TranslateFields<T = String, S = Secret> {
    pub source_key: KeyDescriptor<T>,
    pub dest_key: KeyDescriptor<T>,
    /// The cipher text under the source key, in hexadecimal.
    pub cipher_text: S,
}

impl View for TranslateFields<String, Secret> {
    type V = TranslateFields<Seq<char>, Seq<char>>;

    open spec fn view(&self) -> TranslateFields<Seq<char>, Seq<char>> {
        TranslateFields {
            source_key: self.source_key@,
            dest_key: self.dest_key@,
            cipher_text: self.cipher_text@,
        }
    }
}

/// An M0 or M2 payload: 0 mode (`00`, ECB, only), 2 input format (`1`,
/// hexadecimal, only), 3 output format, 4 key type, 7 key; then the length in bytes
/// (four hexadecimal digits) and the data in hexadecimal.
pub open spec fn block_fields(p: Seq<u8>) -> Result<BlockFields<Seq<char>, Seq<char>>, Failure> {
    let key = common::legacy_key(p, 7);
    let a = 7 + (key->Ok_0).1;
    let len_bytes = p.subrange(a, a + 4);
    let len_text = decode_utf8(len_bytes);
    let len = text::word(len_text, 16);
    if p.len() < 2 {
        error::bad("M0/M2: mode flag missing"@)
    } else if p.subrange(0, 2) != text::ascii_2('0', '0') {
        error::bad(
            "M0/M2: mode '"@ + text::lossy_text(p.subrange(0, 2))
                + "' not supported (ECB '00' only)"@,
        )
    } else if p.len() < 3 {
        error::bad("M0/M2: input format flag missing"@)
    } else if p[2] != '1' as u8 {
        error::bad(
            "M0/M2: input format '"@ + seq![p[2] as char] + "' not supported (hex '1' only)"@,
        )
    } else if p.len() < 4 {
        error::bad("M0/M2: output format flag missing"@)
    } else if p.len() < 7 {
        error::bad("M0/M2: key type field missing"@)
    } else if key is Err {
        Err(key->Err_0)
    } else if p.len() < a + 4 {
        error::bad("M0/M2: message length field missing"@)
    } else if !valid_utf8(len_bytes) {
        error::bad("M0/M2: message length not ASCII"@)
    } else if len is None {
        error::bad("M0/M2: invalid message length '"@ + len_text + "'"@)
    } else if p.len() < a + 4 + 2 * len->0 {
        error::bad(
            "M0/M2: message too short: need "@ + text::decimal((2 * len->0) as nat)
                + " hex chars, got "@ + text::decimal((p.len() - a - 4) as nat),
        )
    } else {
        Ok(
            BlockFields {
                key_id: (key->Ok_0).0,
                data: common::text_at(p, a + 4, 2 * len->0),
            },
        )
    }
}

/// Parse the payload of M0 and M2.
pub fn parse_m0_fields(payload: &[u8]) -> (r: Result<BlockFields, ProxyError>)
    ensures
        error::outcome(r) == block_fields(payload@),
{
    if payload.len() < 2 {
        return Err(malformed("M0/M2: mode flag missing"));
    }
    if !is_ascii_2(&payload[0..2], '0', '0') {
        return Err(
            ProxyError::MalformedPayload(
                owned("M0/M2: mode '").concat(lossy(&payload[0..2]).as_str()).concat(
                    "' not supported (ECB '00' only)",
                ),
            ),
        );
    }
    if payload.len() < 3 {
        return Err(malformed("M0/M2: input format flag missing"));
    }
    if payload[2] != '1' as u8 {
        return Err(
            ProxyError::MalformedPayload(
                owned("M0/M2: input format '").concat(byte_text(payload[2]).as_str()).concat(
                    "' not supported (hex '1' only)",
                ),
            ),
        );
    }
    if payload.len() < 4 {
        return Err(malformed("M0/M2: output format flag missing"));
    }
    if payload.len() < 7 {
        return Err(malformed("M0/M2: key type field missing"));
    }
    let (key_id, key_consumed) = parse_legacy_key(payload, 7)?;
    let a: usize = 7 + key_consumed;
    if !fits(payload, a, 4) {
        return Err(malformed("M0/M2: message length field missing"));
    }
    let len_text: String = match utf8(&payload[a..a + 4]) {
        Some(t) => t,
        None => {
            return Err(malformed("M0/M2: message length not ASCII"));
        },
    };
    let len: usize = match word_of(len_text.as_str(), 16) {
        Some(n) => n,
        None => {
            return Err(
                ProxyError::MalformedPayload(
                    owned("M0/M2: invalid message length '").concat(len_text.as_str()).concat("'"),
                ),
            );
        },
    };
    let start: usize = a + 4;
    if len > (payload.len() - start) / 2 {
        return Err(
            ProxyError::MalformedPayload(
                owned("M0/M2: message too short: need ").concat(
                    decimal_text(2 * len as u128).as_str(),
                ).concat(" hex chars, got ").concat(
                    decimal_text((payload.len() - start) as u128).as_str(),
                ),
            ),
        );
    }
    Ok(BlockFields { key_id, data: Secret::new(field_text(payload, start, 2 * len)) })
}

/// An M4 payload: 0 source mode and 2 destination mode (`00`, ECB, only), 4 input
/// format (`1`, hexadecimal, only), 5 output format, 6 source key type, 9 source
/// key; then destination key type (three bytes), destination key, the length in
/// bytes (four hexadecimal digits) and the cipher text in hexadecimal.
pub open spec fn m4_fields(p: Seq<u8>) -> Result<TranslateFields<Seq<char>, Seq<char>>, Failure> {
    let source = common::legacy_key(p, 9);
    let b = 9 + (source->Ok_0).1 + 3;
    let dest = common::legacy_key(p, b);
    let a = b + (dest->Ok_0).1;
    let len_bytes = p.subrange(a, a + 4);
    let len_text = decode_utf8(len_bytes);
    let len = text::word(len_text, 16);
    if p.len() < 2 {
        error::bad("M4: source mode flag missing"@)
    } else if p.subrange(0, 2) != text::ascii_2('0', '0') {
        error::bad("M4: source mode not ECB ('00')"@)
    } else if p.len() < 4 {
        error::bad("M4: dest mode flag missing"@)
    } else if p.subrange(2, 4) != text::ascii_2('0', '0') {
        error::bad("M4: dest mode not ECB ('00')"@)
    } else if p.len() < 5 {
        error::bad("M4: input format flag missing"@)
    } else if p[4] != '1' as u8 {
        error::bad("M4: only hex input format '1' supported"@)
    } else if p.len() < 6 {
        error::bad("M4: output format flag missing"@)
    } else if p.len() < 9 {
        error::bad("M4: source key type missing"@)
    } else if source is Err {
        Err(source->Err_0)
    } else if p.len() < b {
        error::bad("M4: dest key type missing"@)
    } else if dest is Err {
        Err(dest->Err_0)
    } else if p.len() < a + 4 {
        error::bad("M4: message length field missing"@)
    } else if !valid_utf8(len_bytes) {
        error::bad("M4: message length not ASCII"@)
    } else if len is None {
        error::bad("M4: invalid message length '"@ + len_text + "'"@)
    } else if p.len() < a + 4 + 2 * len->0 {
        error::bad(
            "M4: message too short: need "@ + text::decimal((2 * len->0) as nat)
                + " hex chars"@,
        )
    } else {
        Ok(
            TranslateFields {
                source_key: (source->Ok_0).0,
                dest_key: (dest->Ok_0).0,
                cipher_text: common::text_at(p, a + 4, 2 * len->0),
            },
        )
    }
}

/// Parse the payload of M4.
pub fn parse_m4(payload: &[u8]) -> (r: Result<TranslateFields, ProxyError>)
    ensures
        error::outcome(r) == m4_fields(payload@),
{
    if payload.len() < 2 {
        return Err(malformed("M4: source mode flag missing"));
    }
    if !is_ascii_2(&payload[0..2], '0', '0') {
        return Err(malformed("M4: source mode not ECB ('00')"));
    }
    if payload.len() < 4 {
        return Err(malformed("M4: dest mode flag missing"));
    }
    if !is_ascii_2(&payload[2..4], '0', '0') {
        return Err(malformed("M4: dest mode not ECB ('00')"));
    }
    if payload.len() < 5 {
        return Err(malformed("M4: input format flag missing"));
    }
    if payload[4] != '1' as u8 {
        return Err(malformed("M4: only hex input format '1' supported"));
    }
    if payload.len() < 6 {
        return Err(malformed("M4: output format flag missing"));
    }
    if payload.len() < 9 {
        return Err(malformed("M4: source key type missing"));
    }
    let (source_key, source_consumed) = parse_legacy_key(payload, 9)?;
    let c: usize = 9 + source_consumed;
    if !fits(payload, c, 3) {
        return Err(malformed("M4: dest key type missing"));
    }
    let (dest_key, dest_consumed) = parse_legacy_key(payload, c + 3)?;
    let a: usize = c + 3 + dest_consumed;
    if !fits(payload, a, 4) {
        return Err(malformed("M4: message length field missing"));
    }
    let len_text: String = match utf8(&payload[a..a + 4]) {
        Some(t) => t,
        None => {
            return Err(malformed("M4: message length not ASCII"));
        },
    };
    let len: usize = match word_of(len_text.as_str(), 16) {
        Some(n) => n,
        None => {
            return Err(
                ProxyError::MalformedPayload(
                    owned("M4: invalid message length '").concat(len_text.as_str()).concat("'"),
                ),
            );
        },
    };
    let start: usize = a + 4;
    if len > (payload.len() - start) / 2 {
        return Err(
            ProxyError::MalformedPayload(
                owned("M4: message too short: need ").concat(
                    decimal_text(2 * len as u128).as_str(),
                ).concat(" hex chars"),
            ),
        );
    }
    Ok(
        TranslateFields {
            source_key,
            dest_key,
            cipher_text: Secret::new(field_text(payload, start, 2 * len)),
        },
    )
}

/// What an M0 command leads to.
pub open spec fn m0_step(p: Seq<u8>, keys: KeyTable) -> StepView {
    match block_fields(p) {
        Err(e) => handlers::failed(e),
        Ok(f) => match keys.resolved_field(f.key_id) {
            Err(e) => handlers::failed(e),
            Ok(arn) => handlers::ask(
                ApcCall::EncryptData { key: arn, plain_text: f.data, cipher: Cipher::Ecb },
                Finish::FramedCipherText,
            ),
        },
    }
}

/// What an M2 command leads to.
pub open spec fn m2_step(p: Seq<u8>, keys: KeyTable) -> StepView {
    match block_fields(p) {
        Err(e) => handlers::failed(e),
        Ok(f) => match keys.resolved_field(f.key_id) {
            Err(e) => handlers::failed(e),
            Ok(arn) => handlers::ask(
                ApcCall::DecryptData { key: arn, cipher_text: f.data, cipher: Cipher::Ecb },
                Finish::FramedPlainText,
            ),
        },
    }
}

/// What an M4 command leads to: a decryption under the source key, then an
/// encryption under the destination key.
pub open spec fn m4_step(p: Seq<u8>, keys: KeyTable) -> StepView {
    match m4_fields(p) {
        Err(e) => handlers::failed(e),
        Ok(f) => match keys.resolved_field(f.source_key) {
            Err(e) => handlers::failed(e),
            Ok(source) => match keys.resolved_field(f.dest_key) {
                Err(e) => handlers::failed(e),
                Ok(dest) => Step::Call {
                    call: ApcCall::DecryptData {
                        key: source,
                        cipher_text: f.cipher_text,
                        cipher: Cipher::Ecb,
                    },
                    then: Pending::EncryptUnder { key: dest },
                },
            },
        },
    }
}

fn handle_m0(payload: &[u8], keys: &KeyMap) -> (r: Step)
    requires
        keys.wf(),
    ensures
        r@ == m0_step(payload@, keys@),
{
    let fields: BlockFields = match parse_m0_fields(payload) {
        Ok(f) => f,
        Err(e) => {
            return fail(&e);
        },
    };
    let key: String = match keys.resolve_descriptor(&fields.key_id) {
        Ok(a) => owned(a),
        Err(e) => {
            return fail(&e);
        },
    };
    Step::Call {
        call: ApcCall::EncryptData { key, plain_text: fields.data, cipher: Cipher::Ecb },
        then: Pending::Finish(Finish::FramedCipherText),
    }
}

fn handle_m2(payload: &[u8], keys: &KeyMap) -> (r: Step)
    requires
        keys.wf(),
    ensures
        r@ == m2_step(payload@, keys@),
{
    let fields: BlockFields = match parse_m0_fields(payload) {
        Ok(f) => f,
        Err(e) => {
            return fail(&e);
        },
    };
    let key: String = match keys.resolve_descriptor(&fields.key_id) {
        Ok(a) => owned(a),
        Err(e) => {
            return fail(&e);
        },
    };
    Step::Call {
        call: ApcCall::DecryptData { key, cipher_text: fields.data, cipher: Cipher::Ecb },
        then: Pending::Finish(Finish::FramedPlainText),
    }
}

fn handle_m4(payload: &[u8], keys: &KeyMap) -> (r: Step)
    requires
        keys.wf(),
    ensures
        r@ == m4_step(payload@, keys@),
{
    let fields: TranslateFields = match parse_m4(payload) {
        Ok(f) => f,
        Err(e) => {
            return fail(&e);
        },
    };
    let source: String = match keys.resolve_descriptor(&fields.source_key) {
        Ok(a) => owned(a),
        Err(e) => {
            return fail(&e);
        },
    };
    let dest: String = match keys.resolve_descriptor(&fields.dest_key) {
        Ok(a) => owned(a),
        Err(e) => {
            return fail(&e);
        },
    };
    Step::Call {
        call: ApcCall::DecryptData {
            key: source,
            cipher_text: fields.cipher_text,
            cipher: Cipher::Ecb,
        },
        then: Pending::EncryptUnder { key: dest },
    }
}

/// What a block command leads to.
pub open spec fn block_step(command_code: Seq<u8>, p: Seq<u8>, keys: KeyTable) -> StepView {
    if command_code == text::ascii_2('M', '0') {
        m0_step(p, keys)
    } else if command_code == text::ascii_2('M', '2') {
        m2_step(p, keys)
    } else if command_code == text::ascii_2('M', '4') {
        m4_step(p, keys)
    } else {
        handlers::disabled()
    }
}

/// payShield block commands: M0 encrypts, M2 decrypts, M4 translates from one key to
/// another, all in ECB.
pub struct InternationalEncryptHandler;

impl Handler for InternationalEncryptHandler {
    open spec fn codes(&self) -> Seq<Seq<char>> {
        seq!["M0"@, "M2"@, "M4"@]
    }

    open spec fn step(&self, command_code: Seq<u8>, payload: Seq<u8>, keys: KeyTable) -> StepView {
        block_step(command_code, payload, keys)
    }

    open spec fn evidence(&self) -> Seq<Evidence> {
        seq![
            Evidence {
                decision: evidence::INTERNATIONAL_ENCRYPT_1_DECISION,
                because: evidence::INTERNATIONAL_ENCRYPT_1_BECAUSE,
                wire: WireGrounding::DiffXprov,
                crypto: CryptoGrounding::Apc,
                proof: Proof::LiveTest(evidence::INTERNATIONAL_ENCRYPT_1_PROOF),
            },
            Evidence {
                decision: evidence::INTERNATIONAL_ENCRYPT_2_DECISION,
                because: evidence::INTERNATIONAL_ENCRYPT_2_BECAUSE,
                wire: WireGrounding::DiffXprov,
                crypto: CryptoGrounding::Apc,
                proof: Proof::LiveTest(evidence::INTERNATIONAL_ENCRYPT_2_PROOF),
            },
        ]
    }

    fn command_codes(&self) -> Vec<&'static str> {
        let r: Vec<&'static str> = vec!["M0", "M2", "M4"];
        assert(text::texts(r@) =~= self.codes());
        r
    }

    fn start(&self, command_code: &[u8], payload: &[u8], keys: &KeyMap) -> Step {
        if is_ascii_2(command_code, 'M', '0') {
            handle_m0(payload, keys)
        } else if is_ascii_2(command_code, 'M', '2') {
            handle_m2(payload, keys)
        } else if is_ascii_2(command_code, 'M', '4') {
            handle_m4(payload, keys)
        } else {
            disable()
        }
    }

    fn grounding(&self) -> Vec<Evidence> {
        let r: Vec<Evidence> = vec![
            Evidence {
                decision: evidence::INTERNATIONAL_ENCRYPT_1_DECISION,
                because: evidence::INTERNATIONAL_ENCRYPT_1_BECAUSE,
                wire: WireGrounding::DiffXprov,
                crypto: CryptoGrounding::Apc,
                proof: Proof::LiveTest(evidence::INTERNATIONAL_ENCRYPT_1_PROOF),
            },
            Evidence {
                decision: evidence::INTERNATIONAL_ENCRYPT_2_DECISION,
                because: evidence::INTERNATIONAL_ENCRYPT_2_BECAUSE,
                wire: WireGrounding::DiffXprov,
                crypto: CryptoGrounding::Apc,
                proof: Proof::LiveTest(evidence::INTERNATIONAL_ENCRYPT_2_PROOF),
            },
        ];
        assert(r@ =~= self.evidence());
        r
    }
}

/// What M0 answers is a message as M2 reads one: behind a head that ends with its
/// key field, a framed answer gives back the data that was framed.
pub proof fn answers_are_read_as_messages(head: Seq<u8>, data: Seq<char>)
    requires
        7 <= head.len(),
        head.subrange(0, 2) == text::ascii_2('0', '0'),
        head[2] == '1' as u8,
        common::legacy_key(head, 7) is Ok,
        7 + (common::legacy_key(head, 7)->Ok_0).1 == head.len(),
        is_ascii_chars(data),
        data.len() % 2 == 0,
        data.len() / 2 <= 0xFFFF,
    ensures
        block_fields(head + handlers::framed(data)) == Ok::<_, Failure>(
            BlockFields { key_id: (common::legacy_key(head, 7)->Ok_0).0, data },
        ),
{
    let n = data.len() / 2;
    let body = handlers::framed(data);
    let p = head + body;
    let a = head.len() as int;
    common::key_fields_end_where_they_end(head, body, 7);
    is_ascii_chars_encode_utf8(data);
    text::hex_4_has_four_digits(n);
    text::hex_4_reads_back(n);
    is_ascii_chars_encode_utf8(text::hex_4(n));
    handlers::framed_answers_begin_with_their_length(data);
    encode_utf8_valid_utf8(text::hex_4(n));
    encode_utf8_decode_utf8(text::hex_4(n));
    encode_utf8_valid_utf8(data);
    encode_utf8_decode_utf8(data);
    assert(p.subrange(0, 2) =~= head.subrange(0, 2));
    assert(p.subrange(a, a + 4) =~= encode_utf8(text::hex_4(n)));
    assert(p.subrange(a + 4, a + 4 + 2 * n) =~= encode_utf8(data));
}

/// A translation (M4) keeps the data: what was decrypted under the source key is what
/// is encrypted under the destination key, and nothing is answered before both calls
/// have succeeded.
pub proof fn a_translation_keeps_the_data(p: Seq<u8>, keys: KeyTable, reply: ReplyView)
    ensures
        match m4_step(p, keys) {
            Step::Done(r) => r.payload.len() == 0,
            Step::Call { call, then } => {
                let f = m4_fields(p)->Ok_0;
                &&& keys.resolved_field(f.source_key) matches Ok(source)
                &&& keys.resolved_field(f.dest_key) matches Ok(dest)
                &&& call == ApcCall::DecryptData {
                    key: source,
                    cipher_text: f.cipher_text,
                    cipher: Cipher::Ecb,
                }
                &&& match reply {
                    ApcReply::PlainText(plain) => handlers::resumed(then, reply) == handlers::ask(
                        ApcCall::EncryptData { key: dest, plain_text: plain, cipher: Cipher::Ecb },
                        Finish::FramedCipherText,
                    ),
                    _ => handlers::resumed(then, reply) matches Step::Done(r) && r.payload.len()
                        == 0,
                }
            },
        },
{
    broadcast use handlers::failures_are_quiet;

}

/// An M0 payload is forwarded field by field: the message is encrypted under the key in ECB,
/// and the cipher text is answered behind its length.
#[verifier::rlimit(30)]
pub proof fn a_message_is_encrypted_field_by_field(
    output: u8,
    key_type: Seq<u8>,
    k: Seq<u8>,
    length: Seq<u8>,
    data: Seq<u8>,
    more: Seq<u8>,
    keys: KeyTable,
    arn: Seq<char>,
    out: Seq<char>,
)
    requires
        key_type.len() == 3,
        common::legacy_key_is(keys, k, arn),
        length.len() == 4,
        valid_utf8(length),
        text::word(decode_utf8(length), 16) == Some(data.len() as int / 2),
        data.len() % 2 == 0,
    ensures
        ({
            let p = seq!['0' as u8, '0' as u8, '1' as u8, output] + key_type + k + length + data
                + more;
            &&& InternationalEncryptHandler.step(text::ascii_2('M', '0'), p,
                keys) matches Step::Call { call, then }
            &&& call == (ApcCall::EncryptData { key: arn, plain_text: text::lossy_text(data),
                cipher: Cipher::Ecb })
            &&& handlers::resumed(then, ApcReply::CipherText(out)) == StepView::Done(
                handlers::answered(
                    encode_utf8(text::hex_4(encode_utf8(out).len() / 2)) + encode_utf8(out),
                ),
            )
        }),
{
    let p = seq!['0' as u8, '0' as u8, '1' as u8, output] + key_type + k + length + data + more;
    assert(common::legacy_key(p, 7) == common::legacy_key(k, 0)) by {
        let before = seq!['0' as u8, '0' as u8, '1' as u8, output] + key_type;
        let behind = length + data + more;
        assert(p =~= before + k + behind);
        common::key_fields_are_read_in_place(before, k, behind);
    }
    common::key_fields_lie_within(k, 0);
    let a = 7 + k.len() as int;
    assert(p.subrange(a, a + 4) =~= length);
    let q = a + 4 + data.len() as int;
    assert(p.subrange(a + 4, q) =~= data);
    assert(p.subrange(0, 2) =~= text::ascii_2('0', '0'));
    assert(p[2] == '1' as u8);
    lemma_block_commands_differ();
}

/// An M2 payload is forwarded field by field: the message is decrypted under the key in ECB,
/// and the plain text is answered behind its length.
#[verifier::rlimit(30)]
pub proof fn a_message_is_decrypted_field_by_field(
    output: u8,
    key_type: Seq<u8>,
    k: Seq<u8>,
    length: Seq<u8>,
    data: Seq<u8>,
    more: Seq<u8>,
    keys: KeyTable,
    arn: Seq<char>,
    out: Seq<char>,
)
    requires
        key_type.len() == 3,
        common::legacy_key_is(keys, k, arn),
        length.len() == 4,
        valid_utf8(length),
        text::word(decode_utf8(length), 16) == Some(data.len() as int / 2),
        data.len() % 2 == 0,
    ensures
        ({
            let p = seq!['0' as u8, '0' as u8, '1' as u8, output] + key_type + k + length + data
                + more;
            &&& InternationalEncryptHandler.step(text::ascii_2('M', '2'), p,
                keys) matches Step::Call { call, then }
            &&& call == (ApcCall::DecryptData { key: arn, cipher_text: text::lossy_text(data),
                cipher: Cipher::Ecb })
            &&& handlers::resumed(then, ApcReply::PlainText(out)) == StepView::Done(
                handlers::answered(
                    encode_utf8(text::hex_4(encode_utf8(out).len() / 2)) + encode_utf8(out),
                ),
            )
        }),
{
    let p = seq!['0' as u8, '0' as u8, '1' as u8, output] + key_type + k + length + data + more;
    assert(common::legacy_key(p, 7) == common::legacy_key(k, 0)) by {
        let before = seq!['0' as u8, '0' as u8, '1' as u8, output] + key_type;
        let behind = length + data + more;
        assert(p =~= before + k + behind);
        common::key_fields_are_read_in_place(before, k, behind);
    }
    common::key_fields_lie_within(k, 0);
    let a = 7 + k.len() as int;
    assert(p.subrange(a, a + 4) =~= length);
    let q = a + 4 + data.len() as int;
    assert(p.subrange(a + 4, q) =~= data);
    assert(p.subrange(0, 2) =~= text::ascii_2('0', '0'));
    assert(p[2] == '1' as u8);
    lemma_block_commands_differ();
}

/// An M4 payload is forwarded field by field: the message is decrypted under the source key,
/// what comes back is encrypted under the destination key, both in ECB, and the cipher text
/// is answered behind its length.
#[verifier::rlimit(30)]
pub proof fn a_message_is_translated_field_by_field(
    output: u8,
    source_type: Seq<u8>,
    source: Seq<u8>,
    dest_type: Seq<u8>,
    dest: Seq<u8>,
    length: Seq<u8>,
    data: Seq<u8>,
    more: Seq<u8>,
    keys: KeyTable,
    source_arn: Seq<char>,
    dest_arn: Seq<char>,
    plain: Seq<char>,
    out: Seq<char>,
)
    requires
        source_type.len() == 3,
        common::legacy_key_is(keys, source, source_arn),
        dest_type.len() == 3,
        common::legacy_key_is(keys, dest, dest_arn),
        length.len() == 4,
        valid_utf8(length),
        text::word(decode_utf8(length), 16) == Some(data.len() as int / 2),
        data.len() % 2 == 0,
    ensures
        ({
            let zero = '0' as u8;
            let p = seq![zero, zero, zero, zero, '1' as u8, output] + source_type + source
                + dest_type + dest + length + data + more;
            &&& InternationalEncryptHandler.step(text::ascii_2('M', '4'), p,
                keys) matches Step::Call {
                call,
                then,
            }
            &&& call == (ApcCall::DecryptData {
                key: source_arn,
                cipher_text: text::lossy_text(data),
                cipher: Cipher::Ecb,
            })
            &&& handlers::resumed(then, ApcReply::PlainText(plain)) matches Step::Call {
                call: next,
                then: last,
            }
            &&& next == (ApcCall::EncryptData {
                key: dest_arn,
                plain_text: plain,
                cipher: Cipher::Ecb,
            })
            &&& handlers::resumed(last, ApcReply::CipherText(out)) == StepView::Done(
                handlers::answered(
                    encode_utf8(text::hex_4(encode_utf8(out).len() / 2)) + encode_utf8(out),
                ),
            )
        }),
{
    let zero = '0' as u8;
    let flags = seq![zero, zero, zero, zero, '1' as u8, output];
    let p = flags + source_type + source + dest_type + dest + length + data + more;
    let tail = length + data + more;
    let b = 9 + source.len() as int;
    let a = b + 3 + dest.len() as int;
    assert(common::legacy_key(p, 9) == common::legacy_key(source, 0)) by {
        let head = flags + source_type;
        let behind = dest_type + dest + tail;
        assert(p =~= head + source + behind);
        common::key_fields_are_read_in_place(head, source, behind);
    }
    assert(common::legacy_key(p, b + 3) == common::legacy_key(dest, 0)) by {
        let head = flags + source_type + source + dest_type;
        assert(p =~= head + dest + tail);
        common::key_fields_are_read_in_place(head, dest, tail);
    }
    common::key_fields_lie_within(source, 0);
    common::key_fields_lie_within(dest, 0);
    assert(p.subrange(a, a + 4) =~= length);
    assert(p.subrange(a + 4, a + 4 + data.len() as int) =~= data);
    assert(p.subrange(0, 2) =~= text::ascii_2('0', '0'));
    assert(p.subrange(2, 4) =~= text::ascii_2('0', '0'));
    assert(p[4] == '1' as u8);
    lemma_block_commands_differ();
}

proof fn lemma_block_commands_differ()
    ensures
        text::ascii_2('M', '0') != text::ascii_2('M', '2'),
        text::ascii_2('M', '0') != text::ascii_2('M', '4'),
        text::ascii_2('M', '2') != text::ascii_2('M', '4'),
{
    assert(text::ascii_2('M', '0')[1] == '0' as u8);
    assert(text::ascii_2('M', '2')[1] == '2' as u8);
    assert(text::ascii_2('M', '4')[1] == '4' as u8);
}

/// An M0 or M2 command leads to a call only in ECB and for hexadecimal input, and only if its
/// payload holds as many digits as its length says. What is not offered, unknown or cut short
/// is answered with code `15`, a key that is not found with `10`.
pub proof fn only_whole_messages_lead_to_a_call(decrypt: bool, p: Seq<u8>, keys: KeyTable)
    ensures
        ({
            let a = 7 + (common::legacy_key(p, 7)->Ok_0).1;
            let n = text::word(decode_utf8(p.subrange(a, a + 4)), 16);
            let step = InternationalEncryptHandler.step(if decrypt {
                text::ascii_2('M', '2')
            } else {
                text::ascii_2('M', '0')
            }, p, keys);
            &&& match step {
                Step::Call { call, .. } => {
                    &&& p.subrange(0, 2) == text::ascii_2('0', '0')
                    &&& p[2] == '1' as u8
                    &&& common::legacy_key(p, 7) is Ok
                    &&& n is Some
                    &&& p.len() >= a + 4 + 2 * n->0
                },
                Step::Done(r) => r.payload.len() == 0 && (r.error_code == text::ascii_2('1', '0')
                    || r.error_code == text::ascii_2('1', '5')),
            }

        }),
{
    lemma_block_commands_differ();
    let a = 7 + (common::legacy_key(p, 7)->Ok_0).1;
    common::unreadable_fields_are_answered_15(p, 7);
}

/// An M4 command leads to a call only from ECB to ECB and for hexadecimal input, and only if
/// its payload holds as many digits as its length says. What is not offered, unknown or cut
/// short is answered with code `15`, a key that is not found with `10`.
pub proof fn only_whole_translations_lead_to_a_call(p: Seq<u8>, keys: KeyTable)
    ensures
        ({
            let b = 9 + (common::legacy_key(p, 9)->Ok_0).1 + 3;
            let a = b + (common::legacy_key(p, b)->Ok_0).1;
            let n = text::word(decode_utf8(p.subrange(a, a + 4)), 16);
            let step = InternationalEncryptHandler.step(text::ascii_2('M', '4'), p, keys);
            &&& match step {
                Step::Call { call, .. } => {
                    &&& p.subrange(0, 2) == text::ascii_2('0', '0')
                    &&& p.subrange(2, 4) == text::ascii_2('0', '0')
                    &&& p[4] == '1' as u8
                    &&& common::legacy_key(p, 9) is Ok
                    &&& common::legacy_key(p, b) is Ok
                    &&& n is Some
                    &&& p.len() >= a + 4 + 2 * n->0
                },
                Step::Done(r) => r.payload.len() == 0 && (r.error_code == text::ascii_2('1', '0')
                    || r.error_code == text::ascii_2('1', '5')),
            }

        }),
{
    lemma_block_commands_differ();
    let b = 9 + (common::legacy_key(p, 9)->Ok_0).1 + 3;
    let a = b + (common::legacy_key(p, b)->Ok_0).1;
    common::unreadable_fields_are_answered_15(p, 9);
    common::unreadable_fields_are_answered_15(p, b);
}

} // verus!
