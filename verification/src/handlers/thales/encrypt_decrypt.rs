//! HE, HG: encrypt and decrypt one block of 64 bits.

use vstd::prelude::*;
use vstd::string::*;
#[allow(unused_imports)]
use vstd::utf8::{
    encode_utf8, encode_utf8_decode_utf8, encode_utf8_valid_utf8, is_ascii_chars,
    is_ascii_chars_encode_utf8,
};

#[allow(unused_imports)]
use crate::apc::ApcReply;
use crate::apc::{ApcCall, Cipher};
#[allow(unused_imports)]
use crate::error;
use crate::error::{Failure, ProxyError};
#[allow(unused_imports)]
use crate::handlers;
use crate::handlers::evidence;
use crate::handlers::grounding::{CryptoGrounding, Evidence, Proof, WireGrounding};
#[allow(unused_imports)]
use crate::handlers::thales::common;
use crate::handlers::thales::common::{field_text, parse_legacy_key};
use crate::handlers::{disable, fail, Finish, Handler, Pending, Step, StepView};
use crate::key_map::{KeyDescriptor, KeyMap, KeyTable};
use crate::secret::Secret;
#[allow(unused_imports)]
use crate::text;
use crate::text::{decimal_text, fits, is_ascii_2, owned};

verus! {

/// What HE and HG ask for.
pub struct KeyAndData<T = String, S = Secret> {
    pub key_id: KeyDescriptor<T>,
    /// Sixteen hexadecimal digits.
    pub data: S,
}

impl View for KeyAndData<String, Secret> {
    type V = KeyAndData<Seq<char>, Seq<char>>;

    open spec fn view(&self) -> KeyAndData<Seq<char>, Seq<char>> {
        KeyAndData { key_id: self.key_id@, data: self.data@ }
    }
}

/// An HE or HG payload: 0 key, then sixteen bytes of data. What follows is not
/// read.
pub open spec fn key_and_data(p: Seq<u8>, cmd: Seq<char>) -> Result<
    KeyAndData<Seq<char>, Seq<char>>,
    Failure,
> {
    let key = common::legacy_key(p, 0);
    let a = (key->Ok_0).1;
    if key is Err {
        Err(key->Err_0)
    } else if p.len() < a + 16 {
        error::bad(
            cmd + " payload too short: "@ + text::decimal(p.len()) + " < "@ + text::decimal(
                (a + 16) as nat,
            ),
        )
    } else {
        Ok(KeyAndData { key_id: (key->Ok_0).0, data: common::text_at(p, a, 16) })
    }
}

/// Parse the payload of HE and HG; `cmd` is named in failures.
pub fn parse_key_and_data(payload: &[u8], cmd: &str) -> (r: Result<KeyAndData, ProxyError>)
    ensures
        error::outcome(r) == key_and_data(payload@, cmd@),
{
    let (key_id, key_len) = parse_legacy_key(payload, 0)?;
    if !fits(payload, key_len, 16) {
        return Err(
            ProxyError::MalformedPayload(
                owned(cmd).concat(" payload too short: ").concat(
                    decimal_text(payload.len() as u128).as_str(),
                ).concat(" < ").concat(decimal_text(key_len as u128 + 16).as_str()),
            ),
        );
    }
    Ok(KeyAndData { key_id, data: Secret::new(field_text(payload, key_len, 16)) })
}

/// What an HE or HG command leads to.
pub open spec fn legacy_block_step(command_code: Seq<u8>, p: Seq<u8>, keys: KeyTable) -> StepView {
    if command_code == text::ascii_2('H', 'E') {
        match key_and_data(p, "HE"@) {
            Err(e) => handlers::failed(e),
            Ok(f) => match keys.resolved_field(f.key_id) {
                Err(e) => handlers::failed(e),
                Ok(arn) => handlers::ask(
                    ApcCall::EncryptData { key: arn, plain_text: f.data, cipher: Cipher::Ecb },
                    Finish::CipherText,
                ),
            },
        }
    } else if command_code == text::ascii_2('H', 'G') {
        match key_and_data(p, "HG"@) {
            Err(e) => handlers::failed(e),
            Ok(f) => match keys.resolved_field(f.key_id) {
                Err(e) => handlers::failed(e),
                Ok(arn) => handlers::ask(
                    ApcCall::DecryptData { key: arn, cipher_text: f.data, cipher: Cipher::Ecb },
                    Finish::PlainText,
                ),
            },
        }
    } else {
        handlers::disabled()
    }
}

/// payShield block commands for one block of 64 bits: HE encrypts, HG decrypts, in
/// ECB.
pub struct EncryptDecryptHandler;

impl Handler for EncryptDecryptHandler {
    open spec fn codes(&self) -> Seq<Seq<char>> {
        seq!["HE"@, "HG"@]
    }

    open spec fn step(&self, command_code: Seq<u8>, payload: Seq<u8>, keys: KeyTable) -> StepView {
        legacy_block_step(command_code, payload, keys)
    }

    open spec fn evidence(&self) -> Seq<Evidence> {
        seq![
            Evidence {
                decision: evidence::ENCRYPT_DECRYPT_1_DECISION,
                because: evidence::ENCRYPT_DECRYPT_1_BECAUSE,
                wire: WireGrounding::DiffXprov,
                crypto: CryptoGrounding::Apc,
                proof: Proof::LiveTest(evidence::ENCRYPT_DECRYPT_1_PROOF),
            },
        ]
    }

    fn command_codes(&self) -> Vec<&'static str> {
        let r: Vec<&'static str> = vec!["HE", "HG"];
        assert(text::texts(r@) =~= self.codes());
        r
    }

    fn start(&self, command_code: &[u8], payload: &[u8], keys: &KeyMap) -> Step {
        let encrypts: bool = is_ascii_2(command_code, 'H', 'E');
        if !encrypts && !is_ascii_2(command_code, 'H', 'G') {
            return disable();
        }
        let fields: KeyAndData = match parse_key_and_data(
            payload,
            if encrypts {
                "HE"
            } else {
                "HG"
            },
        ) {
            Ok(f) => f,
            Err(e) => {
                return fail(&e);
            },
        };
        let key: String = match keys.resolve_descriptor(&fields.key_id) {
            Ok(a) => owned(a),
            Err(e) => {
                return fail(&e);
            },
        };
        if encrypts {
            Step::Call {
                call: ApcCall::EncryptData { key, plain_text: fields.data, cipher: Cipher::Ecb },
                then: Pending::Finish(Finish::CipherText),
            }
        } else {
            Step::Call {
                call: ApcCall::DecryptData { key, cipher_text: fields.data, cipher: Cipher::Ecb },
                then: Pending::Finish(Finish::PlainText),
            }
        }
    }

    fn grounding(&self) -> Vec<Evidence> {
        let r: Vec<Evidence> = vec![
            Evidence {
                decision: evidence::ENCRYPT_DECRYPT_1_DECISION,
                because: evidence::ENCRYPT_DECRYPT_1_BECAUSE,
                wire: WireGrounding::DiffXprov,
                crypto: CryptoGrounding::Apc,
                proof: Proof::LiveTest(evidence::ENCRYPT_DECRYPT_1_PROOF),
            },
        ];
        assert(r@ =~= self.evidence());
        r
    }
}

/// A block comes back as it was sent: behind a key field, sixteen digits are read as
/// the data, so what HE answers with is what HG is asked to decrypt.
pub proof fn blocks_are_read_back(head: Seq<u8>, data: Seq<char>, cmd: Seq<char>)
    requires
        common::legacy_key(head, 0) matches Ok(key) && key.1 == head.len(),
        is_ascii_chars(data),
        data.len() == 16,
    ensures
        key_and_data(head + encode_utf8(data), cmd) == Ok::<_, Failure>(
            KeyAndData { key_id: (common::legacy_key(head, 0)->Ok_0).0, data },
        ),
{
    let wire = encode_utf8(data);
    let a = head.len() as int;
    common::key_fields_end_where_they_end(head, wire, 0);
    is_ascii_chars_encode_utf8(data);
    encode_utf8_valid_utf8(data);
    encode_utf8_decode_utf8(data);
    assert((head + wire).subrange(a, a + 16) =~= wire);
}

/// An HE payload is forwarded field by field: sixteen digits are encrypted under the key in
/// ECB, and the cipher text is answered.
#[verifier::rlimit(30)]
pub proof fn a_block_is_encrypted_field_by_field(
    k: Seq<u8>,
    data: Seq<u8>,
    more: Seq<u8>,
    keys: KeyTable,
    arn: Seq<char>,
    out: Seq<char>,
)
    requires
        common::legacy_key_is(keys, k, arn),
        data.len() == 16,
    ensures
        ({
            let p = k + data + more;
            &&& EncryptDecryptHandler.step(text::ascii_2('H', 'E'), p,
                keys) matches Step::Call { call, then }
            &&& call == (ApcCall::EncryptData { key: arn, plain_text: text::lossy_text(data),
                cipher: Cipher::Ecb })
            &&& handlers::resumed(then, ApcReply::CipherText(out)) == StepView::Done(
                handlers::answered(encode_utf8(out)),
            )
        }),
{
    let p = k + data + more;
    assert(common::legacy_key(p, 0) == common::legacy_key(k, 0)) by {
        let before = Seq::<u8>::empty();
        let behind = data + more;
        assert(p =~= before + k + behind);
        common::key_fields_are_read_in_place(before, k, behind);
    }
    common::key_fields_lie_within(k, 0);
    let a = 0 + k.len() as int;
    assert(p.subrange(a, a + 16) =~= data);
    assert(text::ascii_2('H', 'E')[1] != text::ascii_2('H', 'G')[1]);
}

/// An HG payload is forwarded field by field: sixteen digits are decrypted under the key in
/// ECB, and the plain text is answered.
#[verifier::rlimit(30)]
pub proof fn a_block_is_decrypted_field_by_field(
    k: Seq<u8>,
    data: Seq<u8>,
    more: Seq<u8>,
    keys: KeyTable,
    arn: Seq<char>,
    out: Seq<char>,
)
    requires
        common::legacy_key_is(keys, k, arn),
        data.len() == 16,
    ensures
        ({
            let p = k + data + more;
            &&& EncryptDecryptHandler.step(text::ascii_2('H', 'G'), p,
                keys) matches Step::Call { call, then }
            &&& call == (ApcCall::DecryptData { key: arn, cipher_text: text::lossy_text(data),
                cipher: Cipher::Ecb })
            &&& handlers::resumed(then, ApcReply::PlainText(out)) == StepView::Done(
                handlers::answered(encode_utf8(out)),
            )
        }),
{
    let p = k + data + more;
    assert(common::legacy_key(p, 0) == common::legacy_key(k, 0)) by {
        let before = Seq::<u8>::empty();
        let behind = data + more;
        assert(p =~= before + k + behind);
        common::key_fields_are_read_in_place(before, k, behind);
    }
    common::key_fields_lie_within(k, 0);
    let a = 0 + k.len() as int;
    assert(p.subrange(a, a + 16) =~= data);
    assert(text::ascii_2('H', 'E')[1] != text::ascii_2('H', 'G')[1]);
}

/// An HE or HG command leads to a call only if sixteen digits follow the key. What is cut
/// short is answered with code `15`, a key that is not found with `10`. Of the other commands
/// none leads to a call.
pub proof fn only_whole_payloads_lead_to_a_call(second: char, p: Seq<u8>, keys: KeyTable)
    requires
        (second as u32) < 0x80,
    ensures
        ({
            let a = (common::legacy_key(p, 0)->Ok_0).1;
            let step = EncryptDecryptHandler.step(text::ascii_2('H', second), p, keys);
            &&& match step {
                Step::Call { call, .. } => {
                    &&& second == 'E' || second == 'G'
                    &&& common::legacy_key(p, 0) is Ok
                    &&& p.len() >= a + 16
                },
                Step::Done(r) => r.payload.len() == 0 && (r.error_code == text::ascii_2('1', '0')
                    || r.error_code == text::ascii_2('1', '5')
                    || r.error_code == text::ascii_2('6', '8')),
            }
            &&& second != 'E' && second != 'G'
                ==> step == StepView::Done(handlers::refused(text::ascii_2('6', '8')))
            &&& second == 'E' || second == 'G'
                ==> step != StepView::Done(handlers::refused(text::ascii_2('6', '8')))
        }),
{
    assert(text::ascii_2('H', 'E')[1] == 'E' as u8 && text::ascii_2('H', 'G')[1] == 'G' as u8);
    assert(text::ascii_2('H', second)[1] == second as u8);
    assert(text::ascii_2('6', '8')[0] == '6' as u8);
    assert(text::ascii_2('1', '0')[0] == '1' as u8);
    assert(text::ascii_2('1', '5')[0] == '1' as u8);
    let a = (common::legacy_key(p, 0)->Ok_0).1;
    common::unreadable_fields_are_answered_15(p, 0);
}

} // verus!
