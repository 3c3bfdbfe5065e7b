//! K0: decrypt data that a card encrypted under an EMV session key.

use vstd::prelude::*;
use vstd::string::*;
#[allow(unused_imports)]
use vstd::utf8::encode_utf8;

#[allow(unused_imports)]
use crate::apc::ApcReply;
use crate::apc::{ApcCall, Cipher};
#[allow(unused_imports)]
use crate::error;
use crate::error::{Failure, ProxyError};
#[allow(unused_imports)]
use crate::handlers;
use crate::handlers::evidence;
use crate::handlers::grounding::{CryptoGrounding, Evidence, Proof, WireGrounding};
#[allow(unused_imports)]
use crate::handlers::thales::common;
use crate::handlers::thales::common::{decode_bcd_pan_seq, parse_legacy_key};
#[allow(unused_imports)]
use crate::handlers::thales::reader;
use crate::handlers::thales::reader::FieldReader;
use crate::handlers::{fail, Finish, Handler, Pending, Step, StepView};
use crate::key_map::{KeyDescriptor, KeyMap, KeyTable};
use crate::secret::Secret;
#[allow(unused_imports)]
use crate::text;
use crate::text::owned;

verus! {

/// What a K0 command asks for.
pub struct K0Fields<T = String, S = Secret> {
    pub key_id: KeyDescriptor<T>,
    pub pan: T,
    pub pan_seq: T,
    pub atc: T,
    pub cipher_text: S,
}

/// The fields of a K0 command as contracts speak of them.
pub type K0View = K0Fields<Seq<char>, Seq<char>>;

impl View for K0Fields<String, Secret> {
    type V = K0View;

    open spec fn view(&self) -> K0View {
        K0Fields {
            key_id: self.key_id@,
            pan: self.pan@,
            pan_seq: self.pan_seq@,
            atc: self.atc@,
            cipher_text: self.cipher_text@,
        }
    }
}

/// The failure of the field `name` of `n` bytes at `at`.
pub open spec fn k0_short(p: Seq<u8>, name: Seq<char>, n: int, at: int) -> Result<K0View, Failure> {
    reader::truncated("K0"@, name, n as nat, at as nat, (p.len() - at) as nat)
}

/// A K0 payload: 0 key type, 3 key; then account and sequence number (eight bytes
/// BCD), ATC (two bytes), length of the data (two, big-endian), the data.
pub open spec fn k0_fields(p: Seq<u8>) -> Result<K0View, Failure> {
    let key = common::legacy_key(p, 3);
    let a = 3 + (key->Ok_0).1;
    let len = text::be16(p, a + 10);
    if p.len() < 3 {
        k0_short(p, "key type"@, 3, 0)
    } else if key is Err {
        Err(key->Err_0)
    } else if p.len() < a + 8 {
        k0_short(p, "PAN+seq"@, 8, a)
    } else if p.len() < a + 10 {
        k0_short(p, "ATC"@, 2, a + 8)
    } else if p.len() < a + 12 {
        k0_short(p, "encrypted data length"@, 2, a + 10)
    } else if p.len() < a + 12 + len {
        k0_short(p, "encrypted data"@, len, a + 12)
    } else {
        Ok(
            K0Fields {
                key_id: (key->Ok_0).0,
                pan: common::bcd_pan(p.subrange(a, a + 8)),
                pan_seq: common::bcd_seq(p.subrange(a, a + 8)),
                atc: common::hex_at(p, a + 8, 2),
                cipher_text: common::hex_at(p, a + 12, len),
            },
        )
    }
}

/// Parse the payload of K0.
pub fn parse_k0(payload: &[u8]) -> (r: Result<K0Fields, ProxyError>)
    ensures
        error::outcome(r) == k0_fields(payload@),
{
    assert(payload.len() == payload@.len());
    let mut r = FieldReader::new(payload, "K0");
    r.take(3, "key type")?;
    let key_id: KeyDescriptor = r.parse_with(parse_legacy_key)?;
    let (pan, pan_seq) = decode_bcd_pan_seq(r.take_8("PAN+seq")?);
    let atc: String = r.take_hex(2, "ATC")?;
    let len: usize = r.u16_be("encrypted data length")?;
    let cipher_text: Secret = Secret::new(r.take_hex(len, "encrypted data")?);
    Ok(K0Fields { key_id, pan, pan_seq, atc, cipher_text })
}

/// What a K0 command leads to. The session is derived from the ATC, filled up
/// with zeros to eight bytes.
pub open spec fn k0_step(p: Seq<u8>, keys: KeyTable) -> StepView {
    match k0_fields(p) {
        Err(e) => handlers::failed(e),
        Ok(f) => match keys.resolved_field(f.key_id) {
            Err(e) => handlers::failed(e),
            Ok(arn) => handlers::ask(
                ApcCall::DecryptData {
                    key: arn,
                    cipher_text: f.cipher_text,
                    cipher: Cipher::EmvOptionACbc {
                        pan: f.pan,
                        pan_seq: f.pan_seq,
                        session_data: f.atc + "000000000000"@,
                    },
                },
                Finish::PlainText,
            ),
        },
    }
}

/// payShield K0: decrypt EMV-encrypted counters or application data under a session
/// key of an issuer master key.
pub struct EmvDecryptHandler;

impl Handler for EmvDecryptHandler {
    open spec fn codes(&self) -> Seq<Seq<char>> {
        seq!["K0"@]
    }

    open spec fn step(&self, command_code: Seq<u8>, payload: Seq<u8>, keys: KeyTable) -> StepView {
        k0_step(payload, keys)
    }

    open spec fn evidence(&self) -> Seq<Evidence> {
        seq![
            Evidence {
                decision: evidence::EMV_DECRYPT_1_DECISION,
                because: evidence::EMV_DECRYPT_1_BECAUSE,
                wire: WireGrounding::DiffXprov,
                crypto: CryptoGrounding::Apc,
                proof: Proof::LiveTest(evidence::EMV_DECRYPT_1_PROOF),
            },
        ]
    }

    fn command_codes(&self) -> Vec<&'static str> {
        let r: Vec<&'static str> = vec!["K0"];
        assert(text::texts(r@) =~= self.codes());
        r
    }

    fn start(&self, command_code: &[u8], payload: &[u8], keys: &KeyMap) -> Step {
        let fields: K0Fields = match parse_k0(payload) {
            Ok(f) => f,
            Err(e) => {
                return fail(&e);
            },
        };
        let key: String = match keys.resolve_descriptor(&fields.key_id) {
            Ok(a) => owned(a),
            Err(e) => {
                return fail(&e);
            },
        };
        let session_data: String = fields.atc.concat("000000000000");
        Step::Call {
            call: ApcCall::DecryptData {
                key,
                cipher_text: fields.cipher_text,
                cipher: Cipher::EmvOptionACbc {
                    pan: fields.pan,
                    pan_seq: fields.pan_seq,
                    session_data,
                },
            },
            then: Pending::Finish(Finish::PlainText),
        }
    }

    fn grounding(&self) -> Vec<Evidence> {
        let r: Vec<Evidence> = vec![
            Evidence {
                decision: evidence::EMV_DECRYPT_1_DECISION,
                because: evidence::EMV_DECRYPT_1_BECAUSE,
                wire: WireGrounding::DiffXprov,
                crypto: CryptoGrounding::Apc,
                proof: Proof::LiveTest(evidence::EMV_DECRYPT_1_PROOF),
            },
        ];
        assert(r@ =~= self.evidence());
        r
    }
}

/// A K0 payload is forwarded field by field: the data is decrypted under the session key of
/// the account and sequence number and of the ATC, filled up with zeros to eight bytes, and
/// the plain text is answered.
#[verifier::rlimit(30)]
pub proof fn data_is_decrypted_field_by_field(
    key_type: Seq<u8>,
    k: Seq<u8>,
    pan: Seq<u8>,
    atc: Seq<u8>,
    data: Seq<u8>,
    more: Seq<u8>,
    keys: KeyTable,
    arn: Seq<char>,
    out: Seq<char>,
)
    requires
        key_type.len() == 3,
        common::legacy_key_is(keys, k, arn),
        pan.len() == 8,
        atc.len() == 2,
        data.len() <= 0xFFFF,
    ensures
        ({
            let p = key_type + k + pan + atc + seq![(data.len() / 256) as u8,
                (data.len() % 256) as u8] + data + more;
            &&& EmvDecryptHandler.step(text::ascii_2('K', '0'), p, keys) matches Step::Call {
                call,
                then,
            }
            &&& call == (ApcCall::DecryptData {
                key: arn,
                cipher_text: text::hex_upper(data),
                cipher: Cipher::EmvOptionACbc {
                    pan: common::bcd_pan(pan),
                    pan_seq: common::bcd_seq(pan),
                    session_data: text::hex_upper(atc + seq![0u8, 0, 0, 0, 0, 0]),
                },
            })
            &&& handlers::resumed(then, ApcReply::PlainText(out)) == StepView::Done(
                handlers::answered(encode_utf8(out)),
            )
        }),
{
    let p = key_type + k + pan + atc + seq![(data.len() / 256) as u8, (data.len() % 256) as u8]
        + data + more;
    assert(common::legacy_key(p, 3) == common::legacy_key(k, 0)) by {
        let before = key_type;
        let behind = pan + atc + seq![(data.len() / 256) as u8, (data.len() % 256) as u8] + data
            + more;
        assert(p =~= before + k + behind);
        common::key_fields_are_read_in_place(before, k, behind);
    }
    common::key_fields_lie_within(k, 0);
    let a = 3 + k.len() as int;
    assert(p.subrange(a, a + 8) =~= pan);
    assert(p.subrange(a + 8, a + 10) =~= atc);
    assert(p[a + 10] == (data.len() / 256) as u8 && p[a + 11] == (data.len() % 256) as u8);
    assert(text::be16(p, a + 10) == data.len());
    let q = a + 12 + data.len() as int;
    assert(p.subrange(a + 12, q) =~= data);
    reveal_strlit("000000000000");
    assert(text::hex_upper(atc) + "000000000000"@ =~= text::hex_upper(
        atc + seq![0u8, 0, 0, 0, 0, 0],
    ));
}

/// A K0 command leads to a call only if its payload holds every field. What is cut short is
/// answered with code `15`, a key that is not found with `10`.
pub proof fn only_whole_payloads_lead_to_a_call(p: Seq<u8>, keys: KeyTable)
    ensures
        ({
            let a = 3 + (common::legacy_key(p, 3)->Ok_0).1;
            let step = EmvDecryptHandler.step(text::ascii_2('K', '0'), p, keys);
            &&& match step {
                Step::Call { call, .. } => {
                    &&& common::legacy_key(p, 3) is Ok
                    &&& p.len() >= a + 12 + text::be16(p, a + 10)
                },
                Step::Done(r) => r.payload.len() == 0 && (r.error_code == text::ascii_2('1', '0')
                    || r.error_code == text::ascii_2('1', '5')),
            }

        }),
{
    let a = 3 + (common::legacy_key(p, 3)->Ok_0).1;
    common::unreadable_fields_are_answered_15(p, 3);
}

} // verus!
