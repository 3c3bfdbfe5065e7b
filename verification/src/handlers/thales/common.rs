//! Field forms that many payShield commands share: key fields, key serial
//! numbers, EMV padding, BCD account numbers.

use vstd::prelude::*;
use vstd::string::*;
#[allow(unused_imports)]
use vstd::utf8::{
    decode_utf8, decode_utf8_encode_utf8, is_ascii_chars, is_ascii_chars_encode_utf8, valid_utf8,
};

use crate::apc::AuthResponse;
#[allow(unused_imports)]
use crate::error;
use crate::error::{Failure, ProxyError};
#[allow(unused_imports)]
use crate::key_map;
use crate::key_map::{KeyBlockMeta, KeyDescriptor, KeyField};
#[allow(unused_imports)]
use crate::key_map::KeyTable;
use crate::secret::Secret;
#[allow(unused_imports)]
use crate::text;
use crate::text::{
    byte_text, decimal_text, fits, hex_digit_char, is_ascii_2, lossy, owned, same_text,
    strip_start_text, upper_text, utf8, word_of,
};

verus! {

// ── fields of a payload ──────────────────────────────────────────────────────

/// The text of the `n` bytes at `at`.
pub open spec fn text_at(p: Seq<u8>, at: int, n: int) -> Seq<char> {
    text::lossy_text(p.subrange(at, at + n))
}

/// The `n` bytes at `at` in upper-case hexadecimal.
pub open spec fn hex_at(p: Seq<u8>, at: int, n: int) -> Seq<char> {
    text::hex_upper(p.subrange(at, at + n))
}

/// Read the text of a field.
pub(crate) fn field_text(p: &[u8], at: usize, n: usize) -> (r: String)
    requires
        at + n <= p@.len(),
    ensures
        r@ == text_at(p@, at as int, n as int),
{
    assert(p.len() == p@.len());
    lossy(&p[at..at + n])
}

/// Read a binary field as hexadecimal.
pub(crate) fn field_hex(p: &[u8], at: usize, n: usize) -> (r: String)
    requires
        at + n <= p@.len(),
    ensures
        r@ == hex_at(p@, at as int, n as int),
{
    assert(p.len() == p@.len());
    bytes_to_hex(&p[at..at + n])
}

/// Read eight bytes as an array.
pub(crate) fn field_8(p: &[u8], at: usize) -> (r: [u8; 8])
    requires
        at + 8 <= p@.len(),
    ensures
        r@ == p@.subrange(at as int, at + 8),
{
    let r: [u8; 8] = [
        p[at],
        p[at + 1],
        p[at + 2],
        p[at + 3],
        p[at + 4],
        p[at + 5],
        p[at + 6],
        p[at + 7],
    ];
    assert(r@ =~= p@.subrange(at as int, at + 8));
    r
}

/// Read a 16-bit big-endian number.
pub(crate) fn field_be16(p: &[u8], at: usize) -> (r: usize)
    requires
        at + 2 <= p@.len(),
    ensures
        r == text::be16(p@, at as int),
        r <= 65535,
{
    p[at] as usize * 256 + p[at + 1] as usize
}

/// The failure of a malformed payload.
pub(crate) fn malformed(why: &str) -> (r: ProxyError)
    ensures
        r@ == Failure::MalformedPayload(why@),
{
    ProxyError::MalformedPayload(owned(why))
}

// ── EMV padding ──────────────────────────────────────────────────────────────

/// ISO 9797-1 method 2 padding: one `0x80`, then zeros up to the next multiple
/// of eight bytes.
pub open spec fn emv_padded(data: Seq<u8>) -> Seq<u8> {
    data + seq![0x80u8] + Seq::new((7 - data.len() % 8) as nat, |i: int| 0u8)
}

/// Padding fills whole blocks of eight bytes, adds one byte at least and one
/// block at most, and keeps the data in front. The first byte that it adds is
/// `0x80`, and the others are zero.
pub proof fn emv_padding_fills_blocks(data: Seq<u8>)
    ensures
        emv_padded(data).len() % 8 == 0,
        data.len() < emv_padded(data).len() <= data.len() + 8,
        emv_padded(data).take(data.len() as int) == data,
        emv_padded(data)[data.len() as int] == 0x80,
        forall|i: int| data.len() < i < emv_padded(data).len() ==> emv_padded(data)[i] == 0,
{
    assert(emv_padded(data).take(data.len() as int) =~= data);
}

/// Padding can be undone: different data is different when it is padded.
pub proof fn emv_padding_is_injective(a: Seq<u8>, b: Seq<u8>)
    requires
        emv_padded(a) == emv_padded(b),
    ensures
        a == b,
{
    let p = emv_padded(a);
    let q = emv_padded(b);
    emv_padding_fills_blocks(a);
    emv_padding_fills_blocks(b);
    if a.len() < b.len() {
        assert(q[b.len() as int] == 0x80u8);
        assert(p[b.len() as int] == 0u8);
    }
    if b.len() < a.len() {
        assert(p[a.len() as int] == 0x80u8);
        assert(q[a.len() as int] == 0u8);
    }
}

/// Apply EMV (ISO 9797-1 method 2) padding. APC takes transaction data as it is
/// given, while the card pads it first, so it is padded before it is forwarded.
pub fn emv_pad(data: &[u8]) -> (r: Vec<u8>)
    ensures
        r@ == emv_padded(data@),
{
    let mut out: Vec<u8> = vstd::slice::slice_to_vec(data);
    out.push(0x80);
    let ghost base = data@ + seq![0x80u8];
    let missing: usize = 7 - data.len() % 8;
    let mut i: usize = 0;
    assert(out@ =~= base + Seq::new(0, |k: int| 0u8));
    while i < missing
        invariant
            i <= missing,
            out@ == base + Seq::new(i as nat, |k: int| 0u8),
        decreases missing - i,
    {
        out.push(0);
        i = i + 1;
        assert(out@ =~= base + Seq::new(i as nat, |k: int| 0u8));
    }
    out
}

// ── PIN block formats ────────────────────────────────────────────────────────

/// The PIN block formats that APC knows.
#[derive(Clone, Copy, Debug, PartialEq, Eq, Structural)]
pub enum PinBlockFormat {
    IsoFormat0,
    IsoFormat1,
    IsoFormat3,
    IsoFormat4,
}

/// The format that a two-digit PIN block format code stands for: `01` ISO 0,
/// `05` ISO 1, `47` ISO 3, `48` ISO 4.
pub open spec fn pin_block_format(code: Seq<char>) -> Result<PinBlockFormat, Failure> {
    if code == "01"@ {
        Ok(PinBlockFormat::IsoFormat0)
    } else if code == "05"@ {
        Ok(PinBlockFormat::IsoFormat1)
    } else if code == "47"@ {
        Ok(PinBlockFormat::IsoFormat3)
    } else if code == "48"@ {
        Ok(PinBlockFormat::IsoFormat4)
    } else {
        Err(
            ProxyError::UnsupportedPinFormat(
                "Thales PIN block format code '"@ + code
                    + "' has no APC equivalent (supported: 01/05/47/48)"@,
            ),
        )
    }
}

/// Map a PIN block format code. The other formats have no counterpart in APC and
/// are refused rather than decoded wrongly.
pub fn map_pin_block_format(code: &str) -> (r: Result<PinBlockFormat, ProxyError>)
    ensures
        match pin_block_format(code@) {
            Ok(f) => r == Ok::<PinBlockFormat, ProxyError>(f),
            Err(e) => r is Err && r->Err_0@ == e,
        },
{
    if same_text(code, "01") {
        Ok(PinBlockFormat::IsoFormat0)
    } else if same_text(code, "05") {
        Ok(PinBlockFormat::IsoFormat1)
    } else if same_text(code, "47") {
        Ok(PinBlockFormat::IsoFormat3)
    } else if same_text(code, "48") {
        Ok(PinBlockFormat::IsoFormat4)
    } else {
        Err(
            ProxyError::UnsupportedPinFormat(
                owned("Thales PIN block format code '").concat(code).concat(
                    "' has no APC equivalent (supported: 01/05/47/48)",
                ),
            ),
        )
    }
}

/// The two bytes of a PIN block format code and the format that they stand for.
pub open spec fn format_code_is(code: Seq<u8>, format: PinBlockFormat) -> bool {
    ||| code == text::ascii_2('0', '1') && format == PinBlockFormat::IsoFormat0
    ||| code == text::ascii_2('0', '5') && format == PinBlockFormat::IsoFormat1
    ||| code == text::ascii_2('4', '7') && format == PinBlockFormat::IsoFormat3
    ||| code == text::ascii_2('4', '8') && format == PinBlockFormat::IsoFormat4
}

/// A PIN block format code on the wire stands for the one format that goes with it:
/// `01` ISO 0, `05` ISO 1, `47` ISO 3, `48` ISO 4.
pub proof fn format_codes_stand_for_their_formats(code: Seq<u8>, format: PinBlockFormat)
    requires
        format_code_is(code, format),
    ensures
        pin_block_format(text::lossy_text(code)) == Ok::<PinBlockFormat, Failure>(format),
{
    text::ascii_pairs_are_read_as_written('0', '1');
    text::ascii_pairs_are_read_as_written('0', '5');
    text::ascii_pairs_are_read_as_written('4', '7');
    text::ascii_pairs_are_read_as_written('4', '8');
    reveal_strlit("01");
    reveal_strlit("05");
    reveal_strlit("47");
    reveal_strlit("48");
    assert("01"@ =~= seq!['0', '1']);
    assert("05"@ =~= seq!['0', '5']);
    assert("47"@ =~= seq!['4', '7']);
    assert("48"@ =~= seq!['4', '8']);
    assert(text::ascii_2('0', '1')[1] != text::ascii_2('0', '5')[1]);
}

/// No two format codes stand for one format, and a code that stands for none is refused
/// with code `23`.
pub proof fn format_codes_stay_apart(a: Seq<char>, b: Seq<char>)
    ensures
        pin_block_format(a) is Ok && pin_block_format(a) == pin_block_format(b) ==> a == b,
        pin_block_format(a) is Err ==> pin_block_format(a)->Err_0.code() == text::ascii_2('2', '3'),
{
}

/// A PIN verification key indicator: one decimal digit. `cmd` is named in
/// failures.
pub open spec fn pvki(cmd: Seq<char>, byte: u8) -> Result<i32, Failure> {
    if byte >= 0x80 {
        error::bad(cmd + ": PVKI not ASCII"@)
    } else if '0' as u8 <= byte <= '9' as u8 {
        Ok((byte - '0' as u8) as i32)
    } else {
        error::bad(cmd + ": invalid PVKI '"@ + seq![byte as char] + "'"@)
    }
}

/// A PIN verification key indicator.
pub(crate) fn parse_pvki(cmd: &str, byte: u8) -> (r: Result<i32, ProxyError>)
    ensures
        match r {
            Ok(n) => pvki(cmd@, byte) == Ok::<i32, Failure>(n),
            Err(e) => pvki(cmd@, byte) == Err::<i32, Failure>(e@),
        },
{
    if byte >= 0x80 {
        Err(ProxyError::MalformedPayload(owned(cmd).concat(": PVKI not ASCII")))
    } else if '0' as u8 <= byte && byte <= '9' as u8 {
        Ok((byte - '0' as u8) as i32)
    } else {
        Err(
            ProxyError::MalformedPayload(
                owned(cmd).concat(": invalid PVKI '").concat(byte_text(byte).as_str()).concat("'"),
            ),
        )
    }
}

// ── EMV session keys ─────────────────────────────────────────────────────────

/// How an EMV session key is derived.
#[derive(Clone, Copy, Debug, PartialEq, Eq, Structural)]
pub enum EmvSession {
    /// EMV common session key: PAN, sequence number, ATC.
    EmvCommon,
    /// EMV2000: PAN, sequence number, ATC.
    Emv2000,
    /// Mastercard proprietary: PAN, sequence number, ATC, unpredictable number.
    Mastercard,
    /// American Express: PAN, sequence number.
    Amex,
    /// Visa: PAN, sequence number.
    Visa,
}

/// The inputs of a session key derivation.
pub enum SessionKey<T = String> {
    EmvCommon { pan: T, pan_seq: T, atc: T },
    Emv2000 { pan: T, pan_seq: T, atc: T },
    Mastercard { pan: T, pan_seq: T, atc: T, un: T },
    Amex { pan: T, pan_seq: T },
    Visa { pan: T, pan_seq: T },
}

impl View for SessionKey<String> {
    type V = SessionKey<Seq<char>>;

    open spec fn view(&self) -> SessionKey<Seq<char>> {
        match self {
            SessionKey::EmvCommon { pan, pan_seq, atc } => SessionKey::EmvCommon {
                pan: pan@,
                pan_seq: pan_seq@,
                atc: atc@,
            },
            SessionKey::Emv2000 { pan, pan_seq, atc } => SessionKey::Emv2000 {
                pan: pan@,
                pan_seq: pan_seq@,
                atc: atc@,
            },
            SessionKey::Mastercard { pan, pan_seq, atc, un } => SessionKey::Mastercard {
                pan: pan@,
                pan_seq: pan_seq@,
                atc: atc@,
                un: un@,
            },
            SessionKey::Amex { pan, pan_seq } => SessionKey::Amex { pan: pan@, pan_seq: pan_seq@ },
            SessionKey::Visa { pan, pan_seq } => SessionKey::Visa { pan: pan@, pan_seq: pan_seq@ },
        }
    }
}

/// What contracts say of the inputs of a derivation holds of them: each is seen under its own
/// name.
pub proof fn session_keys_are_seen_as_they_are(v: SessionKey)
    ensures
        match v {
            SessionKey::EmvCommon { pan, pan_seq, atc } => v@ is EmvCommon && v@->EmvCommon_pan
                == pan@ && v@->EmvCommon_pan_seq == pan_seq@ && v@->EmvCommon_atc == atc@,
            SessionKey::Emv2000 { pan, pan_seq, atc } => v@ is Emv2000 && v@->Emv2000_pan == pan@
                && v@->Emv2000_pan_seq == pan_seq@ && v@->Emv2000_atc == atc@,
            SessionKey::Mastercard { pan, pan_seq, atc, un } => v@ is Mastercard
                && v@->Mastercard_pan == pan@ && v@->Mastercard_pan_seq == pan_seq@
                && v@->Mastercard_atc == atc@ && v@->un == un@,
            SessionKey::Amex { pan, pan_seq } => v@ is Amex && v@->Amex_pan == pan@
                && v@->Amex_pan_seq == pan_seq@,
            SessionKey::Visa { pan, pan_seq } => v@ is Visa && v@->Visa_pan == pan@
                && v@->Visa_pan_seq == pan_seq@,
        },
{
}

/// The derivation by `method`; what the method does not use is left out.
pub open spec fn session_key(
    method: EmvSession,
    pan: Seq<char>,
    pan_seq: Seq<char>,
    atc: Seq<char>,
    un: Seq<char>,
) -> SessionKey<Seq<char>> {
    match method {
        EmvSession::EmvCommon => SessionKey::EmvCommon { pan, pan_seq, atc },
        EmvSession::Emv2000 => SessionKey::Emv2000 { pan, pan_seq, atc },
        EmvSession::Mastercard => SessionKey::Mastercard { pan, pan_seq, atc, un },
        EmvSession::Amex => SessionKey::Amex { pan, pan_seq },
        EmvSession::Visa => SessionKey::Visa { pan, pan_seq },
    }
}

/// Gather the inputs of the session key derivation by `method`.
pub fn build_session_key(
    method: EmvSession,
    pan: &str,
    pan_seq: &str,
    atc: &str,
    un: &str,
) -> (r: SessionKey)
    ensures
        r@ == session_key(method, pan@, pan_seq@, atc@, un@),
{
    let pan = owned(pan);
    let pan_seq = owned(pan_seq);
    match method {
        EmvSession::EmvCommon => SessionKey::EmvCommon { pan, pan_seq, atc: owned(atc) },
        EmvSession::Emv2000 => SessionKey::Emv2000 { pan, pan_seq, atc: owned(atc) },
        EmvSession::Mastercard => SessionKey::Mastercard {
            pan,
            pan_seq,
            atc: owned(atc),
            un: owned(un),
        },
        EmvSession::Amex => SessionKey::Amex { pan, pan_seq },
        EmvSession::Visa => SessionKey::Visa { pan, pan_seq },
    }
}

// ── cryptograms ──────────────────────────────────────────────────────────────

/// What a command gives for the response cryptogram (ARPC).
pub enum ArpcParams<T = String> {
    Method1 { auth_response_code: T },
    Method2 { card_status_update: T, proprietary_auth_data: T },
}

impl View for ArpcParams<String> {
    type V = ArpcParams<Seq<char>>;

    open spec fn view(&self) -> ArpcParams<Seq<char>> {
        match self {
            ArpcParams::Method1 { auth_response_code } => ArpcParams::Method1 {
                auth_response_code: auth_response_code@,
            },
            ArpcParams::Method2 { card_status_update, proprietary_auth_data } =>
                ArpcParams::Method2 {
                card_status_update: card_status_update@,
                proprietary_auth_data: proprietary_auth_data@,
            },
        }
    }
}

/// The view of optional response parameters.
pub open spec fn maybe_arpc(a: Option<ArpcParams>) -> Option<ArpcParams<Seq<char>>> {
    match a {
        Some(x) => Some(x@),
        None => None,
    }
}

/// The response that is asked for; empty proprietary data is left out.
pub open spec fn auth_response(params: Option<ArpcParams<Seq<char>>>) -> Option<
    AuthResponse<Seq<char>>,
> {
    match params {
        None => None,
        Some(ArpcParams::Method1 { auth_response_code }) => Some(
            AuthResponse::Method1 { auth_response_code },
        ),
        Some(ArpcParams::Method2 { card_status_update, proprietary_auth_data }) => Some(
            AuthResponse::Method2 {
                card_status_update,
                proprietary_auth_data: if proprietary_auth_data.len() == 0 {
                    None
                } else {
                    Some(proprietary_auth_data)
                },
            },
        ),
    }
}

/// Turn response parameters into the attributes of the call.
pub(crate) fn build_auth_response(params: Option<ArpcParams>) -> (r: Option<AuthResponse>)
    ensures
        auth_response(maybe_arpc(params)) == match r {
            Some(x) => Some(x@),
            None => None,
        },
{
    match params {
        None => None,
        Some(ArpcParams::Method1 { auth_response_code }) => Some(
            AuthResponse::Method1 { auth_response_code },
        ),
        Some(ArpcParams::Method2 { card_status_update, proprietary_auth_data }) => {
            let empty: bool = proprietary_auth_data.as_str().is_empty();
            Some(
                AuthResponse::Method2 {
                    card_status_update,
                    proprietary_auth_data: if empty {
                        None
                    } else {
                        Some(proprietary_auth_data)
                    },
                },
            )
        },
    }
}

/// The transaction data of `n` bytes at `at`, padded, in hexadecimal.
pub open spec fn padded_hex_at(p: Seq<u8>, at: int, n: int) -> Seq<char> {
    text::hex_upper(emv_padded(p.subrange(at, at + n)))
}

/// Read transaction data, padded, as hexadecimal.
pub(crate) fn field_padded_hex(p: &[u8], at: usize, n: usize) -> (r: Secret)
    requires
        at + n <= p@.len(),
    ensures
        r@ == padded_hex_at(p@, at as int, n as int),
{
    assert(p.len() == p@.len());
    Secret::new(bytes_to_hex(emv_pad(&p[at..at + n]).as_slice()))
}

/// The byte at `at`, or that there is none, as a debug rendering shows it.
pub open spec fn byte_or_none(p: Seq<u8>, at: int) -> Seq<char> {
    if at < p.len() {
        "Some("@ + text::decimal(p[at] as nat) + ")"@
    } else {
        "None"@
    }
}

/// Show the byte at `at`, or that there is none.
pub(crate) fn show_byte(p: &[u8], at: usize) -> (r: String)
    ensures
        r@ == byte_or_none(p@, at as int),
{
    if at < p.len() {
        owned("Some(").concat(decimal_text(p[at] as u128).as_str()).concat(")")
    } else {
        owned("None")
    }
}

/// The fields of a cryptogram command behind its key are read as what they are, whatever stands
/// in front of them: account and sequence number, ATC, unpredictable number, the transaction
/// data behind its length, the delimiter, the cryptogram, and the response data behind it.
pub proof fn cryptogram_fields_are_read_in_place(
    front: Seq<u8>,
    pan: Seq<u8>,
    atc: Seq<u8>,
    un: Seq<u8>,
    data: Seq<u8>,
    arqc: Seq<u8>,
    tail: Seq<u8>,
)
    requires
        pan.len() == 8,
        atc.len() == 2,
        un.len() == 4,
        data.len() <= 0xFFFF,
        arqc.len() == 8,
    ensures
        ({
            let count = seq![(data.len() / 256) as u8, (data.len() % 256) as u8];
            let p = front + pan + atc + un + count + data + seq![0x3Bu8] + arqc + tail;
            let a = front.len() as int;
            let d = a + 16 + data.len();
            let t = d + 9;
            &&& p.len() == t + tail.len()
            &&& p.subrange(a, a + 8) == pan
            &&& p.subrange(a + 8, a + 10) == atc
            &&& p.subrange(a + 10, a + 14) == un
            &&& text::be16(p, a + 14) == data.len()
            &&& p.subrange(a + 16, d) == data
            &&& p[d] == 0x3Bu8
            &&& p.subrange(d + 1, d + 9) == arqc
            &&& tail.len() >= 2 ==> p.subrange(t, t + 2) == tail.subrange(0, 2)
            &&& tail.len() >= 4 ==> p.subrange(t, t + 4) == tail.subrange(0, 4)
            &&& tail.len() >= 5 ==> p[t + 4] == tail[4]
            &&& tail.len() >= 5 + tail[4] ==> p.subrange(t + 5, t + 5 + tail[4]) == tail.subrange(
                5,
                5 + tail[4],
            )
        }),
{
    let count = seq![(data.len() / 256) as u8, (data.len() % 256) as u8];
    let p = front + pan + atc + un + count + data + seq![0x3Bu8] + arqc + tail;
    let a = front.len() as int;
    assert(p[a + 14] == count[0] && p[a + 15] == count[1]);
}

/// The response data of a cryptogram command: the response code in mode `1`, the card status
/// update and the counted proprietary data in mode `2`.
pub proof fn response_data_is_read_in_place(response: Seq<u8>, pad: Seq<u8>, more: Seq<u8>)
    requires
        pad.len() <= 0xFF,
    ensures
        response.len() == 2 ==> (response + more).subrange(0, 2) == response,
        response.len() == 4 ==> {
            let tail = response + seq![pad.len() as u8] + pad + more;
            &&& tail.len() >= 5 + pad.len()
            &&& tail.subrange(0, 4) == response
            &&& tail[4] == pad.len()
            &&& tail.subrange(5, 5 + pad.len() as int) == pad
        },
{
}

// ── TR-31 key blocks ─────────────────────────────────────────────────────────

/// What is left of `p` from `at` on; nothing if `at` lies behind its end.
pub open spec fn rest(p: Seq<u8>, at: int) -> Seq<u8> {
    if 0 <= at <= p.len() {
        p.skip(at)
    } else {
        Seq::empty()
    }
}

/// The key check value of the first `KC` block among `count` optional blocks
/// that start at `pos`. An optional block is a two-character identifier, its own
/// length as two hexadecimal digits, and data; in a `KC` block two characters of
/// version precede the value. An extended length (`00`) ends the search.
pub open spec fn kc_value(area: Seq<u8>, pos: int, count: int) -> Result<Option<Seq<char>>, Failure>
    decreases count,
{
    let len_bytes = area.subrange(pos + 2, pos + 4);
    let len_text = decode_utf8(len_bytes);
    let len = text::word(len_text, 16);
    if count <= 0 {
        Ok(None)
    } else if area.len() < pos + 4 {
        error::bad("TR-31 optional block header truncated"@)
    } else if !valid_utf8(len_bytes) {
        error::bad("TR-31 opt block length not ASCII"@)
    } else if len is None {
        error::bad("TR-31 opt block length not hex: '"@ + len_text + "'"@)
    } else if len->0 == 0 {
        Ok(None)
    } else if len->0 < 4 || area.len() < pos + len->0 {
        error::bad("TR-31 optional block length inconsistent"@)
    } else if area.subrange(pos, pos + 2) == text::ascii_2('K', 'C') {
        let value = area.subrange(pos + 6, pos + len->0);
        if len->0 < 6 {
            error::bad("TR-31 KC optional block missing KCV"@)
        } else if !valid_utf8(value) {
            error::bad("TR-31 KC block value not ASCII"@)
        } else {
            Ok(Some(text::upper(decode_utf8(value))))
        }
    } else {
        kc_value(area, pos + len->0, count - 1)
    }
}

/// A TR-31 key block behind the prefix `S` at `at`, and how many bytes it takes.
/// Offsets in the block: 1 total length (four decimal digits), 5 key usage,
/// 7 algorithm, 12 number of optional blocks (two decimal digits), 16 the
/// optional blocks.
#[verifier::opaque]
pub open spec fn tr31_field(p: Seq<u8>, at: int) -> Result<(KeyField, int), Failure> {
    let r = rest(p, at);
    let block = r.skip(1);
    let len_bytes = block.subrange(1, 5);
    let len_text = decode_utf8(len_bytes);
    let len = text::word(len_text, 10);
    let usage = block.subrange(5, 7);
    let count_bytes = block.subrange(12, 14);
    let count_text = decode_utf8(count_bytes);
    let count = text::word(count_text, 10);
    let kcv = kc_value(block.subrange(16, len->0), 0, count->0);
    if r.len() == 0 || r[0] != 'S' as u8 {
        error::bad("expected 'S' prefix for TR-31 key block"@)
    } else if r.len() < 17 {
        error::bad("TR-31 block truncated: header needs 17 bytes, got "@ + text::decimal(r.len()))
    } else if !valid_utf8(len_bytes) {
        error::bad("TR-31 length field not ASCII"@)
    } else if len is None {
        error::bad("TR-31 length not decimal: '"@ + len_text + "'"@)
    } else if len->0 < 16 {
        error::bad("TR-31 length "@ + text::decimal(len->0 as nat) + " smaller than header"@)
    } else if r.len() < 1 + len->0 {
        error::bad(
            "TR-31 block truncated: declared "@ + text::decimal(len->0 as nat) + " bytes, got "@
                + text::decimal((r.len() - 1) as nat),
        )
    } else if !valid_utf8(usage) {
        error::bad("TR-31 key usage not ASCII"@)
    } else if !valid_utf8(count_bytes) {
        error::bad("TR-31 opt block count not ASCII"@)
    } else if count is None {
        error::bad("TR-31 opt block count not decimal: '"@ + count_text + "'"@)
    } else if kcv is Err {
        Err(kcv->Err_0)
    } else {
        Ok(
            (
                KeyDescriptor {
                    raw: text::lossy_text(r.take(1 + len->0)),
                    block: Some(
                        KeyBlockMeta {
                            key_usage: decode_utf8(usage),
                            algorithm: block[7] as char,
                            kcv: kcv->Ok_0,
                        },
                    ),
                },
                1 + len->0,
            ),
        )
    }
}

/// A byte that is a decimal digit.
pub open spec fn is_decimal(b: u8) -> bool {
    '0' as u8 <= b <= '9' as u8
}

/// A key block that is read writes its length in four decimal digits and the number
/// of its optional blocks in two.
pub proof fn key_blocks_are_numbered_in_digits(p: Seq<u8>, at: int)
    requires
        tr31_field(p, at) is Ok,
    ensures
        ({
            let block = rest(p, at).skip(1);
            &&& forall|i: int| 1 <= i < 5 ==> is_decimal(#[trigger] block[i])
            &&& forall|i: int| 12 <= i < 14 ==> is_decimal(#[trigger] block[i])
        }),
{
    reveal(tr31_field);
    let block = rest(p, at).skip(1);
    let (length, count) = (block.subrange(1, 5), block.subrange(12, 14));
    lemma_decimal_bytes(length);
    lemma_decimal_bytes(count);
    assert forall|i: int| 1 <= i < 5 implies is_decimal(#[trigger] block[i]) by {
        assert(length[i - 1] == block[i]);
    }
    assert forall|i: int| 12 <= i < 14 implies is_decimal(#[trigger] block[i]) by {
        assert(count[i - 12] == block[i]);
    }
}

proof fn lemma_decimal_bytes(bytes: Seq<u8>)
    requires
        valid_utf8(bytes),
        text::word(decode_utf8(bytes), 10) is Some,
    ensures
        forall|i: int| 0 <= i < bytes.len() ==> is_decimal(#[trigger] bytes[i]),
{
    let chars = decode_utf8(bytes);
    text::numbers_are_digits_throughout(chars, 10);
    assert forall|i: int| 0 <= i < chars.len() implies '0' <= #[trigger] chars[i] <= '9' by {
        assert(text::digit_value(chars[i], 10) is Some);
    }
    assert(is_ascii_chars(chars));
    is_ascii_chars_encode_utf8(chars);
    decode_utf8_encode_utf8(bytes);
    assert forall|i: int| 0 <= i < bytes.len() implies is_decimal(#[trigger] bytes[i]) by {
        assert(chars[i] as u8 == bytes[i]);
    }
}

/// A parsed key field as contracts speak of it.
pub open spec fn key_outcome(r: Result<(KeyDescriptor, usize), ProxyError>) -> Result<
    (KeyField, int),
    Failure,
> {
    match r {
        Ok((d, n)) => Ok((d@, n as int)),
        Err(e) => Err(e@),
    }
}

/// Walk the optional blocks of a key block in search of `KC`.
fn scan_kc_optional_block(area: &[u8], expected_count: usize) -> (r: Result<
    Option<String>,
    ProxyError,
>)
    ensures
        match r {
            Ok(v) => kc_value(area@, 0, expected_count as int) == Ok::<Option<Seq<char>>, Failure>(
                key_map::maybe(v),
            ),
            Err(e) => kc_value(area@, 0, expected_count as int) == Err::<
                Option<Seq<char>>,
                Failure,
            >(e@),
        },
{
    let mut pos: usize = 0;
    let mut left: usize = expected_count;
    while left > 0
        invariant
            pos <= area@.len(),
            kc_value(area@, 0, expected_count as int) == kc_value(area@, pos as int, left as int),
        decreases left,
    {
        if !fits(area, pos, 4) {
            return Err(malformed("TR-31 optional block header truncated"));
        }
        let len_text: String = match utf8(&area[pos + 2..pos + 4]) {
            Some(t) => t,
            None => {
                return Err(malformed("TR-31 opt block length not ASCII"));
            },
        };
        let len: usize = match word_of(len_text.as_str(), 16) {
            Some(n) => n,
            None => {
                return Err(
                    ProxyError::MalformedPayload(
                        owned("TR-31 opt block length not hex: '").concat(
                            len_text.as_str(),
                        ).concat("'"),
                    ),
                );
            },
        };
        if len == 0 {
            return Ok(None);
        }
        if len < 4 || !fits(area, pos, len) {
            return Err(malformed("TR-31 optional block length inconsistent"));
        }
        if is_ascii_2(&area[pos..pos + 2], 'K', 'C') {
            if len < 6 {
                return Err(malformed("TR-31 KC optional block missing KCV"));
            }
            return match utf8(&area[pos + 6..pos + len]) {
                Some(kcv) => Ok(Some(upper_text(kcv.as_str()))),
                None => Err(malformed("TR-31 KC block value not ASCII")),
            };
        }
        pos = pos + len;
        left = left - 1;
    }
    Ok(None)
}

/// Parse a TR-31 key block behind the prefix `S`. The block describes itself: its
/// length, usage and algorithm, and in a `KC` optional block its check value.
fn parse_tr31_block(buf: &[u8], offset: usize) -> (r: Result<(KeyDescriptor, usize), ProxyError>)
    ensures
        key_outcome(r) == tr31_field(buf@, offset as int),
        r is Ok ==> offset + r->Ok_0.1 <= buf@.len(),
{
    proof {
        reveal(tr31_field);
    }
    let ghost rem = rest(buf@, offset as int);
    if offset >= buf.len() || buf[offset] != 'S' as u8 {
        assert(offset < buf@.len() ==> rem[0] == buf@[offset as int]);
        return Err(malformed("expected 'S' prefix for TR-31 key block"));
    }
    let got: usize = buf.len() - offset;
    assert(rem[0] == buf@[offset as int]);
    if got < 17 {
        return Err(
            ProxyError::MalformedPayload(
                owned("TR-31 block truncated: header needs 17 bytes, got ").concat(
                    decimal_text(got as u128).as_str(),
                ),
            ),
        );
    }
    let block: &[u8] = &buf[offset + 1..buf.len()];
    assert(block@ =~= rem.skip(1));
    let len_text: String = match utf8(&block[1..5]) {
        Some(t) => t,
        None => {
            return Err(malformed("TR-31 length field not ASCII"));
        },
    };
    let block_len: usize = match word_of(len_text.as_str(), 10) {
        Some(n) => n,
        None => {
            return Err(
                ProxyError::MalformedPayload(
                    owned("TR-31 length not decimal: '").concat(len_text.as_str()).concat("'"),
                ),
            );
        },
    };
    if block_len < 16 {
        return Err(
            ProxyError::MalformedPayload(
                owned("TR-31 length ").concat(decimal_text(block_len as u128).as_str()).concat(
                    " smaller than header",
                ),
            ),
        );
    }
    if block.len() < block_len {
        return Err(
            ProxyError::MalformedPayload(
                owned("TR-31 block truncated: declared ").concat(
                    decimal_text(block_len as u128).as_str(),
                ).concat(" bytes, got ").concat(decimal_text(block.len() as u128).as_str()),
            ),
        );
    }
    let key_usage: String = match utf8(&block[5..7]) {
        Some(t) => t,
        None => {
            return Err(malformed("TR-31 key usage not ASCII"));
        },
    };
    let count_text: String = match utf8(&block[12..14]) {
        Some(t) => t,
        None => {
            return Err(malformed("TR-31 opt block count not ASCII"));
        },
    };
    let count: usize = match word_of(count_text.as_str(), 10) {
        Some(n) => n,
        None => {
            return Err(
                ProxyError::MalformedPayload(
                    owned("TR-31 opt block count not decimal: '").concat(
                        count_text.as_str(),
                    ).concat("'"),
                ),
            );
        },
    };
    let kcv: Option<String> = match scan_kc_optional_block(&block[16..block_len], count) {
        Ok(v) => v,
        Err(e) => {
            return Err(e);
        },
    };
    let raw: String = lossy(&buf[offset..offset + 1 + block_len]);
    assert(buf@.subrange(offset as int, offset + 1 + block_len) =~= rem.take(1 + block_len));
    Ok(
        (
            KeyDescriptor {
                raw,
                block: Some(KeyBlockMeta { key_usage, algorithm: block[7] as char, kcv }),
            },
            1 + block_len,
        ),
    )
}

// ── key fields ───────────────────────────────────────────────────────────────

/// A key field of `total` bytes at `at` that is not a key block. `need` and
/// `unit` are the wording of the failure when the payload ends before it does.
pub open spec fn plain_key(
    p: Seq<u8>,
    at: int,
    total: int,
    need: Seq<char>,
    unit: Seq<char>,
) -> Result<(KeyField, int), Failure> {
    let r = rest(p, at);
    if r.len() < total {
        error::bad(
            need + text::decimal(total as nat) + unit + text::decimal(at as nat) + ", got "@
                + text::decimal(r.len()),
        )
    } else {
        Ok((KeyField::plain(text::lossy_text(r.take(total))), total))
    }
}

/// A key field with a 16-digit baseline: 16 digits, `U` and 32, `T` and 48, or
/// `S` and a TR-31 key block.
#[verifier::opaque]
pub open spec fn legacy_key(p: Seq<u8>, at: int) -> Result<(KeyField, int), Failure> {
    let r = rest(p, at);
    if r.len() == 0 {
        error::bad("key field missing"@)
    } else if r[0] == 'S' as u8 {
        tr31_field(p, at)
    } else {
        plain_key(
            p,
            at,
            if r[0] == 'U' as u8 {
                33
            } else if r[0] == 'T' as u8 {
                49
            } else {
                16
            },
            "key field truncated: need "@,
            " bytes at offset "@,
        )
    }
}

/// A base derivation key field: 32 digits, `U` and 32, or `S` and a TR-31 key
/// block.
#[verifier::opaque]
pub open spec fn bdk_key(p: Seq<u8>, at: int) -> Result<(KeyField, int), Failure> {
    let r = rest(p, at);
    if r.len() == 0 {
        error::bad("BDK field missing"@)
    } else if r[0] == 'S' as u8 {
        tr31_field(p, at)
    } else {
        plain_key(
            p,
            at,
            if r[0] == 'U' as u8 {
                33
            } else {
                32
            },
            "BDK field truncated: need "@,
            " at offset "@,
        )
    }
}

/// A key field with a 32-digit baseline: 32 digits, `U` and 32, `T` and 48, or
/// `S` and a TR-31 key block.
#[verifier::opaque]
pub open spec fn key_32(p: Seq<u8>, at: int) -> Result<(KeyField, int), Failure> {
    let r = rest(p, at);
    if r.len() == 0 {
        error::bad("key field (32H-base) missing"@)
    } else if r[0] == 'S' as u8 {
        tr31_field(p, at)
    } else {
        plain_key(
            p,
            at,
            if r[0] == 'U' as u8 {
                33
            } else if r[0] == 'T' as u8 {
                49
            } else {
                32
            },
            "key field (32H-base) truncated: need "@,
            " at offset "@,
        )
    }
}

/// A key field that was read is not empty and lies within the payload.
pub proof fn key_fields_lie_within(p: Seq<u8>, at: int)
    requires
        0 <= at,
    ensures
        legacy_key(p, at) is Ok ==> 16 <= (legacy_key(p, at)->Ok_0).1 <= p.len() - at,
        bdk_key(p, at) is Ok ==> 17 <= (bdk_key(p, at)->Ok_0).1 <= p.len() - at,
        key_32(p, at) is Ok ==> 17 <= (key_32(p, at)->Ok_0).1 <= p.len() - at,
{
    reveal(legacy_key);
    reveal(bdk_key);
    reveal(key_32);
    reveal(tr31_field);
}

/// A key field or key serial number that cannot be read is answered with code `15`.
pub proof fn unreadable_fields_are_answered_15(p: Seq<u8>, at: int)
    ensures
        legacy_key(p, at) is Err ==> legacy_key(p, at)->Err_0.code() == text::ascii_2('1', '5'),
        bdk_key(p, at) is Err ==> bdk_key(p, at)->Err_0.code() == text::ascii_2('1', '5'),
        key_32(p, at) is Err ==> key_32(p, at)->Err_0.code() == text::ascii_2('1', '5'),
        ksn_field(p, at) is Err ==> ksn_field(p, at)->Err_0.code() == text::ascii_2('1', '5'),
{
    reveal(legacy_key);
    reveal(bdk_key);
    reveal(key_32);
    reveal(tr31_field);
    reveal(ksn_field);
    let r = rest(p, at);
    let block = r.skip(1);
    let len = text::word(decode_utf8(block.subrange(1, 5)), 10)->0;
    let count = text::word(decode_utf8(block.subrange(12, 14)), 10)->0;
    lemma_unreadable_blocks(block.subrange(16, len), 0, count);
}

proof fn lemma_unreadable_blocks(area: Seq<u8>, pos: int, count: int)
    ensures
        kc_value(area, pos, count) is Err ==> kc_value(area, pos, count)->Err_0
            is MalformedPayload,
    decreases count,
{
    if count > 0 {
        let len = text::word(decode_utf8(area.subrange(pos + 2, pos + 4)), 16);
        if len is Some {
            lemma_unreadable_blocks(area, pos + len->0, count - 1);
        }
    }
}

/// What follows a key field has no part in how the field is read.
pub proof fn key_fields_end_where_they_end(p: Seq<u8>, more: Seq<u8>, at: int)
    requires
        0 <= at,
    ensures
        legacy_key(p, at) is Ok ==> legacy_key(p + more, at) == legacy_key(p, at),
        bdk_key(p, at) is Ok ==> bdk_key(p + more, at) == bdk_key(p, at),
        key_32(p, at) is Ok ==> key_32(p + more, at) == key_32(p, at),
{
    reveal(legacy_key);
    reveal(bdk_key);
    reveal(key_32);
    if at < p.len() {
        let r = rest(p, at);
        assert(rest(p + more, at) =~= r + more);
        assert forall|n: int| 0 <= n <= r.len() implies #[trigger] (r + more).take(n) == r.take(
            n,
        ) by {
            assert((r + more).take(n) =~= r.take(n));
        }
        if tr31_field(p, at) is Ok {
            lemma_blocks_end_where_they_end(p, more, at);
        }
    }
}

proof fn lemma_blocks_end_where_they_end(p: Seq<u8>, more: Seq<u8>, at: int)
    requires
        0 <= at < p.len(),
        tr31_field(p, at) is Ok,
    ensures
        tr31_field(p + more, at) == tr31_field(p, at),
{
    reveal(tr31_field);
    let r = rest(p, at);
    let s = rest(p + more, at);
    assert(s =~= r + more);
    let (a, b) = (r.skip(1), s.skip(1));
    assert(b.subrange(1, 5) =~= a.subrange(1, 5));
    assert(b.subrange(5, 7) =~= a.subrange(5, 7));
    assert(b.subrange(12, 14) =~= a.subrange(12, 14));
    let len = text::word(decode_utf8(a.subrange(1, 5)), 10)->0;
    assert(b.subrange(16, len) =~= a.subrange(16, len));
    assert(s.take(1 + len) =~= r.take(1 + len));
    assert(b[7] == a[7]);
}

/// What stands before a key field or key serial number has no part in how it is
/// read.
pub proof fn fields_begin_where_they_begin(p: Seq<u8>, q: Seq<u8>, at: int)
    requires
        rest(p, at) == rest(q, at),
    ensures
        legacy_key(p, at) == legacy_key(q, at),
        bdk_key(p, at) == bdk_key(q, at),
        key_32(p, at) == key_32(q, at),
        ksn_field(p, at) == ksn_field(q, at),
{
    reveal(legacy_key);
    reveal(bdk_key);
    reveal(key_32);
    reveal(tr31_field);
    reveal(ksn_field);
}

/// `k` is a key field with a 16-digit baseline and nothing else.
pub open spec fn is_legacy_key(k: Seq<u8>) -> bool {
    legacy_key(k, 0) is Ok && (legacy_key(k, 0)->Ok_0).1 == k.len()
}

/// `k` is a base derivation key field and nothing else.
pub open spec fn is_bdk_key(k: Seq<u8>) -> bool {
    bdk_key(k, 0) is Ok && (bdk_key(k, 0)->Ok_0).1 == k.len()
}

/// `k` is a key field with a 32-digit baseline and nothing else.
pub open spec fn is_key_32(k: Seq<u8>) -> bool {
    key_32(k, 0) is Ok && (key_32(k, 0)->Ok_0).1 == k.len()
}

/// The key field `k`, with a 16-digit baseline, resolves to `arn`.
pub open spec fn legacy_key_is(keys: KeyTable, k: Seq<u8>, arn: Seq<char>) -> bool {
    is_legacy_key(k) && keys.resolved_field((legacy_key(k, 0)->Ok_0).0) == Ok::<
        Seq<char>,
        Failure,
    >(arn)
}

/// The base derivation key field `k` resolves to `arn`.
pub open spec fn bdk_key_is(keys: KeyTable, k: Seq<u8>, arn: Seq<char>) -> bool {
    is_bdk_key(k) && keys.resolved_field((bdk_key(k, 0)->Ok_0).0) == Ok::<Seq<char>, Failure>(arn)
}

/// The key field `k`, with a 32-digit baseline, resolves to `arn`.
pub open spec fn key_32_is(keys: KeyTable, k: Seq<u8>, arn: Seq<char>) -> bool {
    is_key_32(k) && keys.resolved_field((key_32(k, 0)->Ok_0).0) == Ok::<Seq<char>, Failure>(arn)
}

/// A key field is read as what it is wherever it stands in a payload, whatever stands
/// before and behind it.
pub proof fn key_fields_are_read_in_place(before: Seq<u8>, k: Seq<u8>, behind: Seq<u8>)
    ensures
        is_legacy_key(k) ==> legacy_key(before + k + behind, before.len() as int) == legacy_key(
            k,
            0,
        ),
        is_bdk_key(k) ==> bdk_key(before + k + behind, before.len() as int) == bdk_key(k, 0),
        is_key_32(k) ==> key_32(before + k + behind, before.len() as int) == key_32(k, 0),
{
    let p = before + k;
    let at = before.len() as int;
    assert(rest(p, at) =~= k);
    assert(rest(k, 0) =~= k);
    reveal(legacy_key);
    reveal(bdk_key);
    reveal(key_32);
    reveal(tr31_field);
    assert(is_legacy_key(k) ==> legacy_key(p, at) == legacy_key(k, 0));
    assert(is_bdk_key(k) ==> bdk_key(p, at) == bdk_key(k, 0));
    assert(is_key_32(k) ==> key_32(p, at) == key_32(k, 0));
    key_fields_end_where_they_end(p, behind, at);
}

/// Two key fields that a payload begins with are read as what they are.
pub proof fn leading_key_fields_are_read_in_place(
    first: Seq<u8>,
    second: Seq<u8>,
    behind: Seq<u8>,
)
    ensures
        ({
            let p = first + second + behind;
            let at = first.len() as int;
            &&& is_legacy_key(first) ==> legacy_key(p, 0) == legacy_key(first, 0)
            &&& is_bdk_key(first) ==> bdk_key(p, 0) == bdk_key(first, 0)
            &&& is_key_32(first) ==> key_32(p, 0) == key_32(first, 0)
            &&& is_legacy_key(second) ==> legacy_key(p, at) == legacy_key(second, 0)
            &&& is_bdk_key(second) ==> bdk_key(p, at) == bdk_key(second, 0)
            &&& is_key_32(second) ==> key_32(p, at) == key_32(second, 0)
        }),
{
    let p = first + second + behind;
    assert(p =~= Seq::<u8>::empty() + first + (second + behind));
    key_fields_are_read_in_place(Seq::empty(), first, second + behind);
    key_fields_are_read_in_place(first, second, behind);
}

/// A key field that is no key block is what its first letter says: `U` and 32 digits, `T`
/// and 48, or digits alone, 16 or 32 of them as the field has it. It is looked up by its
/// text.
pub proof fn key_fields_go_by_their_first_letter(k: Seq<u8>)
    requires
        k.len() > 0,
        k[0] != 'S' as u8,
    ensures
        is_legacy_key(k) <==> k.len() == if k[0] == 'U' as u8 {
            33nat
        } else if k[0] == 'T' as u8 {
            49
        } else {
            16
        },
        is_bdk_key(k) <==> k.len() == if k[0] == 'U' as u8 {
            33nat
        } else {
            32
        },
        is_key_32(k) <==> k.len() == if k[0] == 'U' as u8 {
            33nat
        } else if k[0] == 'T' as u8 {
            49
        } else {
            32
        },
        is_legacy_key(k) ==> (legacy_key(k, 0)->Ok_0).0 == KeyField::plain(text::lossy_text(k)),
        is_bdk_key(k) ==> (bdk_key(k, 0)->Ok_0).0 == KeyField::plain(text::lossy_text(k)),
        is_key_32(k) ==> (key_32(k, 0)->Ok_0).0 == KeyField::plain(text::lossy_text(k)),
{
    reveal(legacy_key);
    reveal(bdk_key);
    reveal(key_32);
    assert(rest(k, 0) =~= k);
    assert(k.take(k.len() as int) =~= k);
}

/// A key block is as long as its digits say, is read alike by every kind of key field, and
/// its header gives the usage in bytes 6 and 7 and the algorithm in byte 8 of the field.
pub proof fn key_blocks_go_by_their_headers(k: Seq<u8>)
    requires
        k.len() > 0,
        k[0] == 'S' as u8,
    ensures
        is_legacy_key(k) == is_key_32(k),
        is_legacy_key(k) == is_bdk_key(k),
        legacy_key(k, 0) == key_32(k, 0),
        legacy_key(k, 0) == bdk_key(k, 0),
        is_legacy_key(k) ==> {
            let f = (legacy_key(k, 0)->Ok_0).0;
            &&& k.len() >= 17
            &&& text::word(decode_utf8(k.subrange(2, 6)), 10) == Some(k.len() - 1)
            &&& f.raw == text::lossy_text(k)
            &&& f.block is Some
            &&& f.block->0.key_usage == decode_utf8(k.subrange(6, 8))
            &&& f.block->0.algorithm == k[8] as char
        },
{
    reveal(legacy_key);
    reveal(bdk_key);
    reveal(key_32);
    reveal(tr31_field);
    assert(rest(k, 0) =~= k);
    if is_legacy_key(k) {
        let block = k.skip(1);
        assert(block.subrange(1, 5) =~= k.subrange(2, 6));
        assert(block.subrange(5, 7) =~= k.subrange(6, 8));
        assert(k.take(k.len() as int) =~= k);
    }
}

/// The check value of a key block is what stands in its `KC` block behind the identifier,
/// the length and the two characters of version, in upper case, whatever stands before and
/// behind that block.
pub proof fn check_values_stand_in_kc_blocks(
    before: Seq<u8>,
    length: Seq<u8>,
    version: Seq<u8>,
    value: Seq<u8>,
    behind: Seq<u8>,
    count: int,
)
    requires
        count >= 1,
        length.len() == 2,
        version.len() == 2,
        valid_utf8(length),
        valid_utf8(value),
        text::word(decode_utf8(length), 16) == Some(6 + value.len() as int),
    ensures
        kc_value(
            before + text::ascii_2('K', 'C') + length + version + value + behind,
            before.len() as int,
            count,
        ) == Ok::<Option<Seq<char>>, Failure>(Some(text::upper(decode_utf8(value)))),
{
    let area = before + text::ascii_2('K', 'C') + length + version + value + behind;
    let at = before.len() as int;
    assert(area.subrange(at, at + 2) =~= text::ascii_2('K', 'C'));
    assert(area.subrange(at + 2, at + 4) =~= length);
    assert(area.subrange(at + 6, at + 6 + value.len() as int) =~= value);
}

/// An optional block other than `KC` is passed over by its length, and a block of extended
/// length ends the search.
pub proof fn other_optional_blocks_are_passed_over(
    before: Seq<u8>,
    id: Seq<u8>,
    length: Seq<u8>,
    data: Seq<u8>,
    behind: Seq<u8>,
    count: int,
)
    requires
        count >= 1,
        id.len() == 2,
        id != text::ascii_2('K', 'C'),
        length.len() == 2,
        valid_utf8(length),
    ensures
        ({
            let area = before + id + length + data + behind;
            let at = before.len() as int;
            &&& text::word(decode_utf8(length), 16) == Some(4 + data.len() as int) ==> kc_value(
                area,
                at,
                count,
            ) == kc_value(area, at + 4 + data.len(), count - 1)
            &&& text::word(decode_utf8(length), 16) == Some(0int) ==> kc_value(area, at, count)
                == Ok::<Option<Seq<char>>, Failure>(None)
            &&& kc_value(area, at, 0) == Ok::<Option<Seq<char>>, Failure>(None)
        }),
{
    let area = before + id + length + data + behind;
    let at = before.len() as int;
    assert(area.subrange(at, at + 2) =~= id);
    assert(area.subrange(at + 2, at + 4) =~= length);
}

/// A key block that is put together from its header and its optional blocks is read as what
/// it is: behind the `S` a version, the length in four digits, the usage, the algorithm, four
/// characters that are not looked at, the number of optional blocks in two digits, two more
/// characters, and the blocks with the key behind them.
#[verifier::rlimit(30)]
pub proof fn key_blocks_are_read_field_by_field(
    version: Seq<u8>,
    length: Seq<u8>,
    usage: Seq<u8>,
    algorithm: u8,
    mode: Seq<u8>,
    number: Seq<u8>,
    reserved: Seq<u8>,
    area: Seq<u8>,
    count: int,
)
    requires
        version.len() == 1,
        length.len() == 4,
        valid_utf8(length),
        text::word(decode_utf8(length), 10) == Some(16 + area.len() as int),
        usage.len() == 2,
        valid_utf8(usage),
        mode.len() == 4,
        number.len() == 2,
        valid_utf8(number),
        text::word(decode_utf8(number), 10) == Some(count),
        reserved.len() == 2,
        kc_value(area, 0, count) is Ok,
    ensures
        ({
            let k = seq!['S' as u8] + version + length + usage + seq![algorithm] + mode + number
                + reserved + area;
            &&& is_legacy_key(k)
            &&& (legacy_key(k, 0)->Ok_0).0 == (KeyDescriptor {
                raw: text::lossy_text(k),
                block: Some(
                    KeyBlockMeta {
                        key_usage: decode_utf8(usage),
                        algorithm: algorithm as char,
                        kcv: kc_value(area, 0, count)->Ok_0,
                    },
                ),
            })
        }),
{
    let k = seq!['S' as u8] + version + length + usage + seq![algorithm] + mode + number + reserved
        + area;
    let block = k.skip(1);
    reveal(legacy_key);
    reveal(tr31_field);
    assert(rest(k, 0) =~= k);
    assert(block.subrange(1, 5) =~= length);
    assert(block.subrange(5, 7) =~= usage);
    assert(block[7] == algorithm);
    assert(block.subrange(12, 14) =~= number);
    assert(block.subrange(16, 16 + area.len() as int) =~= area);
    assert(k.take(k.len() as int) =~= k);
}

fn take_plain(buf: &[u8], offset: usize, total: usize, need: &str, unit: &str) -> (r: Result<
    (KeyDescriptor, usize),
    ProxyError,
>)
    requires
        offset <= buf@.len(),
    ensures
        key_outcome(r) == plain_key(buf@, offset as int, total as int, need@, unit@),
        r is Ok ==> r->Ok_0.1 == total && offset + total <= buf@.len(),
{
    let got: usize = buf.len() - offset;
    if got < total {
        return Err(
            ProxyError::MalformedPayload(
                owned(need).concat(decimal_text(total as u128).as_str()).concat(unit).concat(
                    decimal_text(offset as u128).as_str(),
                ).concat(", got ").concat(decimal_text(got as u128).as_str()),
            ),
        );
    }
    let raw: String = lossy(&buf[offset..offset + total]);
    assert(buf@.subrange(offset as int, offset + total) =~= rest(buf@, offset as int).take(
        total as int,
    ));
    Ok((KeyDescriptor::label(raw), total))
}

/// Parse a variable-length key field: 16 digits, `U` and 32, `T` and 48, or `S`
/// and a TR-31 key block. Gives the field and how many bytes it takes.
pub fn parse_legacy_key(buf: &[u8], offset: usize) -> (r: Result<
    (KeyDescriptor, usize),
    ProxyError,
>)
    ensures
        key_outcome(r) == legacy_key(buf@, offset as int),
        r is Ok ==> offset + r->Ok_0.1 <= buf@.len(),
{
    proof {
        reveal(legacy_key);
    }
    if offset >= buf.len() {
        return Err(malformed("key field missing"));
    }
    let first: u8 = buf[offset];
    assert(rest(buf@, offset as int)[0] == first);
    if first == 'S' as u8 {
        return parse_tr31_block(buf, offset);
    }
    let total: usize = if first == 'U' as u8 {
        33
    } else if first == 'T' as u8 {
        49
    } else {
        16
    };
    take_plain(buf, offset, total, "key field truncated: need ", " bytes at offset ")
}

/// Parse a base derivation key field. Such a key is double length at least, so
/// the form without a prefix has 32 digits.
pub fn parse_bdk(buf: &[u8], offset: usize) -> (r: Result<(KeyDescriptor, usize), ProxyError>)
    ensures
        key_outcome(r) == bdk_key(buf@, offset as int),
        r is Ok ==> offset + r->Ok_0.1 <= buf@.len(),
{
    proof {
        reveal(bdk_key);
    }
    if offset >= buf.len() {
        return Err(malformed("BDK field missing"));
    }
    let first: u8 = buf[offset];
    assert(rest(buf@, offset as int)[0] == first);
    if first == 'S' as u8 {
        return parse_tr31_block(buf, offset);
    }
    let total: usize = if first == 'U' as u8 {
        33
    } else {
        32
    };
    take_plain(buf, offset, total, "BDK field truncated: need ", " at offset ")
}

/// Parse a key field whose form without a prefix has 32 digits.
pub fn parse_key_32(buf: &[u8], offset: usize) -> (r: Result<(KeyDescriptor, usize), ProxyError>)
    ensures
        key_outcome(r) == key_32(buf@, offset as int),
        r is Ok ==> offset + r->Ok_0.1 <= buf@.len(),
{
    proof {
        reveal(key_32);
    }
    if offset >= buf.len() {
        return Err(malformed("key field (32H-base) missing"));
    }
    let first: u8 = buf[offset];
    assert(rest(buf@, offset as int)[0] == first);
    if first == 'S' as u8 {
        return parse_tr31_block(buf, offset);
    }
    let total: usize = if first == 'U' as u8 {
        33
    } else if first == 'T' as u8 {
        49
    } else {
        32
    };
    take_plain(buf, offset, total, "key field (32H-base) truncated: need ", " at offset ")
}

// ── key serial numbers ───────────────────────────────────────────────────────

/// The DUKPT derivation types of APC.
#[derive(Clone, Copy, Debug, PartialEq, Eq, Structural)]
pub enum DukptDerivationType {
    Tdes2Key,
    Tdes3Key,
    Aes128,
    Aes192,
    Aes256,
}

/// A key serial number behind its three-character descriptor at `at`: the text,
/// how many bytes descriptor and number take, and the derivation that goes with
/// its length. Characters 1 and 2 of the descriptor are the length of the number
/// in hexadecimal digits; 20 is 3DES DUKPT (X9.24-1), 24 is AES DUKPT (X9.24-3).
#[verifier::opaque]
pub open spec fn ksn_field(p: Seq<u8>, at: int) -> Result<
    (Seq<char>, int, DukptDerivationType),
    Failure,
> {
    let r = rest(p, at);
    let len_bytes = r.subrange(1, 3);
    let len_text = decode_utf8(len_bytes);
    let len = text::word(len_text, 16);
    if r.len() < 3 {
        error::bad("KSN descriptor missing"@)
    } else if !valid_utf8(len_bytes) {
        error::bad("KSN descriptor not ASCII"@)
    } else if len is None {
        error::bad("KSN descriptor: invalid nibble count '"@ + len_text + "'"@)
    } else if r.len() < 3 + len->0 {
        error::bad(
            "KSN truncated: need "@ + text::decimal(len->0 as nat) + "H at offset "@
                + text::decimal((at + 3) as nat) + ", got "@ + text::decimal((r.len() - 3) as nat),
        )
    } else if len->0 == 20 {
        Ok((text::lossy_text(r.subrange(3, 23)), 23, DukptDerivationType::Tdes2Key))
    } else if len->0 == 24 {
        Ok((text::lossy_text(r.subrange(3, 27)), 27, DukptDerivationType::Aes128))
    } else {
        error::bad(
            "KSN length "@ + text::decimal(len->0 as nat)
                + "H not supported (expected 20H 3DES or 24H AES)"@,
        )
    }
}

/// A key serial number that was read lies within the payload, and what follows it has
/// no part in how it is read.
pub proof fn key_serial_numbers_end_where_they_end(p: Seq<u8>, more: Seq<u8>, at: int)
    requires
        0 <= at,
        ksn_field(p, at) is Ok,
    ensures
        23 <= (ksn_field(p, at)->Ok_0).1 <= p.len() - at,
        ksn_field(p + more, at) == ksn_field(p, at),
{
    reveal(ksn_field);
    let r = rest(p, at);
    assert(rest(p + more, at) =~= r + more);
    assert((r + more).subrange(1, 3) =~= r.subrange(1, 3));
    let n = (ksn_field(p, at)->Ok_0).1;
    assert((r + more).subrange(3, n) =~= r.subrange(3, n));
}

/// `d` is a key serial number with its descriptor and nothing else.
pub open spec fn is_ksn(d: Seq<u8>) -> bool {
    ksn_field(d, 0) is Ok && (ksn_field(d, 0)->Ok_0).1 == d.len()
}

/// A key serial number is read as what it is wherever it stands in a payload.
pub proof fn key_serial_numbers_are_read_in_place(before: Seq<u8>, d: Seq<u8>, behind: Seq<u8>)
    requires
        is_ksn(d),
    ensures
        ksn_field(before + d + behind, before.len() as int) == ksn_field(d, 0),
{
    let p = before + d;
    let at = before.len() as int;
    assert(rest(p, at) =~= d);
    assert(rest(d, 0) =~= d);
    assert(ksn_field(p, at) == ksn_field(d, 0)) by {
        reveal(ksn_field);
    }
    key_serial_numbers_end_where_they_end(p, behind, at);
}

/// A key serial number of twenty digits goes with 3DES and one of twenty-four with AES; no
/// other is read.
pub proof fn key_serial_numbers_go_by_their_length(d: Seq<u8>)
    requires
        is_ksn(d),
    ensures
        d.len() == 23 || d.len() == 27,
        text::word(decode_utf8(d.subrange(1, 3)), 16) == Some(d.len() - 3),
        (ksn_field(d, 0)->Ok_0).0 == text::lossy_text(d.skip(3)),
        (ksn_field(d, 0)->Ok_0).2 == if d.len() == 23 {
            DukptDerivationType::Tdes2Key
        } else {
            DukptDerivationType::Aes128
        },
{
    reveal(ksn_field);
    assert(rest(d, 0) =~= d);
    assert(d.subrange(3, d.len() as int) =~= d.skip(3));
}

/// A parsed key serial number as contracts speak of it.
pub open spec fn ksn_outcome(r: Result<(String, usize, DukptDerivationType), ProxyError>) -> Result<
    (Seq<char>, int, DukptDerivationType),
    Failure,
> {
    match r {
        Ok((s, n, d)) => Ok((s@, n as int, d)),
        Err(e) => Err(e@),
    }
}

/// Parse a key serial number and the descriptor in front of it.
pub fn parse_ksn_with_descriptor(buf: &[u8], offset: usize) -> (r: Result<
    (String, usize, DukptDerivationType),
    ProxyError,
>)
    ensures
        ksn_outcome(r) == ksn_field(buf@, offset as int),
        r is Ok ==> offset + r->Ok_0.1 <= buf@.len(),
{
    proof {
        reveal(ksn_field);
    }
    if !fits(buf, offset, 3) {
        return Err(malformed("KSN descriptor missing"));
    }
    let ghost rem = rest(buf@, offset as int);
    let len_text: String = match utf8(&buf[offset + 1..offset + 3]) {
        Some(t) => t,
        None => {
            assert(buf@.subrange(offset + 1, offset + 3) =~= rem.subrange(1, 3));
            return Err(malformed("KSN descriptor not ASCII"));
        },
    };
    assert(buf@.subrange(offset + 1, offset + 3) =~= rem.subrange(1, 3));
    let nibbles: usize = match word_of(len_text.as_str(), 16) {
        Some(n) => n,
        None => {
            return Err(
                ProxyError::MalformedPayload(
                    owned("KSN descriptor: invalid nibble count '").concat(
                        len_text.as_str(),
                    ).concat("'"),
                ),
            );
        },
    };
    let start: usize = offset + 3;
    if !fits(buf, start, nibbles) {
        return Err(
            ProxyError::MalformedPayload(
                owned("KSN truncated: need ").concat(decimal_text(nibbles as u128).as_str()).concat(
                    "H at offset ",
                ).concat(decimal_text(start as u128).as_str()).concat(", got ").concat(
                    decimal_text((buf.len() - start) as u128).as_str(),
                ),
            ),
        );
    }
    let ksn: String = lossy(&buf[start..start + nibbles]);
    assert(buf@.subrange(start as int, start + nibbles) =~= rem.subrange(3, 3 + nibbles));
    if nibbles == 20 {
        Ok((ksn, 23, DukptDerivationType::Tdes2Key))
    } else if nibbles == 24 {
        Ok((ksn, 27, DukptDerivationType::Aes128))
    } else {
        Err(
            ProxyError::MalformedPayload(
                owned("KSN length ").concat(decimal_text(nibbles as u128).as_str()).concat(
                    "H not supported (expected 20H 3DES or 24H AES)",
                ),
            ),
        )
    }
}

// ── hexadecimal and BCD ──────────────────────────────────────────────────────

/// Convert bytes to upper-case hexadecimal.
pub fn bytes_to_hex(bytes: &[u8]) -> (r: String)
    ensures
        r@ == text::hex_upper(bytes@),
{
    let mut s = String::new();
    let mut i: usize = 0;
    while i < bytes.len()
        invariant
            i <= bytes@.len(),
            s@ == text::hex_upper(bytes@.take(i as int)),
        decreases bytes@.len() - i,
    {
        let b: u8 = bytes[i];
        s.push(hex_digit_char(b / 16));
        s.push(hex_digit_char(b % 16));
        i = i + 1;
        assert(s@ =~= text::hex_upper(bytes@.take(i as int)));
    }
    assert(bytes@.take(i as int) =~= bytes@);
    s
}

/// The account number of an EMV pre-formatted PAN and sequence field: the first
/// fourteen of its sixteen digits, without the zeros in front.
pub open spec fn bcd_pan(bytes: Seq<u8>) -> Seq<char> {
    text::strip_start(text::hex_upper(bytes).subrange(0, 14), '0')
}

/// The sequence number of an EMV pre-formatted PAN and sequence field: its last
/// two digits.
pub open spec fn bcd_seq(bytes: Seq<u8>) -> Seq<char> {
    text::hex_upper(bytes).subrange(14, 16)
}

/// `s` with `c` in front up to `width` characters.
pub open spec fn filled_start(s: Seq<char>, c: char, width: nat) -> Seq<char> {
    if s.len() < width {
        Seq::new((width - s.len()) as nat, |i: int| c) + s
    } else {
        s
    }
}

/// Nothing is lost with the zeros in front of an account number: account and
/// sequence number, filled up again with zeros, are the digits of the field.
pub proof fn bcd_fields_are_restored(bytes: Seq<u8>)
    requires
        bytes.len() == 8,
    ensures
        filled_start(bcd_pan(bytes) + bcd_seq(bytes), '0', 16) == text::hex_upper(bytes),
{
    let hex = text::hex_upper(bytes);
    let front = hex.subrange(0, 14);
    lemma_strip_start(front, '0');
    assert(front + hex.subrange(14, 16) =~= hex);
    assert(filled_start(bcd_pan(bytes) + bcd_seq(bytes), '0', 16) =~= hex);
}

/// Of the eight bytes of an account and sequence number the last is the sequence number, and
/// the seven before it the account number, without the zeros in front.
pub proof fn bcd_fields_are_split_at_the_last_byte(bytes: Seq<u8>)
    requires
        bytes.len() == 8,
    ensures
        bcd_seq(bytes) == text::hex_upper(seq![bytes[7]]),
        filled_start(bcd_pan(bytes), '0', 14) == text::hex_upper(bytes.take(7)),
        bcd_pan(bytes).len() > 0 ==> bcd_pan(bytes)[0] != '0',
{
    let front = text::hex_upper(bytes).subrange(0, 14);
    lemma_strip_start(front, '0');
    lemma_stripped_begins(front, '0');
    assert(bcd_seq(bytes) =~= text::hex_upper(seq![bytes[7]]));
    assert(front =~= text::hex_upper(bytes.take(7)));
    assert(filled_start(bcd_pan(bytes), '0', 14) =~= front);
}

proof fn lemma_stripped_begins(s: Seq<char>, c: char)
    ensures
        text::strip_start(s, c).len() > 0 ==> text::strip_start(s, c)[0] != c,
    decreases s.len(),
{
    if s.len() > 0 && s[0] == c {
        lemma_stripped_begins(s.skip(1), c);
    }
}

proof fn lemma_strip_start(s: Seq<char>, c: char)
    ensures
        text::strip_start(s, c).len() <= s.len(),
        text::strip_start(s, c) == s.skip(s.len() - text::strip_start(s, c).len()),
        forall|i: int|
            0 <= i < s.len() - text::strip_start(s, c).len() ==> #[trigger] s[i] == c,
    decreases s.len(),
{
    if s.len() > 0 && s[0] == c {
        let t = s.skip(1);
        lemma_strip_start(t, c);
        assert(text::strip_start(s, c) == text::strip_start(t, c));
        assert(text::strip_start(s, c) =~= s.skip(s.len() - text::strip_start(s, c).len()));
        assert forall|i: int| 0 <= i < s.len() - text::strip_start(s, c).len() implies #[trigger] s[i]
            == c by {
            if i > 0 {
                assert(t[i - 1] == c);
            }
        }
    } else {
        assert(s.skip(0) =~= s);
    }
}

/// Decode the EMV pre-formatted PAN and PAN sequence field: the rightmost
/// sixteen digits of account number and two-digit sequence number, with zeros in
/// front, in BCD.
pub fn decode_bcd_pan_seq(bytes: [u8; 8]) -> (r: (String, String))
    ensures
        r.0@ == bcd_pan(bytes@),
        r.1@ == bcd_seq(bytes@),
{
    let hex: String = bytes_to_hex(&bytes);
    let pan: String = strip_start_text(hex.as_str().substring_char(0, 14), '0');
    let pan_seq: String = owned(hex.as_str().substring_char(14, 16));
    (pan, pan_seq)
}

} // verus!
