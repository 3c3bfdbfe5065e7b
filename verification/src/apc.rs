//! The data-plane calls of AWS Payment Cryptography, as plain values.
//!
//! A handler decides which call to make and with what; the surrounding program
//! sends it and hands back the reply. The type parameters are the text of
//! ordinary and of secret fields; in contracts both are sequences of characters.

use vstd::prelude::*;

use crate::handlers::thales::common::{DukptDerivationType, PinBlockFormat, SessionKey};
use crate::secret::Secret;

verus! {

/// Which MAC is computed.
#[derive(Clone, Copy, Debug, PartialEq, Eq, Structural)]
pub enum MacAlgorithm {
    Iso9797Algorithm1,
    Iso9797Algorithm3,
    Cmac,
    As280541,
}

/// How the card's master key is derived from the issuer's.
#[derive(Clone, Copy, Debug, PartialEq, Eq, Structural)]
pub enum MajorKeyDerivation {
    EmvOptionA,
    EmvOptionB,
}

/// The session-key method of an issuer-script MAC.
#[derive(Clone, Copy, Debug, PartialEq, Eq, Structural)]
pub enum SessionKeyDerivationMode {
    Emv2000,
    Visa,
    MastercardSessionKey,
    Amex,
    EmvCommonSessionKey,
}

/// The value that seeds the session key of an issuer-script MAC.
pub enum SmiValue<T = String> {
    /// The application transaction counter, four hexadecimal digits.
    Atc(T),
    /// The application cryptogram, sixteen hexadecimal digits.
    Ac(T),
}

/// The attributes of a MAC call.
pub enum MacScheme<T = String> {
    /// A MAC under the key itself.
    Algorithm(MacAlgorithm),
    /// A MAC under a DUKPT working key of the bidirectional variant.
    DukptBidirectional { algorithm: MacAlgorithm, ksn: T, derivation: DukptDerivationType },
    /// A MAC under an EMV session key that is derived by option A.
    EmvOptionA { pan: T, pan_seq: T, mode: SessionKeyDerivationMode, value: SmiValue<T> },
}

/// The attributes of an encryption or a decryption.
pub enum Cipher<T = String> {
    /// Symmetric, ECB.
    Ecb,
    /// Under an EMV session key that is derived by option A, CBC.
    EmvOptionACbc { pan: T, pan_seq: T, session_data: T },
}

/// The PIN block format on one side of a translation.
pub enum TranslationFormat<T = String> {
    IsoFormat0 { pan: T },
    IsoFormat1,
    IsoFormat3 { pan: T },
}

/// What a PIN is verified against.
pub enum PinCheck<T = String> {
    Ibm3624 { decimalization_table: T, pad_character: char, validation_data: T, offset: T },
    Visa { key_index: i32, value: T },
}

/// The DUKPT attributes of a PIN verification.
pub struct Dukpt<T = String> {
    pub ksn: T,
    pub derivation: DukptDerivationType,
}

/// What is generated from a PIN.
pub enum PinGeneration<T = String, S = Secret> {
    Ibm3624Offset { pin_block: S, decimalization_table: T, pad_character: char, validation_data: T },
    VisaValue { pin_block: S, key_index: i32 },
}

/// The response cryptogram that is asked for with a verification.
pub enum AuthResponse<T = String> {
    Method1 { auth_response_code: T },
    Method2 { card_status_update: T, proprietary_auth_data: Option<T> },
}

/// One call.
pub enum ApcCall<T = String, S = Secret> {
    GenerateMac { key: T, message: S, scheme: MacScheme<T>, mac_length: Option<i32> },
    VerifyMac { key: T, message: S, mac: T, scheme: MacScheme<T> },
    EncryptData { key: T, plain_text: S, cipher: Cipher<T> },
    DecryptData { key: T, cipher_text: S, cipher: Cipher<T> },
    TranslatePin {
        incoming_key: T,
        outgoing_key: T,
        pin_block: S,
        incoming: TranslationFormat<T>,
        outgoing: TranslationFormat<T>,
    },
    VerifyPin {
        encryption_key: T,
        verification_key: T,
        pin_block: S,
        pan: T,
        format: PinBlockFormat,
        check: PinCheck<T>,
        dukpt: Option<Dukpt<T>>,
    },
    GeneratePin {
        generation_key: T,
        encryption_key: T,
        generation: PinGeneration<T, S>,
        pan: T,
        format: PinBlockFormat,
    },
    GenerateCardValue { key: T, pan: T, expiry: T, service_code: T },
    VerifyCardValue { key: T, pan: T, value: T, expiry: T, service_code: T },
    VerifyCryptogram {
        key: T,
        transaction_data: S,
        cryptogram: T,
        derivation: MajorKeyDerivation,
        session: SessionKey<T>,
        response: Option<AuthResponse<T>>,
    },
}

/// What came back of a call.
pub enum ApcReply<T = String> {
    /// The MAC that was generated.
    Mac(T),
    /// The MAC, PIN or card value was accepted.
    Accepted,
    CipherText(T),
    PlainText(T),
    /// The translated PIN block.
    PinBlock(T),
    /// The IBM 3624 offset that was generated.
    PinOffset(T),
    /// The Visa PIN verification value that was generated.
    PinVerificationValue(T),
    /// PIN generation succeeded, but with neither of the two above.
    OtherPinData,
    /// The card value that was generated.
    CardValue(T),
    /// The cryptogram was accepted; the response cryptogram, if there is one.
    Cryptogram(Option<T>),
    /// APC reports a verification failure.
    VerificationFailed,
    /// The call failed in any other way.
    Failed(T),
}

/// A call as contracts speak of it.
pub type CallView = ApcCall<Seq<char>, Seq<char>>;

/// A reply as contracts speak of it.
pub type ReplyView = ApcReply<Seq<char>>;

impl View for SmiValue<String> {
    type V = SmiValue<Seq<char>>;

    open spec fn view(&self) -> SmiValue<Seq<char>> {
        match self {
            SmiValue::Atc(t) => SmiValue::Atc(t@),
            SmiValue::Ac(t) => SmiValue::Ac(t@),
        }
    }
}

impl View for MacScheme<String> {
    type V = MacScheme<Seq<char>>;

    open spec fn view(&self) -> MacScheme<Seq<char>> {
        match self {
            MacScheme::Algorithm(a) => MacScheme::Algorithm(*a),
            MacScheme::DukptBidirectional { algorithm, ksn, derivation } =>
                MacScheme::DukptBidirectional {
                algorithm: *algorithm,
                ksn: ksn@,
                derivation: *derivation,
            },
            MacScheme::EmvOptionA { pan, pan_seq, mode, value } => MacScheme::EmvOptionA {
                pan: pan@,
                pan_seq: pan_seq@,
                mode: *mode,
                value: value@,
            },
        }
    }
}

impl View for Cipher<String> {
    type V = Cipher<Seq<char>>;

    open spec fn view(&self) -> Cipher<Seq<char>> {
        match self {
            Cipher::Ecb => Cipher::Ecb,
            Cipher::EmvOptionACbc { pan, pan_seq, session_data } => Cipher::EmvOptionACbc {
                pan: pan@,
                pan_seq: pan_seq@,
                session_data: session_data@,
            },
        }
    }
}

impl View for TranslationFormat<String> {
    type V = TranslationFormat<Seq<char>>;

    open spec fn view(&self) -> TranslationFormat<Seq<char>> {
        match self {
            TranslationFormat::IsoFormat0 { pan } => TranslationFormat::IsoFormat0 { pan: pan@ },
            TranslationFormat::IsoFormat1 => TranslationFormat::IsoFormat1,
            TranslationFormat::IsoFormat3 { pan } => TranslationFormat::IsoFormat3 { pan: pan@ },
        }
    }
}

impl View for PinCheck<String> {
    type V = PinCheck<Seq<char>>;

    open spec fn view(&self) -> PinCheck<Seq<char>> {
        match self {
            PinCheck::Ibm3624 { decimalization_table, pad_character, validation_data, offset } =>
                PinCheck::Ibm3624 {
                decimalization_table: decimalization_table@,
                pad_character: *pad_character,
                validation_data: validation_data@,
                offset: offset@,
            },
            PinCheck::Visa { key_index, value } => PinCheck::Visa {
                key_index: *key_index,
                value: value@,
            },
        }
    }
}

impl View for Dukpt<String> {
    type V = Dukpt<Seq<char>>;

    open spec fn view(&self) -> Dukpt<Seq<char>> {
        Dukpt { ksn: self.ksn@, derivation: self.derivation }
    }
}

impl View for PinGeneration<String, Secret> {
    type V = PinGeneration<Seq<char>, Seq<char>>;

    open spec fn view(&self) -> PinGeneration<Seq<char>, Seq<char>> {
        match self {
            PinGeneration::Ibm3624Offset {
                pin_block,
                decimalization_table,
                pad_character,
                validation_data,
            } => PinGeneration::Ibm3624Offset {
                pin_block: pin_block@,
                decimalization_table: decimalization_table@,
                pad_character: *pad_character,
                validation_data: validation_data@,
            },
            PinGeneration::VisaValue { pin_block, key_index } => PinGeneration::VisaValue {
                pin_block: pin_block@,
                key_index: *key_index,
            },
        }
    }
}

impl View for AuthResponse<String> {
    type V = AuthResponse<Seq<char>>;

    open spec fn view(&self) -> AuthResponse<Seq<char>> {
        match self {
            AuthResponse::Method1 { auth_response_code } => AuthResponse::Method1 {
                auth_response_code: auth_response_code@,
            },
            AuthResponse::Method2 { card_status_update, proprietary_auth_data } =>
                AuthResponse::Method2 {
                card_status_update: card_status_update@,
                proprietary_auth_data: match proprietary_auth_data {
                    Some(d) => Some(d@),
                    None => None,
                },
            },
        }
    }
}

impl View for ApcCall<String, Secret> {
    type V = CallView;

    open spec fn view(&self) -> CallView {
        match self {
            ApcCall::GenerateMac { key, message, scheme, mac_length } => ApcCall::GenerateMac {
                key: key@,
                message: message@,
                scheme: scheme@,
                mac_length: *mac_length,
            },
            ApcCall::VerifyMac { key, message, mac, scheme } => ApcCall::VerifyMac {
                key: key@,
                message: message@,
                mac: mac@,
                scheme: scheme@,
            },
            ApcCall::EncryptData { key, plain_text, cipher } => ApcCall::EncryptData {
                key: key@,
                plain_text: plain_text@,
                cipher: cipher@,
            },
            ApcCall::DecryptData { key, cipher_text, cipher } => ApcCall::DecryptData {
                key: key@,
                cipher_text: cipher_text@,
                cipher: cipher@,
            },
            ApcCall::TranslatePin { incoming_key, outgoing_key, pin_block, incoming, outgoing } =>
                ApcCall::TranslatePin {
                incoming_key: incoming_key@,
                outgoing_key: outgoing_key@,
                pin_block: pin_block@,
                incoming: incoming@,
                outgoing: outgoing@,
            },
            ApcCall::VerifyPin {
                encryption_key,
                verification_key,
                pin_block,
                pan,
                format,
                check,
                dukpt,
            } => ApcCall::VerifyPin {
                encryption_key: encryption_key@,
                verification_key: verification_key@,
                pin_block: pin_block@,
                pan: pan@,
                format: *format,
                check: check@,
                dukpt: match dukpt {
                    Some(d) => Some(d@),
                    None => None,
                },
            },
            ApcCall::GeneratePin { generation_key, encryption_key, generation, pan, format } =>
                ApcCall::GeneratePin {
                generation_key: generation_key@,
                encryption_key: encryption_key@,
                generation: generation@,
                pan: pan@,
                format: *format,
            },
            ApcCall::GenerateCardValue { key, pan, expiry, service_code } =>
                ApcCall::GenerateCardValue {
                key: key@,
                pan: pan@,
                expiry: expiry@,
                service_code: service_code@,
            },
            ApcCall::VerifyCardValue { key, pan, value, expiry, service_code } =>
                ApcCall::VerifyCardValue {
                key: key@,
                pan: pan@,
                value: value@,
                expiry: expiry@,
                service_code: service_code@,
            },
            ApcCall::VerifyCryptogram {
                key,
                transaction_data,
                cryptogram,
                derivation,
                session,
                response,
            } => ApcCall::VerifyCryptogram {
                key: key@,
                transaction_data: transaction_data@,
                cryptogram: cryptogram@,
                derivation: *derivation,
                session: session@,
                response: match response {
                    Some(a) => Some(a@),
                    None => None,
                },
            },
        }
    }
}

impl View for ApcReply<String> {
    type V = ReplyView;

    open spec fn view(&self) -> ReplyView {
        match self {
            ApcReply::Mac(t) => ApcReply::Mac(t@),
            ApcReply::Accepted => ApcReply::Accepted,
            ApcReply::CipherText(t) => ApcReply::CipherText(t@),
            ApcReply::PlainText(t) => ApcReply::PlainText(t@),
            ApcReply::PinBlock(t) => ApcReply::PinBlock(t@),
            ApcReply::PinOffset(t) => ApcReply::PinOffset(t@),
            ApcReply::PinVerificationValue(t) => ApcReply::PinVerificationValue(t@),
            ApcReply::OtherPinData => ApcReply::OtherPinData,
            ApcReply::CardValue(t) => ApcReply::CardValue(t@),
            ApcReply::Cryptogram(t) => ApcReply::Cryptogram(
                match t {
                    Some(a) => Some(a@),
                    None => None,
                },
            ),
            ApcReply::VerificationFailed => ApcReply::VerificationFailed,
            ApcReply::Failed(t) => ApcReply::Failed(t@),
        }
    }
}

/// A seed of an issuer-script session key is seen as what it is.
pub proof fn script_seeds_are_seen_as_they_are(v: SmiValue)
    ensures
        match v {
            SmiValue::Atc(x0) => v@ == SmiValue::<Seq<char>>::Atc(x0@),
            SmiValue::Ac(x0) => v@ == SmiValue::<Seq<char>>::Ac(x0@),
        },
{
}

/// The attributes of a MAC call are seen as what they are, each under its own name.
pub proof fn mac_schemes_are_seen_as_they_are(v: MacScheme)
    ensures
        match v {
            MacScheme::Algorithm(x0) => v@ == MacScheme::<Seq<char>>::Algorithm(x0),
            MacScheme::DukptBidirectional { algorithm, ksn, derivation } => {
                &&& v@ matches MacScheme::DukptBidirectional {
                    algorithm: seen_algorithm,
                    ksn: seen_ksn,
                    derivation: seen_derivation,
                }
                &&& seen_algorithm == algorithm
                &&& seen_ksn == ksn@
                &&& seen_derivation == derivation
            },
            MacScheme::EmvOptionA { pan, pan_seq, mode, value } => {
                &&& v@ matches MacScheme::EmvOptionA {
                    pan: seen_pan,
                    pan_seq: seen_pan_seq,
                    mode: seen_mode,
                    value: seen_value,
                }
                &&& seen_pan == pan@
                &&& seen_pan_seq == pan_seq@
                &&& seen_mode == mode
                &&& seen_value == value@
            },
        },
{
}

/// The attributes of an encryption or decryption are seen as what they are.
pub proof fn ciphers_are_seen_as_they_are(v: Cipher)
    ensures
        match v {
            Cipher::Ecb => v@ is Ecb,
            Cipher::EmvOptionACbc { pan, pan_seq, session_data } => {
                &&& v@ matches Cipher::EmvOptionACbc {
                    pan: seen_pan,
                    pan_seq: seen_pan_seq,
                    session_data: seen_session_data,
                }
                &&& seen_pan == pan@
                &&& seen_pan_seq == pan_seq@
                &&& seen_session_data == session_data@
            },
        },
{
}

/// A PIN block format is seen as what it is.
pub proof fn formats_are_seen_as_they_are(v: TranslationFormat)
    ensures
        match v {
            TranslationFormat::IsoFormat0 { pan } => {
                &&& v@ matches TranslationFormat::IsoFormat0 { pan: seen_pan }
                &&& seen_pan == pan@
            },
            TranslationFormat::IsoFormat1 => v@ is IsoFormat1,
            TranslationFormat::IsoFormat3 { pan } => {
                &&& v@ matches TranslationFormat::IsoFormat3 { pan: seen_pan }
                &&& seen_pan == pan@
            },
        },
{
}

/// What a PIN is verified against is seen as what it is, each part under its own name.
pub proof fn pin_checks_are_seen_as_they_are(v: PinCheck)
    ensures
        match v {
            PinCheck::Ibm3624 { decimalization_table, pad_character, validation_data, offset } => {
                &&& v@ matches PinCheck::Ibm3624 {
                    decimalization_table: seen_decimalization_table,
                    pad_character: seen_pad_character,
                    validation_data: seen_validation_data,
                    offset: seen_offset,
                }
                &&& seen_decimalization_table == decimalization_table@
                &&& seen_pad_character == pad_character
                &&& seen_validation_data == validation_data@
                &&& seen_offset == offset@
            },
            PinCheck::Visa { key_index, value } => {
                &&& v@ matches PinCheck::Visa { key_index: seen_key_index, value: seen_value }
                &&& seen_key_index == key_index
                &&& seen_value == value@
            },
        },
{
}

/// What is generated from a PIN is seen as what it is, each part under its own name.
pub proof fn pin_generations_are_seen_as_they_are(v: PinGeneration)
    ensures
        match v {
            PinGeneration::Ibm3624Offset {
                pin_block,
                decimalization_table,
                pad_character,
                validation_data,
            } => {
                &&& v@ matches PinGeneration::Ibm3624Offset {
                    pin_block: seen_pin_block,
                    decimalization_table: seen_decimalization_table,
                    pad_character: seen_pad_character,
                    validation_data: seen_validation_data,
                }
                &&& seen_pin_block == pin_block@
                &&& seen_decimalization_table == decimalization_table@
                &&& seen_pad_character == pad_character
                &&& seen_validation_data == validation_data@
            },
            PinGeneration::VisaValue { pin_block, key_index } => {
                &&& v@ matches PinGeneration::VisaValue {
                    pin_block: seen_pin_block,
                    key_index: seen_key_index,
                }
                &&& seen_pin_block == pin_block@
                &&& seen_key_index == key_index
            },
        },
{
}

/// A response that is asked for is seen as what it is, each part under its own name.
pub proof fn responses_are_seen_as_they_are(v: AuthResponse)
    ensures
        match v {
            AuthResponse::Method1 { auth_response_code } => {
                &&& v@ matches AuthResponse::Method1 { auth_response_code: seen_auth_response_code }
                &&& seen_auth_response_code == auth_response_code@
            },
            AuthResponse::Method2 { card_status_update, proprietary_auth_data } => {
                &&& v@ matches AuthResponse::Method2 {
                    card_status_update: seen_card_status_update,
                    proprietary_auth_data: seen_proprietary_auth_data,
                }
                &&& seen_card_status_update == card_status_update@
                &&& match proprietary_auth_data {
                    Some(x) => seen_proprietary_auth_data == Some(x@),
                    None => seen_proprietary_auth_data is None,
                }
            },
        },
{
}

/// What contracts say of a call holds of the call itself: it is seen as the call that it is, and
/// each of its fields under its own name.
pub proof fn calls_are_seen_as_they_are(v: ApcCall)
    ensures
        match v {
            ApcCall::GenerateMac { key, message, scheme, mac_length } => {
                &&& v@ matches ApcCall::GenerateMac {
                    key: seen_key,
                    message: seen_message,
                    scheme: seen_scheme,
                    mac_length: seen_mac_length,
                }
                &&& seen_key == key@
                &&& seen_message == message@
                &&& seen_scheme == scheme@
                &&& seen_mac_length == mac_length
            },
            ApcCall::VerifyMac { key, message, mac, scheme } => {
                &&& v@ matches ApcCall::VerifyMac {
                    key: seen_key,
                    message: seen_message,
                    mac: seen_mac,
                    scheme: seen_scheme,
                }
                &&& seen_key == key@
                &&& seen_message == message@
                &&& seen_mac == mac@
                &&& seen_scheme == scheme@
            },
            ApcCall::EncryptData { key, plain_text, cipher } => {
                &&& v@ matches ApcCall::EncryptData {
                    key: seen_key,
                    plain_text: seen_plain_text,
                    cipher: seen_cipher,
                }
                &&& seen_key == key@
                &&& seen_plain_text == plain_text@
                &&& seen_cipher == cipher@
            },
            ApcCall::DecryptData { key, cipher_text, cipher } => {
                &&& v@ matches ApcCall::DecryptData {
                    key: seen_key,
                    cipher_text: seen_cipher_text,
                    cipher: seen_cipher,
                }
                &&& seen_key == key@
                &&& seen_cipher_text == cipher_text@
                &&& seen_cipher == cipher@
            },
            ApcCall::TranslatePin { incoming_key, outgoing_key, pin_block, incoming, outgoing } => {
                &&& v@ matches ApcCall::TranslatePin {
                    incoming_key: seen_incoming_key,
                    outgoing_key: seen_outgoing_key,
                    pin_block: seen_pin_block,
                    incoming: seen_incoming,
                    outgoing: seen_outgoing,
                }
                &&& seen_incoming_key == incoming_key@
                &&& seen_outgoing_key == outgoing_key@
                &&& seen_pin_block == pin_block@
                &&& seen_incoming == incoming@
                &&& seen_outgoing == outgoing@
            },
            ApcCall::VerifyPin {
                encryption_key,
                verification_key,
                pin_block,
                pan,
                format,
                check,
                dukpt,
            } => {
                &&& v@ matches ApcCall::VerifyPin {
                    encryption_key: seen_encryption_key,
                    verification_key: seen_verification_key,
                    pin_block: seen_pin_block,
                    pan: seen_pan,
                    format: seen_format,
                    check: seen_check,
                    dukpt: seen_dukpt,
                }
                &&& seen_encryption_key == encryption_key@
                &&& seen_verification_key == verification_key@
                &&& seen_pin_block == pin_block@
                &&& seen_pan == pan@
                &&& seen_format == format
                &&& seen_check == check@
                &&& match dukpt {
                    Some(x) => seen_dukpt == Some(x@),
                    None => seen_dukpt is None,
                }
            },
            ApcCall::GeneratePin { generation_key, encryption_key, generation, pan, format } => {
                &&& v@ matches ApcCall::GeneratePin {
                    generation_key: seen_generation_key,
                    encryption_key: seen_encryption_key,
                    generation: seen_generation,
                    pan: seen_pan,
                    format: seen_format,
                }
                &&& seen_generation_key == generation_key@
                &&& seen_encryption_key == encryption_key@
                &&& seen_generation == generation@
                &&& seen_pan == pan@
                &&& seen_format == format
            },
            ApcCall::GenerateCardValue { key, pan, expiry, service_code } => {
                &&& v@ matches ApcCall::GenerateCardValue {
                    key: seen_key,
                    pan: seen_pan,
                    expiry: seen_expiry,
                    service_code: seen_service_code,
                }
                &&& seen_key == key@
                &&& seen_pan == pan@
                &&& seen_expiry == expiry@
                &&& seen_service_code == service_code@
            },
            ApcCall::VerifyCardValue { key, pan, value, expiry, service_code } => {
                &&& v@ matches ApcCall::VerifyCardValue {
                    key: seen_key,
                    pan: seen_pan,
                    value: seen_value,
                    expiry: seen_expiry,
                    service_code: seen_service_code,
                }
                &&& seen_key == key@
                &&& seen_pan == pan@
                &&& seen_value == value@
                &&& seen_expiry == expiry@
                &&& seen_service_code == service_code@
            },
            ApcCall::VerifyCryptogram {
                key,
                transaction_data,
                cryptogram,
                derivation,
                session,
                response,
            } => {
                &&& v@ matches ApcCall::VerifyCryptogram {
                    key: seen_key,
                    transaction_data: seen_transaction_data,
                    cryptogram: seen_cryptogram,
                    derivation: seen_derivation,
                    session: seen_session,
                    response: seen_response,
                }
                &&& seen_key == key@
                &&& seen_transaction_data == transaction_data@
                &&& seen_cryptogram == cryptogram@
                &&& seen_derivation == derivation
                &&& seen_session == session@
                &&& match response {
                    Some(x) => seen_response == Some(x@),
                    None => seen_response is None,
                }
            },
        },
{
}

/// What contracts say of a reply holds of the reply itself.
pub proof fn replies_are_seen_as_they_are(v: ApcReply)
    ensures
        match v {
            ApcReply::Mac(x0) => v@ == ReplyView::Mac(x0@),
            ApcReply::Accepted => v@ is Accepted,
            ApcReply::CipherText(x0) => v@ == ReplyView::CipherText(x0@),
            ApcReply::PlainText(x0) => v@ == ReplyView::PlainText(x0@),
            ApcReply::PinBlock(x0) => v@ == ReplyView::PinBlock(x0@),
            ApcReply::PinOffset(x0) => v@ == ReplyView::PinOffset(x0@),
            ApcReply::PinVerificationValue(x0) => v@ == ReplyView::PinVerificationValue(x0@),
            ApcReply::OtherPinData => v@ is OtherPinData,
            ApcReply::CardValue(x0) => v@ == ReplyView::CardValue(x0@),
            ApcReply::Cryptogram(x0) => match x0 {
                    Some(x) => v@ == ReplyView::Cryptogram(Some(x@)),
                    None => v@ == ReplyView::Cryptogram(None),
                },
            ApcReply::VerificationFailed => v@ is VerificationFailed,
            ApcReply::Failed(x0) => v@ == ReplyView::Failed(x0@),
        },
{
}

} // verus!
