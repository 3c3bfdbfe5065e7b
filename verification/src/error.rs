//! What can go wrong with a command, and how it is answered on the wire.

use vstd::prelude::*;
use vstd::string::*;

#[allow(unused_imports)]
use crate::text;
use crate::text::{owned, quoted};

verus! {

/// Why a command could not be served. The type parameter is the text the
/// variants carry; in contracts it is a sequence of characters.
#[derive(Debug)]
pub enum ProxyError<T = String> {
    /// The key is neither an APC identifier nor known to the key map.
    KeyNotFound(T),
    /// The payload does not follow the command's field layout.
    MalformedPayload(T),
    /// The call to AWS Payment Cryptography failed.
    ApcError(T),
    /// The PIN block format has no counterpart in APC.
    UnsupportedPinFormat(T),
    /// The MAC mode or algorithm has no counterpart in APC.
    UnsupportedMacMode(T),
    /// The command, or the variant of it that was asked for, is not offered.
    Unsupported(T),
    /// APC refused the MAC, PIN, card value or cryptogram.
    VerificationFailed,
}

impl View for ProxyError<String> {
    type V = ProxyError<Seq<char>>;

    open spec fn view(&self) -> ProxyError<Seq<char>> {
        match self {
            ProxyError::KeyNotFound(t) => ProxyError::KeyNotFound(t@),
            ProxyError::MalformedPayload(t) => ProxyError::MalformedPayload(t@),
            ProxyError::ApcError(t) => ProxyError::ApcError(t@),
            ProxyError::UnsupportedPinFormat(t) => ProxyError::UnsupportedPinFormat(t@),
            ProxyError::UnsupportedMacMode(t) => ProxyError::UnsupportedMacMode(t@),
            ProxyError::Unsupported(t) => ProxyError::Unsupported(t@),
            ProxyError::VerificationFailed => ProxyError::VerificationFailed,
        }
    }
}

/// An error as contracts speak of it.
pub type Failure = ProxyError<Seq<char>>;

impl<T> ProxyError<T> {
    /// The two-digit payShield error code: `10` source key error, `15` invalid
    /// input data, `41` internal error, `23` invalid PIN block format, `68`
    /// command disabled, `01` verification failure.
    pub open spec fn code(self) -> Seq<u8> {
        match self {
            ProxyError::KeyNotFound(_) => text::ascii_2('1', '0'),
            ProxyError::MalformedPayload(_) => text::ascii_2('1', '5'),
            ProxyError::ApcError(_) => text::ascii_2('4', '1'),
            ProxyError::UnsupportedPinFormat(_) => text::ascii_2('2', '3'),
            ProxyError::UnsupportedMacMode(_) => text::ascii_2('1', '5'),
            ProxyError::Unsupported(_) => text::ascii_2('6', '8'),
            ProxyError::VerificationFailed => text::ascii_2('0', '1'),
        }
    }
}

impl ProxyError<String> {
    /// Map to a two-digit payShield error code.
    pub fn payshield_code(&self) -> (r: [u8; 2])
        ensures
            r@ == self.code(),
            r@ == self@.code(),
    {
        let r: [u8; 2] = match self {
            ProxyError::KeyNotFound(_) => ['1' as u8, '0' as u8],
            ProxyError::MalformedPayload(_) => ['1' as u8, '5' as u8],
            ProxyError::ApcError(_) => ['4' as u8, '1' as u8],
            ProxyError::UnsupportedPinFormat(_) => ['2' as u8, '3' as u8],
            ProxyError::UnsupportedMacMode(_) => ['1' as u8, '5' as u8],
            ProxyError::Unsupported(_) => ['6' as u8, '8' as u8],
            ProxyError::VerificationFailed => ['0' as u8, '1' as u8],
        };
        assert(r@ =~= self.code());
        r
    }
}

impl ProxyError<Seq<char>> {
    /// The error in words.
    pub open spec fn words(self) -> Seq<char> {
        match self {
            ProxyError::KeyNotFound(t) => "key not found in mapping: "@ + text::debug_text(t),
            ProxyError::MalformedPayload(t) => "malformed command payload: "@ + t,
            ProxyError::ApcError(t) => "APC API error: "@ + t,
            ProxyError::UnsupportedPinFormat(t) => "unsupported PIN block format: "@ + t,
            ProxyError::UnsupportedMacMode(t) => "unsupported MAC algorithm mode: "@ + t,
            ProxyError::Unsupported(t) => "unsupported command: "@ + t,
            ProxyError::VerificationFailed => "verification failed"@,
        }
    }
}

impl ProxyError<String> {
    /// The error in words.
    pub fn message(&self) -> (r: String)
        ensures
            r@ == self@.words(),
    {
        match self {
            ProxyError::KeyNotFound(t) => owned("key not found in mapping: ").concat(
                quoted(t.as_str()).as_str(),
            ),
            ProxyError::MalformedPayload(t) => owned("malformed command payload: ").concat(
                t.as_str(),
            ),
            ProxyError::ApcError(t) => owned("APC API error: ").concat(t.as_str()),
            ProxyError::UnsupportedPinFormat(t) => owned("unsupported PIN block format: ").concat(
                t.as_str(),
            ),
            ProxyError::UnsupportedMacMode(t) => owned("unsupported MAC algorithm mode: ").concat(
                t.as_str(),
            ),
            ProxyError::Unsupported(t) => owned("unsupported command: ").concat(t.as_str()),
            ProxyError::VerificationFailed => owned("verification failed"),
        }
    }
}

/// No error is answered with the success code `00`.
pub proof fn errors_are_never_answered_as_success(e: Failure)
    ensures
        e.code().len() == 2,
        e.code() != text::ascii_2('0', '0'),
{
    let c = e.code();
    let ok = text::ascii_2('0', '0');
    assert(c[0] != ok[0] || c[1] != ok[1]);
}

/// A result as contracts speak of it: both sides by their views.
pub open spec fn outcome<A: View, B: View>(r: Result<A, B>) -> Result<A::V, B::V> {
    match r {
        Ok(a) => Ok(a@),
        Err(b) => Err(b@),
    }
}

/// The failure of a malformed payload, with `why` as its text.
pub open spec fn bad<A>(why: Seq<char>) -> Result<A, Failure> {
    Err(ProxyError::MalformedPayload(why))
}

/// The failure of an unsupported command or variant, with `why` as its text.
pub open spec fn gated<A>(why: Seq<char>) -> Result<A, Failure> {
    Err(ProxyError::Unsupported(why))
}

/// What each failure is answered with: `10` for a key that is not found, `15` for a payload
/// that cannot be read or a MAC mode that has no counterpart, `23` for a PIN block format
/// that has none, `68` for what is not offered, `41` for a call that failed, and `01` for
/// what was verified and refused. Only an unreadable payload and a MAC mode share a code.
pub proof fn failures_are_answered_by_their_kind(e: Failure, t: Seq<char>)
    ensures
        Failure::KeyNotFound(t).code() == text::ascii_2('1', '0'),
        Failure::MalformedPayload(t).code() == text::ascii_2('1', '5'),
        Failure::UnsupportedMacMode(t).code() == text::ascii_2('1', '5'),
        Failure::UnsupportedPinFormat(t).code() == text::ascii_2('2', '3'),
        Failure::Unsupported(t).code() == text::ascii_2('6', '8'),
        Failure::ApcError(t).code() == text::ascii_2('4', '1'),
        Failure::VerificationFailed.code() == text::ascii_2('0', '1'),
        e.code() == text::ascii_2('0', '1') <==> e is VerificationFailed,
        e.code() == text::ascii_2('1', '0') <==> e is KeyNotFound,
        e.code() == text::ascii_2('6', '8') <==> e is Unsupported,
        e.code() == text::ascii_2('4', '1') <==> e is ApcError,
        e.code() == text::ascii_2('2', '3') <==> e is UnsupportedPinFormat,
        e.code() == text::ascii_2('1', '5') <==> e is MalformedPayload || e is UnsupportedMacMode,
{
    assert(text::ascii_2('0', '1')[0] == '0' as u8);
    assert(text::ascii_2('1', '0')[0] == '1' as u8 && text::ascii_2('1', '0')[1] == '0' as u8);
    assert(text::ascii_2('1', '5')[0] == '1' as u8 && text::ascii_2('1', '5')[1] == '5' as u8);
    assert(text::ascii_2('2', '3')[0] == '2' as u8);
    assert(text::ascii_2('4', '1')[0] == '4' as u8);
    assert(text::ascii_2('6', '8')[0] == '6' as u8);
}

/// Each failure is told in words of its own, with what it is about behind them.
pub proof fn failures_are_told_by_their_kind(t: Seq<char>)
    ensures
        Failure::KeyNotFound(t).words() == "key not found in mapping: "@ + text::debug_text(t),
        Failure::MalformedPayload(t).words() == "malformed command payload: "@ + t,
        Failure::ApcError(t).words() == "APC API error: "@ + t,
        Failure::UnsupportedPinFormat(t).words() == "unsupported PIN block format: "@ + t,
        Failure::UnsupportedMacMode(t).words() == "unsupported MAC algorithm mode: "@ + t,
        Failure::Unsupported(t).words() == "unsupported command: "@ + t,
        Failure::VerificationFailed.words() == "verification failed"@,
{
}

} // verus!
