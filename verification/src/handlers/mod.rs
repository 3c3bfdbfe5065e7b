//! Command handlers: what a command leads to, and what a reply is turned into.

pub mod evidence;
pub mod futurex;
pub mod grounding;
pub mod noop;
pub mod registry;
pub mod thales;

use vstd::prelude::*;
use vstd::string::*;
#[allow(unused_imports)]
use vstd::utf8;

use crate::apc::{ApcCall, ApcReply, CallView, Cipher, ReplyView};
#[allow(unused_imports)]
use crate::error;
use crate::error::{Failure, ProxyError};
use crate::handlers::grounding::Evidence;
use crate::key_map::{KeyMap, KeyTable};
use crate::secret::{Secret, SecretBytes};
#[allow(unused_imports)]
use crate::text;
use crate::text::{bytes_eq_ignoring_case, hex_4_text, pad_end_text, text_bytes};

verus! {

// ── results ──────────────────────────────────────────────────────────────────

/// What a command is answered: a two-digit error code and a payload. The type
/// parameters are how the two are held; in contracts both are sequences of bytes.
pub struct HandlerResult<C = [u8; 2], P = SecretBytes> {
    /// `00` is success.
    pub error_code: C,
    /// Wiped when dropped.
    pub payload: P,
}

/// An answer as contracts speak of it.
pub type Answer = HandlerResult<Seq<u8>, Seq<u8>>;

impl View for HandlerResult<[u8; 2], SecretBytes> {
    type V = Answer;

    open spec fn view(&self) -> Answer {
        HandlerResult { error_code: self.error_code@, payload: self.payload@ }
    }
}

/// Success with `payload`.
pub open spec fn answered(payload: Seq<u8>) -> Answer {
    HandlerResult { error_code: text::ascii_2('0', '0'), payload }
}

/// The error code alone.
pub open spec fn refused(code: Seq<u8>) -> Answer {
    HandlerResult { error_code: code, payload: Seq::empty() }
}

impl HandlerResult<[u8; 2], SecretBytes> {
    /// Success with `payload`.
    pub fn success(payload: Vec<u8>) -> (r: HandlerResult)
        ensures
            r@ == answered(payload@),
    {
        let error_code: [u8; 2] = ['0' as u8, '0' as u8];
        assert(error_code@ =~= text::ascii_2('0', '0'));
        HandlerResult { error_code, payload: SecretBytes::new(payload) }
    }

    /// An error code without a payload.
    pub fn err(code: [u8; 2]) -> (r: HandlerResult)
        ensures
            r@ == refused(code@),
    {
        HandlerResult { error_code: code, payload: SecretBytes::new(Vec::new()) }
    }

    /// The answer to an error.
    pub fn from_proxy_error(e: &ProxyError) -> (r: HandlerResult)
        ensures
            r@ == refused(e@.code()),
    {
        HandlerResult::err(e.payshield_code())
    }
}

// ── what is left to do after a call ──────────────────────────────────────────

/// How the answer is made from the reply to the last call.
pub enum Finish<T = String> {
    /// The first `chars` characters of the MAC.
    Mac { chars: usize },
    /// The first `chars` bytes of the MAC.
    MacBytes { chars: usize },
    /// The whole MAC.
    WholeMac,
    /// Nothing but the acceptance.
    Accepted,
    /// Acceptance if the first `chars` characters of the MAC are `mac`.
    MacPrefix { mac: T, chars: usize },
    CipherText,
    PlainText,
    /// Four hexadecimal digits of byte count, then the cipher text.
    FramedCipherText,
    /// Four hexadecimal digits of byte count, then the plain text.
    FramedPlainText,
    PinBlock,
    /// The offset, filled up with `F` to twelve characters.
    PinOffset,
    PinVerificationValue,
    CardValue,
    /// The response cryptogram, if there is one.
    Arpc,
    /// Nothing but the acceptance of the cryptogram.
    CryptogramAccepted,
}

impl View for Finish<String> {
    type V = Finish<Seq<char>>;

    open spec fn view(&self) -> Finish<Seq<char>> {
        match self {
            Finish::Mac { chars } => Finish::Mac { chars: *chars },
            Finish::MacBytes { chars } => Finish::MacBytes { chars: *chars },
            Finish::WholeMac => Finish::WholeMac,
            Finish::Accepted => Finish::Accepted,
            Finish::MacPrefix { mac, chars } => Finish::MacPrefix { mac: mac@, chars: *chars },
            Finish::CipherText => Finish::CipherText,
            Finish::PlainText => Finish::PlainText,
            Finish::FramedCipherText => Finish::FramedCipherText,
            Finish::FramedPlainText => Finish::FramedPlainText,
            Finish::PinBlock => Finish::PinBlock,
            Finish::PinOffset => Finish::PinOffset,
            Finish::PinVerificationValue => Finish::PinVerificationValue,
            Finish::CardValue => Finish::CardValue,
            Finish::Arpc => Finish::Arpc,
            Finish::CryptogramAccepted => Finish::CryptogramAccepted,
        }
    }
}

/// What the reply to a call is for.
pub enum Pending<T = String, S = Secret> {
    /// The reply gives the answer.
    Finish(Finish<T>),
    /// If the reply is an acceptance, `next` is called; its reply gives the
    /// answer.
    IfAccepted { next: ApcCall<T, S>, finish: Finish<T> },
    /// If the MAC in the reply begins with `mac`, `next` is called; its reply
    /// gives the answer.
    IfMacPrefix { mac: T, next: ApcCall<T, S>, finish: Finish<T> },
    /// The plain text in the reply is encrypted under `key`, and the cipher text
    /// is answered.
    EncryptUnder { key: T },
}

/// What is pending, as contracts speak of it.
pub type PendingView = Pending<Seq<char>, Seq<char>>;

impl View for Pending<String, Secret> {
    type V = PendingView;

    open spec fn view(&self) -> PendingView {
        match self {
            Pending::Finish(f) => Pending::Finish(f@),
            Pending::IfAccepted { next, finish } => Pending::IfAccepted {
                next: next@,
                finish: finish@,
            },
            Pending::IfMacPrefix { mac, next, finish } => Pending::IfMacPrefix {
                mac: mac@,
                next: next@,
                finish: finish@,
            },
            Pending::EncryptUnder { key } => Pending::EncryptUnder { key: key@ },
        }
    }
}

/// What a command, or the reply to a call, leads to.
pub enum Step<T = String, S = Secret, R = HandlerResult> {
    /// The command is answered.
    Done(R),
    /// A call is to be made, and its reply handed back with what is pending.
    Call { call: ApcCall<T, S>, then: Pending<T, S> },
}

/// A step as contracts speak of it.
pub type StepView = Step<Seq<char>, Seq<char>, Answer>;

impl View for Step<String, Secret, HandlerResult> {
    type V = StepView;

    open spec fn view(&self) -> StepView {
        match self {
            Step::Done(r) => Step::Done(r@),
            Step::Call { call, then } => Step::Call { call: call@, then: then@ },
        }
    }
}

/// The command is answered with the code of `e`.
pub open spec fn failed(e: Failure) -> StepView {
    Step::Done(refused(e.code()))
}

/// The command is answered with the code of `e`.
pub(crate) fn fail(e: &ProxyError) -> (r: Step)
    ensures
        r@ == failed(e@),
{
    Step::Done(HandlerResult::from_proxy_error(e))
}

/// The command is answered as disabled.
pub open spec fn disabled() -> StepView {
    Step::Done(refused(text::ascii_2('6', '8')))
}

/// The command is answered as disabled.
pub(crate) fn disable() -> (r: Step)
    ensures
        r@ == disabled(),
{
    let code: [u8; 2] = ['6' as u8, '8' as u8];
    assert(code@ =~= text::ascii_2('6', '8'));
    Step::Done(HandlerResult::err(code))
}

/// Call `call`, and answer by `finish`.
pub open spec fn ask(call: CallView, finish: Finish<Seq<char>>) -> StepView {
    Step::Call { call, then: Pending::Finish(finish) }
}

/// The smaller of two lengths.
pub open spec fn least(a: int, b: int) -> int {
    if a < b {
        a
    } else {
        b
    }
}

/// The first `n` bytes of the encoding of `s`, or all of it.
pub open spec fn lead(s: Seq<char>, n: int) -> Seq<u8> {
    utf8::encode_utf8(s).take(least(n, utf8::encode_utf8(s).len() as int))
}

/// Half the length of `s` as four hexadecimal digits, then `s`.
pub open spec fn framed(s: Seq<char>) -> Seq<u8> {
    utf8::encode_utf8(text::hex_4(utf8::encode_utf8(s).len() / 2)) + utf8::encode_utf8(s)
}

/// The answer that `finish` makes of `reply`. A reply that does not fit, and a
/// failure of the call, are answered with the code of an APC error.
pub open spec fn finished(finish: Finish<Seq<char>>, reply: ReplyView) -> Answer {
    match (finish, reply) {
        (Finish::Mac { chars }, ApcReply::Mac(m)) => answered(lead(m, chars as int)),
        (Finish::MacBytes { chars }, ApcReply::Mac(m)) => answered(lead(m, chars as int)),
        (Finish::WholeMac, ApcReply::Mac(m)) => answered(utf8::encode_utf8(m)),
        (Finish::Accepted, ApcReply::Accepted) => answered(Seq::empty()),
        (Finish::Accepted, ApcReply::VerificationFailed) => refused(
            Failure::VerificationFailed.code(),
        ),
        (Finish::MacPrefix { mac, chars }, ApcReply::Mac(m)) => if text::same_ignoring_case(
            utf8::encode_utf8(mac),
            lead(m, chars as int),
        ) {
            answered(Seq::empty())
        } else {
            refused(Failure::VerificationFailed.code())
        },
        (Finish::CipherText, ApcReply::CipherText(c)) => answered(utf8::encode_utf8(c)),
        (Finish::PlainText, ApcReply::PlainText(p)) => answered(utf8::encode_utf8(p)),
        (Finish::FramedCipherText, ApcReply::CipherText(c)) => answered(framed(c)),
        (Finish::FramedPlainText, ApcReply::PlainText(p)) => answered(framed(p)),
        (Finish::PinBlock, ApcReply::PinBlock(b)) => answered(utf8::encode_utf8(b)),
        (Finish::PinOffset, ApcReply::PinOffset(o)) => answered(
            utf8::encode_utf8(text::pad_end(o, 'F', 12)),
        ),
        (Finish::PinVerificationValue, ApcReply::PinVerificationValue(v)) => answered(
            utf8::encode_utf8(v),
        ),
        (Finish::CardValue, ApcReply::CardValue(v)) => answered(utf8::encode_utf8(v)),
        (Finish::Arpc, ApcReply::Cryptogram(Some(a))) => answered(utf8::encode_utf8(a)),
        (Finish::Arpc, ApcReply::Cryptogram(None)) => answered(Seq::empty()),
        (Finish::Arpc, ApcReply::VerificationFailed) => refused(Failure::VerificationFailed.code()),
        (Finish::CryptogramAccepted, ApcReply::Cryptogram(_)) => answered(Seq::empty()),
        (Finish::CryptogramAccepted, ApcReply::VerificationFailed) => refused(
            Failure::VerificationFailed.code(),
        ),
        _ => refused(text::ascii_2('4', '1')),
    }
}

/// What follows the reply to a call.
pub open spec fn resumed(pending: PendingView, reply: ReplyView) -> StepView {
    match (pending, reply) {
        (Pending::Finish(f), _) => Step::Done(finished(f, reply)),
        (Pending::IfAccepted { next, finish }, ApcReply::Accepted) => ask(next, finish),
        (Pending::IfAccepted { .. }, ApcReply::VerificationFailed) => failed(
            Failure::VerificationFailed,
        ),
        (Pending::IfMacPrefix { mac, next, finish }, ApcReply::Mac(m)) =>
            if text::same_ignoring_case(
            utf8::encode_utf8(mac),
            lead(m, utf8::encode_utf8(mac).len() as int),
        ) {
            ask(next, finish)
        } else {
            failed(Failure::VerificationFailed)
        },
        (Pending::EncryptUnder { key }, ApcReply::PlainText(p)) => ask(
            ApcCall::EncryptData { key, plain_text: p, cipher: Cipher::Ecb },
            Finish::FramedCipherText,
        ),
        _ => Step::Done(refused(text::ascii_2('4', '1'))),
    }
}

/// `n` bytes into the encoding of `s`, or its end, is the boundary of a character.
pub open spec fn cuts_cleanly(s: Seq<char>, n: int) -> bool {
    utf8::is_char_boundary(utf8::encode_utf8(s), least(n, utf8::encode_utf8(s).len() as int))
}

/// The reply can be cut where what is pending cuts it. Only a MAC can fail to be:
/// one that is shorter than the MAC it is compared with, or that is not ASCII.
pub open spec fn takes(pending: PendingView, reply: ReplyView) -> bool {
    match (pending, reply) {
        (Pending::Finish(Finish::Mac { chars }), ApcReply::Mac(m)) => cuts_cleanly(m, chars as int),
        (Pending::Finish(Finish::MacPrefix { chars, .. }), ApcReply::Mac(m)) => chars
            <= utf8::encode_utf8(m).len() && cuts_cleanly(m, chars as int),
        (Pending::IfMacPrefix { mac, .. }, ApcReply::Mac(m)) => cuts_cleanly(
            m,
            utf8::encode_utf8(mac).len() as int,
        ),
        _ => true,
    }
}

fn clean_cut(s: &str, n: usize) -> (r: bool)
    ensures
        r == cuts_cleanly(s@, n as int),
{
    let len: usize = s.as_bytes().len();
    s.is_char_boundary(if n < len { n } else { len })
}

fn lead_of(s: &str, n: usize) -> (r: Vec<u8>)
    ensures
        r@ == lead(s@, n as int),
{
    let bytes: &[u8] = s.as_bytes();
    let end: usize = if n < bytes.len() { n } else { bytes.len() };
    let r: Vec<u8> = vstd::slice::slice_to_vec(&bytes[0..end]);
    assert(r@ =~= lead(s@, n as int));
    r
}

fn frame(s: &str) -> (r: Vec<u8>)
    ensures
        r@ == framed(s@),
{
    let bytes: &[u8] = s.as_bytes();
    let mut r: Vec<u8> = text_bytes(hex_4_text(bytes.len() / 2).as_str());
    r.extend_from_slice(bytes);
    assert(r@ =~= framed(s@));
    r
}

fn apc_failure() -> (r: HandlerResult)
    ensures
        r@ == refused(text::ascii_2('4', '1')),
{
    let code: [u8; 2] = ['4' as u8, '1' as u8];
    assert(code@ =~= text::ascii_2('4', '1'));
    HandlerResult::err(code)
}

fn mismatch() -> (r: HandlerResult)
    ensures
        r@ == refused(Failure::VerificationFailed.code()),
{
    HandlerResult::from_proxy_error(&ProxyError::VerificationFailed)
}

/// The answer that `finish` makes of `reply`.
fn answer(finish: Finish, reply: ApcReply) -> (r: HandlerResult)
    ensures
        r@ == finished(finish@, reply@),
{
    match (finish, reply) {
        (Finish::Mac { chars }, ApcReply::Mac(m)) => HandlerResult::success(
            lead_of(m.as_str(), chars),
        ),
        (Finish::MacBytes { chars }, ApcReply::Mac(m)) => HandlerResult::success(
            lead_of(m.as_str(), chars),
        ),
        (Finish::WholeMac, ApcReply::Mac(m)) => HandlerResult::success(text_bytes(m.as_str())),
        (Finish::Accepted, ApcReply::Accepted) => HandlerResult::success(Vec::new()),
        (Finish::Accepted, ApcReply::VerificationFailed) => mismatch(),
        (Finish::MacPrefix { mac, chars }, ApcReply::Mac(m)) => {
            if bytes_eq_ignoring_case(mac.as_str().as_bytes(), lead_of(m.as_str(), chars).as_slice()) {
                HandlerResult::success(Vec::new())
            } else {
                mismatch()
            }
        },
        (Finish::CipherText, ApcReply::CipherText(c)) => HandlerResult::success(
            text_bytes(c.as_str()),
        ),
        (Finish::PlainText, ApcReply::PlainText(p)) => HandlerResult::success(
            text_bytes(p.as_str()),
        ),
        (Finish::FramedCipherText, ApcReply::CipherText(c)) => HandlerResult::success(
            frame(c.as_str()),
        ),
        (Finish::FramedPlainText, ApcReply::PlainText(p)) => HandlerResult::success(
            frame(p.as_str()),
        ),
        (Finish::PinBlock, ApcReply::PinBlock(b)) => HandlerResult::success(
            text_bytes(b.as_str()),
        ),
        (Finish::PinOffset, ApcReply::PinOffset(o)) => HandlerResult::success(
            text_bytes(pad_end_text(o.as_str(), 'F', 12).as_str()),
        ),
        (Finish::PinVerificationValue, ApcReply::PinVerificationValue(v)) => HandlerResult::success(
            text_bytes(v.as_str()),
        ),
        (Finish::CardValue, ApcReply::CardValue(v)) => HandlerResult::success(
            text_bytes(v.as_str()),
        ),
        (Finish::Arpc, ApcReply::Cryptogram(Some(a))) => HandlerResult::success(
            text_bytes(a.as_str()),
        ),
        (Finish::Arpc, ApcReply::Cryptogram(None)) => HandlerResult::success(Vec::new()),
        (Finish::Arpc, ApcReply::VerificationFailed) => mismatch(),
        (Finish::CryptogramAccepted, ApcReply::Cryptogram(_)) => HandlerResult::success(Vec::new()),
        (Finish::CryptogramAccepted, ApcReply::VerificationFailed) => mismatch(),
        _ => apc_failure(),
    }
}

impl Pending<String, Secret> {
    /// Whether the reply can be cut where what is pending cuts it.
    pub fn accepts(&self, reply: &ApcReply) -> (r: bool)
        ensures
            r == takes(self@, reply@),
    {
        match (self, reply) {
            (Pending::Finish(Finish::Mac { chars }), ApcReply::Mac(m)) => clean_cut(
                m.as_str(),
                *chars,
            ),
            (Pending::Finish(Finish::MacPrefix { chars, .. }), ApcReply::Mac(m)) => *chars
                <= m.as_str().as_bytes().len() && clean_cut(m.as_str(), *chars),
            (Pending::IfMacPrefix { mac, .. }, ApcReply::Mac(m)) => clean_cut(
                m.as_str(),
                mac.as_str().as_bytes().len(),
            ),
            _ => true,
        }
    }
}

/// Go on with the reply to a call.
pub fn resume(pending: Pending, reply: ApcReply) -> (r: Step)
    requires
        takes(pending@, reply@),
    ensures
        r@ == resumed(pending@, reply@),
{
    match (pending, reply) {
        (Pending::Finish(f), reply) => Step::Done(answer(f, reply)),
        (Pending::IfAccepted { next, finish }, ApcReply::Accepted) => Step::Call {
            call: next,
            then: Pending::Finish(finish),
        },
        (Pending::IfAccepted { .. }, ApcReply::VerificationFailed) => Step::Done(mismatch()),
        (Pending::IfMacPrefix { mac, next, finish }, ApcReply::Mac(m)) => {
            let wanted: &[u8] = mac.as_str().as_bytes();
            if bytes_eq_ignoring_case(wanted, lead_of(m.as_str(), wanted.len()).as_slice()) {
                Step::Call { call: next, then: Pending::Finish(finish) }
            } else {
                Step::Done(mismatch())
            }
        },
        (Pending::EncryptUnder { key }, ApcReply::PlainText(p)) => Step::Call {
            call: ApcCall::EncryptData { key, plain_text: Secret::new(p), cipher: Cipher::Ecb },
            then: Pending::Finish(Finish::FramedCipherText),
        },
        _ => Step::Done(apc_failure()),
    }
}

// ── handlers ─────────────────────────────────────────────────────────────────

/// A command handler.
pub trait Handler {
    /// The command codes that the handler answers to.
    spec fn codes(&self) -> Seq<Seq<char>>;

    /// What a command leads to.
    spec fn step(&self, command_code: Seq<u8>, payload: Seq<u8>, keys: KeyTable) -> StepView;

    /// The evidence for how the handler behaves.
    spec fn evidence(&self) -> Seq<Evidence>;

    /// The command codes that the handler answers to.
    fn command_codes(&self) -> (r: Vec<&'static str>)
        ensures
            text::texts(r@) == self.codes(),
    ;

    /// Handle a command: answer it, or say which call to make first.
    fn start(&self, command_code: &[u8], payload: &[u8], keys: &KeyMap) -> (r: Step)
        requires
            keys.wf(),
        ensures
            r@ == self.step(command_code@, payload@, keys@),
    ;

    /// The evidence for how the handler behaves.
    fn grounding(&self) -> (r: Vec<Evidence>)
        ensures
            r@ == self.evidence(),
    ;
}

// ── laws ─────────────────────────────────────────────────────────────────────

/// What fails is answered with a code other than success, and without a payload.
pub broadcast proof fn failures_are_quiet(e: Failure)
    ensures
        (#[trigger] failed(e)) matches Step::Done(r) && r.payload.len() == 0 && r.error_code
            != text::ascii_2('0', '0'),
{
    error::errors_are_never_answered_as_success(e);
}

/// A verification that APC refuses is never answered with success, never with a
/// payload, and never followed by another call, whatever is pending.
pub proof fn refused_verifications_end_the_command(pending: PendingView)
    ensures
        resumed(pending, ApcReply::VerificationFailed) matches Step::Done(r) && r.payload.len()
            == 0 && (r.error_code == text::ascii_2('0', '1') || r.error_code == text::ascii_2(
            '4',
            '1',
        )),
{
}

/// A call that fails is answered with code `41`, whatever is pending.
pub proof fn failed_calls_are_answered_41(pending: PendingView, why: Seq<char>)
    ensures
        resumed(pending, ApcReply::Failed(why)) == StepView::Done(
            refused(text::ascii_2('4', '1')),
        ),
{
}

/// No command takes more than two calls: what follows a reply is an answer, or a
/// call whose reply, whatever it is, gives the answer.
pub proof fn commands_take_at_most_two_calls(pending: PendingView, first: ReplyView, second: ReplyView)
    ensures
        match resumed(pending, first) {
            Step::Done(_) => true,
            Step::Call { then, .. } => resumed(then, second) is Done,
        },
{
}

/// The data behind a framed answer is preceded by its length: four hexadecimal
/// digits, as long as they suffice.
pub proof fn framed_answers_begin_with_their_length(s: Seq<char>)
    requires
        utf8::encode_utf8(s).len() / 2 <= 0xFFFF,
    ensures
        framed(s).len() == 4 + utf8::encode_utf8(s).len(),
        framed(s).skip(4) == utf8::encode_utf8(s),
{
    let n = utf8::encode_utf8(s).len() / 2;
    text::hex_4_has_four_digits(n);
    utf8::is_ascii_chars_encode_utf8(text::hex_4(n));
    assert(framed(s).skip(4) =~= utf8::encode_utf8(s));
}

/// Only a reply of the kind that was asked for is answered with success: a MAC where a MAC
/// was asked for, an acceptance where one was, and so on. Any other reply is answered with
/// an error and without a payload.
pub proof fn only_fitting_replies_are_answered_with_success(
    finish: Finish<Seq<char>>,
    reply: ReplyView,
)
    ensures
        ({
            let r = finished(finish, reply);
            let fits = match finish {
                Finish::Mac { .. } => reply is Mac,
                Finish::MacBytes { .. } => reply is Mac,
                Finish::WholeMac => reply is Mac,
                Finish::MacPrefix { .. } => reply is Mac,
                Finish::Accepted => reply is Accepted,
                Finish::CipherText => reply is CipherText,
                Finish::FramedCipherText => reply is CipherText,
                Finish::PlainText => reply is PlainText,
                Finish::FramedPlainText => reply is PlainText,
                Finish::PinBlock => reply is PinBlock,
                Finish::PinOffset => reply is PinOffset,
                Finish::PinVerificationValue => reply is PinVerificationValue,
                Finish::CardValue => reply is CardValue,
                Finish::Arpc => reply is Cryptogram,
                Finish::CryptogramAccepted => reply is Cryptogram,
            };
            &&& r.error_code == text::ascii_2('0', '0') ==> fits
            &&& fits && !(finish is MacPrefix) ==> r.error_code == text::ascii_2('0', '0')
            &&& r.error_code != text::ascii_2('0', '0') ==> r.payload.len() == 0
            &&& !fits && !(reply is VerificationFailed) ==> r.error_code == text::ascii_2('4', '1')
        }),
{
    assert(text::ascii_2('0', '0')[1] == '0' as u8 && text::ascii_2('0', '0')[0] == '0' as u8);
    assert(text::ascii_2('0', '1')[1] == '1' as u8);
    assert(text::ascii_2('4', '1')[0] == '4' as u8);
}

/// A command waits for what it was told to wait for: nothing follows an acceptance, a MAC or
/// a plain text but the call that was put off until then, and nothing follows any other reply.
pub proof fn only_fitting_replies_lead_to_another_call(pending: PendingView, reply: ReplyView)
    ensures
        resumed(pending, reply) matches Step::Call { call, .. } ==> match pending {
            Pending::Finish(_) => false,
            Pending::IfAccepted { next, .. } => reply is Accepted && call == next,
            Pending::IfMacPrefix { mac, next, .. } => {
                &&& reply is Mac
                &&& call == next
                &&& text::same_ignoring_case(
                    utf8::encode_utf8(mac),
                    lead(reply->Mac_0, utf8::encode_utf8(mac).len() as int),
                )
            },
            Pending::EncryptUnder { key } => reply is PlainText && call
                == (ApcCall::EncryptData { key, plain_text: reply->PlainText_0,
                    cipher: Cipher::Ecb }),
        },
{
}

/// A MAC of ASCII characters can be cut anywhere: it is taken, whatever is pending, unless it is
/// shorter than what it is compared with.
pub proof fn plain_replies_are_taken(pending: PendingView, mac: Seq<char>)
    requires
        utf8::is_ascii_chars(mac),
    ensures
        !(pending matches Pending::Finish(Finish::MacPrefix { .. })) ==> takes(
            pending,
            ApcReply::Mac(mac),
        ),
        pending matches Pending::Finish(Finish::MacPrefix { chars, .. }) ==> (takes(
            pending,
            ApcReply::Mac(mac),
        ) <==> chars <= mac.len()),
{
    utf8::is_ascii_chars_encode_utf8(mac);
    let bytes = utf8::encode_utf8(mac);
    utf8::encode_utf8_valid_utf8(mac);
    assert forall|n: int| 0 <= n <= bytes.len() implies #[trigger] utf8::is_char_boundary(
        bytes,
        n,
    ) by {
        lemma_ascii_boundary(bytes, n);
    }
}

proof fn lemma_ascii_boundary(bytes: Seq<u8>, n: int)
    requires
        utf8::valid_utf8(bytes),
        forall|i: int| 0 <= i < bytes.len() ==> (#[trigger] bytes[i]) < 0x80,
        0 <= n <= bytes.len(),
    ensures
        utf8::is_char_boundary(bytes, n),
    decreases n,
{
    if n > 0 {
        assert(bytes[0] < 0x80);
        let rest = utf8::pop_first_scalar(bytes);
        assert(utf8::length_of_first_scalar(bytes) == 1);
        assert(rest =~= bytes.skip(1));
        lemma_ascii_boundary(rest, n - 1);
    }
}

/// What contracts say of an answer holds of the answer itself.
pub proof fn answers_are_seen_as_they_are(r: HandlerResult)
    ensures
        r@.error_code == r.error_code@,
        r@.payload == r.payload@,
{
}

} // verus!
