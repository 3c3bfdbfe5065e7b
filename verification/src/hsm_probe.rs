//! The key check value of a key, asked of a payShield.
//!
//! The host command BU gives the check value of a key that is encrypted under the
//! local master key, which is the form that key mappings are keyed by. For a key
//! block one question is enough. For the other forms the question names a key type
//! that the mapping does not tell, so the types that can be named blind are tried
//! in turn; with a wrong one the key fails its parity check and is refused.

use vstd::prelude::*;
use vstd::string::*;
#[allow(unused_imports)]
use vstd::utf8;

use crate::protocol::thales::ThalesPayShield;
#[allow(unused_imports)]
use crate::protocol::thales;
use crate::protocol::{ParsedCommand, Protocol};
#[allow(unused_imports)]
use crate::text;
use crate::text::{
    bytes_eq_ignoring_case, decimal_text, hex_from, is_ascii_2, lossy, owned, quoted, same_text,
    trim_end_text, upper_text,
};

verus! {

/// What became of the question for one key. The type parameter is the text the
/// variants carry; in contracts it is a sequence of characters.
#[derive(Debug, Clone, PartialEq, Eq)]
pub enum ProbeOutcome<T = String> {
    /// The check value, 6 or 16 hexadecimal digits in upper case.
    Kcv(T),
    /// The key is of none of the types that can be named blind.
    KeyTypeUnknown,
    /// The HSM refuses the command itself.
    CommandDisabled,
    /// The answer of the HSM cannot be read.
    HsmError(T),
    /// The key is not of a form that can be asked for.
    UnsupportedForm,
    /// The HSM cannot be reached.
    Unreachable(T),
}

impl View for ProbeOutcome<String> {
    type V = ProbeOutcome<Seq<char>>;

    open spec fn view(&self) -> ProbeOutcome<Seq<char>> {
        match self {
            ProbeOutcome::Kcv(k) => ProbeOutcome::Kcv(k@),
            ProbeOutcome::KeyTypeUnknown => ProbeOutcome::KeyTypeUnknown,
            ProbeOutcome::CommandDisabled => ProbeOutcome::CommandDisabled,
            ProbeOutcome::HsmError(e) => ProbeOutcome::HsmError(e@),
            ProbeOutcome::UnsupportedForm => ProbeOutcome::UnsupportedForm,
            ProbeOutcome::Unreachable(e) => ProbeOutcome::Unreachable(e@),
        }
    }
}

impl ProbeOutcome<String> {
    /// Another copy of what became of a question.
    pub fn duplicate(&self) -> (r: ProbeOutcome)
        ensures
            r@ == self@,
    {
        match self {
            ProbeOutcome::Kcv(k) => ProbeOutcome::Kcv(owned(k.as_str())),
            ProbeOutcome::KeyTypeUnknown => ProbeOutcome::KeyTypeUnknown,
            ProbeOutcome::CommandDisabled => ProbeOutcome::CommandDisabled,
            ProbeOutcome::HsmError(e) => ProbeOutcome::HsmError(owned(e.as_str())),
            ProbeOutcome::UnsupportedForm => ProbeOutcome::UnsupportedForm,
            ProbeOutcome::Unreachable(e) => ProbeOutcome::Unreachable(owned(e.as_str())),
        }
    }
}

// ── check values ─────────────────────────────────────────────────────────────

/// The smaller of two lengths, and at most six.
pub open spec fn shared_digits(a: nat, b: nat) -> nat {
    let n = if a < b {
        a
    } else {
        b
    };
    if n < 6 {
        n
    } else {
        6
    }
}

/// Two check values agree: in as many of the first six digits as both have, case
/// aside; and both have one.
pub open spec fn agree(apc: Seq<char>, hsm: Seq<char>) -> bool {
    let (a, h) = (utf8::encode_utf8(apc), utf8::encode_utf8(hsm));
    let n = shared_digits(a.len(), h.len()) as int;
    n > 0 && text::same_ignoring_case(a.take(n), h.take(n))
}

/// Whether the check value that APC reports and that of the HSM agree.
pub fn kcv_matches(apc: &str, hsm: &str) -> (r: bool)
    ensures
        r == agree(apc@, hsm@),
{
    let a: &[u8] = apc.as_bytes();
    let h: &[u8] = hsm.as_bytes();
    let m: usize = if a.len() < h.len() {
        a.len()
    } else {
        h.len()
    };
    let n: usize = if m < 6 {
        m
    } else {
        6
    };
    assert(a@.take(n as int) =~= a@.subrange(0, n as int));
    assert(h@.take(n as int) =~= h@.subrange(0, n as int));
    n > 0 && bytes_eq_ignoring_case(&a[0..n], &h[0..n])
}

/// Agreement does not depend on which of the two is named first.
pub proof fn agreement_is_symmetric(a: Seq<char>, b: Seq<char>)
    ensures
        agree(a, b) == agree(b, a),
{
}

/// Only the first six digits count: a check value agrees with a longer form of
/// itself.
pub proof fn longer_check_values_agree(kcv: Seq<char>, more: Seq<char>)
    requires
        text::is_hex_text(kcv, 6),
        vstd::utf8::is_ascii_chars(more),
    ensures
        agree(kcv, kcv + more),
{
    lemma_hex_is_ascii(kcv);
    let long = kcv + more;
    assert(utf8::is_ascii_chars(long)) by {
        assert forall|i: int| 0 <= i < long.len() implies 0 <= #[trigger] long[i] as nat <= 127 by {
            if i < 6 {
                assert(long[i] == kcv[i]);
            } else {
                assert(long[i] == more[i - 6]);
            }
        }
    }
    utf8::is_ascii_chars_encode_utf8(kcv);
    utf8::is_ascii_chars_encode_utf8(long);
    let (a, h) = (utf8::encode_utf8(kcv), utf8::encode_utf8(long));
    assert(a.take(6) =~= h.take(6));
}

proof fn lemma_hex_is_ascii(s: Seq<char>)
    requires
        forall|i: int| 0 <= i < s.len() ==> text::is_hex(#[trigger] s[i]),
    ensures
        utf8::is_ascii_chars(s),
{
    assert forall|i: int| 0 <= i < s.len() implies 0 <= #[trigger] s[i] as nat <= 127 by {
        assert(text::is_hex(s[i]));
    }
}

// ── questions ────────────────────────────────────────────────────────────────

/// The digit that tells the length of a key, how many characters are in front of
/// its digits, and how many digits it has.
pub open spec fn form(key_form: Seq<char>) -> (char, int, nat) {
    if key_form.len() > 0 && key_form[0] == 'U' {
        ('1', 1, 32)
    } else if key_form.len() > 0 && key_form[0] == 'T' {
        ('2', 1, 48)
    } else {
        ('0', 0, 16)
    }
}

/// The question for a key of the type `key_type`.
pub open spec fn question(key_type: Seq<char>, flag: char, key_form: Seq<char>) -> Seq<char> {
    key_type + seq![flag] + key_form + ";001"@
}

/// The questions for a key, in the order in which they are tried. A key block (`S`
/// in front) takes one, with the reserved values for type and length. Sixteen
/// digits, or `U` and 32, or `T` and 48, take four, one for each type. Nothing else
/// can be asked for.
pub open spec fn questions(key_form: Seq<char>) -> Option<Seq<Seq<char>>> {
    let (flag, at, n) = form(key_form);
    if key_form.len() > 1 && key_form[0] == 'S' {
        Some(seq!["FFF"@ + key_form + ";FFF;001"@])
    } else if !text::is_hex_text(key_form.skip(at), n) {
        None
    } else {
        Some(
            seq![
                question("01"@, flag, key_form),
                question("02"@, flag, key_form),
                question("03"@, flag, key_form),
                question("00"@, flag, key_form),
            ],
        )
    }
}

/// The texts of a list that may be missing.
pub open spec fn maybe_views(list: Option<Vec<String>>) -> Option<Seq<Seq<char>>> {
    match list {
        Some(v) => Some(text::views(v@)),
        None => None,
    }
}

fn question_text(key_type: &str, flag: &str, key_form: &str) -> (r: String)
    requires
        flag@.len() == 1,
    ensures
        r@ == question(key_type@, flag@[0], key_form@),
{
    assert(flag@ =~= seq![flag@[0]]);
    owned(key_type).concat(flag).concat(key_form).concat(";001")
}

/// The questions for a key.
pub fn bu_candidates(key_form: &str) -> (r: Option<Vec<String>>)
    ensures
        maybe_views(r) == questions(key_form@),
{
    let len: usize = key_form.unicode_len();
    if len > 1 && key_form.get_char(0) == 'S' {
        let r: Vec<String> = vec![owned("FFF").concat(key_form).concat(";FFF;001")];
        assert(text::views(r@) =~= questions(key_form@)->0);
        return Some(r);
    }
    proof {
        reveal_strlit("0");
        reveal_strlit("1");
        reveal_strlit("2");
    }
    let (flag, at, n): (&str, usize, usize) = if len > 0 && key_form.get_char(0) == 'U' {
        ("1", 1, 32)
    } else if len > 0 && key_form.get_char(0) == 'T' {
        ("2", 1, 48)
    } else {
        ("0", 0, 16)
    };
    if !hex_from(key_form, at, n) {
        return None;
    }
    let r: Vec<String> = vec![
        question_text("01", flag, key_form),
        question_text("02", flag, key_form),
        question_text("03", flag, key_form),
        question_text("00", flag, key_form),
    ];
    assert(text::views(r@) =~= questions(key_form@)->0);
    Some(r)
}

// ── answers ──────────────────────────────────────────────────────────────────

/// An answer. The type parameter is the text the variants carry.
pub enum BvParse<T = String> {
    /// The check value.
    Kcv(T),
    /// The error code.
    Error(T),
    /// Why it cannot be read.
    Malformed(T),
}

impl View for BvParse<String> {
    type V = BvParse<Seq<char>>;

    open spec fn view(&self) -> BvParse<Seq<char>> {
        match self {
            BvParse::Kcv(k) => BvParse::Kcv(k@),
            BvParse::Error(c) => BvParse::Error(c@),
            BvParse::Malformed(w) => BvParse::Malformed(w@),
        }
    }
}

/// The header of the questions, which answers must echo.
pub open spec fn probe_header() -> Seq<u8> {
    text::ascii_2('P', 'B')
}

/// What an answer says: code BV under the header of the question, then an error
/// code of two bytes, then if that is `00` the check value.
pub open spec fn answer(resp: Seq<u8>) -> BvParse<Seq<char>> {
    match ThalesPayShield.parsed(resp) {
        None => BvParse::Malformed(
            "not a complete Thales frame ("@ + text::decimal(resp.len()) + " bytes)"@,
        ),
        Some(c) => {
            let error_code = text::lossy_text(c.payload.take(2));
            let kcv = text::upper(text::trim_end(text::lossy_text(c.payload.skip(2))));
            if c.header != probe_header() {
                BvParse::Malformed("response header does not echo probe header"@)
            } else if c.command_code != text::ascii_2('B', 'V') {
                BvParse::Malformed(
                    "expected response code BV, got "@ + text::debug_text(
                        text::lossy_text(c.command_code),
                    ),
                )
            } else if c.payload.len() < 2 {
                BvParse::Malformed("BV response missing error code"@)
            } else if error_code != "00"@ {
                BvParse::Error(error_code)
            } else if !text::is_hex_text(kcv, 6) && !text::is_hex_text(kcv, 16) {
                BvParse::Malformed("KCV field not 6/16 hex digits: "@ + text::debug_text(kcv))
            } else {
                BvParse::Kcv(kcv)
            }
        },
    }
}

/// Read an answer.
pub fn parse_bv(resp: &[u8]) -> (r: BvParse)
    ensures
        r@ == answer(resp@),
{
    let parsed: ParsedCommand = match ThalesPayShield.parse(resp) {
        Some(c) => c,
        None => {
            return BvParse::Malformed(
                owned("not a complete Thales frame (").concat(
                    decimal_text(resp.len() as u128).as_str(),
                ).concat(" bytes)"),
            );
        },
    };
    if !is_ascii_2(parsed.header.as_slice(), 'P', 'B') {
        return BvParse::Malformed(owned("response header does not echo probe header"));
    }
    if !is_ascii_2(parsed.command_code.as_slice(), 'B', 'V') {
        return BvParse::Malformed(
            owned("expected response code BV, got ").concat(
                quoted(lossy(parsed.command_code.as_slice()).as_str()).as_str(),
            ),
        );
    }
    let payload: &[u8] = parsed.payload_bytes();
    if payload.len() < 2 {
        return BvParse::Malformed(owned("BV response missing error code"));
    }
    assert(payload@.take(2) =~= payload@.subrange(0, 2));
    assert(payload@.skip(2) =~= payload@.subrange(2, payload@.len() as int));
    let error_code: String = lossy(&payload[0..2]);
    if !same_text(error_code.as_str(), "00") {
        return BvParse::Error(error_code);
    }
    let kcv: String = upper_text(
        trim_end_text(lossy(&payload[2..payload.len()]).as_str()).as_str(),
    );
    assert(kcv@.skip(0) =~= kcv@);
    if !hex_from(kcv.as_str(), 0, 6) && !hex_from(kcv.as_str(), 0, 16) {
        return BvParse::Malformed(
            owned("KCV field not 6/16 hex digits: ").concat(quoted(kcv.as_str()).as_str()),
        );
    }
    BvParse::Kcv(kcv)
}

// ── the conversation ─────────────────────────────────────────────────────────

/// The questions that are left once one has been sent.
pub struct Probe {
    rest: Vec<String>,
}

impl View for Probe {
    type V = Seq<Seq<char>>;

    closed spec fn view(&self) -> Seq<Seq<char>> {
        text::views(self.rest@)
    }
}

/// What to do next.
pub enum ProbeStep<T = String, F = Vec<u8>, P = Probe> {
    /// The question is settled.
    Done(ProbeOutcome<T>),
    /// Send `frame` to the HSM, and hand what came back to `probe`.
    Send { frame: F, probe: P },
}

/// A step as contracts speak of it.
pub type ProbeStepView = ProbeStep<Seq<char>, Seq<u8>, Seq<Seq<char>>>;

impl View for ProbeStep<String, Vec<u8>, Probe> {
    type V = ProbeStepView;

    open spec fn view(&self) -> ProbeStepView {
        match self {
            ProbeStep::Done(o) => ProbeStep::Done(o@),
            ProbeStep::Send { frame, probe } => ProbeStep::Send { frame: frame@, probe: probe@ },
        }
    }
}

/// A question on the wire.
pub open spec fn question_frame(q: Seq<char>) -> Seq<u8> {
    ThalesPayShield.framed(
        probe_header(),
        text::ascii_2('B', 'U'),
        Seq::empty(),
        utf8::encode_utf8(q),
    )
}

/// Ask the first of `qs`; if there is none, the type of the key is unknown.
pub open spec fn asked(qs: Seq<Seq<char>>) -> ProbeStepView {
    if qs.len() == 0 {
        ProbeStep::Done(ProbeOutcome::KeyTypeUnknown)
    } else {
        ProbeStep::Send { frame: question_frame(qs[0]), probe: qs.skip(1) }
    }
}

/// What follows an exchange with `rest` left to ask: no answer ends it, and so do a
/// check value, a refusal of the command, and an answer that cannot be read; any
/// other error code leads to the next question.
pub open spec fn answered(rest: Seq<Seq<char>>, reply: Result<Seq<u8>, Seq<char>>) -> ProbeStepView {
    match reply {
        Err(e) => ProbeStep::Done(ProbeOutcome::Unreachable(e)),
        Ok(resp) => match answer(resp) {
            BvParse::Kcv(k) => ProbeStep::Done(ProbeOutcome::Kcv(k)),
            BvParse::Error(c) => if c == "68"@ {
                ProbeStep::Done(ProbeOutcome::CommandDisabled)
            } else {
                asked(rest)
            },
            BvParse::Malformed(w) => ProbeStep::Done(ProbeOutcome::HsmError(w)),
        },
    }
}

fn ask(questions: Vec<String>) -> (r: ProbeStep)
    ensures
        r@ == asked(text::views(questions@)),
{
    if questions.len() == 0 {
        return ProbeStep::Done(ProbeOutcome::KeyTypeUnknown);
    }
    let mut rest: Vec<String> = questions;
    let q: String = rest.remove(0);
    let header: [u8; 2] = ['P' as u8, 'B' as u8];
    let code: [u8; 2] = ['B' as u8, 'U' as u8];
    assert(header@ =~= probe_header());
    assert(code@ =~= text::ascii_2('B', 'U'));
    let frame: Vec<u8> = ThalesPayShield.frame_request(
        header,
        code.as_slice(),
        q.as_str().as_bytes(),
    );
    assert(text::views(rest@) =~= text::views(questions@).skip(1));
    ProbeStep::Send { frame, probe: Probe { rest } }
}

/// Begin to ask for the check value of a key.
pub fn thales_kcv(key_form: &str) -> (r: ProbeStep)
    ensures
        r@ == match questions(key_form@) {
            None => ProbeStepView::Done(ProbeOutcome::UnsupportedForm),
            Some(qs) => asked(qs),
        },
{
    match bu_candidates(key_form) {
        None => ProbeStep::Done(ProbeOutcome::UnsupportedForm),
        Some(qs) => ask(qs),
    }
}

/// What came back of an exchange, as contracts speak of it.
pub open spec fn reply_view(reply: Result<Vec<u8>, String>) -> Result<Seq<u8>, Seq<char>> {
    match reply {
        Ok(b) => Ok(b@),
        Err(e) => Err(e@),
    }
}

impl Probe {
    /// Go on with what came back: the bytes of the answer, or why there is none.
    pub fn resume(self, reply: Result<Vec<u8>, String>) -> (r: ProbeStep)
        ensures
            r@ == answered(self@, reply_view(reply)),
    {
        match reply {
            Err(e) => ProbeStep::Done(ProbeOutcome::Unreachable(e)),
            Ok(resp) => match parse_bv(resp.as_slice()) {
                BvParse::Kcv(k) => ProbeStep::Done(ProbeOutcome::Kcv(k)),
                BvParse::Error(c) => if same_text(c.as_str(), "68") {
                    ProbeStep::Done(ProbeOutcome::CommandDisabled)
                } else {
                    ask(self.rest)
                },
                BvParse::Malformed(w) => ProbeStep::Done(ProbeOutcome::HsmError(w)),
            },
        }
    }
}

// ── laws ─────────────────────────────────────────────────────────────────────

/// A key takes at most four questions, and each exchange leaves one fewer.
pub proof fn a_probe_ends(
    key_form: Seq<char>,
    rest: Seq<Seq<char>>,
    reply: Result<Seq<u8>, Seq<char>>,
)
    ensures
        questions(key_form) matches Some(qs) ==> 1 <= qs.len() <= 4,
        answered(rest, reply) matches ProbeStep::Send { probe, .. } ==> probe.len() + 1
            == rest.len(),
{
}

/// A question is framed as command BU with the question as its payload, if it is
/// short enough for a frame.
pub proof fn questions_parse_back(q: Seq<char>)
    requires
        4 + utf8::encode_utf8(q).len() <= 0xFFFF,
    ensures
        ThalesPayShield.parsed(question_frame(q)) matches Some(c) && c.header == probe_header()
            && c.command_code == text::ascii_2('B', 'U') && c.payload == utf8::encode_utf8(q),
{
    thales::frames_parse_back(
        probe_header(),
        text::ascii_2('B', 'U'),
        Seq::empty(),
        utf8::encode_utf8(q),
        Seq::empty(),
    );
    assert(question_frame(q) + Seq::<u8>::empty() =~= question_frame(q));
    assert(Seq::<u8>::empty() + utf8::encode_utf8(q) =~= utf8::encode_utf8(q));
}

/// A check value that the HSM answers with is the one that is read: 6 or 16 digits,
/// in upper case however they came.
pub proof fn check_values_are_read_back(kcv: Seq<char>)
    requires
        text::is_hex_text(kcv, 6) || text::is_hex_text(kcv, 16),
    ensures
        answer(
            ThalesPayShield.framed(
                probe_header(),
                text::ascii_2('B', 'V'),
                text::ascii_2('0', '0'),
                utf8::encode_utf8(kcv),
            ),
        ) == BvParse::Kcv(text::upper(kcv)),
{
    let ok = text::ascii_2('0', '0');
    let data = utf8::encode_utf8(kcv);
    let frame = ThalesPayShield.framed(probe_header(), text::ascii_2('B', 'V'), ok, data);
    lemma_hex_is_ascii(kcv);
    utf8::is_ascii_chars_encode_utf8(kcv);
    thales::frames_parse_back(
        probe_header(),
        text::ascii_2('B', 'V'),
        ok,
        data,
        Seq::empty(),
    );
    assert(frame + Seq::<u8>::empty() =~= frame);
    assert((ok + data).take(2) =~= ok);
    assert((ok + data).skip(2) =~= data);
    reveal_strlit("00");
    let zeros = "00"@;
    assert(zeros =~= seq!['0', '0']);
    assert(utf8::is_ascii_chars(zeros));
    utf8::is_ascii_chars_encode_utf8(zeros);
    assert(utf8::encode_utf8(zeros) =~= ok);
    utf8::encode_utf8_valid_utf8(zeros);
    utf8::encode_utf8_decode_utf8(zeros);
    utf8::encode_utf8_valid_utf8(kcv);
    utf8::encode_utf8_decode_utf8(kcv);
    assert(text::is_hex(kcv.last()));
    assert(!text::is_white(kcv.last()));
    assert(text::trim_end(kcv) == kcv);
    let up = text::upper(kcv);
    assert forall|i: int| 0 <= i < up.len() implies text::is_hex(#[trigger] up[i]) by {
        assert(text::is_hex(kcv[i]));
    }
}

/// Check values of six digits or more agree if and only if their first six digits are the same
/// but for case; one without a digit agrees with none.
pub proof fn six_digits_decide(a: Seq<char>, b: Seq<char>)
    requires
        utf8::is_ascii_chars(a),
        utf8::is_ascii_chars(b),
        a.len() >= 6,
    ensures
        b.len() >= 6 ==> (agree(a, b) <==> text::same_ignoring_case(
            utf8::encode_utf8(a).take(6),
            utf8::encode_utf8(b).take(6),
        )),
        b.len() >= 6 && agree(a, b) ==> forall|i: int|
            0 <= i < 6 ==> (#[trigger] a[i] == b[i] || a[i] as u32 == b[i] as u32 + 32
                || b[i] as u32
                == a[i] as u32 + 32),
        b.len() == 0 ==> !agree(a, b) && !agree(b, a),
{
    utf8::is_ascii_chars_encode_utf8(a);
    utf8::is_ascii_chars_encode_utf8(b);
    let (x, y) = (utf8::encode_utf8(a), utf8::encode_utf8(b));
    if b.len() >= 6 && agree(a, b) {
        assert forall|i: int| 0 <= i < 6 implies (#[trigger] a[i] == b[i]
            || a[i] as u32 == b[i] as u32
            + 32 || b[i] as u32 == a[i] as u32 + 32) by {
            assert(text::lower_byte(x.take(6)[i]) == text::lower_byte(y.take(6)[i]));
            assert(x[i] == a[i] as u8 && y[i] == b[i] as u8);
            assert(0 <= a[i] as nat <= 127 && 0 <= b[i] as nat <= 127);
        }
    }
}

/// A key in the clear forms is asked for as each type in turn: `01`, `02`, `03` and `00`, then
/// the digit of its length (`0` for sixteen digits, `1` for `U` and 32, `2` for `T` and 48), the
/// key, and `;001`.
pub proof fn keys_are_asked_for_by_type(key_form: Seq<char>, digits: Seq<char>, flag: char)
    requires
        ({
            ||| flag == '0' && key_form == digits && text::is_hex_text(digits, 16)
            ||| flag == '1' && key_form == seq!['U'] + digits && text::is_hex_text(digits, 32)
            ||| flag == '2' && key_form == seq!['T'] + digits && text::is_hex_text(digits, 48)
        }),
    ensures
        questions(key_form) == Some(
            seq![
                seq!['0', '1', flag] + key_form + seq![';', '0', '0', '1'],
                seq!['0', '2', flag] + key_form + seq![';', '0', '0', '1'],
                seq!['0', '3', flag] + key_form + seq![';', '0', '0', '1'],
                seq!['0', '0', flag] + key_form + seq![';', '0', '0', '1'],
            ],
        ),
{
    reveal_strlit("01");
    reveal_strlit("02");
    reveal_strlit("03");
    reveal_strlit("00");
    reveal_strlit(";001");
    assert(";001"@ =~= seq![';', '0', '0', '1']);
    assert("01"@ + seq![flag] =~= seq!['0', '1', flag]);
    assert("02"@ + seq![flag] =~= seq!['0', '2', flag]);
    assert("03"@ + seq![flag] =~= seq!['0', '3', flag]);
    assert("00"@ + seq![flag] =~= seq!['0', '0', flag]);
    if flag == '0' {
        assert(text::is_hex(digits[0]));
        assert(key_form.skip(0) =~= digits);
    } else {
        assert(key_form.skip(1) =~= digits);
    }
}

/// A key block is asked for once, with the reserved type and length in front and behind, and
/// what is neither a key block nor in one of the clear forms is not asked for at all.
pub proof fn key_blocks_are_asked_for_once(rest: Seq<char>, other: Seq<char>)
    requires
        rest.len() > 0,
    ensures
        questions(seq!['S'] + rest) == Some(
            seq![seq!['F', 'F', 'F', 'S'] + rest + seq![';', 'F', 'F', 'F', ';', '0', '0', '1']],
        ),
        !(other.len() > 1 && other[0] == 'S') && !text::is_hex_text(other, 16)
            && !(other.len() == 33
            && other[0] == 'U') && !(other.len() == 49 && other[0] == 'T') ==> questions(other)
            is None,
{
    reveal_strlit("FFF");
    reveal_strlit(";FFF;001");
    assert("FFF"@ + (seq!['S'] + rest) + ";FFF;001"@ =~= seq!['F', 'F', 'F', 'S'] + rest + seq![
        ';',
        'F',
        'F',
        'F',
        ';',
        '0',
        '0',
        '1',
    ]);
    assert(other.skip(0) =~= other);
}

/// An error code in an answer leads to the next question, except `68`, which ends the probe: the
/// command is disabled. An answer under another header or another code ends it too, and tells
/// nothing of the key.
pub proof fn error_codes_lead_to_the_next_question(
    rest: Seq<Seq<char>>,
    header: Seq<u8>,
    code: Seq<u8>,
    first: char,
    second: char,
    more: Seq<u8>,
)
    requires
        header.len() == 2,
        code.len() == 2,
        (first as u32) < 0x80,
        (second as u32) < 0x80,
        first != '0' || second != '0',
        6 + more.len() <= 0xFFFF,
    ensures
        ({
            let next = answered(
                rest,
                Ok(ThalesPayShield.framed(header, code, text::ascii_2(first, second), more)),
            );
            let asked_for = header == text::ascii_2('P', 'B') && code == text::ascii_2('B', 'V');
            &&& asked_for && first == '6' && second == '8' ==> next == ProbeStepView::Done(
                ProbeOutcome::CommandDisabled,
            )
            &&& asked_for && !(first == '6' && second == '8') ==> next == asked(rest)
            &&& !asked_for ==> next is Done && next->Done_0 is HsmError
        }),
{
    lemma_error_answer(header, code, first, second, more);
    reveal_strlit("68");
    assert("68"@ =~= seq!['6', '8']);
    assert(seq![first, second][0] == first && seq![first, second][1] == second);
}

#[verifier::spinoff_prover]
proof fn lemma_error_frame(header: Seq<u8>, code: Seq<u8>, error_code: Seq<u8>, more: Seq<u8>)
    requires
        header.len() == 2,
        code.len() == 2,
        error_code.len() == 2,
        6 + more.len() <= 0xFFFF,
    ensures
        ({
            let c = ThalesPayShield.parsed(ThalesPayShield.framed(header, code, error_code, more));
            &&& c is Some
            &&& c->0.header == header
            &&& c->0.command_code == code
            &&& c->0.payload == error_code + more
        }),
{
    let frame = ThalesPayShield.framed(header, code, error_code, more);
    thales::frames_parse_back(header, code, error_code, more, Seq::empty());
    assert(frame + Seq::<u8>::empty() =~= frame);
}

proof fn lemma_error_answer(
    header: Seq<u8>,
    code: Seq<u8>,
    first: char,
    second: char,
    more: Seq<u8>,
)
    requires
        header.len() == 2,
        code.len() == 2,
        (first as u32) < 0x80,
        (second as u32) < 0x80,
        first != '0' || second != '0',
        6 + more.len() <= 0xFFFF,
    ensures
        ({
            let r = answer(
                ThalesPayShield.framed(header, code, text::ascii_2(first, second), more),
            );
            if header == text::ascii_2('P', 'B') && code == text::ascii_2('B', 'V') {
                r == BvParse::Error(seq![first, second])
            } else {
                r is Malformed
            }
        }),
{
    let error_code = text::ascii_2(first, second);
    let frame = ThalesPayShield.framed(header, code, error_code, more);
    lemma_error_frame(header, code, error_code, more);
    lemma_error_is_told(frame, first, second, more);
}

#[verifier::spinoff_prover]
#[verifier::rlimit(60)]
proof fn lemma_error_is_told(resp: Seq<u8>, first: char, second: char, more: Seq<u8>)
    requires
        (first as u32) < 0x80,
        (second as u32) < 0x80,
        first != '0' || second != '0',
        ThalesPayShield.parsed(resp) is Some,
        ThalesPayShield.parsed(resp)->0.payload == text::ascii_2(first, second) + more,
    ensures
        ({
            let c = ThalesPayShield.parsed(resp)->0;
            if c.header == text::ascii_2('P', 'B') && c.command_code == text::ascii_2('B', 'V') {
                answer(resp) == BvParse::Error(seq![first, second])
            } else {
                answer(resp) is Malformed
            }
        }),
{
    let error_code = text::ascii_2(first, second);
    assert((error_code + more).take(2) =~= error_code);
    text::ascii_pairs_are_read_as_written(first, second);
    reveal_strlit("00");
    assert("00"@ =~= seq!['0', '0']);
    assert(seq![first, second][0] == first && seq![first, second][1] == second);
}

} // verus!
