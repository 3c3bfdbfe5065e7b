//! CW, CY: generate and verify a card verification value.

use vstd::prelude::*;
use vstd::string::*;
#[allow(unused_imports)]
use vstd::utf8::{
    encode_utf8, encode_utf8_decode_utf8, encode_utf8_valid_utf8, is_ascii_chars,
    is_ascii_chars_encode_utf8,
};

use crate::apc::ApcCall;
#[allow(unused_imports)]
use crate::apc::{ApcReply, CallView};
#[allow(unused_imports)]
use crate::error;
use crate::error::{Failure, ProxyError};
#[allow(unused_imports)]
use crate::handlers;
use crate::handlers::evidence;
use crate::handlers::grounding::{CryptoGrounding, Evidence, Proof, WireGrounding};
#[allow(unused_imports)]
use crate::handlers::thales::common;
use crate::handlers::thales::common::{field_text, malformed, parse_key_32};
use crate::handlers::{fail, Finish, Handler, HandlerResult, Pending, Step, StepView};
use crate::key_map::{KeyDescriptor, KeyMap, KeyTable};
#[allow(unused_imports)]
use crate::text;
use crate::text::{decimal_text, find_byte, fits, is_ascii_2, owned};

verus! {

/// What a CW command asks for.
pub struct CwFields<T = String> {
    pub cvk: KeyDescriptor<T>,
    pub pan: T,
    pub expiry: T,
    pub service_code: T,
}

impl View for CwFields<String> {
    type V = CwFields<Seq<char>>;

    open spec fn view(&self) -> CwFields<Seq<char>> {
        CwFields {
            cvk: self.cvk@,
            pan: self.pan@,
            expiry: self.expiry@,
            service_code: self.service_code@,
        }
    }
}

/// What a CY command asks for.
pub struct CyFields<T = String> {
    pub cvk: KeyDescriptor<T>,
    pub cvv: T,
    pub pan: T,
    pub expiry: T,
    pub service_code: T,
}

impl View for CyFields<String> {
    type V = CyFields<Seq<char>>;

    open spec fn view(&self) -> CyFields<Seq<char>> {
        CyFields {
            cvk: self.cvk@,
            cvv: self.cvv@,
            pan: self.pan@,
            expiry: self.expiry@,
            service_code: self.service_code@,
        }
    }
}

/// An account number of 1 to 19 bytes at `at` that ends at a `;`, and where what
/// follows the `;` begins.
pub open spec fn pan_field(p: Seq<u8>, at: int) -> Result<(Seq<char>, int), Failure> {
    let n = text::first_index(p.skip(at), ';' as u8);
    if at + n >= p.len() {
        error::bad("CVV: missing ';' PAN delimiter"@)
    } else if n == 0 || n > 19 {
        error::bad("CVV: PAN length "@ + text::decimal(n as nat) + " out of range (1..=19)"@)
    } else {
        Ok((common::text_at(p, at, n), at + n + 1))
    }
}

fn read_pan(buf: &[u8], pos: usize) -> (r: Result<(String, usize), ProxyError>)
    requires
        pos <= buf@.len(),
    ensures
        match r {
            Ok((pan, next)) => next <= buf@.len() && pan_field(buf@, pos as int) == Ok::<
                (Seq<char>, int),
                Failure,
            >((pan@, next as int)),
            Err(e) => pan_field(buf@, pos as int) == Err::<(Seq<char>, int), Failure>(e@),
        },
{
    let end: usize = find_byte(buf, pos, ';' as u8);
    if end == buf.len() {
        return Err(malformed("CVV: missing ';' PAN delimiter"));
    }
    let n: usize = end - pos;
    if n == 0 || n > 19 {
        return Err(
            ProxyError::MalformedPayload(
                owned("CVV: PAN length ").concat(decimal_text(n as u128).as_str()).concat(
                    " out of range (1..=19)",
                ),
            ),
        );
    }
    Ok((field_text(buf, pos, n), end + 1))
}

/// The expiry date (four bytes) and the service code (three) at `at`.
pub open spec fn expiry_service(p: Seq<u8>, at: int) -> Result<(Seq<char>, Seq<char>), Failure> {
    if p.len() < at + 7 {
        error::bad(
            "CVV: payload too short for expiry+service: "@ + text::decimal(p.len()) + " < "@
                + text::decimal((at + 7) as nat),
        )
    } else {
        Ok((common::text_at(p, at, 4), common::text_at(p, at + 4, 3)))
    }
}

fn read_expiry_service(buf: &[u8], pos: usize) -> (r: Result<(String, String), ProxyError>)
    ensures
        match r {
            Ok((expiry, service)) => expiry_service(buf@, pos as int) == Ok::<
                (Seq<char>, Seq<char>),
                Failure,
            >((expiry@, service@)),
            Err(e) => expiry_service(buf@, pos as int) == Err::<(Seq<char>, Seq<char>), Failure>(
                e@,
            ),
        },
{
    if !fits(buf, pos, 7) {
        return Err(
            ProxyError::MalformedPayload(
                owned("CVV: payload too short for expiry+service: ").concat(
                    decimal_text(buf.len() as u128).as_str(),
                ).concat(" < ").concat(decimal_text(pos as u128 + 7).as_str()),
            ),
        );
    }
    Ok((field_text(buf, pos, 4), field_text(buf, pos + 4, 3)))
}

/// A CW payload: card verification key, account number up to `;`, expiry date,
/// service code.
pub open spec fn cw_fields(p: Seq<u8>) -> Result<CwFields<Seq<char>>, Failure> {
    let key = common::key_32(p, 0);
    let pan = pan_field(p, (key->Ok_0).1);
    let tail = expiry_service(p, (pan->Ok_0).1);
    if key is Err {
        Err(key->Err_0)
    } else if pan is Err {
        Err(pan->Err_0)
    } else if tail is Err {
        Err(tail->Err_0)
    } else {
        Ok(
            CwFields {
                cvk: (key->Ok_0).0,
                pan: (pan->Ok_0).0,
                expiry: (tail->Ok_0).0,
                service_code: (tail->Ok_0).1,
            },
        )
    }
}

/// Parse the payload of CW.
pub fn parse_cw(body: &[u8]) -> (r: Result<CwFields, ProxyError>)
    ensures
        error::outcome(r) == cw_fields(body@),
{
    let (cvk, n) = parse_key_32(body, 0)?;
    let (pan, pos) = read_pan(body, n)?;
    let (expiry, service_code) = read_expiry_service(body, pos)?;
    Ok(CwFields { cvk, pan, expiry, service_code })
}

/// A CY payload: card verification key, card verification value (three bytes),
/// account number up to `;`, expiry date, service code.
pub open spec fn cy_fields(p: Seq<u8>) -> Result<CyFields<Seq<char>>, Failure> {
    let key = common::key_32(p, 0);
    let a = (key->Ok_0).1;
    let pan = pan_field(p, a + 3);
    let tail = expiry_service(p, (pan->Ok_0).1);
    if key is Err {
        Err(key->Err_0)
    } else if p.len() < a + 3 {
        error::bad(
            "CY: payload too short for CVV: "@ + text::decimal(p.len()) + " < "@ + text::decimal(
                (a + 3) as nat,
            ),
        )
    } else if pan is Err {
        Err(pan->Err_0)
    } else if tail is Err {
        Err(tail->Err_0)
    } else {
        Ok(
            CyFields {
                cvk: (key->Ok_0).0,
                cvv: common::text_at(p, a, 3),
                pan: (pan->Ok_0).0,
                expiry: (tail->Ok_0).0,
                service_code: (tail->Ok_0).1,
            },
        )
    }
}

/// Parse the payload of CY.
pub fn parse_cy(body: &[u8]) -> (r: Result<CyFields, ProxyError>)
    ensures
        error::outcome(r) == cy_fields(body@),
{
    let (cvk, n) = parse_key_32(body, 0)?;
    if !fits(body, n, 3) {
        return Err(
            ProxyError::MalformedPayload(
                owned("CY: payload too short for CVV: ").concat(
                    decimal_text(body.len() as u128).as_str(),
                ).concat(" < ").concat(decimal_text(n as u128 + 3).as_str()),
            ),
        );
    }
    let cvv: String = field_text(body, n, 3);
    let (pan, pos) = read_pan(body, n + 3)?;
    let (expiry, service_code) = read_expiry_service(body, pos)?;
    Ok(CyFields { cvk, cvv, pan, expiry, service_code })
}

/// What a CW command leads to.
pub open spec fn cw_step(p: Seq<u8>, keys: KeyTable) -> StepView {
    match cw_fields(p) {
        Err(e) => handlers::failed(e),
        Ok(f) => match keys.resolved_field(f.cvk) {
            Err(e) => handlers::failed(e),
            Ok(arn) => handlers::ask(
                ApcCall::GenerateCardValue {
                    key: arn,
                    pan: f.pan,
                    expiry: f.expiry,
                    service_code: f.service_code,
                },
                Finish::CardValue,
            ),
        },
    }
}

/// What a CY command leads to.
pub open spec fn cy_step(p: Seq<u8>, keys: KeyTable) -> StepView {
    match cy_fields(p) {
        Err(e) => handlers::failed(e),
        Ok(f) => match keys.resolved_field(f.cvk) {
            Err(e) => handlers::failed(e),
            Ok(arn) => handlers::ask(
                ApcCall::VerifyCardValue {
                    key: arn,
                    pan: f.pan,
                    value: f.cvv,
                    expiry: f.expiry,
                    service_code: f.service_code,
                },
                Finish::Accepted,
            ),
        },
    }
}

fn handle_cw(body: &[u8], keys: &KeyMap) -> (r: Step)
    requires
        keys.wf(),
    ensures
        r@ == cw_step(body@, keys@),
{
    let fields: CwFields = match parse_cw(body) {
        Ok(f) => f,
        Err(e) => {
            return fail(&e);
        },
    };
    let key: String = match keys.resolve_descriptor(&fields.cvk) {
        Ok(a) => owned(a),
        Err(e) => {
            return fail(&e);
        },
    };
    Step::Call {
        call: ApcCall::GenerateCardValue {
            key,
            pan: fields.pan,
            expiry: fields.expiry,
            service_code: fields.service_code,
        },
        then: Pending::Finish(Finish::CardValue),
    }
}

fn handle_cy(body: &[u8], keys: &KeyMap) -> (r: Step)
    requires
        keys.wf(),
    ensures
        r@ == cy_step(body@, keys@),
{
    let fields: CyFields = match parse_cy(body) {
        Ok(f) => f,
        Err(e) => {
            return fail(&e);
        },
    };
    let key: String = match keys.resolve_descriptor(&fields.cvk) {
        Ok(a) => owned(a),
        Err(e) => {
            return fail(&e);
        },
    };
    Step::Call {
        call: ApcCall::VerifyCardValue {
            key,
            pan: fields.pan,
            value: fields.cvv,
            expiry: fields.expiry,
            service_code: fields.service_code,
        },
        then: Pending::Finish(Finish::Accepted),
    }
}

/// NY, the Mastercard PayPass CVC3: its answer holds two values, APC returns one.
pub fn handle_ny() -> (r: HandlerResult)
    ensures
        r@ == handlers::refused(text::ascii_2('6', '8')),
{
    HandlerResult::from_proxy_error(
        &ProxyError::Unsupported(
            owned(
                "NY: Mastercard PayPass CVC3 generation returns both an IVCVC3 and a CVC3; AWS Payment Cryptography returns a single card-validation value and cannot reproduce the NZ response",
            ),
        ),
    )
}

/// RY, the American Express card security codes: its answer holds codes of several
/// lengths, APC returns one.
pub fn handle_ry() -> (r: HandlerResult)
    ensures
        r@ == handlers::refused(text::ascii_2('6', '8')),
{
    HandlerResult::from_proxy_error(
        &ProxyError::Unsupported(
            owned(
                "RY: American Express CSC (Classic/Enhanced/AEVV) returns multiple CSC lengths and an AEVV variant that AWS Payment Cryptography's single-value Amex CSC API cannot reproduce",
            ),
        ),
    )
}

/// What a card verification command leads to. NY and RY are not offered.
pub open spec fn cvv_step(command_code: Seq<u8>, p: Seq<u8>, keys: KeyTable) -> StepView {
    if command_code == text::ascii_2('C', 'Y') {
        cy_step(p, keys)
    } else if command_code == text::ascii_2('N', 'Y') || command_code == text::ascii_2('R', 'Y') {
        handlers::disabled()
    } else {
        cw_step(p, keys)
    }
}

/// payShield card verification values: CW generates, CY verifies. The service code
/// selects the product. NY and RY are not offered.
pub struct CvvHandler;

impl Handler for CvvHandler {
    open spec fn codes(&self) -> Seq<Seq<char>> {
        seq!["CW"@, "CY"@, "NY"@, "RY"@]
    }

    open spec fn step(&self, command_code: Seq<u8>, payload: Seq<u8>, keys: KeyTable) -> StepView {
        cvv_step(command_code, payload, keys)
    }

    open spec fn evidence(&self) -> Seq<Evidence> {
        seq![
            Evidence {
                decision: evidence::CVV_1_DECISION,
                because: evidence::CVV_1_BECAUSE,
                wire: WireGrounding::DiffXprov,
                crypto: CryptoGrounding::Apc,
                proof: Proof::LiveTest(evidence::CVV_1_PROOF),
            },
            Evidence {
                decision: evidence::CVV_2_DECISION,
                because: evidence::CVV_2_BECAUSE,
                wire: WireGrounding::Ungrounded,
                crypto: CryptoGrounding::TwoImpl,
                proof: Proof::ManualCite(evidence::CVV_2_PROOF),
            },
            Evidence {
                decision: evidence::CVV_3_DECISION,
                because: evidence::CVV_3_BECAUSE,
                wire: WireGrounding::Ungrounded,
                crypto: CryptoGrounding::Ungrounded,
                proof: Proof::Gated(evidence::CVV_3_PROOF),
            },
        ]
    }

    fn command_codes(&self) -> Vec<&'static str> {
        let r: Vec<&'static str> = vec!["CW", "CY", "NY", "RY"];
        assert(text::texts(r@) =~= self.codes());
        r
    }

    fn start(&self, command_code: &[u8], payload: &[u8], keys: &KeyMap) -> Step {
        if is_ascii_2(command_code, 'C', 'Y') {
            handle_cy(payload, keys)
        } else if is_ascii_2(command_code, 'N', 'Y') {
            Step::Done(handle_ny())
        } else if is_ascii_2(command_code, 'R', 'Y') {
            Step::Done(handle_ry())
        } else {
            handle_cw(payload, keys)
        }
    }

    fn grounding(&self) -> Vec<Evidence> {
        let r: Vec<Evidence> = vec![
            Evidence {
                decision: evidence::CVV_1_DECISION,
                because: evidence::CVV_1_BECAUSE,
                wire: WireGrounding::DiffXprov,
                crypto: CryptoGrounding::Apc,
                proof: Proof::LiveTest(evidence::CVV_1_PROOF),
            },
            Evidence {
                decision: evidence::CVV_2_DECISION,
                because: evidence::CVV_2_BECAUSE,
                wire: WireGrounding::Ungrounded,
                crypto: CryptoGrounding::TwoImpl,
                proof: Proof::ManualCite(evidence::CVV_2_PROOF),
            },
            Evidence {
                decision: evidence::CVV_3_DECISION,
                because: evidence::CVV_3_BECAUSE,
                wire: WireGrounding::Ungrounded,
                crypto: CryptoGrounding::Ungrounded,
                proof: Proof::Gated(evidence::CVV_3_PROOF),
            },
        ];
        assert(r@ =~= self.evidence());
        r
    }
}

/// A card verification value is verified as it was generated: CY reads a CW payload
/// with the value behind its key as the same key and card, and that value to verify.
/// `head` is the key field.
pub proof fn a_card_value_is_verified_as_it_was_generated(
    head: Seq<u8>,
    body: Seq<u8>,
    cvv: Seq<char>,
)
    requires
        common::key_32(head, 0) matches Ok(key) && key.1 == head.len(),
        cw_fields(head + body) is Ok,
        is_ascii_chars(cvv),
        cvv.len() == 3,
    ensures
        ({
            let f = cw_fields(head + body)->Ok_0;
            cy_fields(head + encode_utf8(cvv) + body) == Ok::<_, Failure>(
                CyFields {
                    cvk: f.cvk,
                    cvv,
                    pan: f.pan,
                    expiry: f.expiry,
                    service_code: f.service_code,
                },
            )
        }),
{
    let wire = encode_utf8(cvv);
    let p = head + body;
    let q = head + wire + body;
    let a = head.len() as int;
    assert(q =~= head + (wire + body));
    common::key_fields_end_where_they_end(head, body, 0);
    common::key_fields_end_where_they_end(head, wire + body, 0);
    is_ascii_chars_encode_utf8(cvv);
    encode_utf8_valid_utf8(cvv);
    encode_utf8_decode_utf8(cvv);
    assert(q.subrange(a, a + 3) =~= wire);
    assert(p.skip(a) =~= body && q.skip(a + 3) =~= body);
    let n = text::first_index(body, ';' as u8);
    text::first_index_is_first(body, ';' as u8);
    let (b, c) = (a + n + 1, a + 3 + n + 1);
    assert(q.subrange(a + 3, a + 3 + n) =~= p.subrange(a, a + n));
    assert(q.subrange(c, c + 4) =~= p.subrange(b, b + 4));
    assert(q.subrange(c + 4, c + 4 + 3) =~= p.subrange(b + 4, b + 4 + 3));
}

/// A CW payload is forwarded field by field: a value is generated for the account number up
/// to the delimiter, the expiry date and the service code, and is answered.
#[verifier::rlimit(30)]
pub proof fn a_card_value_is_generated_field_by_field(
    k: Seq<u8>,
    pan: Seq<u8>,
    expiry: Seq<u8>,
    service: Seq<u8>,
    more: Seq<u8>,
    keys: KeyTable,
    arn: Seq<char>,
    out: Seq<char>,
)
    requires
        common::key_32_is(keys, k, arn),
        1 <= pan.len() <= 19,
        !pan.contains(';' as u8),
        expiry.len() == 4,
        service.len() == 3,
    ensures
        ({
            let p = k + pan + seq![';' as u8] + expiry + service + more;
            &&& CvvHandler.step(text::ascii_2('C', 'W'), p, keys) matches Step::Call { call, then }
            &&& call == (CallView::GenerateCardValue {
                key: arn,
                pan: text::lossy_text(pan),
                expiry: text::lossy_text(expiry),
                service_code: text::lossy_text(service),
            })
            &&& handlers::resumed(then, ApcReply::CardValue(out)) == StepView::Done(
                handlers::answered(encode_utf8(out)),
            )
        }),
{
    let p = k + pan + seq![';' as u8] + expiry + service + more;
    assert(common::key_32(p, 0) == common::key_32(k, 0)) by {
        let before = Seq::<u8>::empty();
        let behind = pan + seq![';' as u8] + expiry + service + more;
        assert(p =~= before + k + behind);
        common::key_fields_are_read_in_place(before, k, behind);
    }
    common::key_fields_lie_within(k, 0);
    let a = 0 + k.len() as int;
    let q = a + pan.len() as int;
    assert(p.subrange(a, q) =~= pan);
    assert(p[q] == ';' as u8);
    assert(p.subrange(q + 1, q + 5) =~= expiry);
    assert(p.subrange(q + 5, q + 8) =~= service);
    let back = seq![';' as u8] + expiry + service + more;
    assert(p.skip(a) =~= pan + back);
    lemma_pan_ends_at_delimiter(pan, back);
    assert(text::ascii_2('C', 'W')[1] != text::ascii_2('C', 'Y')[1]);
    assert(text::ascii_2('N', 'Y')[0] != text::ascii_2('C', 'W')[0]);
    assert(text::ascii_2('R', 'Y')[0] != text::ascii_2('C', 'W')[0]);
}

/// A CY payload is forwarded field by field: the value is verified for the account number up
/// to the delimiter, the expiry date and the service code, and an acceptance is answered
/// without a payload.
#[verifier::rlimit(30)]
pub proof fn a_card_value_is_verified_field_by_field(
    k: Seq<u8>,
    value: Seq<u8>,
    pan: Seq<u8>,
    expiry: Seq<u8>,
    service: Seq<u8>,
    more: Seq<u8>,
    keys: KeyTable,
    arn: Seq<char>,
)
    requires
        common::key_32_is(keys, k, arn),
        value.len() == 3,
        1 <= pan.len() <= 19,
        !pan.contains(';' as u8),
        expiry.len() == 4,
        service.len() == 3,
    ensures
        ({
            let p = k + value + pan + seq![';' as u8] + expiry + service + more;
            &&& CvvHandler.step(text::ascii_2('C', 'Y'), p, keys) matches Step::Call { call, then }
            &&& call == (CallView::VerifyCardValue {
                key: arn,
                pan: text::lossy_text(pan),
                value: text::lossy_text(value),
                expiry: text::lossy_text(expiry),
                service_code: text::lossy_text(service),
            })
            &&& handlers::resumed(then, ApcReply::Accepted) == StepView::Done(
                handlers::answered(Seq::empty()),
            )
            &&& handlers::resumed(then, ApcReply::VerificationFailed) == StepView::Done(
                handlers::refused(text::ascii_2('0', '1')),
            )
        }),
{
    let p = k + value + pan + seq![';' as u8] + expiry + service + more;
    assert(common::key_32(p, 0) == common::key_32(k, 0)) by {
        let before = Seq::<u8>::empty();
        let behind = value + pan + seq![';' as u8] + expiry + service + more;
        assert(p =~= before + k + behind);
        common::key_fields_are_read_in_place(before, k, behind);
    }
    common::key_fields_lie_within(k, 0);
    let a = 0 + k.len() as int;
    assert(p.subrange(a, a + 3) =~= value);
    let q = a + 3 + pan.len() as int;
    assert(p.subrange(a + 3, q) =~= pan);
    assert(p[q] == ';' as u8);
    assert(p.subrange(q + 1, q + 5) =~= expiry);
    assert(p.subrange(q + 5, q + 8) =~= service);
    let back = seq![';' as u8] + expiry + service + more;
    assert(p.skip(a + 3) =~= pan + back);
    lemma_pan_ends_at_delimiter(pan, back);
    assert(text::ascii_2('C', 'W')[1] != text::ascii_2('C', 'Y')[1]);
    assert(text::ascii_2('N', 'Y')[0] != text::ascii_2('C', 'W')[0]);
    assert(text::ascii_2('R', 'Y')[0] != text::ascii_2('C', 'W')[0]);
}

proof fn lemma_pan_ends_at_delimiter(pan: Seq<u8>, back: Seq<u8>)
    requires
        !pan.contains(';' as u8),
        back.len() > 0,
        back[0] == ';' as u8,
    ensures
        text::first_index(pan + back, ';' as u8) == pan.len(),
{
    text::first_index_is_first(pan + back, ';' as u8);
    let i = text::first_index(pan + back, ';' as u8);
    if i < pan.len() {
        assert((pan + back)[i] == pan[i]);
    }
    if i > pan.len() {
        assert((pan + back)[pan.len() as int] == back[0]);
    }
}

/// A CW or CY command leads to a call only if its payload holds every field and its account
/// number has 1 to 19 digits before the delimiter. What is not so is answered with code `15`, a
/// key that is not found with `10`.
pub proof fn only_whole_payloads_lead_to_a_call(verify: bool, p: Seq<u8>, keys: KeyTable)
    ensures
        ({
            let a = (common::key_32(p, 0)->Ok_0).1;
            let c = if verify {
                a + 3
            } else {
                a
            };
            let n = text::first_index(p.skip(c), ';' as u8);
            let step = CvvHandler.step(if verify {
                text::ascii_2('C', 'Y')
            } else {
                text::ascii_2('C', 'W')
            }, p, keys);
            &&& match step {
                Step::Call { call, .. } => {
                    &&& common::key_32(p, 0) is Ok
                    &&& 1 <= n <= 19
                    &&& p.len() >= c + n + 8
                },
                Step::Done(r) => r.payload.len() == 0 && (r.error_code == text::ascii_2('1', '0')
                    || r.error_code == text::ascii_2('1', '5')),
            }

        }),
{
    assert(text::ascii_2('C', 'W')[1] != text::ascii_2('C', 'Y')[1]);
    assert(text::ascii_2('N', 'Y')[0] != text::ascii_2('C', 'W')[0]);
    assert(text::ascii_2('R', 'Y')[0] != text::ascii_2('C', 'W')[0]);
    let a = (common::key_32(p, 0)->Ok_0).1;
    common::unreadable_fields_are_answered_15(p, 0);
    text::first_index_is_first(p.skip(a), ';' as u8);
    text::first_index_is_first(p.skip(a + 3), ';' as u8);
}

} // verus!
