//! Wire framing: how commands are cut out of a byte stream, and how answers are
//! put on it.

pub mod futurex;
pub mod thales;

use bytes::Bytes;
use vstd::prelude::*;

verus! {

// ── payload bytes ────────────────────────────────────────────────────────────

/// `bytes::Bytes`, a cheaply shared run of bytes.
#[verifier::external_type_specification]
#[verifier::external_body]
pub struct ExBytes(bytes::Bytes);

/// The bytes that a `Bytes` holds.
pub uninterp spec fn content(b: Bytes) -> Seq<u8>;

/// `Bytes::copy_from_slice`: the result holds a copy of the slice.
#[verifier::external_body]
fn copied(data: &[u8]) -> (r: Bytes)
    ensures
        content(r) == data@,
{
    Bytes::copy_from_slice(data)
}

/// `<Bytes as Deref>::deref`: the bytes that it holds, as a slice.
#[verifier::external_body]
fn held(b: &Bytes) -> (r: &[u8])
    ensures
        r@ == content(*b),
{
    std::ops::Deref::deref(b)
}

// ── commands ─────────────────────────────────────────────────────────────────

/// A command that was cut out of the stream.
#[derive(Debug)]
pub struct ParsedCommand {
    /// Thales: echoed in the answer. Futurex: unused.
    pub header: [u8; 2],
    /// Thales: two bytes. Futurex: four.
    pub command_code: Vec<u8>,
    /// What follows the command code.
    pub payload: Bytes,
    /// How many bytes of the stream the command takes up.
    pub frame_len: usize,
}

/// A command as contracts speak of it.
pub struct CommandView {
    pub header: Seq<u8>,
    pub command_code: Seq<u8>,
    pub payload: Seq<u8>,
    pub frame_len: int,
}

impl View for ParsedCommand {
    type V = CommandView;

    open spec fn view(&self) -> CommandView {
        CommandView {
            header: self.header@,
            command_code: self.command_code@,
            payload: content(self.payload),
            frame_len: self.frame_len as int,
        }
    }
}

/// A command that may be missing, as contracts speak of it.
pub open spec fn maybe_command(c: Option<ParsedCommand>) -> Option<CommandView> {
    match c {
        Some(c) => Some(c@),
        None => None,
    }
}

impl ParsedCommand {
    /// The payload as a slice.
    pub fn payload_bytes(&self) -> (r: &[u8])
        ensures
            r@ == self@.payload,
    {
        held(&self.payload)
    }
}

/// What is logged of a command that no handler answers to: nothing of its payload
/// but the length.
pub struct Redacted {
    pub payload_len: usize,
    pub note: &'static str,
}

/// Why a redacted command shows no fields.
pub const REDACTION_NOTE: &'static str = "fields are positional and command-specific; payload not parsed in discovery mode";

/// The framing of a vendor.
pub trait Protocol {
    /// The first command of a stream that begins with `buf`, once `buf` holds all of
    /// it.
    spec fn parsed(&self, buf: Seq<u8>) -> Option<CommandView>;

    /// The code under which a command is answered.
    spec fn reply_code(&self, command_code: Seq<u8>) -> Seq<u8>;

    /// An answer on the wire.
    spec fn framed(
        &self,
        header: Seq<u8>,
        response_code: Seq<u8>,
        error_code: Seq<u8>,
        payload: Seq<u8>,
    ) -> Seq<u8>;

    /// `data` holds a whole answer.
    spec fn completed(&self, data: Seq<u8>) -> bool;

    /// A command takes up at least one byte, and no more than there are.
    proof fn commands_lie_within(&self, buf: Seq<u8>)
        ensures
            self.parsed(buf) matches Some(c) ==> 0 < c.frame_len <= buf.len(),
    ;

    /// Bytes behind a whole command do not change it.
    proof fn commands_stand(&self, buf: Seq<u8>, more: Seq<u8>)
        ensures
            self.parsed(buf) is Some ==> self.parsed(buf + more) == self.parsed(buf),
    ;

    /// Cut the first command out of the stream. `None`: there is not enough of it
    /// yet.
    fn parse(&self, buf: &[u8]) -> (r: Option<ParsedCommand>)
        ensures
            maybe_command(r) == self.parsed(buf@),
            r is Some ==> 0 < r->0.frame_len <= buf@.len(),
    ;

    /// The code under which a command is answered.
    fn response_code(&self, command_code: &[u8]) -> (r: Vec<u8>)
        ensures
            r@ == self.reply_code(command_code@),
    ;

    /// Put an answer on the wire.
    fn frame_response(
        &self,
        header: [u8; 2],
        response_code: &[u8],
        error_code: &[u8],
        payload: &[u8],
    ) -> (r: Vec<u8>)
        ensures
            r@ == self.framed(header@, response_code@, error_code@, payload@),
    ;

    /// Put an answer without a payload on the wire.
    fn frame_error(&self, header: [u8; 2], command_code: &[u8], error_code: &[u8]) -> (r: Vec<u8>)
        ensures
            r@ == self.framed(
                header@,
                self.reply_code(command_code@),
                error_code@,
                Seq::empty(),
            ),
    ;

    /// Whether `data` holds a whole answer.
    fn is_response_complete(&self, data: &[u8]) -> (r: bool)
        ensures
            r == self.completed(data@),
    ;

    /// What may be logged of the payload of a command that no handler answers to.
    fn redact_discovery(&self, payload: &[u8]) -> (r: Redacted)
        ensures
            r.payload_len == payload@.len(),
            r.note@ == REDACTION_NOTE@,
    {
        Redacted { payload_len: payload.len(), note: REDACTION_NOTE }
    }
}

/// What contracts say of a command holds of the command itself.
pub proof fn commands_are_seen_as_they_are(c: ParsedCommand)
    ensures
        c@.header == c.header@,
        c@.command_code == c.command_code@,
        c@.payload == content(c.payload),
        c@.frame_len == c.frame_len,
{
}

} // verus!
