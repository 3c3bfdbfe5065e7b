//! Thales payShield 10K framing.
//!
//! A request is a length of two bytes, a header of two, a command code of two and
//! the payload; an answer has an error code of two bytes between its code and its
//! payload. The length counts every byte that follows it.

use vstd::prelude::*;
use vstd::slice::slice_to_vec;

use crate::protocol::{copied, CommandView, ParsedCommand, Protocol};
#[allow(unused_imports)]
use crate::text;

verus! {

/// Thales payShield 10K framing.
pub struct ThalesPayShield;

/// `n` as two bytes, the high one first; what does not fit is cut off.
pub open spec fn length_prefix(n: nat) -> Seq<u8> {
    seq![(n / 256 % 256) as u8, (n % 256) as u8]
}

impl ThalesPayShield {
    /// Put a request on the wire.
    pub fn frame_request(&self, header: [u8; 2], command_code: &[u8], payload: &[u8]) -> (r: Vec<
        u8,
    >)
        ensures
            r@ == self.framed(header@, command_code@, Seq::empty(), payload@),
    {
        let none: Vec<u8> = Vec::new();
        assert(none@ =~= Seq::<u8>::empty());
        self.frame_response(header, command_code, none.as_slice(), payload)
    }
}

impl Protocol for ThalesPayShield {
    open spec fn parsed(&self, buf: Seq<u8>) -> Option<CommandView> {
        let n = text::be16(buf, 0);
        if buf.len() < 6 || n < 4 || buf.len() < 2 + n {
            None
        } else {
            Some(
                CommandView {
                    header: buf.subrange(2, 4),
                    command_code: buf.subrange(4, 6),
                    payload: buf.subrange(6, 2 + n),
                    frame_len: 2 + n,
                },
            )
        }
    }

    open spec fn reply_code(&self, command_code: Seq<u8>) -> Seq<u8> {
        let first: u8 = if command_code.len() > 0 {
            command_code[0]
        } else {
            0
        };
        let second: u8 = if command_code.len() > 1 {
            command_code[1]
        } else {
            0
        };
        seq![first, ((second + 1) % 256) as u8]
    }

    open spec fn framed(
        &self,
        header: Seq<u8>,
        response_code: Seq<u8>,
        error_code: Seq<u8>,
        payload: Seq<u8>,
    ) -> Seq<u8> {
        let body = header + response_code + error_code + payload;
        length_prefix(body.len()) + body
    }

    open spec fn completed(&self, data: Seq<u8>) -> bool {
        2 <= data.len() && text::be16(data, 0) + 2 <= data.len()
    }

    proof fn commands_lie_within(&self, buf: Seq<u8>) {
    }

    proof fn commands_stand(&self, buf: Seq<u8>, more: Seq<u8>) {
        if self.parsed(buf) is Some {
            let all = buf + more;
            let n = text::be16(buf, 0);
            assert(text::be16(all, 0) == n);
            assert(all.subrange(2, 4) =~= buf.subrange(2, 4));
            assert(all.subrange(4, 6) =~= buf.subrange(4, 6));
            assert(all.subrange(6, 2 + n) =~= buf.subrange(6, 2 + n));
        }
    }

    fn parse(&self, buf: &[u8]) -> Option<ParsedCommand> {
        if buf.len() < 6 {
            return None;
        }
        let n: usize = buf[0] as usize * 256 + buf[1] as usize;
        if n < 4 || buf.len() - 2 < n {
            return None;
        }
        let frame_len: usize = 2 + n;
        let header: [u8; 2] = [buf[2], buf[3]];
        let command_code: Vec<u8> = slice_to_vec(&buf[4..6]);
        let r: ParsedCommand = ParsedCommand {
            header,
            command_code,
            payload: copied(&buf[6..frame_len]),
            frame_len,
        };
        assert(header@ =~= buf@.subrange(2, 4));
        assert(command_code@ =~= buf@.subrange(4, 6));
        Some(r)
    }

    fn response_code(&self, command_code: &[u8]) -> Vec<u8> {
        let first: u8 = if command_code.len() > 0 {
            command_code[0]
        } else {
            0
        };
        let second: u8 = if command_code.len() > 1 {
            command_code[1]
        } else {
            0
        };
        let r: Vec<u8> = vec![first, second.wrapping_add(1)];
        assert(r@ =~= self.reply_code(command_code@));
        r
    }

    fn frame_response(
        &self,
        header: [u8; 2],
        response_code: &[u8],
        error_code: &[u8],
        payload: &[u8],
    ) -> Vec<u8> {
        let mut body: Vec<u8> = vec![header[0], header[1]];
        body.extend_from_slice(response_code);
        body.extend_from_slice(error_code);
        body.extend_from_slice(payload);
        assert(body@ =~= header@ + response_code@ + error_code@ + payload@);
        let n: usize = body.len();
        let mut out: Vec<u8> = vec![(n / 256 % 256) as u8, (n % 256) as u8];
        assert(out@ =~= length_prefix(n as nat));
        out.extend_from_slice(body.as_slice());
        assert(out@ =~= self.framed(header@, response_code@, error_code@, payload@));
        out
    }

    fn frame_error(&self, header: [u8; 2], command_code: &[u8], error_code: &[u8]) -> Vec<u8> {
        let code: Vec<u8> = self.response_code(command_code);
        let none: Vec<u8> = Vec::new();
        assert(none@ =~= Seq::<u8>::empty());
        self.frame_response(header, code.as_slice(), error_code, none.as_slice())
    }

    fn is_response_complete(&self, data: &[u8]) -> bool {
        if data.len() < 2 {
            return false;
        }
        let n: usize = data[0] as usize * 256 + data[1] as usize;
        data.len() >= n + 2
    }
}

/// What is framed is parsed back: the header, the code, and as the payload the
/// error code and the payload; and the frame takes up exactly its own length of the
/// stream, whatever follows it. The code has two bytes, and the whole body fits the
/// length prefix.
pub proof fn frames_parse_back(
    header: Seq<u8>,
    code: Seq<u8>,
    error_code: Seq<u8>,
    payload: Seq<u8>,
    rest: Seq<u8>,
)
    requires
        header.len() == 2,
        code.len() == 2,
        4 + error_code.len() + payload.len() <= 0xFFFF,
    ensures
        ({
            let frame = ThalesPayShield.framed(header, code, error_code, payload);
            ThalesPayShield.parsed(frame + rest) == Some(
                CommandView {
                    header,
                    command_code: code,
                    payload: error_code + payload,
                    frame_len: frame.len() as int,
                },
            )
        }),
{
    let body = header + code + error_code + payload;
    let n = body.len();
    let buf = ThalesPayShield.framed(header, code, error_code, payload) + rest;
    assert(n / 256 % 256 == n / 256);
    assert(buf[0] == (n / 256) as u8 && buf[1] == (n % 256) as u8);
    assert(text::be16(buf, 0) == n);
    assert(buf.subrange(2, 4) =~= header);
    assert(buf.subrange(4, 6) =~= code);
    assert(buf.subrange(6, (2 + n) as int) =~= error_code + payload);
}

/// The length prefix of a frame is the length of what follows it, if that fits.
pub proof fn length_prefix_matches_body(
    header: Seq<u8>,
    code: Seq<u8>,
    error_code: Seq<u8>,
    payload: Seq<u8>,
)
    requires
        header.len() + code.len() + error_code.len() + payload.len() <= 0xFFFF,
    ensures
        ({
            let frame = ThalesPayShield.framed(header, code, error_code, payload);
            text::be16(frame, 0) == frame.len() - 2
        }),
{
    let n = (header + code + error_code + payload).len();
    assert(n / 256 % 256 == n / 256);
}

/// A frame that fits its length prefix is complete, and no shorter part of it is.
pub proof fn only_whole_frames_are_complete(
    header: Seq<u8>,
    code: Seq<u8>,
    error_code: Seq<u8>,
    payload: Seq<u8>,
    k: int,
)
    requires
        header.len() + code.len() + error_code.len() + payload.len() <= 0xFFFF,
    ensures
        ({
            let frame = ThalesPayShield.framed(header, code, error_code, payload);
            &&& ThalesPayShield.completed(frame)
            &&& 0 <= k < frame.len() ==> !ThalesPayShield.completed(frame.take(k))
        }),
{
    length_prefix_matches_body(header, code, error_code, payload);
    let frame = ThalesPayShield.framed(header, code, error_code, payload);
    if 2 <= k < frame.len() {
        assert(text::be16(frame.take(k), 0) == text::be16(frame, 0));
    }
}

/// What is parsed depends on the bytes of the frame alone: the frame by itself
/// parses alike, and nothing shorter than it parses at all.
pub proof fn parsing_reads_one_frame(buf: Seq<u8>, k: int)
    requires
        ThalesPayShield.parsed(buf) is Some,
        0 <= k <= buf.len(),
    ensures
        ({
            let n = (ThalesPayShield.parsed(buf)->0).frame_len;
            &&& 6 <= n <= buf.len()
            &&& k < n ==> ThalesPayShield.parsed(buf.take(k)) is None
            &&& n <= k ==> ThalesPayShield.parsed(buf.take(k)) == ThalesPayShield.parsed(buf)
        }),
{
    let n = (ThalesPayShield.parsed(buf)->0).frame_len;
    let part = buf.take(k);
    if k >= 6 {
        assert(text::be16(part, 0) == text::be16(buf, 0));
    }
    if n <= k {
        assert(part.subrange(2, 4) =~= buf.subrange(2, 4));
        assert(part.subrange(4, 6) =~= buf.subrange(4, 6));
        assert(part.subrange(6, n) =~= buf.subrange(6, n));
    }
}

/// A request on the wire is a length of two bytes, the high one first, that counts what follows,
/// then a header, a command code and the payload; and it is answered under the same header, with
/// the second letter of its code raised by one, the error code and the payload, behind a length
/// of the same form.
pub proof fn requests_are_answered_under_their_header(
    header: Seq<u8>,
    first: u8,
    second: u8,
    payload: Seq<u8>,
    rest: Seq<u8>,
    error_code: Seq<u8>,
    out: Seq<u8>,
)
    requires
        header.len() == 2,
        second < 0xFF,
        4 + payload.len() <= 0xFFFF,
        error_code.len() == 2,
        6 + out.len() <= 0xFFFF,
    ensures
        ({
            let n = 4 + payload.len();
            let request = seq![(n / 256) as u8, (n % 256) as u8] + header + seq![first, second]
                + payload;
            let m = 6 + out.len();
            let response = seq![(m / 256) as u8, (m % 256) as u8] + header + seq![
                first,
                (second + 1) as u8,
            ] + error_code + out;
            &&& ThalesPayShield.parsed(request + rest) == Some(
                CommandView {
                    header,
                    command_code: seq![first, second],
                    payload,
                    frame_len: 6 + payload.len() as int,
                },
            )
            &&& ThalesPayShield.framed(
                header,
                ThalesPayShield.reply_code(seq![first, second]),
                error_code,
                out,
            ) == response
        }),
{
    let n = 4 + payload.len();
    let request = seq![(n / 256) as u8, (n % 256) as u8] + header + seq![first, second] + payload;
    let buf = request + rest;
    assert(buf[0] == (n / 256) as u8 && buf[1] == (n % 256) as u8);
    assert(text::be16(buf, 0) == n);
    assert(buf.subrange(2, 4) =~= header);
    assert(buf.subrange(4, 6) =~= seq![first, second]);
    assert(buf.subrange(6, (2 + n) as int) =~= payload);
    let m = 6 + out.len();
    let code = ThalesPayShield.reply_code(seq![first, second]);
    assert(code =~= seq![first, (second + 1) as u8]);
    assert((header + code + error_code + out).len() == m);
    assert(m / 256 % 256 == m / 256);
    let response = seq![(m / 256) as u8, (m % 256) as u8] + header + seq![
        first,
        (second + 1) as u8,
    ] + error_code + out;
    assert(ThalesPayShield.framed(header, code, error_code, out) =~= response);
}

/// A response code has two bytes: the first of the command code, and the one behind its second,
/// counted round from the last byte to the first. A byte that is missing counts as zero.
pub proof fn response_codes_have_two_bytes(first: u8, rest: Seq<u8>)
    ensures
        ThalesPayShield.reply_code(seq![first, 0xFF] + rest) == seq![first, 0],
        ThalesPayShield.reply_code(seq![first]) == seq![first, 1],
        ThalesPayShield.reply_code(Seq::empty()) == seq![0u8, 1],
{
    assert(ThalesPayShield.reply_code(seq![first, 0xFF] + rest) =~= seq![first, 0]);
    assert(ThalesPayShield.reply_code(seq![first]) =~= seq![first, 1]);
    assert(ThalesPayShield.reply_code(Seq::empty()) =~= seq![0u8, 1]);
}

} // verus!
