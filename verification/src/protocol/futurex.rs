//! Futurex Excrypt framing.
//!
//! A message stands in square brackets: `AO`, a command code of four bytes, then
//! parameters, each a code of two bytes with its value, all ended by semicolons. An
//! answer has a last parameter `BB`, the status, which is `Y` for success.

use vstd::prelude::*;
use vstd::slice::slice_to_vec;
use vstd::string::*;

use crate::protocol::{copied, CommandView, ParsedCommand, Protocol};
#[allow(unused_imports)]
use crate::text;
use crate::text::{find_byte, is_ascii_2, lossy, owned, same_text, text_before};

verus! {

/// Futurex Excrypt framing.
pub struct FuturexExcrypt;

/// The status of an error code: `00` is `Y`, any other stands for itself.
pub open spec fn status(error_code: Seq<u8>) -> Seq<u8> {
    if error_code == text::ascii_2('0', '0') {
        seq!['Y' as u8]
    } else {
        error_code
    }
}

impl Protocol for FuturexExcrypt {
    open spec fn parsed(&self, buf: Seq<u8>) -> Option<CommandView> {
        let start = text::first_index(buf, '[' as u8);
        let end = start + text::first_index(buf.skip(start), ']' as u8);
        let inner = buf.subrange(start + 1, end);
        let semi = text::first_index(inner, ';' as u8);
        if start >= buf.len() || end >= buf.len() || semi < 6 || inner.take(2) != text::ascii_2(
            'A',
            'O',
        ) {
            None
        } else {
            Some(
                CommandView {
                    header: seq![0u8, 0u8],
                    command_code: inner.subrange(2, 6),
                    payload: if semi < inner.len() {
                        inner.skip(semi + 1)
                    } else {
                        Seq::empty()
                    },
                    frame_len: end + 1,
                },
            )
        }
    }

    open spec fn reply_code(&self, command_code: Seq<u8>) -> Seq<u8> {
        command_code
    }

    open spec fn framed(
        &self,
        header: Seq<u8>,
        response_code: Seq<u8>,
        error_code: Seq<u8>,
        payload: Seq<u8>,
    ) -> Seq<u8> {
        seq!['[' as u8, 'A' as u8, 'O' as u8] + response_code + seq![';' as u8] + payload
            + text::ascii_2('B', 'B') + status(error_code) + text::ascii_2(';', ']')
    }

    open spec fn completed(&self, data: Seq<u8>) -> bool {
        data.len() > 0 && data.last() == ']' as u8
    }

    proof fn commands_lie_within(&self, buf: Seq<u8>) {
        lemma_first_index_bounds(buf, '[' as u8);
        let start = text::first_index(buf, '[' as u8);
        if start < buf.len() {
            lemma_first_index_bounds(buf.skip(start), ']' as u8);
        }
    }

    proof fn commands_stand(&self, buf: Seq<u8>, more: Seq<u8>) {
        let start = text::first_index(buf, '[' as u8);
        lemma_first_index_bounds(buf, '[' as u8);
        if start < buf.len() {
            let left = buf.skip(start);
            let n = text::first_index(left, ']' as u8);
            lemma_first_index_bounds(left, ']' as u8);
            lemma_first_index_stands(buf, more, '[' as u8);
            assert(left[0] == '[' as u8);
            assert((buf + more).skip(start) =~= left + more);
            if n < left.len() {
                lemma_first_index_stands(left, more, ']' as u8);
                assert((buf + more).subrange(start + 1, start + n) =~= buf.subrange(
                    start + 1,
                    start + n,
                ));
            }
        }
    }

    fn parse(&self, buf: &[u8]) -> Option<ParsedCommand> {
        let start: usize = find_byte(buf, 0, '[' as u8);
        assert(buf@.skip(0) =~= buf@);
        if start == buf.len() {
            return None;
        }
        let end: usize = find_byte(buf, start, ']' as u8);
        if end == buf.len() {
            return None;
        }
        let inner: &[u8] = &buf[start + 1..end];
        let semi: usize = find_byte(inner, 0, ';' as u8);
        assert(inner@.skip(0) =~= inner@);
        if semi < 6 || !is_ascii_2(&inner[0..2], 'A', 'O') {
            return None;
        }
        let header: [u8; 2] = [0, 0];
        assert(header@ =~= seq![0u8, 0u8]);
        let payload_start: usize = if semi < inner.len() {
            semi + 1
        } else {
            semi
        };
        let payload: &[u8] = &inner[payload_start..inner.len()];
        assert(inner@.take(2) =~= inner@.subrange(0, 2));
        assert(payload@ =~= if semi < inner@.len() {
            inner@.skip(semi + 1)
        } else {
            Seq::empty()
        });
        Some(
            ParsedCommand {
                header,
                command_code: slice_to_vec(&inner[2..6]),
                payload: copied(payload),
                frame_len: end + 1,
            },
        )
    }

    fn response_code(&self, command_code: &[u8]) -> Vec<u8> {
        slice_to_vec(command_code)
    }

    fn frame_response(
        &self,
        header: [u8; 2],
        response_code: &[u8],
        error_code: &[u8],
        payload: &[u8],
    ) -> Vec<u8> {
        let mut out: Vec<u8> = vec!['[' as u8, 'A' as u8, 'O' as u8];
        out.extend_from_slice(response_code);
        out.push(';' as u8);
        out.extend_from_slice(payload);
        out.push('B' as u8);
        out.push('B' as u8);
        if is_ascii_2(error_code, '0', '0') {
            out.push('Y' as u8);
        } else {
            out.extend_from_slice(error_code);
        }
        out.push(';' as u8);
        out.push(']' as u8);
        assert(out@ =~= self.framed(header@, response_code@, error_code@, payload@));
        out
    }

    fn frame_error(&self, header: [u8; 2], command_code: &[u8], error_code: &[u8]) -> Vec<u8> {
        let none: Vec<u8> = Vec::new();
        assert(none@ =~= Seq::<u8>::empty());
        self.frame_response(header, command_code, error_code, none.as_slice())
    }

    fn is_response_complete(&self, data: &[u8]) -> bool {
        data.len() > 0 && data[data.len() - 1] == ']' as u8
    }
}

proof fn lemma_first_index_bounds(s: Seq<u8>, b: u8)
    ensures
        0 <= text::first_index(s, b) <= s.len(),
        text::first_index(s, b) < s.len() ==> s[text::first_index(s, b)] == b,
    decreases s.len(),
{
    if s.len() > 0 && s[0] != b {
        lemma_first_index_bounds(s.skip(1), b);
    }
}

proof fn lemma_first_index_stands(s: Seq<u8>, t: Seq<u8>, b: u8)
    requires
        text::first_index(s, b) < s.len(),
    ensures
        text::first_index(s + t, b) == text::first_index(s, b),
    decreases s.len(),
{
    if s[0] != b {
        assert((s + t).skip(1) =~= s.skip(1) + t);
        lemma_first_index_stands(s.skip(1), t, b);
    }
}

proof fn lemma_first_index_behind(s: Seq<u8>, t: Seq<u8>, b: u8)
    requires
        !s.contains(b),
    ensures
        text::first_index(s + t, b) == s.len() + text::first_index(t, b),
    decreases s.len(),
{
    if s.len() == 0 {
        assert(s + t =~= t);
    } else {
        assert(s.contains(s[0]));
        assert((s + t).skip(1) =~= s.skip(1) + t);
        assert forall|x: u8| s.skip(1).contains(x) implies s.contains(x) by {
            let i = choose|i: int| 0 <= i < s.skip(1).len() && s.skip(1)[i] == x;
            assert(s[i + 1] == x);
        }
        lemma_first_index_behind(s.skip(1), t, b);
    }
}

/// What is framed is parsed back: the code, and as the payload the parameters with
/// the status behind them; and the frame takes up exactly its own length of the
/// stream, whatever follows it. The code has four bytes, none of them a `;`, and
/// no `]` stands in the code, the error code or the payload.
pub proof fn frames_parse_back(
    header: Seq<u8>,
    code: Seq<u8>,
    error_code: Seq<u8>,
    payload: Seq<u8>,
    rest: Seq<u8>,
)
    requires
        code.len() == 4,
        !code.contains(';' as u8),
        !code.contains(']' as u8),
        !error_code.contains(']' as u8),
        !payload.contains(']' as u8),
    ensures
        ({
            let frame = FuturexExcrypt.framed(header, code, error_code, payload);
            FuturexExcrypt.parsed(frame + rest) == Some(
                CommandView {
                    header: seq![0u8, 0u8],
                    command_code: code,
                    payload: payload + text::ascii_2('B', 'B') + status(error_code)
                        + seq![';' as u8],
                    frame_len: frame.len() as int,
                },
            )
        }),
{
    let frame = FuturexExcrypt.framed(header, code, error_code, payload);
    let buf = frame + rest;
    let tail = payload + text::ascii_2('B', 'B') + status(error_code) + seq![';' as u8];
    let command = text::ascii_2('A', 'O') + code;
    let inner = command + seq![';' as u8] + tail;
    let close = seq![']' as u8] + rest;
    assert(buf =~= seq!['[' as u8] + inner + close);
    assert(text::first_index(buf, '[' as u8) == 0);
    assert(buf.skip(0) =~= seq!['[' as u8] + inner + close);
    let opened = seq!['[' as u8] + inner;
    assert(!opened.contains(']' as u8)) by {
        assert forall|i: int| 0 <= i < opened.len() implies opened[i] != ']' as u8 by {
            if 3 <= i < 7 {
                assert(code.contains(code[i - 3]));
            }
            if 8 <= i < 8 + payload.len() {
                assert(payload.contains(payload[i - 8]));
            }
            let k = i - 10 - payload.len();
            if 0 <= k < status(error_code).len() {
                assert(opened[i] == status(error_code)[k]);
                if error_code != text::ascii_2('0', '0') {
                    assert(error_code.contains(error_code[k]));
                }
            }
        }
    }
    lemma_first_index_behind(opened, close, ']' as u8);
    assert(text::first_index(close, ']' as u8) == 0);
    assert(buf.subrange(1, 1 + inner.len() as int) =~= inner);
    assert(!command.contains(';' as u8)) by {
        assert forall|i: int| 0 <= i < command.len() implies command[i] != ';' as u8 by {
            if 2 <= i {
                assert(code.contains(code[i - 2]));
            }
        }
    }
    lemma_first_index_behind(command, seq![';' as u8] + tail, ';' as u8);
    assert(inner =~= command + (seq![';' as u8] + tail));
    assert(text::first_index(seq![';' as u8] + tail, ';' as u8) == 0);
    assert(inner.take(2) =~= text::ascii_2('A', 'O'));
    assert(inner.subrange(2, 6) =~= code);
    assert(inner.skip(7) =~= tail);
}

// ── parameters ───────────────────────────────────────────────────────────────

/// One parameter.
pub struct Param {
    pub code: [u8; 2],
    pub value: Vec<u8>,
}

/// The parameters of a message: a value for each code.
pub struct Params {
    entries: Vec<Param>,
}

/// Where `code` stands among `entries`.
pub closed spec fn place(entries: Seq<Param>, code: Seq<u8>) -> int {
    choose|i: int| 0 <= i < entries.len() && entries[i].code@ == code
}

/// `code` stands among `entries`.
pub closed spec fn present(entries: Seq<Param>, code: Seq<u8>) -> bool {
    exists|i: int| 0 <= i < entries.len() && #[trigger] entries[i].code@ == code
}

impl View for Params {
    type V = Map<Seq<u8>, Seq<u8>>;

    closed spec fn view(&self) -> Map<Seq<u8>, Seq<u8>> {
        Map::new(
            |c: Seq<u8>| present(self.entries@, c),
            |c: Seq<u8>| self.entries@[place(self.entries@, c)].value@,
        )
    }
}

impl Params {
    /// No code stands twice.
    pub closed spec fn wf(&self) -> bool {
        forall|i: int, j: int|
            0 <= i < j < self.entries@.len() ==> #[trigger] self.entries@[i].code@
                != #[trigger] self.entries@[j].code@
    }

    /// No parameters.
    pub fn new() -> (r: Params)
        ensures
            r.wf(),
            r@ == Map::<Seq<u8>, Seq<u8>>::empty(),
    {
        let r: Params = Params { entries: Vec::new() };
        assert(r@ =~= Map::<Seq<u8>, Seq<u8>>::empty());
        r
    }

    proof fn lemma_entry(&self, i: int)
        requires
            self.wf(),
            0 <= i < self.entries@.len(),
        ensures
            self@.dom().contains(self.entries@[i].code@),
            self@[self.entries@[i].code@] == self.entries@[i].value@,
    {
        let c = self.entries@[i].code@;
        assert(present(self.entries@, c));
        assert(self.entries@[place(self.entries@, c)].code@ == c);
    }

    fn find(&self, code: &[u8; 2]) -> (r: Option<usize>)
        requires
            self.wf(),
        ensures
            match r {
                Some(i) => i < self.entries@.len() && self.entries@[i as int].code@ == code@,
                None => !present(self.entries@, code@),
            },
    {
        let mut i: usize = 0;
        while i < self.entries.len()
            invariant
                i <= self.entries@.len(),
                forall|k: int| 0 <= k < i ==> #[trigger] self.entries@[k].code@ != code@,
            decreases self.entries@.len() - i,
        {
            let c: [u8; 2] = self.entries[i].code;
            if c[0] == code[0] && c[1] == code[1] {
                assert(c@ =~= code@);
                return Some(i);
            }
            assert(c@ != code@);
            i = i + 1;
        }
        None
    }

    /// The value of a parameter.
    pub fn get(&self, code: &[u8; 2]) -> (r: Option<&Vec<u8>>)
        requires
            self.wf(),
        ensures
            match r {
                Some(v) => self@.dom().contains(code@) && self@[code@] == v@,
                None => !self@.dom().contains(code@),
            },
    {
        match self.find(code) {
            Some(i) => Some(&self.entries[i].value),
            None => None,
        }
    }

    /// How many parameters there are.
    pub fn len(&self) -> (r: usize)
        requires
            self.wf(),
        ensures
            self@.dom().finite(),
            r == self@.dom().len(),
    {
        proof {
            lemma_count(self.entries@);
            assert(self@.dom() =~= codes_of(self.entries@).to_set());
        }
        self.entries.len()
    }

    /// Give the parameter `code` the value `value`.
    pub fn insert(&mut self, code: [u8; 2], value: Vec<u8>)
        requires
            old(self).wf(),
        ensures
            final(self).wf(),
            final(self)@ == old(self)@.insert(code@, value@),
    {
        let ghost before = self.entries@;
        let found: Option<usize> = self.find(&code);
        match found {
            Some(i) => {
                self.entries.set(i, Param { code, value });
                proof {
                    let now = self.entries@;
                    assert forall|c: Seq<u8>| present(now, c) == present(before, c) by {
                        if present(now, c) {
                            let k = place(now, c);
                            assert(before[k].code@ == c);
                        }
                        if present(before, c) {
                            let k = place(before, c);
                            assert(now[k].code@ == c);
                        }
                    }
                    assert(present(before, code@)) by {
                        assert(before[i as int].code@ == code@);
                    }
                    assert forall|c: Seq<u8>| #[trigger] self@.dom().contains(c) implies self@[c]
                        == old(self)@.insert(code@, value@)[c] by {
                        let k = place(now, c);
                        assert(now[k].code@ == c);
                        let l = place(before, c);
                        assert(before[l].code@ == c);
                        assert(now[l].code@ == c);
                        assert(now[i as int].code@ == code@);
                    }
                    assert(self@ =~= old(self)@.insert(code@, value@));
                }
            },
            None => {
                self.entries.push(Param { code, value });
                proof {
                    let now = self.entries@;
                    let n = before.len() as int;
                    assert(now[n].code@ == code@);
                    assert forall|c: Seq<u8>| present(now, c) == (c == code@ || present(before, c)) by {
                        if present(now, c) {
                            let k = place(now, c);
                            if k < n {
                                assert(before[k].code@ == c);
                            }
                        }
                        if present(before, c) {
                            let k = place(before, c);
                            assert(now[k].code@ == c);
                        }
                    }
                    assert forall|i: int, j: int|
                        0 <= i < j < now.len() implies #[trigger] now[i].code@
                        != #[trigger] now[j].code@ by {
                        assert(before[i].code@ == now[i].code@);
                        if j < n {
                            assert(before[j].code@ == now[j].code@);
                        }
                    }
                    assert forall|c: Seq<u8>| #[trigger] self@.dom().contains(c) implies self@[c]
                        == old(self)@.insert(code@, value@)[c] by {
                        let k = place(now, c);
                        assert(now[k].code@ == c);
                        if c != code@ {
                            let l = place(before, c);
                            assert(before[l].code@ == c);
                            assert(now[l].code@ == c);
                        }
                    }
                    assert(self@ =~= old(self)@.insert(code@, value@));
                }
            },
        }
    }
}

spec fn codes_of(entries: Seq<Param>) -> Seq<Seq<u8>> {
    entries.map_values(|p: Param| p.code@)
}

proof fn lemma_count(entries: Seq<Param>)
    requires
        forall|i: int, j: int|
            0 <= i < j < entries.len() ==> #[trigger] entries[i].code@
                != #[trigger] entries[j].code@,
    ensures
        codes_of(entries).to_set().finite(),
        codes_of(entries).to_set().len() == entries.len(),
        forall|c: Seq<u8>| codes_of(entries).to_set().contains(c) <==> present(entries, c),
{
    let codes = codes_of(entries);
    codes.unique_seq_to_set();
    assert forall|c: Seq<u8>| codes.to_set().contains(c) <==> present(entries, c) by {
        if codes.contains(c) {
            let i = choose|i: int| 0 <= i < codes.len() && codes[i] == c;
            assert(entries[i].code@ == c);
        }
        if present(entries, c) {
            let i = place(entries, c);
            assert(codes[i] == c);
        }
    }
}

/// The pieces of `s` between semicolons.
pub open spec fn tokens(s: Seq<u8>) -> Seq<Seq<u8>>
    decreases s.len(),
{
    let n = text::first_index(s, ';' as u8);
    if n < 0 || n >= s.len() {
        seq![s]
    } else {
        seq![s.take(n)] + tokens(s.skip(n + 1))
    }
}

/// The parameters that pieces stand for, put over `before`: two bytes of code and
/// at least one of value. Shorter pieces are passed over; of two with one code the
/// later holds.
pub open spec fn params_over(before: Map<Seq<u8>, Seq<u8>>, pieces: Seq<Seq<u8>>) -> Map<
    Seq<u8>,
    Seq<u8>,
>
    decreases pieces.len(),
{
    if pieces.len() == 0 {
        before
    } else {
        let t = pieces[0];
        params_over(
            if t.len() < 3 {
                before
            } else {
                before.insert(t.take(2), t.skip(2))
            },
            pieces.skip(1),
        )
    }
}

/// Parse the payload of a message into its parameters.
pub fn parse_params(payload: &[u8]) -> (r: Params)
    ensures
        r.wf(),
        r@ == params_over(Map::empty(), tokens(payload@)),
{
    let mut params: Params = Params::new();
    let mut pos: usize = 0;
    assert(payload@.skip(0) =~= payload@);
    loop
        invariant
            pos <= payload@.len(),
            params.wf(),
            params_over(Map::empty(), tokens(payload@)) == params_over(
                params@,
                tokens(payload@.skip(pos as int)),
            ),
        decreases payload@.len() - pos,
    {
        let end: usize = find_byte(payload, pos, ';' as u8);
        let ghost left = payload@.skip(pos as int);
        let token: &[u8] = &payload[pos..end];
        proof {
            if end < payload@.len() {
                assert(token@ =~= left.take(end - pos));
                assert(tokens(left) =~= seq![token@] + tokens(left.skip(end - pos + 1)));
                assert(left.skip(end - pos + 1) =~= payload@.skip(end + 1));
            } else {
                assert(token@ =~= left);
                assert(tokens(left) =~= seq![token@]);
            }
            assert(tokens(left)[0] == token@);
        }
        let ghost next = tokens(left).skip(1);
        let ghost before = params@;
        if token.len() >= 3 {
            let code: [u8; 2] = [token[0], token[1]];
            let value: &[u8] = &token[2..token.len()];
            assert(code@ =~= token@.take(2));
            assert(value@ =~= token@.skip(2));
            params.insert(code, slice_to_vec(value));
        }
        assert(params_over(before, tokens(left)) == params_over(params@, next));
        if end == payload.len() {
            assert(next =~= Seq::<Seq<u8>>::empty());
            assert(params_over(params@, next) == params@);
            return params;
        }
        assert(next =~= tokens(payload@.skip(end + 1)));
        pos = end + 1;
    }
}

// ── redaction ────────────────────────────────────────────────────────────────

/// Key blocks (`AX`, `BT`) and the PIN block (`AL`).
pub open spec fn sensitive(code: Seq<u8>) -> bool {
    code == text::ascii_2('A', 'X') || code == text::ascii_2('B', 'T') || code == text::ascii_2(
        'A',
        'L',
    )
}

/// What is shown of a value.
pub open spec fn shown(code: Seq<u8>, value: Seq<u8>) -> Seq<char> {
    if sensitive(code) {
        "[REDACTED]"@
    } else {
        text::lossy_text(value)
    }
}

/// What is shown of a parameter in a log line.
pub open spec fn part(code: Seq<u8>, value: Seq<u8>) -> Seq<char> {
    text::lossy_text(code) + "="@ + shown(code, value)
}

fn shown_text(p: &Param) -> (r: String)
    ensures
        r@ == shown(p.code@, p.value@),
{
    let code: &[u8] = p.code.as_slice();
    if is_ascii_2(code, 'A', 'X') || is_ascii_2(code, 'B', 'T') || is_ascii_2(code, 'A', 'L') {
        owned("[REDACTED]")
    } else {
        lossy(p.value.as_slice())
    }
}

/// `pair` shows the parameter `code`.
pub open spec fn pair_shows(
    pair: (String, String),
    code: Seq<u8>,
    params: Map<Seq<u8>, Seq<u8>>,
) -> bool {
    params.dom().contains(code) && pair.0@ == text::lossy_text(code) && pair.1@ == shown(
        code,
        params[code],
    )
}

/// `pair` shows some parameter.
pub open spec fn shows_some(pair: (String, String), params: Map<Seq<u8>, Seq<u8>>) -> bool {
    exists|code: Seq<u8>| pair_shows(pair, code, params)
}

/// `key` is the first half of some pair.
pub open spec fn has_key(r: Seq<(String, String)>, key: Seq<char>) -> bool {
    exists|i: int| 0 <= i < r.len() && (#[trigger] r[i]).0@ == key
}

/// `r` shows each of `params` once, under the text of its code, and nothing else.
/// Codes that are not UTF-8 can have one text; then one of them is shown.
pub open spec fn shows(r: Seq<(String, String)>, params: Map<Seq<u8>, Seq<u8>>) -> bool {
    &&& forall|i: int, j: int|
        0 <= i < j < r.len() ==> (#[trigger] r[i]).0@ != (#[trigger] r[j]).0@
    &&& forall|i: int| 0 <= i < r.len() ==> shows_some(#[trigger] r[i], params)
    &&& forall|c: Seq<u8>| #[trigger]
        params.dom().contains(c) ==> has_key(r, text::lossy_text(c))
}

/// The parameters with the sensitive values masked, for a structured log: the text
/// of each code, with what is shown of the value.
pub fn params_redacted_map(params: &Params) -> (r: Vec<(String, String)>)
    requires
        params.wf(),
    ensures
        shows(r@, params@),
{
    let mut r: Vec<(String, String)> = Vec::new();
    let mut i: usize = 0;
    let ghost entries = params.entries@;
    let ghost all = params@;
    while i < params.entries.len()
        invariant
            params.wf(),
            entries == params.entries@,
            all == params@,
            i <= entries.len(),
            forall|a: int, b: int|
                0 <= a < b < r@.len() ==> (#[trigger] r@[a]).0@ != (#[trigger] r@[b]).0@,
            forall|a: int| 0 <= a < r@.len() ==> shows_some(#[trigger] r@[a], all),
            forall|k: int|
                0 <= k < i ==> has_key(r@, text::lossy_text((#[trigger] entries[k]).code@)),
        decreases entries.len() - i,
    {
        let key: String = lossy(params.entries[i].code.as_slice());
        let mut j: usize = 0;
        while j < r.len() && !same_text(r[j].0.as_str(), key.as_str())
            invariant
                j <= r@.len(),
                forall|a: int| 0 <= a < j ==> (#[trigger] r@[a]).0@ != key@,
            decreases r@.len() - j,
        {
            j = j + 1;
        }
        let ghost before = r@;
        let ghost c = entries[i as int].code@;
        if j == r.len() {
            let value: String = shown_text(&params.entries[i]);
            r.push((key, value));
            proof {
                params.lemma_entry(i as int);
                assert(pair_shows(r@[j as int], c, all));
                assert forall|a: int| 0 <= a < r@.len() implies shows_some(
                    #[trigger] r@[a],
                    all,
                ) by {
                    if a < before.len() {
                        assert(r@[a] == before[a]);
                    }
                }
                assert forall|k: int| 0 <= k < i + 1 implies has_key(
                    r@,
                    text::lossy_text((#[trigger] entries[k]).code@),
                ) by {
                    let t = text::lossy_text(entries[k].code@);
                    if k < i {
                        assert(has_key(before, t));
                        let a = choose|a: int| 0 <= a < before.len() && (#[trigger] before[a]).0@ == t;
                        assert(r@[a].0@ == t);
                    } else {
                        assert(r@[j as int].0@ == t);
                    }
                }
            }
        } else {
            assert(r@[j as int].0@ == key@);
            assert(has_key(r@, text::lossy_text(c)));
        }
        i = i + 1;
    }
    proof {
        assert forall|c: Seq<u8>| #[trigger] all.dom().contains(c) implies has_key(
            r@,
            text::lossy_text(c),
        ) by {
            let k = place(entries, c);
            assert(entries[k].code@ == c);
        }
    }
    r
}

/// What is shown of the parameters, in the order of `codes`.
pub open spec fn parts(codes: Seq<Seq<u8>>, params: Map<Seq<u8>, Seq<u8>>) -> Seq<Seq<char>> {
    codes.map_values(|c: Seq<u8>| part(c, params[c]))
}

/// Nothing stands behind something greater.
pub open spec fn ascending(list: Seq<Seq<char>>) -> bool {
    forall|i: int, j: int|
        0 <= i < j < list.len() ==> !text::text_less(#[trigger] list[j], #[trigger] list[i])
}

/// `codes` are the codes of `params`, each once.
pub open spec fn lists(codes: Seq<Seq<u8>>, params: Map<Seq<u8>, Seq<u8>>) -> bool {
    codes.no_duplicates() && forall|c: Seq<u8>|
        codes.contains(c) <==> #[trigger] params.dom().contains(c)
}

/// `line` shows each of `params` once, in ascending order, with semicolons between.
pub open spec fn is_log_line(line: Seq<char>, params: Map<Seq<u8>, Seq<u8>>) -> bool {
    exists|codes: Seq<Seq<u8>>| #[trigger]
        lists(codes, params) && ascending(parts(codes, params)) && line == text::join(
            parts(codes, params),
            ";"@,
        )
}

/// The parameters with the sensitive values masked, as a log line.
pub fn redact_for_log(params: &Params) -> (r: String)
    requires
        params.wf(),
    ensures
        is_log_line(r@, params@),
{
    let mut list: Vec<String> = Vec::new();
    let mut i: usize = 0;
    let ghost mut codes: Seq<Seq<u8>> = Seq::empty();
    let ghost entries = params.entries@;
    let ghost all = params@;
    while i < params.entries.len()
        invariant
            params.wf(),
            entries == params.entries@,
            all == params@,
            i <= entries.len(),
            codes.no_duplicates(),
            forall|c: Seq<u8>|
                codes.contains(c) <==> exists|k: int|
                    0 <= k < i && (#[trigger] entries[k]).code@ == c,
            text::views(list@) == parts(codes, all),
            ascending(text::views(list@)),
        decreases entries.len() - i,
    {
        let entry: &Param = &params.entries[i];
        let item: String = lossy(entry.code.as_slice()).concat("=").concat(
            shown_text(entry).as_str(),
        );
        let ghost c = entry.code@;
        proof {
            params.lemma_entry(i as int);
            assert(item@ =~= part(c, all[c]));
            assert(text::views(list@).len() == list@.len());
            assert(parts(codes, all).len() == codes.len());
        }
        let mut p: usize = 0;
        while p < list.len() && !text_before(item.as_str(), list[p].as_str())
            invariant
                p <= list@.len(),
                forall|a: int| 0 <= a < p ==> !text::text_less(item@, (#[trigger] list@[a])@),
            decreases list@.len() - p,
        {
            p = p + 1;
        }
        let ghost before = list@;
        let ghost codes_before = codes;
        list.insert(p, item);
        proof {
            codes = codes.insert(p as int, c);
            assert(text::views(list@) =~= parts(codes, all)) by {
                assert forall|a: int| 0 <= a < list@.len() implies text::views(list@)[a] == parts(
                    codes,
                    all,
                )[a] by {
                    let b = if a < p {
                        a
                    } else {
                        a - 1
                    };
                    assert(text::views(list@)[a] == list@[a]@);
                    assert(parts(codes, all)[a] == part(codes[a], all[codes[a]]));
                    if a != p {
                        assert(text::views(before)[b] == parts(codes_before, all)[b]);
                        assert(text::views(before)[b] == before[b]@);
                        assert(parts(codes_before, all)[b] == part(
                            codes_before[b],
                            all[codes_before[b]],
                        ));
                    }
                }
            }
            let now = text::views(list@);
            let was = text::views(before);
            assert forall|a: int, b: int| 0 <= a < b < now.len() implies !text::text_less(
                #[trigger] now[b],
                #[trigger] now[a],
            ) by {
                if a < p && b == p {
                    assert(now[a] == before[a]@);
                } else if a == p {
                    assert(now[b] == was[b - 1]);
                    if text::text_less(now[b], item@) {
                        assert(text::text_less(item@, before[p as int]@));
                        lemma_text_less_transitive(now[b], item@, was[p as int]);
                        assert(was[p as int] == before[p as int]@);
                        if b - 1 > p {
                            assert(!text::text_less(was[b - 1], was[p as int]));
                        } else {
                            lemma_text_less_irreflexive(was[p as int]);
                        }
                    }
                } else {
                    let x = if a < p {
                        a
                    } else {
                        a - 1
                    };
                    let y = if b < p {
                        b
                    } else {
                        b - 1
                    };
                    assert(now[a] == was[x] && now[b] == was[y]);
                }
            }
            assert(!codes_before.contains(c)) by {
                if codes_before.contains(c) {
                    let k = choose|k: int| 0 <= k < i && (#[trigger] entries[k]).code@ == c;
                    assert(entries[k].code@ != entries[i as int].code@);
                }
            }
            assert forall|x: Seq<u8>| codes.contains(x) <==> exists|k: int|
                0 <= k < i + 1 && (#[trigger] entries[k]).code@ == x by {
                if codes.contains(x) && x != c {
                    let a = choose|a: int| 0 <= a < codes.len() && codes[a] == x;
                    assert(codes_before[if a < p { a } else { a - 1 }] == x);
                    assert(codes_before.contains(x));
                }
                if codes_before.contains(x) {
                    let a = choose|a: int| 0 <= a < codes_before.len() && codes_before[a] == x;
                    assert(codes[if a < p { a } else { a + 1 }] == x);
                }
                if x == c {
                    assert(codes[p as int] == x);
                }
                if (exists|k: int| 0 <= k < i + 1 && (#[trigger] entries[k]).code@ == x) && x != c {
                    let k = choose|k: int| 0 <= k < i + 1 && (#[trigger] entries[k]).code@ == x;
                    assert(k < i);
                    assert(codes_before.contains(x));
                }
            }
            assert forall|a: int, b: int|
                0 <= a < codes.len() && 0 <= b < codes.len() && a != b implies codes[a]
                != codes[b] by {
                let x = if a < p {
                    a
                } else {
                    a - 1
                };
                let y = if b < p {
                    b
                } else {
                    b - 1
                };
                if a == p {
                    assert(codes[b] == codes_before[y]);
                    assert(codes_before.contains(codes[b]));
                } else if b == p {
                    assert(codes[a] == codes_before[x]);
                    assert(codes_before.contains(codes[a]));
                } else {
                    assert(codes[a] == codes_before[x] && codes[b] == codes_before[y]);
                }
            }
        }
        i = i + 1;
    }
    let line: String = joined(&list);
    proof {
        assert forall|c: Seq<u8>| codes.contains(c) <==> #[trigger] all.dom().contains(c) by {
            if codes.contains(c) {
                let k = choose|k: int| 0 <= k < i && (#[trigger] entries[k]).code@ == c;
                assert(present(entries, c));
            }
            if present(entries, c) {
                let k = place(entries, c);
                assert(entries[k].code@ == c);
            }
        }
        assert(lists(codes, all));
    }
    line
}

fn joined(list: &Vec<String>) -> (r: String)
    ensures
        r@ == text::join(text::views(list@), ";"@),
{
    let mut s: String = String::new();
    let mut i: usize = 0;
    let ghost all = text::views(list@);
    while i < list.len()
        invariant
            i <= list@.len(),
            all == text::views(list@),
            s@ == text::join(all.take(i as int), ";"@),
        decreases list@.len() - i,
    {
        proof {
            assert(all.take(i + 1).drop_last() =~= all.take(i as int));
            assert(all.take(i + 1).last() == list@[i as int]@);
        }
        if i > 0 {
            s.append(";");
        }
        s.append(list[i].as_str());
        i = i + 1;
        assert(s@ =~= text::join(all.take(i as int), ";"@));
    }
    assert(all.take(i as int) =~= all);
    s
}

proof fn lemma_text_less_transitive(a: Seq<char>, b: Seq<char>, c: Seq<char>)
    requires
        text::text_less(a, b),
        text::text_less(b, c),
    ensures
        text::text_less(a, c),
{
    text::bytes_less_is_transitive(
        vstd::utf8::encode_utf8(a),
        vstd::utf8::encode_utf8(b),
        vstd::utf8::encode_utf8(c),
    );
}

proof fn lemma_text_less_irreflexive(a: Seq<char>)
    ensures
        !text::text_less(a, a),
{
    text::bytes_less_is_total(vstd::utf8::encode_utf8(a), vstd::utf8::encode_utf8(a));
}

/// Nothing of a sensitive value reaches a log line: parameters that differ in
/// sensitive values alone have the same log lines.
pub proof fn log_lines_hide_sensitive_values(
    line: Seq<char>,
    a: Map<Seq<u8>, Seq<u8>>,
    b: Map<Seq<u8>, Seq<u8>>,
)
    requires
        a.dom() == b.dom(),
        forall|c: Seq<u8>| #[trigger] a.dom().contains(c) && !sensitive(c) ==> a[c] == b[c],
    ensures
        is_log_line(line, a) <==> is_log_line(line, b),
{
    if is_log_line(line, a) {
        let codes = choose|codes: Seq<Seq<u8>>| #[trigger]
            lists(codes, a) && ascending(parts(codes, a)) && line == text::join(
                parts(codes, a),
                ";"@,
            );
        lemma_parts_alike(codes, a, b);
        assert(lists(codes, b));
    }
    if is_log_line(line, b) {
        let codes = choose|codes: Seq<Seq<u8>>| #[trigger]
            lists(codes, b) && ascending(parts(codes, b)) && line == text::join(
                parts(codes, b),
                ";"@,
            );
        lemma_parts_alike(codes, a, b);
        assert(lists(codes, a));
    }
}

proof fn lemma_parts_alike(
    codes: Seq<Seq<u8>>,
    a: Map<Seq<u8>, Seq<u8>>,
    b: Map<Seq<u8>, Seq<u8>>,
)
    requires
        a.dom() == b.dom(),
        forall|c: Seq<u8>| #[trigger] a.dom().contains(c) && !sensitive(c) ==> a[c] == b[c],
        lists(codes, a) || lists(codes, b),
    ensures
        parts(codes, a) == parts(codes, b),
{
    assert forall|i: int| 0 <= i < codes.len() implies parts(codes, a)[i] == parts(codes, b)[i] by {
        let c = codes[i];
        assert(codes.contains(c));
        assert(a.dom().contains(c) && b.dom().contains(c));
        assert(parts(codes, a)[i] == part(c, a[c]));
        assert(parts(codes, b)[i] == part(c, b[c]));
    }
    assert(parts(codes, a) =~= parts(codes, b));
}

/// Nor does it reach a structured log: what shows the one shows the other.
pub proof fn redacted_maps_hide_sensitive_values(
    r: Seq<(String, String)>,
    a: Map<Seq<u8>, Seq<u8>>,
    b: Map<Seq<u8>, Seq<u8>>,
)
    requires
        a.dom() == b.dom(),
        forall|c: Seq<u8>| #[trigger] a.dom().contains(c) && !sensitive(c) ==> a[c] == b[c],
    ensures
        shows(r, a) ==> shows(r, b),
{
    if shows(r, a) {
        assert forall|i: int| 0 <= i < r.len() implies shows_some(#[trigger] r[i], b) by {
            assert(shows_some(r[i], a));
            let c = choose|c: Seq<u8>| pair_shows(r[i], c, a);
            assert(pair_shows(r[i], c, b));
        }
        assert forall|c: Seq<u8>| #[trigger] b.dom().contains(c) implies has_key(
            r,
            text::lossy_text(c),
        ) by {
            assert(a.dom().contains(c));
        }
    }
}

proof fn lemma_parts_multiset(
    a: Seq<Seq<u8>>,
    b: Seq<Seq<u8>>,
    params: Map<Seq<u8>, Seq<u8>>,
)
    requires
        a.to_multiset() == b.to_multiset(),
    ensures
        parts(a, params).to_multiset() == parts(b, params).to_multiset(),
    decreases a.len(),
{
    broadcast use vstd::multiset::group_multiset_axioms;
    broadcast use vstd::seq_lib::group_to_multiset_ensures;

    if a.len() == 0 {
        assert(b.len() == b.to_multiset().len());
        assert(parts(a, params) =~= parts(b, params));
    } else {
        let n = a.len() - 1;
        let x = a[n];
        assert(a.contains(x));
        assert(b.to_multiset().contains(x));
        let j = choose|j: int| 0 <= j < b.len() && b[j] == x;
        lemma_parts_multiset(a.remove(n), b.remove(j), params);
        assert(parts(a.remove(n), params) =~= parts(a, params).remove(n));
        assert(parts(b.remove(j), params) =~= parts(b, params).remove(j));
        let y = part(x, params[x]);
        assert(parts(a, params)[n] == y);
        assert(parts(b, params)[j] == y);
        assert(parts(a, params).contains(y));
        assert(parts(b, params).contains(y));
        assert(parts(a, params).to_multiset() =~= parts(a, params).remove(n).to_multiset().insert(
            y,
        ));
        assert(parts(b, params).to_multiset() =~= parts(b, params).remove(j).to_multiset().insert(
            y,
        ));
    }
}

/// Parameters have one log line, in whatever order they came.
pub proof fn a_log_line_is_unique(
    one: Seq<char>,
    other: Seq<char>,
    params: Map<Seq<u8>, Seq<u8>>,
)
    requires
        is_log_line(one, params),
        is_log_line(other, params),
    ensures
        one == other,
{
    broadcast use vstd::multiset::group_multiset_axioms;
    broadcast use vstd::seq_lib::group_to_multiset_ensures;

    let a = choose|codes: Seq<Seq<u8>>| #[trigger]
        lists(codes, params) && ascending(parts(codes, params)) && one == text::join(
            parts(codes, params),
            ";"@,
        );
    let b = choose|codes: Seq<Seq<u8>>| #[trigger]
        lists(codes, params) && ascending(parts(codes, params)) && other == text::join(
            parts(codes, params),
            ";"@,
        );
    a.lemma_multiset_has_no_duplicates();
    b.lemma_multiset_has_no_duplicates();
    assert forall|c: Seq<u8>| a.to_multiset().count(c) == b.to_multiset().count(c) by {
        assert(a.contains(c) == params.dom().contains(c));
        assert(b.contains(c) == params.dom().contains(c));
        assert(a.to_multiset().contains(c) == a.contains(c));
        assert(b.to_multiset().contains(c) == b.contains(c));
    }
    assert(a.to_multiset() =~= b.to_multiset());
    lemma_parts_multiset(a, b, params);
    let leq = |x: Seq<char>, y: Seq<char>| !text::text_less(y, x);
    lemma_texts_ordered();
    assert forall|i: int, j: int| 0 <= i < j < parts(a, params).len() implies #[trigger] leq(
        parts(a, params)[i],
        parts(a, params)[j],
    ) by {}
    assert forall|i: int, j: int| 0 <= i < j < parts(b, params).len() implies #[trigger] leq(
        parts(b, params)[i],
        parts(b, params)[j],
    ) by {}
    vstd::seq_lib::lemma_sorted_unique(parts(a, params), parts(b, params), leq);
}

proof fn lemma_texts_ordered()
    ensures
        vstd::relations::total_ordering(
            |x: Seq<char>, y: Seq<char>| !text::text_less(y, x),
        ),
{
    let leq = |x: Seq<char>, y: Seq<char>| !text::text_less(y, x);
    assert forall|x: Seq<char>| #[trigger] leq(x, x) by {
        lemma_text_less_irreflexive(x);
    }
    assert forall|x: Seq<char>, y: Seq<char>| #[trigger] leq(x, y) && #[trigger] leq(y, x) implies x
        == y by {
        text::bytes_less_is_total(vstd::utf8::encode_utf8(x), vstd::utf8::encode_utf8(y));
        vstd::utf8::encode_utf8_decode_utf8(x);
        vstd::utf8::encode_utf8_decode_utf8(y);
    }
    assert forall|x: Seq<char>, y: Seq<char>, z: Seq<char>| #[trigger] leq(x, y) && #[trigger] leq(
        y,
        z,
    ) implies leq(x, z) by {
        if text::text_less(z, x) {
            text::bytes_less_is_total(vstd::utf8::encode_utf8(x), vstd::utf8::encode_utf8(y));
            if vstd::utf8::encode_utf8(x) == vstd::utf8::encode_utf8(y) {
            } else {
                lemma_text_less_transitive(z, x, y);
            }
        }
    }
    assert forall|x: Seq<char>, y: Seq<char>| #[trigger] leq(x, y) || #[trigger] leq(y, x) by {
        if text::text_less(y, x) && text::text_less(x, y) {
            lemma_text_less_transitive(x, y, x);
            lemma_text_less_irreflexive(x);
        }
    }
}

/// A message is cut out of whatever stands around it: the first opening bracket begins it, and
/// behind `AO` stand the four bytes of its command code and, behind a semicolon, its parameters
/// up to the closing bracket.
pub proof fn messages_are_cut_out_at_their_brackets(
    before: Seq<u8>,
    code: Seq<u8>,
    params: Seq<u8>,
    rest: Seq<u8>,
)
    requires
        !before.contains('[' as u8),
        code.len() == 4,
        !code.contains(';' as u8),
        !code.contains(']' as u8),
        !params.contains(']' as u8),
    ensures
        ({
            let message = seq!['[' as u8, 'A' as u8, 'O' as u8] + code + seq![';' as u8] + params
                + seq![']' as u8];
            FuturexExcrypt.parsed(before + message + rest) == Some(
                CommandView {
                    header: seq![0u8, 0u8],
                    command_code: code,
                    payload: params,
                    frame_len: (before.len() + message.len()) as int,
                },
            )
        }),
{
    let command = text::ascii_2('A', 'O') + code;
    let inner = command + (seq![';' as u8] + params);
    let message = seq!['[' as u8, 'A' as u8, 'O' as u8] + code + seq![';' as u8] + params + seq![
        ']' as u8,
    ];
    let opened = seq!['[' as u8] + inner;
    let close = seq![']' as u8] + rest;
    let buf = before + message + rest;
    assert(message =~= opened + seq![']' as u8]);
    assert(buf =~= before + (opened + close));
    lemma_first_index_behind(before, opened + close, '[' as u8);
    assert(text::first_index(opened + close, '[' as u8) == 0);
    let start = before.len() as int;
    assert(buf.skip(start) =~= opened + close);
    assert(!opened.contains(']' as u8)) by {
        assert forall|i: int| 0 <= i < opened.len() implies opened[i] != ']' as u8 by {
            if 3 <= i < 7 {
                assert(code.contains(code[i - 3]));
            }
            if 8 <= i {
                assert(params.contains(params[i - 8]));
            }
        }
    }
    lemma_first_index_behind(opened, close, ']' as u8);
    assert(text::first_index(close, ']' as u8) == 0);
    assert(buf.subrange(start + 1, start + opened.len()) =~= inner);
    assert(!command.contains(';' as u8)) by {
        assert forall|i: int| 0 <= i < command.len() implies command[i] != ';' as u8 by {
            if 2 <= i {
                assert(code.contains(code[i - 2]));
            }
        }
    }
    lemma_first_index_behind(command, seq![';' as u8] + params, ';' as u8);
    assert(text::first_index(seq![';' as u8] + params, ';' as u8) == 0);
    assert(inner.take(2) =~= text::ascii_2('A', 'O'));
    assert(inner.subrange(2, 6) =~= code);
    assert(inner.skip(7) =~= params);
}

/// An answer is a message under the code of the command, with the status as its last parameter:
/// `Y` for success, else the error code.
pub proof fn answers_end_with_their_status(
    header: Seq<u8>,
    code: Seq<u8>,
    error_code: Seq<u8>,
    payload: Seq<u8>,
)
    ensures
        ({
            let r = FuturexExcrypt.framed(
                header,
                FuturexExcrypt.reply_code(code),
                error_code,
                payload,
            );
            let front = seq!['[' as u8, 'A' as u8, 'O' as u8] + code + seq![';' as u8] + payload;
            &&& error_code == text::ascii_2('0', '0') ==> r == front + seq![
                'B' as u8,
                'B' as u8,
                'Y' as u8,
                ';' as u8,
                ']' as u8,
            ]
            &&& error_code != text::ascii_2('0', '0') ==> r == front + seq!['B' as u8, 'B' as u8]
                + error_code + seq![';' as u8, ']' as u8]
        }),
{
    let r = FuturexExcrypt.framed(header, FuturexExcrypt.reply_code(code), error_code, payload);
    let front = seq!['[' as u8, 'A' as u8, 'O' as u8] + code + seq![';' as u8] + payload;
    if error_code == text::ascii_2('0', '0') {
        assert(r =~= front + seq!['B' as u8, 'B' as u8, 'Y' as u8, ';' as u8, ']' as u8]);
    } else {
        assert(r =~= front + seq!['B' as u8, 'B' as u8] + error_code + seq![
            ';' as u8,
            ']' as u8,
        ]);
    }
}

/// Parameters are read one after the other: two bytes of code, and the value up to the next
/// semicolon, over what the code stood for before. A piece without a value is passed over.
pub proof fn parameters_are_read_one_by_one(
    before: Map<Seq<u8>, Seq<u8>>,
    code: Seq<u8>,
    value: Seq<u8>,
    rest: Seq<u8>,
)
    requires
        code.len() <= 2,
        value.len() > 0 ==> code.len() == 2,
        !code.contains(';' as u8),
        !value.contains(';' as u8),
    ensures
        params_over(before, tokens(code + value + seq![';' as u8] + rest)) == params_over(
            if value.len() > 0 {
                before.insert(code, value)
            } else {
                before
            },
            tokens(rest),
        ),
        params_over(before, tokens(code + value)) == if value.len() > 0 {
            before.insert(code, value)
        } else {
            before
        },
{
    let piece = code + value;
    let s = piece + (seq![';' as u8] + rest);
    assert(code + value + seq![';' as u8] + rest =~= s);
    assert(!piece.contains(';' as u8)) by {
        assert forall|i: int| 0 <= i < piece.len() implies piece[i] != ';' as u8 by {
            if i < code.len() {
                assert(code.contains(code[i]));
            } else {
                assert(value.contains(value[i - code.len()]));
            }
        }
    }
    lemma_first_index_behind(piece, seq![';' as u8] + rest, ';' as u8);
    assert(text::first_index(seq![';' as u8] + rest, ';' as u8) == 0);
    assert(s.take(piece.len() as int) =~= piece);
    assert(s.skip(piece.len() as int + 1) =~= rest);
    let all = tokens(s);
    assert(all[0] == piece);
    assert(all.skip(1) =~= tokens(rest));
    lemma_first_index_behind(piece, Seq::empty(), ';' as u8);
    assert(piece + Seq::<u8>::empty() =~= piece);
    let one = tokens(piece);
    assert(one =~= seq![piece]);
    assert(one.skip(1) =~= Seq::<Seq<u8>>::empty());
    let after = if value.len() > 0 {
        before.insert(code, value)
    } else {
        before
    };
    assert(piece.take(2) =~= code || value.len() == 0);
    assert(piece.skip(2) =~= value || value.len() == 0);
    assert(params_over(after, one.skip(1)) == after);
}

/// Key blocks (`AX`, `BT`) and PIN blocks (`AL`) are masked, whatever they hold, and every other
/// value is shown as it is.
pub proof fn key_and_pin_blocks_are_masked(code: Seq<u8>, value: Seq<u8>)
    ensures
        code == text::ascii_2('A', 'X') || code == text::ascii_2('B', 'T') || code
            == text::ascii_2('A', 'L') ==> shown(code, value) == "[REDACTED]"@,
        code != text::ascii_2('A', 'X') && code != text::ascii_2('B', 'T') && code
            != text::ascii_2('A', 'L') ==> shown(code, value) == text::lossy_text(value),
{
}

/// Messages that differ in their key blocks (`AX`, `BT`) and PIN blocks (`AL`) alone leave the
/// same trace in the logs.
pub proof fn logs_do_not_tell_key_or_pin_blocks_apart(
    line: Seq<char>,
    pairs: Seq<(String, String)>,
    a: Map<Seq<u8>, Seq<u8>>,
    b: Map<Seq<u8>, Seq<u8>>,
)
    requires
        a.dom() == b.dom(),
        forall|c: Seq<u8>| #[trigger]
            a.dom().contains(c) && c != text::ascii_2('A', 'X') && c != text::ascii_2('B', 'T')
                && c != text::ascii_2('A', 'L') ==> a[c] == b[c],
    ensures
        is_log_line(line, a) <==> is_log_line(line, b),
        shows(pairs, a) <==> shows(pairs, b),
{
    log_lines_hide_sensitive_values(line, a, b);
    redacted_maps_hide_sensitive_values(pairs, a, b);
    assert forall|c: Seq<u8>| #[trigger] b.dom().contains(c) && !sensitive(c) implies b[c]
        == a[c] by {
        assert(a.dom().contains(c));
    }
    redacted_maps_hide_sensitive_values(pairs, b, a);
}

/// An answer is complete with its closing bracket, and not before.
pub proof fn only_closed_answers_are_complete(
    header: Seq<u8>,
    code: Seq<u8>,
    error_code: Seq<u8>,
    payload: Seq<u8>,
    k: int,
)
    requires
        !code.contains(']' as u8),
        !error_code.contains(']' as u8),
        !payload.contains(']' as u8),
    ensures
        ({
            let frame = FuturexExcrypt.framed(header, code, error_code, payload);
            &&& FuturexExcrypt.completed(frame)
            &&& 0 <= k < frame.len() ==> !FuturexExcrypt.completed(frame.take(k))
        }),
{
    let frame = FuturexExcrypt.framed(header, code, error_code, payload);
    if 0 < k < frame.len() {
        let i = k - 1;
        assert(frame.take(k).last() == frame[i]);
        let c = 3 + code.len();
        let p = c + 1 + payload.len();
        if 3 <= i < c {
            assert(code.contains(code[i - 3]));
        } else if c < i < p {
            assert(payload.contains(payload[i - c - 1]));
        } else if p + 2 <= i < p + 2 + status(error_code).len() {
            let e = i - p - 2;
            assert(frame[i] == status(error_code)[e]);
            if error_code != text::ascii_2('0', '0') {
                assert(error_code.contains(error_code[e]));
            }
        }
    }
}

} // verus!
