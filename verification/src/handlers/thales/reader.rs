//! A bounds-checked cursor over a payload.
//!
//! Every reading method either takes exactly the bytes it names and moves the
//! cursor past them, or fails without reading beyond the end. A parser that is run
//! at the cursor may leave it behind the end of the payload; nothing is there to be
//! read then. The command name stands in front of every failure text.

use vstd::prelude::*;
use vstd::string::*;
#[allow(unused_imports)]
use vstd::utf8::{decode_utf8, valid_utf8};

#[allow(unused_imports)]
use crate::error;
use crate::error::{Failure, ProxyError};
use crate::handlers::thales::common::{bytes_to_hex, field_8, field_be16};
#[allow(unused_imports)]
use crate::text;
use crate::text::{decimal_text, owned, utf8, word_of};

verus! {

/// `hex::encode_upper`: two upper-case hexadecimal digits for each byte, high
/// half first.
#[verifier::external_body]
fn encode_upper(bytes: &[u8]) -> (r: String)
    ensures
        r@ == text::hex_upper(bytes@),
{
    hex::encode_upper(bytes)
}

/// The failure of a field that the payload is too short for: `n` bytes were
/// wanted at `at`, of which `have` are there.
pub open spec fn truncated<A>(
    ctx: Seq<char>,
    field: Seq<char>,
    n: nat,
    at: nat,
    have: nat,
) -> Result<A, Failure> {
    error::bad(
        ctx + ": "@ + field + " truncated (need "@ + text::decimal(n) + " at offset "@
            + text::decimal(at) + ", have "@ + text::decimal(have) + ")"@,
    )
}

/// A cursor over a payload, by its bytes, its position and the command name.
pub struct Cursor {
    pub buf: Seq<u8>,
    pub pos: int,
    pub ctx: Seq<char>,
}

impl Cursor {
    /// What is not yet consumed; nothing, if the cursor stands behind the end.
    pub open spec fn rest(self) -> Seq<u8> {
        if self.pos <= self.buf.len() {
            self.buf.skip(self.pos)
        } else {
            Seq::empty()
        }
    }

    /// The next `n` bytes, if they are there.
    pub open spec fn next(self, n: nat, field: Seq<char>) -> Result<Seq<u8>, Failure> {
        if self.pos + n <= self.buf.len() {
            Ok(self.buf.subrange(self.pos, self.pos + n))
        } else {
            truncated(self.ctx, field, n, self.pos as nat, self.rest().len())
        }
    }

    /// The cursor after `n` bytes.
    pub open spec fn after(self, n: int) -> Cursor {
        Cursor { buf: self.buf, pos: self.pos + n, ctx: self.ctx }
    }

    /// The length that the next `width` characters write in `radix`.
    pub open spec fn length(self, width: nat, radix: int, field: Seq<char>) -> Result<
        int,
        Failure,
    > {
        match self.next(width, field) {
            Err(e) => Err(e),
            Ok(bytes) => if !valid_utf8(bytes) {
                error::bad(self.ctx + ": "@ + field + " length not ASCII"@)
            } else if text::word(decode_utf8(bytes), radix) is None {
                error::bad(
                    self.ctx + ": invalid "@ + field + " length '"@ + decode_utf8(bytes) + "'"@,
                )
            } else {
                Ok(text::word(decode_utf8(bytes), radix)->0)
            },
        }
    }
}

/// What is left of a field behind a length that was read.
pub open spec fn slice_outcome(r: Result<&[u8], ProxyError>) -> Result<Seq<u8>, Failure> {
    match r {
        Ok(s) => Ok(s@),
        Err(e) => Err(e@),
    }
}

/// A bounds-checked cursor.
pub struct FieldReader<'a> {
    buf: &'a [u8],
    pos: usize,
    ctx: &'static str,
}

impl<'a> View for FieldReader<'a> {
    type V = Cursor;

    open spec fn view(&self) -> Cursor {
        Cursor { buf: self.source()@, pos: self.offset() as int, ctx: self.name()@ }
    }
}

impl<'a> FieldReader<'a> {
    /// The payload.
    pub closed spec fn source(&self) -> &'a [u8] {
        self.buf
    }

    /// Where the cursor stands.
    pub closed spec fn offset(&self) -> usize {
        self.pos
    }

    /// The name of the command.
    pub closed spec fn name(&self) -> &'static str {
        self.ctx
    }

    /// A cursor at the start of `buf`.
    pub fn new(buf: &'a [u8], ctx: &'static str) -> (r: FieldReader<'a>)
        ensures
            r.source() == buf,
            r@ == (Cursor { buf: buf@, pos: 0, ctx: ctx@ }),
    {
        FieldReader { buf, pos: 0, ctx }
    }

    /// The current offset into the payload.
    pub fn pos(&self) -> (r: usize)
        ensures
            r == self.offset(),
    {
        self.pos
    }

    /// The part of the payload that is not yet consumed.
    pub fn remaining(&self) -> (r: &'a [u8])
        ensures
            r@ == self@.rest(),
    {
        let len: usize = self.buf.len();
        let at: usize = if self.pos <= len {
            self.pos
        } else {
            len
        };
        let r: &'a [u8] = &self.buf[at..len];
        assert(r@ =~= self@.rest());
        r
    }

    fn truncated(&self, n: u128, field: &str) -> (r: ProxyError)
        ensures
            truncated::<()>(
                self@.ctx,
                field@,
                n as nat,
                self@.pos as nat,
                self@.rest().len(),
            ) == Err::<(), Failure>(r@),
    {
        ProxyError::MalformedPayload(
            owned(self.ctx).concat(": ").concat(field).concat(" truncated (need ").concat(
                decimal_text(n).as_str(),
            ).concat(" at offset ").concat(decimal_text(self.pos as u128).as_str()).concat(
                ", have ",
            ).concat(decimal_text(self.remaining().len() as u128).as_str()).concat(")"),
        )
    }

    /// Take the next `n` bytes.
    pub fn take(&mut self, n: usize, field: &'static str) -> (r: Result<&'a [u8], ProxyError>)
        ensures
            final(self).source() == old(self).source(),
            slice_outcome(r) == old(self)@.next(n as nat, field@),
            final(self)@ == if r is Ok {
                old(self)@.after(n as int)
            } else {
                old(self)@
            },
    {
        if n > self.remaining().len() || self.pos > self.buf.len() {
            return Err(self.truncated(n as u128, field));
        }
        let end: usize = self.pos + n;
        let out: &'a [u8] = &self.buf[self.pos..end];
        self.pos = end;
        Ok(out)
    }

    /// Take eight bytes as an array.
    pub fn take_8(&mut self, field: &'static str) -> (r: Result<[u8; 8], ProxyError>)
        ensures
            final(self).source() == old(self).source(),
            match r {
                Ok(a) => old(self)@.next(8, field@) == Ok::<Seq<u8>, Failure>(a@),
                Err(e) => old(self)@.next(8, field@) == Err::<Seq<u8>, Failure>(e@),
            },
            final(self)@ == if r is Ok {
                old(self)@.after(8)
            } else {
                old(self)@
            },
    {
        let s: &'a [u8] = self.take(8, field)?;
        let a: [u8; 8] = field_8(s, 0);
        assert(a@ =~= s@);
        Ok(a)
    }

    /// Take a single byte.
    pub fn byte(&mut self, field: &'static str) -> (r: Result<u8, ProxyError>)
        ensures
            final(self).source() == old(self).source(),
            match r {
                Ok(b) => old(self)@.pos < old(self)@.buf.len() && b
                    == old(self)@.buf[old(self)@.pos],
                Err(e) => old(self)@.next(1, field@) == Err::<Seq<u8>, Failure>(e@),
            },
            final(self)@ == if r is Ok {
                old(self)@.after(1)
            } else {
                old(self)@
            },
    {
        let s: &'a [u8] = self.take(1, field)?;
        Ok(s[0])
    }

    /// Take one byte and require that it is `expected`. A byte that differs is
    /// consumed all the same.
    pub fn expect_byte(&mut self, expected: u8, field: &'static str) -> (r: Result<(), ProxyError>)
        ensures
            final(self).source() == old(self).source(),
            match r {
                Ok(_) => old(self)@.pos < old(self)@.buf.len() && old(self)@.buf[old(self)@.pos]
                    == expected,
                Err(e) => if old(self)@.pos < old(self)@.buf.len() {
                    &&& old(self)@.buf[old(self)@.pos] != expected
                    &&& e@ == Failure::MalformedPayload(
                        mismatch(
                            old(self)@.ctx,
                            field@,
                            expected,
                            old(self)@.pos as nat,
                            old(self)@.buf[old(self)@.pos],
                        ),
                    )
                } else {
                    old(self)@.next(1, field@) == Err::<Seq<u8>, Failure>(e@)
                },
            },
            final(self)@ == if old(self)@.pos < old(self)@.buf.len() {
                old(self)@.after(1)
            } else {
                old(self)@
            },
    {
        let at: usize = self.pos;
        let b: u8 = self.byte(field)?;
        if b != expected {
            let want: [u8; 1] = [expected];
            let got: [u8; 1] = [b];
            assert(want@ =~= seq![expected]);
            assert(got@ =~= seq![b]);
            return Err(
                ProxyError::MalformedPayload(
                    owned(self.ctx).concat(": expected ").concat(field).concat(" 0x").concat(
                        bytes_to_hex(&want).as_str(),
                    ).concat(" at offset ").concat(decimal_text(at as u128).as_str()).concat(
                        ", got 0x",
                    ).concat(bytes_to_hex(&got).as_str()),
                ),
            );
        }
        Ok(())
    }

    /// Take a two-byte big-endian number.
    pub fn u16_be(&mut self, field: &'static str) -> (r: Result<usize, ProxyError>)
        ensures
            final(self).source() == old(self).source(),
            match r {
                Ok(n) => old(self)@.pos + 2 <= old(self)@.buf.len() && n == text::be16(
                    old(self)@.buf,
                    old(self)@.pos,
                ) && n <= 65535,
                Err(e) => old(self)@.next(2, field@) == Err::<Seq<u8>, Failure>(e@),
            },
            final(self)@ == if r is Ok {
                old(self)@.after(2)
            } else {
                old(self)@
            },
    {
        let s: &'a [u8] = self.take(2, field)?;
        Ok(field_be16(s, 0))
    }

    /// Run a parser that reads at an offset and tells how many bytes it took, and
    /// move the cursor past them. A parser that fails leaves the cursor where it is.
    pub fn parse_with<T, F: FnOnce(&'a [u8], usize) -> Result<(T, usize), ProxyError>>(
        &mut self,
        f: F,
    ) -> (r: Result<T, ProxyError>)
        requires
            call_requires(f, (old(self).source(), old(self).offset())),
            forall|v: T, n: usize| #[trigger]
                call_ensures(f, (old(self).source(), old(self).offset()), Ok((v, n)))
                    ==> old(self).offset() + n <= usize::MAX,
        ensures
            final(self).source() == old(self).source(),
            exists|out: Result<(T, usize), ProxyError>|
                {
                    &&& #[trigger] call_ensures(
                        f,
                        (old(self).source(), old(self).offset()),
                        out,
                    )
                    &&& match out {
                        Ok((v, n)) => r == Ok::<T, ProxyError>(v) && final(self)@ == old(
                            self,
                        )@.after(n as int),
                        Err(e) => r == Err::<T, ProxyError>(e) && final(self)@ == old(self)@,
                    }
                },
    {
        let out: Result<(T, usize), ProxyError> = f(self.buf, self.pos);
        assert(call_ensures(f, (old(self).source(), old(self).offset()), out));
        match out {
            Ok((v, n)) => {
                self.pos = self.pos + n;
                Ok(v)
            },
            Err(e) => Err(e),
        }
    }

    /// Take `n` bytes as upper-case hexadecimal.
    pub fn take_hex(&mut self, n: usize, field: &'static str) -> (r: Result<String, ProxyError>)
        ensures
            final(self).source() == old(self).source(),
            match (r, old(self)@.next(n as nat, field@)) {
                (Ok(h), Ok(bytes)) => h@ == text::hex_upper(bytes),
                (Err(e), Err(f)) => e@ == f,
                _ => false,
            },
            final(self)@ == if r is Ok {
                old(self)@.after(n as int)
            } else {
                old(self)@
            },
    {
        let s: &'a [u8] = self.take(n, field)?;
        Ok(encode_upper(s))
    }

    fn take_length(&mut self, width: usize, radix: u32, field: &'static str) -> (r: Result<
        usize,
        ProxyError,
    >)
        requires
            2 <= radix <= 36,
        ensures
            final(self).source() == old(self).source(),
            match r {
                Ok(n) => old(self)@.length(width as nat, radix as int, field@) == Ok::<
                    int,
                    Failure,
                >(n as int),
                Err(e) => old(self)@.length(width as nat, radix as int, field@) == Err::<
                    int,
                    Failure,
                >(e@),
            },
            final(self)@ == if old(self)@.next(width as nat, field@) is Ok {
                old(self)@.after(width as int)
            } else {
                old(self)@
            },
    {
        let s: &'a [u8] = self.take(width, field)?;
        let len_text: String = match utf8(s) {
            Some(t) => t,
            None => {
                return Err(
                    ProxyError::MalformedPayload(
                        owned(self.ctx).concat(": ").concat(field).concat(" length not ASCII"),
                    ),
                );
            },
        };
        match word_of(len_text.as_str(), radix) {
            Some(n) => Ok(n),
            None => Err(
                ProxyError::MalformedPayload(
                    owned(self.ctx).concat(": invalid ").concat(field).concat(" length '").concat(
                        len_text.as_str(),
                    ).concat("'"),
                ),
            ),
        }
    }

    /// Read a length of `width` characters in `radix`, then take that many bytes. If
    /// this fails once the length field was taken, the cursor stands behind that
    /// field.
    pub fn take_ascii_len_field(
        &mut self,
        width: usize,
        radix: u32,
        field: &'static str,
    ) -> (r: Result<&'a [u8], ProxyError>)
        requires
            2 <= radix <= 36,
        ensures
            final(self).source() == old(self).source(),
            slice_outcome(r) == match old(self)@.length(width as nat, radix as int, field@) {
                Ok(n) => old(self)@.after(width as int).next(n as nat, field@),
                Err(e) => Err(e),
            },
            final(self)@ == if r is Ok {
                old(self)@.after(width + r->Ok_0@.len())
            } else if old(self)@.next(width as nat, field@) is Ok {
                old(self)@.after(width as int)
            } else {
                old(self)@
            },
            old(self)@.length(width as nat, radix as int, field@) matches Ok(n) ==> 0 <= n,
    {
        let len: usize = self.take_length(width, radix, field)?;
        self.take(len, field)
    }

    /// Read a length of `width` characters in `radix`, then take two characters
    /// for each byte that it counts. If this fails once the length field was taken,
    /// the cursor stands behind that field.
    pub fn take_ascii_len_hex(&mut self, width: usize, radix: u32, field: &'static str) -> (r:
        Result<&'a [u8], ProxyError>)
        requires
            2 <= radix <= 36,
        ensures
            final(self).source() == old(self).source(),
            slice_outcome(r) == match old(self)@.length(width as nat, radix as int, field@) {
                Ok(n) => old(self)@.after(width as int).next((2 * n) as nat, field@),
                Err(e) => Err(e),
            },
            final(self)@ == if r is Ok {
                old(self)@.after(width + r->Ok_0@.len())
            } else if old(self)@.next(width as nat, field@) is Ok {
                old(self)@.after(width as int)
            } else {
                old(self)@
            },
            old(self)@.length(width as nat, radix as int, field@) matches Ok(n) ==> 0 <= n,
    {
        let len: usize = self.take_length(width, radix, field)?;
        if len > self.remaining().len() / 2 {
            return Err(self.truncated(len as u128 * 2, field));
        }
        self.take(len * 2, field)
    }
}

/// The failure text of a byte that is not the expected one.
pub open spec fn mismatch(
    ctx: Seq<char>,
    field: Seq<char>,
    expected: u8,
    at: nat,
    got: u8,
) -> Seq<char> {
    ctx + ": expected "@ + field + " 0x"@ + text::hex_upper(seq![expected]) + " at offset "@
        + text::decimal(at) + ", got 0x"@ + text::hex_upper(seq![got])
}

/// A field that was taken is exactly as long as was asked for, and what follows
/// is read from right behind it.
pub proof fn fields_are_consecutive(c: Cursor, n: nat, m: nat, field: Seq<char>, other: Seq<char>)
    requires
        0 <= c.pos,
        c.next(n, field) is Ok,
        c.after(n as int).next(m, other) is Ok,
    ensures
        c.next(n, field)->Ok_0.len() == n,
        c.next(n + m, field) == Ok::<Seq<u8>, Failure>(
            c.next(n, field)->Ok_0 + c.after(n as int).next(m, other)->Ok_0,
        ),
{
    assert(c.next(n + m, field)->Ok_0 =~= c.next(n, field)->Ok_0 + c.after(n as int).next(
        m,
        other,
    )->Ok_0);
}

/// A field is taken where the cursor stands, and what is left is what follows it. If fewer bytes
/// are there, the failure names the command and the field, and says how many bytes were wanted,
/// where, and how many there are.
pub proof fn fields_are_taken_in_place(
    before: Seq<u8>,
    bytes: Seq<u8>,
    behind: Seq<u8>,
    ctx: Seq<char>,
    field: Seq<char>,
    n: nat,
)
    ensures
        ({
            let c = Cursor { buf: before + bytes + behind, pos: before.len() as int, ctx };
            &&& c.next(bytes.len(), field) == Ok::<Seq<u8>, Failure>(bytes)
            &&& c.rest() == bytes + behind
            &&& c.after(bytes.len() as int).rest() == behind
            &&& c.after(bytes.len() as int).ctx == ctx
            &&& n > bytes.len() + behind.len() ==> c.next(n, field) == Err::<Seq<u8>, Failure>(
                ProxyError::MalformedPayload(
                    ctx + ": "@ + field + " truncated (need "@ + text::decimal(n) + " at offset "@
                        + text::decimal(before.len()) + ", have "@ + text::decimal(
                        bytes.len() + behind.len(),
                    ) + ")"@,
                ),
            )
        }),
{
    let c = Cursor { buf: before + bytes + behind, pos: before.len() as int, ctx };
    assert(c.buf.subrange(c.pos, c.pos + bytes.len()) =~= bytes);
    assert(c.rest() =~= bytes + behind);
    assert(c.after(bytes.len() as int).rest() =~= behind);
}

/// A length is the number that its digits write, most significant digit first.
pub proof fn lengths_are_read_as_numbers(before: Seq<u8>, a: char, b: char, behind: Seq<u8>)
    requires
        '0' <= a <= '9',
        '0' <= b <= '9',
    ensures
        ({
            let c = Cursor {
                buf: before + text::ascii_2(a, b) + behind,
                pos: before.len() as int,
                ctx: Seq::empty(),
            };
            let (tens, units) = (a as int - '0' as int, b as int - '0' as int);
            &&& c.length(2, 10, Seq::empty()) == Ok::<int, Failure>(10 * tens + units)
            &&& c.length(2, 16, Seq::empty()) == Ok::<int, Failure>(16 * tens + units)
        }),
{
    let c = Cursor {
        buf: before + text::ascii_2(a, b) + behind,
        pos: before.len() as int,
        ctx: Seq::empty(),
    };
    fields_are_taken_in_place(
        before,
        text::ascii_2(a, b),
        behind,
        Seq::empty(),
        Seq::empty(),
        0,
    );
    assert(text::ascii_2(a, b).len() == 2);
    text::ascii_pairs_are_read_as_written(a, b);
    let s = seq![a, b];
    reveal_with_fuel(text::digits_value, 3);
    assert(s.drop_last() =~= seq![a]);
    assert(s.drop_last().drop_last() =~= Seq::<char>::empty());
}

} // verus!
