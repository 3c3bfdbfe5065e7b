//! Text, digits and bytes: the small vocabulary that the wire parsers and the
//! report writers are stated in.
//!
//! A string is modelled by its characters, a wire field by its bytes. The spec
//! functions here say what a rendering or a reading of a value is; the
//! executable functions next to them compute exactly that.

use vstd::prelude::*;
use vstd::slice::slice_to_vec;
use vstd::string::*;
use vstd::utf8::*;

verus! {

// ── conversions that rest on std ─────────────────────────────────────────────

/// `String::push` appends the character to the end of the string.
pub assume_specification[ String::push ](s: &mut String, c: char)
    ensures
        final(s)@ == old(s)@.push(c),
;

/// The text that `String::from_utf8_lossy` makes of `bytes`: sequences that are
/// not UTF-8 are replaced by U+FFFD.
pub uninterp spec fn utf8_lossy(bytes: Seq<u8>) -> Seq<char>;

/// `String::from_utf8_lossy`: the result depends on the bytes alone, and valid
/// UTF-8 is kept as it is. How many replacement characters stand for an invalid
/// sequence is not said.
#[verifier::external_body]
fn from_utf8_lossy(bytes: &[u8]) -> (r: String)
    ensures
        r@ == utf8_lossy(bytes@),
        valid_utf8(bytes@) ==> r@ == decode_utf8(bytes@),
{
    String::from_utf8_lossy(bytes).into_owned()
}

/// The text of `bytes`: what they encode if they are UTF-8; else what
/// `String::from_utf8_lossy` makes of them.
pub open spec fn lossy_text(bytes: Seq<u8>) -> Seq<char> {
    if valid_utf8(bytes) {
        decode_utf8(bytes)
    } else {
        utf8_lossy(bytes)
    }
}

/// The text of `bytes`.
pub(crate) fn lossy(bytes: &[u8]) -> (r: String)
    ensures
        r@ == lossy_text(bytes@),
{
    from_utf8_lossy(bytes)
}

/// `std::str::from_utf8`: succeeds exactly on valid UTF-8 and then gives the
/// text that the bytes encode.
#[verifier::external_body]
pub(crate) fn utf8(bytes: &[u8]) -> (r: Option<String>)
    ensures
        r is Some <==> valid_utf8(bytes@),
        r is Some ==> r->0@ == decode_utf8(bytes@),
{
    std::str::from_utf8(bytes).ok().map(|s| s.to_string())
}

/// The text that the `Debug` format of a `str` gives: `s` in double quotes, with
/// quotes, backslashes and what cannot be printed escaped.
pub uninterp spec fn debug_text(s: Seq<char>) -> Seq<char>;

/// The `Debug` format of a `str`: the result depends on the text alone. Which
/// characters are escaped, and how, is not said.
#[verifier::external_body]
pub(crate) fn quoted(s: &str) -> (r: String)
    ensures
        r@ == debug_text(s@),
{
    format!("{:?}", s)
}

/// The two ASCII characters as bytes.
pub open spec fn ascii_2(a: char, b: char) -> Seq<u8> {
    seq![a as u8, b as u8]
}

/// Two ASCII characters on the wire are read as these two characters.
pub proof fn ascii_pairs_are_read_as_written(a: char, b: char)
    requires
        (a as u32) < 0x80,
        (b as u32) < 0x80,
    ensures
        valid_utf8(ascii_2(a, b)),
        decode_utf8(ascii_2(a, b)) == seq![a, b],
        lossy_text(ascii_2(a, b)) == seq![a, b],
{
    let s = seq![a, b];
    vstd::utf8::is_ascii_chars_encode_utf8(s);
    assert(encode_utf8(s) =~= ascii_2(a, b));
    vstd::utf8::encode_utf8_valid_utf8(s);
    vstd::utf8::encode_utf8_decode_utf8(s);
}

/// Whether `bytes` are the two ASCII characters `a` and `b`.
pub(crate) fn is_ascii_2(bytes: &[u8], a: char, b: char) -> (r: bool)
    requires
        a as u32 <= 127,
        b as u32 <= 127,
    ensures
        r == (bytes@ == ascii_2(a, b)),
{
    let r: bool = bytes.len() == 2 && bytes[0] == a as u8 && bytes[1] == b as u8;
    assert(r ==> bytes@ =~= ascii_2(a, b));
    r
}

/// A hexadecimal digit, in either case.
pub open spec fn is_hex(c: char) -> bool {
    '0' <= c <= '9' || 'a' <= c <= 'f' || 'A' <= c <= 'F'
}

/// `s` has `n` characters, all of them hexadecimal digits.
pub open spec fn is_hex_text(s: Seq<char>, n: nat) -> bool {
    s.len() == n && forall|i: int| 0 <= i < s.len() ==> is_hex(#[trigger] s[i])
}

/// Whether the characters of `s` from `from` on are `n` hexadecimal digits.
pub(crate) fn hex_from(s: &str, from: usize, n: usize) -> (r: bool)
    requires
        from <= s@.len(),
    ensures
        r == is_hex_text(s@.skip(from as int), n as nat),
{
    let len: usize = s.unicode_len();
    if len - from != n {
        return false;
    }
    let mut i: usize = from;
    while i < len
        invariant
            len == s@.len(),
            from <= i <= len,
            forall|k: int| from <= k < i ==> is_hex(#[trigger] s@[k]),
        decreases len - i,
    {
        let c: char = s.get_char(i);
        let hex: bool = ('0' <= c && c <= '9') || ('a' <= c && c <= 'f') || ('A' <= c && c <= 'F');
        if !hex {
            assert(!is_hex(s@.skip(from as int)[i - from]));
            return false;
        }
        i = i + 1;
    }
    assert forall|k: int| 0 <= k < s@.skip(from as int).len() implies is_hex(
        #[trigger] s@.skip(from as int)[k],
    ) by {
        assert(is_hex(s@[k + from]));
    }
    true
}

// ── building text ────────────────────────────────────────────────────────────

/// An owned copy of `s`.
pub(crate) fn owned(s: &str) -> (r: String)
    ensures
        r@ == s@,
{
    s.to_owned()
}

/// The one-character text whose code point is the byte `b`.
pub(crate) fn byte_text(b: u8) -> (r: String)
    ensures
        r@ == seq![b as char],
{
    let mut s = String::new();
    s.push(b as char);
    s
}

/// The one-character text `c`.
pub(crate) fn char_text(c: char) -> (r: String)
    ensures
        r@ == seq![c],
{
    let mut s = String::new();
    s.push(c);
    s
}

/// The bytes that encode `s`.
pub(crate) fn text_bytes(s: &str) -> (r: Vec<u8>)
    ensures
        r@ == encode_utf8(s@),
{
    slice_to_vec(s.as_bytes())
}

/// The texts of a list.
pub open spec fn texts(list: Seq<&'static str>) -> Seq<Seq<char>> {
    list.map_values(|s: &'static str| s@)
}

/// The texts of a list of strings.
pub open spec fn views(list: Seq<String>) -> Seq<Seq<char>> {
    list.map_values(|s: String| s@)
}

/// The texts of a list with `sep` between them.
pub open spec fn join(list: Seq<Seq<char>>, sep: Seq<char>) -> Seq<char>
    decreases list.len(),
{
    if list.len() == 0 {
        Seq::empty()
    } else if list.len() == 1 {
        list[0]
    } else {
        join(list.drop_last(), sep) + sep + list.last()
    }
}

/// The texts of a list with `sep` between them.
pub(crate) fn join_text(list: &Vec<&'static str>, sep: &str) -> (r: String)
    ensures
        r@ == join(texts(list@), sep@),
{
    let mut s: String = String::new();
    let mut i: usize = 0;
    let ghost all = texts(list@);
    while i < list.len()
        invariant
            i <= list@.len(),
            all == texts(list@),
            s@ == join(all.take(i as int), sep@),
        decreases list@.len() - i,
    {
        proof {
            assert(all.take(i + 1).drop_last() =~= all.take(i as int));
            assert(all.take(i + 1).last() == list@[i as int]@);
        }
        if i > 0 {
            s.append(sep);
        }
        s.append(list[i]);
        i = i + 1;
        assert(s@ =~= join(all.take(i as int), sep@));
    }
    assert(all.take(i as int) =~= all);
    s
}

// ── numbers as text ──────────────────────────────────────────────────────────

/// The decimal digit `d`.
pub open spec fn decimal_digit(d: int) -> char {
    (48 + d) as char
}

/// `n` in decimal, without leading zeros.
pub open spec fn decimal(n: nat) -> Seq<char>
    decreases n,
{
    if n < 10 {
        seq![decimal_digit(n as int)]
    } else {
        decimal(n / 10).push(decimal_digit((n % 10) as int))
    }
}

/// Render `n` in decimal.
pub(crate) fn decimal_text(n: u128) -> (r: String)
    ensures
        r@ == decimal(n as nat),
    decreases n,
{
    let last: u8 = (n % 10) as u8;
    let digit: char = (48u8 + last) as char;
    if n < 10 {
        let r = char_text(digit);
        assert(r@ =~= decimal(n as nat));
        r
    } else {
        let mut r = decimal_text(n / 10);
        r.push(digit);
        r
    }
}

/// The upper-case hexadecimal digit `d`.
pub open spec fn hex_digit(d: int) -> char {
    if d < 10 {
        (48 + d) as char
    } else {
        (55 + d) as char
    }
}

/// Two upper-case hexadecimal digits for each byte, high half first.
pub open spec fn hex_upper(bytes: Seq<u8>) -> Seq<char> {
    Seq::new(
        (2 * bytes.len()) as nat,
        |i: int|
            hex_digit(
                if i % 2 == 0 {
                    bytes[i / 2] as int / 16
                } else {
                    bytes[i / 2] as int % 16
                },
            ),
    )
}

/// The hexadecimal digit for `d`.
pub(crate) fn hex_digit_char(d: u8) -> (r: char)
    requires
        d < 16,
    ensures
        r == hex_digit(d as int),
{
    if d < 10 {
        (48u8 + d) as char
    } else {
        (55u8 + d) as char
    }
}

/// `n` in upper-case hexadecimal, without leading zeros.
pub open spec fn hex_number(n: nat) -> Seq<char>
    decreases n,
{
    if n < 16 {
        seq![hex_digit(n as int)]
    } else {
        hex_number(n / 16).push(hex_digit((n % 16) as int))
    }
}

/// `n` in upper-case hexadecimal, with zeros in front up to four digits.
pub open spec fn hex_4(n: nat) -> Seq<char> {
    let h = hex_number(n);
    if h.len() < 4 {
        Seq::new((4 - h.len()) as nat, |i: int| '0') + h
    } else {
        h
    }
}

/// Up to four hexadecimal digits are filled up to exactly four.
pub proof fn hex_4_has_four_digits(n: nat)
    requires
        n <= 0xFFFF,
    ensures
        hex_4(n).len() == 4,
        is_ascii_chars(hex_4(n)),
{
    reveal_with_fuel(hex_number, 5);
}

/// Four hexadecimal digits are read back as the number they were made of.
pub proof fn hex_4_reads_back(n: nat)
    requires
        n <= 0xFFFF,
    ensures
        word(hex_4(n), 16) == Some(n as int),
{
    reveal_with_fuel(hex_number, 5);
    reveal_with_fuel(digits_value, 5);
    let digits = seq![
        hex_digit((n / 4096) as int),
        hex_digit((n / 256 % 16) as int),
        hex_digit((n / 16 % 16) as int),
        hex_digit((n % 16) as int),
    ];
    assert(n / 16 / 16 == n / 256);
    assert(n / 16 / 16 / 16 == n / 4096);
    assert(hex_4(n) =~= digits);
    assert(digits.drop_last() =~= digits.take(3));
    assert(digits.take(3).drop_last() =~= digits.take(2));
    assert(digits.take(2).drop_last() =~= digits.take(1));
    assert(digits.take(1).drop_last() =~= Seq::<char>::empty());
    assert(digits_value(digits, 16) == Some(n as int));
}

fn hex_number_text(n: usize) -> (r: String)
    ensures
        r@ == hex_number(n as nat),
    decreases n,
{
    let digit: char = hex_digit_char((n % 16) as u8);
    if n < 16 {
        let r = char_text(digit);
        assert(r@ =~= hex_number(n as nat));
        r
    } else {
        let mut r = hex_number_text(n / 16);
        r.push(digit);
        r
    }
}

/// Render `n` in upper-case hexadecimal, four digits at least.
pub(crate) fn hex_4_text(n: usize) -> (r: String)
    ensures
        r@ == hex_4(n as nat),
{
    let h = hex_number_text(n);
    let len: usize = h.as_str().unicode_len();
    let mut r = String::new();
    let mut i: usize = len;
    while i < 4
        invariant
            len == h@.len(),
            len <= i,
            i <= if len <= 4 { 4 } else { len },
            r@ == Seq::new((i - len) as nat, |k: int| '0'),
        decreases 4 - i,
    {
        r.push('0');
        i = i + 1;
        assert(r@ =~= Seq::new((i - len) as nat, |k: int| '0'));
    }
    r.append(h.as_str());
    assert(r@ =~= hex_4(n as nat));
    r
}

// ── text as numbers ──────────────────────────────────────────────────────────

/// The value of `c` as a digit in `radix`: `0`–`9`, then the letters in either
/// case.
pub open spec fn digit_value(c: char, radix: int) -> Option<int> {
    let v = if '0' <= c <= '9' {
        c as int - '0' as int
    } else if 'a' <= c <= 'z' {
        c as int - 'a' as int + 10
    } else if 'A' <= c <= 'Z' {
        c as int - 'A' as int + 10
    } else {
        radix
    };
    if v < radix {
        Some(v)
    } else {
        None
    }
}

/// The value of a run of digits, zero if it is empty; `None` if one is no digit.
pub open spec fn digits_value(s: Seq<char>, radix: int) -> Option<int>
    decreases s.len(),
{
    if s.len() == 0 {
        Some(0)
    } else {
        match (digits_value(s.drop_last(), radix), digit_value(s.last(), radix)) {
            (Some(v), Some(d)) => Some(v * radix + d),
            _ => None,
        }
    }
}

/// The number that `s` writes in `radix`, if `s` is one digit or more and nothing
/// else, not even a sign, and the number fits the machine word.
pub open spec fn word(s: Seq<char>, radix: int) -> Option<int> {
    if s.len() == 0 {
        None
    } else {
        match digits_value(s, radix) {
            Some(v) if v <= usize::MAX => Some(v),
            _ => None,
        }
    }
}

fn digit_of(c: char, radix: u32) -> (r: Option<usize>)
    requires
        2 <= radix <= 36,
    ensures
        r is Some <==> digit_value(c, radix as int) is Some,
        r is Some ==> r->0 == digit_value(c, radix as int)->0,
{
    let code: u32 = c as u32;
    let v: u32 = if '0' <= c && c <= '9' {
        code - 48
    } else if 'a' <= c && c <= 'z' {
        code - 87
    } else if 'A' <= c && c <= 'Z' {
        code - 55
    } else {
        radix
    };
    if v < radix {
        Some(v as usize)
    } else {
        None
    }
}

proof fn lemma_digits_prefix(s: Seq<char>, k: int, radix: int)
    requires
        0 <= k <= s.len(),
        radix >= 2,
    ensures
        digits_value(s.take(k), radix) is None ==> digits_value(s, radix) is None,
        digits_value(s, radix) is Some && digits_value(s.take(k), radix) is Some ==> 0
            <= digits_value(s.take(k), radix)->0 <= digits_value(s, radix)->0,
    decreases s.len(),
{
    if k == s.len() {
        assert(s.take(k) =~= s);
        if s.len() > 0 {
            lemma_digits_prefix(s.drop_last(), 0, radix);
            lemma_digits_prefix(s.drop_last(), s.len() - 1, radix);
            if digits_value(s, radix) is Some {
                let v = digits_value(s.drop_last(), radix)->0;
                assert(v * radix >= 0) by (nonlinear_arith)
                    requires
                        v >= 0,
                        radix >= 2,
                ;
            }
        }
    } else {
        lemma_digits_prefix(s.drop_last(), k, radix);
        assert(s.drop_last().take(k) =~= s.take(k));
        if digits_value(s, radix) is Some {
            let v = digits_value(s.drop_last(), radix)->0;
            assert(v * radix >= v) by (nonlinear_arith)
                requires
                    v >= 0,
                    radix >= 2,
            ;
        }
    }
}

/// A number that is read is not negative.
pub proof fn numbers_are_natural(s: Seq<char>, radix: int)
    requires
        radix >= 2,
    ensures
        word(s, radix) matches Some(v) ==> 0 <= v,
{
    lemma_digits_prefix(s, s.len() as int, radix);
    assert(s.take(s.len() as int) =~= s);
}

/// What is read as a number is digits throughout: no sign, no white space.
pub proof fn numbers_are_digits_throughout(s: Seq<char>, radix: int)
    requires
        word(s, radix) is Some,
    ensures
        s.len() > 0,
        forall|i: int| 0 <= i < s.len() ==> digit_value(#[trigger] s[i], radix) is Some,
{
    lemma_digits_throughout(s, radix);
}

proof fn lemma_digits_throughout(s: Seq<char>, radix: int)
    requires
        digits_value(s, radix) is Some,
    ensures
        forall|i: int| 0 <= i < s.len() ==> digit_value(#[trigger] s[i], radix) is Some,
    decreases s.len(),
{
    if s.len() > 0 {
        lemma_digits_throughout(s.drop_last(), radix);
        assert forall|i: int| 0 <= i < s.len() implies digit_value(
            #[trigger] s[i],
            radix,
        ) is Some by {
            if i < s.len() - 1 {
                assert(s.drop_last()[i] == s[i]);
            }
        }
    }
}

/// Read `s` as a number in `radix`.
pub(crate) fn word_of(s: &str, radix: u32) -> (r: Option<usize>)
    requires
        2 <= radix <= 36,
    ensures
        r is Some <==> word(s@, radix as int) is Some,
        r is Some ==> r->0 == word(s@, radix as int)->0,
{
    let len: usize = s.unicode_len();
    if len == 0 {
        return None;
    }
    let mut v: usize = 0;
    let mut i: usize = 0;
    while i < len
        invariant
            2 <= radix <= 36,
            len == s@.len(),
            len > 0,
            i <= len,
            digits_value(s@.take(i as int), radix as int) == Some(v as int),
        decreases len - i,
    {
        let c = s.get_char(i);
        proof {
            let t = s@.take(i + 1);
            assert(t.drop_last() =~= s@.take(i as int));
            assert(t.last() == c);
            lemma_digits_prefix(s@, i + 1, radix as int);
        }
        let digit: usize = match digit_of(c, radix) {
            Some(x) => x,
            None => {
                return None;
            },
        };
        let scaled: usize = match v.checked_mul(radix as usize) {
            Some(x) => x,
            None => {
                return None;
            },
        };
        let next: usize = match scaled.checked_add(digit) {
            Some(x) => x,
            None => {
                return None;
            },
        };
        v = next;
        i = i + 1;
    }
    assert(s@.take(len as int) =~= s@);
    Some(v)
}

// ── trimming and case ────────────────────────────────────────────────────────

/// The characters with the Unicode `White_Space` property.
pub open spec fn is_white(c: char) -> bool {
    let v = c as u32;
    ||| 0x9 <= v <= 0xd
    ||| v == 0x20
    ||| v == 0x85
    ||| v == 0xa0
    ||| v == 0x1680
    ||| 0x2000 <= v <= 0x200a
    ||| v == 0x2028
    ||| v == 0x2029
    ||| v == 0x202f
    ||| v == 0x205f
    ||| v == 0x3000
}

/// `s` without the white space in front.
pub open spec fn trim_start(s: Seq<char>) -> Seq<char>
    decreases s.len(),
{
    if s.len() > 0 && is_white(s[0]) {
        trim_start(s.skip(1))
    } else {
        s
    }
}

/// `s` without the white space at the end.
pub open spec fn trim_end(s: Seq<char>) -> Seq<char>
    decreases s.len(),
{
    if s.len() > 0 && is_white(s.last()) {
        trim_end(s.drop_last())
    } else {
        s
    }
}

/// `s` without the run of `c` in front.
pub open spec fn strip_start(s: Seq<char>, c: char) -> Seq<char>
    decreases s.len(),
{
    if s.len() > 0 && s[0] == c {
        strip_start(s.skip(1), c)
    } else {
        s
    }
}

/// `s` without the run of `c` at the end.
pub open spec fn strip_end(s: Seq<char>, c: char) -> Seq<char>
    decreases s.len(),
{
    if s.len() > 0 && s.last() == c {
        strip_end(s.drop_last(), c)
    } else {
        s
    }
}

fn white(c: char) -> (r: bool)
    ensures
        r == is_white(c),
{
    let v: u32 = c as u32;
    (0x9 <= v && v <= 0xd) || v == 0x20 || v == 0x85 || v == 0xa0 || v == 0x1680 || (0x2000 <= v
        && v <= 0x200a) || v == 0x2028 || v == 0x2029 || v == 0x202f || v == 0x205f || v == 0x3000
}

/// Remove the white space in front.
pub(crate) fn trim_start_text(s: &str) -> (r: String)
    ensures
        r@ == trim_start(s@),
{
    let len: usize = s.unicode_len();
    let mut i: usize = 0;
    assert(s@.skip(0) =~= s@);
    while i < len && white(s.get_char(i))
        invariant
            len == s@.len(),
            i <= len,
            trim_start(s@) == trim_start(s@.skip(i as int)),
        decreases len - i,
    {
        assert(s@.skip(i as int).skip(1) =~= s@.skip(i + 1));
        i = i + 1;
    }
    assert(s@.subrange(i as int, len as int) =~= s@.skip(i as int));
    s.substring_char(i, len).to_owned()
}

/// Remove the white space at the end.
pub(crate) fn trim_end_text(s: &str) -> (r: String)
    ensures
        r@ == trim_end(s@),
{
    let len: usize = s.unicode_len();
    let mut n: usize = len;
    assert(s@.take(len as int) =~= s@);
    while n > 0 && white(s.get_char(n - 1))
        invariant
            len == s@.len(),
            n <= len,
            trim_end(s@) == trim_end(s@.take(n as int)),
        decreases n,
    {
        assert(s@.take(n as int).drop_last() =~= s@.take(n - 1));
        n = n - 1;
    }
    assert(s@.subrange(0, n as int) =~= s@.take(n as int));
    s.substring_char(0, n).to_owned()
}

/// Remove the run of `c` in front.
pub(crate) fn strip_start_text(s: &str, c: char) -> (r: String)
    ensures
        r@ == strip_start(s@, c),
{
    let len: usize = s.unicode_len();
    let mut i: usize = 0;
    assert(s@.skip(0) =~= s@);
    while i < len && s.get_char(i) == c
        invariant
            len == s@.len(),
            i <= len,
            strip_start(s@, c) == strip_start(s@.skip(i as int), c),
        decreases len - i,
    {
        assert(s@.skip(i as int).skip(1) =~= s@.skip(i + 1));
        i = i + 1;
    }
    assert(s@.subrange(i as int, len as int) =~= s@.skip(i as int));
    s.substring_char(i, len).to_owned()
}

/// Remove the run of `c` at the end.
pub(crate) fn strip_end_text(s: &str, c: char) -> (r: String)
    ensures
        r@ == strip_end(s@, c),
{
    let len: usize = s.unicode_len();
    let mut n: usize = len;
    assert(s@.take(len as int) =~= s@);
    while n > 0 && s.get_char(n - 1) == c
        invariant
            len == s@.len(),
            n <= len,
            strip_end(s@, c) == strip_end(s@.take(n as int), c),
        decreases n,
    {
        assert(s@.take(n as int).drop_last() =~= s@.take(n - 1));
        n = n - 1;
    }
    assert(s@.subrange(0, n as int) =~= s@.take(n as int));
    s.substring_char(0, n).to_owned()
}

/// `c` with the letters `a`–`z` raised to upper case.
pub open spec fn upper_char(c: char) -> char {
    if 'a' <= c <= 'z' {
        (c as int - 32) as char
    } else {
        c
    }
}

/// `s` with the letters `a`–`z` raised to upper case.
pub open spec fn upper(s: Seq<char>) -> Seq<char> {
    s.map_values(|c: char| upper_char(c))
}

/// Raising to upper case twice is raising once.
pub proof fn upper_is_idempotent(s: Seq<char>)
    ensures
        upper(upper(s)) == upper(s),
{
    assert(upper(upper(s)) =~= upper(s));
}

/// Raise the letters `a`–`z` of `s` to upper case.
pub(crate) fn upper_text(s: &str) -> (r: String)
    ensures
        r@ == upper(s@),
{
    let len: usize = s.unicode_len();
    let mut r = String::new();
    let mut i: usize = 0;
    while i < len
        invariant
            len == s@.len(),
            i <= len,
            r@ == upper(s@.take(i as int)),
        decreases len - i,
    {
        let c = s.get_char(i);
        let u: char = if 'a' <= c && c <= 'z' {
            ((c as u8) - 32) as char
        } else {
            c
        };
        r.push(u);
        i = i + 1;
        assert(r@ =~= upper(s@.take(i as int)));
    }
    assert(s@.take(len as int) =~= s@);
    r
}

/// `s` followed by as many `c` as it takes to fill `width` characters.
pub open spec fn pad_end(s: Seq<char>, c: char, width: nat) -> Seq<char> {
    if s.len() < width {
        s + Seq::new((width - s.len()) as nat, |i: int| c)
    } else {
        s
    }
}

/// Fill `s` up with `c` at the end.
pub(crate) fn pad_end_text(s: &str, c: char, width: usize) -> (r: String)
    ensures
        r@ == pad_end(s@, c, width as nat),
{
    let len: usize = s.unicode_len();
    let mut r = s.to_owned();
    let mut i: usize = len;
    assert(r@ =~= s@ + Seq::new(0, |k: int| c));
    while i < width
        invariant
            len == s@.len(),
            len <= i,
            i <= if len <= width { width } else { len },
            r@ == s@ + Seq::new((i - len) as nat, |k: int| c),
        decreases width - i,
    {
        r.push(c);
        i = i + 1;
        assert(r@ =~= s@ + Seq::new((i - len) as nat, |k: int| c));
    }
    assert(r@ =~= pad_end(s@, c, width as nat));
    r
}

// ── comparing ────────────────────────────────────────────────────────────────

/// Whether the two byte slices hold the same bytes.
pub(crate) fn same_bytes(a: &[u8], b: &[u8]) -> (r: bool)
    ensures
        r == (a@ == b@),
{
    if a.len() != b.len() {
        return false;
    }
    let mut i: usize = 0;
    while i < a.len()
        invariant
            a@.len() == b@.len(),
            i <= a@.len(),
            forall|k: int| 0 <= k < i ==> a@[k] == b@[k],
        decreases a@.len() - i,
    {
        if a[i] != b[i] {
            return false;
        }
        i = i + 1;
    }
    assert(a@ =~= b@);
    true
}

/// Whether the two texts are the same.
pub(crate) fn same_text(a: &str, b: &str) -> (r: bool)
    ensures
        r == (a@ == b@),
{
    let r: bool = same_bytes(a.as_bytes(), b.as_bytes());
    proof {
        encode_utf8_decode_utf8(a@);
        encode_utf8_decode_utf8(b@);
    }
    r
}

/// Whether `s` begins with `prefix`.
pub open spec fn begins_with(s: Seq<char>, prefix: Seq<char>) -> bool {
    prefix.len() <= s.len() && s.take(prefix.len() as int) == prefix
}

/// Whether `s` begins with `prefix`.
pub(crate) fn text_begins_with(s: &str, prefix: &str) -> (r: bool)
    ensures
        r == begins_with(s@, prefix@),
{
    let n: usize = prefix.unicode_len();
    if s.unicode_len() < n {
        return false;
    }
    let r: bool = same_text(s.substring_char(0, n), prefix);
    assert(s@.subrange(0, n as int) =~= s@.take(n as int));
    r
}

/// `part` stands in `s` at `at`.
pub open spec fn stands_at(s: Seq<char>, part: Seq<char>, at: int) -> bool {
    0 <= at && at + part.len() <= s.len() && s.subrange(at, at + part.len()) == part
}

/// `part` stands somewhere in `s`.
pub open spec fn contains(s: Seq<char>, part: Seq<char>) -> bool {
    exists|at: int| stands_at(s, part, at)
}

/// Whether `part` stands somewhere in `s`.
pub(crate) fn text_contains(s: &str, part: &str) -> (r: bool)
    ensures
        r == contains(s@, part@),
{
    let n: usize = s.unicode_len();
    let m: usize = part.unicode_len();
    if m > n {
        return false;
    }
    let mut at: usize = 0;
    while at <= n - m
        invariant
            n == s@.len(),
            m == part@.len(),
            m <= n,
            at <= n - m + 1,
            forall|k: int| 0 <= k < at ==> !stands_at(s@, part@, k),
        decreases n - m + 1 - at,
    {
        if same_text(s.substring_char(at, at + m), part) {
            assert(stands_at(s@, part@, at as int));
            return true;
        }
        assert(!stands_at(s@, part@, at as int));
        if at == n - m {
            assert forall|k: int| !stands_at(s@, part@, k) by {}
            return false;
        }
        at = at + 1;
    }
    false
}

/// Where the last `c` stands in `s`; -1 if there is none.
pub open spec fn last_index(s: Seq<char>, c: char) -> int
    decreases s.len(),
{
    if s.len() == 0 {
        -1
    } else if s.last() == c {
        s.len() - 1
    } else {
        last_index(s.drop_last(), c)
    }
}

/// Where what follows the last `c` in `s` begins: 0 if there is none.
pub(crate) fn after_last(s: &str, c: char) -> (r: usize)
    ensures
        r == last_index(s@, c) + 1,
        r <= s@.len(),
{
    let mut n: usize = s.unicode_len();
    assert(s@.take(n as int) =~= s@);
    while n > 0
        invariant
            n <= s@.len(),
            last_index(s@, c) == last_index(s@.take(n as int), c),
        decreases n,
    {
        assert(s@.take(n as int).drop_last() =~= s@.take(n - 1));
        if s.get_char(n - 1) == c {
            return n;
        }
        n = n - 1;
    }
    0
}

/// The byte `b` with the letters `A`–`Z` lowered.
pub open spec fn lower_byte(b: u8) -> u8 {
    if 65 <= b <= 90 {
        (b + 32) as u8
    } else {
        b
    }
}

/// The two byte sequences are the same but for the case of ASCII letters.
pub open spec fn same_ignoring_case(a: Seq<u8>, b: Seq<u8>) -> bool {
    a.len() == b.len() && forall|i: int|
        0 <= i < a.len() ==> lower_byte(#[trigger] a[i]) == lower_byte(b[i])
}

fn lowered(b: u8) -> (r: u8)
    ensures
        r == lower_byte(b),
{
    if 65 <= b && b <= 90 {
        b + 32
    } else {
        b
    }
}

/// Compare two byte slices without regard to the case of ASCII letters.
pub(crate) fn bytes_eq_ignoring_case(a: &[u8], b: &[u8]) -> (r: bool)
    ensures
        r == same_ignoring_case(a@, b@),
{
    if a.len() != b.len() {
        return false;
    }
    let mut i: usize = 0;
    while i < a.len()
        invariant
            a@.len() == b@.len(),
            i <= a@.len(),
            forall|k: int| 0 <= k < i ==> lower_byte(#[trigger] a@[k]) == lower_byte(b@[k]),
        decreases a@.len() - i,
    {
        if lowered(a[i]) != lowered(b[i]) {
            return false;
        }
        i = i + 1;
    }
    true
}

/// `a` comes before `b` in the order of their bytes.
pub open spec fn bytes_less(a: Seq<u8>, b: Seq<u8>) -> bool
    decreases a.len(),
{
    if b.len() == 0 {
        false
    } else if a.len() == 0 {
        true
    } else if a[0] != b[0] {
        a[0] < b[0]
    } else {
        bytes_less(a.skip(1), b.skip(1))
    }
}

/// The order of bytes is transitive.
pub proof fn bytes_less_is_transitive(a: Seq<u8>, b: Seq<u8>, c: Seq<u8>)
    requires
        bytes_less(a, b),
        bytes_less(b, c),
    ensures
        bytes_less(a, c),
    decreases a.len(),
{
    if a.len() > 0 && a[0] == b[0] && b[0] == c[0] {
        bytes_less_is_transitive(a.skip(1), b.skip(1), c.skip(1));
    }
}

/// Of two different byte sequences one comes before the other, and none comes
/// before itself.
pub proof fn bytes_less_is_total(a: Seq<u8>, b: Seq<u8>)
    ensures
        a == b || bytes_less(a, b) || bytes_less(b, a),
        !(bytes_less(a, b) && bytes_less(b, a)),
    decreases a.len(),
{
    if a.len() > 0 && b.len() > 0 && a[0] == b[0] {
        bytes_less_is_total(a.skip(1), b.skip(1));
        if a.skip(1) == b.skip(1) {
            assert(a =~= seq![a[0]] + a.skip(1));
            assert(b =~= seq![b[0]] + b.skip(1));
        }
    } else if a.len() == 0 && b.len() == 0 {
        assert(a =~= b);
    }
}

/// Whether `a` comes before `b` in the order of their bytes.
pub(crate) fn bytes_before(a: &[u8], b: &[u8]) -> (r: bool)
    ensures
        r == bytes_less(a@, b@),
{
    let mut i: usize = 0;
    assert(a@.skip(0) =~= a@);
    assert(b@.skip(0) =~= b@);
    while i < a.len() && i < b.len() && a[i] == b[i]
        invariant
            i <= a@.len(),
            i <= b@.len(),
            bytes_less(a@, b@) == bytes_less(a@.skip(i as int), b@.skip(i as int)),
        decreases a@.len() - i,
    {
        assert(a@.skip(i as int).skip(1) =~= a@.skip(i + 1));
        assert(b@.skip(i as int).skip(1) =~= b@.skip(i + 1));
        i = i + 1;
    }
    if i == b.len() {
        false
    } else if i == a.len() {
        true
    } else {
        a[i] < b[i]
    }
}

/// The texts in the order in which their encodings sort.
pub open spec fn text_less(a: Seq<char>, b: Seq<char>) -> bool {
    bytes_less(encode_utf8(a), encode_utf8(b))
}

/// Whether `a` sorts before `b`.
pub(crate) fn text_before(a: &str, b: &str) -> (r: bool)
    ensures
        r == text_less(a@, b@),
{
    bytes_before(a.as_bytes(), b.as_bytes())
}

// ── byte fields ──────────────────────────────────────────────────────────────

/// Whether `n` bytes stand at `pos` in `buf`.
pub(crate) fn fits(buf: &[u8], pos: usize, n: usize) -> (r: bool)
    ensures
        r == (pos + n <= buf@.len()),
        r ==> pos + n <= usize::MAX,
{
    pos <= buf.len() && n <= buf.len() - pos
}

/// The first position of `b` in `s`, or the length of `s` if there is none.
pub open spec fn first_index(s: Seq<u8>, b: u8) -> int
    decreases s.len(),
{
    if s.len() == 0 || s[0] == b {
        0
    } else {
        1 + first_index(s.skip(1), b)
    }
}

/// The first occurrence is the first: before it the byte does not stand, and at it
/// the byte stands unless it is the end.
pub proof fn first_index_is_first(s: Seq<u8>, b: u8)
    ensures
        0 <= first_index(s, b) <= s.len(),
        forall|i: int| 0 <= i < first_index(s, b) ==> s[i] != b,
        first_index(s, b) < s.len() ==> s[first_index(s, b)] == b,
    decreases s.len(),
{
    if s.len() > 0 && s[0] != b {
        first_index_is_first(s.skip(1), b);
        assert forall|i: int| 0 <= i < first_index(s, b) implies s[i] != b by {
            if i > 0 {
                assert(s[i] == s.skip(1)[i - 1]);
            }
        }
    }
}

/// Where `b` first stands in `buf`, from `from` on; the end of `buf` if nowhere.
pub(crate) fn find_byte(buf: &[u8], from: usize, b: u8) -> (r: usize)
    requires
        from <= buf@.len(),
    ensures
        from <= r <= buf@.len(),
        r == from + first_index(buf@.skip(from as int), b),
        r < buf@.len() ==> buf@[r as int] == b,
{
    let mut i: usize = from;
    while i < buf.len() && buf[i] != b
        invariant
            from <= i <= buf@.len(),
            from + first_index(buf@.skip(from as int), b) == i + first_index(
                buf@.skip(i as int),
                b,
            ),
        decreases buf@.len() - i,
    {
        assert(buf@.skip(i as int).skip(1) =~= buf@.skip(i + 1));
        i = i + 1;
    }
    i
}

/// The 16-bit big-endian number at `at`.
pub open spec fn be16(s: Seq<u8>, at: int) -> int {
    s[at] * 256 + s[at + 1]
}

/// Bytes are ordered by the first that differs, and a beginning comes before what it begins.
pub proof fn bytes_are_ordered_by_the_first_difference(
    common: Seq<u8>,
    a: u8,
    x: Seq<u8>,
    b: u8,
    y: Seq<u8>,
)
    ensures
        a != b ==> bytes_less(common + seq![a] + x, common + seq![b] + y) == (a < b),
        bytes_less(common, common + seq![b] + y),
        !bytes_less(common + seq![b] + y, common),
        !bytes_less(common, common),
    decreases common.len(),
{
    let (s, t) = (common + seq![a] + x, common + seq![b] + y);
    if common.len() > 0 {
        let rest = common.skip(1);
        bytes_are_ordered_by_the_first_difference(rest, a, x, b, y);
        assert(s.skip(1) =~= rest + seq![a] + x);
        assert(t.skip(1) =~= rest + seq![b] + y);
        assert(s[0] == common[0] && t[0] == common[0]);
    } else {
        assert(s[0] == a && t[0] == b);
    }
}

/// Bytes are the same but for case if and only if they are as long as each other and each
/// pair of bytes is equal or is an ASCII letter in its two cases.
pub proof fn only_letters_have_a_case(a: Seq<u8>, b: Seq<u8>)
    ensures
        same_ignoring_case(a, b) <==> a.len() == b.len() && forall|i: int|
            0 <= i < a.len() ==> (#[trigger] a[i] == b[i] || 'A' as u8 <= a[i] <= 'Z' as u8 && b[i]
                == a[i] + 32 || 'A' as u8 <= b[i] <= 'Z' as u8 && a[i] == b[i] + 32),
{
}

/// A letter in lower case is raised, and nothing else changes.
pub proof fn only_small_letters_are_raised(s: Seq<char>, i: int)
    requires
        0 <= i < s.len(),
    ensures
        upper(s).len() == s.len(),
        'a' <= s[i] && s[i] <= 'z' ==> upper(s)[i] as u32 == s[i] as u32 - 32,
        !('a' <= s[i] && s[i] <= 'z') ==> upper(s)[i] == s[i],
{
}

/// Each byte is written as two digits in upper case, sixteen times the first and the second of
/// which are the byte again.
pub proof fn hexadecimal_reads_back(bytes: Seq<u8>, i: int)
    requires
        0 <= i < bytes.len(),
    ensures
        hex_upper(bytes).len() == 2 * bytes.len(),
        digit_value(hex_upper(bytes)[2 * i], 16) is Some,
        digit_value(hex_upper(bytes)[2 * i + 1], 16) is Some,
        16 * digit_value(hex_upper(bytes)[2 * i], 16)->0 + digit_value(
            hex_upper(bytes)[2 * i + 1],
            16,
        )->0 == bytes[i],
        !('a' <= hex_upper(bytes)[2 * i] && hex_upper(bytes)[2 * i] <= 'z'),
        !('a' <= hex_upper(bytes)[2 * i + 1] && hex_upper(bytes)[2 * i + 1] <= 'z'),
{
    let b = bytes[i] as int;
    assert((2 * i) / 2 == i && (2 * i + 1) / 2 == i);
    assert(hex_upper(bytes)[2 * i] == hex_digit(b / 16));
    assert(hex_upper(bytes)[2 * i + 1] == hex_digit(b % 16));
}

/// Numbers are positional: each digit behind the others counts once, and what stands before it
/// as many times as the radix. The letters stand for ten and more, in either case.
pub proof fn numbers_are_positional(s: Seq<char>, c: char)
    requires
        s.len() > 0,
        word(s.push(c), 16) is Some,
    ensures
        word(s, 16) is Some,
        ({
            let d = if '0' <= c && c <= '9' {
                c as int - 48
            } else if 'a' <= c && c <= 'f' {
                c as int - 87
            } else {
                c as int - 55
            };
            &&& 0 <= d < 16
            &&& word(s.push(c), 16) == Some(16 * word(s, 16)->0 + d)
        }),
{
    assert(s.push(c).drop_last() =~= s);
    numbers_are_natural(s, 16);
    assert(digits_value(s, 16) is Some);
    lemma_digits_natural(s, 16);
}

proof fn lemma_digits_natural(s: Seq<char>, radix: int)
    requires
        2 <= radix <= 36,
    ensures
        digits_value(s, radix) matches Some(v) ==> v >= 0,
    decreases s.len(),
{
    if s.len() > 0 {
        lemma_digits_natural(s.drop_last(), radix);
        if digits_value(s, radix) is Some {
            let v = digits_value(s.drop_last(), radix)->0;
            assert(v * radix >= 0) by (nonlinear_arith)
                requires
                    v >= 0,
                    radix >= 2,
            ;
        }
    }
}

/// What is filled up begins with what it was, and goes on with the filling up to the width; what
/// is wide enough stays as it is.
pub proof fn filling_is_put_behind(s: Seq<char>, c: char, width: nat)
    ensures
        pad_end(s, c, width).len() == if s.len() < width {
            width
        } else {
            s.len()
        },
        s.is_prefix_of(pad_end(s, c, width)),
        forall|i: int| s.len() <= i < pad_end(s, c, width).len() ==> pad_end(s, c, width)[i] == c,
{
    assert(pad_end(s, c, width).take(s.len() as int) =~= s);
}

/// Stripping takes the run at the end away, all of it and nothing else.
pub proof fn stripping_takes_the_run_away(s: Seq<char>, c: char)
    ensures
        strip_end(s.push(c), c) == strip_end(s, c),
        s.len() == 0 || s.last() != c ==> strip_end(s, c) == s,
        strip_end(s, c).len() > 0 ==> strip_end(s, c).last() != c,
        strip_end(s, c).is_prefix_of(s),
    decreases s.len(),
{
    assert(s.push(c).drop_last() =~= s);
    if s.len() > 0 && s.last() == c {
        let front = s.drop_last();
        stripping_takes_the_run_away(front, c);
        let kept = strip_end(front, c);
        assert(kept =~= s.take(kept.len() as int));
    } else {
        assert(s =~= s.take(s.len() as int));
    }
}

/// Trimming takes white space away at either end, and nothing else; a space is white, and no
/// letter, digit or mark of ASCII is.
pub proof fn trimming_takes_white_space_away(s: Seq<char>, c: char)
    ensures
        is_white(c) ==> trim_start(seq![c] + s) == trim_start(s),
        is_white(c) ==> trim_end(s.push(c)) == trim_end(s),
        s.len() == 0 || !is_white(s[0]) ==> trim_start(s) == s,
        s.len() == 0 || !is_white(s.last()) ==> trim_end(s) == s,
        is_white(' '),
        0x21 <= c as u32 <= 0x7E ==> !is_white(c),
{
    assert((seq![c] + s).skip(1) =~= s);
    assert(s.push(c).drop_last() =~= s);
}

/// A text contains each of its parts, and none that is longer than itself.
pub proof fn texts_contain_their_parts(before: Seq<char>, part: Seq<char>, behind: Seq<char>)
    ensures
        contains(before + part + behind, part),
        before.len() > 0 ==> !contains(part, before + part),
{
    let s = before + part + behind;
    assert(s.subrange(before.len() as int, (before.len() + part.len()) as int) =~= part);
    assert(stands_at(s, part, before.len() as int));
}

/// The hexadecimal digits are those that have a value below sixteen.
pub proof fn hexadecimal_digits_have_a_value(c: char)
    ensures
        is_hex(c) <==> digit_value(c, 16) is Some,
{
}

/// A number in decimal digits reads back as the number, if it fits the machine word.
pub proof fn decimals_read_back(n: nat)
    requires
        n <= usize::MAX,
    ensures
        word(decimal(n), 10) == Some(n as int),
{
    lemma_decimal_digits(n);
}

proof fn lemma_decimal_digits(n: nat)
    ensures
        decimal(n).len() > 0,
        digits_value(decimal(n), 10) == Some(n as int),
    decreases n,
{
    let s = decimal(n);
    if n >= 10 {
        lemma_decimal_digits(n / 10);
        assert(s.drop_last() =~= decimal(n / 10));
        assert(digit_value(s.last(), 10) == Some((n % 10) as int));
    } else {
        assert(s.drop_last() =~= Seq::<char>::empty());
        assert(digits_value(s.drop_last(), 10) == Some(0int));
        assert(digit_value(s.last(), 10) == Some(n as int));
    }
}

} // verus!
