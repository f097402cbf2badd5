//! Text helpers shared by the other modules: concatenation, path joining,
//! trimming and lowercase hexadecimal rendering.

use vstd::prelude::*;
use vstd::string::StringExecFns;

verus! {

/// `base`, a forward slash, then `name`.
pub open spec fn joined(base: Seq<char>, name: Seq<char>) -> Seq<char> {
    base + "/"@ + name
}

/// `s` without the slashes at its end.
pub open spec fn without_trailing_slashes(s: Seq<char>) -> Seq<char>
    decreases s.len(),
{
    if s.len() > 0 && s.last() == '/' {
        without_trailing_slashes(s.drop_last())
    } else {
        s
    }
}

/// The code points that carry the Unicode property `White_Space`.
pub open spec fn is_whitespace(c: char) -> bool {
    let n = c as u32;
    ||| 0x09 <= n <= 0x0D
    ||| n == 0x20
    ||| n == 0x85
    ||| n == 0xA0
    ||| n == 0x1680
    ||| 0x2000 <= n <= 0x200A
    ||| n == 0x2028
    ||| n == 0x2029
    ||| n == 0x202F
    ||| n == 0x205F
    ||| n == 0x3000
}

/// `s` without the whitespace at its start.
pub open spec fn trimmed_start(s: Seq<char>) -> Seq<char>
    decreases s.len(),
{
    if s.len() > 0 && is_whitespace(s.first()) {
        trimmed_start(s.drop_first())
    } else {
        s
    }
}

/// `s` without the whitespace at its end.
pub open spec fn trimmed_end(s: Seq<char>) -> Seq<char>
    decreases s.len(),
{
    if s.len() > 0 && is_whitespace(s.last()) {
        trimmed_end(s.drop_last())
    } else {
        s
    }
}

/// `s` without the whitespace at either end.
pub open spec fn trimmed(s: Seq<char>) -> Seq<char> {
    trimmed_end(trimmed_start(s))
}

/// The sixteen lowercase hexadecimal digits, in order of value.
pub open spec fn hex_digits() -> Seq<char> {
    seq!['0', '1', '2', '3', '4', '5', '6', '7', '8', '9', 'a', 'b', 'c', 'd', 'e', 'f']
}

/// The two digits that stand for one byte, high nibble first.
pub open spec fn hex_pair(b: u8) -> Seq<char> {
    seq![hex_digits()[(b / 16) as int], hex_digits()[(b % 16) as int]]
}

/// Every byte rendered as two lowercase hexadecimal digits.
pub open spec fn lower_hex(bytes: Seq<u8>) -> Seq<char>
    decreases bytes.len(),
{
    if bytes.len() == 0 {
        Seq::empty()
    } else {
        lower_hex(bytes.drop_last()) + hex_pair(bytes.last())
    }
}

/// What `String::from_utf8_lossy` makes of a byte string: the text it
/// decodes to, with U+FFFD in place of each malformed sequence.
pub uninterp spec fn utf8_lossy(bytes: Seq<u8>) -> Seq<char>;

/// `String::push`: the character is added at the end.
#[verifier::external_body]
pub(crate) fn push_char(s: &mut String, c: char)
    ensures
        final(s)@ == old(s)@.push(c),
{
    s.push(c)
}

/// `str::trim`: the slice between the first and the last character that is
/// not whitespace, whitespace being the Unicode property `White_Space`.
#[verifier::external_body]
pub(crate) fn trim<'a>(s: &'a str) -> (r: &'a str)
    ensures
        r@ == trimmed(s@),
{
    s.trim()
}

/// `str::trim_end_matches` with the pattern `'/'`: the slice that is left
/// once the pattern has been taken from the end as often as it matches.
#[verifier::external_body]
pub(crate) fn strip_trailing_slashes<'a>(s: &'a str) -> (r: &'a str)
    ensures
        r@ == without_trailing_slashes(s@),
{
    s.trim_end_matches('/')
}

/// `String::from_utf8_lossy`, with the result taken as an owned string.
#[verifier::external_body]
pub(crate) fn decode_lossy(bytes: &[u8]) -> (r: String)
    ensures
        r@ == utf8_lossy(bytes@),
{
    String::from_utf8_lossy(bytes).into_owned()
}

/// Joins a directory and a name with a forward slash.
pub fn join(base: &str, name: &str) -> (r: String)
    ensures
        r@ == joined(base@, name@),
{
    let mut s = String::from_str(base);
    s.append("/");
    s.append(name);
    s
}

/// The characters of a text, one by one.
pub fn chars_of(s: &str) -> (r: Vec<char>)
    ensures
        r@ == s@,
{
    let mut out: Vec<char> = Vec::new();
    for c in it: s.chars()
        invariant
            it.seq() == s@,
            out@ == it.seq().take(it.index() as int),
    {
        out.push(c);
    }
    out
}

/// Whether two texts hold the same characters.
pub fn same_text(a: &str, b: &str) -> (r: bool)
    ensures
        r == (a@ == b@),
{
    let x = a.to_owned();
    let y = b.to_owned();
    x == y
}

/// The digit for a value below sixteen.
pub fn hex_digit(n: u8) -> (c: char)
    requires
        n < 16,
    ensures
        c == hex_digits()[n as int],
{
    if n == 0 {
        '0'
    } else if n == 1 {
        '1'
    } else if n == 2 {
        '2'
    } else if n == 3 {
        '3'
    } else if n == 4 {
        '4'
    } else if n == 5 {
        '5'
    } else if n == 6 {
        '6'
    } else if n == 7 {
        '7'
    } else if n == 8 {
        '8'
    } else if n == 9 {
        '9'
    } else if n == 10 {
        'a'
    } else if n == 11 {
        'b'
    } else if n == 12 {
        'c'
    } else if n == 13 {
        'd'
    } else if n == 14 {
        'e'
    } else {
        'f'
    }
}

/// Renders bytes as lowercase hexadecimal, two digits per byte.
pub fn to_lower_hex(bytes: &[u8]) -> (r: String)
    ensures
        r@ == lower_hex(bytes@),
        r@.len() == 2 * bytes@.len(),
        forall|i: int| 0 <= i < r@.len() ==> is_lower_hex_digit(#[trigger] r@[i]),
{
    let mut out = String::new();
    let mut i: usize = 0;
    while i < bytes.len()
        invariant
            i <= bytes.len(),
            out@ == lower_hex(bytes@.take(i as int)),
            out@.len() == 2 * i,
        decreases bytes.len() - i,
    {
        let b: u8 = bytes[i];
        let hi = hex_digit(b / 16);
        let lo = hex_digit(b % 16);
        proof {
            let next = bytes@.take(i as int + 1);
            assert(next.drop_last() == bytes@.take(i as int));
            assert(next.last() == b);
            assert(out@.push(hi).push(lo) == out@ + hex_pair(b));
        }
        push_char(&mut out, hi);
        push_char(&mut out, lo);
        i = i + 1;
    }
    proof {
        assert(bytes@.take(bytes@.len() as int) == bytes@);
        assert forall|i: int| 0 <= i < out@.len() implies is_lower_hex_digit(#[trigger] out@[i]) by {
            lower_hex_holds_digits(bytes@, i);
        }
    }
    out
}

/// What follows a text in a longer text is the same in two longer texts
/// that are the same and begin with it.
pub proof fn same_beginning_same_rest(l: Seq<char>, x: Seq<char>, y: Seq<char>)
    requires
        l + x == l + y,
    ensures
        x == y,
{
    assert(x =~= (l + x).subrange(l.len() as int, (l + x).len() as int));
    assert(y =~= (l + y).subrange(l.len() as int, (l + y).len() as int));
}

/// What goes before a text in a longer text is the same in two longer
/// texts that are the same and end with it.
pub proof fn same_end_same_beginning(x: Seq<char>, y: Seq<char>, r: Seq<char>)
    requires
        x + r == y + r,
    ensures
        x == y,
{
    assert((x + r).len() == (y + r).len());
    assert(x =~= (x + r).subrange(0, x.len() as int));
    assert(y =~= (y + r).subrange(0, y.len() as int));
}

/// Whether a character is one of the sixteen lowercase hexadecimal digits.
pub open spec fn is_lower_hex_digit(c: char) -> bool {
    ('0' <= c <= '9') || ('a' <= c <= 'f')
}

/// The rendering of bytes holds nothing but lowercase hexadecimal digits.
pub proof fn lower_hex_holds_digits(bytes: Seq<u8>, i: int)
    requires
        0 <= i < lower_hex(bytes).len(),
    ensures
        is_lower_hex_digit(lower_hex(bytes)[i]),
    decreases bytes.len(),
{
    if bytes.len() > 0 {
        let earlier = lower_hex(bytes.drop_last());
        let pair = hex_pair(bytes.last());
        assert(lower_hex(bytes) == earlier + pair);
        if i < earlier.len() {
            lower_hex_holds_digits(bytes.drop_last(), i);
            assert(lower_hex(bytes)[i] == earlier[i]);
        } else {
            let hi = (bytes.last() / 16) as int;
            let lo = (bytes.last() % 16) as int;
            assert(pair[0] == hex_digits()[hi]);
            assert(pair[1] == hex_digits()[lo]);
            assert(forall|n: int| 0 <= n < 16 ==> is_lower_hex_digit(#[trigger] hex_digits()[n]));
            assert(lower_hex(bytes)[i] == pair[i - earlier.len()]);
        }
    }
}

/// A text that is free of whitespace at both ends is its own trimmed form.
pub proof fn trimmed_is_identity(s: Seq<char>)
    requires
        s.len() > 0 ==> !is_whitespace(s.first()) && !is_whitespace(s.last()),
    ensures
        trimmed(s) == s,
{
}

/// No hexadecimal digit is whitespace.
pub proof fn hex_digit_is_not_whitespace(n: int)
    requires
        0 <= n < 16,
    ensures
        !is_whitespace(hex_digits()[n]),
{
}

/// The rendering of bytes starts and ends with a digit: trimming keeps it.
pub proof fn lower_hex_is_trimmed(bytes: Seq<u8>)
    ensures
        trimmed(lower_hex(bytes)) == lower_hex(bytes),
        lower_hex(bytes).len() == 2 * bytes.len(),
    decreases bytes.len(),
{
    lower_hex_shape(bytes);
    let h = lower_hex(bytes);
    if bytes.len() > 0 {
        hex_digit_is_not_whitespace((bytes.first() / 16) as int);
        hex_digit_is_not_whitespace((bytes.last() % 16) as int);
    }
    trimmed_is_identity(h);
}

/// Length of the rendering, and its first and last digit.
pub proof fn lower_hex_shape(bytes: Seq<u8>)
    ensures
        lower_hex(bytes).len() == 2 * bytes.len(),
        bytes.len() > 0 ==> lower_hex(bytes).first() == hex_digits()[(bytes.first() / 16) as int],
        bytes.len() > 0 ==> lower_hex(bytes).last() == hex_digits()[(bytes.last() % 16) as int],
    decreases bytes.len(),
{
    if bytes.len() > 0 {
        lower_hex_shape(bytes.drop_last());
        if bytes.len() > 1 {
            assert(bytes.drop_last().first() == bytes.first());
        }
    }
}

} // verus!
