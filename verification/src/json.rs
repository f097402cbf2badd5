//! JSON string literals: how a text is written between double quotes, and
//! why such a literal can be told from whatever follows it.

use crate::text::hex_digits;
use vstd::prelude::*;

verus! {

/// `serde_json::Error`: why a value could not be written as JSON.
#[verifier::external_type_specification]
#[verifier::external_body]
pub struct ExJsonError(serde_json::Error);

/// How one character stands in a JSON string literal: the double quote and
/// the backslash behind a backslash, the control characters below U+0020 by
/// their short escape or as `\u00` and two lowercase hexadecimal digits,
/// every other character as itself.
pub open spec fn escaped(c: char) -> Seq<char> {
    if c == '"' {
        seq!['\\', '"']
    } else if c == '\\' {
        seq!['\\', '\\']
    } else if c == '\u{08}' {
        seq!['\\', 'b']
    } else if c == '\u{0c}' {
        seq!['\\', 'f']
    } else if c == '\n' {
        seq!['\\', 'n']
    } else if c == '\r' {
        seq!['\\', 'r']
    } else if c == '\t' {
        seq!['\\', 't']
    } else if (c as u32) < 0x20 {
        seq![
            '\\',
            'u',
            '0',
            '0',
            hex_digits()[(c as u32 / 16) as int],
            hex_digits()[(c as u32 % 16) as int],
        ]
    } else {
        seq![c]
    }
}

/// The characters of a text, each as it stands in a JSON string literal.
pub open spec fn escaped_text(s: Seq<char>) -> Seq<char>
    decreases s.len(),
{
    if s.len() == 0 {
        Seq::empty()
    } else {
        escaped(s.first()) + escaped_text(s.drop_first())
    }
}

/// The JSON string literal for a text: the text between double quotes, its
/// characters escaped.
pub open spec fn json_text(s: Seq<char>) -> Seq<char> {
    seq!['"'] + escaped_text(s) + seq!['"']
}

/// `serde_json::to_string` on a string slice. The call writes into a
/// vector of bytes, which takes every write, so it succeeds on every
/// slice; the result is the JSON string literal for the slice, escaped as
/// the compact formatter escapes.
#[verifier::external_body]
pub(crate) fn encode_json_text(s: &str) -> (r: Result<String, serde_json::Error>)
    ensures
        r is Ok,
        r matches Ok(t) ==> t@ == json_text(s@),
{
    serde_json::to_string(s)
}

/// Whether a character is written with an escape.
pub open spec fn needs_escape(c: char) -> bool {
    c == '"' || c == '\\' || (c as u32) < 0x20
}

/// An escape begins with a backslash and is at least two characters long;
/// a character that needs none stands alone. No character begins with a
/// double quote.
pub proof fn escape_shape(c: char)
    ensures
        escaped(c).len() >= 1,
        escaped(c)[0] != '"',
        needs_escape(c) <==> escaped(c)[0] == '\\',
        needs_escape(c) ==> escaped(c).len() >= 2,
        !needs_escape(c) ==> escaped(c) == seq![c],
{
}

/// Two characters that are written alike are the same character.
pub proof fn escape_is_injective(c: char, d: char)
    requires
        escaped(c) == escaped(d),
    ensures
        c == d,
{
    escape_shape(c);
    escape_shape(d);
    if needs_escape(c) {
        assert(escaped(c)[1] == escaped(d)[1]);
        if escaped(c)[1] == 'u' {
            let e = escaped(c);
            assert(e.len() == 6);
            assert(escaped(d).len() == 6);
            let hi = c as u32 / 16;
            let lo = c as u32 % 16;
            let hi2 = d as u32 / 16;
            let lo2 = d as u32 % 16;
            assert(hex_digits()[hi as int] == e[4]);
            assert(hex_digits()[hi2 as int] == escaped(d)[4]);
            assert(hex_digits()[lo as int] == e[5]);
            assert(hex_digits()[lo2 as int] == escaped(d)[5]);
            hex_digits_differ(hi as int, hi2 as int);
            hex_digits_differ(lo as int, lo2 as int);
            assert(c as u32 == d as u32);
        }
    } else {
        assert(escaped(c)[0] == c);
        assert(escaped(d)[0] == d);
    }
}

/// Different values have different digits.
pub proof fn hex_digits_differ(i: int, j: int)
    requires
        0 <= i < 16,
        0 <= j < 16,
        hex_digits()[i] == hex_digits()[j],
    ensures
        i == j,
{
}

/// Of two texts that begin with a written character, the shorter writing
/// is the beginning of the longer only where the characters are the same:
/// no writing of a character begins another's.
pub proof fn escape_is_prefix_free(c: char, d: char, u: Seq<char>, v: Seq<char>)
    requires
        escaped(c) + u == escaped(d) + v,
    ensures
        c == d,
        u == v,
{
    let left = escaped(c) + u;
    let right = escaped(d) + v;
    escape_shape(c);
    escape_shape(d);
    assert(left[0] == escaped(c)[0]);
    assert(right[0] == escaped(d)[0]);
    if needs_escape(c) {
        assert(needs_escape(d));
        assert(left[1] == escaped(c)[1]);
        assert(right[1] == escaped(d)[1]);
        if escaped(c)[1] == 'u' {
            assert(escaped(c).len() == 6);
            assert(escaped(d).len() == 6);
            assert forall|k: int| 0 <= k < 6 implies escaped(c)[k] == escaped(d)[k] by {
                assert(left[k] == escaped(c)[k]);
                assert(right[k] == escaped(d)[k]);
            }
            assert(escaped(c) =~= escaped(d));
        } else {
            assert(escaped(c).len() == 2);
            assert(escaped(d).len() == 2);
            assert(escaped(c) =~= escaped(d));
        }
    } else {
        assert(!needs_escape(d));
        assert(escaped(c) =~= escaped(d));
    }
    escape_is_injective(c, d);
    assert(u =~= left.subrange(escaped(c).len() as int, left.len() as int));
    assert(v =~= right.subrange(escaped(d).len() as int, right.len() as int));
}

/// A written text ends where its closing double quote stands: of two
/// written texts, each closed and followed by more, the texts are the same
/// and so is what follows.
pub proof fn closing_quote_ends_the_text(a: Seq<char>, b: Seq<char>, x: Seq<char>, y: Seq<char>)
    requires
        escaped_text(a) + seq!['"'] + x == escaped_text(b) + seq!['"'] + y,
    ensures
        a == b,
        x == y,
    decreases a.len(),
{
    let quote = seq!['"'];
    let left = escaped_text(a) + quote + x;
    let right = escaped_text(b) + quote + y;
    if a.len() == 0 {
        assert(left[0] == '"');
        if b.len() > 0 {
            escape_shape(b.first());
            assert(escaped_text(b)[0] == escaped(b.first())[0]);
            assert(right[0] == escaped(b.first())[0]);
        }
        assert(b.len() == 0);
        assert(x =~= left.subrange(1, left.len() as int));
        assert(y =~= right.subrange(1, right.len() as int));
        assert(a =~= b);
    } else {
        escape_shape(a.first());
        assert(escaped_text(a)[0] == escaped(a.first())[0]);
        assert(left[0] == escaped(a.first())[0]);
        if b.len() == 0 {
            assert(right[0] == '"');
        }
        assert(b.len() > 0);
        let u = escaped_text(a.drop_first()) + quote + x;
        let v = escaped_text(b.drop_first()) + quote + y;
        assert(left =~= escaped(a.first()) + u);
        assert(right =~= escaped(b.first()) + v);
        escape_is_prefix_free(a.first(), b.first(), u, v);
        closing_quote_ends_the_text(a.drop_first(), b.drop_first(), x, y);
        assert(a =~= seq![a.first()] + a.drop_first());
        assert(b =~= seq![b.first()] + b.drop_first());
    }
}

/// A JSON string literal can be told from what follows it: of two
/// literals, each followed by more, the texts are the same and so is what
/// follows.
pub proof fn literal_is_self_delimiting(a: Seq<char>, b: Seq<char>, x: Seq<char>, y: Seq<char>)
    requires
        json_text(a) + x == json_text(b) + y,
    ensures
        a == b,
        x == y,
{
    let quote = seq!['"'];
    let left = json_text(a) + x;
    let right = json_text(b) + y;
    let left_rest = escaped_text(a) + quote + x;
    let right_rest = escaped_text(b) + quote + y;
    assert(left =~= quote + left_rest);
    assert(right =~= quote + right_rest);
    assert(left_rest =~= left.subrange(1, left.len() as int));
    assert(right_rest =~= right.subrange(1, right.len() as int));
    closing_quote_ends_the_text(a, b, x, y);
}

} // verus!
