//! Text as JSON.

use vstd::prelude::*;

verus! {

/// The reason serde_json gives for a failure.
#[verifier::external_type_specification]
#[verifier::external_body]
pub struct ExJsonError(serde_json::Error);

/// A JSON value as serde_json holds it.
#[verifier::external_type_specification]
#[verifier::external_body]
pub struct ExJsonValue(serde_json::Value);

/// The fields of a JSON object that hold a whole number from 0 up to the largest
/// `u64`; one written with a fraction or an exponent is not among them. None where
/// the value is no object.
pub uninterp spec fn whole_fields(value: serde_json::Value) -> Map<Seq<char>, u64>;

/// The fields of a JSON object that hold true or false. None where the value is no
/// object.
pub uninterp spec fn bool_fields(value: serde_json::Value) -> Map<Seq<char>, bool>;

/// Trusts `serde_json::Value::get` and `serde_json::Value::as_u64` to find a field
/// by its name, and to tell the number in it exactly if that is a whole number that
/// fits.
#[verifier::external_body]
pub(crate) fn whole_field(value: &serde_json::Value, name: &str) -> (number: Option<u64>)
    ensures
        number == (if whole_fields(*value).contains_key(name@) {
            Some(whole_fields(*value)[name@])
        } else {
            None
        }),
{
    value.get(name).and_then(serde_json::Value::as_u64)
}

/// Trusts `serde_json::Value::get` and `serde_json::Value::as_bool` to find a field
/// by its name, and to tell what is in it exactly if that is true or false.
#[verifier::external_body]
pub(crate) fn bool_field(value: &serde_json::Value, name: &str) -> (truth: Option<bool>)
    ensures
        truth == (if bool_fields(*value).contains_key(name@) {
            Some(bool_fields(*value)[name@])
        } else {
            None
        }),
{
    value.get(name).and_then(serde_json::Value::as_bool)
}

pub open spec fn hex_digit(value: int) -> char {
    if value < 10 {
        (48 + value) as char
    } else {
        (87 + value) as char
    }
}

/// How one character stands in a JSON string.
pub open spec fn escaped(c: char) -> Seq<char> {
    if c == '"' {
        seq!['\\', '"']
    } else if c == '\\' {
        seq!['\\', '\\']
    } else if c == '\u{8}' {
        seq!['\\', 'b']
    } else if c == '\t' {
        seq!['\\', 't']
    } else if c == '\n' {
        seq!['\\', 'n']
    } else if c == '\u{c}' {
        seq!['\\', 'f']
    } else if c == '\r' {
        seq!['\\', 'r']
    } else if ' ' > c {
        seq!['\\', 'u', '0', '0', hex_digit(c as int / 16), hex_digit(c as int % 16)]
    } else {
        seq![c]
    }
}

pub open spec fn all_escaped(text: Seq<char>) -> Seq<char>
    decreases text.len(),
{
    if text.len() == 0 {
        Seq::empty()
    } else {
        escaped(text[0]) + all_escaped(text.skip(1))
    }
}

/// A text as a JSON string.
pub open spec fn quoted(text: Seq<char>) -> Seq<char> {
    seq!['"'] + all_escaped(text) + seq!['"']
}

/// Trusts `serde_json::to_string`, given a text, to succeed and to write it as a
/// JSON string: between quotes, with quotes, backslashes and the control characters
/// below the space escaped, by their letter where they have one and by their number
/// otherwise, and with every other character as it is.
#[verifier::external_body]
fn to_string(text: &str) -> (json: Result<String, serde_json::Error>)
    ensures
        json is Ok,
        json->Ok_0@ == quoted(text@),
{
    serde_json::to_string(text)
}

/// Writes a text as a JSON string.
pub fn quote(text: &str) -> (json: String)
    ensures
        json@ == quoted(text@),
{
    match to_string(text) {
        Ok(json) => json,
        Err(_) => "\"\"".to_owned(),
    }
}

/// What a JSON string body spells: an escape stands for one character, everything
/// else for itself. Nothing where it is broken off or has an unknown escape.
pub open spec fn unescaped(body: Seq<char>) -> Option<Seq<char>>
    decreases body.len(),
{
    if body.len() == 0 {
        Some(Seq::empty())
    } else if body[0] == '"' || ' ' > body[0] {
        None
    } else if body[0] != '\\' {
        in_front(body[0], unescaped(body.skip(1)))
    } else if body.len() < 2 {
        None
    } else if body[1] == 'u' {
        if body.len() < 6 || body[2] != '0' || body[3] != '0' {
            None
        } else {
            in_front(
                (hex_value(body[4]) * 16 + hex_value(body[5])) as char,
                unescaped(body.skip(6)),
            )
        }
    } else {
        match short_escape(body[1]) {
            Some(c) => in_front(c, unescaped(body.skip(2))),
            None => None,
        }
    }
}

pub open spec fn in_front(c: char, rest: Option<Seq<char>>) -> Option<Seq<char>> {
    match rest {
        Some(rest) => Some(seq![c] + rest),
        None => None,
    }
}

pub open spec fn hex_value(c: char) -> int {
    if c <= '9' {
        c as int - 48
    } else {
        c as int - 87
    }
}

pub open spec fn short_escape(letter: char) -> Option<char> {
    if letter == '"' {
        Some('"')
    } else if letter == '\\' {
        Some('\\')
    } else if letter == 'b' {
        Some('\u{8}')
    } else if letter == 't' {
        Some('\t')
    } else if letter == 'n' {
        Some('\n')
    } else if letter == 'f' {
        Some('\u{c}')
    } else if letter == 'r' {
        Some('\r')
    } else {
        None
    }
}

/// What stands between the quotes spells the text again: whatever the text holds,
/// it neither ends the string early nor turns into anything else.
pub proof fn quoted_text_reads_back(text: Seq<char>)
    ensures
        unescaped(all_escaped(text)) == Some(text),
    decreases text.len(),
{
    if text.len() > 0 {
        let (c, rest) = (text[0], text.skip(1));
        quoted_text_reads_back(rest);
        lemma_escape_reads_back(c, all_escaped(rest));
        assert(seq![c] + rest == text);
    }
}

proof fn lemma_escape_reads_back(c: char, rest: Seq<char>)
    ensures
        unescaped(escaped(c) + rest) == in_front(c, unescaped(rest)),
{
    let body = escaped(c) + rest;
    assert(body[0] == escaped(c)[0]);
    if escaped(c).len() == 1 {
        assert(body.skip(1) == rest);
    } else if escaped(c).len() == 2 {
        assert(body[1] == escaped(c)[1]);
        assert(body.skip(2) == rest);
    } else {
        assert(body[1] == escaped(c)[1] && body[2] == escaped(c)[2] && body[3] == escaped(c)[3]);
        assert(body[4] == escaped(c)[4] && body[5] == escaped(c)[5]);
        assert(body.skip(6) == rest);
    }
}


/// What an escaped character is followed by does not change how it is read.
proof fn lemma_escapes_differ(c: char, d: char, behind: Seq<char>, after: Seq<char>)
    requires
        escaped(c) + behind == escaped(d) + after,
    ensures
        c == d,
        behind == after,
{
    let (one, two) = (escaped(c) + behind, escaped(d) + after);
    assert(one[0] == escaped(c)[0] && two[0] == escaped(d)[0]);
    if escaped(c).len() > 1 && escaped(d).len() > 1 {
        assert(one[1] == escaped(c)[1] && two[1] == escaped(d)[1]);
        if escaped(c).len() == 6 && escaped(d).len() == 6 {
            assert(one[4] == escaped(c)[4] && two[4] == escaped(d)[4]);
            assert(one[5] == escaped(c)[5] && two[5] == escaped(d)[5]);
            assert(c as int == d as int);
        }
    }
    assert(c == d);
    assert(one.skip(escaped(c).len() as int) == behind);
    assert(two.skip(escaped(d).len() as int) == after);
}

/// A quoted text ends where it ends: two texts that begin with one are the same text
/// quoted, with the same behind it.
pub proof fn quoted_texts_are_told_apart(
    text: Seq<char>,
    other: Seq<char>,
    behind: Seq<char>,
    after: Seq<char>,
)
    requires
        quoted(text) + behind == quoted(other) + after,
    ensures
        text == other,
        behind == after,
{
    let close = seq!['"'];
    let one = all_escaped(text) + (close + behind);
    let two = all_escaped(other) + (close + after);
    assert((quoted(text) + behind).skip(1) == one);
    assert((quoted(other) + after).skip(1) == two);
    lemma_bodies_differ(text, other, behind, after);
}

proof fn lemma_bodies_differ(
    text: Seq<char>,
    other: Seq<char>,
    behind: Seq<char>,
    after: Seq<char>,
)
    requires
        all_escaped(text) + (seq!['"'] + behind) == all_escaped(other) + (seq!['"'] + after),
    ensures
        text == other,
        behind == after,
    decreases text.len(),
{
    let close = seq!['"'];
    let one = all_escaped(text) + (close + behind);
    let two = all_escaped(other) + (close + after);
    if text.len() == 0 {
        assert(one[0] == '"');
        if other.len() > 0 {
            assert(two[0] == escaped(other[0])[0]);
        }
        assert(one.skip(1) == behind);
        assert(two.skip(1) == after);
    } else if other.len() == 0 {
        assert(two[0] == '"');
        assert(one[0] == escaped(text[0])[0]);
    } else {
        let left = all_escaped(text.skip(1)) + (close + behind);
        let right = all_escaped(other.skip(1)) + (close + after);
        assert(one == escaped(text[0]) + left);
        assert(two == escaped(other[0]) + right);
        lemma_escapes_differ(text[0], other[0], left, right);
        lemma_bodies_differ(text.skip(1), other.skip(1), behind, after);
        assert(text == seq![text[0]] + text.skip(1));
        assert(other == seq![other[0]] + other.skip(1));
    }
}


/// A character is left as it is unless it would end or break the string; every other
/// is written behind a backslash, the control characters without a letter of their own
/// by their number.
pub proof fn plain_characters_stay(c: char)
    ensures
        c >= ' ' && c != '"' && c != '\\' ==> escaped(c) == seq![c],
        c == '"' || c == '\\' ==> escaped(c) == seq!['\\', c],
        c == '\n' ==> escaped(c) == seq!['\\', 'n'],
        c == '\r' ==> escaped(c) == seq!['\\', 'r'],
        c == '\t' ==> escaped(c) == seq!['\\', 't'],
        c < ' ' ==> escaped(c).len() == 2 || escaped(c).len() == 6,
{
}

} // verus!
