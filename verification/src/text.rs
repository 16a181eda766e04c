//! Plain text work: comparing, splitting, reading and writing numbers.

use vstd::prelude::*;

verus! {

/// Trusts `String::push` of the standard library to append one character.
pub assume_specification[ String::push ](text: &mut String, c: char)
    ensures
        final(text)@ == old(text)@.push(c),
;

/// The characters of a text, one by one.
pub fn chars_of(text: &str) -> (chars: Vec<char>)
    ensures
        chars@ == text@,
{
    let mut chars: Vec<char> = Vec::new();
    for c in it: text.chars()
        invariant
            it.seq() == text@,
            chars@ == text@.take(it.index() as int),
    {
        chars.push(c);
    }
    assert(text@.take(text@.len() as int) == text@);
    chars
}

/// Whether two texts hold the same characters.
pub fn same(left: &str, right: &str) -> (equal: bool)
    ensures
        equal == (left@ == right@),
{
    let a = chars_of(left);
    let b = chars_of(right);
    if a.len() != b.len() {
        return false;
    }
    let mut i: usize = 0;
    while i < a.len()
        invariant
            i <= a.len(),
            a.len() == b.len(),
            a@ == left@,
            b@ == right@,
            forall|j: int| 0 <= j < i ==> a@[j] == b@[j],
        decreases a.len() - i,
    {
        if a[i] != b[i] {
            assert(left@[i as int] != right@[i as int]);
            return false;
        }
        i += 1;
    }
    assert(a@ =~= b@);
    true
}

/// What is left of a text once `prefix` is taken off its front.
pub open spec fn stripped(text: Seq<char>, prefix: Seq<char>) -> Option<Seq<char>> {
    if prefix.is_prefix_of(text) {
        Some(text.skip(prefix.len() as int))
    } else {
        None
    }
}

pub fn strip_prefix<'a>(text: &'a str, prefix: &str) -> (rest: Option<&'a str>)
    ensures
        rest is Some <==> stripped(text@, prefix@) is Some,
        rest matches Some(rest) ==> stripped(text@, prefix@) == Some(rest@),
{
    let a = chars_of(text);
    let b = chars_of(prefix);
    if a.len() < b.len() {
        return None;
    }
    let mut i: usize = 0;
    while i < b.len()
        invariant
            i <= b.len() <= a.len(),
            a@ == text@,
            b@ == prefix@,
            forall|j: int| 0 <= j < i ==> a@[j] == b@[j],
        decreases b.len() - i,
    {
        if a[i] != b[i] {
            assert(text@.take(prefix@.len() as int)[i as int] != prefix@[i as int]);
            return None;
        }
        i += 1;
    }
    assert(text@.take(prefix@.len() as int) =~= prefix@);
    let rest = text.substring_char(b.len(), a.len());
    assert(rest@ =~= text@.skip(prefix@.len() as int));
    Some(rest)
}

/// The position of the last `mark` in a text.
pub open spec fn last_mark(text: Seq<char>, mark: char) -> Option<int>
    decreases text.len(),
{
    if text.len() == 0 {
        None
    } else if text.last() == mark {
        Some(text.len() - 1)
    } else {
        last_mark(text.drop_last(), mark)
    }
}

/// A text cut in two around its last `mark`, which belongs to neither half.
pub open spec fn split_last(text: Seq<char>, mark: char) -> Option<(Seq<char>, Seq<char>)> {
    match last_mark(text, mark) {
        Some(at) => Some((text.take(at), text.skip(at + 1))),
        None => None,
    }
}

pub proof fn lemma_last_mark(text: Seq<char>, mark: char)
    ensures
        last_mark(text, mark) matches Some(at) ==> 0 <= at < text.len() && text[at] == mark && forall|
            j: int,
        |
            at < j < text.len() ==> text[j] != mark,
        last_mark(text, mark) is None ==> !text.contains(mark),
    decreases text.len(),
{
    if text.len() > 0 && text.last() != mark {
        lemma_last_mark(text.drop_last(), mark);
        if let Some(at) = last_mark(text.drop_last(), mark) {
            assert forall|j: int| at < j < text.len() implies text[j] != mark by {
                if j < text.len() - 1 {
                    assert(text.drop_last()[j] == text[j]);
                }
            }
        } else {
            assert forall|j: int| 0 <= j < text.len() implies text[j] != mark by {
                if j < text.len() - 1 {
                    assert(text.drop_last()[j] == text[j]);
                    assert(text.drop_last().contains(text[j]));
                }
            }
        }
    }
}

pub fn rsplit_once<'a>(text: &'a str, mark: char) -> (parts: Option<(&'a str, &'a str)>)
    ensures
        parts is Some <==> split_last(text@, mark) is Some,
        parts matches Some((front, back)) ==> split_last(text@, mark) == Some((front@, back@)),
{
    let chars = chars_of(text);
    let len = chars.len();
    let mut i: usize = len;
    assert(text@.take(len as int) == text@);
    while i > 0
        invariant
            i <= len,
            len == text@.len(),
            chars@ == text@,
            last_mark(text@.take(i as int), mark) == last_mark(text@, mark),
        decreases i,
    {
        let ghost front = text@.take(i as int);
        assert(front.drop_last() == text@.take(i - 1));
        assert(front.last() == text@[i - 1]);
        if chars[i - 1] == mark {
            let front = text.substring_char(0, i - 1);
            let back = text.substring_char(i, len);
            assert(front@ == text@.take(i - 1));
            assert(back@ == text@.skip(i as int));
            return Some((front, back));
        }
        i -= 1;
    }
    None
}

/// The character that writes the digit `value`.
pub open spec fn digit(value: int) -> char {
    (48 + value) as char
}

/// A number in decimal, without leading zeros.
pub open spec fn digits(value: nat) -> Seq<char>
    decreases value,
{
    if value < 10 {
        seq![digit(value as int)]
    } else {
        digits(value / 10).push(digit((value % 10) as int))
    }
}

/// A number in decimal, with a minus sign where it is negative.
pub open spec fn signed_digits(value: int) -> Seq<char> {
    if value < 0 {
        seq!['-'] + digits((-value) as nat)
    } else {
        digits(value as nat)
    }
}

pub fn decimal(value: u64) -> (text: String)
    ensures
        text@ == digits(value as nat),
    decreases value,
{
    let low: u8 = (value % 10) as u8;
    let last = (48 + low) as char;
    let mut text = if value < 10 {
        String::new()
    } else {
        decimal(value / 10)
    };
    text.push(last);
    text
}

pub fn signed_decimal(value: i64) -> (text: String)
    requires
        value > i64::MIN,
    ensures
        text@ == signed_digits(value as int),
{
    if value < 0 {
        let mut text = String::new();
        text.push('-');
        let size = decimal((-value) as u64);
        text.append(size.as_str());
        text
    } else {
        decimal(value as u64)
    }
}

pub open spec fn is_digit(c: char) -> bool {
    '0' <= c <= '9'
}

/// The number that a run of decimal digits stands for.
pub open spec fn value_of(text: Seq<char>) -> nat
    decreases text.len(),
{
    if text.len() == 0 {
        0
    } else {
        value_of(text.drop_last()) * 10 + (text.last() as nat - 48) as nat
    }
}

/// A text without its plus sign, where it starts with one.
pub open spec fn unsigned(text: Seq<char>) -> Seq<char> {
    if text.len() > 0 && text[0] == '+' {
        text.skip(1)
    } else {
        text
    }
}

pub open spec fn all_digits(text: Seq<char>) -> bool {
    forall|i: int| 0 <= i < text.len() ==> is_digit(#[trigger] text[i])
}

/// The unsigned number a text spells: decimal digits, at least one, after an
/// optional plus sign.
pub open spec fn spelled(text: Seq<char>) -> Option<nat> {
    let body = unsigned(text);
    if body.len() > 0 && all_digits(body) {
        Some(value_of(body))
    } else {
        None
    }
}

/// The number a text spells, where it is no larger than `limit`.
pub open spec fn spelled_within(text: Seq<char>, limit: nat) -> Option<nat> {
    match spelled(text) {
        Some(value) => if value <= limit {
            Some(value)
        } else {
            None
        },
        None => None,
    }
}

proof fn lemma_value_grows(text: Seq<char>, upto: int)
    requires
        0 <= upto <= text.len(),
    ensures
        value_of(text.take(upto)) <= value_of(text),
    decreases text.len() - upto,
{
    if upto == text.len() {
        assert(text.take(upto) == text);
    } else {
        lemma_value_grows(text, upto + 1);
        assert(text.take(upto + 1).drop_last() == text.take(upto));
    }
}

pub fn parse_within(text: &str, limit: u64) -> (value: Option<u64>)
    ensures
        value matches Some(value) ==> spelled_within(text@, limit as nat) == Some(value as nat),
        value is None ==> spelled_within(text@, limit as nat) is None,
{
    let chars = chars_of(text);
    let start: usize = if chars.len() > 0 && chars[0] == '+' {
        1
    } else {
        0
    };
    let ghost body = unsigned(text@);
    assert(body == text@.skip(start as int));
    if start == chars.len() {
        return None;
    }
    let mut total: u64 = 0;
    let mut i: usize = start;
    assert(body.take(0) == Seq::<char>::empty());
    while i < chars.len()
        invariant
            start <= i <= chars.len(),
            chars@ == text@,
            body == text@.skip(start as int),
            body == unsigned(text@),
            forall|j: int| 0 <= j < i - start ==> is_digit(#[trigger] body[j]),
            total == value_of(body.take(i - start)),
            total <= limit,
        decreases chars.len() - i,
    {
        let c = chars[i];
        assert(body[i - start] == c);
        if c < '0' || c > '9' {
            return None;
        }
        let low: u64 = (c as u32 - 48) as u64;
        assert(body.take(i - start + 1).drop_last() == body.take(i - start));
        assert(value_of(body.take(i - start + 1)) == total * 10 + low);
        proof {
            lemma_value_grows(body, i - start + 1);
        }
        let next: u128 = total as u128 * 10 + low as u128;
        if next > limit as u128 {
            return None;
        }
        total = next as u64;
        i += 1;
    }
    assert(body.take(chars.len() - start) == body);
    Some(total)
}

pub proof fn lemma_digits_read_back(value: nat)
    ensures
        digits(value).len() > 0,
        all_digits(digits(value)),
        value_of(digits(value)) == value,
    decreases value,
{
    if value < 10 {
        let text = digits(value);
        assert(text.drop_last() == Seq::<char>::empty());
        assert(text.last() == digit(value as int));
        assert(value_of(Seq::<char>::empty()) == 0);
    } else {
        lemma_digits_read_back(value / 10);
        let text = digits(value);
        assert(text.drop_last() == digits(value / 10));
        assert forall|i: int| 0 <= i < text.len() implies is_digit(#[trigger] text[i]) by {
            if i < text.len() - 1 {
                assert(text[i] == digits(value / 10)[i]);
            }
        }
    }
}

/// A number that was written down reads back as the same number.
pub proof fn written_numbers_read_back(value: nat)
    ensures
        spelled(digits(value)) == Some(value),
{
    lemma_digits_read_back(value);
    assert(is_digit(digits(value)[0]));
}

/// A character with the upper case letters of the ASCII alphabet lowered.
pub open spec fn lower(c: char) -> char {
    if 'A' <= c <= 'Z' {
        (c as u32 + 32) as char
    } else {
        c
    }
}

pub open spec fn lowered(text: Seq<char>) -> Seq<char> {
    text.map_values(|c: char| lower(c))
}

fn lower_char(c: char) -> (low: char)
    ensures
        low == lower(c),
{
    if 'A' <= c && c <= 'Z' {
        (c as u8 + 32) as char
    } else {
        c
    }
}

/// The characters of a text, with its ASCII letters in lower case.
pub fn lower_chars(text: &str) -> (chars: Vec<char>)
    ensures
        chars@ == lowered(text@),
{
    let source = chars_of(text);
    let mut chars: Vec<char> = Vec::new();
    let mut i: usize = 0;
    while i < source.len()
        invariant
            i <= source.len(),
            source@ == text@,
            chars@ == lowered(text@).take(i as int),
        decreases source.len() - i,
    {
        chars.push(lower_char(source[i]));
        i += 1;
        assert(chars@ == lowered(text@).take(i as int));
    }
    assert(lowered(text@).take(i as int) == lowered(text@));
    chars
}

/// Whether `part` stands in `text` at position `at`.
pub open spec fn stands_at(text: Seq<char>, part: Seq<char>, at: int) -> bool {
    0 <= at <= text.len() - part.len() && text.subrange(at, at + part.len()) == part
}

pub fn found_at(text: &Vec<char>, part: &Vec<char>, at: usize) -> (found: bool)
    ensures
        found == stands_at(text@, part@, at as int),
{
    if part.len() > text.len() || at > text.len() - part.len() {
        return false;
    }
    let mut i: usize = 0;
    while i < part.len()
        invariant
            i <= part.len() <= text.len(),
            at <= text.len() - part.len(),
            forall|j: int| 0 <= j < i ==> text@[at + j] == part@[j],
        decreases part.len() - i,
    {
        if text[at + i] != part[i] {
            assert(text@.subrange(at as int, at + part.len())[i as int] != part@[i as int]);
            return false;
        }
        i += 1;
    }
    assert(text@.subrange(at as int, at + part.len()) =~= part@);
    true
}


/// A beginning comes off exactly if it is there.
pub proof fn beginnings_come_off(prefix: Seq<char>, rest: Seq<char>, text: Seq<char>)
    ensures
        stripped(prefix + rest, prefix) == Some(rest),
        stripped(text, prefix) matches Some(left) ==> text == prefix + left,
        stripped(text, prefix) is None ==> forall|left: Seq<char>|
            text != #[trigger] (prefix + left),
{
    assert((prefix + rest).skip(prefix.len() as int) == rest);
    assert((prefix + rest).take(prefix.len() as int) == prefix);
    if stripped(text, prefix) is Some {
        assert(text == prefix + text.skip(prefix.len() as int));
    } else {
        assert forall|left: Seq<char>| text != #[trigger] (prefix + left) by {
            if text == prefix + left {
                assert(text.take(prefix.len() as int) == prefix);
                assert(prefix.is_prefix_of(text));
            }
        }
    }
}

/// A text is split at its last mark, and not at all without one.
pub proof fn texts_split_at_the_last_mark(
    front: Seq<char>,
    mark: char,
    back: Seq<char>,
    other: Seq<char>,
)
    requires
        !back.contains(mark),
        !other.contains(mark),
    ensures
        split_last(front.push(mark) + back, mark) == Some((front, back)),
        split_last(other, mark) is None,
{
    let text = front.push(mark) + back;
    lemma_last_mark(text, mark);
    lemma_last_mark(other, mark);
    assert(text[front.len() as int] == mark);
    assert(text.contains(mark));
    let at = last_mark(text, mark)->0;
    if at > front.len() {
        assert(back[at - front.len() - 1] == text[at]);
    }
    assert(at == front.len());
    assert(text.take(at) == front);
    assert(text.skip(at + 1) == back);
}

/// A number within the limit is read as written, with or without a plus; a larger one
/// is not read at all.
pub proof fn numbers_are_read_up_to_the_limit(value: nat, limit: nat)
    ensures
        spelled_within(digits(value), limit) == (if value <= limit {
            Some(value)
        } else {
            None
        }),
        spelled_within(seq!['+'] + digits(value), limit) == (if value <= limit {
            Some(value)
        } else {
            None
        }),
{
    lemma_digits_read_back(value);
    written_numbers_read_back(value);
    let signed = seq!['+'] + digits(value);
    assert(signed.skip(1) == digits(value));
    lemma_all_digits(value);
    assert(is_digit(digits(value)[0]));
}

proof fn lemma_all_digits(value: nat)
    ensures
        digits(value).len() > 0,
        all_digits(digits(value)),
    decreases value,
{
    if value >= 10 {
        lemma_all_digits(value / 10);
    }
}

/// A text without digits, or with anything else among them, is no number.
pub proof fn other_texts_are_no_numbers(text: Seq<char>, limit: nat, i: int)
    requires
        text.len() == 0 || text == seq!['+'] || (0 < i < text.len() && !is_digit(text[i])) || (
        text.len() > 0 && text[0] != '+' && !is_digit(text[0])),
    ensures
        spelled_within(text, limit) is None,
{
    let body = unsigned(text);
    if text.len() > 0 && text[0] == '+' {
        if 0 < i < text.len() && !is_digit(text[i]) {
            assert(body[i - 1] == text[i]);
        }
    }
}

/// A number is written like any other, with a minus before it where it is negative.
pub proof fn negative_numbers_have_a_minus(value: nat)
    requires
        value > 0,
    ensures
        signed_digits(value as int) == digits(value),
        signed_digits(-(value as int)) == seq!['-'] + digits(value),
{
}

/// Two numbers are never written the same, whatever follows, so long as that starts
/// neither with a digit nor with a minus.
pub proof fn written_numbers_are_told_apart(
    left: int,
    right: int,
    behind: Seq<char>,
    after: Seq<char>,
)
    requires
        signed_digits(left) + behind == signed_digits(right) + after,
        behind.len() > 0 && !is_digit(behind[0]) && behind[0] != '-',
        after.len() > 0 && !is_digit(after[0]) && after[0] != '-',
    ensures
        left == right,
        behind == after,
{
    let (one, two) = (signed_digits(left), signed_digits(right));
    let (whole, other) = (one + behind, two + after);
    lemma_signed(left);
    lemma_signed(right);
    if one.len() < two.len() {
        assert(whole[one.len() as int] == behind[0]);
        assert(other[one.len() as int] == two[one.len() as int]);
    }
    if two.len() < one.len() {
        assert(other[two.len() as int] == after[0]);
        assert(whole[two.len() as int] == one[two.len() as int]);
    }
    assert(whole.take(one.len() as int) == one);
    assert(other.take(two.len() as int) == two);
    assert(whole.skip(one.len() as int) == behind);
    assert(other.skip(two.len() as int) == after);
    assert(one == two);
    if left < 0 {
        assert(one[0] == '-');
        assert(one.skip(1) == digits((-left) as nat));
        written_numbers_read_back((-left) as nat);
    } else {
        written_numbers_read_back(left as nat);
    }
    if right < 0 {
        assert(two[0] == '-');
        assert(two.skip(1) == digits((-right) as nat));
        written_numbers_read_back((-right) as nat);
    } else {
        written_numbers_read_back(right as nat);
    }
}

proof fn lemma_signed(value: int)
    ensures
        signed_digits(value).len() > 0,
        forall|i: int|
            0 <= i < signed_digits(value).len() ==> is_digit(#[trigger] signed_digits(value)[i])
                || signed_digits(value)[i] == '-',
        value >= 0 ==> signed_digits(value)[0] != '-',
{
    if value < 0 {
        lemma_all_digits((-value) as nat);
    } else {
        lemma_all_digits(value as nat);
        assert(is_digit(digits(value as nat)[0]));
    }
}

/// Only the letters from A to Z are lowered, each to its own small letter.
pub proof fn only_capitals_are_lowered(c: char)
    ensures
        'A' <= c <= 'Z' ==> lower(c) as int == c as int + 32,
        !('A' <= c <= 'Z') ==> lower(c) == c,
        lower(lower(c)) == lower(c),
{
}


/// A number is written without zeros in front, the shortest way there is.
pub proof fn numbers_have_no_zeros_in_front(value: nat)
    ensures
        value > 0 ==> digits(value)[0] != '0',
        value == 0 ==> digits(value) == seq!['0'],
    decreases value,
{
    if value >= 10 {
        numbers_have_no_zeros_in_front(value / 10);
        lemma_all_digits(value / 10);
        assert(digits(value)[0] == digits(value / 10)[0]);
    }
}

} // verus!
