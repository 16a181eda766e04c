//! Text as the system takes it and hands it back: UTF-16, closed by a zero.

use crate::text::chars_of;
use vstd::prelude::*;

verus! {

/// Stands in for whatever is not a character.
pub const REPLACEMENT: char = '\u{FFFD}';

/// Trusts `char::from_u32` of the standard library to give the character with
/// the number `code` where there is one: every number up to 0x10ffff names one,
/// except the surrogates.
pub assume_specification[ char::from_u32 ](code: u32) -> (c: Option<char>)
    ensures
        c is Some <==> (code < 0xd800 || 0xe000 <= code <= 0x10ffff),
        c matches Some(c) ==> c as u32 == code,
;

pub open spec fn is_lead(unit: u16) -> bool {
    0xd800 <= unit < 0xdc00
}

pub open spec fn is_trail(unit: u16) -> bool {
    0xdc00 <= unit < 0xe000
}

/// One character in UTF-16: itself, or a pair of surrogates.
pub open spec fn units_of(c: char) -> Seq<u16> {
    let code = c as int;
    if code < 0x10000 {
        seq![code as u16]
    } else {
        seq![
            (0xd800 + (code - 0x10000) / 0x400) as u16,
            (0xdc00 + (code - 0x10000) % 0x400) as u16,
        ]
    }
}

/// A text in UTF-16.
pub open spec fn utf16(text: Seq<char>) -> Seq<u16>
    decreases text.len(),
{
    if text.len() == 0 {
        Seq::empty()
    } else {
        units_of(text[0]) + utf16(text.skip(1))
    }
}

/// What UTF-16 reads as. A surrogate without its other half reads as the
/// replacement character.
pub open spec fn decoded(units: Seq<u16>) -> Seq<char>
    decreases units.len(),
{
    if units.len() == 0 {
        Seq::empty()
    } else if !is_lead(units[0]) && !is_trail(units[0]) {
        seq![units[0] as char] + decoded(units.skip(1))
    } else if is_lead(units[0]) && units.len() > 1 && is_trail(units[1]) {
        seq![(0x10000 + (units[0] - 0xd800) * 0x400 + (units[1] - 0xdc00)) as char] + decoded(
            units.skip(2),
        )
    } else {
        seq![REPLACEMENT] + decoded(units.skip(1))
    }
}

/// The part of a buffer in front of its first zero.
pub open spec fn until_zero(units: Seq<u16>) -> Seq<u16>
    decreases units.len(),
{
    if units.len() == 0 || units[0] == 0 {
        Seq::empty()
    } else {
        seq![units[0]] + until_zero(units.skip(1))
    }
}

proof fn lemma_char_code(c: char)
    ensures
        0 <= c as int <= 0x10ffff,
        c as u32 == c as int,
        (c as int) as char == c,
{
}

/// A text the way the system takes one.
pub fn wide(text: &str) -> (units: Vec<u16>)
    ensures
        units@ == utf16(text@).push(0),
{
    let chars = chars_of(text);
    let mut units: Vec<u16> = Vec::new();
    let mut i: usize = 0;
    assert(text@.skip(0) == text@);
    assert(units@ + utf16(text@) == utf16(text@));
    while i < chars.len()
        invariant
            i <= chars.len(),
            chars@ == text@,
            units@ + utf16(text@.skip(i as int)) == utf16(text@),
        decreases chars.len() - i,
    {
        let c = chars[i];
        let code: u32 = c as u32;
        let ghost before = units@;
        proof {
            lemma_char_code(c);
        }
        if code < 0x10000 {
            units.push(code as u16);
        } else {
            let offset: u32 = code - 0x10000;
            units.push((0xd800 + offset / 0x400) as u16);
            units.push((0xdc00 + offset % 0x400) as u16);
        }
        assert(units@ == before + units_of(c));
        let ghost rest = text@.skip(i as int);
        assert(rest[0] == c);
        assert(rest.skip(1) == text@.skip(i + 1));
        assert(before + (units_of(c) + utf16(text@.skip(i + 1))) == (before + units_of(c))
            + utf16(text@.skip(i + 1)));
        i += 1;
    }
    assert(utf16(text@.skip(i as int)) == Seq::<u16>::empty());
    assert(units@ == utf16(text@));
    units.push(0);
    units
}

/// Reads UTF-16, standing in for what is not a character.
pub fn from_utf16_lossy(units: &[u16]) -> (text: String)
    ensures
        text@ == decoded(units@),
{
    let mut text = String::new();
    let mut i: usize = 0;
    assert(units@.skip(0) == units@);
    while i < units.len()
        invariant
            i <= units.len(),
            text@ + decoded(units@.skip(i as int)) == decoded(units@),
        decreases units.len() - i,
    {
        let unit = units[i];
        let ghost before = text@;
        let ghost rest = units@.skip(i as int);
        let lead = 0xd800 <= unit && unit < 0xdc00;
        let trail = 0xdc00 <= unit && unit < 0xe000;
        let mut code: u32 = 0xfffd;
        let mut taken: usize = 1;
        if !lead && !trail {
            code = unit as u32;
        } else if lead && i + 1 < units.len() && 0xdc00 <= units[i + 1] && units[i + 1] < 0xe000 {
            code = 0x10000 + (unit - 0xd800) as u32 * 0x400 + (units[i + 1] - 0xdc00) as u32;
            taken = 2;
        }
        match char::from_u32(code) {
            Some(c) => {
                text.push(c);
                proof {
                    lemma_char_code(c);
                }
                assert(code as char == c);
                assert(rest.skip(taken as int) == units@.skip(i + taken));
                assert(decoded(rest) == seq![c] + decoded(rest.skip(taken as int)));
                assert(before + (seq![c] + decoded(rest.skip(taken as int))) == before.push(c)
                    + decoded(rest.skip(taken as int)));
            },
            None => {
                assert(false);
            },
        }
        i += taken;
    }
    assert(decoded(units@.skip(i as int)) == Seq::<char>::empty());
    assert(text@ == decoded(units@));
    text
}

/// How many units of a buffer stand in front of its first zero.
pub fn length_until_zero(units: &[u16]) -> (length: usize)
    ensures
        length <= units@.len(),
        units@.take(length as int) == until_zero(units@),
{
    let mut i: usize = 0;
    assert(units@.skip(0) == units@);
    assert(units@.take(0) + until_zero(units@) == until_zero(units@));
    while i < units.len() && units[i] != 0
        invariant
            i <= units.len(),
            units@.take(i as int) + until_zero(units@.skip(i as int)) == until_zero(units@),
        decreases units.len() - i,
    {
        let ghost rest = units@.skip(i as int);
        assert(rest.skip(1) == units@.skip(i + 1));
        assert(units@.take(i as int) + (seq![rest[0]] + until_zero(rest.skip(1))) == units@.take(
            i + 1,
        ) + until_zero(rest.skip(1)));
        i += 1;
    }
    assert(until_zero(units@.skip(i as int)) == Seq::<u16>::empty());
    assert(units@.take(i as int) == until_zero(units@));
    i
}

proof fn lemma_units_decode(c: char, rest: Seq<u16>)
    ensures
        decoded(units_of(c) + rest) == seq![c] + decoded(rest),
{
    let units = units_of(c) + rest;
    assert(units[0] == units_of(c)[0]);
    if (c as int) < 0x10000 {
        assert(units.skip(1) == rest);
    } else {
        assert(units[1] == units_of(c)[1]);
        assert(units.skip(2) == rest);
    }
}

/// A text that was handed to the system reads back as the same text.
pub proof fn utf16_reads_back(text: Seq<char>)
    ensures
        decoded(utf16(text)) == text,
    decreases text.len(),
{
    if text.len() > 0 {
        utf16_reads_back(text.skip(1));
        lemma_units_decode(text[0], utf16(text.skip(1)));
        assert(seq![text[0]] + text.skip(1) == text);
    }
}

/// The closing zero, and whatever a larger buffer holds behind it, is cut off
/// again, so long as the text itself holds no zero.
pub proof fn closed_text_ends_at_its_zero(text: Seq<char>, behind: Seq<u16>)
    requires
        forall|i: int| 0 <= i < text.len() ==> text[i] != '\0',
    ensures
        until_zero(utf16(text).push(0) + behind) == utf16(text),
    decreases text.len(),
{
    let buffer = utf16(text).push(0) + behind;
    if text.len() == 0 {
        assert(buffer[0] == 0);
    } else {
        let rest = text.skip(1);
        closed_text_ends_at_its_zero(rest, behind);
        let tail = utf16(rest).push(0) + behind;
        let head = units_of(text[0]);
        assert(buffer == head + tail);
        assert(buffer[0] == head[0]);
        lemma_char_code(text[0]);
        assert(head[0] != 0);
        assert(buffer.skip(1) == head.skip(1) + tail);
        if head.len() == 2 {
            assert(buffer.skip(1)[0] == head[1]);
            assert(buffer.skip(1).skip(1) == tail);
            assert(seq![head[1]] + utf16(rest) == until_zero(buffer.skip(1)));
            assert(seq![head[0]] + (seq![head[1]] + utf16(rest)) == head + utf16(rest));
        } else {
            assert(buffer.skip(1) == tail);
            assert(seq![head[0]] + utf16(rest) == head + utf16(rest));
        }
    }
}


/// Half a pair stands for nothing and becomes one mark; what follows is read as if it
/// had stood alone.
pub proof fn half_pairs_become_marks(unit: u16, rest: Seq<u16>)
    requires
        0xdc00 <= unit < 0xe000 || (0xd800 <= unit < 0xdc00 && (rest.len() == 0 || !(0xdc00
            <= rest[0] < 0xe000))),
    ensures
        decoded(seq![unit] + rest) == seq!['\u{fffd}'] + decoded(rest),
{
    let all = seq![unit] + rest;
    assert(all[0] == unit);
    assert(all.skip(1) == rest);
    if rest.len() > 0 {
        assert(all[1] == rest[0]);
    }
}


/// A character of the first plane is one unit, its own number; any other is a pair
/// that its number can be worked out from.
pub proof fn characters_are_one_unit_or_a_pair(c: char)
    ensures
        (c as int) < 0x10000 ==> units_of(c).len() == 1 && units_of(c)[0] == c as int,
        (c as int) >= 0x10000 ==> {
            &&& units_of(c).len() == 2
            &&& 0xd800 <= units_of(c)[0] < 0xdc00
            &&& 0xdc00 <= units_of(c)[1] < 0xe000
            &&& 0x10000 + (units_of(c)[0] - 0xd800) * 0x400 + (units_of(c)[1] - 0xdc00) == c as int
        },
{
    lemma_char_code(c);
}

} // verus!
