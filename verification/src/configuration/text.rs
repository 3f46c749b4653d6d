//! Reading the text of a setting: white space, separated lists, decimal
//! numbers.

use vstd::prelude::*;
use vstd::string::*;

verus! {

/// Whether `c` has the Unicode property `White_Space`.
pub uninterp spec fn white_space(c: char) -> bool;

/// Whether `c` is white space. The call is `char::is_whitespace` of std,
/// which answers by the Unicode property `White_Space`; the contract names
/// that answer and claims nothing of which characters have the property.
#[verifier::external_body]
fn is_white_space(c: char) -> (white: bool)
    ensures
        white == white_space(c),
{
    c.is_whitespace()
}

/// For each character of `s`, whether it is white space.
pub open spec fn marks(s: Seq<char>) -> Seq<bool> {
    Seq::new(s.len(), |i: int| white_space(s[i]))
}

/// The number of marks that are set at the start of `white`.
pub open spec fn solid_start(white: Seq<bool>) -> int
    decreases white.len(),
{
    if white.len() > 0 && white.first() {
        1 + solid_start(white.drop_first())
    } else {
        0
    }
}

/// The place behind the last mark of `white` that is not set, or zero.
pub open spec fn solid_end(white: Seq<bool>) -> int
    decreases white.len(),
{
    if white.len() > 0 && white.last() {
        solid_end(white.drop_last())
    } else {
        white.len() as int
    }
}

/// `s` without the characters that are marked at its start and at its end:
/// what stands from the first character without a mark to the last.
pub open spec fn trimmed_by(s: Seq<char>, white: Seq<bool>) -> Seq<char> {
    if solid_start(white) < solid_end(white) {
        s.subrange(solid_start(white), solid_end(white))
    } else {
        Seq::empty()
    }
}

/// `s` without the white space at its start and at its end.
pub open spec fn trimmed(s: Seq<char>) -> Seq<char> {
    trimmed_by(s, marks(s))
}

/// The pieces of `s` between the occurrences of `separator`, in order. A
/// text without a separator is one piece, the empty text too; a separator
/// at the start or the end has an empty piece beside it.
pub open spec fn pieces(s: Seq<char>, separator: char) -> Seq<Seq<char>>
    decreases s.len(),
{
    if s.len() == 0 {
        seq![Seq::<char>::empty()]
    } else {
        let before = pieces(s.drop_last(), separator);
        if s.last() == separator {
            before.push(Seq::<char>::empty())
        } else {
            before.update(before.len() - 1, before.last().push(s.last()))
        }
    }
}

/// The texts of a list of strings, in order.
pub open spec fn texts(list: Seq<String>) -> Seq<Seq<char>> {
    Seq::new(list.len(), |i: int| list[i]@)
}

/// Each piece of a list without the white space around it.
pub open spec fn trimmed_all(list: Seq<Seq<char>>) -> Seq<Seq<char>> {
    Seq::new(list.len(), |i: int| trimmed(list[i]))
}

/// The marks at the start of `white` from `from` on are those of the rest.
proof fn lemma_solid_start_from(white: Seq<bool>, from: int)
    requires
        0 <= from <= white.len(),
        forall|k: int| 0 <= k < from ==> white[k],
    ensures
        solid_start(white) == from + solid_start(white.subrange(from, white.len() as int)),
    decreases from,
{
    if from == 0 {
        assert(white.subrange(0, white.len() as int) =~= white);
    } else {
        let rest = white.subrange(from - 1, white.len() as int);
        assert(rest.drop_first() =~= white.subrange(from, white.len() as int));
        lemma_solid_start_from(white, from - 1);
    }
}

/// The marks at the end of `white` down to `to` leave those of the rest.
proof fn lemma_solid_end_to(white: Seq<bool>, to: int)
    requires
        0 <= to <= white.len(),
        forall|k: int| to <= k < white.len() ==> white[k],
    ensures
        solid_end(white) == solid_end(white.subrange(0, to)),
    decreases white.len() - to,
{
    if to == white.len() {
        assert(white.subrange(0, to) =~= white);
    } else {
        let rest = white.subrange(0, to + 1);
        assert(rest.drop_last() =~= white.subrange(0, to));
        lemma_solid_end_to(white, to + 1);
    }
}

/// `text` without the characters that `white` marks at its start and at its
/// end, where `white` holds one mark for each character of `text`; nothing
/// where it does not.
pub fn trim_by<'a>(text: &'a str, white: &[bool]) -> (out: Option<&'a str>)
    ensures
        out is Some <==> white@.len() == text@.len(),
        out matches Some(kept) ==> kept@ == trimmed_by(text@, white@),
{
    let length = text.unicode_len();
    if white.len() != length {
        return None;
    }
    let mut start: usize = 0;
    while start < length && white[start]
        invariant
            start <= length,
            length == white@.len(),
            forall|k: int| 0 <= k < start ==> white@[k],
        decreases length - start,
    {
        start = start + 1;
    }
    let mut end: usize = length;
    while end > start && white[end - 1]
        invariant
            start <= end <= length,
            length == white@.len(),
            forall|k: int| end <= k < length ==> white@[k],
        decreases end - start,
    {
        end = end - 1;
    }
    proof {
        lemma_solid_start_from(white@, start as int);
        lemma_solid_end_to(white@, end as int);
        if end == start {
            lemma_solid_end_bound(white@.subrange(0, start as int));
        }
    }
    Some(text.substring_char(start, end))
}

/// The place that `solid_end` gives lies within the marks.
proof fn lemma_solid_end_bound(white: Seq<bool>)
    ensures
        0 <= solid_end(white) <= white.len(),
    decreases white.len(),
{
    if white.len() > 0 && white.last() {
        lemma_solid_end_bound(white.drop_last());
    }
}

/// For each character of `text`, whether it is white space.
fn mark_white_space(text: &str) -> (white: Vec<bool>)
    ensures
        white@ == marks(text@),
{
    let length = text.unicode_len();
    let mut white: Vec<bool> = Vec::new();
    let mut i: usize = 0;
    while i < length
        invariant
            i <= length,
            length == text@.len(),
            white@.len() == i,
            forall|k: int| 0 <= k < i ==> white@[k] == white_space(text@[k]),
        decreases length - i,
    {
        white.push(is_white_space(text.get_char(i)));
        i = i + 1;
    }
    white
}

/// `text` without the white space at its start and at its end.
pub fn trim(text: &str) -> (out: &str)
    ensures
        out@ == trimmed(text@),
{
    let white = mark_white_space(text);
    match trim_by(text, white.as_slice()) {
        Some(kept) => kept,
        None => text,
    }
}

/// The pieces of `text` between the occurrences of `separator`, each
/// without the white space around it.
pub fn split_trimmed(text: &str, separator: char) -> (list: Vec<String>)
    ensures
        texts(list@) == trimmed_all(pieces(text@, separator)),
{
    let length = text.unicode_len();
    let mut list: Vec<String> = Vec::new();
    let mut start: usize = 0;
    let mut i: usize = 0;
    let ghost mut done: Seq<Seq<char>> = Seq::empty();
    assert(text@.subrange(0, 0) =~= Seq::<char>::empty());
    while i < length
        invariant
            start <= i <= length,
            length == text@.len(),
            pieces(text@.subrange(0, i as int), separator) == done.push(
                text@.subrange(start as int, i as int),
            ),
            texts(list@) == trimmed_all(done),
        decreases length - i,
    {
        let ghost prefix = text@.subrange(0, i as int);
        let ghost next = text@.subrange(0, i + 1);
        let ghost current = text@.subrange(start as int, i as int);
        assert(next.drop_last() =~= prefix);
        if text.get_char(i) == separator {
            let piece = trim(text.substring_char(start, i)).to_owned();
            proof {
                let grown = done.push(current);
                assert(texts(list@).len() == trimmed_all(done).len());
                assert(texts(list@.push(piece)) =~= trimmed_all(grown)) by {
                    assert forall|k: int| 0 <= k < grown.len() implies texts(list@.push(piece))[k]
                        == trimmed_all(grown)[k] by {
                        if k < done.len() {
                            assert(texts(list@)[k] == trimmed_all(done)[k]);
                        }
                    }
                }
                assert(text@.subrange(i + 1, i + 1) =~= Seq::<char>::empty());
                done = grown;
            }
            list.push(piece);
            start = i + 1;
        } else {
            proof {
                assert(current.push(next.last()) =~= text@.subrange(start as int, i + 1));
            }
        }
        i = i + 1;
    }
    assert(text@.subrange(0, length as int) =~= text@);
    let piece = trim(text.substring_char(start, length)).to_owned();
    proof {
        let grown = done.push(text@.subrange(start as int, length as int));
        assert(texts(list@.push(piece)) =~= trimmed_all(grown)) by {
            assert forall|k: int| 0 <= k < grown.len() implies texts(list@.push(piece))[k]
                == trimmed_all(grown)[k] by {
                if k < done.len() {
                    assert(texts(list@)[k] == trimmed_all(done)[k]);
                }
            }
        }
    }
    list.push(piece);
    list
}

/// The number that the decimal digit `c` stands for.
pub open spec fn decimal_digit(c: char) -> Option<nat> {
    if 48 <= c as int <= 57 {
        Some((c as int - 48) as nat)
    } else {
        None
    }
}

/// The number that `s` spells in decimal digits, if it holds nothing else.
/// The empty text spells zero.
pub open spec fn decimal_value(s: Seq<char>) -> Option<nat>
    decreases s.len(),
{
    if s.len() == 0 {
        Some(0)
    } else {
        match (decimal_value(s.drop_last()), decimal_digit(s.last())) {
            (Some(high), Some(low)) => Some(10 * high + low),
            _ => None,
        }
    }
}

/// The number up to `limit` that `s` spells: an optional plus sign, then one
/// decimal digit or more and nothing else.
pub open spec fn bounded_value(s: Seq<char>, limit: u64) -> Option<u64> {
    let digits = if s.len() > 0 && s.first() == '+' {
        s.drop_first()
    } else {
        s
    };
    if digits.len() > 0 && decimal_value(digits) is Some && decimal_value(digits)->0 <= limit {
        Some(decimal_value(digits)->0 as u64)
    } else {
        None
    }
}

/// The `u16` that `s` spells, if it spells a number up to 65535.
pub open spec fn port_value(s: Seq<char>) -> Option<u16> {
    match bounded_value(s, 65535) {
        Some(value) => Some(value as u16),
        None => None,
    }
}

/// The `u64` that `s` spells, if it spells one.
pub open spec fn number_value(s: Seq<char>) -> Option<u64> {
    bounded_value(s, u64::MAX)
}

/// A text spells no number once one of its prefixes spells none.
proof fn lemma_decimal_prefix(s: Seq<char>, n: int)
    requires
        0 <= n <= s.len(),
        decimal_value(s.subrange(0, n)) is None,
    ensures
        decimal_value(s) is None,
    decreases s.len() - n,
{
    if n < s.len() {
        assert(s.subrange(0, n + 1).drop_last() =~= s.subrange(0, n));
        lemma_decimal_prefix(s, n + 1);
    } else {
        assert(s.subrange(0, n) =~= s);
    }
}

/// The number that a text spells is no less than what a prefix of it spells.
proof fn lemma_decimal_grows(s: Seq<char>, n: int)
    requires
        0 <= n <= s.len(),
        decimal_value(s) is Some,
    ensures
        decimal_value(s.subrange(0, n)) is Some,
        decimal_value(s.subrange(0, n))->0 <= decimal_value(s)->0,
    decreases s.len() - n,
{
    if n < s.len() {
        assert(s.subrange(0, n + 1).drop_last() =~= s.subrange(0, n));
        if decimal_value(s.subrange(0, n + 1)) is None {
            lemma_decimal_prefix(s, n + 1);
        }
        lemma_decimal_grows(s, n + 1);
    } else {
        assert(s.subrange(0, n) =~= s);
    }
}

/// Reads a decimal number up to `limit`.
fn parse_bounded(text: &str, limit: u64) -> (number: Option<u64>)
    ensures
        number == bounded_value(text@, limit),
{
    let length = text.unicode_len();
    if length == 0 {
        return None;
    }
    let start: usize = if text.get_char(0) == '+' {
        1
    } else {
        0
    };
    if start == length {
        return None;
    }
    let ghost digits = text@.subrange(start as int, length as int);
    assert(digits =~= if text@.first() == '+' {
        text@.drop_first()
    } else {
        text@
    });
    let mut value: u64 = 0;
    let mut i: usize = start;
    while i < length
        invariant
            start <= i <= length,
            length == text@.len(),
            digits == text@.subrange(start as int, length as int),
            digits == (if text@.first() == '+' {
                text@.drop_first()
            } else {
                text@
            }),
            digits.len() > 0,
            decimal_value(digits.subrange(0, i - start)) == Some(value as nat),
            value <= limit,
        decreases length - i,
    {
        let c = text.get_char(i);
        let ghost prefix = digits.subrange(0, i - start);
        let ghost next = digits.subrange(0, i - start + 1);
        assert(next.drop_last() =~= prefix);
        let code: u32 = c as u32;
        if code < 48 || code > 57 {
            proof {
                lemma_decimal_prefix(digits, i - start + 1);
            }
            return None;
        }
        let digit: u64 = (code - 48) as u64;
        if digit > limit || value > (limit - digit) / 10 {
            proof {
                if decimal_value(digits) is Some {
                    lemma_decimal_grows(digits, i - start + 1);
                }
            }
            return None;
        }
        value = value * 10 + digit;
        i = i + 1;
    }
    assert(digits.subrange(0, length - start) =~= digits);
    Some(value)
}

/// Reads a port number as std's `u16::from_str` does.
pub fn parse_port(text: &str) -> (port: Option<u16>)
    ensures
        port == port_value(text@),
{
    match parse_bounded(text, 65535) {
        Some(value) => Some(value as u16),
        None => None,
    }
}

/// Reads a number as std's `u64::from_str` does.
pub fn parse_number(text: &str) -> (number: Option<u64>)
    ensures
        number == number_value(text@),
{
    parse_bounded(text, u64::MAX)
}

} // verus!
