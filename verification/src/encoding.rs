//! Fixed-width lower-case hexadecimal text for the integers that a token
//! carries.

use vstd::prelude::*;

verus! {

/// The number of hexadecimal digits that hold a `u64`.
pub const WORD_DIGITS: usize = 16;

/// Sixteen to the power `n`.
pub open spec fn pow16(n: nat) -> nat
    decreases n,
{
    if n == 0 {
        1
    } else {
        16 * pow16((n - 1) as nat)
    }
}

/// The lower-case hexadecimal digit that stands for `d`.
pub open spec fn digit_char(d: int) -> char {
    if d < 10 {
        (48 + d) as char
    } else {
        (87 + d) as char
    }
}

/// The number that the lower-case hexadecimal digit `c` stands for.
pub open spec fn digit_value(c: char) -> Option<int> {
    if 48 <= c as int <= 57 {
        Some(c as int - 48)
    } else if 97 <= c as int <= 102 {
        Some(c as int - 87)
    } else {
        None
    }
}

/// The last `width` hexadecimal digits of `v`, most significant first.
pub open spec fn hex_text(v: nat, width: nat) -> Seq<char>
    decreases width,
{
    if width == 0 {
        Seq::empty()
    } else {
        hex_text(v / 16, (width - 1) as nat).push(digit_char((v % 16) as int))
    }
}

/// The number that `s` spells in lower-case hexadecimal, if it spells one.
/// The empty text spells zero.
pub open spec fn hex_value(s: Seq<char>) -> Option<nat>
    decreases s.len(),
{
    if s.len() == 0 {
        Some(0)
    } else {
        match (hex_value(s.drop_last()), digit_value(s.last())) {
            (Some(high), Some(low)) => Some((16 * high + low) as nat),
            _ => None,
        }
    }
}

/// Sixteen digits hold exactly the range of a `u64`.
pub proof fn lemma_pow16_word()
    ensures
        pow16(16) == 0x1_0000_0000_0000_0000,
{
    reveal_with_fuel(pow16, 17);
}

/// `hex_text` writes as many digits as it is asked for.
pub proof fn lemma_hex_text_len(v: nat, width: nat)
    ensures
        hex_text(v, width).len() == width,
    decreases width,
{
    if width > 0 {
        lemma_hex_text_len(v / 16, (width - 1) as nat);
    }
}

/// Reading back what `hex_text` wrote gives the number again, as far as the
/// width could hold it.
pub proof fn lemma_hex_value_of_text(v: nat, width: nat)
    ensures
        hex_value(hex_text(v, width)) == Some(v % pow16(width)),
    decreases width,
{
    if width > 0 {
        let rest = hex_text(v / 16, (width - 1) as nat);
        let text = hex_text(v, width);
        lemma_hex_value_of_text(v / 16, (width - 1) as nat);
        assert(text.drop_last() =~= rest);
        let p = pow16((width - 1) as nat);
        lemma_pow16_positive((width - 1) as nat);
        vstd::arithmetic::div_mod::lemma_breakdown(v as int, 16, p as int);
    }
}

/// A power of sixteen is positive.
pub proof fn lemma_pow16_positive(n: nat)
    ensures
        pow16(n) > 0,
    decreases n,
{
    if n > 0 {
        lemma_pow16_positive((n - 1) as nat);
    }
}

/// A text that spells a number is the only text of its width that spells it,
/// and the number fits the width.
pub proof fn lemma_hex_text_of_value(s: Seq<char>)
    requires
        hex_value(s) is Some,
    ensures
        hex_text(hex_value(s)->0, s.len()) == s,
        hex_value(s)->0 < pow16(s.len()),
    decreases s.len(),
{
    if s.len() > 0 {
        let high = hex_value(s.drop_last())->0;
        let low = digit_value(s.last())->0;
        lemma_hex_text_of_value(s.drop_last());
        let v = (16 * high + low) as nat;
        assert(v / 16 == high && v % 16 == low);
        assert(digit_char(low) == s.last());
        assert(hex_text(v, s.len()) =~= s);
    } else {
        assert(hex_text(0, 0) =~= s);
    }
}

/// The one-character text of the digit `d`.
fn digit_str(d: u8) -> (text: &'static str)
    requires
        d < 16,
    ensures
        text@ == seq![digit_char(d as int)],
{
    proof {
        reveal_strlit("0");
        reveal_strlit("1");
        reveal_strlit("2");
        reveal_strlit("3");
        reveal_strlit("4");
        reveal_strlit("5");
        reveal_strlit("6");
        reveal_strlit("7");
        reveal_strlit("8");
        reveal_strlit("9");
        reveal_strlit("a");
        reveal_strlit("b");
        reveal_strlit("c");
        reveal_strlit("d");
        reveal_strlit("e");
        reveal_strlit("f");
    }
    let text = match d {
        0 => "0",
        1 => "1",
        2 => "2",
        3 => "3",
        4 => "4",
        5 => "5",
        6 => "6",
        7 => "7",
        8 => "8",
        9 => "9",
        10 => "a",
        11 => "b",
        12 => "c",
        13 => "d",
        14 => "e",
        _ => "f",
    };
    assert(text@ =~= seq![digit_char(d as int)]);
    text
}

/// Appends the last `width` hexadecimal digits of `v` to `out`.
fn push_hex(out: &mut String, v: u64, width: usize)
    ensures
        final(out)@ == old(out)@ + hex_text(v as nat, width as nat),
    decreases width,
{
    if width > 0 {
        push_hex(out, v / 16, width - 1);
        let low: u8 = (v % 16) as u8;
        out.append(digit_str(low));
        assert(final(out)@ =~= old(out)@ + hex_text(v as nat, width as nat));
    } else {
        assert(old(out)@ + hex_text(v as nat, 0) =~= old(out)@);
    }
}

/// Writes `v` as sixteen lower-case hexadecimal digits.
pub fn encode_word(v: u64) -> (text: String)
    ensures
        text@ == hex_text(v as nat, 16),
{
    let mut text = String::new();
    push_hex(&mut text, v, WORD_DIGITS);
    assert(Seq::<char>::empty() + hex_text(v as nat, 16) =~= hex_text(v as nat, 16));
    text
}

/// The number that the digit `c` stands for, if it is a lower-case
/// hexadecimal digit.
fn digit_of(c: char) -> (d: Option<u8>)
    ensures
        d matches Some(n) ==> digit_value(c) == Some(n as int),
        d is None ==> digit_value(c) is None,
{
    let code: u32 = c as u32;
    if 48 <= code && code <= 57 {
        Some((code - 48) as u8)
    } else if 97 <= code && code <= 102 {
        Some((code - 87) as u8)
    } else {
        None
    }
}

/// The `u64` that `s` spells: `s` is sixteen lower-case hexadecimal digits,
/// or it spells none.
pub open spec fn word_value(s: Seq<char>) -> Option<u64> {
    if s.len() == 16 && hex_value(s) is Some {
        Some(hex_value(s)->0 as u64)
    } else {
        None
    }
}

/// Reads sixteen lower-case hexadecimal digits. Anything else, upper-case
/// digits too, is no number.
pub fn decode_word(text: &str) -> (word: Option<u64>)
    ensures
        word == word_value(text@),
{
    if text.unicode_len() != WORD_DIGITS {
        return None;
    }
    let mut acc: u64 = 0;
    let mut i: usize = 0;
    while i < WORD_DIGITS
        invariant
            i <= 16,
            text@.len() == 16,
            hex_value(text@.subrange(0, i as int)) == Some(acc as nat),
            acc < pow16(i as nat),
        decreases 16 - i,
    {
        let c = text.get_char(i);
        let ghost prefix = text@.subrange(0, i as int);
        let ghost next = text@.subrange(0, i + 1);
        proof {
            assert(next.drop_last() =~= prefix);
            assert(next.last() == c);
            lemma_pow16_monotone(i as nat, 15);
            lemma_pow16_word();
            assert(pow16(16) == 16 * pow16(15));
        }
        match digit_of(c) {
            Some(d) => {
                acc = acc * 16 + d as u64;
                i = i + 1;
            },
            None => {
                proof {
                    lemma_hex_value_prefix(text@, i + 1);
                }
                return None;
            },
        }
    }
    assert(text@.subrange(0, 16) =~= text@);
    Some(acc)
}

/// Reading back the sixteen digits of a `u64` gives it again.
pub proof fn lemma_word_round_trip(v: u64)
    ensures
        hex_text(v as nat, 16).len() == 16,
        word_value(hex_text(v as nat, 16)) == Some(v),
{
    lemma_hex_text_len(v as nat, 16);
    lemma_hex_value_of_text(v as nat, 16);
    lemma_pow16_word();
}

/// A text that spells a `u64` is the sixteen digits of that `u64`.
pub proof fn lemma_word_canonical(s: Seq<char>)
    requires
        word_value(s) is Some,
    ensures
        s == hex_text(word_value(s)->0 as nat, 16),
{
    lemma_hex_text_of_value(s);
    lemma_pow16_word();
}

/// Powers of sixteen grow with the exponent.
pub proof fn lemma_pow16_monotone(m: nat, n: nat)
    requires
        m <= n,
    ensures
        pow16(m) <= pow16(n),
    decreases n,
{
    if m < n {
        lemma_pow16_monotone(m, (n - 1) as nat);
    }
}

/// A text spells no number once one of its prefixes spells none.
pub proof fn lemma_hex_value_prefix(s: Seq<char>, n: int)
    requires
        0 <= n <= s.len(),
        hex_value(s.subrange(0, n)) is None,
    ensures
        hex_value(s) is None,
    decreases s.len() - n,
{
    if n < s.len() {
        assert(s.subrange(0, n + 1).drop_last() =~= s.subrange(0, n));
        lemma_hex_value_prefix(s, n + 1);
    } else {
        assert(s.subrange(0, n) =~= s);
    }
}

} // verus!
