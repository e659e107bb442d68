//! Numbers as text.

use vstd::prelude::*;

verus! {

/// The character for one decimal digit.
pub open spec fn digit_char(digit: nat) -> char {
    (48 + digit) as char
}

/// `value` in decimal, without leading zeros.
pub open spec fn decimal(value: nat) -> Seq<char>
    decreases value,
{
    if value < 10 {
        seq![digit_char(value)]
    } else {
        decimal(value / 10).push(digit_char(value % 10))
    }
}

fn digit_text(digit: u64) -> (text: &'static str)
    requires
        digit < 10,
    ensures
        text@ == seq![digit_char(digit as nat)],
{
    proof {
        reveal_strlit("0");
        reveal_strlit("1");
        reveal_strlit("2");
        reveal_strlit("3");
        reveal_strlit("4");
        reveal_strlit("5");
        reveal_strlit("6");
        reveal_strlit("7");
        reveal_strlit("8");
        reveal_strlit("9");
    }
    if digit == 0 {
        "0"
    } else if digit == 1 {
        "1"
    } else if digit == 2 {
        "2"
    } else if digit == 3 {
        "3"
    } else if digit == 4 {
        "4"
    } else if digit == 5 {
        "5"
    } else if digit == 6 {
        "6"
    } else if digit == 7 {
        "7"
    } else if digit == 8 {
        "8"
    } else {
        "9"
    }
}

/// Appends `value` in decimal.
pub fn push_decimal(out: &mut String, value: u64)
    ensures
        final(out)@ == old(out)@ + decimal(value as nat),
    decreases value,
{
    let ghost before = out@;
    if value >= 10 {
        push_decimal(out, value / 10);
        out.append(digit_text(value % 10));
        assert(out@ == before + decimal(value as nat));
    } else {
        out.append(digit_text(value));
    }
}

/// The number that a row of decimal digits spells.
pub open spec fn digits_value(text: Seq<char>) -> nat
    decreases text.len(),
{
    if text.len() == 0 {
        0
    } else {
        10 * digits_value(text.drop_last()) + (text.last() as u32 - '0' as u32) as nat
    }
}

/// A number in decimal is a row of digits that spells it, and does not begin with
/// a zero unless it is one.
pub proof fn law_decimal_reads_back(value: nat)
    ensures
        decimal(value).len() > 0,
        forall|i: int|
            0 <= i < decimal(value).len() ==> '0' as u32 <= #[trigger] decimal(value)[i] as u32
                <= '9' as u32,
        digits_value(decimal(value)) == value,
        value > 0 ==> decimal(value)[0] != '0',
        value == 0 ==> decimal(value) == seq!['0'],
    decreases value,
{
    let text = decimal(value);
    if value >= 10 {
        law_decimal_reads_back(value / 10);
        let shorter = decimal(value / 10);
        assert(text.drop_last() == shorter);
        assert(text[0] == shorter[0]);
        assert forall|i: int| 0 <= i < text.len() implies '0' as u32 <= #[trigger] text[i] as u32
            <= '9' as u32 by {
            if i < shorter.len() {
                assert(text[i] == shorter[i]);
            }
        }
    } else {
        assert(text.drop_last() == Seq::<char>::empty());
        assert(digits_value(text.drop_last()) == 0);
    }
}

/// A decimal digit.
pub open spec fn is_digit(c: char) -> bool {
    '0' as u32 <= c as u32 <= '9' as u32
}

/// A number at the end of a text can be told from what stands before it, if that does
/// not end with a digit.
pub proof fn lemma_number_at_end(s: Seq<char>, x: nat, t: Seq<char>, y: nat)
    requires
        s + decimal(x) == t + decimal(y),
        s.len() > 0 && !is_digit(s.last()),
        t.len() > 0 && !is_digit(t.last()),
    ensures
        x == y,
        s == t,
{
    let text = s + decimal(x);
    law_decimal_reads_back(x);
    law_decimal_reads_back(y);
    assert(text.len() == s.len() + decimal(x).len());
    assert((t + decimal(y)).len() == t.len() + decimal(y).len());
    if s.len() < t.len() {
        assert(text[t.len() - 1] == decimal(x)[t.len() - 1 - s.len()]);
        assert((t + decimal(y))[t.len() - 1] == t.last());
    }
    if t.len() < s.len() {
        assert((t + decimal(y))[s.len() - 1] == decimal(y)[s.len() - 1 - t.len()]);
        assert(text[s.len() - 1] == s.last());
    }
    assert(s == text.take(s.len() as int));
    assert(t == (t + decimal(y)).take(t.len() as int));
    assert(decimal(x) == text.skip(s.len() as int));
    assert(decimal(y) == (t + decimal(y)).skip(t.len() as int));
}

/// The same with a word before the number.
pub proof fn lemma_word_and_number(
    s: Seq<char>,
    x: nat,
    t: Seq<char>,
    y: nat,
    word: Seq<char>,
)
    requires
        s + word + decimal(x) == t + word + decimal(y),
        word.len() > 0 && !is_digit(word.last()),
    ensures
        x == y,
        s == t,
{
    lemma_number_at_end(s + word, x, t + word, y);
    assert((s + word).take((s + word).len() - word.len()) == s);
    assert((t + word).take((t + word).len() - word.len()) == t);
}

} // verus!
