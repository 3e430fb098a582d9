//! The caption of a slide: a fixed prefix and the frame number in decimal.

use vstd::prelude::*;
use vstd::string::StringExecFns;
use rand::rngs::ThreadRng;
use crate::random::uniform;

verus! {

/// Least frame number a slide may carry.
pub const FIRST_FRAME: u32 = 1;

/// Greatest frame number a slide may carry.
pub const LAST_FRAME: u32 = 10000;

/// The text that precedes the frame number.
pub open spec fn caption_prefix() -> Seq<char> {
    "aqua.flv - synthetic frame #"@
}

/// The character for a decimal digit.
pub open spec fn digit_char(d: nat) -> char {
    if d == 0 {
        '0'
    } else if d == 1 {
        '1'
    } else if d == 2 {
        '2'
    } else if d == 3 {
        '3'
    } else if d == 4 {
        '4'
    } else if d == 5 {
        '5'
    } else if d == 6 {
        '6'
    } else if d == 7 {
        '7'
    } else if d == 8 {
        '8'
    } else {
        '9'
    }
}

/// Whether `c` is a decimal digit.
pub open spec fn is_digit(c: char) -> bool {
    exists|d: nat| d < 10 && c == digit_char(d)
}

/// The digit that a character stands for.
pub open spec fn digit_value(c: char) -> nat {
    choose|d: nat| d < 10 && c == digit_char(d)
}

/// `n` in decimal, most significant digit first, without leading zeros.
pub open spec fn decimal_digits(n: nat) -> Seq<char>
    decreases n,
{
    if n < 10 {
        seq![digit_char(n)]
    } else {
        decimal_digits(n / 10).push(digit_char(n % 10))
    }
}

/// The number that a sequence of decimal digits denotes.
pub open spec fn decimal_value(digits: Seq<char>) -> nat
    decreases digits.len(),
{
    if digits.len() == 0 {
        0
    } else {
        10 * decimal_value(digits.drop_last()) + digit_value(digits.last())
    }
}

/// The caption of the slide with frame number `frame`.
pub open spec fn caption_text(frame: nat) -> Seq<char> {
    caption_prefix() + decimal_digits(frame)
}

/// A digit character stands for the digit it was made from.
pub proof fn lemma_digit_value(d: nat)
    requires
        d < 10,
    ensures
        is_digit(digit_char(d)),
        digit_value(digit_char(d)) == d,
{
    let c = digit_char(d);
    let v = digit_value(c);
    assert(v < 10 && c == digit_char(v));
}

/// The decimal form of a number consists of digits only, starts with a zero
/// only for zero itself, and denotes that number.
pub proof fn lemma_decimal_round_trip(n: nat)
    ensures
        decimal_digits(n).len() >= 1,
        forall|i: int| 0 <= i < decimal_digits(n).len() ==> is_digit(#[trigger] decimal_digits(n)[i]),
        n > 0 ==> decimal_digits(n)[0] != '0',
        decimal_value(decimal_digits(n)) == n,
    decreases n,
{
    let digits = decimal_digits(n);
    if n < 10 {
        lemma_digit_value(n);
        assert(digits.drop_last() =~= Seq::<char>::empty());
        assert(decimal_value(digits.drop_last()) == 0);
        assert(digits.last() == digit_char(n));
    } else {
        lemma_decimal_round_trip(n / 10);
        lemma_digit_value(n % 10);
        let front = decimal_digits(n / 10);
        assert(digits.drop_last() =~= front);
        assert(digits.last() == digit_char(n % 10));
        assert(digits[0] == front[0]);
        assert forall|i: int| 0 <= i < digits.len() implies is_digit(#[trigger] digits[i]) by {
            if i < front.len() {
                assert(digits[i] == front[i]);
            }
        }
    }
}

/// Every caption is the prefix followed by the decimal form of its frame
/// number, and the frame number can be read back from it.
pub proof fn lemma_caption_names_frame(frame: nat)
    ensures
        caption_text(frame).subrange(0, caption_prefix().len() as int) == caption_prefix(),
        caption_text(frame).subrange(caption_prefix().len() as int, caption_text(frame).len() as int)
            == decimal_digits(frame),
        decimal_value(decimal_digits(frame)) == frame,
{
    lemma_decimal_round_trip(frame);
    let text = caption_text(frame);
    let cut = caption_prefix().len() as int;
    assert(text.subrange(0, cut) =~= caption_prefix());
    assert(text.subrange(cut, text.len() as int) =~= decimal_digits(frame));
}

/// The one-character string of a decimal digit.
fn digit_str(d: u32) -> (s: &'static str)
    requires
        d < 10,
    ensures
        s@ == seq![digit_char(d as nat)],
{
    proof {
        reveal_strlit("0");
        reveal_strlit("1");
        reveal_strlit("2");
        reveal_strlit("3");
        reveal_strlit("4");
        reveal_strlit("5");
        reveal_strlit("6");
        reveal_strlit("7");
        reveal_strlit("8");
        reveal_strlit("9");
    }
    let s = if d == 0 {
        "0"
    } else if d == 1 {
        "1"
    } else if d == 2 {
        "2"
    } else if d == 3 {
        "3"
    } else if d == 4 {
        "4"
    } else if d == 5 {
        "5"
    } else if d == 6 {
        "6"
    } else if d == 7 {
        "7"
    } else if d == 8 {
        "8"
    } else {
        "9"
    };
    assert(s@ =~= seq![digit_char(d as nat)]);
    s
}

/// `n` in decimal.
pub fn decimal_string(n: u32) -> (s: String)
    ensures
        s@ == decimal_digits(n as nat),
    decreases n,
{
    if n < 10 {
        String::from_str(digit_str(n))
    } else {
        let mut s = decimal_string(n / 10);
        s.append(digit_str(n % 10));
        assert(s@ =~= decimal_digits(n as nat));
        s
    }
}

/// The caption of the slide with frame number `frame`.
pub fn caption(frame: u32) -> (text: String)
    ensures
        text@ == caption_text(frame as nat),
{
    let mut text = String::from_str("aqua.flv - synthetic frame #");
    let number = decimal_string(frame);
    text.append(number.as_str());
    text
}

/// Draws a frame number between `FIRST_FRAME` and `LAST_FRAME`, each equally
/// likely.
pub fn random_frame_number(rng: &mut ThreadRng) -> (frame: u32)
    ensures
        FIRST_FRAME <= frame <= LAST_FRAME,
{
    uniform(rng, FIRST_FRAME, LAST_FRAME)
}

} // verus!
