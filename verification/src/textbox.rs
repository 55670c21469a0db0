//! Editing of the game's text-input boxes, one key at a time.

use vstd::prelude::*;
use crate::categories::{
    ascii_punctuation, is_letter_lowercase, is_letter_uppercase, is_number_decimal_digit,
    is_punctuation, letter_lowercase, letter_uppercase, number_decimal_digit, punctuation,
};
use vstd::string::StringExecFns;
use crate::text::{last_grapheme, last_grapheme_of, pop_char, push_char};

verus! {

/// The character that the key mapping produces for the backspace key.
pub const BACKSPACE: char = '\u{3}';

/// The character that the key mapping produces for the enter key.
pub const ENTER: char = '\u{1}';

/// An ASCII decimal digit.
pub open spec fn is_ascii_digit(c: char) -> bool {
    48 <= (c as u32) && (c as u32) <= 57
}

/// The value of an ASCII decimal digit.
pub open spec fn digit_value(c: char) -> int {
    (c as u32) - 48
}

/// A numeric input box holding `old`, after the key `c`: backspace drops
/// the last decimal digit; a digit is appended to the decimal text; the
/// box falls back to zero when the text no longer reads as a `u64` (any
/// other character, or a value past `u64::MAX`).
pub open spec fn num_input(old: u64, c: char) -> u64 {
    if c == BACKSPACE {
        old / 10
    } else if is_ascii_digit(c) && old * 10 + digit_value(c) <= u64::MAX {
        (old * 10 + digit_value(c)) as u64
    } else {
        0
    }
}

/// The characters a text box accepts: letters (lower and upper case),
/// decimal digits and punctuation.
pub open spec fn accepted_char(c: char) -> bool {
    letter_lowercase(c) || letter_uppercase(c) || number_decimal_digit(c) || punctuation(c)
}

/// The ASCII characters a text box accepts: `a`..=`z`, `A`..=`Z`,
/// `0`..=`9` and the ASCII punctuation.
pub open spec fn ascii_accepted(c: char) -> bool {
    ||| 'a' <= c && c <= 'z'
    ||| 'A' <= c && c <= 'Z'
    ||| '0' <= c && c <= '9'
    ||| ascii_punctuation(c)
}

/// A text box holding `s`, after the key `c`: backspace removes the last
/// character (if any), an accepted character is appended, anything else is
/// ignored.
pub open spec fn str_input(s: Seq<char>, c: char) -> Seq<char> {
    if c == BACKSPACE {
        if s.len() > 0 {
            s.drop_last()
        } else {
            s
        }
    } else if accepted_char(c) {
        s.push(c)
    } else {
        s
    }
}

pub struct TextBox;

impl TextBox {
    /// The new value of a numeric input box holding `old` after the key `unicode`.
    pub fn process_input_num(old: u64, unicode: char) -> (r: u64)
        ensures
            r == num_input(old, unicode),
    {
        if unicode == BACKSPACE {
            return old / 10;
        }
        let v: u32 = unicode as u32;
        if 48 <= v && v <= 57 {
            let d: u64 = (v - 48) as u64;
            if old <= (u64::MAX - d) / 10 {
                proof {
                    assert(old * 10 + d <= u64::MAX) by (nonlinear_arith)
                        requires
                            old <= (u64::MAX - d) / 10,
                            d <= 9,
                    ;
                }
                old * 10 + d
            } else {
                proof {
                    assert(old * 10 + d > u64::MAX) by (nonlinear_arith)
                        requires
                            old > (u64::MAX - d) / 10,
                            d <= 9,
                    ;
                }
                0
            }
        } else {
            0
        }
    }

    /// Applies the key `unicode` to the text box `text_str` and returns a
    /// copy of the new text.
    pub fn process_input_str(text_str: &mut String, unicode: char) -> (r: String)
        ensures
            final(text_str)@ == str_input(old(text_str)@, unicode),
            r@ == final(text_str)@,
            (unicode as u32) < 128 ==> (accepted_char(unicode) <==> ascii_accepted(unicode)),
    {
        let accepted = is_letter_lowercase(unicode) || is_letter_uppercase(unicode)
            || is_number_decimal_digit(unicode) || is_punctuation(unicode);
        if unicode == BACKSPACE {
            let _ = pop_char(text_str);
        } else if accepted {
            push_char(text_str, unicode);
        }
        text_str.clone()
    }

    /// The text an input box's cursor is as wide as: the last grapheme
    /// cluster of the box's text, or `a` when the box is empty.
    pub fn cursor_text(text: &str) -> (r: String)
        ensures
            text@.len() == 0 ==> r@ == "a"@,
            text@.len() > 0 ==> r@ == last_grapheme(text@),
            text@.len() > 0 ==> 0 < r@.len() <= text@.len() && text@.subrange(
                text@.len() - r@.len(),
                text@.len() as int,
            ) == r@,
    {
        match last_grapheme_of(text) {
            Some(g) => g,
            None => String::from_str("a"),
        }
    }

    /// Adds a typed character to `input`: codes 32 to 125 (printable
    /// ASCII up to `}`) are appended, others ignored.
    pub fn push_key(input: &mut String, key: i32)
        ensures
            32 <= key <= 125 ==> final(input)@ == old(input)@.push(((key as u8) as char)),
            !(32 <= key <= 125) ==> final(input)@ == old(input)@,
    {
        if key >= 32 && key <= 125 {
            let b: u8 = key as u8;
            push_char(input, b as char);
        }
    }
}

/// A backspace undoes the entry of a digit: typing a digit into a numeric
/// box and then backspace gives back the old value, as long as the digit
/// was taken.
pub proof fn lemma_backspace_undoes_digit(old: u64, c: char)
    requires
        is_ascii_digit(c),
        old * 10 + digit_value(c) <= u64::MAX,
    ensures
        num_input(num_input(old, c), BACKSPACE) == old,
{
    let d = digit_value(c);
    assert((old * 10 + d) / 10 == old) by (nonlinear_arith)
        requires
            0 <= d < 10,
    ;
}

/// A backspace undoes the entry of an accepted character in a text box.
pub proof fn lemma_backspace_undoes_char(s: Seq<char>, c: char)
    requires
        accepted_char(c),
        c != BACKSPACE,
    ensures
        str_input(str_input(s, c), BACKSPACE) == s,
{
    assert(s.push(c).drop_last() =~= s);
}

} // verus!
