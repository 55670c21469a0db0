//! Unicode general-category queries, answered by the `unicode_categories`
//! crate's tables. Beyond the ASCII range the answers are only named, not
//! stated.

use unicode_categories::UnicodeCategories;
use vstd::prelude::*;

verus! {

/// Whether `c` is in the "Letter, Lowercase" (Ll) category.
pub uninterp spec fn letter_lowercase(c: char) -> bool;

/// Whether `c` is in the "Letter, Uppercase" (Lu) category.
pub uninterp spec fn letter_uppercase(c: char) -> bool;

/// Whether `c` is in the "Number, Decimal Digit" (Nd) category.
pub uninterp spec fn number_decimal_digit(c: char) -> bool;

/// Whether `c` is in one of the punctuation categories (Pc, Pd, Pe, Pf,
/// Pi, Po, Ps).
pub uninterp spec fn punctuation(c: char) -> bool;

/// The ASCII characters of the punctuation categories.
pub open spec fn ascii_punctuation(c: char) -> bool {
    ||| c == '!' || c == '"' || c == '#' || c == '%' || c == '&' || c == '\''
    ||| c == '(' || c == ')' || c == '*' || c == ',' || c == '-' || c == '.'
    ||| c == '/' || c == ':' || c == ';' || c == '?' || c == '@' || c == '['
    ||| c == '\\' || c == ']' || c == '_' || c == '{' || c == '}'
}

/// `UnicodeCategories::is_letter_lowercase`: a binary search of the
/// crate's Ll table. Claimed: the result is the named Ll membership, and
/// among ASCII characters exactly `a`..=`z` are in the table.
#[verifier::external_body]
pub(crate) fn is_letter_lowercase(c: char) -> (r: bool)
    ensures
        r == letter_lowercase(c),
        (c as u32) < 128 ==> (r <==> ('a' <= c && c <= 'z')),
{
    c.is_letter_lowercase()
}

/// `UnicodeCategories::is_letter_uppercase`: a binary search of the
/// crate's Lu table. Claimed: the result is the named Lu membership, and
/// among ASCII characters exactly `A`..=`Z` are in the table.
#[verifier::external_body]
pub(crate) fn is_letter_uppercase(c: char) -> (r: bool)
    ensures
        r == letter_uppercase(c),
        (c as u32) < 128 ==> (r <==> ('A' <= c && c <= 'Z')),
{
    c.is_letter_uppercase()
}

/// `UnicodeCategories::is_number_decimal_digit`: a binary search of the
/// crate's Nd table. Claimed: the result is the named Nd membership, and
/// among ASCII characters exactly `0`..=`9` are in the table.
#[verifier::external_body]
pub(crate) fn is_number_decimal_digit(c: char) -> (r: bool)
    ensures
        r == number_decimal_digit(c),
        (c as u32) < 128 ==> (r <==> ('0' <= c && c <= '9')),
{
    c.is_number_decimal_digit()
}

/// `UnicodeCategories::is_punctuation`: the disjunction of the crate's
/// seven punctuation tables. Claimed: the result is the named membership,
/// and among ASCII characters exactly those of `ascii_punctuation` are in
/// the tables.
#[verifier::external_body]
pub(crate) fn is_punctuation(c: char) -> (r: bool)
    ensures
        r == punctuation(c),
        (c as u32) < 128 ==> (r <==> ascii_punctuation(c)),
{
    c.is_punctuation()
}

} // verus!
