//! Character classes used by the tokenizer, and the few standard-library
//! string operations the crate relies on.

use vstd::prelude::*;

verus! {

/// Whether `char::is_alphanumeric` holds of `c`: a Unicode letter or digit.
pub uninterp spec fn alphanumeric(c: char) -> bool;

/// Relies on `char::is_alphanumeric`: true exactly for Unicode letters and digits.
#[verifier::external_body]
pub(crate) fn is_alphanumeric_char(c: char) -> (r: bool)
    ensures
        r == alphanumeric(c),
{
    c.is_alphanumeric()
}

/// The uppercase form of a character sequence, as `str::to_uppercase` computes
/// it; the result depends on the characters alone.
pub uninterp spec fn upper_of(s: Seq<char>) -> Seq<char>;

/// Relies on `str::to_uppercase`: the Unicode uppercase mapping of the string,
/// a function of its characters alone.
#[verifier::external_body]
pub(crate) fn to_upper(s: &str) -> (r: String)
    ensures
        r@ == upper_of(s@),
{
    s.to_uppercase()
}

/// Relies on `String::push`: appends the character to the end of the string.
#[verifier::external_body]
pub(crate) fn push_char(s: &mut String, c: char)
    ensures
        final(s)@ == old(s)@.push(c),
{
    s.push(c);
}

/// Whitespace skipped by the tokenizer.
pub open spec fn ws_char(c: char) -> bool {
    c == ' ' || c == '\t' || c == '\n' || c == '\r'
}

/// Punctuation emitted as a one-character token.
pub open spec fn punct_char(c: char) -> bool {
    c == '(' || c == ')' || c == ',' || c == ';'
}

/// Quote characters that open a string literal.
pub open spec fn quote_char(c: char) -> bool {
    c == '\'' || c == '"'
}

/// Characters that form operator runs.
pub open spec fn op_char(c: char) -> bool {
    c == '!' || c == '=' || c == '<' || c == '>'
}

/// Characters the tokenizer classifies before it ever reaches the
/// identifier rule; none of them is a Unicode letter or digit.
pub open spec fn separator_char(c: char) -> bool {
    ws_char(c) || punct_char(c) || quote_char(c) || op_char(c)
}

/// Characters that form identifier/keyword/number runs: alphanumerics and
/// underscore.  Separators are classified by the earlier tokenizer rules, so
/// they are excluded here by construction.
pub open spec fn word_char(c: char) -> bool {
    !separator_char(c) && (alphanumeric(c) || c == '_')
}

/// Executable test for `op_char`.
pub(crate) fn is_op_char(c: char) -> (r: bool)
    ensures
        r == op_char(c),
{
    c == '!' || c == '=' || c == '<' || c == '>'
}

/// Executable test for `word_char`.
pub(crate) fn is_word_char(c: char) -> (r: bool)
    ensures
        r == word_char(c),
{
    if c == ' ' || c == '\t' || c == '\n' || c == '\r' || c == '(' || c == ')' || c == ','
        || c == ';' || c == '\'' || c == '"' || c == '!' || c == '=' || c == '<' || c == '>' {
        false
    } else {
        is_alphanumeric_char(c) || c == '_'
    }
}

/// Whether a token's text equals a keyword, compared character by character.
pub(crate) fn tok_eq(t: &String, w: &str) -> (r: bool)
    ensures
        r == (t@ == w@),
{
    *t == w.to_owned()
}

} // verus!
