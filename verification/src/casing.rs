//! Case transformations of file base names: whole-name upper and lower
//! casing, and upper or lower casing of the first letter only. Unicode
//! case mapping itself comes from the standard library; its results are
//! named by uninterpreted spec functions.

use vstd::prelude::*;

verus! {

/// What `str::to_uppercase` returns for a string with these characters.
pub uninterp spec fn upper_of(s: Seq<char>) -> Seq<char>;

/// What `str::to_lowercase` returns for a string with these characters.
pub uninterp spec fn lower_of(s: Seq<char>) -> Seq<char>;

/// What `char::to_uppercase` yields for this character, collected in order.
pub uninterp spec fn char_upper_of(c: char) -> Seq<char>;

/// What `char::to_lowercase` yields for this character, collected in order.
pub uninterp spec fn char_lower_of(c: char) -> Seq<char>;

/// What `char::is_alphabetic` returns for this character.
pub uninterp spec fn is_alpha(c: char) -> bool;

/// Relies on str::to_uppercase: the result is the Unicode uppercase
/// equivalent of the input, a function of the input's characters alone;
/// an empty string stays empty.
#[verifier::external_body]
fn str_to_uppercase(s: &str) -> (r: String)
    ensures
        r@ == upper_of(s@),
        s@.len() == 0 ==> r@.len() == 0,
{
    s.to_uppercase()
}

/// Relies on str::to_lowercase: the result is the Unicode lowercase
/// equivalent of the input, a function of the input's characters alone;
/// an empty string stays empty.
#[verifier::external_body]
fn str_to_lowercase(s: &str) -> (r: String)
    ensures
        r@ == lower_of(s@),
        s@.len() == 0 ==> r@.len() == 0,
{
    s.to_lowercase()
}

/// Relies on char::to_uppercase: it yields the uppercase mapping of the
/// character as one or more characters, a function of the character alone.
#[verifier::external_body]
fn char_to_uppercase(c: char) -> (r: String)
    ensures
        r@ == char_upper_of(c),
        r@.len() >= 1,
{
    c.to_uppercase().collect()
}

/// Relies on char::to_lowercase: it yields the lowercase mapping of the
/// character as one or more characters, a function of the character alone.
#[verifier::external_body]
fn char_to_lowercase(c: char) -> (r: String)
    ensures
        r@ == char_lower_of(c),
        r@.len() >= 1,
{
    c.to_lowercase().collect()
}

/// Relies on char::is_alphabetic: whether the character has the Unicode
/// Alphabetic property, a function of the character alone.
#[verifier::external_body]
fn char_is_alphabetic(c: char) -> (r: bool)
    ensures
        r == is_alpha(c),
{
    c.is_alphabetic()
}

/// The whole base name mapped to uppercase.
pub fn to_uppper_case(s: &str) -> (r: String)
    ensures
        r@ == upper_of(s@),
{
    str_to_uppercase(s)
}

/// The whole base name mapped to lowercase.
pub fn to_lower_case(s: &str) -> (r: String)
    ensures
        r@ == lower_of(s@),
{
    str_to_lowercase(s)
}

/// The base name with an uppercased first letter: empty names and names
/// whose first character is not alphabetic stay unchanged; otherwise the
/// first character's uppercase mapping replaces it and the rest follows
/// unchanged.
pub open spec fn first_letter_upper(s: Seq<char>) -> Seq<char> {
    if s.len() == 0 || !is_alpha(s[0]) {
        s
    } else {
        char_upper_of(s[0]) + s.subrange(1, s.len() as int)
    }
}

/// The base name with a lowercased first letter, otherwise as
/// `first_letter_upper`.
pub open spec fn first_letter_lower(s: Seq<char>) -> Seq<char> {
    if s.len() == 0 || !is_alpha(s[0]) {
        s
    } else {
        char_lower_of(s[0]) + s.subrange(1, s.len() as int)
    }
}

/// Uppercases the first letter of `s`; a name that does not start with
/// an alphabetic character is returned unchanged.
pub fn to_first_letter_upper_case(s: &str) -> (r: String)
    ensures
        r@ == first_letter_upper(s@),
{
    let len = s.unicode_len();
    if len == 0 {
        return s.to_owned();
    }
    let first = s.get_char(0);
    if !char_is_alphabetic(first) {
        return s.to_owned();
    }
    let mapped = char_to_uppercase(first);
    let rest = s.substring_char(1, len);
    let r = mapped.concat(rest);
    proof {
        assert(r@ =~= first_letter_upper(s@));
    }
    r
}

/// Lowercases the first letter of `s`; a name that does not start with
/// an alphabetic character is returned unchanged.
pub fn to_first_letter_lower_case(s: &str) -> (r: String)
    ensures
        r@ == first_letter_lower(s@),
{
    let len = s.unicode_len();
    if len == 0 {
        return s.to_owned();
    }
    let first = s.get_char(0);
    if !char_is_alphabetic(first) {
        return s.to_owned();
    }
    let mapped = char_to_lowercase(first);
    let rest = s.substring_char(1, len);
    let r = mapped.concat(rest);
    proof {
        assert(r@ =~= first_letter_lower(s@));
    }
    r
}

} // verus!
