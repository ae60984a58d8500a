//! The identifier validator: a captured parameter name must be a legal
//! identifier, starting with a letter and continuing with letters, digits
//! or underscores.

use vstd::prelude::*;
use crate::chars::str_to_chars;

verus! {

/// `c` is an ASCII letter.
pub open spec fn is_alpha(c: char) -> bool {
    ('a' <= c && c <= 'z') || ('A' <= c && c <= 'Z')
}

/// `c` is an ASCII decimal digit.
pub open spec fn is_digit(c: char) -> bool {
    '0' <= c && c <= '9'
}

/// `c` may appear in an identifier after its first character.
pub open spec fn is_ident_char(c: char) -> bool {
    is_alpha(c) || is_digit(c) || c == '_'
}

/// A legal identifier: non-empty, begins with a letter, and every later
/// character is a letter, a digit or an underscore.
pub open spec fn valid_identifier(s: Seq<char>) -> bool {
    &&& s.len() > 0
    &&& is_alpha(s[0])
    &&& forall|i: int| 1 <= i < s.len() ==> is_ident_char(#[trigger] s[i])
}

fn exec_is_alpha(c: char) -> (r: bool)
    ensures
        r == is_alpha(c),
{
    ('a' <= c && c <= 'z') || ('A' <= c && c <= 'Z')
}

fn exec_is_ident_char(c: char) -> (r: bool)
    ensures
        r == is_ident_char(c),
{
    exec_is_alpha(c) || ('0' <= c && c <= '9') || c == '_'
}

/// Decides whether the characters `name` form a legal identifier.
pub fn chars_valid_identifier(name: &Vec<char>) -> (r: bool)
    ensures
        r == valid_identifier(name@),
{
    if name.len() == 0 {
        return false;
    }
    if !exec_is_alpha(name[0]) {
        return false;
    }
    let mut i: usize = 1;
    while i < name.len()
        invariant
            1 <= i <= name@.len(),
            is_alpha(name@[0]),
            forall|j: int| 1 <= j < i ==> is_ident_char(#[trigger] name@[j]),
        decreases name@.len() - i,
    {
        if !exec_is_ident_char(name[i]) {
            return false;
        }
        i = i + 1;
    }
    true
}

/// Decides whether `name` is a legal identifier.
pub fn is_valid_identifier(name: &str) -> (r: bool)
    ensures
        r == valid_identifier(name@),
{
    let v = str_to_chars(name);
    chars_valid_identifier(&v)
}

} // verus!
