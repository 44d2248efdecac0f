//! Character and string primitives that the naming rules are built on.

use vstd::prelude::*;
use vstd::string::*;

verus! {

/// Whether a character beyond ASCII has the Unicode `Uppercase` property,
/// as `char::is_uppercase` reports it.
pub uninterp spec fn unicode_is_uppercase(c: char) -> bool;

/// The first character that `char::to_lowercase` yields for a character
/// beyond ASCII.
pub uninterp spec fn unicode_lower_head(c: char) -> char;

/// The first character that `char::to_uppercase` yields for a character
/// beyond ASCII.
pub uninterp spec fn unicode_upper_head(c: char) -> char;

/// The characters of `str::to_lowercase` applied to a string that holds a
/// character beyond ASCII.
pub uninterp spec fn unicode_lowercased(s: Seq<char>) -> Seq<char>;

/// The character lies within ASCII.
pub open spec fn is_ascii_char(c: char) -> bool {
    c <= '\x7f'
}

/// One of the letters `A` to `Z`.
pub open spec fn is_ascii_upper(c: char) -> bool {
    'A' <= c && c <= 'Z'
}

/// One of the letters `a` to `z`.
pub open spec fn is_ascii_lower(c: char) -> bool {
    'a' <= c && c <= 'z'
}

/// The upper-case test of the naming rules: the letters `A` to `Z` within
/// ASCII, the Unicode property beyond it.
pub open spec fn is_upper(c: char) -> bool {
    if is_ascii_char(c) {
        is_ascii_upper(c)
    } else {
        unicode_is_uppercase(c)
    }
}

/// The lower-case form of one character: the first character of its
/// lower-case mapping.
pub open spec fn lower_head(c: char) -> char {
    if is_ascii_char(c) {
        if is_ascii_upper(c) {
            ((c as u8 + 32) as u8) as char
        } else {
            c
        }
    } else {
        unicode_lower_head(c)
    }
}

/// The upper-case form of one character: the first character of its
/// upper-case mapping.
pub open spec fn upper_head(c: char) -> char {
    if is_ascii_char(c) {
        if is_ascii_lower(c) {
            ((c as u8 - 32) as u8) as char
        } else {
            c
        }
    } else {
        unicode_upper_head(c)
    }
}

/// Every character of the string lies within ASCII.
pub open spec fn is_ascii_text(s: Seq<char>) -> bool {
    forall|i: int| 0 <= i < s.len() ==> is_ascii_char(#[trigger] s[i])
}

/// The lower-case form of a whole string: character by character within
/// ASCII, by the Unicode rules for strings beyond it.
pub open spec fn lowercased(s: Seq<char>) -> Seq<char> {
    if is_ascii_text(s) {
        Seq::new(s.len(), |i: int| lower_head(s[i]))
    } else {
        unicode_lowercased(s)
    }
}

/// The three characters that separate words in a file name.
pub open spec fn is_word_break(c: char) -> bool {
    c == ' ' || c == '_' || c == '-'
}

/// `char::is_uppercase`. Within ASCII exactly the letters `A` to `Z` have the
/// `Uppercase` property; beyond ASCII the answer is left to the Unicode tables
/// and only given a name.
#[verifier::external_body]
pub(crate) fn char_is_uppercase(c: char) -> (r: bool)
    ensures
        r == (if is_ascii_char(c) { is_ascii_upper(c) } else { unicode_is_uppercase(c) }),
{
    c.is_uppercase()
}

/// `char::to_lowercase`, of which the first character is kept (the character
/// itself, should the mapping be empty). Within ASCII the mapping turns `A` to
/// `Z` into `a` to `z` and leaves every other character alone; beyond ASCII the
/// result is only given a name.
#[verifier::external_body]
pub(crate) fn char_lower_head(c: char) -> (r: char)
    ensures
        r == (if is_ascii_char(c) { lower_head(c) } else { unicode_lower_head(c) }),
{
    c.to_lowercase().next().unwrap_or(c)
}

/// `char::to_uppercase`, of which the first character is kept (the character
/// itself, should the mapping be empty). Within ASCII the mapping turns `a` to
/// `z` into `A` to `Z` and leaves every other character alone; beyond ASCII the
/// result is only given a name.
#[verifier::external_body]
pub(crate) fn char_upper_head(c: char) -> (r: char)
    ensures
        r == (if is_ascii_char(c) { upper_head(c) } else { unicode_upper_head(c) }),
{
    c.to_uppercase().next().unwrap_or(c)
}

/// `str::to_lowercase`: the lower-case equivalent of a whole string, which
/// depends on the string alone. A string within ASCII has `A` to `Z` turned
/// into `a` to `z` and every other character left alone; of any other string
/// the result is only given a name.
#[verifier::external_body]
pub(crate) fn str_lowercase(s: &str) -> (r: String)
    ensures
        r@ == (if is_ascii_text(s@) { lowercased(s@) } else { unicode_lowercased(s@) }),
{
    s.to_lowercase()
}

/// `String::push`: appends one character.
#[verifier::external_body]
pub(crate) fn push_char(s: &mut String, c: char)
    ensures
        final(s)@ == old(s)@.push(c),
{
    s.push(c)
}

/// The characters of a string, in order.
pub(crate) fn chars_of(s: &str) -> (v: Vec<char>)
    ensures
        v@ == s@,
{
    let n = s.unicode_len();
    let mut v: Vec<char> = Vec::new();
    let mut i: usize = 0;
    while i < n
        invariant
            n == s@.len(),
            i <= n,
            v@ == s@.take(i as int),
        decreases n - i,
    {
        let c = s.get_char(i);
        v.push(c);
        i = i + 1;
        assert(v@ =~= s@.take(i as int));
    }
    assert(s@.take(n as int) =~= s@);
    v
}

/// The string made of the given characters, in order.
pub(crate) fn string_of(v: &Vec<char>) -> (s: String)
    ensures
        s@ == v@,
{
    let mut s = String::new();
    let mut i: usize = 0;
    while i < v.len()
        invariant
            i <= v.len(),
            s@ == v@.take(i as int),
        decreases v.len() - i,
    {
        push_char(&mut s, v[i]);
        i = i + 1;
        assert(s@ =~= v@.take(i as int));
    }
    assert(v@.take(v.len() as int) =~= v@);
    s
}

} // verus!
