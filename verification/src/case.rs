//! The three naming styles.

use vstd::prelude::*;
use vstd::string::*;
use crate::text::{is_upper, lower_head, upper_head, is_word_break, lowercased};
use crate::text::{char_is_uppercase, char_lower_head, char_upper_head, str_lowercase, push_char, chars_of, string_of};

verus! {

/// What one character adds to a delimited name built so far. `sep` is the
/// style's separator, `alt` the other separator that the style removes.
pub open spec fn delimit_step(acc: Seq<char>, c: char, sep: char, alt: char) -> Seq<char> {
    let open = acc.len() > 0 && acc.last() != sep;
    let broken = if open { acc.push(sep) } else { acc };
    if is_upper(c) {
        broken.push(lower_head(c))
    } else if c == ' ' || c == alt {
        broken
    } else {
        acc.push(c)
    }
}

/// A name in a delimited style: the characters are taken from left to right,
/// each adding to the result what `delimit_step` says.
pub open spec fn delimited(s: Seq<char>, sep: char, alt: char) -> Seq<char>
    decreases s.len(),
{
    if s.len() == 0 {
        Seq::empty()
    } else {
        delimit_step(delimited(s.drop_last(), sep, alt), s.last(), sep, alt)
    }
}

/// A name in snake case: words joined by `_`, which also replaces spaces
/// and `-`.
pub open spec fn snake_case(s: Seq<char>) -> Seq<char> {
    delimited(s, '_', '-')
}

/// A name in kebab case: words joined by `-`, which also replaces spaces
/// and `_`.
pub open spec fn kebab_case(s: Seq<char>) -> Seq<char> {
    delimited(s, '-', '_')
}

/// Builds the delimited form of a name, one character at a time.
fn delimit(s: &Vec<char>, sep: char, alt: char) -> (out: Vec<char>)
    ensures
        out@ == delimited(s@, sep, alt),
{
    let mut out: Vec<char> = Vec::new();
    let mut i: usize = 0;
    while i < s.len()
        invariant
            i <= s.len(),
            out@ == delimited(s@.take(i as int), sep, alt),
        decreases s.len() - i,
    {
        let c = s[i];
        let open = out.len() > 0 && out[out.len() - 1] != sep;
        proof {
            assert(s@.take(i + 1).drop_last() =~= s@.take(i as int));
        }
        if char_is_uppercase(c) {
            if open {
                out.push(sep);
            }
            out.push(char_lower_head(c));
        } else if c == ' ' || c == alt {
            if open {
                out.push(sep);
            }
        } else {
            out.push(c);
        }
        i = i + 1;
    }
    assert(s@.take(s.len() as int) =~= s@);
    out
}

/// Converts a name to snake case.
pub fn to_snake_case(s: &str) -> (r: String)
    ensures
        r@ == snake_case(s@),
{
    let v = chars_of(s);
    let out = delimit(&v, '_', '-');
    string_of(&out)
}

/// Converts a name to kebab case.
pub fn to_kebab_case(s: &str) -> (r: String)
    ensures
        r@ == kebab_case(s@),
{
    let v = chars_of(s);
    let out = delimit(&v, '-', '_');
    string_of(&out)
}

/// Where the word break that starts at `i` ends: the first position from `i`
/// on that holds no separator, or the length.
pub open spec fn word_start(s: Seq<char>, i: int) -> int
    decreases s.len() - i,
{
    if 0 <= i < s.len() && is_word_break(s[i]) {
        word_start(s, i + 1)
    } else {
        i
    }
}

/// Where the word that starts at `i` ends: the first position from `i` on
/// that holds a separator, or the length.
pub open spec fn word_end(s: Seq<char>, i: int) -> int
    decreases s.len() - i,
{
    if 0 <= i < s.len() && !is_word_break(s[i]) {
        word_end(s, i + 1)
    } else {
        i
    }
}

/// The words that lie in `s` between `from` and `upto`, joined: separators
/// are dropped, a character that follows a separator is upper-cased, every
/// other character is kept.
pub open spec fn later_words(s: Seq<char>, from: int, upto: int) -> Seq<char>
    decreases upto - from,
{
    if upto <= from {
        Seq::empty()
    } else {
        let before = later_words(s, from, upto - 1);
        let c = s[upto - 1];
        if is_word_break(c) {
            before
        } else if is_word_break(s[upto - 2]) {
            before.push(upper_head(c))
        } else {
            before.push(c)
        }
    }
}

/// A name in camel case: the first word lower-cased as a whole, then every
/// later word with its first character upper-cased and the rest untouched.
pub open spec fn camel_case(s: Seq<char>) -> Seq<char> {
    let a = word_start(s, 0);
    let b = word_end(s, a);
    if a >= s.len() {
        Seq::empty()
    } else {
        lowercased(s.subrange(a, b)) + later_words(s, b, s.len() as int)
    }
}

fn is_break(c: char) -> (r: bool)
    ensures
        r == is_word_break(c),
{
    c == ' ' || c == '_' || c == '-'
}

/// Converts a name to camel case.
pub fn to_camel_case(s: &str) -> (r: String)
    ensures
        r@ == camel_case(s@),
{
    let v = chars_of(s);
    let n = v.len();
    let mut a: usize = 0;
    while a < n && is_break(v[a])
        invariant
            a <= n,
            n == v@.len(),
            word_start(v@, 0) == word_start(v@, a as int),
        decreases n - a,
    {
        a = a + 1;
    }
    if a >= n {
        return String::new();
    }
    let mut b: usize = a;
    while b < n && !is_break(v[b])
        invariant
            a <= b <= n,
            n == v@.len(),
            word_end(v@, a as int) == word_end(v@, b as int),
        decreases n - b,
    {
        b = b + 1;
    }
    let first = s.substring_char(a, b);
    let mut out = str_lowercase(first);
    let mut i: usize = b;
    while i < n
        invariant
            a < b <= i <= n,
            n == v@.len(),
            b < n ==> is_word_break(v@[b as int]),
            out@ == lowercased(v@.subrange(a as int, b as int)) + later_words(v@, b as int, i as int),
        decreases n - i,
    {
        let c = v[i];
        if !is_break(c) {
            if is_break(v[i - 1]) {
                push_char(&mut out, char_upper_head(c));
            } else {
                push_char(&mut out, c);
            }
        }
        i = i + 1;
        assert(out@ =~= lowercased(v@.subrange(a as int, b as int)) + later_words(
            v@,
            b as int,
            i as int,
        ));
    }
    out
}

/// The naming styles that a rule can ask for.
#[derive(Clone, Copy, Debug, PartialEq, Eq)]
pub enum NamingStyle {
    CamelCase,
    SnakeCase,
    KebabCase,
}

/// A name in the given style.
pub open spec fn styled(s: Seq<char>, style: NamingStyle) -> Seq<char> {
    match style {
        NamingStyle::CamelCase => camel_case(s),
        NamingStyle::SnakeCase => snake_case(s),
        NamingStyle::KebabCase => kebab_case(s),
    }
}

/// Converts a name to the given style.
pub fn apply_style(name: &str, style: &NamingStyle) -> (r: String)
    ensures
        r@ == styled(name@, *style),
{
    match style {
        NamingStyle::CamelCase => to_camel_case(name),
        NamingStyle::SnakeCase => to_snake_case(name),
        NamingStyle::KebabCase => to_kebab_case(name),
    }
}

} // verus!
