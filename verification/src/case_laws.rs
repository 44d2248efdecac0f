//! What holds of the naming styles: idempotence and the placing of separators.

use vstd::prelude::*;
use crate::text::{is_ascii_char, is_upper, lower_head, is_word_break};
use crate::text::{is_ascii_text, upper_head, lowercased};
use crate::text::{char_is_uppercase, char_lower_head, chars_of};
use crate::case::{delimit_step, delimited, snake_case, kebab_case};
use crate::case::{word_start, word_end, later_words, camel_case};

verus! {

/// A separator together with the other separator that its style removes.
pub open spec fn style_pair(sep: char, alt: char) -> bool {
    (sep == '_' && alt == '-') || (sep == '-' && alt == '_')
}

/// Lower-casing settles the character: if it is upper-case, its lower-case
/// form is no word break, and is either not upper-case or its own lower-case
/// form. Every ASCII character is such a character.
pub open spec fn lowers_cleanly(c: char) -> bool {
    is_upper(c) ==> {
        let l = lower_head(c);
        !is_word_break(l) && (is_upper(l) ==> lower_head(l) == l)
    }
}

/// Every character of the name lowers cleanly.
pub open spec fn all_lower_cleanly(s: Seq<char>) -> bool {
    forall|i: int| 0 <= i < s.len() ==> lowers_cleanly(#[trigger] s[i])
}

/// Tests whether every character of a name lowers cleanly, which is what
/// the guarantees of snake case and kebab case ask of a name.
pub fn lowers_cleanly_throughout(name: &str) -> (r: bool)
    ensures
        r == all_lower_cleanly(name@),
{
    let v = chars_of(name);
    let mut i: usize = 0;
    while i < v.len()
        invariant
            i <= v@.len(),
            v@ == name@,
            forall|k: int| 0 <= k < i ==> lowers_cleanly(#[trigger] v@[k]),
        decreases v@.len() - i,
    {
        let c = v[i];
        if char_is_uppercase(c) {
            let l = char_lower_head(c);
            let broken = l == ' ' || l == '_' || l == '-';
            if broken || (char_is_uppercase(l) && char_lower_head(l) != l) {
                assert(!lowers_cleanly(v@[i as int]));
                return false;
            }
        }
        i = i + 1;
    }
    true
}

/// Every separator `sep` in `s` follows a character that is no word break.
pub open spec fn separators_anchored(s: Seq<char>, sep: char) -> bool {
    forall|i: int|
        0 <= i < s.len() && #[trigger] s[i] == sep ==> i > 0 && !is_word_break(s[i - 1])
}

/// No separator at the front, and no two in a row.
pub open spec fn well_separated(t: Seq<char>, sep: char) -> bool {
    &&& t.len() > 0 ==> t[0] != sep
    &&& forall|k: int| 0 <= k < t.len() - 1 ==> !(#[trigger] t[k] == sep && t[k + 1] == sep)
}

/// A name that the style leaves as it is: no space and no foreign separator,
/// and every upper-case character is its own lower-case form and stands at
/// the front or behind a separator.
pub open spec fn settled(t: Seq<char>, sep: char, alt: char) -> bool {
    forall|k: int|
        0 <= k < t.len() ==> {
            &&& #[trigger] t[k] != ' '
            &&& t[k] != alt
            &&& is_upper(t[k]) ==> (k == 0 || t[k - 1] == sep) && lower_head(t[k]) == t[k]
        }
}

/// Every ASCII character lowers cleanly.
pub proof fn lemma_ascii_lowers_cleanly(c: char)
    requires
        is_ascii_char(c),
    ensures
        lowers_cleanly(c),
{
}

/// Every character of a name within ASCII lowers cleanly.
pub proof fn lemma_ascii_text_lowers_cleanly(s: Seq<char>)
    requires
        is_ascii_text(s),
    ensures
        all_lower_cleanly(s),
{
    assert forall|i: int| 0 <= i < s.len() implies lowers_cleanly(#[trigger] s[i]) by {
        lemma_ascii_lowers_cleanly(s[i]);
    }
}

proof fn lemma_delimited_settled(s: Seq<char>, sep: char, alt: char)
    requires
        style_pair(sep, alt),
        all_lower_cleanly(s),
    ensures
        settled(delimited(s, sep, alt), sep, alt),
    decreases s.len(),
{
    if s.len() > 0 {
        let acc = delimited(s.drop_last(), sep, alt);
        lemma_delimited_settled(s.drop_last(), sep, alt);
        let c = s.last();
        assert(lowers_cleanly(c));
        let t = delimit_step(acc, c, sep, alt);
        assert forall|k: int| 0 <= k < t.len() implies {
            &&& #[trigger] t[k] != ' '
            &&& t[k] != alt
            &&& is_upper(t[k]) ==> (k == 0 || t[k - 1] == sep) && lower_head(t[k]) == t[k]
        } by {
            if k < acc.len() {
                assert(t[k] == acc[k]);
                if k > 0 {
                    assert(t[k - 1] == acc[k - 1]);
                }
            }
        }
    }
}

proof fn lemma_settled_fixed(t: Seq<char>, sep: char, alt: char)
    requires
        style_pair(sep, alt),
        settled(t, sep, alt),
    ensures
        delimited(t, sep, alt) == t,
    decreases t.len(),
{
    if t.len() > 0 {
        let front = t.drop_last();
        assert forall|k: int| 0 <= k < front.len() implies {
            &&& #[trigger] front[k] != ' '
            &&& front[k] != alt
            &&& is_upper(front[k]) ==> (k == 0 || front[k - 1] == sep) && lower_head(front[k])
                == front[k]
        } by {
            assert(front[k] == t[k]);
            if k > 0 {
                assert(front[k - 1] == t[k - 1]);
            }
        }
        lemma_settled_fixed(front, sep, alt);
        let k = t.len() - 1;
        assert(t[k] == t.last());
        assert(delimited(t, sep, alt) =~= t);
    } else {
        assert(delimited(t, sep, alt) =~= t);
    }
}

proof fn lemma_delimited_well_separated(s: Seq<char>, sep: char, alt: char)
    requires
        style_pair(sep, alt),
        all_lower_cleanly(s),
        separators_anchored(s, sep),
    ensures
        well_separated(delimited(s, sep, alt), sep),
        s.len() > 0 && !is_word_break(s.last()) ==> delimited(s, sep, alt).len() > 0
            && delimited(s, sep, alt).last() != sep,
    decreases s.len(),
{
    if s.len() > 0 {
        let front = s.drop_last();
        assert forall|i: int| 0 <= i < front.len() && #[trigger] front[i] == sep implies i > 0
            && !is_word_break(front[i - 1]) by {
            assert(s[i] == sep);
        }
        assert forall|i: int| 0 <= i < front.len() implies lowers_cleanly(#[trigger] front[i]) by {
            assert(lowers_cleanly(s[i]));
        }
        lemma_delimited_well_separated(front, sep, alt);
        let acc = delimited(front, sep, alt);
        let c = s.last();
        assert(lowers_cleanly(c));
        let t = delimit_step(acc, c, sep, alt);
        if c == sep {
            let i = s.len() - 1;
            assert(s[i] == sep);
            assert(front.last() == s[i - 1]);
        }
        assert forall|k: int| 0 <= k < t.len() - 1 implies !(#[trigger] t[k] == sep && t[k + 1]
            == sep) by {
            if k + 1 < acc.len() {
                assert(t[k] == acc[k]);
                assert(t[k + 1] == acc[k + 1]);
            }
        }
    }
}

/// Snake case is idempotent: a name already converted converts to itself.
pub proof fn lemma_snake_case_idempotent(s: Seq<char>)
    requires
        all_lower_cleanly(s),
    ensures
        snake_case(snake_case(s)) == snake_case(s),
{
    lemma_delimited_settled(s, '_', '-');
    lemma_settled_fixed(snake_case(s), '_', '-');
}

/// Kebab case is idempotent: a name already converted converts to itself.
pub proof fn lemma_kebab_case_idempotent(s: Seq<char>)
    requires
        all_lower_cleanly(s),
    ensures
        kebab_case(kebab_case(s)) == kebab_case(s),
{
    lemma_delimited_settled(s, '-', '_');
    lemma_settled_fixed(kebab_case(s), '-', '_');
}

proof fn lemma_delimited_grows(s: Seq<char>, i: int, sep: char, alt: char)
    requires
        0 <= i <= s.len(),
    ensures
        delimited(s.take(i), sep, alt).len() <= delimited(s, sep, alt).len(),
        forall|k: int|
            0 <= k < delimited(s.take(i), sep, alt).len() ==> delimited(s, sep, alt)[k]
                == #[trigger] delimited(s.take(i), sep, alt)[k],
    decreases s.len(),
{
    if i == s.len() {
        assert(s.take(i) =~= s);
    } else {
        assert(s.drop_last().take(i) =~= s.take(i));
        lemma_delimited_grows(s.drop_last(), i, sep, alt);
    }
}

proof fn lemma_unanchored_separator_shows(s: Seq<char>, i: int, sep: char, alt: char)
    requires
        style_pair(sep, alt),
        0 <= i < s.len(),
        s[i] == sep,
        i == 0 || is_word_break(s[i - 1]),
    ensures
        !well_separated(delimited(s, sep, alt), sep),
{
    let q = s.take(i);
    let p = s.take(i + 1);
    assert(p.drop_last() =~= q);
    assert(p.last() == sep);
    let acc = delimited(q, sep, alt);
    if i > 0 {
        assert(q.drop_last() =~= s.take(i - 1));
        assert(q.last() == s[i - 1]);
    }
    assert(acc.len() == 0 || acc.last() == sep);
    let r = delimited(p, sep, alt);
    assert(r =~= acc.push(sep));
    lemma_delimited_grows(s, i + 1, sep, alt);
    let t = delimited(s, sep, alt);
    if acc.len() == 0 {
        assert(t[0] == r[0]);
    } else {
        let k = acc.len() - 1;
        assert(t[k] == r[k]);
        assert(t[k + 1] == r[k + 1]);
    }
}

proof fn lemma_well_separated_iff(s: Seq<char>, sep: char, alt: char)
    requires
        style_pair(sep, alt),
        all_lower_cleanly(s),
    ensures
        well_separated(delimited(s, sep, alt), sep) <==> separators_anchored(s, sep),
{
    if separators_anchored(s, sep) {
        lemma_delimited_well_separated(s, sep, alt);
    } else {
        let i = choose|i: int| 0 <= i < s.len() && #[trigger] s[i] == sep && !(i > 0 && !is_word_break(s[i - 1]));
        lemma_unanchored_separator_shows(s, i, sep, alt);
    }
}

/// A name in snake case starts with no `_` and holds no two in a row, if and
/// only if every `_` that the name came with followed a character of a word:
/// a `_` of the name itself is kept wherever it stands.
pub proof fn lemma_snake_case_well_separated(s: Seq<char>)
    requires
        all_lower_cleanly(s),
    ensures
        well_separated(snake_case(s), '_') <==> separators_anchored(s, '_'),
{
    lemma_well_separated_iff(s, '_', '-');
}

/// A name in kebab case starts with no `-` and holds no two in a row, if and
/// only if every `-` that the name came with followed a character of a word:
/// a `-` of the name itself is kept wherever it stands.
pub proof fn lemma_kebab_case_well_separated(s: Seq<char>)
    requires
        all_lower_cleanly(s),
    ensures
        well_separated(kebab_case(s), '-') <==> separators_anchored(s, '-'),
{
    lemma_well_separated_iff(s, '-', '_');
}

/// The name holds none of the three word breaks.
pub open spec fn unbroken(t: Seq<char>) -> bool {
    forall|k: int| 0 <= k < t.len() ==> !is_word_break(#[trigger] t[k])
}

proof fn lemma_unbroken_is_one_word(t: Seq<char>, i: int)
    requires
        unbroken(t),
        0 <= i <= t.len(),
    ensures
        word_end(t, i) == t.len(),
    decreases t.len() - i,
{
    if i < t.len() {
        assert(!is_word_break(t[i]));
        lemma_unbroken_is_one_word(t, i + 1);
    }
}

proof fn lemma_word_is_unbroken(s: Seq<char>, i: int)
    requires
        0 <= i <= s.len(),
    ensures
        i <= word_end(s, i) <= s.len(),
        forall|k: int| i <= k < word_end(s, i) ==> !is_word_break(#[trigger] s[k]),
    decreases s.len() - i,
{
    if i < s.len() && !is_word_break(s[i]) {
        lemma_word_is_unbroken(s, i + 1);
    }
}

proof fn lemma_word_start_in_range(s: Seq<char>, i: int)
    requires
        0 <= i <= s.len(),
    ensures
        i <= word_start(s, i) <= s.len(),
    decreases s.len() - i,
{
    if i < s.len() && is_word_break(s[i]) {
        lemma_word_start_in_range(s, i + 1);
    }
}

proof fn lemma_ascii_later_words_unbroken(s: Seq<char>, from: int, upto: int)
    requires
        is_ascii_text(s),
        0 <= from,
        upto <= s.len(),
    ensures
        unbroken(later_words(s, from, upto)),
    decreases upto - from,
{
    if upto > from {
        lemma_ascii_later_words_unbroken(s, from, upto - 1);
        let c = s[upto - 1];
        assert(!is_word_break(c) ==> !is_word_break(upper_head(c)));
    }
}

/// Camel case of a name within ASCII holds no word break.
pub proof fn lemma_ascii_camel_case_unbroken(s: Seq<char>)
    requires
        is_ascii_text(s),
    ensures
        unbroken(camel_case(s)),
{
    let a = word_start(s, 0);
    lemma_word_start_in_range(s, 0);
    if a < s.len() {
        let b = word_end(s, a);
        lemma_word_is_unbroken(s, a);
        let word = s.subrange(a, b);
        assert(is_ascii_text(word)) by {
            assert forall|i: int| 0 <= i < word.len() implies is_ascii_char(#[trigger] word[i]) by {
                assert(word[i] == s[a + i]);
            }
        }
        let low = lowercased(word);
        assert forall|k: int| 0 <= k < low.len() implies !is_word_break(#[trigger] low[k]) by {
            assert(word[k] == s[a + k]);
            assert(!is_word_break(s[a + k]));
        }
        let rest = later_words(s, b, s.len() as int);
        lemma_ascii_later_words_unbroken(s, b, s.len() as int);
        let t = low + rest;
        assert forall|k: int| 0 <= k < t.len() implies !is_word_break(#[trigger] t[k]) by {
            if k < low.len() {
                assert(t[k] == low[k]);
            } else {
                assert(t[k] == rest[k - low.len()]);
            }
        }
    }
}

/// Camel case of a name without word breaks is the name lower-cased as a
/// whole.
pub proof fn lemma_camel_case_of_one_word(t: Seq<char>)
    requires
        unbroken(t),
        t.len() > 0,
    ensures
        camel_case(t) == lowercased(t),
{
    assert(!is_word_break(t[0]));
    assert(word_start(t, 0) == 0);
    lemma_unbroken_is_one_word(t, 0);
    assert(t.subrange(0, t.len() as int) =~= t);
    assert(later_words(t, t.len() as int, t.len() as int) =~= Seq::<char>::empty());
    assert(lowercased(t) + Seq::<char>::empty() =~= lowercased(t));
}

/// Camel case applied twice lower-cases what it gave the first time, so it
/// is idempotent on the names whose camel case is all lower-case, and on no
/// others: the upper-case letter that starts a later word does not outlast
/// a second application. Stated of the names whose camel case holds no word
/// break.
pub proof fn lemma_camel_case_twice(s: Seq<char>)
    requires
        unbroken(camel_case(s)),
    ensures
        camel_case(s).len() > 0 ==> camel_case(camel_case(s)) == lowercased(camel_case(s)),
        camel_case(s).len() == 0 ==> camel_case(camel_case(s)) == camel_case(s),
        camel_case(camel_case(s)) == camel_case(s) <==> (camel_case(s).len() == 0 || lowercased(
            camel_case(s),
        ) == camel_case(s)),
{
    let t = camel_case(s);
    if t.len() > 0 {
        lemma_camel_case_of_one_word(t);
    } else {
        assert(word_start(t, 0) == 0);
    }
}

} // verus!
