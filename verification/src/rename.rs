//! The plan for one file: its new name, or no change.

use vstd::prelude::*;
use vstd::string::*;
use crate::case::{NamingStyle, styled, kebab_case, apply_style, to_kebab_case};
use crate::config::{Behavior, Config};
use crate::detect::{PathInfo, exe_or_package, is_exe_or_package};
use crate::pattern::{pattern_matches, matches_pattern};
use crate::stamp::{date_prefix_text, get_timestamp_prefix};
use crate::text::{chars_of, string_of};

verus! {

/// The style of the first rule from `i` on whose pattern matches the name.
pub open spec fn first_match(name: Seq<char>, rules: Seq<Behavior>, i: int) -> Option<NamingStyle>
    decreases rules.len() - i,
{
    if 0 <= i < rules.len() {
        if pattern_matches(name, rules[i].pattern@) {
            Some(rules[i].style)
        } else {
            first_match(name, rules, i + 1)
        }
    } else {
        None
    }
}

/// The name with `_` in place of every space.
pub open spec fn spaces_replaced(name: Seq<char>) -> Seq<char> {
    Seq::new(name.len(), |i: int| if name[i] == ' ' { '_' } else { name[i] })
}

/// The name before any prefix: kebab case for an executable or a file of a
/// package; else the style of the first rule that matches; else, where no
/// rule matches, the name with its spaces replaced if the configuration asks
/// for that, and the name itself if not.
pub open spec fn base_name(name: Seq<char>, config: Config, path: PathInfo) -> Seq<char> {
    if exe_or_package(path, config) {
        kebab_case(name)
    } else {
        match first_match(name, config.behaviors@, 0) {
            Some(style) => styled(name, style),
            None => if config.replace_spaces {
                spaces_replaced(name)
            } else {
                name
            },
        }
    }
}

/// The new name of a file: the prefix, then the base name; none where that
/// is the name the file has.
pub open spec fn renamed(name: Seq<char>, config: Config, path: PathInfo, prefix: Seq<char>)
    -> Option<Seq<char>> {
    let full = prefix + base_name(name, config, path);
    if full == name {
        None
    } else {
        Some(full)
    }
}

/// What an optional string holds.
pub open spec fn text_of(r: Option<String>) -> Option<Seq<char>> {
    match r {
        Some(s) => Some(s@),
        None => None,
    }
}

fn first_matching_style(name: &str, rules: &Vec<Behavior>) -> (r: Option<NamingStyle>)
    ensures
        r == first_match(name@, rules@, 0),
{
    let mut i: usize = 0;
    while i < rules.len()
        invariant
            i <= rules@.len(),
            first_match(name@, rules@, 0) == first_match(name@, rules@, i as int),
        decreases rules@.len() - i,
    {
        if matches_pattern(name, rules[i].pattern.as_str()) {
            return Some(rules[i].style);
        }
        i = i + 1;
    }
    None
}

fn replace_spaces(name: &str) -> (r: String)
    ensures
        r@ == spaces_replaced(name@),
{
    let v = chars_of(name);
    let mut out: Vec<char> = Vec::new();
    let mut i: usize = 0;
    while i < v.len()
        invariant
            i <= v@.len(),
            out@ == spaces_replaced(v@).take(i as int),
        decreases v@.len() - i,
    {
        if v[i] == ' ' {
            out.push('_');
        } else {
            out.push(v[i]);
        }
        i = i + 1;
        assert(out@ =~= spaces_replaced(v@).take(i as int));
    }
    assert(spaces_replaced(v@).take(v@.len() as int) =~= spaces_replaced(v@));
    string_of(&out)
}

/// Plans the rename of one file, with the given prefix before the new name
/// (an empty prefix for none).
pub fn format_filename_with(name: &str, config: &Config, path: &PathInfo, prefix: &str) -> (r:
    Option<String>)
    ensures
        text_of(r) == renamed(name@, *config, *path, prefix@),
{
    let base = if is_exe_or_package(path, config) {
        to_kebab_case(name)
    } else {
        match first_matching_style(name, &config.behaviors) {
            Some(style) => apply_style(name, &style),
            None => if config.replace_spaces {
                replace_spaces(name)
            } else {
                name.to_owned()
            },
        }
    };
    let full = prefix.to_owned().concat(base.as_str());
    let same = full == name.to_owned();
    if same {
        None
    } else {
        Some(full)
    }
}

/// Plans the rename of one file. With `timestamp` the new name starts with
/// the prefix for today's date in UTC.
pub fn format_filename(name: &str, config: &Config, path: &PathInfo, timestamp: bool) -> (r:
    Option<String>)
    ensures
        !timestamp ==> text_of(r) == renamed(name@, *config, *path, Seq::empty()),
        timestamp ==> exists|year: int, month: int, day: int|
            1 <= month <= 12 && 1 <= day <= 31 && text_of(r) == renamed(
                name@,
                *config,
                *path,
                #[trigger] date_prefix_text(year, month, day),
            ),
{
    if timestamp {
        let prefix = get_timestamp_prefix();
        format_filename_with(name, config, path, prefix.as_str())
    } else {
        let r = format_filename_with(name, config, path, "");
        proof {
            reveal_strlit("");
            assert(""@ =~= Seq::<char>::empty());
        }
        r
    }
}

/// Detection comes first: for an executable or a file of a package the base
/// name is the name in kebab case, whatever the rules say.
pub proof fn lemma_detection_precedes_rules(name: Seq<char>, config: Config, path: PathInfo)
    requires
        exe_or_package(path, config),
    ensures
        base_name(name, config, path) == kebab_case(name),
{
}

/// The first rule that matches wins: where rule `i` matches the name and no
/// rule before it does, the style applied is that of rule `i`, whatever
/// follows it.
pub proof fn lemma_first_match_wins(name: Seq<char>, config: Config, path: PathInfo, i: int)
    requires
        !exe_or_package(path, config),
        0 <= i < config.behaviors@.len(),
        pattern_matches(name, config.behaviors@[i].pattern@),
        forall|j: int| 0 <= j < i ==> !pattern_matches(name, #[trigger] config.behaviors@[j].pattern@),
    ensures
        base_name(name, config, path) == styled(name, config.behaviors@[i].style),
{
    lemma_first_match_from(name, config.behaviors@, 0, i);
}

proof fn lemma_first_match_from(name: Seq<char>, rules: Seq<Behavior>, from: int, i: int)
    requires
        0 <= from <= i < rules.len(),
        pattern_matches(name, rules[i].pattern@),
        forall|j: int| from <= j < i ==> !pattern_matches(name, #[trigger] rules[j].pattern@),
    ensures
        first_match(name, rules, from) == Some(rules[i].style),
    decreases i - from,
{
    if from < i {
        assert(!pattern_matches(name, rules[from].pattern@));
        lemma_first_match_from(name, rules, from + 1, i);
    }
}

/// Where no rule matches and the name holds no space, the plan without a
/// prefix is no change, whether spaces are to be replaced or not.
pub proof fn lemma_no_change_without_spaces(name: Seq<char>, config: Config, path: PathInfo)
    requires
        !exe_or_package(path, config),
        first_match(name, config.behaviors@, 0) is None,
        forall|i: int| 0 <= i < name.len() ==> name[i] != ' ',
    ensures
        renamed(name, config, path, Seq::empty()) is None,
{
    assert(spaces_replaced(name) =~= name);
    assert(Seq::<char>::empty() + name =~= name);
}

/// A plan is no change exactly where the prefix and the base name together
/// are the name that the file has.
pub proof fn lemma_no_change_iff_same(
    name: Seq<char>,
    config: Config,
    path: PathInfo,
    prefix: Seq<char>,
)
    ensures
        renamed(name, config, path, prefix) is None <==> prefix + base_name(name, config, path)
            == name,
        renamed(name, config, path, prefix) is Some ==> renamed(name, config, path, prefix)
            == Some(prefix + base_name(name, config, path)),
{
}

/// A prefix makes a new name even where the base name is the old one: the
/// plan is then the prefix before the old name.
pub proof fn lemma_prefix_changes_name(
    name: Seq<char>,
    config: Config,
    path: PathInfo,
    prefix: Seq<char>,
)
    requires
        prefix.len() > 0,
        base_name(name, config, path) == name,
    ensures
        renamed(name, config, path, prefix) == Some(prefix + name),
{
    assert((prefix + name).len() == prefix.len() + name.len());
}

/// With a date prefix every plan is a rename: where the base name is the old
/// name, the new one is the date prefix before it.
pub proof fn lemma_date_prefix_changes_name(
    name: Seq<char>,
    config: Config,
    path: PathInfo,
    year: int,
    month: int,
    day: int,
)
    requires
        base_name(name, config, path) == name,
    ensures
        renamed(name, config, path, date_prefix_text(year, month, day)) == Some(
            date_prefix_text(year, month, day) + name,
        ),
{
    lemma_prefix_changes_name(name, config, path, date_prefix_text(year, month, day));
}

} // verus!
