//! Expansion of `~` and of a leading `$NAME` in a path being completed.
use vstd::prelude::*;
use vstd::string::StrSliceExecFns;
use vstd::string::StringExecFns;

use crate::re::{compile, first_group, find_first_group, regex_compiles, regex_replace_all, replace_all};

verus! {

/// The `i`-th of the patterns of a `~` that stands for the home directory:
/// between spaces, before a `/`, at the start before a `/`, and at the end.
pub open spec fn home_pattern(i: int) -> Seq<char> {
    if i == 0 {
        "(?P<head> +)~(?P<tail> +)"@
    } else if i == 1 {
        "(?P<head> +)~(?P<tail>/)"@
    } else if i == 2 {
        "^(?P<head> *)~(?P<tail>/)"@
    } else {
        "(?P<head> +)~(?P<tail> *$)"@
    }
}

/// The replacement of a `~`: what surrounded it, with `home` in its place.
pub open spec fn home_replacement(home: Seq<char>) -> Seq<char> {
    "$head"@ + home + "$tail"@
}

/// `text` after the home patterns from the `i`-th on have been replaced in
/// turn; a pattern that does not compile ends the expansion.
pub open spec fn expand_home_from(text: Seq<char>, home: Seq<char>, i: int) -> Seq<char>
    decreases 4 - i,
{
    if i >= 4 || !regex_compiles(home_pattern(i)) {
        text
    } else {
        expand_home_from(regex_replace_all(home_pattern(i), text, home_replacement(home)), home, i + 1)
    }
}

/// The `i`-th home pattern.
fn home_pattern_at(i: usize) -> (p: &'static str)
    ensures
        p@ == home_pattern(i as int),
{
    if i == 0 {
        "(?P<head> +)~(?P<tail> +)"
    } else if i == 1 {
        "(?P<head> +)~(?P<tail>/)"
    } else if i == 2 {
        "^(?P<head> *)~(?P<tail>/)"
    } else {
        "(?P<head> +)~(?P<tail> *$)"
    }
}

/// Replaces each `~` in `text` that stands for the home directory by
/// `home`.
pub fn expand_home_string(text: &mut String, home: &str)
    ensures
        final(text)@ == expand_home_from(old(text)@, home@, 0),
{
    let mut to = String::new();
    to.append("$head");
    to.append(home);
    to.append("$tail");
    let mut i: usize = 0;
    while i < 4
        invariant
            i <= 4,
            to@ == home_replacement(home@),
            expand_home_from(old(text)@, home@, 0) == expand_home_from(text@, home@, i as int),
        decreases 4 - i,
    {
        let re = match compile(home_pattern_at(i)) {
            Some(re) => re,
            None => return,
        };
        let result = re.replace_all(text.as_str(), to.as_str());
        *text = result;
        i = i + 1;
    }
}

/// The pattern of a leading variable reference; its group is the name.
pub const ENV_REFERENCE: &'static str = "^\\$([A-Za-z_][A-Za-z0-9_]*)";

/// The variable whose value would replace the start of `text`: the name
/// after a leading `$`.
pub open spec fn env_reference(text: Seq<char>) -> Option<Seq<char>> {
    if text.len() > 0 && text[0] == '$' {
        first_group(ENV_REFERENCE@, text)
    } else {
        None
    }
}

/// The name of the variable that a leading `$NAME` in `text` refers to.
pub fn env_var_to_expand(text: &str) -> (r: Option<String>)
    ensures
        match env_reference(text@) {
            Some(n) => r matches Some(s) && s@ == n,
            None => r is None,
        },
{
    let starts = match text.chars().next() {
        Some(c) => c == '$',
        None => false,
    };
    if !starts {
        return None;
    }
    find_first_group(ENV_REFERENCE, text)
}

/// What `expand_env_string` makes of `text`, given the value of the
/// variable it refers to.
pub open spec fn env_expanded(text: Seq<char>, value: Seq<char>) -> Seq<char> {
    if env_reference(text) is Some && value.len() > 0 {
        regex_replace_all(ENV_REFERENCE@, text, value)
    } else {
        text
    }
}

/// Replaces a leading `$NAME` in `text` by `value`, the value of that
/// variable (empty when it is not set); an empty value leaves `text` as it
/// is.
pub fn expand_env_string(text: &mut String, value: &str)
    ensures
        final(text)@ == env_expanded(old(text)@, value@),
{
    if env_var_to_expand(text.as_str()).is_none() {
        return;
    }
    if value.unicode_len() == 0 {
        return;
    }
    let t = text.clone();
    *text = replace_all(t.as_str(), ENV_REFERENCE, value);
}

} // verus!
