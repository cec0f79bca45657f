//! Completion of environment variable names after a `$`.
use vstd::prelude::*;

use crate::completers::{push_prefixed, with_prefix};
use crate::text::strings_view;
use crate::text::{chars_of, push_char, trim, trimmed};

verus! {

/// `$` followed by each of `names`.
pub open spec fn dollar_names(names: Seq<Seq<char>>) -> Seq<Seq<char>> {
    names.map_values(|n: Seq<char>| seq!['$'] + n)
}

/// The completions of `word`, a `$` and the start of a name, among the
/// variable names `names`: each name that starts with `word` less its first
/// character, behind a `$`. A blank word completes to nothing.
pub open spec fn env_completion_list(word: Seq<char>, names: Seq<Seq<char>>) -> Seq<Seq<char>> {
    if trim(word).len() == 0 {
        Seq::empty()
    } else {
        dollar_names(with_prefix(names, word.drop_first()))
    }
}

/// The completions of `word` among `names`, the names of the process's
/// environment followed by those the shell keeps.
pub fn env_completions(word: &str, names: &Vec<String>) -> (r: Vec<String>)
    ensures
        strings_view(r@) == env_completion_list(word@, strings_view(names@)),
{
    let v = chars_of(word);
    let t = trimmed(&v);
    if t.len() == 0 {
        return Vec::new();
    }
    let mut prefix = String::new();
    let mut k: usize = 1;
    while k < v.len()
        invariant
            v@ == word@,
            1 <= k <= v@.len(),
            prefix@ == v@.subrange(1, k as int),
        decreases v@.len() - k,
    {
        push_char(&mut prefix, v[k]);
        proof {
            assert(prefix@ =~= v@.subrange(1, k + 1));
        }
        k = k + 1;
    }
    assert(prefix@ =~= word@.drop_first());
    let mut found: Vec<String> = Vec::new();
    push_prefixed(&mut found, names, prefix.as_str());
    assert(strings_view(found@) =~= with_prefix(strings_view(names@), word@.drop_first()));
    let mut res: Vec<String> = Vec::new();
    let mut i: usize = 0;
    while i < found.len()
        invariant
            i <= found@.len(),
            strings_view(res@) == dollar_names(strings_view(found@.take(i as int))),
        decreases found@.len() - i,
    {
        let mut s = String::new();
        push_char(&mut s, '$');
        s.append(found[i].as_str());
        assert(s@ =~= seq!['$'] + found@[i as int]@);
        let ghost before = strings_view(res@);
        res.push(s);
        proof {
            assert(strings_view(res@) =~= before.push(seq!['$'] + found@[i as int]@));
            assert(strings_view(found@.take(i + 1)) =~= strings_view(found@.take(i as int)).push(found@[i as int]@));
            assert(strings_view(res@) =~= dollar_names(strings_view(found@.take(i + 1))));
        }
        i = i + 1;
    }
    proof {
        assert(found@.take(found@.len() as int) =~= found@);
    }
    res
}

} // verus!
