//! The `read` builtin: which variables it sets, and to what, from the
//! fields of the line it read.
use vstd::prelude::*;

use crate::re::{re_contains, regex_compiles, regex_is_match};
use crate::text::{join_seq, join_strings, strings_view};

verus! {

/// The pattern a variable name must match.
pub const IDENTIFIER: &'static str = "^[a-zA-Z_][a-zA-Z0-9_]*$";

/// Whether `name` is a valid variable name.
pub open spec fn valid_identifier(name: Seq<char>) -> bool {
    regex_compiles(IDENTIFIER@) && regex_is_match(IDENTIFIER@, name)
}

/// The index of the first name in `names` that is not a valid identifier.
pub open spec fn first_invalid(names: Seq<Seq<char>>, from: int) -> Option<int>
    decreases names.len() - from,
{
    if from < 0 || from >= names.len() {
        None
    } else if !valid_identifier(names[from]) {
        Some(from)
    } else {
        first_invalid(names, from + 1)
    }
}

/// The first name in `names` that is not a valid identifier, if any.
pub fn find_invalid_identifier(names: &Vec<String>) -> (r: Option<String>)
    ensures
        match first_invalid(strings_view(names@), 0) {
            Some(k) => r matches Some(s) && s@ == names@[k]@,
            None => r is None,
        },
{
    let ghost v = strings_view(names@);
    let mut i: usize = 0;
    while i < names.len()
        invariant
            i <= names@.len(),
            v == strings_view(names@),
            first_invalid(v, 0) == first_invalid(v, i as int),
        decreases names@.len() - i,
    {
        if !re_contains(names[i].as_str(), IDENTIFIER) {
            return Some(names[i].clone());
        }
        i = i + 1;
    }
    None
}

/// The names `read` assigns to: those given, or `REPLY` when none is.
pub open spec fn read_names(args: Seq<Seq<char>>) -> Seq<Seq<char>> {
    if args.len() == 0 {
        seq!["REPLY"@]
    } else {
        args
    }
}

/// The value that the `i`-th of `n` names receives from `values`: each
/// but the last takes one field (or nothing when the fields run out), and
/// the last takes all the fields left, joined by spaces.
pub open spec fn read_value(values: Seq<Seq<char>>, n: int, i: int) -> Seq<char> {
    if i < n - 1 {
        if i < values.len() {
            values[i]
        } else {
            Seq::empty()
        }
    } else if values.len() > n - 1 {
        join_seq(values.skip(n - 1), " "@)
    } else {
        Seq::empty()
    }
}

/// The names `read` assigns to, given the arguments after `read`.
pub fn names_to_read(args: &Vec<String>) -> (r: Vec<String>)
    ensures
        strings_view(r@) == read_names(strings_view(args@)),
{
    if args.len() == 0 {
        let r = vec!["REPLY".to_string()];
        assert(strings_view(r@) =~= read_names(strings_view(args@)));
        r
    } else {
        args.clone()
    }
}

/// The assignments `read` makes, in order: each of `names` with the value
/// it receives from the fields `values`.
pub fn read_assignments(names: &Vec<String>, values: &Vec<String>) -> (r: Vec<(String, String)>)
    requires
        names@.len() > 0,
    ensures
        r@.len() == names@.len(),
        forall|i: int|
            0 <= i < names@.len() ==> (#[trigger] r@[i]).0@ == names@[i]@ && r@[i].1@ == read_value(
                strings_view(values@),
                names@.len() as int,
                i,
            ),
{
    let n = names.len();
    let last = n - 1;
    let mut r: Vec<(String, String)> = Vec::new();
    let mut i: usize = 0;
    while i < last
        invariant
            n == names@.len(),
            last == n - 1,
            i <= last,
            r@.len() == i,
            forall|k: int|
                0 <= k < i ==> (#[trigger] r@[k]).0@ == names@[k]@ && r@[k].1@ == read_value(
                    strings_view(values@),
                    n as int,
                    k,
                ),
        decreases last - i,
    {
        let value = if i < values.len() {
            values[i].clone()
        } else {
            String::new()
        };
        r.push((names[i].clone(), value));
        i = i + 1;
    }
    let value_left = if values.len() > last {
        let rest = values.as_slice().split_at(last).1;
        assert(rest@ =~= values@.skip(last as int));
        assert(strings_view(rest@) =~= strings_view(values@).skip(last as int));
        let s = join_strings(rest, " ");
        s
    } else {
        String::new()
    };
    r.push((names[last].clone(), value_left));
    r
}

} // verus!
