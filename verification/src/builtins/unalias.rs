//! The `unalias`, `source` and `exec` builtins: what their arguments ask for.
use vstd::prelude::*;
use vstd::string::StringExecFns;

use crate::text::strings_view;

verus! {

/// What `unalias` prints when not given exactly one name.
pub const UNALIAS_SYNTAX_ERROR: &'static str = "cicada: unalias: syntax error";

/// The name `unalias` with the words `tokens` (its own name first) removes:
/// `None` unless it is given exactly one.
pub fn unalias_name(tokens: &Vec<String>) -> (r: Option<String>)
    ensures
        tokens@.len() != 2 ==> r is None,
        tokens@.len() == 2 ==> (r matches Some(n) && n@ == tokens@[1]@),
{
    if tokens.len() != 2 {
        None
    } else {
        Some(tokens[1].clone())
    }
}

/// What `unalias` prints when there is no alias `name`.
pub fn unalias_not_found(name: &str) -> (s: String)
    ensures
        s@ == "cicada: unalias: "@ + name@ + ": not found"@,
{
    let mut s = String::from_str("cicada: unalias: ");
    s.append(name);
    s.append(": not found");
    s
}

/// What `source` prints when given no file.
pub const SOURCE_NO_FILE: &'static str = "cicada: source: no file specified";

/// Whether `source` with the arguments `args` (its own name first) runs a
/// script: it needs a file.
pub fn source_has_file(args: &Vec<String>) -> (b: bool)
    ensures
        b == (args@.len() >= 2),
{
    args.len() >= 2
}

/// The program and its arguments that `exec` with the arguments `args`
/// (its own name first) replaces the shell with; `None` when it is given no
/// program, and prints `invalid usage`.
pub fn exec_request(args: &Vec<String>) -> (r: Option<(String, Vec<String>)>)
    ensures
        args@.len() <= 1 ==> r is None,
        args@.len() > 1 ==> (r matches Some((p, rest)) && p@ == args@[1]@ && strings_view(rest@) == strings_view(
            args@,
        ).skip(2)),
{
    if args.len() <= 1 {
        return None;
    }
    let mut rest: Vec<String> = Vec::new();
    let mut i: usize = 2;
    while i < args.len()
        invariant
            2 <= i <= args@.len(),
            strings_view(rest@) == strings_view(args@).subrange(2, i as int),
        decreases args@.len() - i,
    {
        let ghost before = strings_view(rest@);
        rest.push(args[i].clone());
        proof {
            assert(strings_view(rest@) =~= before.push(args@[i as int]@));
            assert(strings_view(args@).subrange(2, i + 1) =~= strings_view(args@).subrange(2, i as int).push(
                args@[i as int]@,
            ));
        }
        i = i + 1;
    }
    proof {
        assert(strings_view(args@).subrange(2, args@.len() as int) =~= strings_view(args@).skip(2));
    }
    Some((args[1].clone(), rest))
}

/// What `exec` prints when the program could not replace the shell, with
/// the error `err`.
pub fn exec_failed(err: &str) -> (s: String)
    ensures
        s@ == "cicada: exec: "@ + err@,
{
    let mut s = String::from_str("cicada: exec: ");
    s.append(err);
    s
}

} // verus!
