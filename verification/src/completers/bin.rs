//! Completion of a command name: shell functions, aliases, builtins and the
//! programs found on `PATH`, each name offered once.
use vstd::prelude::*;

use crate::text::strings_view;
use crate::completers::completion::{
    completion_view, completions_view, sort_by_completion, sort_completions, sorted_by_completion, Completion,
    CompletionView, Suffix,
};
use crate::completers::quote::{escape_path, escape_path_spec};
use crate::text::{str_eq, str_starts_with};

verus! {

/// The builtins offered when a command name is completed.
pub open spec fn builtin_names() -> Seq<Seq<char>> {
    seq![
        "alias"@, "bg"@, "cd"@, "cinfo"@, "exec"@, "exit"@, "export"@, "fg"@, "history"@,
        "jobs"@, "read"@, "source"@, "ulimit"@, "unalias"@, "vox"@, "minfd"@, "set"@, "unset"@,
        "unpath"@,
    ]
}

/// `acc` extended with the names of `names` that start with `word` and are
/// not already there, in order.
pub open spec fn add_fresh(acc: Seq<Seq<char>>, names: Seq<Seq<char>>, word: Seq<char>) -> Seq<
    Seq<char>,
>
    decreases names.len(),
{
    if names.len() == 0 {
        acc
    } else {
        let prev = add_fresh(acc, names.drop_last(), word);
        let n = names.last();
        if word.is_prefix_of(n) && !prev.contains(n) {
            prev.push(n)
        } else {
            prev
        }
    }
}

/// The command names that complete `word`: functions first, then aliases,
/// builtins and programs, each once.
pub open spec fn command_names(
    word: Seq<char>,
    funcs: Seq<Seq<char>>,
    aliases: Seq<Seq<char>>,
    programs: Seq<Seq<char>>,
) -> Seq<Seq<char>> {
    add_fresh(shell_names(word, funcs, aliases), programs, word)
}

/// The names among functions, aliases and builtins that complete `word`.
pub open spec fn shell_names(word: Seq<char>, funcs: Seq<Seq<char>>, aliases: Seq<Seq<char>>) -> Seq<
    Seq<char>,
> {
    add_fresh(add_fresh(add_fresh(Seq::empty(), funcs, word), aliases, word), builtin_names(), word)
}

/// The builtins offered when a command name is completed.
fn completion_builtins() -> (v: Vec<String>)
    ensures
        strings_view(v@) == builtin_names(),
{
    let names = vec![
        "alias", "bg", "cd", "cinfo", "exec", "exit", "export", "fg", "history", "jobs", "read",
        "source", "ulimit", "unalias", "vox", "minfd", "set", "unset", "unpath",
    ];
    let mut v: Vec<String> = Vec::new();
    let mut i: usize = 0;
    while i < names.len()
        invariant
            i <= names@.len(),
            names@.len() == 19,
            names@ == seq![
                "alias", "bg", "cd", "cinfo", "exec", "exit", "export", "fg", "history", "jobs",
                "read", "source", "ulimit", "unalias", "vox", "minfd", "set", "unset", "unpath",
            ],
            strings_view(v@) == names@.take(i as int).map_values(|s: &str| s@),
        decreases names@.len() - i,
    {
        let ghost before = strings_view(v@);
        v.push(names[i].to_string());
        proof {
            assert(strings_view(v@) =~= before.push(names@[i as int]@));
            assert(names@.take(i + 1).map_values(|s: &str| s@) =~= names@.take(i as int).map_values(
                |s: &str| s@,
            ).push(names@[i as int]@));
        }
        i = i + 1;
    }
    assert(names@.take(19) =~= names@);
    assert(strings_view(v@) =~= builtin_names());
    v
}

/// Whether `s` is among `v`.
fn contains_str(v: &Vec<String>, s: &str) -> (b: bool)
    ensures
        b == strings_view(v@).contains(s@),
{
    let mut i: usize = 0;
    while i < v.len()
        invariant
            i <= v@.len(),
            forall|k: int| 0 <= k < i ==> v@[k]@ != s@,
        decreases v@.len() - i,
    {
        if str_eq(v[i].as_str(), s) {
            assert(strings_view(v@)[i as int] == s@);
            return true;
        }
        i = i + 1;
    }
    proof {
        if strings_view(v@).contains(s@) {
            let k = choose|k: int| 0 <= k < strings_view(v@).len() && strings_view(v@)[k] == s@;
            assert(v@[k]@ == s@);
        }
    }
    false
}

/// Appends to `out` the names of `names` that start with `word` and are not
/// in `out` yet.
fn push_fresh(out: &mut Vec<String>, names: &Vec<String>, word: &str)
    ensures
        strings_view(final(out)@) == add_fresh(strings_view(old(out)@), strings_view(names@), word@),
{
    let ghost start = strings_view(out@);
    let mut i: usize = 0;
    while i < names.len()
        invariant
            i <= names@.len(),
            strings_view(out@) == add_fresh(start, strings_view(names@.take(i as int)), word@),
        decreases names@.len() - i,
    {
        let ghost before = strings_view(out@);
        proof {
            assert(strings_view(names@.take(i + 1)).drop_last() =~= strings_view(names@.take(i as int)));
            assert(strings_view(names@.take(i + 1)).last() == names@[i as int]@);
        }
        let name = names[i].as_str();
        if str_starts_with(name, word) && !contains_str(out, name) {
            out.push(names[i].clone());
            proof {
                assert(strings_view(out@) =~= before.push(names@[i as int]@));
            }
        }
        i = i + 1;
    }
    proof {
        assert(names@.take(names@.len() as int) =~= names@);
    }
}

/// A name offered as it is, with no display text and the usual suffix.
pub open spec fn plain_completion(text: Seq<char>) -> CompletionView {
    CompletionView { completion: text, display: None, suffix: Suffix::Default }
}

/// The completions of a command name, before sorting: the names from the
/// shell as they are, then the programs, escaped, behind `prefix`, the part
/// of the line before the word.
pub open spec fn unsorted_command_completions(
    word: Seq<char>,
    prefix: Seq<char>,
    funcs: Seq<Seq<char>>,
    aliases: Seq<Seq<char>>,
    programs: Seq<Seq<char>>,
) -> Seq<CompletionView> {
    let all = command_names(word, funcs, aliases, programs);
    let n = shell_names(word, funcs, aliases).len();
    Seq::new(
        all.len(),
        |i: int| if i < n { plain_completion(all[i]) } else { plain_completion(prefix + escape_path_spec(all[i])) },
    )
}

/// The completions of a command name, sorted by their text.
pub open spec fn command_completions(
    word: Seq<char>,
    prefix: Seq<char>,
    funcs: Seq<Seq<char>>,
    aliases: Seq<Seq<char>>,
    programs: Seq<Seq<char>>,
) -> Seq<CompletionView> {
    sort_completions(unsorted_command_completions(word, prefix, funcs, aliases, programs))
}

/// The completions of the command name `word`: shell functions, aliases,
/// builtins and `programs`, the executables found on `PATH`, each name
/// once, sorted by their text. The programs come behind `prefix`, the part
/// of the line before the word, with a backslash before each character
/// the shell reads specially.
pub fn command_candidates(
    word: &str,
    prefix: &str,
    funcs: &Vec<String>,
    aliases: &Vec<String>,
    programs: &Vec<String>,
) -> (r: Vec<Completion>)
    ensures
        completions_view(r@) == command_completions(
            word@,
            prefix@,
            strings_view(funcs@),
            strings_view(aliases@),
            strings_view(programs@),
        ),
        sorted_by_completion(completions_view(r@)),
{
    let mut res: Vec<String> = Vec::new();
    assert(strings_view(res@) =~= Seq::<Seq<char>>::empty());
    push_fresh(&mut res, funcs, word);
    push_fresh(&mut res, aliases, word);
    let builtins = completion_builtins();
    push_fresh(&mut res, &builtins, word);
    let n = res.len();
    push_fresh(&mut res, programs, word);
    let ghost all = strings_view(res@);
    let ghost target = unsorted_command_completions(
        word@,
        prefix@,
        strings_view(funcs@),
        strings_view(aliases@),
        strings_view(programs@),
    );
    let mut out: Vec<Completion> = Vec::new();
    let mut i: usize = 0;
    while i < res.len()
        invariant
            all == strings_view(res@),
            target.len() == all.len(),
            n as int == shell_names(word@, strings_view(funcs@), strings_view(aliases@)).len(),
            all == command_names(word@, strings_view(funcs@), strings_view(aliases@), strings_view(programs@)),
            target == unsorted_command_completions(
                word@,
                prefix@,
                strings_view(funcs@),
                strings_view(aliases@),
                strings_view(programs@),
            ),
            i <= res@.len(),
            completions_view(out@) == target.take(i as int),
        decreases res@.len() - i,
    {
        let mut text = String::new();
        if i >= n {
            text.append(prefix);
            let e = escape_path(res[i].as_str());
            text.append(e.as_str());
        } else {
            text.append(res[i].as_str());
        }
        let c = Completion { completion: text, display: None, suffix: Suffix::Default };
        let ghost before = completions_view(out@);
        out.push(c);
        proof {
            assert(completion_view(c) == target[i as int]);
            assert(completions_view(out@) =~= before.push(completion_view(c)));
            assert(target.take(i + 1) =~= target.take(i as int).push(target[i as int]));
        }
        i = i + 1;
    }
    proof {
        assert(target.take(target.len() as int) =~= target);
    }
    sort_by_completion(out)
}

/// What `add_fresh` adds keeps the list free of repeats, starts with
/// `word`, and leaves out no name of `names` that starts with `word`.
pub proof fn lemma_add_fresh(acc: Seq<Seq<char>>, names: Seq<Seq<char>>, word: Seq<char>)
    requires
        acc.no_duplicates(),
    ensures
        add_fresh(acc, names, word).no_duplicates(),
        acc.is_prefix_of(add_fresh(acc, names, word)),
        forall|i: int|
            acc.len() <= i < add_fresh(acc, names, word).len() ==> word.is_prefix_of(
                #[trigger] add_fresh(acc, names, word)[i],
            ) && names.contains(add_fresh(acc, names, word)[i]),
        forall|n: Seq<char>| #[trigger]
            names.contains(n) && word.is_prefix_of(n) ==> add_fresh(acc, names, word).contains(n),
    decreases names.len(),
{
    if names.len() > 0 {
        let prev = add_fresh(acc, names.drop_last(), word);
        lemma_add_fresh(acc, names.drop_last(), word);
        let r = add_fresh(acc, names, word);
        let last = names.last();
        assert forall|i: int| acc.len() <= i < r.len() implies word.is_prefix_of(#[trigger] r[i])
            && names.contains(r[i]) by {
            if i < prev.len() {
                assert(names.drop_last().contains(prev[i]));
                let k = choose|k: int| 0 <= k < names.drop_last().len() && names.drop_last()[k] == prev[i];
                assert(names[k] == prev[i]);
            } else {
                assert(names[names.len() - 1] == last);
            }
        }
        assert forall|n: Seq<char>| #[trigger]
            names.contains(n) && word.is_prefix_of(n) implies r.contains(n) by {
            let k = choose|k: int| 0 <= k < names.len() && names[k] == n;
            if k < names.len() - 1 {
                assert(names.drop_last()[k] == n);
                assert(names.drop_last().contains(n));
                assert(prev.contains(n));
                let j = choose|j: int| 0 <= j < prev.len() && prev[j] == n;
                assert(r[j] == n);
            } else {
                if !prev.contains(n) {
                    assert(r[r.len() - 1] == n);
                } else {
                    let j = choose|j: int| 0 <= j < prev.len() && prev[j] == n;
                    assert(r[j] == n);
                }
            }
        }
        assert(acc.is_prefix_of(r)) by {
            assert(r.subrange(0, acc.len() as int) =~= prev.subrange(0, acc.len() as int));
        }
    } else {
        assert(acc.subrange(0, acc.len() as int) =~= acc);
    }
}

/// Completing a command name offers each name at most once, offers only
/// names that start with the word, and offers every function, alias,
/// builtin and program whose name starts with it.
pub proof fn lemma_command_names_distinct(
    word: Seq<char>,
    funcs: Seq<Seq<char>>,
    aliases: Seq<Seq<char>>,
    programs: Seq<Seq<char>>,
)
    ensures
        command_names(word, funcs, aliases, programs).no_duplicates(),
        forall|i: int|
            0 <= i < command_names(word, funcs, aliases, programs).len() ==> word.is_prefix_of(
                #[trigger] command_names(word, funcs, aliases, programs)[i],
            ),
        forall|n: Seq<char>|
            (funcs.contains(n) || aliases.contains(n) || builtin_names().contains(n) || programs.contains(n))
                && word.is_prefix_of(n) ==> #[trigger] command_names(word, funcs, aliases, programs).contains(n),
{
    let e = Seq::<Seq<char>>::empty();
    let a = add_fresh(e, funcs, word);
    let b = add_fresh(a, aliases, word);
    let c = add_fresh(b, builtin_names(), word);
    let d = add_fresh(c, programs, word);
    lemma_add_fresh(e, funcs, word);
    lemma_add_fresh(a, aliases, word);
    lemma_add_fresh(b, builtin_names(), word);
    lemma_add_fresh(c, programs, word);
    assert forall|i: int| 0 <= i < d.len() implies word.is_prefix_of(#[trigger] d[i]) by {
        if i >= c.len() {
        } else if i >= b.len() {
            assert(d[i] == c[i]);
        } else if i >= a.len() {
            assert(d[i] == c[i]);
            assert(c[i] == b[i]);
        } else {
            assert(d[i] == c[i]);
            assert(c[i] == b[i]);
            assert(b[i] == a[i]);
        }
    }
    assert forall|n: Seq<char>|
        (funcs.contains(n) || aliases.contains(n) || builtin_names().contains(n) || programs.contains(n))
            && word.is_prefix_of(n) implies #[trigger] d.contains(n) by {
        if funcs.contains(n) {
            assert(a.contains(n));
            let j = choose|j: int| 0 <= j < a.len() && a[j] == n;
            assert(b[j] == n && c[j] == n && d[j] == n);
        } else if aliases.contains(n) {
            let j = choose|j: int| 0 <= j < b.len() && b[j] == n;
            assert(c[j] == n && d[j] == n);
        } else if builtin_names().contains(n) {
            let j = choose|j: int| 0 <= j < c.len() && c[j] == n;
            assert(d[j] == n);
        }
    }
}

} // verus!
